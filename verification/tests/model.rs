//! The model as plain data: architecture, state, parameters, step and emission.

use candle_core::{Device, Tensor};
use vole_field::model::cell::{clamp, correct, gate, next_carry, spread};
use vole_field::model::checkpoint::{
    fallback_for, is_canonical_checkpoint, read_checkpoint, ReadOutcome, CHECKPOINT_PATH,
};
use vole_field::model::config::{ModelConfig, CARRY_CHANNELS, HEAD_HIDDEN, IN_CHANNELS};
use vole_field::model::floats::{all_finite, f32s_to_le_bytes, le_bytes_to_f32s, less32};
use vole_field::model::header::{sizes_can_be_counted, MAX_HEADER_BYTES};
use vole_field::model::params::{CheckpointError, ConvLstm, RawTensor, PARAM_NAMES};
use vole_field::model::state::{State, TensorError};
use vole_field::model::tensors::{add_lists, convolve, multiply_lists, sigmoid, tanh};
use vole_field::model::work::{WorkMeter, WorkTotals};
use vole_field::scene::Control;
use vole_field::state::hashes::{hash_hex, weights_hash};
use vole_field::train::write::{checkpoint_bytes, reload_verified};

/// Small reproducible numbers in `-scale..scale`.
fn numbers(n: usize, scale: f32, seed: u64) -> Vec<u32> {
    let mut s = seed;
    (0..n)
        .map(|_| {
            s = s.wrapping_mul(6364136223846793005).wrapping_add(1442695040888963407);
            let unit = ((s >> 40) as f32) / 16777216.0;
            ((unit * 2.0 - 1.0) * scale).to_bits()
        })
        .collect()
}

fn tensor(name: &str, dims: &[usize], bits: Vec<u32>) -> RawTensor {
    RawTensor {
        name: name.to_string(),
        dims: dims.to_vec(),
        dtype: "F32".to_string(),
        data: f32s_to_le_bytes(&bits),
    }
}

/// The tensors of a freshly initialised model.
fn tensors() -> Vec<RawTensor> {
    vec![
        tensor(PARAM_NAMES[0], &[32, 11, 3, 3], numbers(32 * 11 * 9, 0.12, 1)),
        tensor(PARAM_NAMES[1], &[32], vec![0; 32]),
        tensor(PARAM_NAMES[2], &[8, 10, 3, 3], numbers(8 * 10 * 9, 0.12, 2)),
        tensor(PARAM_NAMES[3], &[8], vec![0; 8]),
        tensor(PARAM_NAMES[4], &[1, 8, 1, 1], numbers(8, 0.12, 3)),
        tensor(PARAM_NAMES[5], &[1], vec![0; 1]),
    ]
}

fn model() -> ConvLstm {
    ConvLstm::new(ModelConfig::default(), &tensors()).unwrap()
}

fn frame() -> Vec<u32> {
    numbers(1024, 0.5, 9)
        .into_iter()
        .map(|b| (f32::from_bits(b) + 0.5).to_bits())
        .collect()
}

fn values(bits: &[u32]) -> Vec<f32> {
    bits.iter().map(|b| f32::from_bits(*b)).collect()
}

#[test]
fn parameter_shapes_match_the_built_model() {
    let m = model();
    let named = m.named_parameters();
    let shapes = ConvLstm::parameter_shapes(&m.cfg);
    assert_eq!(shapes.len(), named.len());
    for ((name, shape), (actual_name, t)) in shapes.iter().zip(named.iter()) {
        assert_eq!(name, actual_name);
        assert_eq!(shape.as_slice(), t.dims.as_slice(), "shape of {name}");
    }
}

#[test]
fn the_head_starts_as_a_pure_persistence_predictor() {
    let cfg = ModelConfig::default();
    let mut all = tensors();
    let (w, b) = ConvLstm::persistence_head(&cfg);
    all[4] = tensor(PARAM_NAMES[4], &[1, HEAD_HIDDEN, 1, 1], w);
    all[5] = tensor(PARAM_NAMES[5], &[1], b);
    let m = ConvLstm::new(cfg, &all).unwrap();

    let mut s = State::zeros(&cfg, 1);
    let frame = frame();
    let ctrl = vec![0u32; 2 * 1024];
    s = m.cell(&frame, &ctrl, &s).unwrap();
    let y = m.head(&s).unwrap();
    assert_eq!(
        values(&y),
        values(&frame),
        "the persistence initialisation must emit the carry bit for bit"
    );
}

#[test]
fn declared_work_matches_the_architecture() {
    let cfg = ModelConfig::default();
    let w = cfg.step_work();
    let h = cfg.hidden_channels as u64;
    let s = cfg.spatial();
    assert_eq!(w.cell_macs, s * (IN_CHANNELS as u64 + h) * 4 * h * 9);
    assert_eq!(
        w.head_macs,
        s * HEAD_HIDDEN as u64 * (h + CARRY_CHANNELS as u64) * 9 + s * HEAD_HIDDEN as u64
    );
    assert_eq!(w.cell_nonlinearities, 5 * h * s);
    assert_eq!(cfg.state_floats(), (2 * h + CARRY_CHANNELS as u64) * s);
}

#[test]
fn parameter_count_matches_the_named_tensors() {
    let m = model();
    let n: u64 = m
        .named_parameters()
        .iter()
        .map(|(_, t)| t.bits.len() as u64)
        .sum();
    assert_eq!(n, m.cfg.parameter_count());
}

#[test]
fn state_round_trips_bit_exactly() {
    let cfg = ModelConfig::default();
    let mut st = State::zeros(&cfg, 1);
    st.h = numbers(st.h.len(), 3.0, 21);
    st.c = numbers(st.c.len(), 0.5, 22);
    st.carry = numbers(st.carry.len(), 1.0, 23);
    let hb = st.h_bytes();
    let cb = st.c_bytes();
    let kb = st.carry_bytes();
    let back = State::from_bytes(&cfg, 1, &hb, &cb, &kb).unwrap();
    assert_eq!(back.h_bytes(), hb);
    assert_eq!(back.c_bytes(), cb);
    assert_eq!(back.carry_bytes(), kb);
    assert_eq!(
        hash_hex(&hb),
        hash_hex(&back.h_bytes()),
        "restored H must hash identically"
    );
    assert!(st.is_finite());
}

#[test]
fn cell_changes_state_and_head_stays_in_range() {
    let m = model();
    let cfg = m.cfg;
    let s0 = State::zeros(&cfg, 1);
    let frame = vec![0u32; 1024];
    let ctrl = vec![1.0f32.to_bits(); 2048];

    let y0 = m.head(&s0).unwrap();
    assert_eq!(y0.len(), cfg.height * cfg.width);
    assert!(values(&y0).iter().all(|x| (0.0..=1.0).contains(x)));

    let s1 = m.cell(&frame, &ctrl, &s0).unwrap();
    let y = m.head(&s1).unwrap();
    assert_eq!(y.len(), cfg.height * cfg.width);
    assert!(values(&y).iter().all(|x| (0.0..=1.0).contains(x)));
    assert!(s1.h_bytes() != s0.h_bytes());
    assert!(s1.is_finite());
    assert_eq!(s1.carry.len(), CARRY_CHANNELS * cfg.height * cfg.width);
    assert_eq!(values(&s1.carry[..1024]), values(&frame));
}

#[test]
fn repeated_stepping_is_deterministic() {
    let m = model();
    let cfg = m.cfg;
    let frame = frame();
    let ctrl = vec![1.0f32.to_bits(); 2048];
    let run = || {
        let mut s = State::zeros(&cfg, 1);
        for _ in 0..16 {
            s = m.cell(&frame, &ctrl, &s).unwrap();
            s = m.cell(&frame, &ctrl, &s).unwrap();
        }
        hash_hex(&s.h_bytes())
    };
    assert_eq!(run(), run());
}

#[test]
fn canonical_bytes_encode_the_config() {
    let cfg = ModelConfig::default();
    let a = cfg.canonical_bytes();
    let mut other = cfg;
    other.hidden_channels = 6;
    assert_ne!(a, other.canonical_bytes());
    assert_eq!(a, ModelConfig::default().canonical_bytes());
}

#[test]
fn initial_gate_bias_opens_the_forget_gate() {
    let cfg = ModelConfig::default();
    let b = values(&ConvLstm::initial_gate_bias(&cfg));
    let h = cfg.hidden_channels;
    assert!(b[..h].iter().all(|v| *v == 0.0));
    assert!(b[h..2 * h].iter().all(|v| *v == 1.0));
    assert!(b[2 * h..].iter().all(|v| *v == 0.0));
}

#[test]
fn the_fallback_fires_only_for_an_absent_canonical_checkpoint() {
    assert!(is_canonical_checkpoint(CHECKPOINT_PATH));
    assert!(!is_canonical_checkpoint("elsewhere/other.safetensors"));

    // The one case that may substitute.
    assert!(fallback_for(CHECKPOINT_PATH, true));
    assert_eq!(
        read_checkpoint(
            CHECKPOINT_PATH,
            ReadOutcome::Failed { not_found: true, error: "gone".to_string() },
            &[1, 2, 3],
        ),
        Ok(vec![1, 2, 3])
    );
    // A checkpoint named explicitly is never substituted, even when missing.
    assert!(!fallback_for("elsewhere/other.safetensors", true));
    // A canonical path that failed for any other reason is a real error.
    assert!(!fallback_for(CHECKPOINT_PATH, false));
}

#[test]
fn a_checkpoint_that_was_named_explicitly_is_never_substituted() {
    let missing = format!("no-such-directory/{CHECKPOINT_PATH}");
    let read = ReadOutcome::Failed {
        not_found: true,
        error: "No such file or directory (os error 2)".to_string(),
    };
    let err = read_checkpoint(&missing, read, &[1]).unwrap_err();
    assert!(err.starts_with("read "), "unexpected error: {err}");
}

#[test]
fn paths_are_quoted_as_paths() {
    let read = ReadOutcome::Failed { not_found: true, error: "gone".to_string() };
    let name = "it's a \"model\".safetensors";
    let path = std::path::Path::new(name);
    assert_eq!(read_checkpoint(name, read, &[1]), Err(format!("read {path:?}: gone")));
    let e = CheckpointError::Missing { name: "w" };
    assert_eq!(e.message(name), format!("checkpoint {path:?} is missing parameter w"));
}

#[test]
fn a_readable_checkpoint_is_taken_as_it_is() {
    let read = ReadOutcome::Bytes(vec![7, 8]);
    assert_eq!(read_checkpoint(CHECKPOINT_PATH, read, &[1]), Ok(vec![7, 8]));
}

#[test]
fn canonical_paths_are_compared_by_component() {
    assert!(is_canonical_checkpoint("assets//tiny_convlstm.safetensors"));
    assert!(is_canonical_checkpoint("assets/./tiny_convlstm.safetensors"));
    assert!(!is_canonical_checkpoint("./assets/tiny_convlstm.safetensors"));
    assert!(!is_canonical_checkpoint("/assets/tiny_convlstm.safetensors"));
    assert!(!is_canonical_checkpoint("assets/tiny_convlstm.safetensors.bak"));
}

#[test]
fn declared_numbers_of_the_default_architecture() {
    let cfg = ModelConfig::default();
    let w = cfg.step_work();
    assert_eq!(cfg.parameter_count(), 3937);
    assert_eq!(w.cell_macs, 3_244_032);
    assert_eq!(w.cell_bias_adds, 32_768);
    assert_eq!(w.cell_nonlinearities, 40_960);
    assert_eq!(w.head_macs, 745_472);
    assert_eq!(cfg.state_floats() * 4, 73_728);
}

#[test]
fn work_is_counted_and_added_up() {
    let w = ModelConfig::default().step_work();
    let mut m = WorkMeter::default();
    for _ in 0..271 {
        m.add_cell_step();
    }
    for _ in 0..16 {
        m.add_head_application();
    }
    let baseline = m.totals(&w);
    assert_eq!(baseline.cell_steps, 271);
    assert_eq!(baseline.macs, 891_060_224);
    let mut v = WorkMeter::default();
    for _ in 0..15 {
        v.add_cell_step();
    }
    for _ in 0..16 {
        v.add_head_application();
    }
    let vole = v.totals(&w);
    assert_eq!(vole.macs, 60_588_032);
    assert_eq!(baseline.macs - vole.macs, 830_472_192);
    let both = baseline + vole;
    assert_eq!(both, WorkTotals::sum(&[baseline, vole]));
    assert_eq!(both.cell_steps, 286);
    assert_eq!(WorkTotals::sum(&[]), WorkTotals::zero());
}

#[test]
fn bit_patterns_survive_their_bytes() {
    let v = vec![0, 0x8000_0000, 1, 0x7f80_0000, 0x7fc0_1234, 0x3f80_0000];
    let b = f32s_to_le_bytes(&v);
    assert_eq!(b.len(), 24);
    assert_eq!(&b[20..], &1.0f32.to_le_bytes());
    assert_eq!(le_bytes_to_f32s(&b), Ok(v.clone()));
    let e = le_bytes_to_f32s(&b[..23]).unwrap_err();
    assert_eq!(e.message(), "f32 payload length 23 is not a multiple of 4");
    assert!(!all_finite(&v));
    assert!(all_finite(&[0, 0x8000_0000, 1, 0x7f7f_ffff]));
}

#[test]
fn numbers_are_ordered_as_floats_are() {
    let samples = [
        0.0f32,
        -0.0,
        1.0,
        -1.0,
        0.5,
        f32::MIN_POSITIVE,
        f32::INFINITY,
        f32::NEG_INFINITY,
        f32::NAN,
    ];
    for a in samples {
        for b in samples {
            assert_eq!(less32(a.to_bits(), b.to_bits()), a < b, "{a} < {b}");
        }
    }
}

#[test]
fn states_of_the_wrong_size_are_refused() {
    let cfg = ModelConfig::default();
    let st = State::zeros(&cfg, 1);
    let (h, c, k) = (st.h_bytes(), st.c_bytes(), st.carry_bytes());
    let e = State::from_bytes(&cfg, 1, &h[..5], &c, &k).unwrap_err();
    assert_eq!(e, TensorError::Ragged { len: 5 });
    let e = State::from_bytes(&cfg, 1, &h[..8], &c, &k).unwrap_err();
    assert!(matches!(e, TensorError::ShapeMismatch { buffer_size: 2, .. }));
    let e = State::from_bytes(&cfg, 1, &h, &c, &k[..4]).unwrap_err();
    assert!(matches!(e, TensorError::ShapeMismatch { buffer_size: 1, .. }));
    assert!(e.message().len() > 0);
}

#[test]
fn gates_blend_the_cell_tensor() {
    // All weights zero: every gate is one half and the candidate is zero.
    let cfg = ModelConfig::default();
    let mut all = tensors();
    all[0] = tensor(PARAM_NAMES[0], &[32, 11, 3, 3], vec![0; 32 * 11 * 9]);
    let m = ConvLstm::new(cfg, &all).unwrap();
    let mut s = State::zeros(&cfg, 1);
    s.c = vec![1.0f32.to_bits(); s.c.len()];
    let n = m.cell(&frame(), &vec![0; 2048], &s).unwrap();
    assert!(values(&n.c).iter().all(|v| *v == 0.5));
    assert!(values(&n.h).iter().all(|v| (*v - 0.5 * 0.5f32.tanh()).abs() < 1e-6));

    // The forget gate opened by its bias keeps more of the cell.
    all[1] = tensor(PARAM_NAMES[1], &[32], ConvLstm::initial_gate_bias(&cfg));
    let m = ConvLstm::new(cfg, &all).unwrap();
    let n = m.cell(&frame(), &vec![0; 2048], &s).unwrap();
    let open = 1.0 / (1.0 + (-1.0f32).exp());
    assert!(values(&n.c).iter().all(|v| (*v - open).abs() < 1e-6));
}

#[test]
fn the_step_is_a_convolution() {
    // One weight only: the candidate of channel 0 reads the pixel to the left.
    let cfg = ModelConfig::default();
    let mut all = tensors();
    let mut w = vec![0u32; 32 * 11 * 9];
    w[(24 * 11) * 9 + 3] = 2.0f32.to_bits();
    all[0] = tensor(PARAM_NAMES[0], &[32, 11, 3, 3], w);
    let m = ConvLstm::new(cfg, &all).unwrap();
    let mut f = vec![0u32; 1024];
    f[5 * 32 + 7] = 1.0f32.to_bits();
    let n = m.cell(&f, &vec![0; 2048], &State::zeros(&cfg, 1)).unwrap();
    let c = values(&n.c);
    for (i, v) in c.iter().enumerate() {
        let want = if i == 5 * 32 + 8 { 0.5 * 2.0f32.tanh() } else { 0.0 };
        assert!((v - want).abs() < 1e-6, "at {i}: {v} against {want}");
    }
}

#[test]
fn the_carry_is_the_last_two_frames() {
    let m = model();
    let a = frame();
    let b = numbers(1024, 0.3, 77);
    let s = m.step(&a, Control::new(1, 0), &State::zeros(&m.cfg, 1)).unwrap();
    let s = m.step(&b, Control::new(0, -1), &s).unwrap();
    assert_eq!(&s.carry[..1024], b.as_slice());
    assert_eq!(&s.carry[1024..], a.as_slice());
}

#[test]
fn architectures_that_do_not_fit_are_errors() {
    let mut even = model();
    even.cfg.kernel = 2;
    for (i, (_, dims)) in ConvLstm::parameter_shapes(&even.cfg).into_iter().enumerate() {
        even.params[i].bits = vec![0; dims.iter().product()];
        even.params[i].dims = dims;
    }
    let s = State::zeros(&even.cfg, 1);
    let e = even.cell(&frame(), &vec![0; 2048], &s).unwrap_err();
    assert!(e.message.starts_with("shape mismatch: "));
    assert!(even.head(&s).is_err());

    let m = model();
    let s = State::zeros(&m.cfg, 1);
    assert!(m.cell(&frame()[..1000], &vec![0; 2048], &s).is_err());
    assert!(m.cell(&frame(), &vec![0; 1024], &s).is_err());
    assert!(m.step(&[0; 7], Control::none(), &s).is_err());
    let two = State::zeros(&m.cfg, 2);
    assert!(m.cell(&frame(), &vec![0; 2048], &two).is_err());
    assert!(m.step(&frame(), Control::none(), &two).is_err());
    let mut torn = State::zeros(&m.cfg, 2);
    torn.h.truncate(8192);
    assert!(m.head(&torn).is_err());
    assert!(m.cell(&vec![0; 2048], &vec![0; 4096], &torn).is_err());
}

/// The step and the emission of a whole batch, as tensors with a batch dimension.
fn batched(
    m: &ConvLstm,
    batch: usize,
    frame: &[u32],
    control: &[u32],
    prev: &State,
) -> Vec<Vec<f32>> {
    let dev = Device::Cpu;
    let t = |bits: &[u32], dims: &[usize]| Tensor::from_vec(values(bits), dims, &dev).unwrap();
    let p = |i: usize| t(&m.params[i].bits, &m.params[i].dims);
    let x = t(frame, &[batch, 1, 32, 32]);
    let u = t(control, &[batch, 2, 32, 32]);
    let (h, c) = (t(&prev.h, &[batch, 8, 32, 32]), t(&prev.c, &[batch, 8, 32, 32]));
    let carry = t(&prev.carry, &[batch, 2, 32, 32]);
    let gates = Tensor::cat(&[&x, &u, &h], 1).unwrap().conv2d(&p(0), 1, 1, 1, 1).unwrap();
    let gates = gates.broadcast_add(&p(1).reshape((1, 32, 1, 1)).unwrap()).unwrap();
    let quarter = |i: usize| gates.narrow(1, 8 * i, 8).unwrap();
    let s = |i: usize| candle_nn::ops::sigmoid(&quarter(i)).unwrap();
    let c = ((s(1) * c).unwrap() + (s(0) * quarter(3).tanh().unwrap()).unwrap()).unwrap();
    let h = (s(2) * c.tanh().unwrap()).unwrap();
    let carry = Tensor::cat(&[&x, &carry.narrow(1, 0, 1).unwrap()], 1).unwrap();
    let y = Tensor::cat(&[&h, &carry], 1).unwrap().conv2d(&p(2), 1, 1, 1, 1).unwrap();
    let y = y.broadcast_add(&p(3).reshape((1, 8, 1, 1)).unwrap()).unwrap().tanh().unwrap();
    let y = y.conv2d(&p(4), 0, 1, 1, 1).unwrap();
    let y = y.broadcast_add(&p(5).reshape((1, 1, 1, 1)).unwrap()).unwrap().tanh().unwrap();
    let y = (carry.narrow(1, 0, 1).unwrap() + (y * 0.6f32 as f64).unwrap()).unwrap();
    let y = y.clamp(0f32, 1f32).unwrap();
    [h, c, carry, y]
        .iter()
        .map(|t| t.flatten_all().unwrap().to_vec1::<f32>().unwrap())
        .collect()
}

fn near(got: &[u32], want: &[f32]) {
    assert_eq!(got.len(), want.len());
    for (i, (a, b)) in values(got).iter().zip(want).enumerate() {
        assert!((a - b).abs() < 1e-6, "at {i}: {a} against {b}");
    }
}

#[test]
fn every_stream_of_a_batch_steps_for_itself() {
    let m = model();
    for batch in [0usize, 1, 2, 3] {
        let x = numbers(batch * 1024, 0.5, 21);
        let u = numbers(batch * 2048, 1.0, 22);
        let prev = State {
            h: numbers(batch * 8192, 0.7, 23),
            c: numbers(batch * 8192, 0.9, 24),
            carry: numbers(batch * 2048, 0.5, 25),
        };
        let next = m.cell(&x, &u, &prev).unwrap();
        let y = m.head(&next).unwrap();
        let want = batched(&m, batch, &x, &u, &prev);
        near(&next.h, &want[0]);
        near(&next.c, &want[1]);
        near(&next.carry, &want[2]);
        near(&y, &want[3]);
        for b in 0..batch {
            let part = |v: &Vec<u32>, n: usize| v[b * n..(b + 1) * n].to_vec();
            let alone = State {
                h: part(&prev.h, 8192),
                c: part(&prev.c, 8192),
                carry: part(&prev.carry, 2048),
            };
            let s = m.cell(&part(&x, 1024), &part(&u, 2048), &alone).unwrap();
            assert_eq!((part(&next.h, 8192), part(&next.c, 8192)), (s.h.clone(), s.c.clone()));
            assert_eq!(part(&next.carry, 2048), s.carry);
            assert_eq!(part(&y, 1024), m.head(&s).unwrap());
        }
    }
    let two = State::zeros(&m.cfg, 2);
    assert_eq!(m.head(&two).unwrap().len(), 2048);
}

#[test]
fn a_correction_is_scaled_and_clamped() {
    let bits = |v: &[f32]| v.iter().map(|x| x.to_bits()).collect::<Vec<u32>>();
    let newest = bits(&[0.0, 0.5, 1.0, 0.25]);
    let bounded = bits(&[-1.0, 0.5, 1.0, 0.0]);
    let out = correct(&newest, &bounded).unwrap();
    assert_eq!(values(&out), vec![0.0, 0.5 + 0.5 * 0.6f32, 1.0, 0.25]);
    assert!(f32::from_bits(clamp(&vec![f32::NAN.to_bits()])[0]).is_nan());
    assert_eq!(values(&clamp(&bits(&[-3.0, 7.0, 0.75]))), vec![0.0, 1.0, 0.75]);
}

#[test]
fn the_gates_are_input_forget_output_and_candidate() {
    let one = 1.0f32.to_bits();
    // Wide open or shut gates, in the order of the four quarters.
    let open = 100.0f32.to_bits();
    let shut = (-100.0f32).to_bits();
    let run = |i, f, o| {
        let (c, h) = gate(&vec![i, f, o, open], &vec![one]).unwrap();
        (values(&c)[0], values(&h)[0])
    };
    assert_eq!(run(shut, open, shut), (1.0, 0.0));
    assert_eq!(run(open, shut, shut), (1.0, 0.0));
    assert_eq!(run(open, open, shut).0, 2.0);
    assert_eq!(run(shut, shut, open), (0.0, 0.0));
    assert!((run(shut, open, open).1 - 1.0f32.tanh()).abs() < 1e-6);
    assert_eq!(next_carry(&[1, 2], &vec![3, 4, 5, 6]), vec![1, 2, 3, 4]);
    assert_eq!(spread(&vec![8, 9], 3), vec![8, 8, 8, 9, 9, 9]);
}

fn with_header(json: &str) -> Vec<u8> {
    let mut bytes = (json.len() as u64).to_le_bytes().to_vec();
    bytes.extend_from_slice(json.as_bytes());
    bytes
}

#[test]
fn sizes_beyond_counting_are_not_readable() {
    let cfg = ModelConfig::default();
    let unreadable = |bytes: &[u8]| {
        matches!(
            ConvLstm::load_safetensors_bytes(bytes, cfg),
            Err(CheckpointError::Unreadable(_))
        )
    };
    let strides = with_header(
        "{\"a\":{\"dtype\":\"F32\",\"shape\":[0,8589934592,8589934592],\"data_offsets\":[0,0]}}",
    );
    assert!(!sizes_can_be_counted(&strides));
    assert!(unreadable(&strides));

    let size = (1u64 << 61) - 1;
    let entries: Vec<String> = (0..8u64)
        .map(|i| {
            let (from, to) = (i * size, (i + 1) * size);
            format!("\"t{i}\":{{\"dtype\":\"U8\",\"shape\":[{size}],\"data_offsets\":[{from},{to}]}}")
        })
        .collect();
    let offsets = with_header(&format!("{{{}}}", entries.join(",")));
    assert!(!sizes_can_be_counted(&offsets));
    assert!(unreadable(&offsets));

    // An empty tensor of countable sizes is read, and is no parameter.
    let empty = with_header("{\"a\":{\"dtype\":\"F32\",\"shape\":[0,3],\"data_offsets\":[0,0]}}");
    assert!(sizes_can_be_counted(&empty));
    assert!(matches!(
        ConvLstm::load_safetensors_bytes(&empty, cfg),
        Err(CheckpointError::Missing { .. })
    ));

    for bytes in [vec![], vec![1; 7], vec![255; 40], with_header("{"), with_header("[]")] {
        assert!(sizes_can_be_counted(&bytes));
        assert!(unreadable(&bytes));
    }
}

#[test]
fn fitting_shapes_are_never_an_error() {
    for n in [1, 2, 3, 1000, 100_000] {
        let x: Vec<u32> = (0..n).map(|i| (i as f32 - 1.5).to_bits()).collect();
        assert_eq!(sigmoid(&x).unwrap().len(), n);
        assert_eq!(tanh(&x).unwrap().len(), n);
        assert_eq!(add_lists(&x, &x).unwrap().len(), n);
        assert_eq!(multiply_lists(&x, &x).unwrap().len(), n);
    }
    for (channels, height, width, out, kernel) in
        [(1, 1, 1, 1, 1), (1, 1, 1, 1, 5), (2, 3, 1, 4, 3), (3, 40, 40, 2, 7), (8, 32, 32, 1, 1)]
    {
        let x = vec![1.0f32.to_bits(); channels * height * width];
        let w = vec![1.0f32.to_bits(); out * channels * kernel * kernel];
        let y = convolve(&x, channels, height, width, &w, out, kernel).unwrap();
        assert_eq!(y.len(), out * height * width);
        let reach = kernel / 2 + 1;
        let corner = channels * reach.min(height) * reach.min(width);
        assert_eq!(f32::from_bits(y[0]), corner as f32);
    }
}

#[test]
fn only_an_overlong_provenance_cannot_be_written() {
    let m = model();
    let escaped = vec![("k".to_string(), "\u{1}".repeat(16_666_300))];
    assert!(checkpoint_bytes(&m, &escaped).is_ok());
    let overlong = vec![("k".to_string(), "a".repeat(MAX_HEADER_BYTES + 1))];
    assert!(checkpoint_bytes(&m, &overlong).is_err());
}

#[test]
fn a_written_checkpoint_reloads_with_the_same_weights() {
    let m = model();
    let meta = vec![("producer".to_string(), "test".to_string())];
    let bytes = checkpoint_bytes(&m, &meta).unwrap();
    let (_, header) = safetensors::SafeTensors::read_metadata(&bytes).unwrap();
    let found = header.metadata().as_ref().unwrap();
    assert_eq!(found.len(), 1);
    assert_eq!(found["producer"], "test");
    let back = ConvLstm::load_safetensors_bytes(&bytes, m.cfg).unwrap();
    assert_eq!(back, m);
    assert_eq!(weights_hash(&back), weights_hash(&m));
    assert_eq!(reload_verified(&m, &bytes).unwrap(), true);
    let mut other = model();
    other.params[5].bits[0] = 1;
    assert_eq!(reload_verified(&other, &bytes).unwrap(), false);
    assert!(reload_verified(&m, &bytes[..40]).is_err());
}

#[test]
fn checkpoints_with_faults_are_refused_by_name() {
    let cfg = ModelConfig::default();
    let mut missing = tensors();
    missing.remove(3);
    let e = ConvLstm::from_tensors(cfg, &missing).unwrap_err();
    assert_eq!(
        e.message("a/b"),
        "checkpoint \"a/b\" is missing parameter convlstm.head.mid.bias"
    );
    let mut shape = tensors();
    shape[1] = tensor(PARAM_NAMES[1], &[16], vec![0; 16]);
    let e = ConvLstm::from_tensors(cfg, &shape).unwrap_err();
    assert_eq!(
        e.message("x"),
        "checkpoint \"x\": parameter convlstm.gates.bias has shape [16], expected [32]"
    );
    let mut dtype = tensors();
    dtype[5].dtype = "F64".to_string();
    let e = ConvLstm::from_tensors(cfg, &dtype).unwrap_err();
    assert_eq!(
        e.message("x"),
        "checkpoint \"x\": parameter convlstm.head.out.bias has dtype F64, expected f32"
    );
    let mut extra = tensors();
    extra.push(tensor("other", &[1], vec![0]));
    let e = ConvLstm::from_tensors(cfg, &extra).unwrap_err();
    assert_eq!(e.message("x"), "checkpoint \"x\" has unexpected parameters [\"other\"]");
    let e = ConvLstm::load_safetensors_bytes(&[1, 2, 3], cfg).unwrap_err();
    assert!(matches!(e, CheckpointError::Unreadable(_)));
}
