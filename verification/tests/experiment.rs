//! The contracts between the processes of the experiment, and what each decides.

use vole_field::experiment::args::{Mode, ProducerArgs, RequestArgs};
use vole_field::experiment::child::{
    check_pid, child_env, child_report, default_threads, report_text,
};
use vole_field::experiment::flags::{
    has_flag, opt_path, opt_str, opt_usize, position, req_path, req_str, req_usize,
};
use vole_field::experiment::frames::{decode_frames, encode_frames, frame_payload};
use vole_field::experiment::generator::{Context, Generator};
use vole_field::experiment::montage::build_montage;
use vole_field::experiment::paths::{join, Paths};
use vole_field::experiment::producer::{
    expected_blob, producer_report, producer_timings, record_state, ProducerTimes, StoreFigures,
    PRODUCER_PHASES,
};
use vole_field::experiment::recover::RestoreReport;
use vole_field::experiment::request::{Offer, Recovery, RequestPhase, RequestRun};
use vole_field::experiment::stats::{less, median, rle, sample_indices, sort};
use vole_field::experiment::timing::{
    aggregate, phase_median, producer_once_ms, PhaseAcross, PhaseTiming, Samples,
};
use vole_field::model::config::ModelConfig;
use vole_field::model::floats::f32s_to_le_bytes;
use vole_field::model::params::{ConvLstm, RawTensor};
use vole_field::model::work::WorkMeter;
use vole_field::rollout::Body;
use vole_field::scene::{context_program, Control, Request, SceneId};
use vole_field::state::hashes::{hash32, hash_hex, hex32};
use vole_field::state::record::StateRecord;
use vole_field::train::write::checkpoint_bytes;

fn words(list: &[&str]) -> Vec<String> {
    list.iter().map(|s| s.to_string()).collect()
}

fn bits(list: &[f64]) -> Vec<u64> {
    list.iter().map(|v| v.to_bits()).collect()
}

fn mean(a: u64, b: u64) -> u64 {
    (0.5 * (f64::from_bits(a) + f64::from_bits(b))).to_bits()
}

fn value(v: Option<u64>) -> Option<f64> {
    v.map(f64::from_bits)
}

// ---------------------------------------------------------------------------
// Statistics
// ---------------------------------------------------------------------------

#[test]
fn medians_of_samples() {
    assert_eq!(median(&[], mean), None);
    assert_eq!(value(median(&bits(&[3.0]), mean)), Some(3.0));
    assert_eq!(value(median(&bits(&[9.0, -1.0, 4.0]), mean)), Some(4.0));
    assert_eq!(value(median(&bits(&[8.0, 1.0, 2.0, 3.0]), mean)), Some(2.5));
    assert_eq!(
        sort(&bits(&[0.5, -2.0, 0.0, 7.0])),
        bits(&[-2.0, 0.0, 0.5, 7.0])
    );
    assert!(less((-0.5f64).to_bits(), 0.0f64.to_bits()));
    assert!(!less((-0.0f64).to_bits(), 0.0f64.to_bits()));
    assert!(!less(f64::NAN.to_bits(), 0.0f64.to_bits()));
}

#[test]
fn sampled_indices_span_the_range() {
    assert_eq!(sample_indices(16, 8), vec![0, 2, 4, 6, 8, 10, 12, 15]);
    assert_eq!(sample_indices(3, 8), vec![0, 0, 0, 0, 1, 1, 1, 2]);
    assert_eq!(sample_indices(8, 8), (0..8).collect::<Vec<usize>>());
    assert_eq!(sample_indices(1, 8), vec![0; 8]);
    assert_eq!(sample_indices(9, 1), vec![0]);
    assert_eq!(sample_indices(0, 4), Vec::<usize>::new());
    assert_eq!(sample_indices(4, 0), Vec::<usize>::new());
}

#[test]
fn codes_collapse_into_runs() {
    assert_eq!(rle(&[4, 4, 1, 4]), vec![(4, 2), (1, 1), (4, 1)]);
    assert_eq!(rle(&[]), vec![]);
}

#[test]
fn phases_that_did_not_run_are_absent() {
    let t = PhaseTiming::new("x", "what", None, vec![], mean);
    assert_eq!(t.median_ms, None);
    let timing = |ms: f64| PhaseTiming::new("load", "loading", None, bits(&[ms]), mean);
    assert_eq!(value(phase_median(&[timing(2.0)], "load")), Some(2.0));
    assert_eq!(phase_median(&[timing(2.0)], "other"), None);

    let tables = vec![Some(vec![timing(1.0)]), Some(vec![timing(5.0)]), Some(vec![timing(2.0)])];
    let across = PhaseAcross::from_reports(&tables, "load", mean).unwrap();
    assert_eq!(value(across.median_ms), Some(2.0));
    assert_eq!(across.definition, "loading");
    assert_eq!(across.per_process_ms, bits(&[1.0, 5.0, 2.0]));
    assert!(PhaseAcross::from_reports(&[None], "load", mean).is_none());
    let all = aggregate(&tables, &["load", "gone"], "raw", mean);
    assert_eq!(all.len(), 1);
    assert_eq!(all[0].phase, "raw.load");
}

#[test]
fn the_one_time_cost_is_found_by_its_name() {
    let one = |name: &str, v: f64| PhaseAcross {
        phase: name.to_string(),
        definition: String::new(),
        per_process_ms: vec![],
        median_ms: Some(v.to_bits()),
    };
    let vole = vec![one("producer-vole.fresh_process_end_to_end", 4.0)];
    let raw = vec![one("producer-raw.fresh_process_end_to_end", 3.0)];
    assert_eq!(value(producer_once_ms(&vole, &raw, "raw")), Some(3.0));
    assert_eq!(value(producer_once_ms(&vole, &raw, "vole")), Some(4.0));
    assert_eq!(producer_once_ms(&vole, &raw, "other"), None);
}

#[test]
fn a_warm_up_is_kept_apart() {
    let mut s = Samples::new();
    s.push_sample(true, 1);
    s.push_sample(false, 2);
    s.push_sample(false, 3);
    assert_eq!(s.warmup, Some(1));
    assert_eq!(s.measured, vec![2, 3]);
}

// ---------------------------------------------------------------------------
// Arguments, paths and children
// ---------------------------------------------------------------------------

#[test]
fn flags_are_read_where_they_first_stand() {
    let a = words(&["--x", "1", "--x", "2", "--last"]);
    assert_eq!(position(&a, "--x"), Some(0));
    assert_eq!(opt_str(&a, "--x"), Some("1"));
    assert_eq!(opt_usize(&a, "--x"), Some(1));
    assert_eq!(opt_str(&a, "--last"), None);
    assert_eq!(req_str(&a, "--y"), Err("missing --y".to_string()));
    assert_eq!(
        req_usize(&words(&["--n", "-3"]), "--n"),
        Err("missing or malformed --n".to_string())
    );
    assert_eq!(opt_path(&a, "--x"), Some("1".to_string()));
    assert_eq!(req_path(&a, "--p"), Err("missing --p".to_string()));
    assert!(has_flag(&a, "--last") && !has_flag(&a, "--first"));
}

fn request_args(mode: Mode) -> RequestArgs {
    RequestArgs {
        run_dir: "run".to_string(),
        checkpoint: "c.st".to_string(),
        mode,
        scene: SceneId::MovingShape01,
        expect_scene: SceneId::MovingShape01,
        context_len: 3,
        future_len: 2,
        request: Request::TurnLeft,
        reps: 1,
        warmup: true,
        emit: None,
        vole_blob: None,
        raw_file: None,
        report: Some("r.json".to_string()),
    }
}

#[test]
fn child_arguments_parse_back() {
    let p = ProducerArgs {
        run_dir: "a b".to_string(),
        checkpoint: "c".to_string(),
        scene: SceneId::MovingShape02,
        context_len: 256,
        skip_entropyfs: true,
        report: None,
    };
    assert_eq!(p.argv(), words(&[
        "producer",
        "--run-dir",
        "a b",
        "--checkpoint",
        "c",
        "--scene",
        "moving-shape-02",
        "--context",
        "256",
        "--skip-entropyfs",
    ]));
    let q = ProducerArgs::parse(&p.argv()[1..]).unwrap();
    assert_eq!(q.argv(), p.argv());
    let r = request_args(Mode::Vole);
    let back = RequestArgs::parse(&r.argv()[1..]).unwrap();
    assert_eq!(back.argv(), r.argv());
    assert_eq!(back.mode, Mode::Vole);
    assert!(back.warmup && back.report.is_some() && back.emit.is_none());
}

#[test]
fn child_arguments_name_the_offending_flag() {
    let p = words(&["--scene", "nowhere"]);
    assert_eq!(
        ProducerArgs::parse(&p).unwrap_err(),
        "unknown --scene \"nowhere\""
    );
    assert_eq!(ProducerArgs::parse(&[]).unwrap_err(), "missing --scene");
    assert_eq!(
        RequestArgs::parse(&words(&["--mode", "x\ty"])).unwrap_err(),
        "unknown --mode \"x\\ty\""
    );
    let base = ["--mode", "raw", "--scene", "moving-shape-01"];
    let mut a = base.to_vec();
    a.extend(["--expect-scene", "?"]);
    assert_eq!(
        RequestArgs::parse(&words(&a)).unwrap_err(),
        "unknown --expect-scene \"?\""
    );
    let mut a = base.to_vec();
    a.extend(["--request", "fly"]);
    assert_eq!(
        RequestArgs::parse(&words(&a)).unwrap_err(),
        "unknown --request \"fly\""
    );
    let mut a = base.to_vec();
    a.extend(["--request", "s-curve", "--run-dir", "r", "--checkpoint", "c"]);
    assert_eq!(
        RequestArgs::parse(&words(&a)).unwrap_err(),
        "missing or malformed --context"
    );
    a.extend(["--context", "1", "--future", "2", "--reps", "0"]);
    let r = RequestArgs::parse(&words(&a)).unwrap();
    assert_eq!(r.reps, 1);
    assert_eq!(r.expect_scene, SceneId::MovingShape01);
    assert_eq!(Mode::parse("vole").map(|m| m.as_str()), Some("vole"));
    assert_eq!(Mode::parse("Vole"), None);
}

#[test]
fn paths_derive_from_the_root() {
    let p = Paths::new("run".to_string());
    assert_eq!(p.store(), "run/entropyfs-store");
    assert_eq!(p.raw_state(), "run/raw_state.bin");
    assert_eq!(p.futures(), "run/futures");
    assert_eq!(p.reports(), "run/reports");
    assert_eq!(p.results_json(), "run/results.json");
    assert_eq!(p.reuse_csv(), "run/reuse.csv");
    assert_eq!(p.montage(), "run/branches.ppm");
    assert_eq!(p.montage_baseline(), "run/branches_baseline.ppm");
    assert_eq!(p.timing_dir("a"), "run/timing/a");
    assert_eq!(join("a/", "b"), "a/b");
    assert_eq!(join("", "b"), "b");
    assert_eq!(join("a", "/b"), "/b");
}

#[test]
fn the_last_marked_line_is_the_report() {
    let out = "noise\n@@VOLE_FIELD_CHILD@@{\"a\":1}\n@@VOLE_FIELD_CHILD@@{}\r\nmore";
    assert_eq!(report_text(out), Some("{}".to_string()));
    assert_eq!(report_text(" @@VOLE_FIELD_CHILD@@{}"), None);
    let a = words(&["request"]);
    assert_eq!(child_report(&a, true, "ok", out, ""), Ok("{}".to_string()));
    assert_eq!(
        child_report(&a, false, "exit status: 2", out, "bad"),
        Err("child [\"request\"] exited with exit status: 2\nstderr:\nbad".to_string())
    );
    assert_eq!(
        child_report(&a, true, "ok", "o", "e"),
        Err("child [\"request\"] printed no report line\nstdout:\no\nstderr:\ne".to_string())
    );
}

#[test]
fn reported_pids_must_be_the_assigned_ones() {
    let a = words(&["x"]);
    assert_eq!(check_pid(&a, 7, 7), Ok(()));
    assert_eq!(check_pid(&a, 0, 7), Err("child [\"x\"] reported no pid".to_string()));
    assert_eq!(
        check_pid(&a, 8, 7),
        Err("child [\"x\"] reported pid 8 but the OS assigned 7".to_string())
    );
    assert_eq!(child_env(0), vec![]);
    assert_eq!(child_env(3), vec![("RAYON_NUM_THREADS".to_string(), "3".to_string())]);
    assert_eq!(default_threads(None), 1);
    assert_eq!(default_threads(Some(2)), 2);
    assert_eq!(default_threads(Some(64)), 4);
}

// ---------------------------------------------------------------------------
// Frames and montage
// ---------------------------------------------------------------------------

#[test]
fn frame_files_round_trip() {
    let frames = vec![(0..1024u32).collect::<Vec<u32>>(), vec![7; 1024]];
    let b = encode_frames(&frames);
    assert_eq!(&b[..8], b"VOLEFRM1");
    assert_eq!(&b[8..20], &[2, 0, 0, 0, 32, 0, 0, 0, 32, 0, 0, 0]);
    assert_eq!(frame_payload(&b).len(), 8192);
    assert_eq!(decode_frames(&b), Ok(frames));
    assert_eq!(frame_payload(&b[..19]), &[] as &[u8]);
}

#[test]
fn bad_frame_files_are_refused() {
    let good = encode_frames(&[vec![0; 1024]]);
    assert_eq!(
        decode_frames(&good[..3]),
        Err("frame file is 3 bytes, need >= 20".to_string())
    );
    let mut b = good.clone();
    b[0] = 0;
    assert_eq!(decode_frames(&b), Err("frame file magic mismatch".to_string()));
    let mut b = good.clone();
    b[12] = 16;
    assert_eq!(
        decode_frames(&b),
        Err("frame file is 16x32, expected 32x32".to_string())
    );
    let mut b = good.clone();
    b[8] = 2;
    assert_eq!(
        decode_frames(&b),
        Err("frame file payload is 4096 bytes, expected 8192".to_string())
    );
}

#[test]
fn the_montage_shows_tiles_on_a_lattice() {
    let row = vec![vec![200u8; 1024]; 8];
    let branch = |g: u8| (Request::Continue, vec![vec![g; 1024]; 16]);
    let m: Vec<_> = (0..4).map(|i| branch(10 + i)).collect();
    let t: Vec<_> = (0..4).map(|i| branch(50 + i)).collect();
    let img = build_montage(&row, &m, &t);
    let header = b"P6\n792 890\n255\n";
    assert_eq!(&img[..header.len()], header);
    assert_eq!(img.len(), header.len() + 792 * 890 * 3);
    let at = |x: usize, y: usize| {
        let i = header.len() + (y * 792 + x) * 3;
        assert!(img[i] == img[i + 1] && img[i] == img[i + 2]);
        img[i]
    };
    assert_eq!(at(0, 0), 70);
    assert_eq!(at(0, 2), 24);
    assert_eq!(at(5, 2 + 98), 50);
    assert_eq!(at(6, 2), 70);
    assert_eq!(at(8, 2), 200);
    assert_eq!(at(8 + 96, 2), 70);
    assert_eq!(at(8, 2 + 98), 10);
    // The block of the scene stands off by a further gap.
    assert_eq!(at(8, 2 + 5 * 98), 70);
    assert_eq!(at(8, 2 + 5 * 98 + 6), 50);
    assert_eq!(at(791, 889), 70);

    // A row shows eight frames even where it has fewer.
    let few: Vec<Vec<u8>> = vec![vec![5; 1024], vec![6; 1024], vec![7; 1024]];
    let img = build_montage(&few, &[], &[]);
    let header = b"P6\n792 100\n255\n";
    assert_eq!(&img[..header.len()], header);
    let tiles: Vec<u8> = (0..8).map(|c| img[header.len() + (2 * 792 + 8 + 98 * c) * 3]).collect();
    assert_eq!(tiles, vec![5, 5, 5, 5, 6, 6, 6, 7]);
}

// ---------------------------------------------------------------------------
// Earning, recording, restoring and generating
// ---------------------------------------------------------------------------

fn advance(b: &Body, _u: Control) -> Body {
    let x = f32::from_bits(b.x) + 0.25;
    Body { x: x.to_bits(), ..*b }
}

fn render(v: &Vec<Body>) -> Vec<u32> {
    let mut f = vec![0u32; 1024];
    f[16 * 32 + f32::from_bits(v[0].x) as usize] = v[0].amplitude;
    f
}

fn model() -> ConvLstm {
    let cfg = ModelConfig::default();
    let mut s: u64 = 5;
    let all: Vec<RawTensor> = ConvLstm::parameter_shapes(&cfg)
        .into_iter()
        .map(|(name, dims)| {
            let n: usize = dims.iter().product();
            let v: Vec<u32> = (0..n)
                .map(|_| {
                    s = s.wrapping_mul(6364136223846793005).wrapping_add(1442695040888963407);
                    (((s >> 40) as f32 / 16777216.0 - 0.5) * 0.3).to_bits()
                })
                .collect();
            RawTensor {
                name: name.to_string(),
                dims,
                dtype: "F32".to_string(),
                data: f32s_to_le_bytes(&v),
            }
        })
        .collect();
    ConvLstm::new(cfg, &all).unwrap()
}

fn generator() -> Generator {
    let bytes = checkpoint_bytes(&model(), &vec![]).unwrap();
    Generator::load(&bytes, SceneId::MovingShape01, 3, 2, ModelConfig::default()).unwrap()
}

#[test]
fn a_generator_knows_its_checkpoint() {
    let bytes = checkpoint_bytes(&model(), &vec![]).unwrap();
    let g = generator();
    assert_eq!(g.checkpoint_file_hash, hash_hex(&bytes));
    assert_eq!(g.checkpoint_bytes, bytes.len() as u64);
    assert_eq!(g.config_hash, hash32(&g.cfg.canonical_bytes()));
    assert_eq!(g.step_work().cell_macs, 3_244_032);
    assert!(Generator::load(&bytes[1..], SceneId::MovingShape01, 3, 2, g.cfg).is_err());
}

#[test]
fn earning_counts_one_step_for_each_frame() {
    let g = generator();
    let ctx = g.context(advance, render);
    assert_eq!(ctx.frames.len(), 3);
    assert_eq!(ctx.schedule.codes(), context_program().codes());
    let mut meter = WorkMeter::default();
    let s = g.earn(&ctx, &mut meter).unwrap();
    assert_eq!((meter.cell_steps, meter.head_applications), (3, 0));
    assert_eq!(&s.carry[..1024], ctx.frames[2].as_slice());
    assert_eq!(&s.carry[1024..], ctx.frames[1].as_slice());
    let again = g.earn(&ctx, &mut meter).unwrap();
    assert_eq!(again, s);

    let short = Context { frames: vec![vec![0; 5]; 3], schedule: context_program() };
    assert!(g.earn(&short, &mut WorkMeter::default()).is_err());
    let mut frames = ctx.frames;
    frames[2].pop();
    let late = Context { frames, schedule: context_program() };
    let mut meter = WorkMeter::default();
    assert!(g.earn(&late, &mut meter).is_err());
    assert_eq!(meter.cell_steps, 2);
}

#[test]
fn generating_emits_before_it_advances() {
    let g = generator();
    let s = g.earn(&g.context(advance, render), &mut WorkMeter::default()).unwrap();
    let mut meter = WorkMeter::default();
    let frames = g.generate(&s, Request::TurnRight, &mut meter).unwrap();
    assert_eq!((meter.cell_steps, meter.head_applications), (1, 2));
    assert_eq!(frames[0], g.model.head(&s).unwrap());
    let next = g.model.step(&frames[0], Control::new(1, 0), &s).unwrap();
    assert_eq!(frames[1], g.model.head(&next).unwrap());
    let other = g.generate(&s, Request::TurnLeft, &mut meter).unwrap();
    assert_eq!(other[0], frames[0]);
    assert_ne!(other[1], frames[1]);
}

#[test]
fn a_request_steers_one_stream() {
    let mut g = generator();
    let two = vole_field::model::state::State::zeros(&g.cfg, 2);
    let mut meter = WorkMeter::default();
    assert!(g.generate(&two, Request::TurnRight, &mut meter).is_err());
    assert_eq!((meter.cell_steps, meter.head_applications), (0, 1));
    g.future_len = 1;
    let frames = g.generate(&two, Request::TurnRight, &mut meter).unwrap();
    assert_eq!(frames, vec![g.model.head(&two).unwrap()]);
    assert_eq!(frames[0].len(), 2048);
}

#[test]
fn a_restored_request_generates_what_a_replaying_one_does() {
    let g = generator();
    let ctx = g.context(advance, render);
    let earned = g.earn(&ctx, &mut WorkMeter::default()).unwrap();
    let rec = record_state(&g, SceneId::MovingShape01, 3, &earned);
    let encoded = rec.encode();
    assert_eq!(expected_blob(&encoded), hash32(&encoded));
    let id = hex32(&expected_blob(&encoded));

    let mut hashes = Vec::new();
    for mode in [Mode::Baseline, Mode::Raw, Mode::Vole] {
        let mut args = request_args(mode);
        args.vole_blob = Some(id.clone());
        args.raw_file = Some("raw".to_string());
        let mut run = RequestRun::new(args, g.expectation(SceneId::MovingShape01));
        let mut reps = 0;
        while run.more() {
            reps += 1;
            let bytes = match run.begin().unwrap() {
                Offer::Nothing => None,
                Offer::RawFile(f) => {
                    assert_eq!(f, "raw");
                    Some(rec.raw_payload())
                }
                Offer::Blob(b) => {
                    assert_eq!(b, expected_blob(&encoded));
                    Some(encoded.clone())
                }
            };
            let state = match bytes {
                None => {
                    run.without_offer();
                    g.earn(&ctx, &mut run.m_ctx).unwrap()
                }
                Some(b) => {
                    let offer = run.decode_offer(&b).unwrap();
                    run.sample(RequestPhase::Restore, 1.0f64.to_bits());
                    match run.with_offer(&offer).unwrap() {
                        Recovery::Restored(s) => s,
                        Recovery::Replay => panic!("refused"),
                    }
                }
            };
            run.start(&state);
            let frames = g.generate(&state, Request::TurnLeft, &mut run.m_gen).unwrap();
            run.sample(RequestPhase::Generate, 2.0f64.to_bits());
            run.sample(RequestPhase::Total, 3.0f64.to_bits());
            run.finish(frames);
        }
        assert_eq!(reps, 2);
        let file = run.frame_file();
        let r = run.report(&g, &g.step_work(), 42, None, 0.5f64.to_bits(), mean);
        assert_eq!(r.pid, 42);
        assert_eq!(r.mode, mode.as_str());
        assert_eq!(r.output_hash, hash_hex(frame_payload(&file)));
        assert_eq!((r.output_frames, r.output_bytes), (2, 8192));
        assert_eq!(r.start_state_hash, Some(hex32(&rec.state_hash)));
        assert_eq!(r.request_controls, Request::TurnLeft.schedule().codes());
        assert_eq!(r.timings.len(), 6);
        assert_eq!(value(phase_median(&r.timings, "model_load")), Some(0.5));
        assert_eq!(value(phase_median(&r.timings, "model_only_replay")), None);
        let restored = mode != Mode::Baseline;
        assert_eq!(r.restore.offered, restored);
        assert_eq!(r.restore.accepted, restored);
        assert_eq!(r.restore.identity_available, mode == Mode::Vole);
        assert_eq!(r.restore_exact, if restored { Some(true) } else { None });
        assert_eq!(r.work_context.cell_steps, if restored { 0 } else { 3 });
        assert_eq!(r.work_generate.cell_steps, 1);
        assert_eq!(r.work_total.head_applications, 2);
        assert_eq!(r.restore.mechanism, match mode {
            Mode::Baseline => "replay-from-scratch",
            Mode::Raw => "raw-file",
            Mode::Vole => "entropyfs",
        });
        hashes.push(r.output_hash);
    }
    assert_eq!(hashes[0], hashes[1]);
    assert_eq!(hashes[0], hashes[2]);
}

fn small_record(g: &Generator, scene: SceneId) -> StateRecord {
    let s = vole_field::model::state::State::zeros(&g.cfg, 1);
    record_state(g, scene, 3, &s)
}

#[test]
fn a_record_of_another_scene_is_refused_by_name() {
    let g = generator();
    let rec = small_record(&g, SceneId::MovingShape01);
    let mut r = RestoreReport::default();
    let reuse = r.offer(Mode::Vole, Some(&rec), &g.expectation(SceneId::MovingShape02));
    assert!(!reuse && r.offered && !r.accepted);
    assert_eq!(r.rejection, Some("scene_identity".to_string()));
    assert_eq!(r.mechanism, "replay-from-scratch");
    assert_eq!(r.fallback, Some("replay-from-scratch".to_string()));
    assert_eq!(r.offered_scene, Some("moving-shape-01".to_string()));
    assert!(r.checks.iter().any(|c| !c.ok) && r.checks.len() == 6);

    let mut run = RequestRun::new(request_args(Mode::Vole), g.expectation(SceneId::MovingShape02));
    assert!(matches!(run.with_offer(&rec), Ok(Recovery::Replay)));
    assert_eq!(run.replay_error("x"), "fallback replay: x");
    let none = RequestRun::new(request_args(Mode::Baseline), g.expectation(SceneId::MovingShape01));
    assert_eq!(none.replay_error("x"), "replay context: x");
}

#[test]
fn a_refused_request_answers_like_the_baseline() {
    let g = generator();
    let rec = small_record(&g, SceneId::MovingShape01);
    let mut outputs = Vec::new();
    for mode in [Mode::Vole, Mode::Baseline] {
        let exp = g.expectation(SceneId::MovingShape02);
        let mut run = RequestRun::new(request_args(mode), exp);
        if mode == Mode::Vole {
            assert!(matches!(run.with_offer(&rec), Ok(Recovery::Replay)));
        } else {
            run.without_offer();
        }
        let s = g.earn(&g.context(advance, render), &mut run.m_ctx).unwrap();
        run.start(&s);
        let frames = g.generate(&s, Request::TurnLeft, &mut run.m_gen).unwrap();
        run.finish(frames);
        let r = run.report(&g, &g.step_work(), 7, None, 0.5f64.to_bits(), mean);
        assert_eq!(r.restore.accepted, false);
        assert_eq!(r.restore.mechanism, "replay-from-scratch");
        assert_eq!(r.work_context.cell_steps, 3);
        outputs.push((r.output_hash, r.start_state_hash));
    }
    assert_eq!(outputs[0], outputs[1]);
}

#[test]
fn a_raw_payload_is_never_refused() {
    let g = generator();
    let rec = small_record(&g, SceneId::MovingShape01);
    let run = RequestRun::new(request_args(Mode::Raw), g.expectation(SceneId::MovingShape02));
    let got = run.decode_offer(&rec.raw_payload()).unwrap();
    let mut r = RestoreReport::default();
    assert!(r.offer(Mode::Raw, Some(&got), &g.expectation(SceneId::MovingShape02)));
    assert!(!r.identity_available);
}

#[test]
fn missing_or_broken_offers_are_errors() {
    let g = generator();
    let exp = || g.expectation(SceneId::MovingShape01);
    let mut run = RequestRun::new(request_args(Mode::Raw), exp());
    assert_eq!(
        run.begin(),
        Err("--raw-file is required for --mode raw".to_string())
    );
    assert!(run.decode_offer(&[1, 2]).unwrap_err().starts_with("raw payload: "));
    let mut run = RequestRun::new(request_args(Mode::Vole), exp());
    assert_eq!(
        run.begin(),
        Err("--vole-blob is required for --mode vole".to_string())
    );
    assert!(run.decode_offer(&[1, 2]).unwrap_err().starts_with("decode: "));
    let mut args = request_args(Mode::Vole);
    args.vole_blob = Some("zz".to_string());
    assert_eq!(
        RequestRun::new(args, exp()).begin(),
        Err("bad blob id \"zz\"".to_string())
    );
}

#[test]
fn the_producer_accounts_for_its_bytes() {
    let g = generator();
    let rec = small_record(&g, SceneId::MovingShape01);
    let args = ProducerArgs {
        run_dir: "run".to_string(),
        checkpoint: "c".to_string(),
        scene: SceneId::MovingShape01,
        context_len: 3,
        skip_entropyfs: false,
        report: None,
    };
    let times = ProducerTimes {
        load: 1.0f64.to_bits(),
        store: 2.0f64.to_bits(),
        scene: 3.0f64.to_bits(),
        replay: 4.0f64.to_bits(),
        serialize: 5.0f64.to_bits(),
        contains: 6.0f64.to_bits(),
        persist: 7.0f64.to_bits(),
        raw: 8.0f64.to_bits(),
    };
    let store = StoreFigures {
        created: true,
        mkfs_bytes: 10,
        bytes_before: 100,
        bytes_after: 90,
        engine_used: 5,
        blob_id: "id".to_string(),
        already_present: false,
    };
    let meter = WorkMeter { cell_steps: 3, head_applications: 0 };
    let r = producer_report(
        &args, &g, &rec, true, store, "raw".to_string(), &meter, &g.step_work(), &times, 9, mean,
    );
    assert_eq!((r.h_bytes, r.c_bytes, r.carry_bytes), (32768, 32768, 8192));
    assert_eq!((r.raw_state_bytes, r.vole_record_bytes), (73728, 73904));
    assert_eq!(r.raw_file_bytes, 73728);
    assert_eq!(r.store_physical_delta, 0);
    assert_eq!(r.state_hash, hex32(&rec.state_hash));
    assert_eq!(r.work.macs, 3 * 3_244_032);
    assert_eq!(r.scene, "moving-shape-01");
    let names: Vec<&str> = r.timings.iter().map(|t| t.phase.as_str()).collect();
    assert_eq!(names, PRODUCER_PHASES.to_vec());
    let raw = producer_timings(true, &times, mean);
    let names: Vec<&str> = raw.iter().map(|t| t.phase.as_str()).collect();
    assert_eq!(names, vec![
        "model_load",
        "scene_generate",
        "model_only_replay",
        "state_serialize",
        "state_persist_raw_file",
    ]);
    assert_eq!(StoreFigures::none().blob_id, "");
}
