//! Training: its configuration, windows, batches, loops and account.

use vole_field::experiment::generator::Generator;
use vole_field::model::config::ModelConfig;
use vole_field::model::floats::f32s_to_le_bytes;
use vole_field::model::params::{ConvLstm, RawTensor};
use vole_field::model::state::State;
use vole_field::rollout::{truth_future, Body};
use vole_field::scene::{Control, Request, Rng, SceneId, SPEED_BASE};
use vole_field::train::batch::{assemble, corpus_digest, sample_batch, Sample};
use vole_field::train::config::{default_out, Loss, TrainConfig};
use vole_field::train::evaluate::{all_branches, finite_branches};
use vole_field::train::forward::{detached_window, full_window};
use vole_field::train::report::{loss_summary, provenance, seed_text, ProvenanceTexts};
use vole_field::train::window::{feeds_back, recent_from, shows_progress, tail_from, Window};
use vole_field::train::write::checkpoint_bytes;

fn place(heading: u32, x: u32, y: u32) -> Body {
    let angle = f32::from_bits(heading) * std::f32::consts::TAU;
    let spot = |b: u32| (5.0 + 22.0 * f32::from_bits(b)).to_bits();
    Body {
        x: spot(x),
        y: spot(y),
        dir_x: angle.cos().to_bits(),
        dir_y: angle.sin().to_bits(),
        speed: SPEED_BASE,
        amplitude: 1.0f32.to_bits(),
    }
}

fn advance(b: &Body, u: Control) -> Body {
    let x = f32::from_bits(b.x) + 0.25 * f32::from_bits(b.dir_x) + 0.125 * u.turn as f32;
    Body { x: x.clamp(0.0, 31.0).to_bits(), ..*b }
}

fn render(v: &Vec<Body>) -> Vec<u32> {
    let mut f = vec![0u32; 1024];
    for b in v {
        let (x, y) = (f32::from_bits(b.x) as usize, f32::from_bits(b.y) as usize);
        f[y * 32 + x] = b.amplitude;
    }
    f
}

#[test]
fn sampling_produces_the_declared_shapes_and_is_reproducible() {
    let steps = 6;
    let mut a = Rng::new(7);
    let (fa, sa) = sample_batch(&mut a, 2, steps, place, advance, render);
    let mut b = Rng::new(7);
    let (fb, sb) = sample_batch(&mut b, 2, steps, place, advance, render);
    assert_eq!(corpus_digest(&sa), corpus_digest(&sb));
    assert_eq!(fa.frames.len(), steps + 1);
    assert_eq!(fa.controls.len(), steps);
    for (x, y) in fa.frames.iter().zip(fb.frames.iter()) {
        assert_eq!(x, y);
    }
    assert_eq!(fa.frames[0].len(), 2 * 1 * 32 * 32);
    assert_eq!(fa.controls[0].len(), 2 * 2 * 32 * 32);
}

#[test]
fn a_batch_stacks_its_scenes() {
    let one = |g: u32, turn: i8| Sample {
        frames: vec![vec![g; 1024], vec![g + 1; 1024]],
        controls: vec![Control::new(turn, 1)],
    };
    let samples = vec![one(10, -1), one(20, 0)];
    let b = assemble(&samples, 1);
    assert_eq!(&b.frames[0][..1024], &[10; 1024]);
    assert_eq!(&b.frames[1][1024..], &[21; 1024]);
    let v = |i: usize| f32::from_bits(b.controls[0][i]);
    assert_eq!((v(0), v(1024), v(2048), v(3072)), (-1.0, 1.0, 0.0, 1.0));
    let digest = corpus_digest(&vec![one(10, 0)]);
    let mut bytes = f32s_to_le_bytes(&[10; 1024]);
    bytes.extend(f32s_to_le_bytes(&[11; 1024]));
    assert_eq!(digest, vole_field::state::hashes::hash_hex(&bytes));
}

#[test]
fn every_scene_of_a_batch_is_steered_by_its_own_controls() {
    let m = model();
    let scene = |g: f32, turn: i8, accel: i8| Sample {
        frames: vec![vec![g.to_bits(); 1024]; 2],
        controls: vec![Control::new(turn, accel)],
    };
    let samples = vec![scene(0.25, -1, 1), scene(0.5, 1, 0), scene(0.75, 0, -1)];
    let b = assemble(&samples, 1);
    let next = m.cell(&b.frames[0], &b.controls[0], &State::zeros(&m.cfg, 3)).unwrap();
    for (i, s) in samples.iter().enumerate() {
        let alone = m.step(&s.frames[0], s.controls[0], &State::zeros(&m.cfg, 1)).unwrap();
        assert_eq!(&next.c[i * 8192..(i + 1) * 8192], alone.c.as_slice());
        assert_eq!(&next.h[i * 8192..(i + 1) * 8192], alone.h.as_slice());
        assert_eq!(&next.carry[i * 2048..(i + 1) * 2048], alone.carry.as_slice());
    }
}

#[test]
fn the_defaults_are_documented() {
    let t = TrainConfig::default();
    assert_eq!(t.seed, 0x5601_E1D5_2C07_BA11);
    assert_eq!((t.iterations, t.batch, t.burn_min, t.burn_max, t.loss_steps), (12000, 4, 4, 12, 16));
    assert_eq!(f64::from_bits(t.lr), 4e-3);
    assert_eq!(f32::from_bits(t.scheduled_sampling_p_max), 1.0);
    assert!(t.full_bptt);
    assert_eq!(t.out, default_out());
    for l in [Loss::WeightedMse, Loss::Mse, Loss::SoftBce] {
        assert_eq!(Loss::parse(l.as_str()), Some(l));
    }
    assert_eq!(Loss::parse("hinge"), None);
}

#[test]
fn windows_score_their_last_predictions() {
    let tc = TrainConfig::default();
    let mut rng = Rng::new(11);
    for _ in 0..40 {
        let w = Window::draw(&tc, &mut rng);
        assert!((4..=12).contains(&w.burn));
        assert_eq!((w.steps, w.counted), (w.burn + 16, 16));
        let scored = (0..w.steps).filter(|k| w.carries_loss(*k)).count();
        assert_eq!(scored, w.counted);
        assert!(w.carries_loss(w.steps - 16) && !w.carries_loss(w.steps - 17));
        assert!(w.is_last(w.steps - 1) && !w.is_last(0));
    }
}

#[test]
fn feeding_back_draws_only_for_a_chance() {
    let mut a = Rng::new(1);
    assert!(!feeds_back(&mut a, 0));
    let mut b = Rng::new(1);
    assert_eq!(a.next_u64(), b.next_u64());
    assert!(feeds_back(&mut a, 1.0f32.to_bits()));
    b.next_u64();
    assert_eq!(a.next_u64(), b.next_u64());
    assert!(!feeds_back(&mut a, (-1.0f32).to_bits()));
}

#[test]
fn progress_and_tails() {
    assert_eq!(tail_from(100), 90);
    assert_eq!(tail_from(12000), 10800);
    assert_eq!(tail_from(10), 9);
    assert_eq!(tail_from(9), 8);
    assert_eq!(tail_from(1), 0);
    assert_eq!(tail_from(0), 0);
    assert_eq!(recent_from(10), 0);
    assert!(shows_progress(0, 12000) && shows_progress(11999, 12000));
    assert!(!shows_progress(1, 12000));
}

#[test]
fn losses_are_summed_up() {
    let bits = |v: &[f64]| v.iter().map(|x| x.to_bits()).collect::<Vec<u64>>();
    let s = loss_summary(&bits(&[3.0, 1.0, 2.0]));
    assert_eq!(f64::from_bits(s.first), 3.0);
    assert_eq!(f64::from_bits(s.best), 1.0);
    assert_eq!(f64::from_bits(s.last), 2.0);
    let none = loss_summary(&[]);
    assert!(f64::from_bits(none.first).is_nan() && f64::from_bits(none.last).is_nan());
    assert_eq!(f64::from_bits(none.best), f64::INFINITY);
}

#[test]
fn provenance_names_how_a_checkpoint_came_about() {
    assert_eq!(seed_text(0xBA11), "0x000000000000ba11");
    let t = ProvenanceTexts {
        crate_name: "n".to_string(),
        crate_version: "v".to_string(),
        rustc: "r".to_string(),
        lr: "0.004".to_string(),
        foreground_loss_weight: "6".to_string(),
        p_max: "1".to_string(),
        ramp: "1".to_string(),
        corpus_digest: "d".to_string(),
        final_mean_loss: "l".to_string(),
    };
    let p = provenance(&TrainConfig::default(), &t);
    let get = |k: &str| p.iter().find(|e| e.0 == k).map(|e| e.1.as_str());
    assert_eq!(p.len(), 21);
    assert_eq!(get("seed"), Some("0x5601e1d52c07ba11"));
    assert_eq!(get("burn_range"), Some("4..=12"));
    assert_eq!(get("full_bptt"), Some("true"));
    assert_eq!(get("loss"), Some(Loss::WeightedMse.as_str()));
    assert_eq!(get("lr_initial"), Some("0.004"));
}

#[test]
fn a_window_is_run_with_its_own_predictions_fed_back() {
    let w = Window { burn: 1, steps: 3, counted: 2 };
    let frames: Vec<i64> = vec![10, 20, 30, 40];
    let controls: Vec<i64> = vec![1, 2, 3];
    let cell = |x: &i64, u: &i64, s: &i64| -> Result<i64, String> { Ok(s * 1000 + x * 10 + u) };
    let head = |s: &i64| -> Result<i64, String> { Ok(s % 7) };
    let score = |l: Vec<(i64, i64)>, p: &i64, t: &i64| -> Result<Vec<(i64, i64)>, String> {
        let mut l = l;
        l.push((*p, *t));
        Ok(l)
    };
    let mut rng = Rng::new(3);
    let teacher = full_window(&w, &frames, &controls, 0, vec![], &mut rng, 0, cell, head, score);
    let s2: i64 = 101 * 1000 + 202;
    let s3 = s2 * 1000 + 303;
    assert_eq!(teacher, Ok(vec![(s2 % 7, 30), (s3 % 7, 40)]));

    let one = 1.0f32.to_bits();
    let own = full_window(&w, &frames, &controls, 0, vec![], &mut rng, one, cell, head, score);
    let p1 = 101 % 7;
    let t2 = 101 * 1000 + p1 * 10 + 2;
    let p2 = t2 % 7;
    let t3 = t2 * 1000 + p2 * 10 + 3;
    assert_eq!(own, Ok(vec![(t2 % 7, 30), (t3 % 7, 40)]));

    let bad = |_: &i64| -> Result<i64, String> { Err("head".to_string()) };
    let failed = full_window(&w, &frames, &controls, 0, vec![], &mut rng, 0, cell, bad, score);
    assert_eq!(failed, Err("head".to_string()));
    let late = |_: Vec<(i64, i64)>, p: &i64, _: &i64| -> Result<Vec<(i64, i64)>, String> {
        Err(format!("score of {p}"))
    };
    let failed = full_window(&w, &frames, &controls, 0, vec![], &mut rng, 0, cell, head, late);
    assert_eq!(failed, Err(format!("score of {}", s2 % 7)));
}

#[test]
fn a_detached_window_starts_scoring_after_a_cut_state() {
    let w = Window { burn: 2, steps: 3, counted: 1 };
    let frames: Vec<i64> = vec![1, 1, 1, 1];
    let controls: Vec<i64> = vec![0, 0, 0];
    let cell = |x: &i64, _u: &i64, s: &i64| -> Result<i64, String> { Ok(s + x) };
    let head = |s: &i64| -> Result<i64, String> { Ok(*s) };
    let score = |l: i64, p: &i64, t: &i64| -> Result<i64, String> { Ok(l * 100 + p + t) };
    let detach = |s: i64| s + 10;
    let r = detached_window(&w, &frames, &controls, 0, 0, cell, detach, head, score);
    // Two burnt steps, each cut; then one step whose prediction is scored.
    assert_eq!(r, Ok(23 + 1));
    let longer = Window { burn: 1, steps: 3, counted: 2 };
    let r = detached_window(&longer, &frames, &controls, 0, 0, cell, detach, head, score);
    assert_eq!(r, Ok((12 + 1) * 100 + (13 + 1)));
    let bad = |s: &i64| -> Result<i64, String> { Err(format!("head of {s}")) };
    let r = detached_window(&longer, &frames, &controls, 0, 0, cell, detach, bad, score);
    assert_eq!(r, Err("head of 12".to_string()));
}

fn model() -> ConvLstm {
    let cfg = ModelConfig::default();
    let all: Vec<RawTensor> = ConvLstm::parameter_shapes(&cfg)
        .into_iter()
        .map(|(name, dims)| {
            let n: usize = dims.iter().product();
            let v: Vec<u32> = (0..n).map(|i| ((i % 7) as f32 * 0.02 - 0.05).to_bits()).collect();
            RawTensor {
                name: name.to_string(),
                dims,
                dtype: "F32".to_string(),
                data: f32s_to_le_bytes(&v),
            }
        })
        .collect();
    ConvLstm::new(cfg, &all).unwrap()
}

#[test]
fn every_branch_is_judged_against_the_scene() {
    let bytes = checkpoint_bytes(&model(), &vec![]).unwrap();
    let g = Generator::load(&bytes, SceneId::MovingShape01, 2, 2, ModelConfig::default()).unwrap();
    let s = State::zeros(&g.cfg, 1);
    let list = all_branches(&g, &s, advance, render).unwrap();
    assert_eq!(list.len(), 6);
    for (b, r) in list.iter().zip(Request::ALL) {
        assert_eq!(b.request, r);
        assert_eq!(b.generated.len(), 2);
        assert_eq!(b.truth, truth_future(g.scene, 2, 2, r, advance, render));
    }
    assert!(finite_branches(&list));
    let mut broken = list;
    broken[5].generated[1][7] = f32::INFINITY.to_bits();
    assert!(!finite_branches(&broken));
    assert!(all_branches(&g, &State::zeros(&g.cfg, 2), advance, render).is_err());
}
