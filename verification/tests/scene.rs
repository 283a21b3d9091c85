//! The scene: control words, identities, schedules, requests and motion.

use vole_field::rollout::{commanded_speed, rollout, truth_future, Body, SceneSpec};
use vole_field::scene::{
    context_program, model_input, Control, Request, Rng, SceneId, Schedule, ACCEL_STEP,
    SCENE_ID_BYTES, SPEED_BASE, SPEED_MAX, SPEED_MIN, TURN_ANGLE, TURN_COS, TURN_SIN, WALL_MARGIN,
};

fn value(bits: u32) -> f32 {
    f32::from_bits(bits)
}

/// A body moved under one control word.
fn advance(b: &Body, u: Control) -> Body {
    let (mut x, mut y) = (value(b.x), value(b.y));
    let (mut dx, mut dy) = (value(b.dir_x), value(b.dir_y));
    if u.turn != 0 {
        let c = value(TURN_COS);
        let s = if u.turn > 0 { value(TURN_SIN) } else { -value(TURN_SIN) };
        let (ox, oy) = (dx, dy);
        dx = c * ox - s * oy;
        dy = s * ox + c * oy;
    }
    let speed = value(commanded_speed(u.accel));
    x += speed * dx;
    y += speed * dy;
    let (lo, hi) = (value(WALL_MARGIN), 31.0 - value(WALL_MARGIN));
    if x < lo {
        x = lo + (lo - x);
        dx = -dx;
    } else if x > hi {
        x = hi - (x - hi);
        dx = -dx;
    }
    if y < lo {
        y = lo + (lo - y);
        dy = -dy;
    } else if y > hi {
        y = hi - (y - hi);
        dy = -dy;
    }
    Body {
        x: x.to_bits(),
        y: y.to_bits(),
        dir_x: dx.to_bits(),
        dir_y: dy.to_bits(),
        speed: speed.to_bits(),
        amplitude: b.amplitude,
    }
}

/// A frame that shows where the bodies are.
fn render(bodies: &Vec<Body>) -> Vec<u32> {
    let mut out = vec![0u32; 1024];
    for b in bodies {
        let at = (value(b.y) as usize) * 32 + value(b.x) as usize;
        out[at] = b.amplitude;
    }
    out
}

#[test]
fn turn_constants_match_libm() {
    assert_eq!(value(TURN_COS), value(TURN_ANGLE).cos());
    assert_eq!(value(TURN_SIN), value(TURN_ANGLE).sin());
}

#[test]
fn speed_is_a_memoryless_function_of_the_control_word() {
    let speed = |a: i8| value(commanded_speed(a));
    let (base, step) = (value(SPEED_BASE), value(ACCEL_STEP));
    assert_eq!(speed(1), base * (1.0 + step));
    assert_eq!(speed(0), base);
    assert_eq!(speed(-1), base * (1.0 - step));
    assert!(speed(1) <= value(SPEED_MAX) && speed(-1) >= value(SPEED_MIN));
    // A held throttle gives the same speed at every step, which is what makes it
    // readable from the input rather than a hidden register.
    let mut s = base;
    for _ in 0..10 {
        s = speed(1);
    }
    assert_eq!(s, speed(1));
    // And the three throttle settings really are distinguishable.
    assert!(speed(-1) < speed(0));
    assert!(speed(0) < speed(1));
}

#[test]
fn every_throttle_setting_commands_the_clamped_speed() {
    for a in i8::MIN..=i8::MAX {
        let v = value(SPEED_BASE) * (1.0 + a as f32 * value(ACCEL_STEP));
        assert_eq!(
            value(commanded_speed(a)),
            v.clamp(value(SPEED_MIN), value(SPEED_MAX)),
            "throttle {a}"
        );
    }
}

#[test]
fn scene_is_bit_reproducible() {
    let spec = SceneSpec::canonical(SceneId::MovingShape01);
    let program = context_program();
    let a = rollout(&spec, 64, |t| program.at(t), advance, render);
    let b = rollout(&spec, 64, |t| program.at(t), advance, render);
    assert_eq!(a, b);
    assert_eq!(a.len(), 65);
}

#[test]
fn a_shorter_rollout_is_a_prefix() {
    let spec = SceneSpec::canonical(SceneId::MovingShape02);
    let program = Request::TurnLeft.schedule();
    let whole = rollout(&spec, 30, |t| program.at(t), advance, render);
    assert_eq!(whole[0], render(&spec.bodies));
    assert!(whole.iter().all(|f| f.len() == 1024));
    for k in [0, 1, 7, 30] {
        let part = rollout(&spec, k, |t| program.at(t), advance, render);
        assert_eq!(part, whole[..=k].to_vec());
    }
}

#[test]
fn scene_ids_round_trip_through_record_bytes() {
    for id in [SceneId::MovingShape01, SceneId::MovingShape02] {
        let bytes = id.to_record_bytes();
        assert_eq!(bytes.len(), SCENE_ID_BYTES);
        assert_eq!(SceneId::from_record_bytes(&bytes), Some(id));
    }
    assert_eq!(SceneId::from_record_bytes(&[0u8; SCENE_ID_BYTES]), None);
}

#[test]
fn canonical_scenes_start_from_their_literals() {
    let one = SceneSpec::canonical(SceneId::MovingShape01);
    assert_eq!(one.bodies.len(), 1);
    assert_eq!(value(one.bodies[0].x), 9.0);
    assert_eq!(value(one.bodies[0].y), 16.0);
    assert_eq!(value(one.bodies[0].dir_x), 1.0);
    let two = SceneSpec::canonical(SceneId::MovingShape02);
    assert_eq!(two.working(), two.bodies);
    assert_eq!(value(two.bodies[0].x), 22.0);
    assert_eq!(value(two.bodies[0].dir_x), -1.0);
    assert_eq!(value(two.bodies[1].y), 22.0);
    assert_eq!(value(two.bodies[1].dir_y), -1.0);
    assert_eq!(value(two.bodies[1].amplitude), 0.8);
}

#[test]
fn a_rollout_applies_each_control_once() {
    // Bodies that count turns in their speed field.
    let count = |b: &Body, u: Control| Body { speed: b.speed * 10 + (u.turn + 2) as u32, ..*b };
    let show = |v: &Vec<Body>| vec![v[0].speed];
    let mut spec = SceneSpec::canonical(SceneId::MovingShape01);
    spec.bodies[0].speed = 0;
    let sched = Schedule { steps: vec![Control::new(-1, 0), Control::new(1, 0)] };
    let frames = rollout(&spec, 3, |t| sched.at(t), count, show);
    assert_eq!(frames, vec![vec![0], vec![1], vec![13], vec![133]]);
}

#[test]
fn the_true_future_follows_the_context() {
    let spec = SceneSpec::canonical(SceneId::MovingShape01);
    let whole = {
        let mut steps: Vec<Control> = (0..40).map(|t| context_program().at(t)).collect();
        let turn = Request::TurnLeft.schedule();
        steps.extend((0..5).map(|t| turn.at(t)));
        rollout(&spec, 45, |t| steps[t], advance, render)
    };
    let future = truth_future(SceneId::MovingShape01, 40, 5, Request::TurnLeft, advance, render);
    assert_eq!(future, whole[41..].to_vec());
}

#[test]
fn control_codes_are_dense() {
    let mut seen = Vec::new();
    for turn in -1..=1 {
        for accel in -1..=1 {
            let u = Control::new(turn, accel);
            seen.push(u.code());
            assert_eq!(value(u.planes()[0]), turn as f32);
            assert_eq!(value(u.planes()[1]), accel as f32);
        }
    }
    assert_eq!(seen, (0..9).collect::<Vec<u8>>());
    assert_eq!(Control::none().code(), 4);
}

#[test]
fn every_setting_is_shown_to_the_model_as_itself() {
    for setting in i8::MIN..=i8::MAX {
        let u = Control { turn: setting, accel: -1 };
        assert_eq!(u.planes()[0], (setting as f32).to_bits());
        let v = Control { turn: 1, accel: setting };
        assert_eq!(v.planes()[1], (setting as f32).to_bits());
    }
}

#[test]
fn the_context_program_is_an_s_curve() {
    let p = context_program();
    assert_eq!(p.at(0), Control::none());
    assert_eq!(p.at(64), Control::new(-1, 0));
    assert_eq!(p.at(111), Control::new(-1, 0));
    assert_eq!(p.at(112), Control::none());
    assert_eq!(p.at(160), Control::new(1, 0));
    assert_eq!(p.at(208), Control::none());
    assert_eq!(p.at(100_000), Control::none());
}

#[test]
fn schedules_hold_their_last_word() {
    let s = Schedule::segments(6, &[(0, Control::new(1, 0)), (4, Control::new(0, 1))]);
    assert_eq!(s.codes(), vec![7, 7, 7, 7, 5, 5]);
    assert_eq!(s.at(50), Control::new(0, 1));
    assert_eq!(Schedule::constant(Control::new(0, -1)).at(9), Control::new(0, -1));
    assert_eq!(Schedule { steps: vec![] }.at(3), Control::none());
}

#[test]
fn requests_parse_back_from_their_names() {
    for r in Request::ALL {
        assert_eq!(Request::parse(r.name()), Some(r));
        assert_eq!(r.schedule().at(0).code() < 9, true);
        assert!(!r.label().is_empty());
    }
    assert_eq!(Request::parse("turn-around"), None);
    assert_eq!(Request::MONTAGE.map(|r| r.name()), [
        "continue",
        "turn-left",
        "turn-right",
        "accelerate",
    ]);
    for i in 0..6 {
        for j in 0..i {
            let (a, b) = (Request::ALL[i].schedule(), Request::ALL[j].schedule());
            assert!((0..16).any(|t| a.at(t) != b.at(t)));
        }
    }
}

#[test]
fn scene_texts_are_exact() {
    assert_eq!(SceneId::parse("moving-shape-01"), Some(SceneId::MovingShape01));
    assert_eq!(SceneId::parse("moving-shape-1"), None);
    assert_eq!(SceneId::MovingShape02.as_str(), "moving-shape-02");
    assert_eq!(SceneId::MovingShape01.label(), "one blob, gentle S-curve, canonical");
    assert_eq!(SceneId::from_record_bytes(b"moving-shape-01\0"), Some(SceneId::MovingShape01));
    assert_eq!(SceneId::from_record_bytes(b"moving-shape-01\x07"), None);
}

#[test]
fn model_input_is_the_frame_and_two_planes() {
    let f: Vec<u32> = (0..1024).collect();
    let x = model_input(&f, Control::new(-1, 1));
    assert_eq!(&x[..1024], f.as_slice());
    assert!(x[1024..2048].iter().all(|v| value(*v) == -1.0));
    assert!(x[2048..].iter().all(|v| value(*v) == 1.0));
    assert_eq!(x.len(), 3072);
}

#[test]
fn the_generator_is_splitmix64() {
    let mut r = Rng::new(0);
    assert_eq!(r.next_u64(), 0xE220_A839_7B1D_CDAF);
    assert_eq!(r.next_u64(), 0x6E78_9E6A_A1B9_65F4);
    let mut a = Rng::new(42);
    let mut b = a.clone();
    for _ in 0..200 {
        let z = b.next_u64();
        let unit = value(a.f32_unit());
        assert_eq!(unit, (z >> 40) as f32 / 16_777_216.0);
        assert!((0.0..1.0).contains(&unit));
    }
    let mut c = Rng::new(7);
    for _ in 0..50 {
        assert!(c.below(5) < 5);
        let s = c.schedule(33);
        assert_eq!(s.steps.len(), 33);
    }
}

#[test]
fn a_random_scene_draws_heading_and_place() {
    let place = |heading: u32, x: u32, y: u32| Body {
        x,
        y,
        dir_x: heading,
        dir_y: 0,
        speed: SPEED_BASE,
        amplitude: 0,
    };
    let mut a = Rng::new(3);
    let spec = SceneSpec::random(&mut a, place);
    let mut b = Rng::new(3);
    assert_eq!(spec.bodies[0].dir_x, b.f32_unit());
    assert_eq!(spec.bodies[0].x, b.f32_unit());
    assert_eq!(spec.bodies[0].y, b.f32_unit());
    assert_eq!(a.next_u64(), b.next_u64());
}
