//! The synthetic scene in motion: bodies, their initial conditions, and the frames
//! that a control program gives.
//!
//! How a body moves under one control word, and how bodies are drawn, is handed in;
//! which control applies when, and which frames come out, is decided here. Real
//! numbers are `binary32` bit patterns.

use vstd::prelude::*;

use crate::scene::{bits_of_fraction, context_control, context_program, control_at, rng_draw,
    rng_next, Control, Request, Rng, SceneId, SPEED_BASE, SPEED_MAX, SPEED_MIN};

verus! {

/// One moving body.
#[derive(Debug, Clone, Copy, PartialEq, Eq, Structural)]
pub struct Body {
    /// Centre, x.
    pub x: u32,
    /// Centre, y.
    pub y: u32,
    /// Unit heading, x.
    pub dir_x: u32,
    /// Unit heading, y.
    pub dir_y: u32,
    /// Speed in pixels per frame.
    pub speed: u32,
    /// Peak brightness.
    pub amplitude: u32,
}

/// The speed that a throttle setting commands: `0.55` scaled by `1.28` or `0.72`
/// for the two settings beside zero, and held between `0.32` and `0.78` beyond them.
pub open spec fn speed_at(accel: int) -> u32 {
    if accel <= -2 {
        SPEED_MIN
    } else if accel == -1 {
        0x3eca_c084
    } else if accel == 0 {
        SPEED_BASE
    } else if accel == 1 {
        0x3f34_3958
    } else {
        SPEED_MAX
    }
}

/// The speed that a throttle setting commands, as bits. It depends on nothing else.
pub fn commanded_speed(accel: i8) -> (r: u32)
    ensures
        r == speed_at(accel as int),
{
    if accel <= -2 {
        SPEED_MIN
    } else if accel == -1 {
        0x3eca_c084
    } else if accel == 0 {
        SPEED_BASE
    } else if accel == 1 {
        0x3f34_3958
    } else {
        SPEED_MAX
    }
}

/// A faster setting commands a higher speed: positive numbers are ordered as their
/// bits are.
pub proof fn law_throttle_is_monotone(a: int, b: int)
    requires
        a <= b,
    ensures
        SPEED_MIN <= speed_at(a) <= speed_at(b) <= SPEED_MAX,
        -2 <= a < b <= 2 ==> speed_at(a) < speed_at(b),
{
}

/// A scene: its identity and its initial bodies.
#[derive(Debug)]
pub struct SceneSpec {
    /// Which scene this is.
    pub id: SceneId,
    /// Initial bodies.
    pub bodies: Vec<Body>,
}

/// The initial bodies of the canonical scenes: one at (9, 16) heading right; or two,
/// at (22, 10) heading left and at (10, 22) heading up, the second of them dimmer.
pub open spec fn canonical_bodies(id: SceneId) -> Seq<Body> {
    match id {
        SceneId::MovingShape01 => seq![
            Body {
                x: 0x4110_0000,
                y: 0x4180_0000,
                dir_x: 0x3f80_0000,
                dir_y: 0,
                speed: SPEED_BASE,
                amplitude: 0x3f80_0000,
            },
        ],
        SceneId::MovingShape02 => seq![
            Body {
                x: 0x41b0_0000,
                y: 0x4120_0000,
                dir_x: 0xbf80_0000,
                dir_y: 0,
                speed: SPEED_BASE,
                amplitude: 0x3f80_0000,
            },
            Body {
                x: 0x4120_0000,
                y: 0x41b0_0000,
                dir_x: 0,
                dir_y: 0xbf80_0000,
                speed: SPEED_BASE,
                amplitude: 0x3f4c_cccd,
            },
        ],
    }
}

impl SceneSpec {
    /// The canonical scene with this identity.
    pub fn canonical(id: SceneId) -> (r: SceneSpec)
        ensures
            r.id == id,
            r.bodies@ == canonical_bodies(id),
            r.bodies@.len() <= SceneId::MAX_BODIES,
    {
        let mut bodies: Vec<Body> = Vec::new();
        match id {
            SceneId::MovingShape01 => {
                bodies.push(
                    Body {
                        x: 0x4110_0000,
                        y: 0x4180_0000,
                        dir_x: 0x3f80_0000,
                        dir_y: 0,
                        speed: SPEED_BASE,
                        amplitude: 0x3f80_0000,
                    },
                );
            },
            SceneId::MovingShape02 => {
                bodies.push(
                    Body {
                        x: 0x41b0_0000,
                        y: 0x4120_0000,
                        dir_x: 0xbf80_0000,
                        dir_y: 0,
                        speed: SPEED_BASE,
                        amplitude: 0x3f80_0000,
                    },
                );
                bodies.push(
                    Body {
                        x: 0x4120_0000,
                        y: 0x41b0_0000,
                        dir_x: 0,
                        dir_y: 0xbf80_0000,
                        speed: SPEED_BASE,
                        amplitude: 0x3f4c_cccd,
                    },
                );
            },
        }
        assert(bodies@ =~= canonical_bodies(id));
        SceneSpec { id, bodies }
    }

    /// A scene of one body that is placed by three drawn fractions: its heading, its
    /// x and its y, in this order.
    pub fn random<P: Fn(u32, u32, u32) -> Body>(rng: &mut Rng, place: P) -> (r: SceneSpec)
        requires
            forall|a: u32, b: u32, c: u32| call_requires(place, (a, b, c)),
        ensures
            final(rng).state() == rng_next(rng_next(rng_next(old(rng).state()))),
            r.id == SceneId::MovingShape01,
            r.bodies@.len() == 1,
            placed(old(rng).state(), r.bodies@[0], place),
    {
        let ghost s = rng.state();
        let heading: u32 = rng.f32_unit();
        let x: u32 = rng.f32_unit();
        let y: u32 = rng.f32_unit();
        let body = place(heading, x, y);
        let mut bodies: Vec<Body> = Vec::new();
        bodies.push(body);
        assert(call_ensures(place, (heading, x, y), body));
        SceneSpec { id: SceneId::MovingShape01, bodies }
    }

    /// A working copy of the bodies.
    pub fn working(&self) -> (r: Vec<Body>)
        ensures
            r@ == self.bodies@,
    {
        let r = self.bodies.clone();
        assert(r@ =~= self.bodies@);
        r
    }
}

/// The fraction that is drawn from a state.
pub open spec fn drawn_fraction(s: u64, bits: u32) -> bool {
    bits_of_fraction(bits, (rng_draw(s) >> 40) as nat)
}

/// `b` is placed by the three fractions that are drawn from a state.
pub open spec fn placed<P: Fn(u32, u32, u32) -> Body>(s: u64, b: Body, place: P) -> bool {
    exists|heading: u32, x: u32, y: u32|
        {
            &&& drawn_fraction(s, heading)
            &&& drawn_fraction(rng_next(s), x)
            &&& drawn_fraction(rng_next(rng_next(s)), y)
            &&& #[trigger] call_ensures(place, (heading, x, y), b)
        }
}

// ---------------------------------------------------------------------------
// Motion
// ---------------------------------------------------------------------------

/// Every body has moved under one control word.
pub open spec fn moved<A: Fn(&Body, Control) -> Body>(
    from: Seq<Body>,
    to: Seq<Body>,
    u: Control,
    advance: A,
) -> bool {
    &&& from.len() == to.len()
    &&& forall|i: int|
        0 <= i < from.len() ==> call_ensures(advance, (&from[i], u), #[trigger] to[i])
}

/// Moves every body under one control word.
fn step<A: Fn(&Body, Control) -> Body>(bodies: &Vec<Body>, u: Control, advance: &A) -> (r: Vec<Body>)
    requires
        forall|b: &Body, u: Control| call_requires(*advance, (b, u)),
    ensures
        moved(bodies@, r@, u, *advance),
{
    let mut out: Vec<Body> = Vec::new();
    let mut i: usize = 0;
    while i < bodies.len()
        invariant
            i <= bodies@.len(),
            forall|b: &Body, u: Control| call_requires(*advance, (b, u)),
            out@.len() == i,
            forall|j: int|
                0 <= j < i ==> call_ensures(*advance, (&bodies@[j], u), #[trigger] out@[j]),
        decreases bodies@.len() - i,
    {
        let b = advance(&bodies[i], u);
        out.push(b);
        i = i + 1;
    }
    out
}

/// A course of body lists: entry `t + 1` is entry `t`, moved under the control of
/// step `t`.
pub open spec fn course<A: Fn(&Body, Control) -> Body>(
    chain: Seq<Vec<Body>>,
    controls: Seq<Control>,
    advance: A,
) -> bool {
    &&& chain.len() == controls.len() + 1
    &&& forall|t: int|
        0 <= t < controls.len() ==> #[trigger] moved(
            chain[t]@,
            chain[t + 1]@,
            controls[t],
            advance,
        )
}

/// Frame `i` shows entry `from + i` of a course.
pub open spec fn shows<R: Fn(&Vec<Body>) -> Vec<u32>>(
    frames: Seq<Vec<u32>>,
    chain: Seq<Vec<Body>>,
    from: int,
    render: R,
) -> bool {
    forall|i: int|
        0 <= i < frames.len() ==> call_ensures(render, (&chain[from + i],), #[trigger] frames[i])
}

/// The controls that a schedule holds in the first `n` steps.
pub open spec fn controls_of(steps: Seq<Control>, n: nat) -> Seq<Control> {
    Seq::new(n, |t: int| control_at(steps, t))
}

/// `frames` are the scene at the start and after each of the controls.
pub open spec fn rolled<A: Fn(&Body, Control) -> Body, R: Fn(&Vec<Body>) -> Vec<u32>>(
    start: Seq<Body>,
    controls: Seq<Control>,
    frames: Seq<Vec<u32>>,
    advance: A,
    render: R,
) -> bool {
    &&& frames.len() == controls.len() + 1
    &&& exists|chain: Seq<Vec<Body>>|
        {
            &&& #[trigger] course(chain, controls, advance)
            &&& chain[0]@ == start
            &&& shows(frames, chain, 0, render)
        }
}

/// Word `t` of `controls` is what is held during step `t`.
pub open spec fn held<C: Fn(usize) -> Control>(control: C, controls: Seq<Control>) -> bool {
    forall|t: int|
        0 <= t < controls.len() ==> call_ensures(control, (t as usize,), #[trigger] controls[t])
}

/// `frames` are the scene at the start and after each of `steps` steps.
pub open spec fn rolled_under<
    C: Fn(usize) -> Control,
    A: Fn(&Body, Control) -> Body,
    R: Fn(&Vec<Body>) -> Vec<u32>,
>(
    start: Seq<Body>,
    steps: nat,
    control: C,
    frames: Seq<Vec<u32>>,
    advance: A,
    render: R,
) -> bool {
    exists|controls: Seq<Control>|
        {
            &&& controls.len() == steps
            &&& held(control, controls)
            &&& #[trigger] rolled(start, controls, frames, advance, render)
        }
}

/// The frames of a scene: the first one, and one after each step. `control(t)` is the control
/// held during the transition from frame `t` to frame `t + 1`.
pub fn rollout<
    C: Fn(usize) -> Control,
    A: Fn(&Body, Control) -> Body,
    R: Fn(&Vec<Body>) -> Vec<u32>,
>(spec: &SceneSpec, steps: usize, control: C, advance: A, render: R) -> (frames: Vec<Vec<u32>>)
    requires
        forall|t: usize| t < steps ==> call_requires(control, (t,)),
        forall|b: &Body, u: Control| call_requires(advance, (b, u)),
        forall|v: &Vec<Body>| call_requires(render, (v,)),
    ensures
        rolled_under(spec.bodies@, steps as nat, control, frames@, advance, render),
{
    let mut bodies = spec.working();
    let mut frames: Vec<Vec<u32>> = Vec::new();
    let first = render(&bodies);
    frames.push(first);
    let ghost mut chain: Seq<Vec<Body>> = seq![bodies];
    let ghost mut controls: Seq<Control> = Seq::empty();
    let mut t: usize = 0;
    while t < steps
        invariant
            t <= steps,
            forall|t: usize| t < steps ==> call_requires(control, (t,)),
            forall|b: &Body, u: Control| call_requires(advance, (b, u)),
            forall|v: &Vec<Body>| call_requires(render, (v,)),
            controls.len() == t,
            held(control, controls),
            course(chain, controls, advance),
            chain[0]@ == spec.bodies@,
            chain.last() == bodies,
            frames@.len() == t + 1,
            shows(frames@, chain, 0, render),
        decreases steps - t,
    {
        let u = control(t);
        let next = step(&bodies, u, &advance);
        let frame = render(&next);
        proof {
            let longer = chain.push(next);
            let now = controls.push(u);
            assert forall|k: int| 0 <= k < now.len() implies #[trigger] moved(
                longer[k]@,
                longer[k + 1]@,
                now[k],
                advance,
            ) by {
                if k < t {
                    assert(moved(chain[k]@, chain[k + 1]@, controls[k], advance));
                }
            }
            assert forall|k: int| 0 <= k < now.len() implies call_ensures(
                control,
                (k as usize,),
                #[trigger] now[k],
            ) by {
                if k < t {
                    assert(call_ensures(control, (k as usize,), controls[k]));
                }
            }
            let before = frames@;
            let after = before.push(frame);
            assert forall|i: int| 0 <= i < after.len() implies call_ensures(
                render,
                (&longer[0 + i],),
                #[trigger] after[i],
            ) by {
                if i < before.len() {
                    assert(call_ensures(render, (&chain[0 + i],), before[i]));
                }
            }
            chain = longer;
            controls = now;
        }
        bodies = next;
        frames.push(frame);
        t = t + 1;
    }
    proof {
        assert(rolled(spec.bodies@, controls, frames@, advance, render));
    }
    frames
}

/// A rollout that takes its controls from a schedule holds what the schedule holds.
pub proof fn lemma_steered<
    C: Fn(usize) -> Control,
    A: Fn(&Body, Control) -> Body,
    R: Fn(&Vec<Body>) -> Vec<u32>,
>(
    start: Seq<Body>,
    steps: nat,
    control: C,
    schedule: Seq<Control>,
    frames: Seq<Vec<u32>>,
    advance: A,
    render: R,
)
    requires
        steps <= usize::MAX,
        rolled_under(start, steps, control, frames, advance, render),
        forall|t: usize, u: Control| #[trigger]
            call_ensures(control, (t,), u) ==> u == control_at(schedule, t as int),
    ensures
        rolled(start, controls_of(schedule, steps), frames, advance, render),
{
    let controls = choose|controls: Seq<Control>|
        {
            &&& controls.len() == steps
            &&& held(control, controls)
            &&& #[trigger] rolled(start, controls, frames, advance, render)
        };
    assert forall|t: int| 0 <= t < steps implies controls[t] == controls_of(schedule, steps)[t] by {
        assert(call_ensures(control, (t as usize,), controls[t]));
    }
    assert(controls =~= controls_of(schedule, steps));
}

/// The controls of a context and of the request after it.
pub open spec fn truth_controls(context_len: nat, future_len: nat, request: Request) -> Seq<Control> {
    Seq::new(context_len, |t: int| context_control(t)) + controls_of(request.program(), future_len)
}

/// `frames` are what the scene does after the context, under the request.
pub open spec fn true_future<A: Fn(&Body, Control) -> Body, R: Fn(&Vec<Body>) -> Vec<u32>>(
    start: Seq<Body>,
    context_len: nat,
    future_len: nat,
    request: Request,
    frames: Seq<Vec<u32>>,
    advance: A,
    render: R,
) -> bool {
    &&& frames.len() == future_len
    &&& exists|chain: Seq<Vec<Body>>|
        {
            &&& #[trigger] course(chain, truth_controls(context_len, future_len, request), advance)
            &&& chain[0]@ == start
            &&& shows(frames, chain, context_len as int + 1, render)
        }
}

/// What the scene itself does after its context, under a request.
pub fn truth_future<A: Fn(&Body, Control) -> Body, R: Fn(&Vec<Body>) -> Vec<u32>>(
    scene: SceneId,
    context_len: usize,
    future_len: usize,
    request: Request,
    advance: A,
    render: R,
) -> (frames: Vec<Vec<u32>>)
    requires
        forall|b: &Body, u: Control| call_requires(advance, (b, u)),
        forall|v: &Vec<Body>| call_requires(render, (v,)),
    ensures
        true_future(
            canonical_bodies(scene),
            context_len as nat,
            future_len as nat,
            request,
            frames@,
            advance,
            render,
        ),
{
    let spec = SceneSpec::canonical(scene);
    let context = context_program();
    let sched = request.schedule();
    let ghost all = truth_controls(context_len as nat, future_len as nat, request);
    let mut bodies = spec.working();
    let ghost mut chain: Seq<Vec<Body>> = seq![bodies];
    let mut t: usize = 0;
    while t < context_len
        invariant
            t <= context_len,
            forall|b: &Body, u: Control| call_requires(advance, (b, u)),
            context@ == Seq::new(512, |i: int| context_control(i)),
            all == truth_controls(context_len as nat, future_len as nat, request),
            course(chain, all.take(t as int), advance),
            chain[0]@ == canonical_bodies(scene),
            chain.last() == bodies,
        decreases context_len - t,
    {
        let u = context.at(t);
        assert(u == context_control(t as int));
        assert(u == all[t as int]);
        let next = step(&bodies, u, &advance);
        proof {
            lemma_course_grows(chain, all, t as int, next, advance);
            chain = chain.push(next);
        }
        bodies = next;
        t = t + 1;
    }
    let mut frames: Vec<Vec<u32>> = Vec::new();
    let mut j: usize = 0;
    while j < future_len
        invariant
            j <= future_len,
            forall|b: &Body, u: Control| call_requires(advance, (b, u)),
            forall|v: &Vec<Body>| call_requires(render, (v,)),
            sched@ == request.program(),
            all == truth_controls(context_len as nat, future_len as nat, request),
            course(chain, all.take(context_len + j), advance),
            chain[0]@ == canonical_bodies(scene),
            chain.last() == bodies,
            frames@.len() == j,
            shows(frames@, chain, context_len + 1, render),
        decreases future_len - j,
    {
        let u = sched.at(j);
        assert(u == all[context_len + j]);
        let next = step(&bodies, u, &advance);
        let frame = render(&next);
        proof {
            lemma_course_grows(chain, all, context_len + j, next, advance);
            let longer = chain.push(next);
            let before = frames@;
            let after = before.push(frame);
            let from = context_len + 1;
            assert forall|i: int| 0 <= i < after.len() implies call_ensures(
                render,
                (&longer[from + i],),
                #[trigger] after[i],
            ) by {
                if i < before.len() {
                    assert(call_ensures(render, (&chain[from + i],), before[i]));
                }
            }
            chain = longer;
        }
        bodies = next;
        frames.push(frame);
        j = j + 1;
    }
    assert(all.take(context_len + future_len) =~= all);
    frames
}

/// A course goes on with the next control.
proof fn lemma_course_grows<A: Fn(&Body, Control) -> Body>(
    chain: Seq<Vec<Body>>,
    all: Seq<Control>,
    k: int,
    next: Vec<Body>,
    advance: A,
)
    requires
        0 <= k < all.len(),
        course(chain, all.take(k), advance),
        moved(chain.last()@, next@, all[k], advance),
    ensures
        course(chain.push(next), all.take(k + 1), advance),
{
    let longer = chain.push(next);
    let now = all.take(k + 1);
    assert forall|t: int| 0 <= t < now.len() implies #[trigger] moved(
        longer[t]@,
        longer[t + 1]@,
        now[t],
        advance,
    ) by {
        if t < k {
            assert(moved(chain[t]@, chain[t + 1]@, all.take(k)[t], advance));
        }
    }
}

/// The control of a step is the same whenever it is asked for.
pub open spec fn steers_one_way<C: Fn(usize) -> Control>(control: C) -> bool {
    forall|t: usize, x: Control, y: Control|
        #![trigger call_ensures(control, (t,), x), call_ensures(control, (t,), y)]
        call_ensures(control, (t,), x) && call_ensures(control, (t,), y) ==> x == y
}

/// Bodies move in one way only.
pub open spec fn moves_one_way<A: Fn(&Body, Control) -> Body>(advance: A) -> bool {
    forall|b: &Body, u: Control, x: Body, y: Body|
        #![trigger call_ensures(advance, (b, u), x), call_ensures(advance, (b, u), y)]
        call_ensures(advance, (b, u), x) && call_ensures(advance, (b, u), y) ==> x == y
}

/// Bodies are drawn in one way only.
pub open spec fn draws_one_way<R: Fn(&Vec<Body>) -> Vec<u32>>(render: R) -> bool {
    forall|a: &Vec<Body>, b: &Vec<Body>, x: Vec<u32>, y: Vec<u32>|
        #![trigger call_ensures(render, (a,), x), call_ensures(render, (b,), y)]
        a@ == b@ && call_ensures(render, (a,), x) && call_ensures(render, (b,), y) ==> x@ == y@
}

/// A scene is reproducible: where bodies move and are drawn in one way only, the
/// same bodies under the same controls give the same frames.
pub proof fn law_scene_is_reproducible<
    A: Fn(&Body, Control) -> Body,
    R: Fn(&Vec<Body>) -> Vec<u32>,
>(
    start: Seq<Body>,
    controls: Seq<Control>,
    a: Seq<Vec<u32>>,
    b: Seq<Vec<u32>>,
    advance: A,
    render: R,
    i: int,
)
    requires
        moves_one_way(advance),
        draws_one_way(render),
        rolled(start, controls, a, advance, render),
        rolled(start, controls, b, advance, render),
        0 <= i < a.len(),
    ensures
        a.len() == b.len(),
        a[i]@ == b[i]@,
{
    let x = choose|chain: Seq<Vec<Body>>|
        {
            &&& #[trigger] course(chain, controls, advance)
            &&& chain[0]@ == start
            &&& shows(a, chain, 0, render)
        };
    let y = choose|chain: Seq<Vec<Body>>|
        {
            &&& #[trigger] course(chain, controls, advance)
            &&& chain[0]@ == start
            &&& shows(b, chain, 0, render)
        };
    lemma_one_course(x, y, controls, advance, i);
    assert(call_ensures(render, (&x[0 + i],), a[i]));
    assert(call_ensures(render, (&y[0 + i],), b[i]));
}

/// A shorter rollout is a prefix of a longer one: where the control of a step is the same
/// whenever it is asked for, and bodies move and are drawn in one way only, stopping after
/// `k` steps gives the first `k + 1` frames.
pub proof fn law_shorter_rollout_is_a_prefix<
    C: Fn(usize) -> Control,
    A: Fn(&Body, Control) -> Body,
    R: Fn(&Vec<Body>) -> Vec<u32>,
>(
    start: Seq<Body>,
    k: nat,
    steps: nat,
    control: C,
    a: Seq<Vec<u32>>,
    b: Seq<Vec<u32>>,
    advance: A,
    render: R,
)
    requires
        steers_one_way(control),
        moves_one_way(advance),
        draws_one_way(render),
        k <= steps,
        rolled_under(start, k, control, a, advance, render),
        rolled_under(start, steps, control, b, advance, render),
    ensures
        a.len() == k + 1,
        b.len() == steps + 1,
        forall|i: int| 0 <= i <= k ==> (#[trigger] a[i])@ == b[i]@,
{
    let few = choose|controls: Seq<Control>|
        {
            &&& controls.len() == k
            &&& held(control, controls)
            &&& #[trigger] rolled(start, controls, a, advance, render)
        };
    let controls = choose|controls: Seq<Control>|
        {
            &&& controls.len() == steps
            &&& held(control, controls)
            &&& #[trigger] rolled(start, controls, b, advance, render)
        };
    assert forall|t: int| 0 <= t < k implies few[t] == controls[t] by {
        assert(call_ensures(control, (t as usize,), few[t]));
        assert(call_ensures(control, (t as usize,), controls[t]));
    }
    assert(few =~= controls.take(k as int));
    let y = choose|chain: Seq<Vec<Body>>|
        {
            &&& #[trigger] course(chain, controls, advance)
            &&& chain[0]@ == start
            &&& shows(b, chain, 0, render)
        };
    let (z, short) = (y.take(k as int + 1), b.take(k as int + 1));
    assert forall|t: int| 0 <= t < few.len() implies #[trigger] moved(
        z[t]@,
        z[t + 1]@,
        few[t],
        advance,
    ) by {
        assert(moved(y[t]@, y[t + 1]@, controls[t], advance));
    }
    assert forall|i: int| 0 <= i < short.len() implies call_ensures(
        render,
        (&z[0 + i],),
        #[trigger] short[i],
    ) by {
        assert(call_ensures(render, (&y[0 + i],), b[i]));
    }
    assert(course(z, few, advance));
    assert(rolled(start, few, short, advance, render));
    assert forall|i: int| 0 <= i <= k implies (#[trigger] a[i])@ == b[i]@ by {
        law_scene_is_reproducible(start, few, a, short, advance, render, i);
    }
}

/// What every drawing has, every frame of a rollout has: `n` values, where bodies are
/// always drawn with `n` values. The first frame is a drawing of the bodies at the start.
pub proof fn law_frames_are_drawings<
    C: Fn(usize) -> Control,
    A: Fn(&Body, Control) -> Body,
    R: Fn(&Vec<Body>) -> Vec<u32>,
>(
    start: Vec<Body>,
    steps: nat,
    control: C,
    frames: Seq<Vec<u32>>,
    first: Vec<u32>,
    n: nat,
    advance: A,
    render: R,
)
    requires
        rolled_under(start@, steps, control, frames, advance, render),
        draws_one_way(render),
        call_ensures(render, (&start,), first),
        forall|v: &Vec<Body>, f: Vec<u32>| #[trigger]
            call_ensures(render, (v,), f) ==> f@.len() == n,
    ensures
        frames.len() == steps + 1,
        frames[0]@ == first@,
        forall|i: int| 0 <= i < frames.len() ==> (#[trigger] frames[i])@.len() == n,
{
    let controls = choose|controls: Seq<Control>|
        {
            &&& controls.len() == steps
            &&& held(control, controls)
            &&& #[trigger] rolled(start@, controls, frames, advance, render)
        };
    let chain = choose|chain: Seq<Vec<Body>>|
        {
            &&& #[trigger] course(chain, controls, advance)
            &&& chain[0]@ == start@
            &&& shows(frames, chain, 0, render)
        };
    assert(call_ensures(render, (&chain[0int + 0],), frames[0]));
    assert forall|i: int| 0 <= i < frames.len() implies (#[trigger] frames[i])@.len() == n by {
        assert(call_ensures(render, (&chain[0 + i],), frames[i]));
    }
}

/// Two courses from the same bodies under the same controls agree.
proof fn lemma_one_course<A: Fn(&Body, Control) -> Body>(
    x: Seq<Vec<Body>>,
    y: Seq<Vec<Body>>,
    controls: Seq<Control>,
    advance: A,
    t: int,
)
    requires
        moves_one_way(advance),
        course(x, controls, advance),
        course(y, controls, advance),
        x[0]@ == y[0]@,
        0 <= t <= controls.len(),
    ensures
        x[t]@ == y[t]@,
    decreases t,
{
    if t > 0 {
        lemma_one_course(x, y, controls, advance, t - 1);
        assert(moved(x[t - 1]@, x[t - 1 + 1]@, controls[t - 1], advance));
        assert(moved(y[t - 1]@, y[t - 1 + 1]@, controls[t - 1], advance));
        assert forall|i: int| 0 <= i < x[t]@.len() implies x[t]@[i] == y[t]@[i] by {
            assert(call_ensures(advance, (&x[t - 1]@[i], controls[t - 1]), x[t]@[i]));
            assert(call_ensures(advance, (&y[t - 1]@[i], controls[t - 1]), y[t]@[i]));
        }
        assert(x[t]@ =~= y[t]@);
    }
}

// ---------------------------------------------------------------------------
// What a rollout does, step by step
// ---------------------------------------------------------------------------

/// In a step every body moves by itself, under the one word of that step, and keeps its
/// place in the list.
pub proof fn law_every_body_moves_under_the_word<A: Fn(&Body, Control) -> Body>(
    from: Seq<Body>,
    to: Seq<Body>,
    u: Control,
    advance: A,
    i: int,
)
    requires
        moved(from, to, u, advance),
        0 <= i < from.len(),
    ensures
        to.len() == from.len(),
        call_ensures(advance, (&from[i], u), to[i]),
{
}

/// The first frame of a rollout shows the scene as it starts, and the others are the
/// rollout that begins where the first word moves its bodies.
pub proof fn law_rollout_draws_then_moves<
    A: Fn(&Body, Control) -> Body,
    R: Fn(&Vec<Body>) -> Vec<u32>,
>(
    start: Seq<Body>,
    controls: Seq<Control>,
    frames: Seq<Vec<u32>>,
    advance: A,
    render: R,
)
    requires
        rolled(start, controls, frames, advance, render),
    ensures
        frames.len() == controls.len() + 1,
        exists|b: Vec<Body>| b@ == start && #[trigger] call_ensures(render, (&b,), frames[0]),
        controls.len() > 0 ==> exists|next: Vec<Body>|
            {
                &&& #[trigger] moved(start, next@, controls[0], advance)
                &&& rolled(next@, controls.drop_first(), frames.drop_first(), advance, render)
            },
{
    let chain = choose|chain: Seq<Vec<Body>>|
        {
            &&& #[trigger] course(chain, controls, advance)
            &&& chain[0]@ == start
            &&& shows(frames, chain, 0, render)
        };
    assert(call_ensures(render, (&chain[0int + 0int],), frames[0]));
    assert(call_ensures(render, (&chain[0],), frames[0]));
    if controls.len() > 0 {
        let rest = chain.drop_first();
        let words = controls.drop_first();
        assert(moved(chain[0]@, chain[0int + 1int]@, controls[0], advance));
        assert forall|t: int| 0 <= t < words.len() implies #[trigger] moved(
            rest[t]@,
            rest[t + 1]@,
            words[t],
            advance,
        ) by {
            assert(moved(chain[t + 1]@, chain[t + 1 + 1]@, controls[t + 1], advance));
        }
        let shown = frames.drop_first();
        assert forall|i: int| 0 <= i < shown.len() implies call_ensures(
            render,
            (&rest[0 + i],),
            #[trigger] shown[i],
        ) by {
            assert(call_ensures(render, (&chain[0 + (i + 1)],), frames[i + 1]));
        }
        assert(course(rest, words, advance));
        assert(rolled(chain[1]@, words, shown, advance, render));
    }
}

/// A rollout under a steering function holds, in step `t`, the word that the function gives
/// for `t`.
pub proof fn law_rollout_asks_for_every_step<
    C: Fn(usize) -> Control,
    A: Fn(&Body, Control) -> Body,
    R: Fn(&Vec<Body>) -> Vec<u32>,
>(
    start: Seq<Body>,
    steps: nat,
    control: C,
    frames: Seq<Vec<u32>>,
    advance: A,
    render: R,
)
    requires
        rolled_under(start, steps, control, frames, advance, render),
    ensures
        exists|controls: Seq<Control>|
            {
                &&& controls.len() == steps
                &&& forall|t: int|
                    0 <= t < steps ==> call_ensures(
                        control,
                        (t as usize,),
                        #[trigger] controls[t],
                    )
                &&& #[trigger] rolled(start, controls, frames, advance, render)
            },
{
}

/// What the true future is steered by: the words of the watched context, and then the
/// request's own words from its first on.
pub proof fn law_truth_is_context_then_request(
    context_len: nat,
    future_len: nat,
    request: Request,
    t: int,
)
    requires
        0 <= t < context_len + future_len,
    ensures
        truth_controls(context_len, future_len, request).len() == context_len + future_len,
        t < context_len ==> truth_controls(context_len, future_len, request)[t]
            == context_control(t),
        t >= context_len ==> truth_controls(context_len, future_len, request)[t] == control_at(
            request.program(),
            t - context_len,
        ),
{
}

/// The bodies of a scene, step by step, under the context's words first and then, in step
/// `j` after it, under word `j` of a request; `frames` shows them after each of those.
pub open spec fn goes_on_under<A: Fn(&Body, Control) -> Body, R: Fn(&Vec<Body>) -> Vec<u32>>(
    chain: Seq<Vec<Body>>,
    context_len: nat,
    request: Request,
    frames: Seq<Vec<u32>>,
    advance: A,
    render: R,
) -> bool {
    &&& chain.len() == context_len + frames.len() + 1
    &&& forall|t: int|
        0 <= t < context_len ==> #[trigger] moved(
            chain[t]@,
            chain[t + 1]@,
            context_control(t),
            advance,
        )
    &&& forall|j: int|
        0 <= j < frames.len() ==> moved(
            chain[context_len + j]@,
            chain[context_len + j + 1]@,
            #[trigger] control_at(request.program(), j),
            advance,
        )
    &&& forall|j: int|
        0 <= j < frames.len() ==> call_ensures(
            render,
            (&chain[context_len + j + 1],),
            #[trigger] frames[j],
        )
}

/// The true future is what the scene shows after its context: the bodies go through the
/// context's words, then move under word `j` of the request in step `j`, and frame `j`
/// shows them after that step.
pub proof fn law_true_future_follows_the_request<
    A: Fn(&Body, Control) -> Body,
    R: Fn(&Vec<Body>) -> Vec<u32>,
>(
    start: Seq<Body>,
    context_len: nat,
    future_len: nat,
    request: Request,
    frames: Seq<Vec<u32>>,
    advance: A,
    render: R,
)
    requires
        true_future(start, context_len, future_len, request, frames, advance, render),
    ensures
        frames.len() == future_len,
        exists|chain: Seq<Vec<Body>>| #[trigger]
            goes_on_under(chain, context_len, request, frames, advance, render) && chain[0]@
                == start,
{
    let words = truth_controls(context_len, future_len, request);
    let chain = choose|chain: Seq<Vec<Body>>|
        {
            &&& #[trigger] course(chain, words, advance)
            &&& chain[0]@ == start
            &&& shows(frames, chain, context_len as int + 1, render)
        };
    assert(words.len() == context_len + future_len);
    assert forall|t: int| 0 <= t < context_len implies #[trigger] moved(
        chain[t]@,
        chain[t + 1]@,
        context_control(t),
        advance,
    ) by {
        law_truth_is_context_then_request(context_len, future_len, request, t);
        assert(moved(chain[t]@, chain[t + 1]@, words[t], advance));
    }
    assert forall|j: int| 0 <= j < frames.len() implies moved(
        chain[context_len + j]@,
        chain[context_len + j + 1]@,
        #[trigger] control_at(request.program(), j),
        advance,
    ) by {
        let t = context_len + j;
        law_truth_is_context_then_request(context_len, future_len, request, t);
        assert(moved(chain[t]@, chain[t + 1]@, words[t], advance));
    }
    assert forall|j: int| 0 <= j < frames.len() implies call_ensures(
        render,
        (&chain[context_len + j + 1],),
        #[trigger] frames[j],
    ) by {
        assert(call_ensures(render, (&chain[context_len as int + 1 + j],), frames[j]));
        assert(context_len as int + 1 + j == context_len + j + 1);
    }
    assert(chain.len() == context_len + frames.len() + 1);
    assert(goes_on_under(chain, context_len, request, frames, advance, render));
}

/// Opening the throttle commands a higher speed than holding it, and braking a lower one:
/// at every step `accelerate` is faster than `continue`, which is faster than
/// `brake-then-left` while that brakes.
pub proof fn law_throttle_words_change_the_speed(t: int)
    requires
        0 <= t,
    ensures
        speed_at(control_at(Request::Accelerate.program(), t).accel as int) > speed_at(
            control_at(Request::Continue.program(), t).accel as int,
        ),
        t < 6 ==> speed_at(control_at(Request::BrakeThenLeft.program(), t).accel as int) < speed_at(
            control_at(Request::Continue.program(), t).accel as int,
        ),
        speed_at(control_at(Request::Continue.program(), t).accel as int) == 0x3f0c_cccd,
{
    crate::scene::law_requests_steer_as_named(Request::Accelerate, t);
    crate::scene::law_requests_steer_as_named(Request::Continue, t);
    crate::scene::law_requests_steer_as_named(Request::BrakeThenLeft, t);
}

/// The canonical scene is one body that starts to the right of the left wall and travels
/// right; the unrelated scene is two bodies, of which one travels left and one up. All
/// start at the base speed, inside the field.
pub proof fn law_canonical_scenes(id: SceneId, i: int)
    requires
        0 <= i < canonical_bodies(id).len(),
    ensures
        canonical_bodies(SceneId::MovingShape01).len() == 1,
        canonical_bodies(SceneId::MovingShape02).len() == 2,
        ({
            let b = canonical_bodies(id)[i];
            &&& b.speed == 0x3f0c_cccd
            &&& 0 < b.x < 0x4200_0000
            &&& 0 < b.y < 0x4200_0000
            &&& id == SceneId::MovingShape01 ==> b.dir_x == 0x3f80_0000 && b.dir_y == 0 && b.x
                == 0x4110_0000 && b.y == 0x4180_0000 && b.amplitude == 0x3f80_0000
            &&& id == SceneId::MovingShape02 && i == 0 ==> b.dir_x == 0xbf80_0000 && b.dir_y == 0
                && b.x == 0x41b0_0000 && b.y == 0x4120_0000 && b.amplitude == 0x3f80_0000
            &&& id == SceneId::MovingShape02 && i == 1 ==> b.dir_x == 0 && b.dir_y == 0xbf80_0000
                && b.x == 0x4120_0000 && b.y == 0x41b0_0000 && b.amplitude == 0x3f4c_cccd
        }),
{
}

/// A body is placed by three fractions, of which the first is its heading, the second its
/// column and the third its row; each is the upper bits of a draw, and they are drawn one
/// after the other.
pub proof fn law_bodies_are_placed_by_three_draws<P: Fn(u32, u32, u32) -> Body>(
    s: u64,
    b: Body,
    place: P,
)
    requires
        placed(s, b, place),
    ensures
        exists|heading: u32, x: u32, y: u32|
            {
                &&& bits_of_fraction(heading, (rng_draw(s) >> 40) as nat)
                &&& bits_of_fraction(x, (rng_draw(rng_next(s)) >> 40) as nat)
                &&& bits_of_fraction(y, (rng_draw(rng_next(rng_next(s))) >> 40) as nat)
                &&& #[trigger] call_ensures(place, (heading, x, y), b)
            },
{
}

} // verus!
