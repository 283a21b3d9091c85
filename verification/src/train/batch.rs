//! The batches that the trainer feeds, and the fingerprint of its corpus.

use vstd::prelude::*;

use crate::bytes::push_bytes;
use crate::model::cell::{block, control_planes};
use crate::model::floats::{f32s_to_le_bytes, floats_to_bytes};
use crate::rollout::{controls_of, lemma_steered, placed, rolled, rollout, Body, SceneSpec};
use crate::scene::{all_discrete, control_at, rng_next, rng_schedule, setting_bits, Control, Rng,
    HW};
use crate::state::hashes::{blake3_digest, hash_hex};
use crate::text::hex;

verus! {

/// One sampled scene: its frames, and the control held between each two of them.
#[derive(Debug)]
pub struct Sample {
    /// One frame more than there are steps.
    pub frames: Vec<Vec<u32>>,
    /// One control for each step.
    pub controls: Vec<Control>,
}

/// A batch, step by step.
#[derive(Debug)]
pub struct Batch {
    /// The frames of all scenes at each time, one after the other.
    pub frames: Vec<Vec<u32>>,
    /// The controls of all scenes at each step, one after the other: of each scene a
    /// plane of its steering, and then a plane of its throttle.
    pub controls: Vec<Vec<u32>>,
}

/// The first `n` scenes' frames at time `k`.
pub open spec fn stacked(samples: Seq<Sample>, k: int, n: int) -> Seq<u32>
    decreases n,
{
    if n <= 0 {
        Seq::empty()
    } else {
        stacked(samples, k, n - 1) + samples[n - 1].frames@[k]@
    }
}

/// A plane that holds one number.
pub open spec fn plane(bits: u32) -> Seq<u32> {
    Seq::new(1024, |i: int| bits)
}

/// The control planes of one scene at step `k`: the steering, then the throttle.
pub open spec fn held_planes(sample: Sample, k: int) -> Seq<u32> {
    plane(setting_bits(sample.controls@[k].turn)) + plane(setting_bits(sample.controls@[k].accel))
}

/// The first `n` scenes' control planes at step `k`.
pub open spec fn stacked_controls(samples: Seq<Sample>, k: int, n: int) -> Seq<u32>
    decreases n,
{
    if n <= 0 {
        Seq::empty()
    } else {
        stacked_controls(samples, k, n - 1) + held_planes(samples[n - 1], k)
    }
}

/// Every scene has the frames and the controls of `steps` steps.
pub open spec fn full_samples(samples: Seq<Sample>, steps: nat) -> bool {
    forall|i: int|
        0 <= i < samples.len() ==> (#[trigger] samples[i]).frames@.len() == steps + 1
            && samples[i].controls@.len() == steps
}

/// `b` is the batch of these scenes.
pub open spec fn batches(b: Batch, samples: Seq<Sample>, steps: nat) -> bool {
    let n = samples.len() as int;
    &&& b.frames@.len() == steps + 1
    &&& b.controls@.len() == steps
    &&& forall|k: int| 0 <= k <= steps ==> (#[trigger] b.frames@[k])@ == stacked(samples, k, n)
    &&& forall|k: int|
        0 <= k < steps ==> (#[trigger] b.controls@[k])@ == stacked_controls(samples, k, n)
}

/// Appends numbers.
fn append(out: &mut Vec<u32>, more: &Vec<u32>)
    ensures
        final(out)@ == old(out)@ + more@,
{
    let mut i: usize = 0;
    assert(out@ =~= old(out)@ + more@.take(0));
    while i < more.len()
        invariant
            i <= more@.len(),
            out@ == old(out)@ + more@.take(i as int),
        decreases more@.len() - i,
    {
        out.push(more[i]);
        assert(out@ =~= old(out)@ + more@.take(i + 1));
        i = i + 1;
    }
    assert(more@.take(i as int) =~= more@);
}

/// Appends a plane that holds one number.
fn append_plane(out: &mut Vec<u32>, bits: u32)
    ensures
        final(out)@ == old(out)@ + plane(bits),
{
    let mut i: usize = 0;
    assert(out@ =~= old(out)@ + plane(bits).take(0));
    while i < HW
        invariant
            i <= HW,
            out@ == old(out)@ + plane(bits).take(i as int),
        decreases HW - i,
    {
        out.push(bits);
        assert(out@ =~= old(out)@ + plane(bits).take(i + 1));
        i = i + 1;
    }
    assert(plane(bits).take(i as int) =~= plane(bits));
}

/// The frames of all scenes at time `k`.
fn stack(samples: &Vec<Sample>, k: usize, Ghost(steps): Ghost<nat>) -> (out: Vec<u32>)
    requires
        full_samples(samples@, steps),
        k <= steps,
    ensures
        out@ == stacked(samples@, k as int, samples@.len() as int),
{
    let mut out: Vec<u32> = Vec::new();
    let mut i: usize = 0;
    while i < samples.len()
        invariant
            i <= samples@.len(),
            full_samples(samples@, steps),
            k <= steps,
            out@ == stacked(samples@, k as int, i as int),
        decreases samples@.len() - i,
    {
        assert(samples@[i as int].frames@.len() == steps + 1);
        append(&mut out, &samples[i].frames[k]);
        i = i + 1;
    }
    out
}

/// The controls of all scenes at step `k`.
fn stack_controls(samples: &Vec<Sample>, k: usize, Ghost(steps): Ghost<nat>) -> (out: Vec<u32>)
    requires
        full_samples(samples@, steps),
        k < steps,
    ensures
        out@ == stacked_controls(samples@, k as int, samples@.len() as int),
{
    let mut out: Vec<u32> = Vec::new();
    let mut i: usize = 0;
    while i < samples.len()
        invariant
            i <= samples@.len(),
            full_samples(samples@, steps),
            k < steps,
            out@ == stacked_controls(samples@, k as int, i as int),
        decreases samples@.len() - i,
    {
        assert(samples@[i as int].controls@.len() == steps);
        let ghost before = out@;
        let planes = samples[i].controls[k].planes();
        append_plane(&mut out, planes[0]);
        append_plane(&mut out, planes[1]);
        assert(out@ =~= before + held_planes(samples@[i as int], k as int));
        i = i + 1;
    }
    out
}

/// The batch of these scenes.
pub fn assemble(samples: &Vec<Sample>, steps: usize) -> (b: Batch)
    requires
        full_samples(samples@, steps as nat),
        steps < usize::MAX,
    ensures
        batches(b, samples@, steps as nat),
{
    let ghost n = samples@.len() as int;
    let mut frames: Vec<Vec<u32>> = Vec::new();
    let mut k: usize = 0;
    while k < steps + 1
        invariant
            k <= steps + 1 <= usize::MAX,
            n == samples@.len(),
            full_samples(samples@, steps as nat),
            frames@.len() == k,
            forall|j: int| 0 <= j < k ==> (#[trigger] frames@[j])@ == stacked(samples@, j, n),
        decreases steps + 1 - k,
    {
        frames.push(stack(samples, k, Ghost(steps as nat)));
        k = k + 1;
    }
    let mut controls: Vec<Vec<u32>> = Vec::new();
    let mut k: usize = 0;
    while k < steps
        invariant
            k <= steps,
            n == samples@.len(),
            full_samples(samples@, steps as nat),
            controls@.len() == k,
            forall|j: int|
                0 <= j < k ==> (#[trigger] controls@[j])@ == stacked_controls(samples@, j, n),
        decreases steps - k,
    {
        controls.push(stack_controls(samples, k, Ghost(steps as nat)));
        k = k + 1;
    }
    Batch { frames, controls }
}

/// A batch has the declared sizes: at each time one number for each pixel of each
/// scene, and at each step two.
pub proof fn law_batch_has_the_declared_sizes(samples: Seq<Sample>, k: int, n: int)
    requires
        0 <= n <= samples.len(),
        forall|i: int| 0 <= i < n ==> (#[trigger] samples[i]).frames@[k]@.len() == 1024,
    ensures
        stacked(samples, k, n).len() == n * 1024,
        stacked_controls(samples, k, n).len() == n * 2048,
    decreases n,
{
    if n > 0 {
        law_batch_has_the_declared_sizes(samples, k, n - 1);
        assert(samples[n - 1].frames@[k]@.len() == 1024);
    }
}

/// Every scene is one stream of its batch: block `i` of the frames is its frame, and block
/// `i` of the controls is its two control planes.
pub proof fn law_every_scene_is_a_stream(
    b: Batch,
    samples: Seq<Sample>,
    steps: nat,
    k: int,
    i: int,
)
    requires
        batches(b, samples, steps),
        0 <= k < steps,
        0 <= i < samples.len(),
        forall|j: int|
            0 <= j < samples.len() ==> (#[trigger] samples[j]).frames@[k]@.len() == 1024,
    ensures
        block(b.frames@[k]@, HW as int, i) == samples[i].frames@[k]@,
        block(b.controls@[k]@, 2 * HW, i) == control_planes(samples[i].controls@[k]),
{
    lemma_blocks(samples, k, samples.len() as int, i);
    let u = samples[i].controls@[k];
    assert(held_planes(samples[i], k) =~= control_planes(u));
}

/// The blocks of the first `n` scenes.
proof fn lemma_blocks(samples: Seq<Sample>, k: int, n: int, i: int)
    requires
        0 <= i < n <= samples.len(),
        forall|j: int|
            0 <= j < samples.len() ==> (#[trigger] samples[j]).frames@[k]@.len() == 1024,
    ensures
        block(stacked(samples, k, n), 1024, i) == samples[i].frames@[k]@,
        block(stacked_controls(samples, k, n), 2048, i) == held_planes(samples[i], k),
    decreases n,
{
    law_batch_has_the_declared_sizes(samples, k, n - 1);
    let (x, u) = (stacked(samples, k, n - 1), stacked_controls(samples, k, n - 1));
    assert(samples[n - 1].frames@[k]@.len() == 1024);
    if i < n - 1 {
        lemma_blocks(samples, k, n - 1, i);
        assert(block(stacked(samples, k, n), 1024, i) =~= block(x, 1024, i));
        assert(block(stacked_controls(samples, k, n), 2048, i) =~= block(u, 2048, i));
    } else {
        assert(block(stacked(samples, k, n), 1024, i) =~= samples[i].frames@[k]@);
        assert(block(stacked_controls(samples, k, n), 2048, i) =~= held_planes(samples[i], k));
    }
}

// ---------------------------------------------------------------------------
// Drawing
// ---------------------------------------------------------------------------

/// `sample` is what is drawn from state `s`: a placed body, then a schedule, and the
/// frames that they give. `after` is the state that is left.
pub open spec fn drawn<
    P: Fn(u32, u32, u32) -> Body,
    A: Fn(&Body, Control) -> Body,
    R: Fn(&Vec<Body>) -> Vec<u32>,
>(s: u64, sample: Sample, after: u64, steps: nat, place: P, advance: A, render: R) -> bool {
    let s3 = rng_next(rng_next(rng_next(s)));
    &&& (sample.controls@, after) == rng_schedule(s3, steps)
    &&& sample.controls@.len() == steps
    &&& exists|body: Body| #[trigger]
        placed(s, body, place) && rolled(
            seq![body],
            sample.controls@,
            sample.frames@,
            advance,
            render,
        )
}

/// Draw one scene.
pub fn draw_sample<
    P: Fn(u32, u32, u32) -> Body,
    A: Fn(&Body, Control) -> Body,
    R: Fn(&Vec<Body>) -> Vec<u32>,
>(rng: &mut Rng, steps: usize, place: P, advance: A, render: R) -> (sample: Sample)
    requires
        forall|a: u32, b: u32, c: u32| call_requires(place, (a, b, c)),
        forall|b: &Body, u: Control| call_requires(advance, (b, u)),
        forall|v: &Vec<Body>| call_requires(render, (v,)),
    ensures
        drawn(
            old(rng).state(),
            sample,
            final(rng).state(),
            steps as nat,
            place,
            advance,
            render,
        ),
        all_discrete(sample.controls@),
{
    let ghost s = rng.state();
    let spec = SceneSpec::random(rng, place);
    let schedule = rng.schedule(steps);
    let control = |t: usize| -> (u: Control)
        ensures
            u == control_at(schedule@, t as int),
        { schedule.at(t) };
    let frames = rollout(&spec, steps, control, advance, render);
    proof {
        lemma_steered(spec.bodies@, steps as nat, control, schedule@, frames@, advance, render);
    }
    let controls = schedule.steps;
    proof {
        assert(controls_of(schedule@, steps as nat) =~= controls@);
        assert(spec.bodies@ =~= seq![spec.bodies@[0]]);
        assert(placed(s, spec.bodies@[0], place));
    }
    Sample { frames, controls }
}

/// The scenes of a batch, drawn one after the other; `states` are the states before
/// each of them and after the last.
pub open spec fn drawn_in_turn<
    P: Fn(u32, u32, u32) -> Body,
    A: Fn(&Body, Control) -> Body,
    R: Fn(&Vec<Body>) -> Vec<u32>,
>(
    states: Seq<u64>,
    samples: Seq<Sample>,
    steps: nat,
    place: P,
    advance: A,
    render: R,
) -> bool {
    &&& states.len() == samples.len() + 1
    &&& forall|i: int|
        0 <= i < samples.len() ==> drawn(
            states[i],
            #[trigger] samples[i],
            states[i + 1],
            steps,
            place,
            advance,
            render,
        )
}

/// `samples` are drawn from `before`, which leaves `after`.
pub open spec fn draws<
    P: Fn(u32, u32, u32) -> Body,
    A: Fn(&Body, Control) -> Body,
    R: Fn(&Vec<Body>) -> Vec<u32>,
>(
    before: u64,
    after: u64,
    samples: Seq<Sample>,
    steps: nat,
    place: P,
    advance: A,
    render: R,
) -> bool {
    exists|states: Seq<u64>|
        {
            &&& #[trigger] drawn_in_turn(states, samples, steps, place, advance, render)
            &&& states[0] == before
            &&& states.last() == after
        }
}

/// Draw the scenes of a batch.
pub fn draw_samples<
    P: Fn(u32, u32, u32) -> Body + Copy,
    A: Fn(&Body, Control) -> Body + Copy,
    R: Fn(&Vec<Body>) -> Vec<u32> + Copy,
>(rng: &mut Rng, batch: usize, steps: usize, place: P, advance: A, render: R) -> (samples: Vec<
    Sample,
>)
    requires
        forall|a: u32, b: u32, c: u32| call_requires(place, (a, b, c)),
        forall|b: &Body, u: Control| call_requires(advance, (b, u)),
        forall|v: &Vec<Body>| call_requires(render, (v,)),
    ensures
        samples@.len() == batch,
        full_samples(samples@, steps as nat),
        draws(
            old(rng).state(),
            final(rng).state(),
            samples@,
            steps as nat,
            place,
            advance,
            render,
        ),
{
    let mut samples: Vec<Sample> = Vec::new();
    let ghost mut states: Seq<u64> = seq![rng.state()];
    let mut i: usize = 0;
    while i < batch
        invariant
            i <= batch,
            forall|a: u32, b: u32, c: u32| call_requires(place, (a, b, c)),
            forall|b: &Body, u: Control| call_requires(advance, (b, u)),
            forall|v: &Vec<Body>| call_requires(render, (v,)),
            samples@.len() == i,
            full_samples(samples@, steps as nat),
            drawn_in_turn(states, samples@, steps as nat, place, advance, render),
            states[0] == old(rng).state(),
            states.last() == rng.state(),
        decreases batch - i,
    {
        let ghost before = samples@;
        let ghost earlier = states;
        let sample = draw_sample(rng, steps, place, advance, render);
        samples.push(sample);
        proof {
            states = states.push(rng.state());
            assert forall|j: int| 0 <= j < samples@.len() implies drawn(
                states[j],
                #[trigger] samples@[j],
                states[j + 1],
                steps as nat,
                place,
                advance,
                render,
            ) by {
                if j < i {
                    assert(samples@[j] == before[j]);
                    assert(states[j] == earlier[j] && states[j + 1] == earlier[j + 1]);
                }
            }
        }
        i = i + 1;
    }
    samples
}

/// Sample a batch of `steps + 1` frames and `steps` controls for each scene.
pub fn sample_batch<
    P: Fn(u32, u32, u32) -> Body + Copy,
    A: Fn(&Body, Control) -> Body + Copy,
    R: Fn(&Vec<Body>) -> Vec<u32> + Copy,
>(rng: &mut Rng, batch: usize, steps: usize, place: P, advance: A, render: R) -> (r: (
    Batch,
    Vec<Sample>,
))
    requires
        steps < usize::MAX,
        forall|a: u32, b: u32, c: u32| call_requires(place, (a, b, c)),
        forall|b: &Body, u: Control| call_requires(advance, (b, u)),
        forall|v: &Vec<Body>| call_requires(render, (v,)),
    ensures
        r.1@.len() == batch,
        draws(
            old(rng).state(),
            final(rng).state(),
            r.1@,
            steps as nat,
            place,
            advance,
            render,
        ),
        batches(r.0, r.1@, steps as nat),
{
    let samples = draw_samples(rng, batch, steps, place, advance, render);
    let b = assemble(&samples, steps);
    (b, samples)
}

// ---------------------------------------------------------------------------
// The fingerprint
// ---------------------------------------------------------------------------

/// The bytes of the first `n` frames of a scene.
pub open spec fn frame_bytes(frames: Seq<Vec<u32>>, n: int) -> Seq<u8>
    decreases n,
{
    if n <= 0 {
        Seq::empty()
    } else {
        frame_bytes(frames, n - 1) + floats_to_bytes(frames[n - 1]@)
    }
}

/// The bytes of the frames of the first `n` scenes.
pub open spec fn corpus(samples: Seq<Sample>, n: int) -> Seq<u8>
    decreases n,
{
    if n <= 0 {
        Seq::empty()
    } else {
        corpus(samples, n - 1) + frame_bytes(
            samples[n - 1].frames@,
            samples[n - 1].frames@.len() as int,
        )
    }
}

/// The bytes of the frames of all scenes, scene after scene.
fn corpus_bytes(samples: &Vec<Sample>) -> (out: Vec<u8>)
    ensures
        out@ == corpus(samples@, samples@.len() as int),
{
    let mut out: Vec<u8> = Vec::new();
    let mut i: usize = 0;
    while i < samples.len()
        invariant
            i <= samples@.len(),
            out@ == corpus(samples@, i as int),
        decreases samples@.len() - i,
    {
        let frames = &samples[i].frames;
        let ghost before = out@;
        let mut k: usize = 0;
        assert(out@ =~= before + frame_bytes(frames@, 0));
        while k < frames.len()
            invariant
                k <= frames@.len(),
                out@ == before + frame_bytes(frames@, k as int),
            decreases frames@.len() - k,
        {
            let bytes = f32s_to_le_bytes(frames[k].as_slice());
            push_bytes(&mut out, bytes.as_slice());
            assert(out@ =~= before + frame_bytes(frames@, k + 1));
            k = k + 1;
        }
        i = i + 1;
    }
    out
}

/// Fingerprint of a corpus: BLAKE3 of the bytes of its frames, as text.
pub fn corpus_digest(samples: &Vec<Sample>) -> (r: String)
    ensures
        r@ == hex(blake3_digest(corpus(samples@, samples@.len() as int))),
{
    let bytes = corpus_bytes(samples);
    hash_hex(bytes.as_slice())
}

/// A drawn scene is one body that is placed by the first three draws; the schedule that it is
/// steered by is drawn next, and its frames are those of that body under that schedule.
pub proof fn law_scene_is_drawn_then_rolled<
    P: Fn(u32, u32, u32) -> Body,
    A: Fn(&Body, Control) -> Body,
    R: Fn(&Vec<Body>) -> Vec<u32>,
>(s: u64, sample: Sample, after: u64, steps: nat, place: P, advance: A, render: R)
    requires
        drawn(s, sample, after, steps, place, advance, render),
    ensures
        sample.controls@ == rng_schedule(rng_next(rng_next(rng_next(s))), steps).0,
        after == rng_schedule(rng_next(rng_next(rng_next(s))), steps).1,
        sample.controls@.len() == steps,
        exists|body: Body| #[trigger]
            placed(s, body, place) && rolled(
                seq![body],
                sample.controls@,
                sample.frames@,
                advance,
                render,
            ),
{
}

/// Scenes are drawn one after the other: each from the generator as the one before it left
/// it.
pub proof fn law_scenes_are_drawn_in_turn<
    P: Fn(u32, u32, u32) -> Body,
    A: Fn(&Body, Control) -> Body,
    R: Fn(&Vec<Body>) -> Vec<u32>,
>(
    before: u64,
    after: u64,
    samples: Seq<Sample>,
    steps: nat,
    place: P,
    advance: A,
    render: R,
)
    requires
        draws(before, after, samples, steps, place, advance, render),
    ensures
        exists|states: Seq<u64>|
            {
                &&& #[trigger] states.len() == samples.len() + 1
                &&& states[0] == before
                &&& states[samples.len() as int] == after
                &&& forall|i: int|
                    0 <= i < samples.len() ==> drawn(
                        states[i],
                        #[trigger] samples[i],
                        states[i + 1],
                        steps,
                        place,
                        advance,
                        render,
                    )
            },
{
    let states = choose|states: Seq<u64>|
        {
            &&& #[trigger] drawn_in_turn(states, samples, steps, place, advance, render)
            &&& states[0] == before
            &&& states.last() == after
        };
    assert(states.len() == samples.len() + 1);
}

/// A batch holds, at each time, the frames of all its scenes one after the other, and at each
/// step their control planes.
pub proof fn law_batch_is_assembled_step_by_step(
    b: Batch,
    samples: Seq<Sample>,
    steps: nat,
    k: int,
    n: int,
)
    requires
        batches(b, samples, steps),
        0 < n <= samples.len(),
    ensures
        b.frames@.len() == steps + 1,
        b.controls@.len() == steps,
        0 <= k <= steps ==> b.frames@[k]@ == stacked(samples, k, samples.len() as int),
        0 <= k < steps ==> b.controls@[k]@ == stacked_controls(samples, k, samples.len() as int),
        stacked(samples, k, n) == stacked(samples, k, n - 1) + samples[n - 1].frames@[k]@,
        stacked(samples, k, 0).len() == 0,
        stacked_controls(samples, k, 0).len() == 0,
{
}

/// A corpus is fingerprinted as the bytes of all frames, scene by scene and frame by frame.
pub proof fn law_corpus_is_every_frame_in_order(
    samples: Seq<Sample>,
    n: int,
    frames: Seq<Vec<u32>>,
    k: int,
)
    requires
        0 <= n < samples.len(),
        0 <= k < frames.len(),
    ensures
        corpus(samples, 0).len() == 0,
        corpus(samples, n + 1) == corpus(samples, n) + frame_bytes(
            samples[n].frames@,
            samples[n].frames@.len() as int,
        ),
        frame_bytes(frames, 0).len() == 0,
        frame_bytes(frames, k + 1) == frame_bytes(frames, k) + floats_to_bytes(frames[k]@),
{
}

} // verus!
