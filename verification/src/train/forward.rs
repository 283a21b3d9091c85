//! One pass over a window: what the model is fed, and which predictions are scored.
//!
//! Frames, states and losses are whatever the given functions make of them.

use vstd::prelude::*;

use crate::model::floats::float32_less;
use crate::rollout::drawn_fraction;
use crate::scene::{rng_next, Rng};
use crate::train::window::{feeds_back, Window};

verus! {

/// The course of one pass.
pub struct Trace<T, S, L> {
    /// The state before each step, and the last one.
    pub states: Seq<S>,
    /// The prediction after each step.
    pub preds: Seq<T>,
    /// Whether each step was fed the prediction before it.
    pub own: Seq<bool>,
    /// The summed loss before each step, and the last one.
    pub totals: Seq<L>,
    /// The generator's state before each choice of an input, and the last one.
    pub draws: Seq<u64>,
}

/// What step `k` is fed.
pub open spec fn fed<T, S, L>(t: Trace<T, S, L>, frames: Seq<T>, k: int) -> T {
    if t.own[k] {
        t.preds[k - 1]
    } else {
        frames[k]
    }
}

/// Step `k` of a pass.
pub open spec fn step_runs<
    T,
    S,
    L,
    E,
    C: Fn(&T, &T, &S) -> Result<S, E>,
    H: Fn(&S) -> Result<T, E>,
    Q: Fn(L, &T, &T) -> Result<L, E>,
>(
    t: Trace<T, S, L>,
    w: Window,
    frames: Seq<T>,
    controls: Seq<T>,
    cell: C,
    head: H,
    score: Q,
    k: int,
) -> bool {
    &&& call_ensures(
        cell,
        (&fed(t, frames, k), &controls[k], &t.states[k]),
        Ok::<S, E>(t.states[k + 1]),
    )
    &&& call_ensures(head, (&t.states[k + 1],), Ok::<T, E>(t.preds[k]))
    &&& if w.scores(k) {
        call_ensures(
            score,
            (t.totals[k], &t.preds[k], &frames[k + 1]),
            Ok::<L, E>(t.totals[k + 1]),
        )
    } else {
        t.totals[k + 1] == t.totals[k]
    }
}

/// A choice of the next input: the generator goes from `before` to `after`, and
/// `own` says whether the prediction is fed.
pub open spec fn chooses(before: u64, after: u64, own: bool, p: u32) -> bool {
    if float32_less(0, p) {
        &&& after == rng_next(before)
        &&& exists|unit: u32| #[trigger] drawn_fraction(before, unit) && own == float32_less(unit, p)
    } else {
        after == before && !own
    }
}

/// A pass over the first `n` steps of a window.
pub open spec fn runs<
    T,
    S,
    L,
    E,
    C: Fn(&T, &T, &S) -> Result<S, E>,
    H: Fn(&S) -> Result<T, E>,
    Q: Fn(L, &T, &T) -> Result<L, E>,
>(
    t: Trace<T, S, L>,
    w: Window,
    frames: Seq<T>,
    controls: Seq<T>,
    cell: C,
    head: H,
    score: Q,
    p: u32,
    n: int,
) -> bool {
    &&& t.states.len() == n + 1
    &&& t.preds.len() == n
    &&& t.totals.len() == n + 1
    &&& t.own.len() == t.draws.len()
    &&& t.own.len() >= 1
    &&& !t.own[0]
    &&& t.own.len() >= n
    &&& forall|k: int|
        0 <= k < n ==> #[trigger] step_runs(t, w, frames, controls, cell, head, score, k)
    &&& forall|k: int|
        0 <= k < t.own.len() - 1 ==> chooses(
            t.draws[k],
            #[trigger] t.draws[k + 1],
            t.own[k + 1],
            p,
        )
}

/// A step that is fed `x` from `state` on, with `total` as the loss so far, comes to a call
/// that fails with `e`: the recurrent step itself, the prediction after it, or the score of
/// that prediction, where it is scored.
pub open spec fn fails_at<
    T,
    S,
    L,
    E,
    C: Fn(&T, &T, &S) -> Result<S, E>,
    H: Fn(&S) -> Result<T, E>,
    Q: Fn(L, &T, &T) -> Result<L, E>,
>(
    x: T,
    control: T,
    state: S,
    total: L,
    predicts: bool,
    scores: bool,
    target: T,
    cell: C,
    head: H,
    score: Q,
    e: E,
) -> bool {
    ||| call_ensures(cell, (&x, &control, &state), Err::<S, E>(e))
    ||| predicts && exists|s: S|
        call_ensures(cell, (&x, &control, &state), Ok::<S, E>(s)) && #[trigger] call_ensures(
            head,
            (&s,),
            Err::<T, E>(e),
        )
    ||| scores && exists|s: S, pred: T|
        {
            &&& call_ensures(cell, (&x, &control, &state), Ok::<S, E>(s))
            &&& #[trigger] call_ensures(head, (&s,), Ok::<T, E>(pred))
            &&& call_ensures(score, (total, &pred, &target), Err::<L, E>(e))
        }
}

/// A pass that begins with `start` and `zero` and breaks off with `e`: its first steps ran,
/// and a call of the step after them failed.
pub open spec fn breaks_off<
    T,
    S,
    L,
    E,
    C: Fn(&T, &T, &S) -> Result<S, E>,
    H: Fn(&S) -> Result<T, E>,
    Q: Fn(L, &T, &T) -> Result<L, E>,
>(
    w: Window,
    frames: Seq<T>,
    controls: Seq<T>,
    start: S,
    zero: L,
    before: u64,
    after: u64,
    cell: C,
    head: H,
    score: Q,
    p: u32,
    e: E,
) -> bool {
    exists|t: Trace<T, S, L>, k: int|
        {
            &&& #[trigger] runs(t, w, frames, controls, cell, head, score, p, k)
            &&& 0 <= k < w.steps
            &&& t.own.len() == k + 1
            &&& t.states[0] == start
            &&& t.totals[0] == zero
            &&& t.draws[0] == before
            &&& t.draws.last() == after
            &&& fails_at(
                fed(t, frames, k),
                controls[k],
                t.states[k],
                t.totals[k],
                true,
                w.scores(k),
                frames[k + 1],
                cell,
                head,
                score,
                e,
            )
        }
}

/// A whole pass: it begins with `start` and `zero`, and ends with `total`.
pub open spec fn passes<
    T,
    S,
    L,
    E,
    C: Fn(&T, &T, &S) -> Result<S, E>,
    H: Fn(&S) -> Result<T, E>,
    Q: Fn(L, &T, &T) -> Result<L, E>,
>(
    w: Window,
    frames: Seq<T>,
    controls: Seq<T>,
    start: S,
    zero: L,
    before: u64,
    after: u64,
    total: L,
    cell: C,
    head: H,
    score: Q,
    p: u32,
) -> bool {
    exists|t: Trace<T, S, L>|
        {
            &&& #[trigger] runs(t, w, frames, controls, cell, head, score, p, w.steps as int)
            &&& t.own.len() == w.steps
            &&& t.states[0] == start
            &&& t.totals[0] == zero
            &&& t.totals.last() == total
            &&& t.draws[0] == before
            &&& t.draws.last() == after
        }
}

/// The summed loss of a window through which gradients flow: every step predicts,
/// predictions are scored from the end of the burn-in on, and each next input is
/// the true frame or, with probability `p`, the prediction.
pub fn full_window<
    T,
    S,
    L,
    E,
    C: Fn(&T, &T, &S) -> Result<S, E>,
    H: Fn(&S) -> Result<T, E>,
    Q: Fn(L, &T, &T) -> Result<L, E>,
>(
    w: &Window,
    frames: &Vec<T>,
    controls: &Vec<T>,
    start: S,
    zero: L,
    rng: &mut Rng,
    p: u32,
    cell: C,
    head: H,
    score: Q,
) -> (r: Result<L, E>)
    requires
        w.steps > 0,
        frames@.len() == w.steps + 1,
        controls@.len() == w.steps,
        forall|x: &T, u: &T, s: &S| call_requires(cell, (x, u, s)),
        forall|s: &S| call_requires(head, (s,)),
        forall|l: L, x: &T, y: &T| call_requires(score, (l, x, y)),
    ensures
        match r {
            Ok(total) => passes(
                *w,
                frames@,
                controls@,
                start,
                zero,
                old(rng).state(),
                final(rng).state(),
                total,
                cell,
                head,
                score,
                p,
            ),
            Err(e) => breaks_off(
                *w,
                frames@,
                controls@,
                start,
                zero,
                old(rng).state(),
                final(rng).state(),
                cell,
                head,
                score,
                p,
                e,
            ),
        },
{
    let mut state: S = start;
    let mut total: L = zero;
    let mut own: Option<T> = None;
    let ghost mut t: Trace<T, S, L> = Trace {
        states: seq![state],
        preds: Seq::empty(),
        own: seq![false],
        totals: seq![total],
        draws: seq![rng.state()],
    };
    let mut k: usize = 0;
    while k < w.steps
        invariant
            k <= w.steps,
            w.steps > 0,
            frames@.len() == w.steps + 1,
            controls@.len() == w.steps,
            forall|x: &T, u: &T, s: &S| call_requires(cell, (x, u, s)),
            forall|s: &S| call_requires(head, (s,)),
            forall|l: L, x: &T, y: &T| call_requires(score, (l, x, y)),
            runs(t, *w, frames@, controls@, cell, head, score, p, k as int),
            t.own.len() == if k < w.steps {
                k + 1
            } else {
                k as int
            },
            t.states[0] == start,
            t.totals[0] == zero,
            t.draws[0] == old(rng).state(),
            t.states.last() == state,
            t.totals.last() == total,
            t.draws.last() == rng.state(),
            k < w.steps ==> t.own[k as int] == (own is Some),
            own is Some ==> k > 0 && own->0 == t.preds[k - 1],
        decreases w.steps - k,
    {
        let ghost before = t;
        let input: &T = match &own {
            Some(x) => x,
            None => &frames[k],
        };
        assert(*input == fed(t, frames@, k as int));
        let next = match cell(input, &controls[k], &state) {
            Ok(s) => s,
            Err(e) => {
                assert(runs(t, *w, frames@, controls@, cell, head, score, p, k as int));
                return Err(e);
            },
        };
        let pred = match head(&next) {
            Ok(x) => x,
            Err(e) => {
                assert(runs(t, *w, frames@, controls@, cell, head, score, p, k as int));
                assert(call_ensures(head, (&next,), Err::<T, E>(e)));
                return Err(e);
            },
        };
        assert(call_ensures(head, (&next,), Ok::<T, E>(pred)));
        if w.carries_loss(k) {
            total = match score(total, &pred, &frames[k + 1]) {
                Ok(l) => l,
                Err(e) => {
                    assert(runs(t, *w, frames@, controls@, cell, head, score, p, k as int));
                    return Err(e);
                },
            };
        }
        proof {
            t = Trace {
                states: t.states.push(next),
                preds: t.preds.push(pred),
                totals: t.totals.push(total),
                ..t
            };
            assert forall|j: int| 0 <= j < k + 1 implies #[trigger] step_runs(
                t,
                *w,
                frames@,
                controls@,
                cell,
                head,
                score,
                j,
            ) by {
                if j < k {
                    assert(step_runs(before, *w, frames@, controls@, cell, head, score, j));
                    assert(fed(t, frames@, j) == fed(before, frames@, j));
                } else {
                    assert(fed(t, frames@, j) == fed(before, frames@, j));
                }
            }
            assert forall|j: int| 0 <= j < t.own.len() - 1 implies chooses(
                t.draws[j],
                #[trigger] t.draws[j + 1],
                t.own[j + 1],
                p,
            ) by {
                assert(chooses(before.draws[j], before.draws[j + 1], before.own[j + 1], p));
            }
        }
        state = next;
        if w.is_last(k) {
            own = None;
        } else {
            let ghost drawn_from = rng.state();
            let feed: bool = feeds_back(rng, p);
            let ghost middle = t;
            proof {
                t = Trace { own: t.own.push(feed), draws: t.draws.push(rng.state()), ..t };
                assert forall|j: int| 0 <= j < k + 1 implies #[trigger] step_runs(
                    t,
                    *w,
                    frames@,
                    controls@,
                    cell,
                    head,
                    score,
                    j,
                ) by {
                    assert(step_runs(middle, *w, frames@, controls@, cell, head, score, j));
                    assert(fed(t, frames@, j) == fed(middle, frames@, j));
                }
                assert forall|j: int| 0 <= j < t.own.len() - 1 implies chooses(
                    t.draws[j],
                    #[trigger] t.draws[j + 1],
                    t.own[j + 1],
                    p,
                ) by {
                    if j < k {
                        assert(chooses(middle.draws[j], middle.draws[j + 1], middle.own[j + 1], p));
                    } else {
                        assert(chooses(drawn_from, rng.state(), feed, p));
                    }
                }
            }
            own = if feed {
                Some(pred)
            } else {
                None
            };
        }
        k = k + 1;
    }
    Ok(total)
}

// ---------------------------------------------------------------------------
// Detached burn-in
// ---------------------------------------------------------------------------

/// A pass whose burn-in is detached: `states` has the state before each step of the
/// window and the last one, `preds` the prediction after each step behind the burn-in,
/// `totals` the summed loss before each of them and the last one.
pub open spec fn detached_runs<
    T,
    S,
    L,
    E,
    C: Fn(&T, &T, &S) -> Result<S, E>,
    D: Fn(S) -> S,
    H: Fn(&S) -> Result<T, E>,
    Q: Fn(L, &T, &T) -> Result<L, E>,
>(
    states: Seq<S>,
    preds: Seq<T>,
    totals: Seq<L>,
    burn: int,
    frames: Seq<T>,
    controls: Seq<T>,
    cell: C,
    detach: D,
    head: H,
    score: Q,
) -> bool {
    &&& totals.len() == preds.len() + 1
    &&& forall|k: int|
        0 <= k < states.len() - 1 && k < burn ==> #[trigger] burns(
            states,
            frames,
            controls,
            cell,
            detach,
            k,
        )
    &&& forall|k: int|
        burn <= k < states.len() - 1 ==> call_ensures(
            cell,
            (&frames[k], &controls[k], &states[k]),
            Ok::<S, E>(#[trigger] states[k + 1]),
        )
    &&& forall|i: int|
        0 <= i < preds.len() ==> {
            &&& call_ensures(head, (&states[burn + i + 1],), Ok::<T, E>(#[trigger] preds[i]))
            &&& call_ensures(
                score,
                (totals[i], &preds[i], &frames[burn + i + 1]),
                Ok::<L, E>(totals[i + 1]),
            )
        }
}

/// Step `k` of a burn-in: a recurrent step, and then the state is cut off from it.
pub open spec fn burns<T, S, E, C: Fn(&T, &T, &S) -> Result<S, E>, D: Fn(S) -> S>(
    states: Seq<S>,
    frames: Seq<T>,
    controls: Seq<T>,
    cell: C,
    detach: D,
    k: int,
) -> bool {
    exists|s: S|
        call_ensures(cell, (&frames[k], &controls[k], &states[k]), Ok::<S, E>(s))
            && #[trigger] call_ensures(detach, (s,), states[k + 1])
}

/// A whole pass with a detached burn-in.
pub open spec fn detached_passes<
    T,
    S,
    L,
    E,
    C: Fn(&T, &T, &S) -> Result<S, E>,
    D: Fn(S) -> S,
    H: Fn(&S) -> Result<T, E>,
    Q: Fn(L, &T, &T) -> Result<L, E>,
>(
    w: Window,
    frames: Seq<T>,
    controls: Seq<T>,
    start: S,
    zero: L,
    total: L,
    cell: C,
    detach: D,
    head: H,
    score: Q,
) -> bool {
    exists|states: Seq<S>, preds: Seq<T>, totals: Seq<L>|
        {
            &&& #[trigger] detached_runs(
                states,
                preds,
                totals,
                w.burn as int,
                frames,
                controls,
                cell,
                detach,
                head,
                score,
            )
            &&& states.len() == w.steps + 1
            &&& preds.len() == w.steps - w.burn
            &&& states[0] == start
            &&& totals[0] == zero
            &&& totals.last() == total
        }
}

/// A pass with a detached burn-in that breaks off with `e`: its first steps ran, and a call
/// of the step after them failed.
pub open spec fn detached_breaks_off<
    T,
    S,
    L,
    E,
    C: Fn(&T, &T, &S) -> Result<S, E>,
    D: Fn(S) -> S,
    H: Fn(&S) -> Result<T, E>,
    Q: Fn(L, &T, &T) -> Result<L, E>,
>(
    w: Window,
    frames: Seq<T>,
    controls: Seq<T>,
    start: S,
    zero: L,
    cell: C,
    detach: D,
    head: H,
    score: Q,
    e: E,
) -> bool {
    exists|states: Seq<S>, preds: Seq<T>, totals: Seq<L>|
        {
            let k = states.len() - 1;
            &&& #[trigger] detached_runs(
                states,
                preds,
                totals,
                w.burn as int,
                frames,
                controls,
                cell,
                detach,
                head,
                score,
            )
            &&& 0 <= k < w.steps
            &&& preds.len() == if w.scores(k) {
                k - w.burn
            } else {
                0
            }
            &&& states[0] == start
            &&& totals[0] == zero
            &&& fails_at(
                frames[k],
                controls[k],
                states[k],
                totals.last(),
                w.scores(k),
                w.scores(k),
                frames[k + 1],
                cell,
                head,
                score,
                e,
            )
        }
}

/// The summed loss of a window whose burn-in is detached: the burn-in is replayed
/// without scoring, and after it every step is fed the true frame and its prediction is
/// scored. The same predictions carry loss as where gradients flow through the whole
/// window.
pub fn detached_window<
    T,
    S,
    L,
    E,
    C: Fn(&T, &T, &S) -> Result<S, E>,
    D: Fn(S) -> S,
    H: Fn(&S) -> Result<T, E>,
    Q: Fn(L, &T, &T) -> Result<L, E>,
>(
    w: &Window,
    frames: &Vec<T>,
    controls: &Vec<T>,
    start: S,
    zero: L,
    cell: C,
    detach: D,
    head: H,
    score: Q,
) -> (r: Result<L, E>)
    requires
        w.burn <= w.steps,
        frames@.len() == w.steps + 1,
        controls@.len() == w.steps,
        forall|x: &T, u: &T, s: &S| call_requires(cell, (x, u, s)),
        forall|s: S| call_requires(detach, (s,)),
        forall|s: &S| call_requires(head, (s,)),
        forall|l: L, x: &T, y: &T| call_requires(score, (l, x, y)),
    ensures
        match r {
            Ok(total) => detached_passes(
                *w,
                frames@,
                controls@,
                start,
                zero,
                total,
                cell,
                detach,
                head,
                score,
            ),
            Err(e) => detached_breaks_off(
                *w,
                frames@,
                controls@,
                start,
                zero,
                cell,
                detach,
                head,
                score,
                e,
            ),
        },
{
    let ghost burn = w.burn as int;
    let mut state: S = start;
    let mut total: L = zero;
    let ghost mut states: Seq<S> = seq![state];
    let ghost mut preds: Seq<T> = Seq::empty();
    let ghost mut totals: Seq<L> = seq![total];
    let mut k: usize = 0;
    while k < w.burn
        invariant
            k <= w.burn <= w.steps,
            burn == w.burn,
            frames@.len() == w.steps + 1,
            controls@.len() == w.steps,
            forall|x: &T, u: &T, s: &S| call_requires(cell, (x, u, s)),
            forall|s: S| call_requires(detach, (s,)),
            states.len() == k + 1,
            states[0] == start,
            states.last() == state,
            preds.len() == 0,
            totals == seq![zero],
            total == zero,
            forall|j: int|
                0 <= j < k ==> #[trigger] burns(states, frames@, controls@, cell, detach, j),
        decreases w.burn - k,
    {
        let ghost before = states;
        let moved = match cell(&frames[k], &controls[k], &state) {
            Ok(s) => s,
            Err(e) => {
                assert(detached_runs(
                    states,
                    preds,
                    totals,
                    burn,
                    frames@,
                    controls@,
                    cell,
                    detach,
                    head,
                    score,
                ));
                return Err(e);
            },
        };
        let ghost cut_from = moved;
        state = detach(moved);
        proof {
            states = states.push(state);
            assert forall|j: int| 0 <= j < k + 1 implies #[trigger] burns(
                states,
                frames@,
                controls@,
                cell,
                detach,
                j,
            ) by {
                if j < k {
                    assert(burns(before, frames@, controls@, cell, detach, j));
                    let s = choose|s: S|
                        call_ensures(
                            cell,
                            (&frames@[j], &controls@[j], &before[j]),
                            Ok::<S, E>(s),
                        ) && #[trigger] call_ensures(detach, (s,), before[j + 1]);
                    assert(before[j + 1] == states[j + 1]);
                    assert(call_ensures(detach, (s,), states[j + 1]));
                } else {
                    assert(call_ensures(detach, (cut_from,), states[j + 1]));
                }
            }
        }
        k = k + 1;
    }
    while k < w.steps
        invariant
            w.burn <= k <= w.steps,
            burn == w.burn,
            frames@.len() == w.steps + 1,
            controls@.len() == w.steps,
            forall|x: &T, u: &T, s: &S| call_requires(cell, (x, u, s)),
            forall|s: &S| call_requires(head, (s,)),
            forall|l: L, x: &T, y: &T| call_requires(score, (l, x, y)),
            states.len() == k + 1,
            preds.len() == k - burn,
            states[0] == start,
            totals[0] == zero,
            states.last() == state,
            totals.last() == total,
            detached_runs(
                states,
                preds,
                totals,
                burn,
                frames@,
                controls@,
                cell,
                detach,
                head,
                score,
            ),
        decreases w.steps - k,
    {
        let next = match cell(&frames[k], &controls[k], &state) {
            Ok(s) => s,
            Err(e) => {
                return Err(e);
            },
        };
        let pred = match head(&next) {
            Ok(x) => x,
            Err(e) => {
                assert(call_ensures(head, (&next,), Err::<T, E>(e)));
                return Err(e);
            },
        };
        assert(call_ensures(head, (&next,), Ok::<T, E>(pred)));
        total = match score(total, &pred, &frames[k + 1]) {
            Ok(l) => l,
            Err(e) => {
                return Err(e);
            },
        };
        proof {
            let (s0, p0, t0) = (states, preds, totals);
            states = states.push(next);
            preds = preds.push(pred);
            totals = totals.push(total);
            assert forall|j: int| 0 <= j < states.len() - 1 && j < burn implies #[trigger] burns(
                states,
                frames@,
                controls@,
                cell,
                detach,
                j,
            ) by {
                assert(burns(s0, frames@, controls@, cell, detach, j));
                let s = choose|s: S|
                    call_ensures(
                        cell,
                        (&frames@[j], &controls@[j], &s0[j]),
                        Ok::<S, E>(s),
                    ) && #[trigger] call_ensures(detach, (s,), s0[j + 1]);
                assert(s0[j + 1] == states[j + 1]);
                assert(call_ensures(detach, (s,), states[j + 1]));
            }
            assert forall|j: int| burn <= j < states.len() - 1 implies call_ensures(
                cell,
                (&frames@[j], &controls@[j], &states[j]),
                Ok::<S, E>(#[trigger] states[j + 1]),
            ) by {
                if j < s0.len() - 1 {
                    assert(s0[j + 1] == states[j + 1]);
                }
            }
            assert forall|i: int| 0 <= i < preds.len() implies {
                &&& call_ensures(head, (&states[burn + i + 1],), Ok::<T, E>(#[trigger] preds[i]))
                &&& call_ensures(
                    score,
                    (totals[i], &preds[i], &frames@[burn + i + 1]),
                    Ok::<L, E>(totals[i + 1]),
                )
            } by {
                if i < p0.len() {
                    assert(p0[i] == preds[i]);
                    assert(call_ensures(head, (&s0[burn + i + 1],), Ok::<T, E>(p0[i])));
                }
            }
        }
        state = next;
        k = k + 1;
    }
    Ok(total)
}

// ---------------------------------------------------------------------------
// What a window does, step by step
// ---------------------------------------------------------------------------

/// One step of a window. The first step sees its frame; another sees its frame or, where it
/// is fed back, the prediction before it. The state that comes of it predicts the next frame,
/// and the prediction is scored against that frame once the burn-in is over.
pub open spec fn window_step<
    T,
    S,
    L,
    E,
    C: Fn(&T, &T, &S) -> Result<S, E>,
    H: Fn(&S) -> Result<T, E>,
    Q: Fn(L, &T, &T) -> Result<L, E>,
>(
    t: Trace<T, S, L>,
    burn: int,
    frames: Seq<T>,
    controls: Seq<T>,
    cell: C,
    head: H,
    score: Q,
    k: int,
) -> bool {
    &&& k == 0 || !t.own[k] ==> call_ensures(
        cell,
        (&frames[k], &controls[k], &t.states[k]),
        Ok::<S, E>(t.states[k + 1]),
    )
    &&& k > 0 && t.own[k] ==> call_ensures(
        cell,
        (&t.preds[k - 1], &controls[k], &t.states[k]),
        Ok::<S, E>(t.states[k + 1]),
    )
    &&& call_ensures(head, (&t.states[k + 1],), Ok::<T, E>(t.preds[k]))
    &&& k >= burn ==> call_ensures(
        score,
        (t.totals[k], &t.preds[k], &frames[k + 1]),
        Ok::<L, E>(t.totals[k + 1]),
    )
    &&& k < burn ==> t.totals[k + 1] == t.totals[k]
}

/// A window that was run goes through its steps in order, from the start state and an empty
/// total, to the total that it returns; whether a step is fed back is drawn for each step but
/// the first, from one draw after the other.
pub proof fn law_window_goes_step_by_step<
    T,
    S,
    L,
    E,
    C: Fn(&T, &T, &S) -> Result<S, E>,
    H: Fn(&S) -> Result<T, E>,
    Q: Fn(L, &T, &T) -> Result<L, E>,
>(
    w: Window,
    frames: Seq<T>,
    controls: Seq<T>,
    start: S,
    zero: L,
    before: u64,
    after: u64,
    total: L,
    cell: C,
    head: H,
    score: Q,
    p: u32,
)
    requires
        w.steps > 0,
        passes(w, frames, controls, start, zero, before, after, total, cell, head, score, p),
    ensures
        exists|t: Trace<T, S, L>|
            {
                &&& #[trigger] t.states.len() == w.steps + 1
                &&& t.preds.len() == w.steps
                &&& t.totals.len() == w.steps + 1
                &&& t.states[0] == start
                &&& t.totals[0] == zero
                &&& t.totals[w.steps as int] == total
                &&& t.draws.len() == w.steps
                &&& t.draws[0] == before
                &&& t.draws[w.steps - 1] == after
                &&& forall|k: int|
                    0 <= k < w.steps ==> #[trigger] window_step(
                        t,
                        w.burn as int,
                        frames,
                        controls,
                        cell,
                        head,
                        score,
                        k,
                    )
                &&& forall|k: int|
                    1 <= k < w.steps ==> chooses(
                        t.draws[k - 1],
                        t.draws[k],
                        #[trigger] t.own[k],
                        p,
                    )
            },
{
    let t = choose|t: Trace<T, S, L>|
        {
            &&& #[trigger] runs(t, w, frames, controls, cell, head, score, p, w.steps as int)
            &&& t.own.len() == w.steps
            &&& t.states[0] == start
            &&& t.totals[0] == zero
            &&& t.totals.last() == total
            &&& t.draws[0] == before
            &&& t.draws.last() == after
        };
    assert forall|k: int| 0 <= k < w.steps implies #[trigger] window_step(
        t,
        w.burn as int,
        frames,
        controls,
        cell,
        head,
        score,
        k,
    ) by {
        assert(step_runs(t, w, frames, controls, cell, head, score, k));
    }
    assert forall|k: int| 1 <= k < w.steps implies chooses(
        t.draws[k - 1],
        t.draws[k],
        #[trigger] t.own[k],
        p,
    ) by {
        let j = k - 1;
        assert(chooses(t.draws[j], t.draws[j + 1], t.own[j + 1], p));
    }
    assert(t.states.len() == w.steps + 1);
}

/// Whether a step is fed back: with no chance never, and without a draw; else exactly when
/// the fraction that is drawn is below the chance, and every step draws one.
pub proof fn law_feedback_is_drawn(before: u64, after: u64, own: bool, p: u32)
    requires
        chooses(before, after, own, p),
    ensures
        !float32_less(0, p) ==> !own && after == before,
        float32_less(0, p) ==> after == rng_next(before),
        float32_less(0, p) ==> exists|unit: u32| #[trigger]
            drawn_fraction(before, unit) && (own <==> float32_less(unit, p)),
{
}

/// A window that is run detached sees its frames only. Up to the burn-in every state is cut
/// off from what came before it; from then on every state predicts, and every prediction is
/// scored against the frame that follows.
pub proof fn law_detached_window_goes_step_by_step<
    T,
    S,
    L,
    E,
    C: Fn(&T, &T, &S) -> Result<S, E>,
    D: Fn(S) -> S,
    H: Fn(&S) -> Result<T, E>,
    Q: Fn(L, &T, &T) -> Result<L, E>,
>(
    w: Window,
    frames: Seq<T>,
    controls: Seq<T>,
    start: S,
    zero: L,
    total: L,
    cell: C,
    detach: D,
    head: H,
    score: Q,
)
    requires
        w.burn <= w.steps,
        detached_passes(w, frames, controls, start, zero, total, cell, detach, head, score),
    ensures
        exists|states: Seq<S>, preds: Seq<T>, totals: Seq<L>|
            {
                &&& #[trigger] states.len() == w.steps + 1
                &&& #[trigger] preds.len() == w.steps - w.burn
                &&& #[trigger] totals.len() == w.steps - w.burn + 1
                &&& states[0] == start
                &&& totals[0] == zero
                &&& totals[w.steps - w.burn] == total
                &&& forall|k: int|
                    0 <= k < w.burn ==> #[trigger] burns(
                        states,
                        frames,
                        controls,
                        cell,
                        detach,
                        k,
                    )
                &&& forall|k: int|
                    w.burn <= k < w.steps ==> call_ensures(
                        cell,
                        (&frames[k], &controls[k], &states[k]),
                        Ok::<S, E>(#[trigger] states[k + 1]),
                    )
                &&& forall|i: int|
                    0 <= i < w.steps - w.burn ==> call_ensures(
                        head,
                        (&states[w.burn + i + 1],),
                        Ok::<T, E>(#[trigger] preds[i]),
                    )
                &&& forall|i: int|
                    0 <= i < w.steps - w.burn ==> call_ensures(
                        score,
                        (totals[i], &(#[trigger] preds[i]), &frames[w.burn + i + 1]),
                        Ok::<L, E>(totals[i + 1]),
                    )
            },
{
    let (states, preds, totals) = choose|states: Seq<S>, preds: Seq<T>, totals: Seq<L>|
        {
            &&& #[trigger] detached_runs(
                states,
                preds,
                totals,
                w.burn as int,
                frames,
                controls,
                cell,
                detach,
                head,
                score,
            )
            &&& states.len() == w.steps + 1
            &&& preds.len() == w.steps - w.burn
            &&& states[0] == start
            &&& totals[0] == zero
            &&& totals.last() == total
        };
    assert(states.len() == w.steps + 1 && preds.len() == w.steps - w.burn && totals.len() == w.steps
        - w.burn + 1);
}

/// Where the burn-in cuts a state off: it is the step's, detached.
pub proof fn law_burn_in_detaches<T, S, E, C: Fn(&T, &T, &S) -> Result<S, E>, D: Fn(S) -> S>(
    states: Seq<S>,
    frames: Seq<T>,
    controls: Seq<T>,
    cell: C,
    detach: D,
    k: int,
)
    requires
        burns::<T, S, E, C, D>(states, frames, controls, cell, detach, k),
    ensures
        exists|s: S|
            call_ensures(cell, (&frames[k], &controls[k], &states[k]), Ok::<S, E>(s))
                && #[trigger] call_ensures(detach, (s,), states[k + 1]),
{
}

/// A window that fails has run up to some step, from the given state, loss and generator on,
/// and is left with the error of the first call of that step that failed: the recurrent step,
/// or the prediction from its result, or the score of that prediction, which is against the
/// frame that follows and is only asked for after the burn-in.
pub proof fn law_failed_window_has_run_up_to_the_failure<
    T,
    S,
    L,
    E,
    C: Fn(&T, &T, &S) -> Result<S, E>,
    H: Fn(&S) -> Result<T, E>,
    Q: Fn(L, &T, &T) -> Result<L, E>,
>(
    w: Window,
    frames: Seq<T>,
    controls: Seq<T>,
    start: S,
    zero: L,
    before: u64,
    after: u64,
    cell: C,
    head: H,
    score: Q,
    p: u32,
    e: E,
) -> (r: (Trace<T, S, L>, int))
    requires
        breaks_off(
            w,
            frames,
            controls,
            start,
            zero,
            before,
            after,
            cell,
            head,
            score,
            p,
            e,
        ),
    ensures
        ({
            let (t, k) = r;
            let x = fed(t, frames, k);
            &&& 0 <= k < w.steps
            &&& runs(t, w, frames, controls, cell, head, score, p, k)
            &&& t.states[0] == start && t.totals[0] == zero
            &&& t.draws[0] == before && t.draws.last() == after
            &&& {
                ||| call_ensures(cell, (&x, &controls[k], &t.states[k]), Err::<S, E>(e))
                ||| exists|s: S|
                    call_ensures(cell, (&x, &controls[k], &t.states[k]), Ok::<S, E>(s))
                        && #[trigger] call_ensures(head, (&s,), Err::<T, E>(e))
                ||| k >= w.burn && exists|s: S, pred: T|
                    {
                        &&& call_ensures(cell, (&x, &controls[k], &t.states[k]), Ok::<S, E>(s))
                        &&& #[trigger] call_ensures(head, (&s,), Ok::<T, E>(pred))
                        &&& call_ensures(
                            score,
                            (t.totals[k], &pred, &frames[k + 1]),
                            Err::<L, E>(e),
                        )
                    }
            }
        }),
{
    let (t, k): (Trace<T, S, L>, int) = choose|t: Trace<T, S, L>, k: int|
        {
            &&& #[trigger] runs(t, w, frames, controls, cell, head, score, p, k)
            &&& 0 <= k < w.steps
            &&& t.own.len() == k + 1
            &&& t.states[0] == start
            &&& t.totals[0] == zero
            &&& t.draws[0] == before
            &&& t.draws.last() == after
            &&& fails_at(
                fed(t, frames, k),
                controls[k],
                t.states[k],
                t.totals[k],
                true,
                w.scores(k),
                frames[k + 1],
                cell,
                head,
                score,
                e,
            )
        };
    (t, k)
}

/// A window with a detached burn-in that fails has run up to some step on the true frames, from
/// the given state and loss on, and is left with the error of a call of that step: the
/// recurrent step, or, after the burn-in, the prediction or its score.
pub proof fn law_failed_detached_window_has_run_up_to_the_failure<
    T,
    S,
    L,
    E,
    C: Fn(&T, &T, &S) -> Result<S, E>,
    D: Fn(S) -> S,
    H: Fn(&S) -> Result<T, E>,
    Q: Fn(L, &T, &T) -> Result<L, E>,
>(
    w: Window,
    frames: Seq<T>,
    controls: Seq<T>,
    start: S,
    zero: L,
    cell: C,
    detach: D,
    head: H,
    score: Q,
    e: E,
) -> (r: (Seq<S>, Seq<T>, Seq<L>))
    requires
        detached_breaks_off(w, frames, controls, start, zero, cell, detach, head, score, e),
    ensures
        ({
            let (states, preds, totals) = r;
            let k = states.len() - 1;
            &&& 0 <= k < w.steps
            &&& detached_runs(
                states,
                preds,
                totals,
                w.burn as int,
                frames,
                controls,
                cell,
                detach,
                head,
                score,
            )
            &&& states[0] == start && totals[0] == zero
            &&& {
                ||| call_ensures(cell, (&frames[k], &controls[k], &states[k]), Err::<S, E>(e))
                ||| k >= w.burn && exists|s: S|
                    call_ensures(cell, (&frames[k], &controls[k], &states[k]), Ok::<S, E>(s))
                        && #[trigger] call_ensures(head, (&s,), Err::<T, E>(e))
                ||| k >= w.burn && exists|s: S, pred: T|
                    {
                        &&& call_ensures(
                            cell,
                            (&frames[k], &controls[k], &states[k]),
                            Ok::<S, E>(s),
                        )
                        &&& #[trigger] call_ensures(head, (&s,), Ok::<T, E>(pred))
                        &&& call_ensures(
                            score,
                            (totals.last(), &pred, &frames[k + 1]),
                            Err::<L, E>(e),
                        )
                    }
            }
        }),
{
    let (states, preds, totals): (Seq<S>, Seq<T>, Seq<L>) = choose|
        states: Seq<S>,
        preds: Seq<T>,
        totals: Seq<L>,
    |
        {
            let k = states.len() - 1;
            &&& #[trigger] detached_runs(
                states,
                preds,
                totals,
                w.burn as int,
                frames,
                controls,
                cell,
                detach,
                head,
                score,
            )
            &&& 0 <= k < w.steps
            &&& preds.len() == if w.scores(k) {
                k - w.burn
            } else {
                0
            }
            &&& states[0] == start
            &&& totals[0] == zero
            &&& fails_at(
                frames[k],
                controls[k],
                states[k],
                totals.last(),
                w.scores(k),
                w.scores(k),
                frames[k + 1],
                cell,
                head,
                score,
                e,
            )
        };
    (states, preds, totals)
}

} // verus!
