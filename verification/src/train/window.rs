//! The window of one optimisation step: how long it is, which of its predictions
//! are scored, and what is fed to the model next.

use vstd::prelude::*;

use crate::model::floats::{float32_less, less32};
use crate::rollout::drawn_fraction;
use crate::scene::{rng_draw, rng_next, Rng};
use crate::train::config::TrainConfig;

verus! {

/// One window.
#[derive(Debug, Clone, Copy, PartialEq, Eq, Structural)]
pub struct Window {
    /// Frames that build up the state before the first scored prediction.
    pub burn: usize,
    /// Recurrent steps in all.
    pub steps: usize,
    /// Predictions that carry loss, which the summed loss is divided by.
    pub counted: usize,
}

/// A configuration whose windows can be drawn.
pub open spec fn drawable(tc: TrainConfig) -> bool {
    &&& 1 <= tc.burn_min <= tc.burn_max
    &&& tc.burn_max - tc.burn_min + 1 <= usize::MAX
    &&& tc.burn_max + tc.loss_steps <= usize::MAX
}

impl Window {
    /// A window's lengths follow from its burn-in.
    pub open spec fn of(burn: int, loss_steps: int) -> Window {
        Window {
            burn: burn as usize,
            steps: (burn + loss_steps) as usize,
            counted: loss_steps as usize,
        }
    }

    /// Draw a window: the burn-in is any length in the configured range.
    pub fn draw(tc: &TrainConfig, rng: &mut Rng) -> (r: Window)
        requires
            drawable(*tc),
        ensures
            ({
                let range = tc.burn_max - tc.burn_min + 1;
                let burn = tc.burn_min + rng_draw(old(rng).state()) as int % range;
                &&& r == Window::of(burn, tc.loss_steps as int)
                &&& r.burn == burn
                &&& r.steps == burn + tc.loss_steps
                &&& r.counted == tc.loss_steps
            }),
            tc.burn_min <= r.burn <= tc.burn_max,
            final(rng).state() == rng_next(old(rng).state()),
    {
        let range: u64 = (tc.burn_max - tc.burn_min + 1) as u64;
        let more: u64 = rng.below(range);
        let burn: usize = tc.burn_min + more as usize;
        let steps: usize = burn + tc.loss_steps;
        Window { burn, steps, counted: tc.loss_steps }
    }

    /// Whether the prediction after step `k` is scored: those after the burn-in are, up to
    /// the end of the window.
    pub open spec fn scores(self, k: int) -> bool {
        k >= self.burn
    }

    /// Whether the prediction after step `k` is scored.
    pub fn carries_loss(&self, k: usize) -> (r: bool)
        requires
            k < self.steps,
        ensures
            r == self.scores(k as int),
    {
        k >= self.burn
    }

    /// Whether step `k` is the last one, after which nothing is fed.
    pub fn is_last(&self, k: usize) -> (r: bool)
        requires
            k < self.steps,
        ensures
            r == (k + 1 == self.steps),
    {
        k + 1 == self.steps
    }
}

/// How many of the first `k` predictions are scored.
pub open spec fn scored(w: Window, k: int) -> nat
    decreases k,
{
    if k <= 0 {
        0
    } else {
        scored(w, k - 1) + if w.scores(k - 1) {
            1nat
        } else {
            0nat
        }
    }
}

/// The predictions that carry loss are the last ones of a window, as many as the loss that
/// is summed over it is divided by.
pub proof fn law_loss_is_a_mean(burn: int, loss_steps: int)
    requires
        burn >= 1,
        loss_steps >= 0,
        burn + loss_steps <= usize::MAX,
    ensures
        ({
            let w = Window::of(burn, loss_steps);
            &&& scored(w, w.steps as int) == w.counted == loss_steps
            &&& forall|k: int| 0 <= k < w.steps ==> (w.scores(k) <==> w.steps - k <= loss_steps)
        }),
{
    lemma_scored(Window::of(burn, loss_steps), burn + loss_steps);
}

/// Scoring begins at the end of the burn-in and does not stop.
proof fn lemma_scored(w: Window, k: int)
    requires
        k >= 0,
    ensures
        scored(w, k) == if k >= w.burn {
            k - w.burn
        } else {
            0
        },
    decreases k,
{
    if k > 0 {
        lemma_scored(w, k - 1);
    }
}

/// Whether the next input is the model's own prediction: with probability `p`, for
/// which a fraction is drawn unless `p` is not positive.
pub fn feeds_back(rng: &mut Rng, p: u32) -> (r: bool)
    ensures
        if float32_less(0, p) {
            &&& final(rng).state() == rng_next(old(rng).state())
            &&& exists|unit: u32| #[trigger]
                drawn_fraction(old(rng).state(), unit) && r == float32_less(unit, p)
        } else {
            &&& final(rng).state() == old(rng).state()
            &&& !r
        },
{
    if !less32(0, p) {
        return false;
    }
    let ghost s = rng.state();
    let unit: u32 = rng.f32_unit();
    assert(drawn_fraction(s, unit));
    less32(unit, p)
}

// ---------------------------------------------------------------------------
// Bookkeeping
// ---------------------------------------------------------------------------

/// Where the last tenth of a run begins. A run of fewer than ten steps has its last step
/// for it.
pub open spec fn tail_start(iterations: int) -> int {
    if iterations >= 10 {
        iterations - iterations / 10
    } else if iterations > 0 {
        iterations - 1
    } else {
        0
    }
}

/// Where the last tenth of a run begins.
pub fn tail_from(iterations: usize) -> (r: usize)
    ensures
        r == tail_start(iterations as int),
        r <= iterations,
{
    if iterations >= 10 {
        iterations - iterations / 10
    } else {
        iterations.saturating_sub(1)
    }
}

/// The last tenth of a run has a tenth of its steps, and any at all where the run has.
pub proof fn law_tail_is_a_tenth(iterations: int)
    requires
        iterations > 0,
    ensures
        0 <= tail_start(iterations) < iterations,
        iterations >= 10 ==> iterations - tail_start(iterations) == iterations / 10,
{
}

/// Whether progress is shown after a step: every hundred steps, and at the end.
pub fn shows_progress(iter: usize, iterations: usize) -> (r: bool)
    requires
        iter < iterations,
    ensures
        r == (iter % 100 == 0 || iter + 1 == iterations),
{
    iter % 100 == 0 || iter + 1 == iterations
}

/// Where the last fifty of `n` losses begin.
pub fn recent_from(n: usize) -> (r: usize)
    ensures
        r == if n > 50 {
            n - 50
        } else {
            0
        },
{
    n.saturating_sub(50)
}

/// A window is its burn-in and the steps that are scored: no step is scored before the
/// burn-in is over, and every one is from then on.
pub proof fn law_scoring_begins_after_the_burn_in(burn: int, loss_steps: int, k: int)
    requires
        0 <= burn,
        0 <= loss_steps,
        burn + loss_steps <= usize::MAX,
    ensures
        Window::of(burn, loss_steps).burn == burn,
        Window::of(burn, loss_steps).steps == burn + loss_steps,
        Window::of(burn, loss_steps).counted == loss_steps,
        Window::of(burn, loss_steps).scores(k) <==> burn <= k,
{
}

} // verus!
