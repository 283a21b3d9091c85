//! Training configuration.

use vstd::prelude::*;

use crate::text::same_text;

verus! {

/// Default seed.
pub const DEFAULT_SEED: u64 = 0x5601_E1D5_2C07_BA11;

/// Default optimisation steps.
pub const DEFAULT_ITERATIONS: usize = 12000;

/// Default batch size.
pub const DEFAULT_BATCH: usize = 4;

/// Shortest burn-in, in frames.
pub const BURN_MIN: usize = 4;

/// Longest burn-in, in frames.
pub const BURN_MAX: usize = 12;

/// Prediction steps that carry loss: the horizon that generation will be asked for.
pub const LOSS_STEPS: usize = 16;

/// Final probability of feeding the model its own prediction: the bits of `1.0`.
pub const SCHEDULED_SAMPLING_P_MAX: u32 = 0x3f80_0000;

/// Share of the run over which that probability rises: the bits of `1.0`.
pub const SCHEDULED_SAMPLING_RAMP: u32 = 0x3f80_0000;

/// Default learning rate: the bits of `0.004`.
pub const DEFAULT_LR: u64 = 0x3f70_624d_d2f1_a9fc;

/// Final learning rate of the cosine decay: the bits of `0.0002`.
pub const LR_FLOOR: u64 = 0x3f2a_36e2_eb1c_432d;

/// Where the frozen checkpoint is written.
pub const DEFAULT_OUT: &'static str = "assets/tiny_convlstm.safetensors";

/// Weight added to a pixel's squared error in proportion to its target: the bits of
/// `6.0`.
pub const FOREGROUND_LOSS_WEIGHT: u32 = 0x40c0_0000;

/// Context length of the trainer's own quality check.
pub const CANONICAL_EVAL_CONTEXT: usize = 256;

/// Future length of the trainer's own quality check.
pub const CANONICAL_EVAL_FUTURE: usize = 16;

/// Path that the trainer writes to, relative to the working directory.
pub fn default_out() -> (r: &'static str)
    ensures
        r@ == "assets/tiny_convlstm.safetensors"@,
{
    DEFAULT_OUT
}

/// Objective used to fit the next frame.
#[derive(Debug, Clone, Copy, PartialEq, Eq, Structural)]
pub enum Loss {
    /// Mean squared error, with bright target pixels weighted up.
    WeightedMse,
    /// Mean squared error.
    Mse,
    /// Soft binary cross-entropy on the emitted intensity.
    SoftBce,
}

impl Loss {
    /// The command-line value.
    pub open spec fn text(self) -> Seq<char> {
        match self {
            Loss::WeightedMse => "weighted-mse"@,
            Loss::Mse => "mse"@,
            Loss::SoftBce => "soft-bce"@,
        }
    }

    /// The objective that a value names; two of them have a short form.
    pub open spec fn named(s: Seq<char>) -> Option<Loss> {
        if s == "weighted-mse"@ || s == "wmse"@ {
            Some(Loss::WeightedMse)
        } else if s == "mse"@ {
            Some(Loss::Mse)
        } else if s == "soft-bce"@ || s == "bce"@ {
            Some(Loss::SoftBce)
        } else {
            None
        }
    }

    /// The command-line value.
    pub fn as_str(&self) -> (r: &'static str)
        ensures
            r@ == self.text(),
    {
        match self {
            Loss::WeightedMse => "weighted-mse",
            Loss::Mse => "mse",
            Loss::SoftBce => "soft-bce",
        }
    }

    /// The objective that a value names.
    pub fn parse(s: &str) -> (r: Option<Loss>)
        ensures
            r == Loss::named(s@),
    {
        if same_text(s, "weighted-mse") || same_text(s, "wmse") {
            Some(Loss::WeightedMse)
        } else if same_text(s, "mse") {
            Some(Loss::Mse)
        } else if same_text(s, "soft-bce") || same_text(s, "bce") {
            Some(Loss::SoftBce)
        } else {
            None
        }
    }
}

/// Every objective parses back from its own value.
pub proof fn law_loss_round_trips(l: Loss)
    ensures
        Loss::named(l.text()) == Some(l),
{
    reveal_strlit("weighted-mse");
    reveal_strlit("wmse");
    reveal_strlit("mse");
    reveal_strlit("soft-bce");
    reveal_strlit("bce");
    assert("weighted-mse"@.len() == 12 && "wmse"@.len() == 4 && "mse"@.len() == 3);
    assert("soft-bce"@.len() == 8 && "bce"@.len() == 3);
    assert("mse"@[0] == 'm' && "bce"@[0] == 'b');
}

/// Training configuration.
#[derive(Debug)]
pub struct TrainConfig {
    /// Seed of the corpus.
    pub seed: u64,
    /// Optimisation steps.
    pub iterations: usize,
    /// Scenes per step.
    pub batch: usize,
    /// Shortest burn-in.
    pub burn_min: usize,
    /// Longest burn-in.
    pub burn_max: usize,
    /// Prediction steps that carry loss, counted back from the end of the window.
    pub loss_steps: usize,
    /// Learning rate at the first step, as `binary64` bits.
    pub lr: u64,
    /// Whether gradients flow through the whole window.
    pub full_bptt: bool,
    /// Objective.
    pub loss: Loss,
    /// Final probability of feeding back a prediction, as `binary32` bits.
    pub scheduled_sampling_p_max: u32,
    /// Checkpoint output path.
    pub out: String,
}

impl Default for TrainConfig {
    fn default() -> (r: TrainConfig)
        ensures
            r.seed == 0x5601_E1D5_2C07_BA11,
            r.iterations == 12000,
            r.batch == 4,
            r.burn_min == 4,
            r.burn_max == 12,
            r.loss_steps == 16,
            r.lr == 0x3f70_624d_d2f1_a9fc,
            r.full_bptt,
            r.loss == Loss::WeightedMse,
            r.scheduled_sampling_p_max == 0x3f80_0000,
            r.out@ == "assets/tiny_convlstm.safetensors"@,
    {
        TrainConfig {
            seed: DEFAULT_SEED,
            iterations: DEFAULT_ITERATIONS,
            batch: DEFAULT_BATCH,
            burn_min: BURN_MIN,
            burn_max: BURN_MAX,
            loss_steps: LOSS_STEPS,
            lr: DEFAULT_LR,
            full_bptt: true,
            loss: Loss::WeightedMse,
            scheduled_sampling_p_max: SCHEDULED_SAMPLING_P_MAX,
            out: DEFAULT_OUT.to_owned(),
        }
    }
}

/// The losses are called by their names, and two of them by a short one.
pub proof fn law_losses_are_called_by_name(s: Seq<char>)
    ensures
        Loss::named(s) == Some(Loss::WeightedMse) <==> s == "weighted-mse"@ || s == "wmse"@,
        Loss::named(s) == Some(Loss::Mse) <==> s == "mse"@,
        Loss::named(s) == Some(Loss::SoftBce) <==> s == "soft-bce"@ || s == "bce"@,
        Loss::WeightedMse.text() == "weighted-mse"@,
        Loss::Mse.text() == "mse"@,
        Loss::SoftBce.text() == "soft-bce"@,
{
    reveal_strlit("weighted-mse");
    reveal_strlit("wmse");
    reveal_strlit("mse");
    reveal_strlit("soft-bce");
    reveal_strlit("bce");
    assert("weighted-mse"@.len() == 12 && "wmse"@.len() == 4 && "mse"@.len() == 3
        && "soft-bce"@.len() == 8 && "bce"@.len() == 3);
    assert("mse"@[0] == 'm' && "bce"@[0] == 'b');
}

} // verus!
