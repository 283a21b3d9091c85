//! What the trainer says of its run.

use vstd::prelude::*;

use crate::experiment::stats::{float_less, is_nan, less};
use crate::text::{decimal, decimal_text, hex_char, hex_digit, push_decimal};
use crate::train::config::TrainConfig;

verus! {

/// The bits that stand for no number.
pub const NAN_BITS: u64 = 0x7ff8_0000_0000_0000;

/// The bits of infinity.
pub const INFINITY_BITS: u64 = 0x7ff0_0000_0000_0000;

/// The losses of a run in brief, as `binary64` bits.
#[derive(Debug, Clone, Copy, PartialEq, Eq, Structural)]
pub struct LossSummary {
    /// Loss of the first step, or no number.
    pub first: u64,
    /// Lowest loss of any step, or infinity.
    pub best: u64,
    /// Loss of the last step, or no number.
    pub last: u64,
}

/// `best` is a lowest number of a list, or infinity if none is lower than that.
pub open spec fn lowest(best: u64, losses: Seq<u64>) -> bool {
    &&& best == INFINITY_BITS || losses.contains(best)
    &&& !is_nan(best)
    &&& forall|i: int| 0 <= i < losses.len() ==> !float_less(#[trigger] losses[i], best)
}

/// The losses of a run in brief.
pub fn loss_summary(losses: &[u64]) -> (r: LossSummary)
    ensures
        r.first == if losses@.len() > 0 {
            losses@[0]
        } else {
            NAN_BITS
        },
        r.last == if losses@.len() > 0 {
            losses@.last()
        } else {
            NAN_BITS
        },
        lowest(r.best, losses@),
{
    let mut best: u64 = INFINITY_BITS;
    let mut i: usize = 0;
    while i < losses.len()
        invariant
            i <= losses@.len(),
            best == INFINITY_BITS || losses@.contains(best),
            !is_nan(best),
            forall|j: int| 0 <= j < i ==> !float_less(#[trigger] losses@[j], best),
        decreases losses@.len() - i,
    {
        if less(losses[i], best) {
            best = losses[i];
            assert(losses@.contains(losses@[i as int]));
        }
        i = i + 1;
    }
    let n: usize = losses.len();
    LossSummary {
        first: if n > 0 {
            losses[0]
        } else {
            NAN_BITS
        },
        best,
        last: if n > 0 {
            losses[n - 1]
        } else {
            NAN_BITS
        },
    }
}

/// Two runs over the same losses report best losses that are equal as numbers.
pub proof fn law_best_loss_is_unique(a: u64, b: u64, losses: Seq<u64>)
    requires
        lowest(a, losses),
        lowest(b, losses),
    ensures
        !float_less(a, b) && !float_less(b, a),
{
    if losses.contains(a) {
        let i = choose|i: int| 0 <= i < losses.len() && losses[i] == a;
        assert(!float_less(losses[i], b));
    }
    if losses.contains(b) {
        let i = choose|i: int| 0 <= i < losses.len() && losses[i] == b;
        assert(!float_less(losses[i], a));
    }
}

// ---------------------------------------------------------------------------
// Provenance
// ---------------------------------------------------------------------------

/// The lower `n` hexadecimal digits of a number, with leading zeros.
pub open spec fn hex_digits(v: nat, n: nat) -> Seq<char>
    decreases n,
{
    if n == 0 {
        Seq::empty()
    } else {
        hex_digits(v / 16, (n - 1) as nat).push(hex_digit(v % 16))
    }
}

/// A seed as it is shown: sixteen hexadecimal digits behind `0x`.
pub fn seed_text(seed: u64) -> (r: String)
    ensures
        r@ == "0x"@ + hex_digits(seed as nat, 16),
{
    let mut s: String = "0x".to_owned();
    push_hex_digits(&mut s, seed, 16);
    s
}

/// Appends the lower `n` hexadecimal digits of a number.
fn push_hex_digits(out: &mut String, v: u64, n: usize)
    ensures
        final(out)@ == old(out)@ + hex_digits(v as nat, n as nat),
    decreases n,
{
    if n > 0 {
        push_hex_digits(out, v / 16, n - 1);
        out.push(hex_char((v % 16) as u8));
    }
    assert(out@ =~= old(out)@ + hex_digits(v as nat, n as nat));
}

/// What the provenance says that is formatted or found out elsewhere.
#[derive(Debug)]
pub struct ProvenanceTexts {
    /// Name of the crate.
    pub crate_name: String,
    /// Version of the crate.
    pub crate_version: String,
    /// The compiler.
    pub rustc: String,
    /// The learning rate.
    pub lr: String,
    /// The weight of bright pixels.
    pub foreground_loss_weight: String,
    /// The final feed-back probability.
    pub p_max: String,
    /// The share of the run over which it rises.
    pub ramp: String,
    /// Fingerprint of the corpus.
    pub corpus_digest: String,
    /// Mean loss of the last tenth of the run.
    pub final_mean_loss: String,
}

/// How a truth value is shown.
pub open spec fn truth_text(b: bool) -> Seq<char> {
    if b {
        "true"@
    } else {
        "false"@
    }
}

/// The provenance that is written into a checkpoint: keys and values.
pub open spec fn provenance_entries(tc: TrainConfig, t: ProvenanceTexts) -> Seq<
    (Seq<char>, Seq<char>),
> {
    seq![
        ("producer"@, "vole-field train"@),
        ("crate"@, t.crate_name@),
        ("crate_version"@, t.crate_version@),
        ("rustc"@, t.rustc@),
        ("seed"@, "0x"@ + hex_digits(tc.seed as nat, 16)),
        ("iterations"@, decimal(tc.iterations as nat)),
        ("batch"@, decimal(tc.batch as nat)),
        ("burn_range"@, decimal(tc.burn_min as nat) + "..="@ + decimal(tc.burn_max as nat)),
        ("loss_steps"@, decimal(tc.loss_steps as nat)),
        ("lr_initial"@, t.lr@),
        ("lr_schedule"@, "cosine to 2e-4"@),
        ("full_bptt"@, truth_text(tc.full_bptt)),
        ("loss"@, tc.loss.text()),
        ("foreground_loss_weight"@, t.foreground_loss_weight@),
        ("scheduled_sampling_p_max"@, t.p_max@),
        ("scheduled_sampling_ramp"@, t.ramp@),
        (
            "objective"@,
            "next-frame prediction; scheduled sampling ramp; full BPTT over the window"@,
        ),
        ("head_initialisation"@, "persistence (emit the carry unchanged)"@),
        ("corpus_digest"@, t.corpus_digest@),
        ("final_mean_loss"@, t.final_mean_loss@),
        (
            "note"@,
            "Tiny ConvLSTM trained on procedurally generated moving-shape scenes; not part of the canonical demo."@,
        ),
    ]
}

/// Keys and values as texts.
pub open spec fn entry_texts(list: Seq<(String, String)>) -> Seq<(Seq<char>, Seq<char>)> {
    list.map_values(|e: (String, String)| (e.0@, e.1@))
}

/// One entry.
fn entry(out: &mut Vec<(String, String)>, key: &str, value: &str)
    ensures
        entry_texts(final(out)@) == entry_texts(old(out)@).push((key@, value@)),
{
    out.push((key.to_owned(), value.to_owned()));
    assert(entry_texts(out@) =~= entry_texts(old(out)@).push((key@, value@)));
}

/// The provenance that is written into a checkpoint.
pub fn provenance(tc: &TrainConfig, t: &ProvenanceTexts) -> (out: Vec<(String, String)>)
    ensures
        entry_texts(out@) == provenance_entries(*tc, *t),
{
    let mut out: Vec<(String, String)> = Vec::new();
    let seed = seed_text(tc.seed);
    let iterations = decimal_text(tc.iterations as u64);
    let batch = decimal_text(tc.batch as u64);
    let mut burn: String = decimal_text(tc.burn_min as u64);
    burn.append("..=");
    push_decimal(&mut burn, tc.burn_max as u64);
    let loss_steps = decimal_text(tc.loss_steps as u64);
    entry(&mut out, "producer", "vole-field train");
    entry(&mut out, "crate", t.crate_name.as_str());
    entry(&mut out, "crate_version", t.crate_version.as_str());
    entry(&mut out, "rustc", t.rustc.as_str());
    entry(&mut out, "seed", seed.as_str());
    entry(&mut out, "iterations", iterations.as_str());
    entry(&mut out, "batch", batch.as_str());
    entry(&mut out, "burn_range", burn.as_str());
    entry(&mut out, "loss_steps", loss_steps.as_str());
    entry(&mut out, "lr_initial", t.lr.as_str());
    entry(&mut out, "lr_schedule", "cosine to 2e-4");
    entry(
        &mut out,
        "full_bptt",
        if tc.full_bptt {
            "true"
        } else {
            "false"
        },
    );
    entry(&mut out, "loss", tc.loss.as_str());
    entry(&mut out, "foreground_loss_weight", t.foreground_loss_weight.as_str());
    entry(&mut out, "scheduled_sampling_p_max", t.p_max.as_str());
    entry(&mut out, "scheduled_sampling_ramp", t.ramp.as_str());
    entry(
        &mut out,
        "objective",
        "next-frame prediction; scheduled sampling ramp; full BPTT over the window",
    );
    entry(&mut out, "head_initialisation", "persistence (emit the carry unchanged)");
    entry(&mut out, "corpus_digest", t.corpus_digest.as_str());
    entry(&mut out, "final_mean_loss", t.final_mean_loss.as_str());
    entry(
        &mut out,
        "note",
        "Tiny ConvLSTM trained on procedurally generated moving-shape scenes; not part of the canonical demo.",
    );
    assert(entry_texts(out@) =~= provenance_entries(*tc, *t));
    out
}

/// A hexadecimal numeral of `n` digits ends in the number's remainder by sixteen, in front of
/// which stands the rest.
pub proof fn law_hex_digits(v: nat, n: nat)
    requires
        n > 0,
    ensures
        hex_digits(v, n).len() == n,
        hex_digits(v, n).last() == "0123456789abcdef"@[v as int % 16],
        hex_digits(v, n).drop_last() == hex_digits(v / 16, (n - 1) as nat),
    decreases n,
{
    reveal_strlit("0123456789abcdef");
    assert(hex_digits(v, n).drop_last() =~= hex_digits(v / 16, (n - 1) as nat));
    if n > 1 {
        law_hex_digits(v / 16, (n - 1) as nat);
    }
}

/// What a checkpoint's provenance says of how it was trained: every setting under its own
/// name.
pub proof fn law_provenance_says_how_it_was_trained(tc: TrainConfig, t: ProvenanceTexts)
    ensures
        ({
            let e = provenance_entries(tc, t);
            &&& e.len() == 21
            &&& e[4] == ("seed"@, "0x"@ + hex_digits(tc.seed as nat, 16))
            &&& e[5] == ("iterations"@, decimal(tc.iterations as nat))
            &&& e[6] == ("batch"@, decimal(tc.batch as nat))
            &&& e[7] == (
                "burn_range"@,
                decimal(tc.burn_min as nat) + "..="@ + decimal(tc.burn_max as nat),
            )
            &&& e[8] == ("loss_steps"@, decimal(tc.loss_steps as nat))
            &&& e[9] == ("lr_initial"@, t.lr@)
            &&& tc.full_bptt ==> e[11] == ("full_bptt"@, "true"@)
            &&& !tc.full_bptt ==> e[11] == ("full_bptt"@, "false"@)
            &&& e[12] == ("loss"@, tc.loss.text())
            &&& e[18] == ("corpus_digest"@, t.corpus_digest@)
            &&& e[19] == ("final_mean_loss"@, t.final_mean_loss@)
        }),
{
}

/// The best loss is one of the losses, or infinite where none is a number, and none is lower.
pub proof fn law_no_loss_is_lower_than_the_best(best: u64, losses: Seq<u64>, i: int)
    requires
        lowest(best, losses),
        0 <= i < losses.len(),
    ensures
        best == 0x7ff0_0000_0000_0000 || losses.contains(best),
        !float_less(losses[i], best),
        losses[i] < 0x7ff0_0000_0000_0000 ==> losses.contains(best),
{
}

} // verus!
