//! The command line: which subcommand is asked for, and with which options.

use vstd::prelude::*;

use crate::demo::plan::RunOptions;
use crate::experiment::flags::{flag_value, has_flag, opt_str, words};
use crate::model::checkpoint::CHECKPOINT_PATH;
use crate::text::{parse_unsigned, quote, quoted, read_unsigned, same_text};
use crate::train::config::{Loss, TrainConfig};

verus! {

/// What the program is asked to do.
#[derive(Debug, Clone, Copy, PartialEq, Eq, Structural)]
pub enum Subcommand {
    /// The whole demonstration.
    Run,
    /// A producer child.
    Producer,
    /// A request child.
    Request,
    /// Train a checkpoint.
    Train,
    /// Judge a checkpoint.
    Eval,
    /// Say which version this is.
    Version,
}

impl Subcommand {
    /// The word that asks for it.
    pub open spec fn text(self) -> Seq<char> {
        match self {
            Subcommand::Run => "run"@,
            Subcommand::Producer => "producer"@,
            Subcommand::Request => "request"@,
            Subcommand::Train => "train"@,
            Subcommand::Eval => "eval"@,
            Subcommand::Version => "version"@,
        }
    }

    /// What a word asks for.
    pub open spec fn named(s: Seq<char>) -> Option<Subcommand> {
        if s == "run"@ {
            Some(Subcommand::Run)
        } else if s == "producer"@ {
            Some(Subcommand::Producer)
        } else if s == "request"@ {
            Some(Subcommand::Request)
        } else if s == "train"@ {
            Some(Subcommand::Train)
        } else if s == "eval"@ {
            Some(Subcommand::Eval)
        } else if s == "version"@ {
            Some(Subcommand::Version)
        } else {
            None
        }
    }

    /// What the first argument asks for; without one it is the demonstration. A word
    /// that asks for nothing known is an error.
    pub fn parse(args: &[String]) -> (r: Result<Subcommand, String>)
        ensures
            args@.len() == 0 ==> r == Ok::<Subcommand, String>(Subcommand::Run),
            args@.len() > 0 ==> match Subcommand::named(args@[0]@) {
                Some(c) => r == Ok::<Subcommand, String>(c),
                None => r matches Err(e) && e@ == "unknown subcommand "@ + quoted(args@[0]@)
                    + "; expected run|producer|request|train|eval|version"@,
            },
    {
        if args.len() == 0 {
            return Ok(Subcommand::Run);
        }
        let word = args[0].as_str();
        if same_text(word, "run") {
            Ok(Subcommand::Run)
        } else if same_text(word, "producer") {
            Ok(Subcommand::Producer)
        } else if same_text(word, "request") {
            Ok(Subcommand::Request)
        } else if same_text(word, "train") {
            Ok(Subcommand::Train)
        } else if same_text(word, "eval") {
            Ok(Subcommand::Eval)
        } else if same_text(word, "version") {
            Ok(Subcommand::Version)
        } else {
            let mut e: String = "unknown subcommand ".to_owned();
            e.append(quote(word).as_str());
            e.append("; expected run|producer|request|train|eval|version");
            Err(e)
        }
    }
}

/// Every subcommand is asked for by its own word.
pub proof fn law_subcommands_round_trip(c: Subcommand)
    ensures
        Subcommand::named(c.text()) == Some(c),
{
    reveal_strlit("run");
    reveal_strlit("producer");
    reveal_strlit("request");
    reveal_strlit("train");
    reveal_strlit("eval");
    reveal_strlit("version");
    assert("run"@.len() == 3 && "producer"@.len() == 8 && "request"@.len() == 7);
    assert("train"@.len() == 5 && "eval"@.len() == 4 && "version"@.len() == 7);
    assert("request"@[0] == 'r' && "version"@[0] == 'v');
}

/// The number that a flag gives; the default if it gives none.
pub open spec fn number_or(args: Seq<Seq<char>>, name: Seq<char>, default: u64) -> u64 {
    match flag_value(args, name) {
        Some(v) => match parse_unsigned(v, u64::MAX as nat) {
            Some(n) => n as u64,
            None => default,
        },
        None => default,
    }
}

/// The number that a flag gives; the default if it gives none.
pub fn flag_u64(args: &[String], name: &str, default: u64) -> (r: u64)
    ensures
        r == number_or(words(args@), name@, default),
{
    match opt_str(args, name) {
        Some(v) => match read_unsigned(v, u64::MAX) {
            Some(n) => n,
            None => default,
        },
        None => default,
    }
}

/// The text that a flag gives; the default if it gives none.
pub open spec fn text_or(args: Seq<Seq<char>>, name: Seq<char>, default: Seq<char>) -> Seq<char> {
    match flag_value(args, name) {
        Some(v) => v,
        None => default,
    }
}

/// The text that a flag gives; the default if it gives none.
fn flag_text(args: &[String], name: &str, default: String) -> (r: String)
    ensures
        r@ == text_or(words(args@), name@, default@),
{
    match opt_str(args, name) {
        Some(v) => v.to_owned(),
        None => default,
    }
}

/// The options of a demonstration, where the arguments give them, on a machine with
/// this many threads, if that is known.
pub fn run_options(args: &[String], available: Option<usize>) -> (r: RunOptions)
    ensures
        ({
            let w = words(args@);
            let threads: usize = match available {
                Some(n) => if n < 1 {
                    1
                } else if n > 4 {
                    4
                } else {
                    n
                },
                None => 1,
            };
            &&& r.run_dir@ == text_or(w, "--run-dir"@, "run"@)
            &&& r.checkpoint@ == text_or(w, "--checkpoint"@, CHECKPOINT_PATH@)
            &&& r.context_len == number_or(w, "--context"@, 256) as usize
            &&& r.future_len == number_or(w, "--future"@, 16) as usize
            &&& r.threads == number_or(w, "--threads"@, threads as u64) as usize
            &&& r.clean == !w.contains("--no-clean"@)
        }),
{
    let d = RunOptions::default_for(available);
    RunOptions {
        run_dir: flag_text(args, "--run-dir", d.run_dir),
        checkpoint: flag_text(args, "--checkpoint", d.checkpoint),
        context_len: flag_u64(args, "--context", d.context_len as u64) as usize,
        future_len: flag_u64(args, "--future", d.future_len as u64) as usize,
        threads: flag_u64(args, "--threads", d.threads as u64) as usize,
        clean: !has_flag(args, "--no-clean"),
    }
}

/// The training configuration, where the arguments give it. The two real numbers are
/// read elsewhere.
pub fn train_config(args: &[String], lr: u64, p_max: u32) -> (r: TrainConfig)
    ensures
        ({
            let w = words(args@);
            &&& r.seed == number_or(w, "--seed"@, 0x5601_E1D5_2C07_BA11)
            &&& r.iterations == number_or(w, "--iterations"@, 12000) as usize
            &&& r.batch == number_or(w, "--batch"@, 4) as usize
            &&& r.burn_min == number_or(w, "--burn-min"@, 4) as usize
            &&& r.burn_max == number_or(w, "--burn-max"@, 12) as usize
            &&& r.loss_steps == number_or(w, "--loss-steps"@, 16) as usize
            &&& r.lr == lr
            &&& r.full_bptt == !w.contains("--detach-burn"@)
            &&& r.loss == match flag_value(w, "--loss"@) {
                Some(v) => match Loss::named(v) {
                    Some(l) => l,
                    None => Loss::WeightedMse,
                },
                None => Loss::WeightedMse,
            }
            &&& r.scheduled_sampling_p_max == p_max
            &&& r.out@ == text_or(w, "--out"@, "assets/tiny_convlstm.safetensors"@)
        }),
{
    let d = TrainConfig::default();
    let loss = match opt_str(args, "--loss") {
        Some(v) => match Loss::parse(v) {
            Some(l) => l,
            None => d.loss,
        },
        None => d.loss,
    };
    TrainConfig {
        seed: flag_u64(args, "--seed", d.seed),
        iterations: flag_u64(args, "--iterations", d.iterations as u64) as usize,
        batch: flag_u64(args, "--batch", d.batch as u64) as usize,
        burn_min: flag_u64(args, "--burn-min", d.burn_min as u64) as usize,
        burn_max: flag_u64(args, "--burn-max", d.burn_max as u64) as usize,
        loss_steps: flag_u64(args, "--loss-steps", d.loss_steps as u64) as usize,
        lr,
        full_bptt: !has_flag(args, "--detach-burn"),
        loss,
        scheduled_sampling_p_max: p_max,
        out: flag_text(args, "--out", d.out),
    }
}

/// The subcommands are called by their names, and by no others.
pub proof fn law_subcommands_are_called_by_name(s: Seq<char>)
    ensures
        Subcommand::named(s) == Some(Subcommand::Run) <==> s == "run"@,
        Subcommand::named(s) == Some(Subcommand::Producer) <==> s == "producer"@,
        Subcommand::named(s) == Some(Subcommand::Request) <==> s == "request"@,
        Subcommand::named(s) == Some(Subcommand::Train) <==> s == "train"@,
        Subcommand::named(s) == Some(Subcommand::Eval) <==> s == "eval"@,
        Subcommand::named(s) == Some(Subcommand::Version) <==> s == "version"@,
{
    law_subcommands_round_trip(Subcommand::Run);
    law_subcommands_round_trip(Subcommand::Producer);
    law_subcommands_round_trip(Subcommand::Request);
    law_subcommands_round_trip(Subcommand::Train);
    law_subcommands_round_trip(Subcommand::Eval);
    law_subcommands_round_trip(Subcommand::Version);
}

/// A flag that gives a number decides it; one that is missing, or gives something else,
/// leaves the default. A flag that gives a text decides it.
pub proof fn law_flags_override_defaults(
    args: Seq<Seq<char>>,
    name: Seq<char>,
    number: u64,
    text: Seq<char>,
)
    ensures
        flag_value(args, name) is None ==> number_or(args, name, number) == number,
        flag_value(args, name) is None ==> text_or(args, name, text) == text,
        flag_value(args, name) matches Some(v) ==> text_or(args, name, text) == v,
        flag_value(args, name) matches Some(v) ==> match parse_unsigned(v, u64::MAX as nat) {
            Some(n) => number_or(args, name, number) == n,
            None => number_or(args, name, number) == number,
        },
{
}

} // verus!
