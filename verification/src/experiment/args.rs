//! The arguments that the orchestrator hands to its child processes.
//!
//! Both ends of the boundary are built and parsed from the same struct.

use vstd::prelude::*;

use crate::experiment::flags::{command_line, entry_for, flag_number, flag_value, has_flag,
    key_before_value, opt_path, opt_str, opt_usize, req_path, req_str, req_usize, words, Entry};
use crate::experiment::flags::{lemma_command_line_append, lemma_entry_for_append, lemma_lookup};
use crate::scene::{law_request_name_round_trips, law_scene_identity_round_trips, Request, SceneId};
use crate::text::{decimal, decimal_text, lemma_parse_of_decimal, quote, quoted, same_text};

verus! {

/// Which state-recovery mechanism a request child uses.
#[derive(Debug, Clone, Copy, PartialEq, Eq, Structural)]
pub enum Mode {
    /// Replay the whole context from scratch.
    Baseline,
    /// Read the exact state bytes from an ordinary file.
    Raw,
    /// Restore the state blob from the store.
    Vole,
}

impl Mode {
    /// The command-line value.
    pub open spec fn text(self) -> Seq<char> {
        match self {
            Mode::Baseline => "baseline"@,
            Mode::Raw => "raw"@,
            Mode::Vole => "vole"@,
        }
    }

    /// The mode that a text names, by exact match.
    pub open spec fn named(s: Seq<char>) -> Option<Mode> {
        if s == "baseline"@ {
            Some(Mode::Baseline)
        } else if s == "raw"@ {
            Some(Mode::Raw)
        } else if s == "vole"@ {
            Some(Mode::Vole)
        } else {
            None
        }
    }

    /// The command-line value.
    pub fn as_str(&self) -> (r: &'static str)
        ensures
            r@ == self.text(),
    {
        match self {
            Mode::Baseline => "baseline",
            Mode::Raw => "raw",
            Mode::Vole => "vole",
        }
    }

    /// The mode with exactly this value.
    pub fn parse(s: &str) -> (r: Option<Mode>)
        ensures
            r == Mode::named(s@),
    {
        if same_text(s, "baseline") {
            Some(Mode::Baseline)
        } else if same_text(s, "raw") {
            Some(Mode::Raw)
        } else if same_text(s, "vole") {
            Some(Mode::Vole)
        } else {
            None
        }
    }
}

/// Every mode parses back from its own value.
pub proof fn law_mode_round_trips(m: Mode)
    ensures
        Mode::named(m.text()) == Some(m),
{
    reveal_strlit("baseline");
    reveal_strlit("raw");
    reveal_strlit("vole");
    assert("baseline"@.len() == 8 && "raw"@.len() == 3 && "vole"@.len() == 4);
}

/// A text, or none.
pub open spec fn opt_text(s: Option<String>) -> Option<Seq<char>> {
    match s {
        Some(t) => Some(t@),
        None => None,
    }
}

/// An optional flag as a list of at most one entry.
pub open spec fn opt_entry(key: Seq<char>, value: Option<Seq<char>>) -> Seq<Entry> {
    match value {
        Some(v) => seq![Entry { key, value: Some(v) }],
        None => Seq::empty(),
    }
}

/// A switch as a list of at most one entry.
pub open spec fn switch_entry(key: Seq<char>, on: bool) -> Seq<Entry> {
    if on {
        seq![Entry { key, value: None }]
    } else {
        Seq::empty()
    }
}

/// A flag with its value.
pub open spec fn pair(key: Seq<char>, value: Seq<char>) -> Entry {
    Entry { key, value: Some(value) }
}

/// The message for a value that names nothing known.
pub open spec fn unknown(flag: Seq<char>, value: Seq<char>) -> Seq<char> {
    "unknown "@ + flag + " "@ + quoted(value)
}

/// The error for a value that names nothing known.
fn unknown_value(flag: &str, value: &str) -> (r: String)
    ensures
        r@ == unknown(flag@, value@),
{
    let mut e: String = String::new();
    e.append("unknown ");
    e.append(flag);
    e.append(" ");
    e.append(quote(value).as_str());
    assert(e@ =~= unknown(flag@, value@));
    e
}

// ---------------------------------------------------------------------------
// Producer
// ---------------------------------------------------------------------------

/// Arguments of a `producer` child.
#[derive(Debug)]
pub struct ProducerArgs {
    /// Run root.
    pub run_dir: String,
    /// Frozen checkpoint.
    pub checkpoint: String,
    /// Scene to watch.
    pub scene: SceneId,
    /// Frames consumed.
    pub context_len: usize,
    /// Write only the raw payload file, and leave the store alone.
    pub skip_entropyfs: bool,
    /// Where to write the child's report.
    pub report: Option<String>,
}

/// [`ProducerArgs`] with its texts as sequences of characters.
pub struct ProducerModel {
    pub run_dir: Seq<char>,
    pub checkpoint: Seq<char>,
    pub scene: SceneId,
    pub context_len: usize,
    pub skip_entropyfs: bool,
    pub report: Option<Seq<char>>,
}

impl View for ProducerArgs {
    type V = ProducerModel;

    open spec fn view(&self) -> ProducerModel {
        ProducerModel {
            run_dir: self.run_dir@,
            checkpoint: self.checkpoint@,
            scene: self.scene,
            context_len: self.context_len,
            skip_entropyfs: self.skip_entropyfs,
            report: opt_text(self.report),
        }
    }
}

impl ProducerModel {
    /// The entries that are always there.
    pub open spec fn fixed_entries(self) -> Seq<Entry> {
        seq![
            Entry { key: "producer"@, value: None },
            pair("--run-dir"@, self.run_dir),
            pair("--checkpoint"@, self.checkpoint),
            pair("--scene"@, self.scene.text()),
            pair("--context"@, decimal(self.context_len as nat)),
        ]
    }

    /// The argument list, entry by entry.
    pub open spec fn entries(self) -> Seq<Entry> {
        self.fixed_entries() + switch_entry("--skip-entropyfs"@, self.skip_entropyfs) + opt_entry(
            "--report"@,
            self.report,
        )
    }

    /// The argument list.
    pub open spec fn line(self) -> Seq<Seq<char>> {
        command_line(self.entries())
    }

    /// What an argument list says to a producer, or what is wrong with it first.
    pub open spec fn parsed(args: Seq<Seq<char>>) -> Result<ProducerModel, Seq<char>> {
        match flag_value(args, "--scene"@) {
            None => Err("missing "@ + "--scene"@),
            Some(s) => match SceneId::named(s) {
                None => Err(unknown("--scene"@, s)),
                Some(scene) => match flag_value(args, "--run-dir"@) {
                    None => Err("missing "@ + "--run-dir"@),
                    Some(run_dir) => match flag_value(args, "--checkpoint"@) {
                        None => Err("missing "@ + "--checkpoint"@),
                        Some(checkpoint) => match flag_number(args, "--context"@) {
                            None => Err("missing or malformed "@ + "--context"@),
                            Some(n) => Ok(
                                ProducerModel {
                                    run_dir,
                                    checkpoint,
                                    scene,
                                    context_len: n as usize,
                                    skip_entropyfs: args.contains("--skip-entropyfs"@),
                                    report: flag_value(args, "--report"@),
                                },
                            ),
                        },
                    },
                },
            },
        }
    }
}

/// Appends one word.
fn word(a: &mut Vec<String>, s: &str)
    ensures
        words(final(a)@) == words(old(a)@).push(s@),
{
    a.push(s.to_owned());
    assert(words(a@) =~= words(old(a)@).push(s@));
}

/// Appends a flag and its value.
fn flag(a: &mut Vec<String>, key: &str, value: &str)
    ensures
        words(final(a)@) == words(old(a)@) + command_line(seq![pair(key@, value@)]),
{
    word(a, key);
    word(a, value);
    proof {
        lemma_one_entry(pair(key@, value@));
        assert(words(a@) =~= words(old(a)@) + seq![key@, value@]);
    }
}

/// Appends a switch, if it is on.
fn switch(a: &mut Vec<String>, key: &str, on: bool)
    ensures
        words(final(a)@) == words(old(a)@) + command_line(switch_entry(key@, on)),
{
    if on {
        word(a, key);
        proof {
            lemma_one_entry(Entry { key: key@, value: None });
        }
    }
    assert(words(a@) =~= words(old(a)@) + command_line(switch_entry(key@, on)));
}

/// Appends an optional flag, if it has a value.
fn optional(a: &mut Vec<String>, key: &str, value: &Option<String>)
    ensures
        words(final(a)@) == words(old(a)@) + command_line(opt_entry(key@, opt_text(*value))),
{
    match value {
        Some(v) => {
            flag(a, key, v.as_str());
        },
        None => {},
    }
    assert(words(a@) =~= words(old(a)@) + command_line(opt_entry(key@, opt_text(*value))));
}

/// The command line of one entry.
proof fn lemma_one_entry(e: Entry)
    ensures
        command_line(seq![e]) == crate::experiment::flags::entry_words(e),
{
    assert(seq![e].drop_first() =~= Seq::<Entry>::empty());
    assert(command_line(Seq::<Entry>::empty()) =~= Seq::<Seq<char>>::empty());
    assert(command_line(seq![e]) =~= crate::experiment::flags::entry_words(e));
}

/// A list of entries with one more at its end.
proof fn lemma_entry_appended(a: Seq<Entry>, e: Entry)
    ensures
        command_line(a.push(e)) == command_line(a) + command_line(seq![e]),
{
    assert(a.push(e) =~= a + seq![e]);
    lemma_command_line_append(a, seq![e]);
}

impl ProducerArgs {
    /// The exact argument list for this child.
    pub fn argv(&self) -> (r: Vec<String>)
        ensures
            words(r@) == self@.line(),
    {
        let mut a: Vec<String> = Vec::new();
        word(&mut a, "producer");
        proof {
            lemma_one_entry(Entry { key: "producer"@, value: None });
            assert(words(a@) =~= command_line(seq![Entry { key: "producer"@, value: None }]));
        }
        let number = decimal_text(self.context_len as u64);
        flag(&mut a, "--run-dir", self.run_dir.as_str());
        flag(&mut a, "--checkpoint", self.checkpoint.as_str());
        flag(&mut a, "--scene", self.scene.as_str());
        flag(&mut a, "--context", number.as_str());
        proof {
            let m = self@;
            let e0 = seq![Entry { key: "producer"@, value: None }];
            let e1 = e0.push(pair("--run-dir"@, m.run_dir));
            let e2 = e1.push(pair("--checkpoint"@, m.checkpoint));
            let e3 = e2.push(pair("--scene"@, m.scene.text()));
            let e4 = e3.push(pair("--context"@, decimal(m.context_len as nat)));
            lemma_entry_appended(e0, pair("--run-dir"@, m.run_dir));
            lemma_entry_appended(e1, pair("--checkpoint"@, m.checkpoint));
            lemma_entry_appended(e2, pair("--scene"@, m.scene.text()));
            lemma_entry_appended(e3, pair("--context"@, decimal(m.context_len as nat)));
            assert(e4 =~= m.fixed_entries());
        }
        switch(&mut a, "--skip-entropyfs", self.skip_entropyfs);
        optional(&mut a, "--report", &self.report);
        proof {
            let f = self@.fixed_entries();
            let s = switch_entry("--skip-entropyfs"@, self.skip_entropyfs);
            lemma_command_line_append(f, s);
            lemma_command_line_append(f + s, opt_entry("--report"@, self@.report));
        }
        a
    }

    /// Parse an argument list. Errors name the offending flag.
    pub fn parse(args: &[String]) -> (r: Result<ProducerArgs, String>)
        ensures
            match r {
                Ok(p) => ProducerModel::parsed(words(args@)) == Ok::<ProducerModel, Seq<char>>(p@),
                Err(e) => ProducerModel::parsed(words(args@)) == Err::<ProducerModel, Seq<char>>(
                    e@,
                ),
            },
    {
        let scene_s = match req_str(args, "--scene") {
            Ok(s) => s,
            Err(e) => return Err(e),
        };
        let scene = match SceneId::parse(scene_s) {
            Some(s) => s,
            None => return Err(unknown_value("--scene", scene_s)),
        };
        let run_dir = match req_path(args, "--run-dir") {
            Ok(s) => s,
            Err(e) => return Err(e),
        };
        let checkpoint = match req_path(args, "--checkpoint") {
            Ok(s) => s,
            Err(e) => return Err(e),
        };
        let context_len: usize = match req_usize(args, "--context") {
            Ok(n) => n,
            Err(e) => return Err(e),
        };
        Ok(
            ProducerArgs {
                run_dir,
                checkpoint,
                scene,
                context_len,
                skip_entropyfs: has_flag(args, "--skip-entropyfs"),
                report: opt_path(args, "--report"),
            },
        )
    }
}

// ---------------------------------------------------------------------------
// Request
// ---------------------------------------------------------------------------

/// Arguments of a `request` child.
#[derive(Debug)]
pub struct RequestArgs {
    /// Run root.
    pub run_dir: String,
    /// Frozen checkpoint.
    pub checkpoint: String,
    /// Recovery mechanism.
    pub mode: Mode,
    /// Scene that the request belongs to.
    pub scene: SceneId,
    /// Scene that the request expects the offered state to belong to. It differs
    /// from `scene` only in the negative case.
    pub expect_scene: SceneId,
    /// Frames that the request believes precede the future.
    pub context_len: usize,
    /// Frames to generate.
    pub future_len: usize,
    /// Which related request.
    pub request: Request,
    /// Measured repetitions.
    pub reps: usize,
    /// Whether to run one discarded repetition first.
    pub warmup: bool,
    /// Where to write the generated frames.
    pub emit: Option<String>,
    /// Blob identifier, on the store path.
    pub vole_blob: Option<String>,
    /// Raw payload file, on the raw path.
    pub raw_file: Option<String>,
    /// Where to write the child's report.
    pub report: Option<String>,
}

/// [`RequestArgs`] with its texts as sequences of characters.
pub struct RequestModel {
    pub run_dir: Seq<char>,
    pub checkpoint: Seq<char>,
    pub mode: Mode,
    pub scene: SceneId,
    pub expect_scene: SceneId,
    pub context_len: usize,
    pub future_len: usize,
    pub request: Request,
    pub reps: usize,
    pub warmup: bool,
    pub emit: Option<Seq<char>>,
    pub vole_blob: Option<Seq<char>>,
    pub raw_file: Option<Seq<char>>,
    pub report: Option<Seq<char>>,
}

impl View for RequestArgs {
    type V = RequestModel;

    open spec fn view(&self) -> RequestModel {
        RequestModel {
            run_dir: self.run_dir@,
            checkpoint: self.checkpoint@,
            mode: self.mode,
            scene: self.scene,
            expect_scene: self.expect_scene,
            context_len: self.context_len,
            future_len: self.future_len,
            request: self.request,
            reps: self.reps,
            warmup: self.warmup,
            emit: opt_text(self.emit),
            vole_blob: opt_text(self.vole_blob),
            raw_file: opt_text(self.raw_file),
            report: opt_text(self.report),
        }
    }
}

impl RequestModel {
    /// The entries that are always there.
    pub open spec fn fixed_entries(self) -> Seq<Entry> {
        seq![
            Entry { key: "request"@, value: None },
            pair("--run-dir"@, self.run_dir),
            pair("--checkpoint"@, self.checkpoint),
            pair("--mode"@, self.mode.text()),
            pair("--scene"@, self.scene.text()),
            pair("--expect-scene"@, self.expect_scene.text()),
            pair("--context"@, decimal(self.context_len as nat)),
            pair("--future"@, decimal(self.future_len as nat)),
            pair("--request"@, self.request.text()),
            pair("--reps"@, decimal(self.reps as nat)),
        ]
    }

    /// The entries that may be left out.
    pub open spec fn optional_entries(self) -> Seq<Entry> {
        switch_entry("--warmup"@, self.warmup) + opt_entry("--emit"@, self.emit) + opt_entry(
            "--vole-blob"@,
            self.vole_blob,
        ) + opt_entry("--raw-file"@, self.raw_file) + opt_entry("--report"@, self.report)
    }

    /// The argument list, entry by entry.
    pub open spec fn entries(self) -> Seq<Entry> {
        self.fixed_entries() + self.optional_entries()
    }

    /// The argument list.
    pub open spec fn line(self) -> Seq<Seq<char>> {
        command_line(self.entries())
    }

    /// The scene that an argument list expects: the one that it names for this, or
    /// the request's own. An unknown name is the error.
    pub open spec fn expected_scene(args: Seq<Seq<char>>, scene: SceneId) -> Result<
        SceneId,
        Seq<char>,
    > {
        match flag_value(args, "--expect-scene"@) {
            None => Ok(scene),
            Some(s) => match SceneId::named(s) {
                None => Err(unknown("--expect-scene"@, s)),
                Some(id) => Ok(id),
            },
        }
    }

    /// What the named values of an argument list come to, or what is wrong with
    /// them first: mode, scene, expected scene and request.
    pub open spec fn parsed_names(args: Seq<Seq<char>>) -> Result<
        (Mode, SceneId, SceneId, Request),
        Seq<char>,
    > {
        match flag_value(args, "--mode"@) {
            None => Err("missing "@ + "--mode"@),
            Some(m) => match Mode::named(m) {
                None => Err(unknown("--mode"@, m)),
                Some(mode) => match flag_value(args, "--scene"@) {
                    None => Err("missing "@ + "--scene"@),
                    Some(s) => match SceneId::named(s) {
                        None => Err(unknown("--scene"@, s)),
                        Some(scene) => match RequestModel::expected_scene(args, scene) {
                            Err(e) => Err(e),
                            Ok(expect) => match flag_value(args, "--request"@) {
                                None => Err("missing "@ + "--request"@),
                                Some(r) => match Request::named(r) {
                                    None => Err(unknown("--request"@, r)),
                                    Some(request) => Ok((mode, scene, expect, request)),
                                },
                            },
                        },
                    },
                },
            },
        }
    }

    /// What an argument list says to a request, or what is wrong with it first. A
    /// missing, malformed or zero repetition count is one.
    pub open spec fn parsed(args: Seq<Seq<char>>) -> Result<RequestModel, Seq<char>> {
        match RequestModel::parsed_names(args) {
            Err(e) => Err(e),
            Ok((mode, scene, expect_scene, request)) => match flag_value(args, "--run-dir"@) {
                None => Err("missing "@ + "--run-dir"@),
                Some(run_dir) => match flag_value(args, "--checkpoint"@) {
                    None => Err("missing "@ + "--checkpoint"@),
                    Some(checkpoint) => match flag_number(args, "--context"@) {
                        None => Err("missing or malformed "@ + "--context"@),
                        Some(context) => match flag_number(args, "--future"@) {
                            None => Err("missing or malformed "@ + "--future"@),
                            Some(future) => Ok(
                                RequestModel {
                                    run_dir,
                                    checkpoint,
                                    mode,
                                    scene,
                                    expect_scene,
                                    context_len: context as usize,
                                    future_len: future as usize,
                                    request,
                                    reps: match flag_number(args, "--reps"@) {
                                        Some(n) => if n > 1 {
                                            n as usize
                                        } else {
                                            1
                                        },
                                        None => 1,
                                    },
                                    warmup: args.contains("--warmup"@),
                                    emit: flag_value(args, "--emit"@),
                                    vole_blob: flag_value(args, "--vole-blob"@),
                                    raw_file: flag_value(args, "--raw-file"@),
                                    report: flag_value(args, "--report"@),
                                },
                            ),
                        },
                    },
                },
            },
        }
    }
}

impl RequestArgs {
    /// The exact argument list for this child.
    pub fn argv(&self) -> (r: Vec<String>)
        ensures
            words(r@) == self@.line(),
    {
        let ghost m = self@;
        let mut a: Vec<String> = Vec::new();
        word(&mut a, "request");
        let ghost mut e: Seq<Entry> = seq![Entry { key: "request"@, value: None }];
        proof {
            lemma_one_entry(e[0]);
            assert(words(a@) =~= command_line(e));
        }
        let context = decimal_text(self.context_len as u64);
        let future = decimal_text(self.future_len as u64);
        let reps = decimal_text(self.reps as u64);
        flag(&mut a, "--run-dir", self.run_dir.as_str());
        proof {
            lemma_entry_appended(e, pair("--run-dir"@, m.run_dir));
            e = e.push(pair("--run-dir"@, m.run_dir));
        }
        flag(&mut a, "--checkpoint", self.checkpoint.as_str());
        proof {
            lemma_entry_appended(e, pair("--checkpoint"@, m.checkpoint));
            e = e.push(pair("--checkpoint"@, m.checkpoint));
        }
        flag(&mut a, "--mode", self.mode.as_str());
        proof {
            lemma_entry_appended(e, pair("--mode"@, m.mode.text()));
            e = e.push(pair("--mode"@, m.mode.text()));
        }
        flag(&mut a, "--scene", self.scene.as_str());
        proof {
            lemma_entry_appended(e, pair("--scene"@, m.scene.text()));
            e = e.push(pair("--scene"@, m.scene.text()));
        }
        flag(&mut a, "--expect-scene", self.expect_scene.as_str());
        proof {
            lemma_entry_appended(e, pair("--expect-scene"@, m.expect_scene.text()));
            e = e.push(pair("--expect-scene"@, m.expect_scene.text()));
        }
        flag(&mut a, "--context", context.as_str());
        proof {
            lemma_entry_appended(e, pair("--context"@, decimal(m.context_len as nat)));
            e = e.push(pair("--context"@, decimal(m.context_len as nat)));
        }
        flag(&mut a, "--future", future.as_str());
        proof {
            lemma_entry_appended(e, pair("--future"@, decimal(m.future_len as nat)));
            e = e.push(pair("--future"@, decimal(m.future_len as nat)));
        }
        flag(&mut a, "--request", self.request.name());
        proof {
            lemma_entry_appended(e, pair("--request"@, m.request.text()));
            e = e.push(pair("--request"@, m.request.text()));
        }
        flag(&mut a, "--reps", reps.as_str());
        proof {
            lemma_entry_appended(e, pair("--reps"@, decimal(m.reps as nat)));
            e = e.push(pair("--reps"@, decimal(m.reps as nat)));
        }
        assert(e =~= m.fixed_entries());
        switch(&mut a, "--warmup", self.warmup);
        optional(&mut a, "--emit", &self.emit);
        optional(&mut a, "--vole-blob", &self.vole_blob);
        optional(&mut a, "--raw-file", &self.raw_file);
        optional(&mut a, "--report", &self.report);
        proof {
            let o1 = switch_entry("--warmup"@, m.warmup);
            let o2 = opt_entry("--emit"@, m.emit);
            let o3 = opt_entry("--vole-blob"@, m.vole_blob);
            let o4 = opt_entry("--raw-file"@, m.raw_file);
            let o5 = opt_entry("--report"@, m.report);
            lemma_command_line_append(e, o1);
            lemma_command_line_append(e + o1, o2);
            lemma_command_line_append(e + o1 + o2, o3);
            lemma_command_line_append(e + o1 + o2 + o3, o4);
            lemma_command_line_append(e + o1 + o2 + o3 + o4, o5);
            assert(e + o1 + o2 + o3 + o4 + o5 =~= m.entries());
        }
        a
    }

    /// Parse an argument list. Errors name the offending flag.
    pub fn parse(args: &[String]) -> (r: Result<RequestArgs, String>)
        ensures
            match r {
                Ok(p) => RequestModel::parsed(words(args@)) == Ok::<RequestModel, Seq<char>>(p@),
                Err(e) => RequestModel::parsed(words(args@)) == Err::<RequestModel, Seq<char>>(e@),
            },
    {
        let mode_s = match req_str(args, "--mode") {
            Ok(s) => s,
            Err(e) => return Err(e),
        };
        let mode = match Mode::parse(mode_s) {
            Some(m) => m,
            None => return Err(unknown_value("--mode", mode_s)),
        };
        let scene_s = match req_str(args, "--scene") {
            Ok(s) => s,
            Err(e) => return Err(e),
        };
        let scene = match SceneId::parse(scene_s) {
            Some(s) => s,
            None => return Err(unknown_value("--scene", scene_s)),
        };
        let expect_scene = match opt_str(args, "--expect-scene") {
            Some(s) => match SceneId::parse(s) {
                Some(id) => id,
                None => return Err(unknown_value("--expect-scene", s)),
            },
            None => scene,
        };
        let request_s = match req_str(args, "--request") {
            Ok(s) => s,
            Err(e) => return Err(e),
        };
        let request = match Request::parse(request_s) {
            Some(r) => r,
            None => return Err(unknown_value("--request", request_s)),
        };
        let run_dir = match req_path(args, "--run-dir") {
            Ok(s) => s,
            Err(e) => return Err(e),
        };
        let checkpoint = match req_path(args, "--checkpoint") {
            Ok(s) => s,
            Err(e) => return Err(e),
        };
        let context_len: usize = match req_usize(args, "--context") {
            Ok(n) => n,
            Err(e) => return Err(e),
        };
        let future_len: usize = match req_usize(args, "--future") {
            Ok(n) => n,
            Err(e) => return Err(e),
        };
        let reps: usize = match opt_usize(args, "--reps") {
            Some(n) => if n > 1 {
                n
            } else {
                1
            },
            None => 1,
        };
        Ok(
            RequestArgs {
                run_dir,
                checkpoint,
                mode,
                scene,
                expect_scene,
                context_len,
                future_len,
                request,
                reps,
                warmup: has_flag(args, "--warmup"),
                emit: opt_path(args, "--emit"),
                vole_blob: opt_path(args, "--vole-blob"),
                raw_file: opt_path(args, "--raw-file"),
                report: opt_path(args, "--report"),
            },
        )
    }
}

// ---------------------------------------------------------------------------
// Laws of the argument contracts
// ---------------------------------------------------------------------------

/// What tells the words of the command lines apart: length and two characters.
pub closed spec fn mark(s: Seq<char>) -> (nat, char, char) {
    (s.len(), s[2], s[3])
}

/// The marks of the words of the command lines, no two of which are equal.
proof fn lemma_marks()
    ensures
        mark("--run-dir"@) == (9nat, 'r', 'u'),
        mark("--checkpoint"@) == (12nat, 'c', 'h'),
        mark("--mode"@) == (6nat, 'm', 'o'),
        mark("--scene"@) == (7nat, 's', 'c'),
        mark("--expect-scene"@) == (14nat, 'e', 'x'),
        mark("--context"@) == (9nat, 'c', 'o'),
        mark("--future"@) == (8nat, 'f', 'u'),
        mark("--request"@) == (9nat, 'r', 'e'),
        mark("--reps"@) == (6nat, 'r', 'e'),
        mark("--warmup"@) == (8nat, 'w', 'a'),
        mark("--emit"@) == (6nat, 'e', 'm'),
        mark("--vole-blob"@) == (11nat, 'v', 'o'),
        mark("--raw-file"@) == (10nat, 'r', 'a'),
        mark("--report"@) == (8nat, 'r', 'e'),
        mark("--skip-entropyfs"@) == (16nat, 's', 'k'),
        mark("producer"@) == (8nat, 'o', 'd'),
        mark("request"@) == (7nat, 'q', 'u'),
{
    reveal_strlit("--run-dir");
    reveal_strlit("--checkpoint");
    reveal_strlit("--mode");
    reveal_strlit("--scene");
    reveal_strlit("--expect-scene");
    reveal_strlit("--context");
    reveal_strlit("--future");
    reveal_strlit("--request");
    reveal_strlit("--reps");
    reveal_strlit("--warmup");
    reveal_strlit("--emit");
    reveal_strlit("--vole-blob");
    reveal_strlit("--raw-file");
    reveal_strlit("--report");
    reveal_strlit("--skip-entropyfs");
    reveal_strlit("producer");
    reveal_strlit("request");
}

/// Looking a key up in a list that holds at most one entry.
proof fn lemma_one_entry_for(key: Seq<char>, value: Option<Seq<char>>, name: Seq<char>)
    ensures
        entry_for(seq![Entry { key, value }], name) == if key == name {
            Some(Entry { key, value })
        } else {
            None
        },
        entry_for(Seq::<Entry>::empty(), name) is None,
{
    assert(seq![Entry { key, value }].drop_first() =~= Seq::<Entry>::empty());
    assert(entry_for(Seq::<Entry>::empty(), name) is None);
}

impl ProducerModel {
    /// The flags that a producer looks up.
    pub open spec fn flags() -> Seq<Seq<char>> {
        seq![
            "--run-dir"@,
            "--checkpoint"@,
            "--scene"@,
            "--context"@,
            "--skip-entropyfs"@,
            "--report"@,
        ]
    }

    /// No text that the arguments carry reads as one of the flags before that
    /// flag stands there itself.
    pub open spec fn unambiguous(self) -> bool {
        forall|k: int|
            0 <= k < 6 ==> key_before_value(self.entries(), #[trigger] ProducerModel::flags()[k])
    }

    /// The entry that each flag leads to.
    proof fn lemma_entries(self, name: Seq<char>)
        ensures
            name == "--run-dir"@ ==> entry_for(self.entries(), name) == Some(
                pair(name, self.run_dir),
            ),
            name == "--checkpoint"@ ==> entry_for(self.entries(), name) == Some(
                pair(name, self.checkpoint),
            ),
            name == "--scene"@ ==> entry_for(self.entries(), name) == Some(
                pair(name, self.scene.text()),
            ),
            name == "--context"@ ==> entry_for(self.entries(), name) == Some(
                pair(name, decimal(self.context_len as nat)),
            ),
            name == "--skip-entropyfs"@ ==> (entry_for(self.entries(), name) is Some)
                == self.skip_entropyfs,
            name == "--report"@ ==> match self.report {
                Some(v) => entry_for(self.entries(), name) == Some(pair(name, v)),
                None => entry_for(self.entries(), name) is None,
            },
    {
        lemma_marks();
        let f = self.fixed_entries();
        let s = switch_entry("--skip-entropyfs"@, self.skip_entropyfs);
        let r = opt_entry("--report"@, self.report);
        lemma_entry_for_append(f + s, r, name);
        lemma_entry_for_append(f, s, name);
        lemma_one_entry_for("--skip-entropyfs"@, None, name);
        if let Some(v) = self.report {
            lemma_one_entry_for("--report"@, Some(v), name);
        } else {
            lemma_one_entry_for("--report"@, None, name);
        }
        let f1 = f.drop_first();
        let f2 = f1.drop_first();
        let f3 = f2.drop_first();
        let f4 = f3.drop_first();
        let f5 = f4.drop_first();
        assert(f[0].key == "producer"@);
        assert(f1[0] == pair("--run-dir"@, self.run_dir));
        assert(f2[0] == pair("--checkpoint"@, self.checkpoint));
        assert(f3[0] == pair("--scene"@, self.scene.text()));
        assert(f4[0] == pair("--context"@, decimal(self.context_len as nat)));
        assert(f5.len() == 0);
        reveal_with_fuel(entry_for, 7);
    }
}

/// A producer's arguments come back from the argument list that they are sent as.
pub proof fn law_producer_arguments_round_trip(p: ProducerModel)
    requires
        p.unambiguous(),
    ensures
        ProducerModel::parsed(p.line()) == Ok::<ProducerModel, Seq<char>>(p),
{
    let fl = ProducerModel::flags();
    assert forall|k: int| 0 <= k < 6 implies key_before_value(p.entries(), #[trigger] fl[k]) by {}
    assert(key_before_value(p.entries(), fl[0]));
    assert(key_before_value(p.entries(), fl[1]));
    assert(key_before_value(p.entries(), fl[2]));
    assert(key_before_value(p.entries(), fl[3]));
    assert(key_before_value(p.entries(), fl[4]));
    assert(key_before_value(p.entries(), fl[5]));
    lemma_lookup(p.entries(), "--run-dir"@);
    lemma_lookup(p.entries(), "--checkpoint"@);
    lemma_lookup(p.entries(), "--scene"@);
    lemma_lookup(p.entries(), "--context"@);
    lemma_lookup(p.entries(), "--skip-entropyfs"@);
    lemma_lookup(p.entries(), "--report"@);
    p.lemma_entries("--run-dir"@);
    p.lemma_entries("--checkpoint"@);
    p.lemma_entries("--scene"@);
    p.lemma_entries("--context"@);
    p.lemma_entries("--skip-entropyfs"@);
    p.lemma_entries("--report"@);
    law_scene_identity_round_trips(p.scene);
    lemma_parse_of_decimal(p.context_len as nat, usize::MAX as nat);
}

impl RequestModel {
    /// The flags that a request looks up.
    pub open spec fn flags() -> Seq<Seq<char>> {
        seq![
            "--run-dir"@,
            "--checkpoint"@,
            "--mode"@,
            "--scene"@,
            "--expect-scene"@,
            "--context"@,
            "--future"@,
            "--request"@,
            "--reps"@,
            "--warmup"@,
            "--emit"@,
            "--vole-blob"@,
            "--raw-file"@,
            "--report"@,
        ]
    }

    /// No text that the arguments carry reads as one of the flags before that
    /// flag stands there itself.
    pub open spec fn unambiguous(self) -> bool {
        forall|k: int|
            0 <= k < 14 ==> key_before_value(self.entries(), #[trigger] RequestModel::flags()[k])
    }

    /// The entry that each fixed flag leads to, and that the optional ones lead to
    /// none of the fixed entries.
    proof fn lemma_fixed(self, name: Seq<char>)
        ensures
            name == "--run-dir"@ ==> entry_for(self.fixed_entries(), name) == Some(pair(name, self.run_dir)),
            name == "--checkpoint"@ ==> entry_for(self.fixed_entries(), name) == Some(pair(name, self.checkpoint)),
            name == "--mode"@ ==> entry_for(self.fixed_entries(), name) == Some(pair(name, self.mode.text())),
            name == "--scene"@ ==> entry_for(self.fixed_entries(), name) == Some(pair(name, self.scene.text())),
            name == "--expect-scene"@ ==> entry_for(self.fixed_entries(), name) == Some(pair(name, self.expect_scene.text())),
            name == "--context"@ ==> entry_for(self.fixed_entries(), name) == Some(pair(name, decimal(self.context_len as nat))),
            name == "--future"@ ==> entry_for(self.fixed_entries(), name) == Some(pair(name, decimal(self.future_len as nat))),
            name == "--request"@ ==> entry_for(self.fixed_entries(), name) == Some(pair(name, self.request.text())),
            name == "--reps"@ ==> entry_for(self.fixed_entries(), name) == Some(pair(name, decimal(self.reps as nat))),
            name == "--warmup"@ || name == "--emit"@ || name == "--vole-blob"@ || name == "--raw-file"@
                || name == "--report"@ ==> entry_for(self.fixed_entries(), name) is None,
    {
        lemma_marks();
        let f = self.fixed_entries();
        let f1 = f.drop_first();
        let f2 = f1.drop_first();
        let f3 = f2.drop_first();
        let f4 = f3.drop_first();
        let f5 = f4.drop_first();
        let f6 = f5.drop_first();
        let f7 = f6.drop_first();
        let f8 = f7.drop_first();
        let f9 = f8.drop_first();
        let f10 = f9.drop_first();
        assert(f[0].key == "request"@);
        assert(f1[0] == pair("--run-dir"@, self.run_dir));
        assert(f2[0] == pair("--checkpoint"@, self.checkpoint));
        assert(f3[0] == pair("--mode"@, self.mode.text()));
        assert(f4[0] == pair("--scene"@, self.scene.text()));
        assert(f5[0] == pair("--expect-scene"@, self.expect_scene.text()));
        assert(f6[0] == pair("--context"@, decimal(self.context_len as nat)));
        assert(f7[0] == pair("--future"@, decimal(self.future_len as nat)));
        assert(f8[0] == pair("--request"@, self.request.text()));
        assert(f9[0] == pair("--reps"@, decimal(self.reps as nat)));
        assert(f10.len() == 0);
        reveal_with_fuel(entry_for, 12);
    }

    /// The entry that each optional flag leads to.
    proof fn lemma_optional(self, name: Seq<char>)
        ensures
            name == "--warmup"@ ==> (entry_for(self.optional_entries(), name) is Some)
                == self.warmup,
            name == "--emit"@ ==> match self.emit {
                Some(v) => entry_for(self.optional_entries(), name) == Some(pair(name, v)),
                None => entry_for(self.optional_entries(), name) is None,
            },
            name == "--vole-blob"@ ==> match self.vole_blob {
                Some(v) => entry_for(self.optional_entries(), name) == Some(pair(name, v)),
                None => entry_for(self.optional_entries(), name) is None,
            },
            name == "--raw-file"@ ==> match self.raw_file {
                Some(v) => entry_for(self.optional_entries(), name) == Some(pair(name, v)),
                None => entry_for(self.optional_entries(), name) is None,
            },
            name == "--report"@ ==> match self.report {
                Some(v) => entry_for(self.optional_entries(), name) == Some(pair(name, v)),
                None => entry_for(self.optional_entries(), name) is None,
            },
    {
        lemma_marks();
        let o1 = switch_entry("--warmup"@, self.warmup);
        let o2 = opt_entry("--emit"@, self.emit);
        let o3 = opt_entry("--vole-blob"@, self.vole_blob);
        let o4 = opt_entry("--raw-file"@, self.raw_file);
        let o5 = opt_entry("--report"@, self.report);
        lemma_entry_for_append(o1 + o2 + o3 + o4, o5, name);
        lemma_entry_for_append(o1 + o2 + o3, o4, name);
        lemma_entry_for_append(o1 + o2, o3, name);
        lemma_entry_for_append(o1, o2, name);
        lemma_one_entry_for("--warmup"@, None, name);
        lemma_one_entry_for("--emit"@, self.emit, name);
        lemma_one_entry_for("--vole-blob"@, self.vole_blob, name);
        lemma_one_entry_for("--raw-file"@, self.raw_file, name);
        lemma_one_entry_for("--report"@, self.report, name);
    }
}

/// A request's arguments come back from the argument list that they are sent as,
/// given at least one repetition.
pub proof fn law_request_arguments_round_trip(p: RequestModel)
    requires
        p.unambiguous(),
        p.reps >= 1,
    ensures
        RequestModel::parsed(p.line()) == Ok::<RequestModel, Seq<char>>(p),
{
    let fl = RequestModel::flags();
    assert forall|k: int| 0 <= k < 14 implies ({
        let name = #[trigger] fl[k];
        &&& match entry_for(p.entries(), name) {
            Some(e) => e.value is Some ==> flag_value(p.line(), name) == e.value,
            None => flag_value(p.line(), name) is None,
        }
        &&& p.line().contains(name) == (entry_for(p.entries(), name) is Some)
    }) by {
        assert(key_before_value(p.entries(), RequestModel::flags()[k]));
        lemma_lookup(p.entries(), fl[k]);
    }
    assert forall|name: Seq<char>| #[trigger] entry_for(p.entries(), name) == match entry_for(
        p.fixed_entries(),
        name,
    ) {
        Some(e) => Some(e),
        None => entry_for(p.optional_entries(), name),
    } by {
        lemma_entry_for_append(p.fixed_entries(), p.optional_entries(), name);
    }
    assert(fl[0] == "--run-dir"@);
    p.lemma_fixed("--run-dir"@);
    assert(fl[1] == "--checkpoint"@);
    p.lemma_fixed("--checkpoint"@);
    assert(fl[2] == "--mode"@);
    p.lemma_fixed("--mode"@);
    assert(fl[3] == "--scene"@);
    p.lemma_fixed("--scene"@);
    assert(fl[4] == "--expect-scene"@);
    p.lemma_fixed("--expect-scene"@);
    assert(fl[5] == "--context"@);
    p.lemma_fixed("--context"@);
    assert(fl[6] == "--future"@);
    p.lemma_fixed("--future"@);
    assert(fl[7] == "--request"@);
    p.lemma_fixed("--request"@);
    assert(fl[8] == "--reps"@);
    p.lemma_fixed("--reps"@);
    assert(fl[9] == "--warmup"@);
    p.lemma_fixed("--warmup"@);
    p.lemma_optional("--warmup"@);
    assert(fl[10] == "--emit"@);
    p.lemma_fixed("--emit"@);
    p.lemma_optional("--emit"@);
    assert(fl[11] == "--vole-blob"@);
    p.lemma_fixed("--vole-blob"@);
    p.lemma_optional("--vole-blob"@);
    assert(fl[12] == "--raw-file"@);
    p.lemma_fixed("--raw-file"@);
    p.lemma_optional("--raw-file"@);
    assert(fl[13] == "--report"@);
    p.lemma_fixed("--report"@);
    p.lemma_optional("--report"@);
    law_mode_round_trips(p.mode);
    law_scene_identity_round_trips(p.scene);
    law_scene_identity_round_trips(p.expect_scene);
    law_request_name_round_trips(p.request);
    lemma_parse_of_decimal(p.context_len as nat, usize::MAX as nat);
    lemma_parse_of_decimal(p.future_len as nat, usize::MAX as nat);
    lemma_parse_of_decimal(p.reps as nat, usize::MAX as nat);
}

// ---------------------------------------------------------------------------
// What the flags mean
// ---------------------------------------------------------------------------

/// The three recovery paths are called by their names, and by no others.
pub proof fn law_modes_are_called_by_name(s: Seq<char>)
    ensures
        Mode::named(s) == Some(Mode::Baseline) <==> s == "baseline"@,
        Mode::named(s) == Some(Mode::Raw) <==> s == "raw"@,
        Mode::named(s) == Some(Mode::Vole) <==> s == "vole"@,
        Mode::Baseline.text() == "baseline"@,
        Mode::Raw.text() == "raw"@,
        Mode::Vole.text() == "vole"@,
{
    law_mode_round_trips(Mode::Baseline);
    law_mode_round_trips(Mode::Raw);
    law_mode_round_trips(Mode::Vole);
}

/// What a request process does is what its flags say, each by its own name. The scene that
/// it expects is the scene that it watches unless another is named, and it repeats at least
/// once.
pub proof fn law_request_is_what_its_flags_say(args: Seq<Seq<char>>)
    ensures
        RequestModel::parsed(args) matches Ok(r) ==> {
            &&& flag_value(args, "--mode"@) == Some(r.mode.text())
            &&& flag_value(args, "--scene"@) == Some(r.scene.text())
            &&& flag_value(args, "--request"@) == Some(r.request.text())
            &&& flag_value(args, "--run-dir"@) == Some(r.run_dir)
            &&& flag_value(args, "--checkpoint"@) == Some(r.checkpoint)
            &&& (match flag_value(args, "--expect-scene"@) {
                Some(s) => s == r.expect_scene.text(),
                None => r.expect_scene == r.scene,
            })
            &&& flag_number(args, "--context"@) matches Some(n) && r.context_len == n as usize
            &&& flag_number(args, "--future"@) matches Some(n) && r.future_len == n as usize
            &&& r.reps >= 1
            &&& flag_number(args, "--reps"@) is None ==> r.reps == 1
            &&& (flag_number(args, "--reps"@) matches Some(n) ==> n > 1 ==> r.reps == n as usize)
            &&& r.warmup <==> args.contains("--warmup"@)
            &&& r.emit == flag_value(args, "--emit"@)
            &&& r.vole_blob == flag_value(args, "--vole-blob"@)
            &&& r.raw_file == flag_value(args, "--raw-file"@)
            &&& r.report == flag_value(args, "--report"@)
        },
        RequestModel::parsed(args) is Ok <==> {
            &&& flag_value(args, "--mode"@) matches Some(m) && Mode::named(m) is Some
            &&& flag_value(args, "--scene"@) matches Some(s) && SceneId::named(s) is Some
            &&& (flag_value(args, "--expect-scene"@) matches Some(s) ==> SceneId::named(s) is Some)
            &&& flag_value(args, "--request"@) matches Some(q) && Request::named(q) is Some
            &&& flag_value(args, "--run-dir"@) is Some
            &&& flag_value(args, "--checkpoint"@) is Some
            &&& flag_number(args, "--context"@) is Some
            &&& flag_number(args, "--future"@) is Some
        },
{
    if let Some(m) = flag_value(args, "--mode"@) {
        law_modes_are_called_by_name(m);
    }
    crate::experiment::flags::lemma_numbers_fit(args, "--reps"@);
}

/// What a producer process does is what its flags say, each by its own name.
pub proof fn law_producer_is_what_its_flags_say(args: Seq<Seq<char>>)
    ensures
        ProducerModel::parsed(args) matches Ok(p) ==> {
            &&& flag_value(args, "--scene"@) == Some(p.scene.text())
            &&& flag_value(args, "--run-dir"@) == Some(p.run_dir)
            &&& flag_value(args, "--checkpoint"@) == Some(p.checkpoint)
            &&& flag_number(args, "--context"@) matches Some(n) && p.context_len == n as usize
            &&& p.skip_entropyfs <==> args.contains("--skip-entropyfs"@)
            &&& p.report == flag_value(args, "--report"@)
        },
        ProducerModel::parsed(args) is Ok <==> {
            &&& flag_value(args, "--scene"@) matches Some(s) && SceneId::named(s) is Some
            &&& flag_value(args, "--run-dir"@) is Some
            &&& flag_value(args, "--checkpoint"@) is Some
            &&& flag_number(args, "--context"@) is Some
        },
{
}

} // verus!
