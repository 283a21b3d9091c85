//! The child processes of a demonstration, in the order in which they run.
//!
//! The producer is the first of them, and every other process runs after it has
//! exited.

use vstd::prelude::*;

use crate::experiment::args::{Mode, ProducerArgs, ProducerModel, RequestArgs, RequestModel};
use crate::experiment::child::default_threads;
use crate::experiment::flags::words;
use crate::experiment::paths::{join, joined, Paths, DEFAULT_CHECKPOINT, DEFAULT_RUN_DIR};
use crate::scene::{Request, SceneId};
use crate::text::{decimal, push_decimal};

verus! {

/// Frames that earn a state, by default.
pub const DEFAULT_CONTEXT: usize = 256;

/// Frames generated per request, by default.
pub const DEFAULT_FUTURE: usize = 16;

/// Measured repetitions, which one discarded repetition precedes.
pub const TIMING_REPS: usize = 5;

/// How many related requests the points of the reuse sweep ask for.
pub const N_POINTS: [usize; 5] = [1, 2, 4, 8, 16];

/// The recovery mechanisms, in the order in which they are run.
pub const MODES: [Mode; 3] = [Mode::Baseline, Mode::Raw, Mode::Vole];

/// Options of a whole demonstration.
#[derive(Debug)]
pub struct RunOptions {
    /// Run root.
    pub run_dir: String,
    /// Frozen checkpoint.
    pub checkpoint: String,
    /// Frames consumed.
    pub context_len: usize,
    /// Frames generated per request.
    pub future_len: usize,
    /// Threads pinned for children; zero leaves the default.
    pub threads: usize,
    /// Whether the run directory is deleted before the run.
    pub clean: bool,
}

impl RunOptions {
    /// The default options on a machine with this many threads, if that is known.
    pub fn default_for(available: Option<usize>) -> (r: RunOptions)
        ensures
            r.run_dir@ == "run"@,
            r.checkpoint@ == "assets/tiny_convlstm.safetensors"@,
            r.context_len == 256,
            r.future_len == 16,
            r.threads == match available {
                Some(n) => if n < 1 {
                    1
                } else if n > 4 {
                    4
                } else {
                    n
                },
                None => 1,
            },
            r.clean,
    {
        RunOptions {
            run_dir: DEFAULT_RUN_DIR.to_owned(),
            checkpoint: DEFAULT_CHECKPOINT.to_owned(),
            context_len: DEFAULT_CONTEXT,
            future_len: DEFAULT_FUTURE,
            threads: default_threads(available),
            clean: true,
        }
    }
}

/// One child process of a demonstration.
#[derive(Debug, Clone, Copy, PartialEq, Eq, Structural)]
pub enum Job {
    /// Earn the canonical state and persist it.
    Producer,
    /// Generate one of the four compared futures.
    Identity { request: Request, mode: Mode },
    /// Time the phases of a request; the repetition with number zero is discarded.
    Timing { mode: Mode, rep: usize },
    /// Clock a whole request process; the one with number zero is discarded.
    EndToEnd { mode: Mode, rep: usize },
    /// Clock a whole producer process; the one with number zero is discarded.
    ProducerTiming { skip_store: bool, rep: usize },
    /// A discarded process before the sweep.
    SweepWarmup { mode: Mode },
    /// Request `index` of the sweep point for `n` requests.
    Sweep { n: usize, index: usize, mode: Mode },
    /// Ask for the unrelated scene, and offer the canonical state.
    NegativeOffered,
    /// Ask for the unrelated scene, and offer nothing.
    NegativeBaseline,
}

// ---------------------------------------------------------------------------
// The order
// ---------------------------------------------------------------------------

/// Four requests in each of three modes.
pub open spec fn identity_jobs() -> Seq<Job> {
    Seq::new(
        12,
        |k: int| Job::Identity { request: Request::MONTAGE@[k / 3], mode: MODES@[k % 3] },
    )
}

/// For each mode, the phase timings and after them the clocked processes.
pub open spec fn timing_jobs() -> Seq<Job> {
    Seq::new(
        36,
        |k: int|
            if k % 12 < 6 {
                Job::Timing { mode: MODES@[k / 12], rep: (k % 12) as usize }
            } else {
                Job::EndToEnd { mode: MODES@[k / 12], rep: (k % 12 - 6) as usize }
            },
    )
}

/// The clocked producers: with the store, and after them without.
pub open spec fn producer_jobs() -> Seq<Job> {
    Seq::new(12, |k: int| Job::ProducerTiming { skip_store: k >= 6, rep: (k % 6) as usize })
}

/// One discarded process for each mode.
pub open spec fn warmup_jobs() -> Seq<Job> {
    Seq::new(3, |k: int| Job::SweepWarmup { mode: MODES@[k] })
}

/// The processes of the sweep point for `n` requests.
pub open spec fn point_jobs(n: usize) -> Seq<Job> {
    Seq::new(
        3 * n as nat,
        |k: int| Job::Sweep { n, index: (k / 3) as usize, mode: MODES@[k % 3] },
    )
}

/// The processes of a sweep.
pub open spec fn sweep_jobs(points: Seq<usize>) -> Seq<Job>
    decreases points.len(),
{
    if points.len() == 0 {
        Seq::empty()
    } else {
        sweep_jobs(points.drop_last()) + point_jobs(points.last())
    }
}

/// Every child process of a demonstration, in order.
pub open spec fn full_plan() -> Seq<Job> {
    seq![Job::Producer] + identity_jobs() + timing_jobs() + producer_jobs() + warmup_jobs()
        + sweep_jobs(N_POINTS@) + seq![Job::NegativeOffered, Job::NegativeBaseline]
}

/// Appends the compared futures.
fn push_identity(out: &mut Vec<Job>)
    ensures
        final(out)@ == old(out)@ + identity_jobs(),
{
    let mut k: usize = 0;
    assert(out@ =~= old(out)@ + identity_jobs().take(0));
    while k < 12
        invariant
            k <= 12,
            out@ == old(out)@ + identity_jobs().take(k as int),
        decreases 12 - k,
    {
        out.push(Job::Identity { request: Request::MONTAGE[k / 3], mode: MODES[k % 3] });
        assert(identity_jobs().take(k + 1) =~= identity_jobs().take(k as int).push(
            identity_jobs()[k as int],
        ));
        assert(out@ =~= old(out)@ + identity_jobs().take(k + 1));
        k = k + 1;
    }
    assert(identity_jobs().take(12) =~= identity_jobs());
}

/// Appends the timings.
fn push_timing(out: &mut Vec<Job>)
    ensures
        final(out)@ == old(out)@ + timing_jobs(),
{
    let mut k: usize = 0;
    assert(out@ =~= old(out)@ + timing_jobs().take(0));
    while k < 36
        invariant
            k <= 36,
            out@ == old(out)@ + timing_jobs().take(k as int),
        decreases 36 - k,
    {
        let mode = MODES[k / 12];
        let rep: usize = k % 12;
        if rep < 6 {
            out.push(Job::Timing { mode, rep });
        } else {
            out.push(Job::EndToEnd { mode, rep: rep - 6 });
        }
        assert(timing_jobs().take(k + 1) =~= timing_jobs().take(k as int).push(
            timing_jobs()[k as int],
        ));
        assert(out@ =~= old(out)@ + timing_jobs().take(k + 1));
        k = k + 1;
    }
    assert(timing_jobs().take(36) =~= timing_jobs());
}

/// Appends the clocked producers.
fn push_producers(out: &mut Vec<Job>)
    ensures
        final(out)@ == old(out)@ + producer_jobs(),
{
    let mut k: usize = 0;
    assert(out@ =~= old(out)@ + producer_jobs().take(0));
    while k < 12
        invariant
            k <= 12,
            out@ == old(out)@ + producer_jobs().take(k as int),
        decreases 12 - k,
    {
        out.push(Job::ProducerTiming { skip_store: k >= 6, rep: k % 6 });
        assert(producer_jobs().take(k + 1) =~= producer_jobs().take(k as int).push(
            producer_jobs()[k as int],
        ));
        assert(out@ =~= old(out)@ + producer_jobs().take(k + 1));
        k = k + 1;
    }
    assert(producer_jobs().take(12) =~= producer_jobs());
}

/// Appends the processes of one sweep point.
fn push_point(out: &mut Vec<Job>, n: usize)
    requires
        3 * n <= usize::MAX,
    ensures
        final(out)@ == old(out)@ + point_jobs(n),
{
    let mut k: usize = 0;
    assert(out@ =~= old(out)@ + point_jobs(n).take(0));
    while k < 3 * n
        invariant
            k <= 3 * n <= usize::MAX,
            out@ == old(out)@ + point_jobs(n).take(k as int),
        decreases 3 * n - k,
    {
        out.push(Job::Sweep { n, index: k / 3, mode: MODES[k % 3] });
        assert(point_jobs(n).take(k + 1) =~= point_jobs(n).take(k as int).push(
            point_jobs(n)[k as int],
        ));
        assert(out@ =~= old(out)@ + point_jobs(n).take(k + 1));
        k = k + 1;
    }
    assert(point_jobs(n).take(3 * n) =~= point_jobs(n));
}

/// Every child process of a demonstration, in order.
pub fn plan() -> (r: Vec<Job>)
    ensures
        r@ == full_plan(),
{
    let mut out: Vec<Job> = Vec::new();
    out.push(Job::Producer);
    assert(out@ =~= seq![Job::Producer]);
    push_identity(&mut out);
    push_timing(&mut out);
    push_producers(&mut out);
    let ghost head = out@;
    out.push(Job::SweepWarmup { mode: MODES[0] });
    out.push(Job::SweepWarmup { mode: MODES[1] });
    out.push(Job::SweepWarmup { mode: MODES[2] });
    assert(out@ =~= head + warmup_jobs());
    let ghost before = out@;
    let points = N_POINTS;
    let mut p: usize = 0;
    assert(points@.take(0) =~= Seq::<usize>::empty());
    assert(out@ =~= before + sweep_jobs(points@.take(0)));
    while p < 5
        invariant
            p <= 5,
            points == N_POINTS,
            out@ == before + sweep_jobs(points@.take(p as int)),
        decreases 5 - p,
    {
        let ghost earlier = out@;
        assert(points@[p as int] <= 16);
        push_point(&mut out, points[p]);
        proof {
            assert(points@.take(p + 1).drop_last() =~= points@.take(p as int));
            assert(points@.take(p + 1).last() == points@[p as int]);
            assert(out@ =~= before + sweep_jobs(points@.take(p + 1)));
        }
        p = p + 1;
    }
    assert(points@.take(5) =~= points@);
    out.push(Job::NegativeOffered);
    out.push(Job::NegativeBaseline);
    assert(out@ =~= full_plan());
    out
}

/// A sweep runs three processes for each of its requests.
proof fn lemma_sweep_len(points: Seq<usize>)
    requires
        points == N_POINTS@,
    ensures
        sweep_jobs(points).len() == 93,
{
    let p = points;
    let p4 = p.drop_last();
    let p3 = p4.drop_last();
    let p2 = p3.drop_last();
    let p1 = p2.drop_last();
    assert(p1.drop_last() =~= Seq::<usize>::empty());
    assert(sweep_jobs(p1.drop_last()).len() == 0);
    assert(p1.last() == 1 && p2.last() == 2 && p3.last() == 4 && p4.last() == 8 && p.last() == 16);
    assert(sweep_jobs(p1).len() == 3);
    assert(sweep_jobs(p2).len() == 9);
    assert(sweep_jobs(p3).len() == 21);
    assert(sweep_jobs(p4).len() == 45);
}

/// A demonstration runs 159 processes, and the producer is the first and the only
/// one that earns the canonical state into the store.
pub proof fn law_plan_size()
    ensures
        full_plan().len() == 159,
        full_plan()[0] == Job::Producer,
        forall|i: int| 0 < i < 159 ==> #[trigger] full_plan()[i] != Job::Producer,
{
    lemma_sweep_len(N_POINTS@);
    lemma_sweep_is_sweep(N_POINTS@);
}

/// Nothing but sweep processes is in a sweep.
proof fn lemma_sweep_is_sweep(points: Seq<usize>)
    ensures
        forall|i: int| 0 <= i < sweep_jobs(points).len() ==> #[trigger] sweep_jobs(points)[i] is Sweep,
    decreases points.len(),
{
    if points.len() > 0 {
        lemma_sweep_is_sweep(points.drop_last());
    }
}

// ---------------------------------------------------------------------------
// What each process is told
// ---------------------------------------------------------------------------

/// The scene whose state is earned.
pub fn canonical_scene() -> (r: SceneId)
    ensures
        r == SceneId::MovingShape01,
{
    SceneId::MovingShape01
}

/// The scene of the negative case.
pub fn unrelated_scene() -> (r: SceneId)
    ensures
        r == SceneId::MovingShape02,
{
    SceneId::MovingShape02
}

/// Where a report of this name goes.
pub open spec fn report_path(root: Seq<char>, name: Seq<char>) -> Seq<char> {
    joined(joined(root, "reports"@), name)
}

/// A request process that serves one request and reports on its output alone.
pub open spec fn plain_request(
    opts: RunOptions,
    blob: Seq<char>,
    mode: Mode,
    scene: SceneId,
    request: Request,
) -> RequestModel {
    RequestModel {
        run_dir: opts.run_dir@,
        checkpoint: opts.checkpoint@,
        mode,
        scene,
        expect_scene: scene,
        context_len: opts.context_len,
        future_len: opts.future_len,
        request,
        reps: 1,
        warmup: false,
        emit: None,
        vole_blob: if mode == Mode::Vole {
            Some(blob)
        } else {
            None
        },
        raw_file: if mode == Mode::Raw {
            Some(joined(opts.run_dir@, "raw_state.bin"@))
        } else {
            None
        },
        report: None,
    }
}

/// Where the frames of a compared future go.
pub open spec fn future_path(root: Seq<char>, request: Request, mode: Mode) -> Seq<char> {
    joined(joined(root, "futures"@), mode.text() + "_"@ + request.text() + ".f32"@)
}

/// The name of the report of a numbered repetition.
pub open spec fn rep_name(prefix: Seq<char>, mode: Mode, rep: nat) -> Seq<char> {
    prefix + mode.text() + "-"@ + decimal(rep) + ".json"@
}

/// The arguments of a child process: a producer's or a request's.
pub enum CommandModel {
    Producer(ProducerModel),
    Request(RequestModel),
}

impl Job {
    /// What this process is told, once the canonical blob is known.
    pub open spec fn told(self, opts: RunOptions, blob: Seq<char>) -> CommandModel {
        let root = opts.run_dir@;
        let one = SceneId::MovingShape01;
        let two = SceneId::MovingShape02;
        match self {
            Job::Producer => CommandModel::Producer(
                ProducerModel {
                    run_dir: root,
                    checkpoint: opts.checkpoint@,
                    scene: one,
                    context_len: opts.context_len,
                    skip_entropyfs: false,
                    report: Some(report_path(root, "producer-canonical.json"@)),
                },
            ),
            Job::Identity { request, mode } => CommandModel::Request(
                RequestModel {
                    emit: Some(future_path(root, request, mode)),
                    report: Some(
                        report_path(
                            root,
                            "identity-"@ + request.text() + "-"@ + mode.text() + ".json"@,
                        ),
                    ),
                    ..plain_request(opts, blob, mode, one, request)
                },
            ),
            Job::Timing { mode, rep } => CommandModel::Request(
                RequestModel {
                    reps: 5,
                    warmup: true,
                    report: Some(report_path(root, rep_name("timing-"@, mode, rep as nat))),
                    ..plain_request(opts, blob, mode, one, Request::TurnLeft)
                },
            ),
            Job::EndToEnd { mode, rep } => CommandModel::Request(
                RequestModel {
                    report: Some(report_path(root, rep_name("e2e-"@, mode, rep as nat))),
                    ..plain_request(opts, blob, mode, one, Request::TurnLeft)
                },
            ),
            Job::ProducerTiming { skip_store, rep } => CommandModel::Producer(
                ProducerModel {
                    run_dir: joined(
                        joined(root, "timing"@),
                        "producer-"@ + producer_label(skip_store) + "-"@ + decimal(rep as nat),
                    ),
                    checkpoint: opts.checkpoint@,
                    scene: one,
                    context_len: opts.context_len,
                    skip_entropyfs: skip_store,
                    report: None,
                },
            ),
            Job::SweepWarmup { mode } => CommandModel::Request(
                plain_request(opts, blob, mode, one, Request::Continue),
            ),
            Job::Sweep { index, mode, .. } => CommandModel::Request(
                plain_request(opts, blob, mode, one, Request::ALL@[index as int % 6]),
            ),
            Job::NegativeOffered => CommandModel::Request(
                RequestModel {
                    report: Some(report_path(root, "negative-offered.json"@)),
                    ..plain_request(opts, blob, Mode::Vole, two, Request::Continue)
                },
            ),
            Job::NegativeBaseline => CommandModel::Request(
                RequestModel {
                    report: Some(report_path(root, "negative-baseline.json"@)),
                    ..plain_request(opts, blob, Mode::Baseline, two, Request::Continue)
                },
            ),
        }
    }
}

/// How a clocked producer is labelled.
pub open spec fn producer_label(skip_store: bool) -> Seq<char> {
    if skip_store {
        "raw"@
    } else {
        "vole"@
    }
}

/// How a clocked producer is labelled.
pub fn label_of(skip_store: bool) -> (r: &'static str)
    ensures
        r@ == producer_label(skip_store),
{
    if skip_store {
        "raw"
    } else {
        "vole"
    }
}

/// The arguments of a child process: a producer's or a request's.
#[derive(Debug)]
pub enum Command {
    Producer(ProducerArgs),
    Request(RequestArgs),
}

impl View for Command {
    type V = CommandModel;

    open spec fn view(&self) -> CommandModel {
        match self {
            Command::Producer(a) => CommandModel::Producer(a@),
            Command::Request(a) => CommandModel::Request(a@),
        }
    }
}

impl Command {
    /// The exact argument list.
    pub fn argv(&self) -> (r: Vec<String>)
        ensures
            words(r@) == match self@ {
                CommandModel::Producer(p) => p.line(),
                CommandModel::Request(p) => p.line(),
            },
    {
        match self {
            Command::Producer(a) => a.argv(),
            Command::Request(a) => a.argv(),
        }
    }
}

/// The path of a report.
fn report_at(opts: &RunOptions, name: String) -> (r: Option<String>)
    ensures
        r matches Some(p) && p@ == report_path(opts.run_dir@, name@),
{
    let base = join(opts.run_dir.as_str(), "reports");
    Some(join(base.as_str(), name.as_str()))
}

/// The report name of a numbered repetition.
fn rep_file(prefix: &str, mode: Mode, rep: usize) -> (r: String)
    ensures
        r@ == rep_name(prefix@, mode, rep as nat),
{
    let mut s: String = prefix.to_owned();
    s.append(mode.as_str());
    s.append("-");
    push_decimal(&mut s, rep as u64);
    s.append(".json");
    s
}

/// Where the frames of a compared future go.
pub fn future_file(opts: &RunOptions, request: Request, mode: Mode) -> (r: String)
    ensures
        r@ == future_path(opts.run_dir@, request, mode),
{
    let mut s: String = mode.as_str().to_owned();
    s.append("_");
    s.append(request.name());
    s.append(".f32");
    let base = join(opts.run_dir.as_str(), "futures");
    join(base.as_str(), s.as_str())
}

/// A request process that serves one request.
fn plain(opts: &RunOptions, blob: &str, mode: Mode, scene: SceneId, request: Request) -> (r:
    RequestArgs)
    ensures
        r@ == plain_request(*opts, blob@, mode, scene, request),
{
    RequestArgs {
        run_dir: opts.run_dir.clone(),
        checkpoint: opts.checkpoint.clone(),
        mode,
        scene,
        expect_scene: scene,
        context_len: opts.context_len,
        future_len: opts.future_len,
        request,
        reps: 1,
        warmup: false,
        emit: None,
        vole_blob: if mode == Mode::Vole {
            Some(blob.to_owned())
        } else {
            None
        },
        raw_file: if mode == Mode::Raw {
            Some(join(opts.run_dir.as_str(), "raw_state.bin"))
        } else {
            None
        },
        report: None,
    }
}

impl Job {
    /// What this process is told. The canonical blob's identifier matters to the
    /// processes that restore it, all of which follow the producer.
    pub fn command(&self, opts: &RunOptions, blob: &str) -> (r: Command)
        ensures
            r@ == self.told(*opts, blob@),
    {
        let one = canonical_scene();
        let two = unrelated_scene();
        match self {
            Job::Producer => Command::Producer(
                ProducerArgs {
                    run_dir: opts.run_dir.clone(),
                    checkpoint: opts.checkpoint.clone(),
                    scene: one,
                    context_len: opts.context_len,
                    skip_entropyfs: false,
                    report: report_at(opts, "producer-canonical.json".to_owned()),
                },
            ),
            Job::Identity { request, mode } => {
                let mut name: String = "identity-".to_owned();
                name.append(request.name());
                name.append("-");
                name.append(mode.as_str());
                name.append(".json");
                Command::Request(
                    RequestArgs {
                        emit: Some(future_file(opts, *request, *mode)),
                        report: report_at(opts, name),
                        ..plain(opts, blob, *mode, one, *request)
                    },
                )
            },
            Job::Timing { mode, rep } => Command::Request(
                RequestArgs {
                    reps: TIMING_REPS,
                    warmup: true,
                    report: report_at(opts, rep_file("timing-", *mode, *rep)),
                    ..plain(opts, blob, *mode, one, Request::TurnLeft)
                },
            ),
            Job::EndToEnd { mode, rep } => Command::Request(
                RequestArgs {
                    report: report_at(opts, rep_file("e2e-", *mode, *rep)),
                    ..plain(opts, blob, *mode, one, Request::TurnLeft)
                },
            ),
            Job::ProducerTiming { skip_store, rep } => {
                let mut name: String = "producer-".to_owned();
                name.append(label_of(*skip_store));
                name.append("-");
                push_decimal(&mut name, *rep as u64);
                let paths = Paths::new(opts.run_dir.clone());
                Command::Producer(
                    ProducerArgs {
                        run_dir: paths.timing_dir(name.as_str()),
                        checkpoint: opts.checkpoint.clone(),
                        scene: one,
                        context_len: opts.context_len,
                        skip_entropyfs: *skip_store,
                        report: None,
                    },
                )
            },
            Job::SweepWarmup { mode } => Command::Request(
                plain(opts, blob, *mode, one, Request::Continue),
            ),
            Job::Sweep { n: _, index, mode } => Command::Request(
                plain(opts, blob, *mode, one, Request::ALL[*index % 6]),
            ),
            Job::NegativeOffered => Command::Request(
                RequestArgs {
                    report: report_at(opts, "negative-offered.json".to_owned()),
                    ..plain(opts, blob, Mode::Vole, two, Request::Continue)
                },
            ),
            Job::NegativeBaseline => Command::Request(
                RequestArgs {
                    report: report_at(opts, "negative-baseline.json".to_owned()),
                    ..plain(opts, blob, Mode::Baseline, two, Request::Continue)
                },
            ),
        }
    }
}

/// Only restoring processes are told of the blob, and only raw ones of the raw
/// file: a request that replays is offered nothing.
pub proof fn law_offers_follow_the_mode(job: Job, opts: RunOptions, blob: Seq<char>)
    ensures
        job.told(opts, blob) matches CommandModel::Request(r) ==> {
            &&& r.vole_blob is Some <==> r.mode == Mode::Vole
            &&& r.raw_file is Some <==> r.mode == Mode::Raw
            &&& r.expect_scene == r.scene
        },
{
}

/// What a process of the plan is told. All run in the run's directory on its checkpoint, with
/// its lengths. All watch the canonical scene but those of the negative case, which watch the
/// other. Only the timed ones repeat, five times after a warm-up, only the compared ones write
/// their frames, the store's blob is offered to restoring processes and the raw file to raw
/// ones, and the negative case offers the canonical state to the request that restores.
pub proof fn law_what_a_process_is_told(job: Job, opts: RunOptions, blob: Seq<char>)
    ensures
        job.told(opts, blob) matches CommandModel::Request(r) ==> {
            &&& r.run_dir == opts.run_dir@
            &&& r.checkpoint == opts.checkpoint@
            &&& r.context_len == opts.context_len
            &&& r.future_len == opts.future_len
            &&& (job is NegativeOffered || job is NegativeBaseline) ==> r.scene
                == SceneId::MovingShape02
            &&& !(job is NegativeOffered || job is NegativeBaseline) ==> r.scene
                == SceneId::MovingShape01
            &&& r.expect_scene == r.scene
            &&& r.warmup <==> job is Timing
            &&& job is Timing ==> r.reps == 5
            &&& !(job is Timing) ==> r.reps == 1
            &&& r.emit is Some <==> job is Identity
            &&& r.vole_blob == if r.mode == Mode::Vole {
                Some(blob)
            } else {
                None
            }
            &&& r.raw_file is Some <==> r.mode == Mode::Raw
            &&& (match job {
                Job::Identity { request, mode } => r.request == request && r.mode == mode,
                Job::Timing { mode, .. } => r.request == Request::TurnLeft && r.mode == mode,
                Job::EndToEnd { mode, .. } => r.request == Request::TurnLeft && r.mode == mode,
                Job::SweepWarmup { mode } => r.request == Request::Continue && r.mode == mode,
                Job::Sweep { index, mode, .. } => r.request == Request::ALL@[index as int % 6]
                    && r.mode == mode,
                Job::NegativeOffered => r.request == Request::Continue && r.mode == Mode::Vole,
                Job::NegativeBaseline => r.request == Request::Continue && r.mode
                    == Mode::Baseline,
                _ => false,
            })
        },
        job.told(opts, blob) matches CommandModel::Producer(p) ==> {
            &&& p.checkpoint == opts.checkpoint@
            &&& p.scene == SceneId::MovingShape01
            &&& p.context_len == opts.context_len
            &&& (match job {
                Job::Producer => p.run_dir == opts.run_dir@ && !p.skip_entropyfs,
                Job::ProducerTiming { skip_store, .. } => p.skip_entropyfs == skip_store,
                _ => false,
            })
        },
        job.told(opts, blob) is Producer <==> job is Producer || job is ProducerTiming,
{
}

/// Where the processes of a run leave their files: the raw state beside the store, and every
/// compared future in its own file, by its path and its request.
pub proof fn law_where_files_are_left(
    opts: RunOptions,
    blob: Seq<char>,
    request: Request,
    mode: Mode,
)
    requires
        opts.run_dir@.len() > 0,
        opts.run_dir@.last() != '/',
    ensures
        (Job::Identity { request, mode }).told(opts, blob) matches CommandModel::Request(r) && {
            &&& r.emit == Some(
                opts.run_dir@ + "/"@ + "futures"@ + "/"@ + (mode.text() + "_"@ + request.text()
                    + ".f32"@),
            )
            &&& mode == Mode::Raw ==> r.raw_file == Some(opts.run_dir@ + "/"@ + "raw_state.bin"@)
        },
{
    reveal_strlit("futures");
    reveal_strlit("raw_state.bin");
    reveal_strlit("baseline");
    reveal_strlit("raw");
    reveal_strlit("vole");
    let name = mode.text() + "_"@ + request.text() + ".f32"@;
    assert(name[0] == mode.text()[0]);
    let dir = opts.run_dir@ + "/"@ + "futures"@;
    assert(dir.last() == 's');
    assert(joined(opts.run_dir@, "futures"@) == dir);
    assert(joined(dir, name) == dir + "/"@ + name);
}

} // verus!
