//! From the plan to the evidence: which reply a process of each job gives, what the run makes
//! of it, and where a run stands that has followed the plan.

use vstd::prelude::*;

use crate::demo::distinct::texts;
use crate::demo::gates::{all_ok, facts, gate_list, law_a_pass_is_the_evidence};
use crate::demo::identity::{compares, law_verdict_is_that_of_every_request, tallied, IdentityLog};
use crate::demo::negative::is_negative_info;
use crate::demo::plan::{full_plan, identity_jobs, point_jobs, producer_jobs, producer_label,
    sweep_jobs, timing_jobs, warmup_jobs, Job, MODES, N_POINTS};
use crate::demo::reuse::{requests_in, rotation, ReusePoint};
use crate::demo::run::{accepted, accountable, clock_noted, comparison_noted, cost, fresh,
    future_noted, negative_noted, producer_clock_noted, sweep_noted, table_is_numbers, timing_noted,
    DemoRun};
use crate::demo::sweep::{agreed_all, clash, law_programs_collide_pairwise, law_repeats_agree_pairwise,
    noted_all, same_kind, Emission};
use crate::experiment::args::Mode;
use crate::experiment::frames::payload_of;
use crate::experiment::producer::ProducerReport;
use crate::experiment::request::RequestReport;
use crate::experiment::stats::is_nan;
use crate::experiment::timing::PhaseTiming;
use crate::model::work::WorkTotals;
use crate::scene::Request;
use crate::text::decimal;

verus! {

/// The frame files of a request, one of each path.
#[derive(Debug)]
pub struct FutureFiles {
    /// Of the replaying path.
    pub baseline: Vec<u8>,
    /// Of the raw path.
    pub raw: Vec<u8>,
    /// Of the restoring path.
    pub vole: Vec<u8>,
}

/// What a process that finished leaves to the run.
#[derive(Debug)]
pub enum Reply {
    /// The canonical producer's report, the process id that it was assigned, and whether
    /// its process entry is gone.
    Earned { producer: ProducerReport, os_pid: u32, proc_gone: Option<bool> },
    /// The report on a compared future, and the frame files once all paths have written
    /// theirs.
    Future { report: RequestReport, files: Option<FutureFiles> },
    /// The report on timed phases, and its timing table.
    Timed { report: RequestReport, table: Option<Vec<PhaseTiming>> },
    /// The wall time of a request process.
    Clocked { wall: u64 },
    /// The state that a clocked producer earned, its wall time and its timing table.
    EarnedAgain { earned: String, wall: u64, table: Option<Vec<PhaseTiming>> },
    /// Nothing that counts.
    Discarded,
    /// The hash of a sweep output, and the wall time of its process.
    Swept { hash: String, wall: u64 },
    /// A report of the negative case.
    Answered { report: RequestReport },
}

/// A reply is one that a process of the job gives. The files of a request are complete with
/// its restoring path, which is the last.
pub open spec fn fits(job: Job, reply: Reply) -> bool {
    match (job, reply) {
        (Job::Producer, Reply::Earned { .. }) => true,
        (Job::Identity { mode, .. }, Reply::Future { files, .. }) => files is Some <==> mode
            == Mode::Vole,
        (Job::Timing { .. }, Reply::Timed { .. }) => true,
        (Job::EndToEnd { .. }, Reply::Clocked { .. }) => true,
        (Job::ProducerTiming { .. }, Reply::EarnedAgain { .. }) => true,
        (Job::SweepWarmup { .. }, Reply::Discarded) => true,
        (Job::Sweep { .. }, Reply::Swept { .. }) => true,
        (Job::NegativeOffered, Reply::Answered { .. }) => true,
        (Job::NegativeBaseline, Reply::Answered { .. }) => true,
        _ => false,
    }
}

/// Every time in a reply is a number.
pub open spec fn numbers(reply: Reply) -> bool {
    match reply {
        Reply::Timed { table, .. } => table_is_numbers(table),
        Reply::Clocked { wall } => !is_nan(wall),
        Reply::EarnedAgain { wall, table, .. } => !is_nan(wall) && table_is_numbers(table),
        _ => true,
    }
}

/// A run knows what a job's reply is held against.
pub open spec fn ready(run: DemoRun, job: Job) -> bool {
    match job {
        Job::Identity { .. } => run.producer is Some,
        Job::ProducerTiming { .. } => run.producer is Some,
        Job::Sweep { n, index, .. } => run.producer_vole is Some && run.producer_raw is Some
            && index < n,
        Job::NegativeBaseline => run.offered is Some,
        _ => true,
    }
}

/// Nothing speaks against going on: the canonical producer is the process that was started,
/// earned a finite state and is gone, and a measured producer earned the canonical state.
pub open spec fn sound(run: DemoRun, job: Job, reply: Reply) -> bool {
    match (job, reply) {
        (Job::Producer, Reply::Earned { producer, os_pid, proc_gone }) => producer.pid
            == os_pid && producer.state_finite && proc_gone != Some(false),
        (Job::ProducerTiming { rep, .. }, Reply::EarnedAgain { earned, .. }) => rep == 0
            || earned@ == run.producer->0.state_hash@,
        _ => true,
    }
}

/// Why a run does not go on.
pub open spec fn objection(run: DemoRun, job: Job, reply: Reply) -> Seq<char> {
    match (job, reply) {
        (Job::Producer, Reply::Earned { producer, os_pid, .. }) => if producer.pid != os_pid {
            "producer reported pid "@ + decimal(producer.pid as nat) + " but the OS assigned "@
                + decimal(os_pid as nat)
        } else if !producer.state_finite {
            "the earned state contains a non-finite value"@
        } else {
            "producer pid "@ + decimal(producer.pid as nat)
                + " still has a /proc entry after wait()"@
        },
        (Job::ProducerTiming { skip_store, .. }, Reply::EarnedAgain { earned, .. }) =>
            producer_label(skip_store) + " timing producer earned state "@ + earned@
                + " != canonical "@ + run.producer->0.state_hash@,
        _ => Seq::empty(),
    }
}

/// What a run becomes with the reply of a job's process.
pub open spec fn took<
    F: Fn(u64, u64) -> u64,
    S: Fn(&Vec<u64>) -> u64,
    P: Fn(u64, u64) -> u64,
>(before: DemoRun, after: DemoRun, job: Job, reply: Reply, mean: F, sum: S, plus: P) -> bool {
    match (job, reply) {
        (Job::Producer, Reply::Earned { producer, proc_gone, .. }) => after == (DemoRun {
            producer: Some(producer),
            proc_gone,
            ..before
        }),
        (Job::Identity { request, mode }, Reply::Future { report, files }) => match files {
            None => future_noted(before, after, mode, report),
            Some(f) => exists|mid: DemoRun|
                {
                    &&& #[trigger] future_noted(before, mid, mode, report)
                    &&& comparison_noted(mid, after, request, f.baseline@, f.raw@, f.vole@)
                },
        },
        (Job::Timing { mode, rep }, Reply::Timed { report, table }) => timing_noted(
            before,
            after,
            mode,
            rep,
            table,
            report,
        ),
        (Job::EndToEnd { mode, rep }, Reply::Clocked { wall }) => clock_noted(
            before,
            after,
            mode,
            rep,
            wall,
            mean,
        ),
        (Job::ProducerTiming { skip_store, rep }, Reply::EarnedAgain { wall, table, .. }) =>
            producer_clock_noted(before, after, skip_store, rep, wall, table, mean),
        (Job::SweepWarmup { .. }, Reply::Discarded) => after == before,
        (Job::Sweep { n, index, mode }, Reply::Swept { hash, wall }) => sweep_noted(
            before,
            after,
            n,
            index,
            mode,
            wall,
            hash@,
            sum,
            plus,
        ),
        (Job::NegativeOffered, Reply::Answered { report }) => after == (DemoRun {
            offered: Some(report),
            ..before
        }),
        (Job::NegativeBaseline, Reply::Answered { report }) => negative_noted(
            before,
            after,
            report,
        ),
        _ => false,
    }
}

impl DemoRun {
    /// A process of a job has left its reply, with `mean` for the mean of two times, `sum`
    /// for the sum of a list and `plus` for the sum of two.
    pub fn take<
        F: Fn(u64, u64) -> u64 + Copy,
        S: Fn(&Vec<u64>) -> u64,
        P: Fn(u64, u64) -> u64,
    >(&mut self, job: &Job, reply: Reply, mean: F, sum: S, plus: P) -> (r: Result<(), String>)
        requires
            old(self).wf(),
            ready(*old(self), *job),
            fits(*job, reply),
            numbers(reply),
            forall|a: u64, b: u64| call_requires(mean, (a, b)),
            forall|v: &Vec<u64>| call_requires(sum, (v,)),
            forall|a: u64, b: u64| call_requires(plus, (a, b)),
        ensures
            final(self).wf(),
            r is Ok <==> sound(*old(self), *job, reply),
            r is Ok ==> took(*old(self), *final(self), *job, reply, mean, sum, plus),
            r matches Err(e) ==> *final(self) == *old(self) && e@ == objection(
                *old(self),
                *job,
                reply,
            ),
    {
        match (*job, reply) {
            (Job::Producer, Reply::Earned { producer, os_pid, proc_gone }) => {
                self.producer_done(producer, os_pid, proc_gone)
            },
            (Job::Identity { request, mode }, Reply::Future { report, files }) => {
                self.future_done(mode, &report);
                let ghost mid = *self;
                match files {
                    Some(f) => {
                        self.compared(
                            request,
                            f.baseline.as_slice(),
                            f.raw.as_slice(),
                            f.vole.as_slice(),
                        );
                        assert(future_noted(*old(self), mid, mode, report));
                    },
                    None => {},
                }
                Ok(())
            },
            (Job::Timing { mode, rep }, Reply::Timed { report, table }) => {
                self.timing_done(mode, rep, table, report);
                Ok(())
            },
            (Job::EndToEnd { mode, rep }, Reply::Clocked { wall }) => {
                self.clocked(mode, rep, wall, mean);
                Ok(())
            },
            (Job::ProducerTiming { skip_store, rep }, Reply::EarnedAgain { earned, wall, table }) => {
                self.producer_clocked(skip_store, rep, earned.as_str(), wall, table, mean)
            },
            (Job::Sweep { n, index, mode }, Reply::Swept { hash, wall }) => {
                self.swept(n, index, mode, wall, hash, sum, plus);
                Ok(())
            },
            (Job::NegativeOffered, Reply::Answered { report }) => {
                self.negative_offered(report);
                Ok(())
            },
            (Job::NegativeBaseline, Reply::Answered { report }) => {
                self.negative_done(&report);
                Ok(())
            },
            _ => Ok(()),
        }
    }
}

// ---------------------------------------------------------------------------
// Where a run stands
// ---------------------------------------------------------------------------

/// A process of a job was accepted, and the reply that it gave was taken.
pub open spec fn stepped<
    F: Fn(u64, u64) -> u64,
    S: Fn(&Vec<u64>) -> u64,
    P: Fn(u64, u64) -> u64,
>(
    before: DemoRun,
    after: DemoRun,
    job: Job,
    pid: u32,
    reply: Reply,
    mean: F,
    sum: S,
    plus: P,
) -> bool {
    &&& fits(job, reply)
    &&& exists|mid: DemoRun|
        {
            &&& #[trigger] accepted(before, mid, job, pid)
            &&& took(mid, after, job, reply, mean, sum, plus)
        }
}

/// The point of the sweep that its process number `s` belongs to.
pub open spec fn point_of(s: int) -> int {
    if s < 3 {
        0
    } else if s < 9 {
        1
    } else if s < 21 {
        2
    } else if s < 45 {
        3
    } else if s < 93 {
        4
    } else {
        5
    }
}

/// The number of the first process of a point.
pub open spec fn point_start(p: int) -> int {
    if p <= 0 {
        0
    } else if p == 1 {
        3
    } else if p == 2 {
        9
    } else if p == 3 {
        21
    } else if p == 4 {
        45
    } else {
        93
    }
}

/// A finished point for `n` requests: one wall time of each path for each of them, and the
/// costs of the clocked producers.
pub open spec fn whole_point(pt: ReusePoint, n: usize, run: DemoRun) -> bool {
    &&& pt.n == n
    &&& texts(pt.requests@) == rotation(n as nat)
    &&& pt.baseline_per_request_ms@.len() == n
    &&& pt.raw_per_request_ms@.len() == n
    &&& pt.vole_per_request_ms@.len() == n
    &&& pt.vole_producer_ms == cost(run.producer_vole)
    &&& pt.raw_producer_ms == cost(run.producer_raw)
}

/// The sweep after its first `s` processes: the points before the current one are whole,
/// and the three paths take turns in the current one.
pub open spec fn swept_to(s: int, run: DemoRun) -> bool {
    let p = point_of(s);
    let k = s - point_start(p);
    &&& run.points@.len() == p
    &&& forall|j: int| 0 <= j < p ==> whole_point(#[trigger] run.points@[j], N_POINTS@[j], run)
    &&& run.baseline.sweep@.len() == (k + 2) / 3
    &&& run.raw.sweep@.len() == (k + 1) / 3
    &&& run.vole.sweep@.len() == k / 3
    &&& run.hashes@.len() == (k + 2) / 3
}

/// Compared requests after the first `i` processes of the plan.
pub open spec fn compared_by(i: int) -> int {
    if i < 1 {
        0
    } else if i < 13 {
        (i - 1) / 3
    } else {
        4
    }
}

/// Clocked modes after the first `i` processes of the plan.
pub open spec fn clocked_by(i: int) -> int {
    if i < 25 {
        0
    } else if i < 37 {
        1
    } else if i < 49 {
        2
    } else {
        3
    }
}

/// Sweep processes among the first `i` processes of the plan.
pub open spec fn swept_by(i: int) -> int {
    if i < 64 {
        0
    } else if i < 157 {
        i - 64
    } else {
        93
    }
}

/// Where a run stands after the first `i` processes of the plan, if the canonical producer
/// reported `p`.
pub open spec fn reached(i: int, run: DemoRun, p: ProducerReport) -> bool {
    &&& run.verified == i
    &&& i >= 1 ==> run.producer == Some(p)
    &&& run.identity.requests@.len() == compared_by(i)
    &&& i >= 15 ==> run.baseline.first is Some
    &&& i >= 27 ==> run.raw.first is Some
    &&& i >= 39 ==> run.vole.first is Some
    &&& run.end_to_end@.len() == clocked_by(i)
    &&& i >= 55 ==> run.producer_vole is Some
    &&& i >= 61 ==> run.producer_raw is Some
    &&& swept_to(swept_by(i), run)
    &&& i == 158 ==> run.offered is Some
    &&& i >= 159 ==> run.negative is Some
}

/// Process `s` of the sweep.
proof fn lemma_sweep_at(s: int)
    requires
        0 <= s < 93,
    ensures
        ({
            let p = point_of(s);
            let k = s - point_start(p);
            &&& sweep_jobs(N_POINTS@).len() == 93
            &&& sweep_jobs(N_POINTS@)[s] == Job::Sweep {
                n: N_POINTS@[p],
                index: (k / 3) as usize,
                mode: MODES@[k % 3],
            }
            &&& 0 <= k < 3 * N_POINTS@[p]
        }),
{
    let p5 = N_POINTS@;
    let p4 = p5.drop_last();
    let p3 = p4.drop_last();
    let p2 = p3.drop_last();
    let p1 = p2.drop_last();
    assert(p1.drop_last() =~= Seq::<usize>::empty());
    assert(p1.last() == 1 && p2.last() == 2 && p3.last() == 4 && p4.last() == 8 && p5.last() == 16);
    assert(sweep_jobs(p1.drop_last()) =~= Seq::<Job>::empty());
    assert(sweep_jobs(p1) =~= point_jobs(1));
    assert(sweep_jobs(p2) == sweep_jobs(p1) + point_jobs(2));
    assert(sweep_jobs(p3) == sweep_jobs(p2) + point_jobs(4));
    assert(sweep_jobs(p4) == sweep_jobs(p3) + point_jobs(8));
    assert(sweep_jobs(p5) == sweep_jobs(p4) + point_jobs(16));
    assert(N_POINTS@[0] == 1 && N_POINTS@[1] == 2 && N_POINTS@[2] == 4 && N_POINTS@[3] == 8
        && N_POINTS@[4] == 16);
}

/// Process `i` of the plan.
proof fn lemma_plan_at(i: int)
    requires
        0 <= i < 159,
    ensures
        full_plan().len() == 159,
        i == 0 ==> full_plan()[i] == Job::Producer,
        1 <= i < 13 ==> full_plan()[i] == identity_jobs()[i - 1],
        13 <= i < 49 ==> full_plan()[i] == timing_jobs()[i - 13],
        49 <= i < 61 ==> full_plan()[i] == producer_jobs()[i - 49],
        61 <= i < 64 ==> full_plan()[i] == warmup_jobs()[i - 61],
        64 <= i < 157 ==> full_plan()[i] == sweep_jobs(N_POINTS@)[i - 64],
        i == 157 ==> full_plan()[i] == Job::NegativeOffered,
        i == 158 ==> full_plan()[i] == Job::NegativeBaseline,
{
    lemma_sweep_at(0);
}

/// The three modes, in their order.
proof fn lemma_modes()
    ensures
        MODES@[0] == Mode::Baseline,
        MODES@[1] == Mode::Raw,
        MODES@[2] == Mode::Vole,
{
}

/// What a job's reply is held against is known when its turn comes.
proof fn lemma_ready(i: int, run: DemoRun, p: ProducerReport)
    requires
        0 <= i < 159,
        reached(i, run, p),
    ensures
        ready(run, full_plan()[i]),
{
    lemma_plan_at(i);
    if 64 <= i < 157 {
        lemma_sweep_at(i - 64);
    }
}

/// A step of the plan before the sweep.
proof fn lemma_early_step<
    F: Fn(u64, u64) -> u64,
    S: Fn(&Vec<u64>) -> u64,
    P: Fn(u64, u64) -> u64,
>(
    i: int,
    before: DemoRun,
    after: DemoRun,
    p: ProducerReport,
    pid: u32,
    reply: Reply,
    mean: F,
    sum: S,
    plus: P,
)
    requires
        0 <= i < 64,
        reached(i, before, p),
        stepped(before, after, full_plan()[i], pid, reply, mean, sum, plus),
        i == 0 ==> (reply matches Reply::Earned { producer, .. } && producer == p),
    ensures
        reached(i + 1, after, p),
{
    lemma_plan_at(i);
    lemma_modes();
    let job = full_plan()[i];
    let mid = choose|mid: DemoRun|
        {
            &&& #[trigger] accepted(before, mid, job, pid)
            &&& took(mid, after, job, reply, mean, sum, plus)
        };
    assert(mid.verified == i + 1);
    assert(swept_to(0, mid));
    assert(mid.log(Mode::Baseline) == mid.baseline && mid.log(Mode::Raw) == mid.raw && mid.log(
        Mode::Vole,
    ) == mid.vole);
    assert(after.log(Mode::Baseline) == after.baseline && after.log(Mode::Raw) == after.raw
        && after.log(Mode::Vole) == after.vole);
    if 1 <= i < 13 {
        let k = i - 1;
        let mode = MODES@[k % 3];
        assert(job == Job::Identity { request: Request::MONTAGE@[k / 3], mode });
        assert(mode == Mode::Vole <==> k % 3 == 2);
    } else if 13 <= i < 49 {
        let k = i - 13;
        let mode = MODES@[k / 12];
        if k % 12 < 6 {
            assert(job == Job::Timing { mode, rep: (k % 12) as usize });
        } else {
            assert(job == Job::EndToEnd { mode, rep: (k % 12 - 6) as usize });
        }
    } else if 49 <= i < 61 {
        let k = i - 49;
        assert(job == Job::ProducerTiming { skip_store: k >= 6, rep: (k % 6) as usize });
    }
    assert(swept_to(0, after));
}

/// A step of the sweep.
proof fn lemma_sweep_step<
    F: Fn(u64, u64) -> u64,
    S: Fn(&Vec<u64>) -> u64,
    P: Fn(u64, u64) -> u64,
>(
    i: int,
    before: DemoRun,
    after: DemoRun,
    p: ProducerReport,
    pid: u32,
    reply: Reply,
    mean: F,
    sum: S,
    plus: P,
)
    requires
        64 <= i < 157,
        reached(i, before, p),
        stepped(before, after, full_plan()[i], pid, reply, mean, sum, plus),
    ensures
        reached(i + 1, after, p),
{
    lemma_plan_at(i);
    lemma_modes();
    let s = i - 64;
    lemma_sweep_at(s);
    let job = full_plan()[i];
    let q = point_of(s);
    let k = s - point_start(q);
    let (n, index, mode) = (N_POINTS@[q], (k / 3) as usize, MODES@[k % 3]);
    assert(job == Job::Sweep { n, index, mode });
    let mid = choose|mid: DemoRun|
        {
            &&& #[trigger] accepted(before, mid, job, pid)
            &&& took(mid, after, job, reply, mean, sum, plus)
        };
    assert(N_POINTS@[0] == 1 && N_POINTS@[1] == 2 && N_POINTS@[2] == 4 && N_POINTS@[3] == 8
        && N_POINTS@[4] == 16);
    assert(after.log(Mode::Baseline) == after.baseline && after.log(Mode::Raw) == after.raw
        && after.log(Mode::Vole) == after.vole);
    assert(mid.log(Mode::Baseline) == mid.baseline && mid.log(Mode::Raw) == mid.raw && mid.log(
        Mode::Vole,
    ) == mid.vole);
    assert(texts(after.hashes@).len() == after.hashes@.len());
    assert(texts(mid.hashes@).len() == mid.hashes@.len());
    let ends = index + 1 == n && mode == Mode::Vole;
    assert(ends <==> k + 1 == 3 * n);
    if ends {
        assert(point_of(s + 1) == q + 1 && point_start(q + 1) == s + 1);
        assert forall|j: int| 0 <= j < q + 1 implies whole_point(
            #[trigger] after.points@[j],
            N_POINTS@[j],
            after,
        ) by {
            if j < q {
                assert(after.points@[j] == after.points@.drop_last()[j]);
                assert(whole_point(before.points@[j], N_POINTS@[j], before));
            }
        }
    } else {
        assert(point_of(s + 1) == q);
        assert forall|j: int| 0 <= j < q implies whole_point(
            #[trigger] after.points@[j],
            N_POINTS@[j],
            after,
        ) by {
            assert(whole_point(before.points@[j], N_POINTS@[j], before));
        }
    }
    assert(swept_to(s + 1, after));
}

/// A step of the plan after the sweep.
proof fn lemma_late_step<
    F: Fn(u64, u64) -> u64,
    S: Fn(&Vec<u64>) -> u64,
    P: Fn(u64, u64) -> u64,
>(
    i: int,
    before: DemoRun,
    after: DemoRun,
    p: ProducerReport,
    pid: u32,
    reply: Reply,
    mean: F,
    sum: S,
    plus: P,
)
    requires
        157 <= i < 159,
        reached(i, before, p),
        stepped(before, after, full_plan()[i], pid, reply, mean, sum, plus),
    ensures
        reached(i + 1, after, p),
{
    lemma_plan_at(i);
    let job = full_plan()[i];
    let mid = choose|mid: DemoRun|
        {
            &&& #[trigger] accepted(before, mid, job, pid)
            &&& took(mid, after, job, reply, mean, sum, plus)
        };
    assert forall|j: int| 0 <= j < 5 implies whole_point(
        #[trigger] after.points@[j],
        N_POINTS@[j],
        after,
    ) by {
        assert(whole_point(before.points@[j], N_POINTS@[j], before));
    }
}

/// Every process of the plan steps from one entry of `runs` to the next, where the run is
/// ready for it.
pub open spec fn follows_plan<
    F: Fn(u64, u64) -> u64,
    S: Fn(&Vec<u64>) -> u64,
    P: Fn(u64, u64) -> u64,
>(
    runs: Seq<DemoRun>,
    pids: Seq<u32>,
    replies: Seq<Reply>,
    mean: F,
    sum: S,
    plus: P,
) -> bool {
    &&& runs.len() == 160
    &&& fresh(runs[0])
    &&& forall|i: int|
        0 <= i < 159 && ready(#[trigger] runs[i], full_plan()[i]) ==> stepped(
            runs[i],
            runs[i + 1],
            full_plan()[i],
            pids[i],
            replies[i],
            mean,
            sum,
            plus,
        )
}

/// Where a run stands that follows the plan.
proof fn lemma_reached<
    F: Fn(u64, u64) -> u64,
    S: Fn(&Vec<u64>) -> u64,
    P: Fn(u64, u64) -> u64,
>(
    runs: Seq<DemoRun>,
    pids: Seq<u32>,
    replies: Seq<Reply>,
    p: ProducerReport,
    mean: F,
    sum: S,
    plus: P,
    i: int,
)
    requires
        follows_plan(runs, pids, replies, mean, sum, plus),
        replies[0] matches Reply::Earned { producer, .. } && producer == p,
        0 <= i <= 159,
    ensures
        reached(i, runs[i], p),
    decreases i,
{
    if i == 0 {
        assert(runs[0].log(Mode::Baseline) == runs[0].baseline && runs[0].log(Mode::Raw)
            == runs[0].raw && runs[0].log(Mode::Vole) == runs[0].vole);
    } else {
        lemma_reached(runs, pids, replies, p, mean, sum, plus, i - 1);
        lemma_ready(i - 1, runs[i - 1], p);
        let (a, b) = (runs[i - 1], runs[i - 1 + 1]);
        if i - 1 < 64 {
            lemma_early_step(i - 1, a, b, p, pids[i - 1], replies[i - 1], mean, sum, plus);
        } else if i - 1 < 157 {
            lemma_sweep_step(i - 1, a, b, p, pids[i - 1], replies[i - 1], mean, sum, plus);
        } else {
            lemma_late_step(i - 1, a, b, p, pids[i - 1], replies[i - 1], mean, sum, plus);
        }
    }
}

/// The requests of the five points together.
proof fn lemma_all_requests(points: Seq<ReusePoint>)
    requires
        points.len() == 5,
        forall|j: int| 0 <= j < 5 ==> (#[trigger] points[j]).n == N_POINTS@[j],
    ensures
        requests_in(points) == 31,
{
    assert(N_POINTS@[0] == 1 && N_POINTS@[1] == 2 && N_POINTS@[2] == 4 && N_POINTS@[3] == 8
        && N_POINTS@[4] == 16);
    let p4 = points.drop_last();
    let p3 = p4.drop_last();
    let p2 = p3.drop_last();
    let p1 = p2.drop_last();
    assert(requests_in(p1.drop_last()) == 0);
    assert(p1.last() == points[0] && requests_in(p1) == 1);
    assert(p2.last() == points[1] && requests_in(p2) == 3);
    assert(p3.last() == points[2] && requests_in(p3) == 7);
    assert(p4.last() == points[3] && requests_in(p4) == 15);
}

/// The plan leads to the evidence: a run that takes the reply of one process after the other
/// is ready for each of them, and in the end for its evidence. It has verified every process,
/// compared the four futures, clocked the three modes and both kinds of producers, answered
/// the negative case, has a report of every mode, and its sweep has the points for 1, 2, 4, 8
/// and 16 requests.
pub proof fn law_plan_leads_to_the_evidence<
    F: Fn(u64, u64) -> u64,
    S: Fn(&Vec<u64>) -> u64,
    P: Fn(u64, u64) -> u64,
>(
    runs: Seq<DemoRun>,
    pids: Seq<u32>,
    replies: Seq<Reply>,
    p: ProducerReport,
    mean: F,
    sum: S,
    plus: P,
)
    requires
        follows_plan(runs, pids, replies, mean, sum, plus),
        replies[0] matches Reply::Earned { producer, .. } && producer == p,
    ensures
        forall|i: int| 0 <= i < 159 ==> ready(#[trigger] runs[i], full_plan()[i]),
        forall|i: int| 0 <= i <= 159 ==> (#[trigger] runs[i]).verified == i,
        ({
            let last = runs[159];
            &&& last.producer == Some(p)
            &&& last.negative is Some
            &&& last.producer_vole is Some
            &&& last.producer_raw is Some
            &&& last.baseline.first is Some && last.raw.first is Some && last.vole.first is Some
            &&& last.identity.requests@.len() == 4
            &&& last.end_to_end@.len() == 3
            &&& last.points@.len() == 5
            &&& forall|j: int|
                0 <= j < 5 ==> whole_point(#[trigger] last.points@[j], N_POINTS@[j], last)
            &&& requests_in(last.points@) == 31
            &&& last.wf() && accountable(p) ==> last.finishable()
        }),
{
    assert forall|i: int| 0 <= i < 159 implies ready(#[trigger] runs[i], full_plan()[i]) by {
        lemma_reached(runs, pids, replies, p, mean, sum, plus, i);
        lemma_ready(i, runs[i], p);
    }
    assert forall|i: int| 0 <= i <= 159 implies (#[trigger] runs[i]).verified == i by {
        lemma_reached(runs, pids, replies, p, mean, sum, plus, i);
    }
    lemma_reached(runs, pids, replies, p, mean, sum, plus, 159);
    lemma_all_requests(runs[159].points@);
}

// ---------------------------------------------------------------------------
// What a run that passes shows
// ---------------------------------------------------------------------------

/// What a process of the sweep emitted: the mode and the request of its job, and the hash of
/// its reply.
pub open spec fn emission_of(job: Job, reply: Reply) -> Emission {
    match (job, reply) {
        (Job::Sweep { index, mode, .. }, Reply::Swept { hash, .. }) => Emission {
            mode,
            request: Request::ALL@[index as int % 6],
            hash: hash@,
        },
        _ => arbitrary(),
    }
}

/// What the first `n` processes of the sweep emitted.
pub open spec fn sweep_emissions(replies: Seq<Reply>, n: nat) -> Seq<Emission> {
    Seq::new(n, |s: int| emission_of(full_plan()[64 + s], replies[64 + s]))
}

/// The files of request `k` were complete with its third process, and comparison `k` of the
/// log is of them.
pub open spec fn compared_at(log: IdentityLog, replies: Seq<Reply>, k: int) -> bool {
    replies[3 * k + 3] matches Reply::Future { files: Some(f), .. } && compares(
        log.requests@[k],
        Request::MONTAGE@[k],
        f.baseline@,
        f.raw@,
        f.vole@,
    )
}

/// Where the log has not been spoilt, the reply of identity process `j` was good. Every
/// third of them restored a state.
pub open spec fn answered_at(log: IdentityLog, replies: Seq<Reply>, p: ProducerReport, j: int)
    -> bool {
    replies[j] matches Reply::Future { report, .. } && {
        &&& log.finite ==> report.start_state_finite
        &&& j % 3 == 0 && log.restore_exact ==> report.restore_exact == Some(true)
        &&& j % 3 == 0 && log.start_hash ==> (report.start_state_hash matches Some(h) && h@
            == p.state_hash@)
    }
}

/// What a run has from the replies of the first `i` processes.
spec fn gathered(i: int, run: DemoRun, replies: Seq<Reply>, p: ProducerReport) -> bool {
    &&& tallied(run.identity)
    &&& forall|k: int|
        0 <= k < compared_by(i) ==> #[trigger] compared_at(run.identity, replies, k)
    &&& forall|j: int|
        1 <= j < 13 && j < i ==> #[trigger] answered_at(run.identity, replies, p, j)
    &&& run.sweep@ == noted_all(sweep_emissions(replies, swept_by(i) as nat))
    &&& run.sweep.repeated_identical == agreed_all(sweep_emissions(replies, swept_by(i) as nat))
    &&& i == 158 ==> (replies[157] matches Reply::Answered { report } && run.offered == Some(
        report,
    ))
    &&& i >= 159 ==> (replies[157] matches Reply::Answered { report: offered }
        && replies[158] matches Reply::Answered { report: reference } && run.negative matches Some(
        n,
    ) && is_negative_info(n, offered, reference))
}

/// An identity process adds its reply to what was gathered.
proof fn lemma_identity_gathers<
    F: Fn(u64, u64) -> u64,
    S: Fn(&Vec<u64>) -> u64,
    P: Fn(u64, u64) -> u64,
>(
    i: int,
    before: DemoRun,
    after: DemoRun,
    replies: Seq<Reply>,
    p: ProducerReport,
    pid: u32,
    mean: F,
    sum: S,
    plus: P,
)
    requires
        1 <= i < 13,
        reached(i, before, p),
        gathered(i, before, replies, p),
        stepped(before, after, full_plan()[i], pid, replies[i], mean, sum, plus),
    ensures
        gathered(i + 1, after, replies, p),
{
    lemma_plan_at(i);
    lemma_modes();
    let job = full_plan()[i];
    let reply = replies[i];
    let mid = choose|mid: DemoRun|
        {
            &&& #[trigger] accepted(before, mid, job, pid)
            &&& took(mid, after, job, reply, mean, sum, plus)
        };
    let k = i - 1;
    let mode = MODES@[k % 3];
    let request = Request::MONTAGE@[k / 3];
    assert(job == Job::Identity { request, mode });
    assert(mode == Mode::Vole <==> k % 3 == 2);
    let (report, files) = match reply {
        Reply::Future { report, files } => (report, files),
        _ => arbitrary(),
    };
    let state = p.state_hash@;
    let noted = if files is Some {
        choose|m: DemoRun|
            {
                &&& #[trigger] future_noted(mid, m, mode, report)
                &&& comparison_noted(
                    m,
                    after,
                    request,
                    files->0.baseline@,
                    files->0.raw@,
                    files->0.vole@,
                )
            }
    } else {
        after
    };
    assert(future_noted(mid, noted, mode, report));
    let (b, r, v) = (files->0.baseline@, files->0.raw@, files->0.vole@);
    law_verdict_is_that_of_every_request(
        mid.identity,
        noted.identity,
        mode,
        report,
        state,
        request,
        b,
        r,
        v,
    );
    if files is Some {
        law_verdict_is_that_of_every_request(
            noted.identity,
            after.identity,
            mode,
            report,
            state,
            request,
            b,
            r,
            v,
        );
    }
    assert forall|q: int| 0 <= q < compared_by(i + 1) implies #[trigger] compared_at(
        after.identity,
        replies,
        q,
    ) by {
        if q < compared_by(i) {
            assert(compared_at(before.identity, replies, q));
            if files is Some {
                assert(after.identity.requests@.drop_last()[q] == after.identity.requests@[q]);
            }
        } else {
            assert(files is Some && 3 * q + 3 == i && k / 3 == q);
        }
    }
    assert forall|j: int| 1 <= j < 13 && j < i + 1 implies #[trigger] answered_at(
        after.identity,
        replies,
        p,
        j,
    ) by {
        if j < i {
            assert(answered_at(before.identity, replies, p, j));
        } else {
            assert(j % 3 == 0 <==> mode == Mode::Vole);
        }
    }
}

/// A process of the sweep adds its emission to what was gathered.
proof fn lemma_sweep_gathers<
    F: Fn(u64, u64) -> u64,
    S: Fn(&Vec<u64>) -> u64,
    P: Fn(u64, u64) -> u64,
>(
    i: int,
    before: DemoRun,
    after: DemoRun,
    replies: Seq<Reply>,
    p: ProducerReport,
    pid: u32,
    mean: F,
    sum: S,
    plus: P,
)
    requires
        64 <= i < 157,
        gathered(i, before, replies, p),
        stepped(before, after, full_plan()[i], pid, replies[i], mean, sum, plus),
    ensures
        gathered(i + 1, after, replies, p),
{
    lemma_plan_at(i);
    let s = i - 64;
    lemma_sweep_at(s);
    let job = full_plan()[i];
    let mid = choose|mid: DemoRun|
        {
            &&& #[trigger] accepted(before, mid, job, pid)
            &&& took(mid, after, job, replies[i], mean, sum, plus)
        };
    let list = sweep_emissions(replies, (s + 1) as nat);
    assert(list.drop_last() =~= sweep_emissions(replies, s as nat));
    assert(list.last() == emission_of(job, replies[i]));
    assert forall|k: int| 0 <= k < compared_by(i + 1) implies #[trigger] compared_at(
        after.identity,
        replies,
        k,
    ) by {
        assert(compared_at(before.identity, replies, k));
    }
    assert forall|j: int| 1 <= j < 13 && j < i + 1 implies #[trigger] answered_at(
        after.identity,
        replies,
        p,
        j,
    ) by {
        assert(answered_at(before.identity, replies, p, j));
    }
}

/// Any other process leaves what was gathered alone, but for the negative case.
proof fn lemma_others_gather<
    F: Fn(u64, u64) -> u64,
    S: Fn(&Vec<u64>) -> u64,
    P: Fn(u64, u64) -> u64,
>(
    i: int,
    before: DemoRun,
    after: DemoRun,
    replies: Seq<Reply>,
    p: ProducerReport,
    pid: u32,
    mean: F,
    sum: S,
    plus: P,
)
    requires
        i == 0 || 13 <= i < 64 || 157 <= i < 159,
        gathered(i, before, replies, p),
        stepped(before, after, full_plan()[i], pid, replies[i], mean, sum, plus),
    ensures
        gathered(i + 1, after, replies, p),
{
    lemma_plan_at(i);
    let job = full_plan()[i];
    let mid = choose|mid: DemoRun|
        {
            &&& #[trigger] accepted(before, mid, job, pid)
            &&& took(mid, after, job, replies[i], mean, sum, plus)
        };
    assert(after.identity == before.identity);
    assert(after.sweep == before.sweep);
    assert forall|k: int| 0 <= k < compared_by(i + 1) implies #[trigger] compared_at(
        after.identity,
        replies,
        k,
    ) by {
        assert(compared_at(before.identity, replies, k));
    }
    assert forall|j: int| 1 <= j < 13 && j < i + 1 implies #[trigger] answered_at(
        after.identity,
        replies,
        p,
        j,
    ) by {
        assert(answered_at(before.identity, replies, p, j));
    }
}

/// What a run that follows the plan has gathered.
proof fn lemma_gathered<
    F: Fn(u64, u64) -> u64,
    S: Fn(&Vec<u64>) -> u64,
    P: Fn(u64, u64) -> u64,
>(
    runs: Seq<DemoRun>,
    pids: Seq<u32>,
    replies: Seq<Reply>,
    p: ProducerReport,
    mean: F,
    sum: S,
    plus: P,
    i: int,
)
    requires
        follows_plan(runs, pids, replies, mean, sum, plus),
        replies[0] matches Reply::Earned { producer, .. } && producer == p,
        0 <= i <= 159,
    ensures
        gathered(i, runs[i], replies, p),
    decreases i,
{
    if i == 0 {
        assert(sweep_emissions(replies, 0) =~= Seq::<Emission>::empty());
    } else {
        let k = i - 1;
        lemma_gathered(runs, pids, replies, p, mean, sum, plus, k);
        lemma_reached(runs, pids, replies, p, mean, sum, plus, k);
        lemma_ready(k, runs[k], p);
        let (a, b) = (runs[k], runs[k + 1]);
        if 1 <= k < 13 {
            lemma_identity_gathers(k, a, b, replies, p, pids[k], mean, sum, plus);
        } else if 64 <= k < 157 {
            lemma_sweep_gathers(k, a, b, replies, p, pids[k], mean, sum, plus);
        } else {
            lemma_others_gather(k, a, b, replies, p, pids[k], mean, sum, plus);
        }
    }
}

/// What a run that passes shows of its processes. Each of the four related requests was
/// answered with the same frames by the replaying, the raw and the restoring process. Every
/// restoring process rebuilt the offered bytes and generated from the producer's state, and
/// every state was finite. Processes of the sweep that served one request in one mode emitted
/// the same bytes by hash, and replays of different requests different ones. The state of the
/// wrong scene was refused, and the request that refused it emitted what a replay emits.
pub proof fn law_what_a_passing_run_shows<
    F: Fn(u64, u64) -> u64,
    S: Fn(&Vec<u64>) -> u64,
    P: Fn(u64, u64) -> u64,
>(
    runs: Seq<DemoRun>,
    pids: Seq<u32>,
    replies: Seq<Reply>,
    p: ProducerReport,
    baseline: WorkTotals,
    vole: WorkTotals,
    montages_identical: bool,
    mean: F,
    sum: S,
    plus: P,
)
    requires
        follows_plan(runs, pids, replies, mean, sum, plus),
        replies[0] matches Reply::Earned { producer, .. } && producer == p,
        all_ok(
            gate_list(
                facts(
                    p,
                    runs[159].proc_gone,
                    runs[159].consumers@,
                    runs[159].verified as nat,
                    runs[159].identity,
                    baseline,
                    vole,
                    runs[159].negative->0,
                    runs[159].sweep,
                    montages_identical,
                ),
            ),
        ),
    ensures
        forall|k: int|
            0 <= k < 4 ==> (#[trigger] replies[3 * k + 3] matches Reply::Future {
                files: Some(f),
                ..
            } && payload_of(f.baseline@) == payload_of(f.vole@) && payload_of(f.baseline@)
                == payload_of(f.raw@)),
        forall|j: int|
            1 <= j < 13 ==> (#[trigger] replies[j] matches Reply::Future { report, .. } && {
                &&& report.start_state_finite
                &&& j % 3 == 0 ==> report.restore_exact == Some(true)
                &&& j % 3 == 0 ==> (report.start_state_hash matches Some(h) && h@ == p.state_hash@)
            }),
        forall|i: int, j: int|
            0 <= i < 93 && 0 <= j < 93 && same_kind(
                #[trigger] sweep_emissions(replies, 93)[i],
                #[trigger] sweep_emissions(replies, 93)[j],
            ) ==> sweep_emissions(replies, 93)[i].hash == sweep_emissions(replies, 93)[j].hash,
        forall|i: int, j: int|
            0 <= i < 93 && 0 <= j < 93 ==> !clash(
                #[trigger] sweep_emissions(replies, 93)[i],
                #[trigger] sweep_emissions(replies, 93)[j],
            ),
        replies[157] matches Reply::Answered { report: offered } && replies[158] matches Reply::Answered {
            report: reference,
        } && !offered.restore.accepted && offered.output_hash@ == reference.output_hash@,
        baseline.cell_steps > vole.cell_steps,
        p.state_finite,
        montages_identical,
{
    let last = runs[159];
    lemma_gathered(runs, pids, replies, p, mean, sum, plus, 159);
    lemma_reached(runs, pids, replies, p, mean, sum, plus, 159);
    law_a_pass_is_the_evidence(
        p,
        last.proc_gone,
        last.consumers@,
        last.verified as nat,
        last.identity,
        baseline,
        vole,
        last.negative->0,
        last.sweep,
        montages_identical,
    );
    assert forall|k: int| 0 <= k < 4 implies (#[trigger] replies[3 * k + 3] matches Reply::Future {
        files: Some(f),
        ..
    } && payload_of(f.baseline@) == payload_of(f.vole@) && payload_of(f.baseline@) == payload_of(
        f.raw@,
    )) by {
        assert(compared_at(last.identity, replies, k));
        assert(last.identity.requests@[k].baseline_eq_vole);
    }
    assert forall|j: int| 1 <= j < 13 implies (#[trigger] replies[j] matches Reply::Future {
        report,
        ..
    } && {
        &&& report.start_state_finite
        &&& j % 3 == 0 ==> report.restore_exact == Some(true)
        &&& j % 3 == 0 ==> (report.start_state_hash matches Some(h) && h@ == p.state_hash@)
    }) by {
        assert(answered_at(last.identity, replies, p, j));
    }
    let list = sweep_emissions(replies, 93);
    law_repeats_agree_pairwise(list);
    law_programs_collide_pairwise(list);
}

/// What the plan runs, and in which order. One producer; then for each of the four related
/// requests its replay, its raw restore and its store restore; then for each of the three
/// paths six timed processes and six clocked ones; then six producers with the store and six
/// without; one unmeasured process of each path; the sweep over 1, 2, 4, 8 and 16 requests,
/// in which every request is served by each path in turn; and last the request of the other
/// scene, with the state offered and without.
pub proof fn law_what_the_plan_runs(q: int, m: int, rep: int, p: int, i: int)
    requires
        0 <= q < 4,
        0 <= m < 3,
        0 <= rep < 6,
        0 <= p < 5,
        0 <= i < N_POINTS@[p],
    ensures
        ({
            let mode = if m == 0 {
                Mode::Baseline
            } else if m == 1 {
                Mode::Raw
            } else {
                Mode::Vole
            };
            let n: int = if p == 0 {
                1
            } else if p == 1 {
                2
            } else if p == 2 {
                4
            } else if p == 3 {
                8
            } else {
                16
            };
            let jobs = full_plan();
            &&& N_POINTS@[p] == n
            &&& jobs.len() == 159
            &&& jobs[0] == Job::Producer
            &&& jobs[1 + 3 * q + m] == Job::Identity { request: Request::MONTAGE@[q], mode }
            &&& jobs[13 + 12 * m + rep] == Job::Timing { mode, rep: rep as usize }
            &&& jobs[19 + 12 * m + rep] == Job::EndToEnd { mode, rep: rep as usize }
            &&& jobs[49 + rep] == Job::ProducerTiming { skip_store: false, rep: rep as usize }
            &&& jobs[55 + rep] == Job::ProducerTiming { skip_store: true, rep: rep as usize }
            &&& jobs[61 + m] == Job::SweepWarmup { mode }
            &&& jobs[64 + 3 * (n - 1) + 3 * i + m] == Job::Sweep {
                n: n as usize,
                index: i as usize,
                mode,
            }
            &&& jobs[157] == Job::NegativeOffered
            &&& jobs[158] == Job::NegativeBaseline
        }),
{
    lemma_modes();
    assert(N_POINTS@[0] == 1 && N_POINTS@[1] == 2 && N_POINTS@[2] == 4 && N_POINTS@[3] == 8
        && N_POINTS@[4] == 16);
    let k = 3 * q + m;
    lemma_plan_at(0);
    lemma_plan_at(1 + k);
    assert(k / 3 == q && k % 3 == m);
    let t = 12 * m + rep;
    lemma_plan_at(13 + t);
    assert(t / 12 == m && t % 12 == rep);
    lemma_plan_at(19 + t);
    assert((t + 6) / 12 == m && (t + 6) % 12 == rep + 6);
    lemma_plan_at(49 + rep);
    lemma_plan_at(55 + rep);
    lemma_plan_at(61 + m);
    let s = point_start(p) + 3 * i + m;
    assert(point_start(p) == 3 * (N_POINTS@[p] - 1));
    assert(point_of(s) == p);
    lemma_plan_at(64 + s);
    lemma_sweep_at(s);
    assert((3 * i + m) / 3 == i && (3 * i + m) % 3 == m);
    lemma_plan_at(157);
    lemma_plan_at(158);
}

/// Which replies a run goes on from: a producer that is the process it says, earned a finite
/// state and was gone when it was waited for; a clocked producer that earned the canonical
/// state, once it has warmed up; and any other reply of its kind.
pub proof fn law_which_replies_are_sound(
    run: DemoRun,
    producer: ProducerReport,
    os_pid: u32,
    proc_gone: Option<bool>,
    skip_store: bool,
    rep: usize,
    earned: String,
    wall: u64,
    table: Option<Vec<PhaseTiming>>,
    job: Job,
    reply: Reply,
)
    ensures
        sound(run, Job::Producer, Reply::Earned { producer, os_pid, proc_gone }) <==> {
            &&& producer.pid == os_pid
            &&& producer.state_finite
            &&& proc_gone != Some(false)
        },
        sound(
            run,
            Job::ProducerTiming { skip_store, rep },
            Reply::EarnedAgain { earned, wall, table },
        ) <==> rep == 0 || earned@ == run.producer->0.state_hash@,
        !(job is Producer) && !(job is ProducerTiming) ==> sound(run, job, reply),
{
}

} // verus!
