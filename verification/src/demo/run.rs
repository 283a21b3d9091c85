//! The course of a demonstration: what each process that finishes adds to the evidence.
//!
//! Processes are run and clocked elsewhere, in the order of the plan. The first process
//! of every timed series is a warm-up and is discarded.

use vstd::prelude::*;

use crate::demo::consumers::{role, role_of, served, Consumers};
use crate::demo::distinct::{distinct_count, texts};
use crate::demo::gates::{all_ok, facts, gate_list, gate_models, gates};
use crate::demo::identity::{child_noted, request_noted, IdentityLog};
use crate::demo::negative::{is_negative_info, negative_info, NegativeInfo};
use crate::demo::plan::{producer_label, Job, RunOptions, TIMING_REPS};
use crate::demo::producer_checks::{check_exited, check_producer};
use crate::demo::results::{artifact_info, is_artifact_info, is_model_info, is_process_info,
    is_scene_info, is_state_info, is_work_info, model_info, process_info, scene_info, state_info,
    work_info, HostInfo, Results, Timings, NOTES};
use crate::demo::reuse::{is_point, is_reuse_info, requests_in, reuse_info, reuse_point, ReusePoint};
use crate::demo::sweep::{agrees, noted, Emission, SweepLog};
use crate::demo::timings::{across_all, check_timing_producer, clocked, end_to_end,
    producer_timing, request_table, request_timing, END_TO_END_DEFINITION,
    PRODUCER_END_TO_END_DEFINITION};
use crate::experiment::args::Mode;
use crate::experiment::child::{check_pid, child_name};
use crate::experiment::paths::Paths;
use crate::experiment::producer::{ProducerReport, PRODUCER_PHASES};
use crate::experiment::request::RequestReport;
use crate::experiment::stats::{is_median, is_nan, no_nans};
use crate::experiment::timing::{producer_tag, tables_are_numbers, PhaseAcross, PhaseTiming};
use crate::scene::Request;
use crate::text::decimal;

verus! {

/// Takes what a list holds and leaves it empty.
fn taken<T>(v: &mut Vec<T>) -> (r: Vec<T>)
    ensures
        r == *old(v),
        final(v)@.len() == 0,
{
    let mut r: Vec<T> = Vec::new();
    std::mem::swap(&mut r, v);
    r
}

/// What the processes of one mode have reported.
#[derive(Debug)]
pub struct ModeLog {
    /// The timing tables of the measured processes; a process may have none.
    pub tables: Vec<Option<Vec<PhaseTiming>>>,
    /// The report of the first measured process.
    pub first: Option<RequestReport>,
    /// Wall times of the clocked processes.
    pub walls: Vec<u64>,
    /// Wall times of the current point of the sweep.
    pub sweep: Vec<u64>,
}

impl ModeLog {
    /// Every time is a number.
    pub open spec fn wf(self) -> bool {
        tables_are_numbers(self.tables@) && no_nans(self.walls@)
    }

    /// No process has reported yet.
    fn new() -> (r: ModeLog)
        ensures
            r.wf(),
            r.tables@.len() == 0,
            r.first is None,
            r.walls@.len() == 0,
            r.sweep@.len() == 0,
    {
        ModeLog { tables: Vec::new(), first: None, walls: Vec::new(), sweep: Vec::new() }
    }

    /// A measured process reports.
    fn timed(&mut self, table: Option<Vec<PhaseTiming>>, report: RequestReport)
        requires
            old(self).wf(),
            table_is_numbers(table),
        ensures
            final(self).wf(),
            timed(*old(self), *final(self), table, report),
    {
        let ghost before = self.tables@;
        self.tables.push(table);
        if self.first.is_none() {
            self.first = Some(report);
        }
        assert(tables_are_numbers(self.tables@)) by {
            assert forall|i: int, k: int|
                0 <= i < self.tables@.len() && (self.tables@[i] matches Some(t) && 0 <= k
                    < t@.len()) implies (#[trigger] self.tables@[i]->0@[k].median_ms matches Some(m)
                ==> !is_nan(m)) by {
                if i < before.len() {
                    assert(self.tables@[i] == before[i]);
                    assert(before[i]->0@[k].median_ms matches Some(m) ==> !is_nan(m));
                }
            }
        }
    }
}

/// No median in a process's table is a NaN.
pub open spec fn table_is_numbers(table: Option<Vec<PhaseTiming>>) -> bool {
    table matches Some(t) ==> forall|k: int|
        0 <= k < t@.len() ==> ((#[trigger] t@[k]).median_ms matches Some(m) ==> !is_nan(m))
}

/// A mode's log once a measured process has reported: the first report is kept.
pub open spec fn timed(
    before: ModeLog,
    after: ModeLog,
    table: Option<Vec<PhaseTiming>>,
    report: RequestReport,
) -> bool {
    &&& after.tables@ == before.tables@.push(table)
    &&& after.first == match before.first {
        Some(r) => Some(r),
        None => Some(report),
    }
    &&& after.walls == before.walls
    &&& after.sweep == before.sweep
}

/// What is known so far.
#[derive(Debug)]
pub struct DemoRun {
    /// Processes that reported the process id that they were assigned.
    pub verified: usize,
    /// The canonical producer.
    pub producer: Option<ProducerReport>,
    /// Whether its process entry was gone.
    pub proc_gone: Option<bool>,
    /// Which process last served each role.
    pub consumers: Consumers,
    /// The compared futures.
    pub identity: IdentityLog,
    /// The replaying mode.
    pub baseline: ModeLog,
    /// The raw mode.
    pub raw: ModeLog,
    /// The restoring mode.
    pub vole: ModeLog,
    /// The clocked modes.
    pub end_to_end: Vec<PhaseAcross>,
    /// Wall times of the current series of producers.
    pub producer_walls: Vec<u64>,
    /// Timing tables of the current series of producers.
    pub producer_tables: Vec<Option<Vec<PhaseTiming>>>,
    /// Cost and table of the producers that use the store.
    pub producer_vole: Option<(u64, Vec<PhaseAcross>)>,
    /// Cost and table of the producers that write the raw file only.
    pub producer_raw: Option<(u64, Vec<PhaseAcross>)>,
    /// The outputs of the sweep.
    pub sweep: SweepLog,
    /// Baseline outputs of the current point of the sweep.
    pub hashes: Vec<String>,
    /// The points of the sweep.
    pub points: Vec<ReusePoint>,
    /// The request that was offered a state of another scene.
    pub offered: Option<RequestReport>,
    /// The negative case.
    pub negative: Option<NegativeInfo>,
}

impl DemoRun {
    /// Every time is a number.
    pub open spec fn wf(self) -> bool {
        &&& self.baseline.wf()
        &&& self.raw.wf()
        &&& self.vole.wf()
        &&& no_nans(self.producer_walls@)
        &&& tables_are_numbers(self.producer_tables@)
    }

    /// Everything that the evidence is made of is there.
    pub open spec fn finishable(self) -> bool {
        &&& self.wf()
        &&& self.producer matches Some(p) && accountable(p)
        &&& self.negative is Some
        &&& self.producer_vole is Some
        &&& self.producer_raw is Some
        &&& requests_in(self.points@) <= usize::MAX
    }

    /// What the processes of a mode have reported.
    pub open spec fn log(self, mode: Mode) -> ModeLog {
        match mode {
            Mode::Baseline => self.baseline,
            Mode::Raw => self.raw,
            Mode::Vole => self.vole,
        }
    }

    /// The other modes are as they were.
    pub open spec fn others_kept(self, before: DemoRun, mode: Mode) -> bool {
        &&& mode != Mode::Baseline ==> self.baseline == before.baseline
        &&& mode != Mode::Raw ==> self.raw == before.raw
        &&& mode != Mode::Vole ==> self.vole == before.vole
    }

    /// Nothing has run yet.
    pub fn new() -> (r: DemoRun)
        ensures
            r.wf(),
            fresh(r),
    {
        DemoRun {
            verified: 0,
            producer: None,
            proc_gone: None,
            consumers: Consumers::new(),
            identity: IdentityLog::new(),
            baseline: ModeLog::new(),
            raw: ModeLog::new(),
            vole: ModeLog::new(),
            end_to_end: Vec::new(),
            producer_walls: Vec::new(),
            producer_tables: Vec::new(),
            producer_vole: None,
            producer_raw: None,
            sweep: SweepLog::new(),
            hashes: Vec::new(),
            points: Vec::new(),
            offered: None,
            negative: None,
        }
    }

    /// A process of a job has finished. It has to have reported the process id that it was
    /// assigned; then it counts, and stands for the job's role.
    pub fn accept(&mut self, job: &Job, args: &Vec<String>, pid: u32, os_pid: u32) -> (r: Result<
        (),
        String,
    >)
        requires
            old(self).wf(),
            old(self).verified < usize::MAX,
        ensures
            final(self).wf(),
            r is Ok <==> pid != 0 && pid == os_pid,
            r matches Err(e) ==> {
                &&& *final(self) == *old(self)
                &&& e@ == if pid == 0 {
                    child_name(args@) + " reported no pid"@
                } else {
                    child_name(args@) + " reported pid "@ + decimal(pid as nat)
                        + " but the OS assigned "@ + decimal(os_pid as nat)
                }
            },
            r is Ok ==> accepted(*old(self), *final(self), *job, pid),
    {
        match check_pid(args, pid, os_pid) {
            Ok(_) => {},
            Err(e) => {
                return Err(e);
            },
        }
        self.verified = self.verified + 1;
        match role(job) {
            Some(name) => {
                self.consumers.insert(name, pid);
            },
            None => {},
        }
        Ok(())
    }

    /// The canonical producer reports. Nothing can rest on one that is not the process
    /// that was started, whose state is not finite, or whose process is still there.
    pub fn producer_done(
        &mut self,
        report: ProducerReport,
        os_pid: u32,
        proc_gone: Option<bool>,
    ) -> (r: Result<(), String>)
        requires
            old(self).wf(),
        ensures
            final(self).wf(),
            r is Ok <==> report.pid == os_pid && report.state_finite && proc_gone != Some(false),
            r is Ok ==> *final(self) == (DemoRun {
                producer: Some(report),
                proc_gone,
                ..*old(self)
            }),
            r matches Err(e) ==> {
                &&& *final(self) == *old(self)
                &&& e@ == if report.pid != os_pid {
                    "producer reported pid "@ + decimal(report.pid as nat)
                        + " but the OS assigned "@ + decimal(os_pid as nat)
                } else if !report.state_finite {
                    "the earned state contains a non-finite value"@
                } else {
                    "producer pid "@ + decimal(report.pid as nat)
                        + " still has a /proc entry after wait()"@
                }
            },
    {
        match check_producer(report.pid, os_pid, report.state_finite) {
            Ok(_) => {},
            Err(e) => {
                return Err(e);
            },
        }
        match check_exited(report.pid, proc_gone) {
            Ok(_) => {},
            Err(e) => {
                return Err(e);
            },
        }
        self.producer = Some(report);
        self.proc_gone = proc_gone;
        Ok(())
    }

    /// A process that generated a compared future reports.
    pub fn future_done(&mut self, mode: Mode, report: &RequestReport)
        requires
            old(self).wf(),
            old(self).producer is Some,
        ensures
            final(self).wf(),
            future_noted(*old(self), *final(self), mode, *report),
    {
        match &self.producer {
            Some(p) => {
                self.identity.child(mode, report, p.state_hash.as_str());
            },
            None => {},
        }
    }

    /// The frame files of the three paths of a request are compared.
    pub fn compared(&mut self, request: Request, baseline: &[u8], raw: &[u8], vole: &[u8])
        requires
            old(self).wf(),
        ensures
            final(self).wf(),
            comparison_noted(*old(self), *final(self), request, baseline@, raw@, vole@),
    {
        self.identity.request(request, baseline, raw, vole);
    }

    /// A process that timed its phases reports. The warm-up is discarded.
    pub fn timing_done(
        &mut self,
        mode: Mode,
        rep: usize,
        table: Option<Vec<PhaseTiming>>,
        report: RequestReport,
    )
        requires
            old(self).wf(),
            table_is_numbers(table),
        ensures
            final(self).wf(),
            timing_noted(*old(self), *final(self), mode, rep, table, report),
    {
        if rep == 0 {
            return;
        }
        match mode {
            Mode::Baseline => self.baseline.timed(table, report),
            Mode::Raw => self.raw.timed(table, report),
            Mode::Vole => self.vole.timed(table, report),
        }
    }

    /// A clocked process of a mode has finished. The warm-up is discarded, and the last
    /// one ends the series.
    pub fn clocked<F: Fn(u64, u64) -> u64>(&mut self, mode: Mode, rep: usize, wall: u64, mean: F)
        requires
            old(self).wf(),
            !is_nan(wall),
            forall|a: u64, b: u64| call_requires(mean, (a, b)),
        ensures
            final(self).wf(),
            clock_noted(*old(self), *final(self), mode, rep, wall, mean),
    {
        if rep == 0 {
            return;
        }
        match mode {
            Mode::Baseline => self.baseline.walls.push(wall),
            Mode::Raw => self.raw.walls.push(wall),
            Mode::Vole => self.vole.walls.push(wall),
        }
        if rep == TIMING_REPS {
            let walls = match mode {
                Mode::Baseline => taken(&mut self.baseline.walls),
                Mode::Raw => taken(&mut self.raw.walls),
                Mode::Vole => taken(&mut self.vole.walls),
            };
            let across = end_to_end(mode, walls, mean);
            self.end_to_end.push(across);
            assert(self.end_to_end@.drop_last() =~= old(self).end_to_end@);
        }
    }

    /// A clocked producer has finished. The warm-up is discarded; another one has to have
    /// earned the canonical state, and the last one ends the series.
    pub fn producer_clocked<F: Fn(u64, u64) -> u64 + Copy>(
        &mut self,
        skip_store: bool,
        rep: usize,
        earned: &str,
        wall: u64,
        table: Option<Vec<PhaseTiming>>,
        mean: F,
    ) -> (r: Result<(), String>)
        requires
            old(self).wf(),
            old(self).producer is Some,
            !is_nan(wall),
            table_is_numbers(table),
            forall|a: u64, b: u64| call_requires(mean, (a, b)),
        ensures
            final(self).wf(),
            r is Ok <==> rep == 0 || earned@ == old(self).producer->0.state_hash@,
            r matches Err(e) ==> *final(self) == *old(self) && e@ == producer_label(skip_store)
                + " timing producer earned state "@ + earned@ + " != canonical "@
                + old(self).producer->0.state_hash@,
            r is Ok ==> producer_clock_noted(
                *old(self),
                *final(self),
                skip_store,
                rep,
                wall,
                table,
                mean,
            ),
    {
        if rep == 0 {
            return Ok(());
        }
        match &self.producer {
            Some(p) => match check_timing_producer(skip_store, earned, p.state_hash.as_str()) {
                Ok(_) => {},
                Err(e) => {
                    return Err(e);
                },
            },
            None => {},
        }
        let ghost before = self.producer_tables@;
        self.producer_walls.push(wall);
        self.producer_tables.push(table);
        assert(tables_are_numbers(self.producer_tables@)) by {
            assert forall|i: int, k: int|
                0 <= i < self.producer_tables@.len() && (self.producer_tables@[i] matches Some(t)
                    && 0 <= k < t@.len()) implies (#[trigger] self.producer_tables@[i]->0@[k].median_ms matches Some(
                m,
            ) ==> !is_nan(m)) by {
                if i < before.len() {
                    assert(self.producer_tables@[i] == before[i]);
                    assert(before[i]->0@[k].median_ms matches Some(m) ==> !is_nan(m));
                }
            }
        }
        if rep == TIMING_REPS {
            let walls = taken(&mut self.producer_walls);
            let tables = taken(&mut self.producer_tables);
            match producer_timing(skip_store, walls, tables.as_slice(), mean) {
                Ok(ended) => {
                    if skip_store {
                        self.producer_raw = Some(ended);
                    } else {
                        self.producer_vole = Some(ended);
                    }
                },
                Err(e) => {
                    return Err(e);
                },
            }
        }
        Ok(())
    }

    /// A process of the sweep has finished: request `index` of a point with `n` requests.
    /// The last restored request ends the point.
    pub fn swept<S: Fn(&Vec<u64>) -> u64, P: Fn(u64, u64) -> u64>(
        &mut self,
        n: usize,
        index: usize,
        mode: Mode,
        wall: u64,
        hash: String,
        sum: S,
        plus: P,
    )
        requires
            old(self).wf(),
            old(self).producer_vole is Some,
            old(self).producer_raw is Some,
            index < n,
            forall|v: &Vec<u64>| call_requires(sum, (v,)),
            forall|a: u64, b: u64| call_requires(plus, (a, b)),
        ensures
            final(self).wf(),
            sweep_noted(*old(self), *final(self), n, index, mode, wall, hash@, sum, plus),
    {
        let all = Request::ALL;
        self.sweep.emitted(mode, all[index % 6], hash.as_str());
        match mode {
            Mode::Baseline => {
                self.baseline.sweep.push(wall);
                let ghost before = self.hashes@;
                self.hashes.push(hash);
                assert(texts(self.hashes@) =~= texts(before).push(hash@));
            },
            Mode::Raw => {
                self.raw.sweep.push(wall);
            },
            Mode::Vole => {
                self.vole.sweep.push(wall);
            },
        }
        if index + 1 < n || mode != Mode::Vole {
            return;
        }
        let vole_ms: u64 = match &self.producer_vole {
            Some(p) => p.0,
            None => 0,
        };
        let raw_ms: u64 = match &self.producer_raw {
            Some(p) => p.0,
            None => 0,
        };
        let baseline = taken(&mut self.baseline.sweep);
        let raw = taken(&mut self.raw.sweep);
        let vole = taken(&mut self.vole.sweep);
        let hashes = taken(&mut self.hashes);
        let point = reuse_point(
            n,
            baseline,
            raw,
            vole,
            hashes.as_slice(),
            vole_ms,
            raw_ms,
            sum,
            plus,
        );
        self.points.push(point);
        assert(self.points@.drop_last() =~= old(self).points@);
    }

    /// The request that was offered a state of another scene reports.
    pub fn negative_offered(&mut self, report: RequestReport)
        requires
            old(self).wf(),
        ensures
            final(self).wf(),
            *final(self) == (DemoRun { offered: Some(report), ..*old(self) }),
    {
        self.offered = Some(report);
    }

    /// The reference of the negative case reports.
    pub fn negative_done(&mut self, reference: &RequestReport)
        requires
            old(self).wf(),
            old(self).offered is Some,
        ensures
            final(self).wf(),
            negative_noted(*old(self), *final(self), *reference),
    {
        match self.offered.take() {
            Some(offered) => {
                self.negative = Some(negative_info(offered, reference));
            },
            None => {},
        }
    }

    /// The evidence of a run that has gone through its plan, with `mean` for the mean of
    /// two times and `ratio` for the quotient of two counts. Each mode has to have reported
    /// a measured process; the first one's work stands for the mode.
    pub fn finish<F: Fn(u64, u64) -> u64 + Copy, Q: Fn(u64, u64) -> u64>(
        self,
        opts: &RunOptions,
        generated_unix_s: u64,
        host: HostInfo,
        montages_identical: bool,
        mean: F,
        ratio: Q,
    ) -> (r: Result<Results, String>)
        requires
            self.finishable(),
            forall|a: u64, b: u64| call_requires(mean, (a, b)),
            forall|a: u64, b: u64| b != 0 ==> call_requires(ratio, (a, b)),
        ensures
            match (self.baseline.first, self.vole.first, self.raw.first) {
                (None, _, _) => r matches Err(e) && e@ == "no baseline timing report"@,
                (Some(_), None, _) => r matches Err(e) && e@ == "no vole timing report"@,
                (Some(_), Some(_), None) => r matches Err(e) && e@ == "no raw timing report"@,
                (Some(b), Some(v), Some(w)) => r matches Ok(res) && {
                    let p = self.producer->0;
                    let n = self.negative->0;
                    &&& res.schema@ == "vole-field/results/1"@
                    &&& res.generated_unix_s == generated_unix_s
                    &&& res.host == host
                    &&& is_model_info(res.model, opts.checkpoint@, p)
                    &&& is_scene_info(
                        res.scene,
                        opts.context_len,
                        opts.future_len,
                        self.identity.requests,
                    )
                    &&& is_state_info(
                        res.state,
                        p,
                        v.start_state_hash,
                        self.identity.restore_exact,
                    )
                    &&& is_process_info(
                        res.process,
                        p.pid,
                        self.consumers,
                        self.verified,
                        self.proc_gone,
                    )
                    &&& is_work_info(
                        res.work,
                        b.work_total,
                        v.work_total,
                        w.work_total,
                        p.work,
                        ratio,
                    )
                    &&& request_table(
                        res.timing@,
                        self.baseline.tables@,
                        self.raw.tables@,
                        self.vole.tables@,
                        self.end_to_end@,
                        mean,
                    )
                    &&& res.fresh_process_end_to_end_ms == self.end_to_end
                    &&& res.producer_timing_vole == series_table(self.producer_vole)
                    &&& res.producer_timing_raw == series_table(self.producer_raw)
                    &&& is_reuse_info(res.reuse, self.points)
                    &&& res.negative == n
                    &&& gate_models(res.gates@) == gate_list(
                        facts(
                            p,
                            self.proc_gone,
                            self.consumers@,
                            self.verified as nat,
                            self.identity,
                            b.work_total,
                            v.work_total,
                            n,
                            self.sweep,
                            montages_identical,
                        ),
                    )
                    &&& res.pass == all_ok(gate_models(res.gates@))
                    &&& is_artifact_info(res.artifacts, opts.run_dir@, montages_identical)
                    &&& res.notes@.len() == 6
                    &&& forall|i: int| 0 <= i < 6 ==> (#[trigger] res.notes@[i])@ == NOTES@[i]@
                },
            },
    {
        let baseline = match self.baseline.first {
            Some(b) => b,
            None => {
                return Err("no baseline timing report".to_owned());
            },
        };
        let vole = match self.vole.first {
            Some(v) => v,
            None => {
                return Err("no vole timing report".to_owned());
            },
        };
        let raw = match self.raw.first {
            Some(w) => w,
            None => {
                return Err("no raw timing report".to_owned());
            },
        };
        let (producer, negative) = match (self.producer, self.negative) {
            (Some(p), Some(n)) => (p, n),
            _ => {
                return Err("the plan is not finished".to_owned());
            },
        };
        let (producer_vole, producer_raw) = match (self.producer_vole, self.producer_raw) {
            (Some(v), Some(w)) => (v.1, w.1),
            _ => {
                return Err("the plan is not finished".to_owned());
            },
        };
        let work = work_info(
            baseline.work_total,
            vole.work_total,
            raw.work_total,
            producer.work,
            ratio,
        );
        let gates = gates(
            &producer,
            self.proc_gone,
            &self.consumers,
            self.verified,
            &self.identity,
            &baseline.work_total,
            &vole.work_total,
            &negative,
            &self.sweep,
            montages_identical,
        );
        let requests = request_timing(
            self.baseline.tables.as_slice(),
            self.raw.tables.as_slice(),
            self.vole.tables.as_slice(),
            &self.end_to_end,
            mean,
        );
        let exact: bool = self.identity.restore_exact;
        let paths = Paths::new(opts.run_dir.clone());
        Ok(
            Results::new(
                generated_unix_s,
                host,
                model_info(opts.checkpoint.as_str(), &producer),
                scene_info(opts.context_len, opts.future_len, self.identity.requests),
                state_info(&producer, vole.start_state_hash, exact),
                process_info(producer.pid, self.consumers, self.verified, self.proc_gone),
                work,
                Timings {
                    requests,
                    end_to_end: self.end_to_end,
                    producer_vole,
                    producer_raw,
                },
                reuse_info(self.points),
                negative,
                gates,
                artifact_info(&paths, montages_identical),
            ),
        )
    }
}

/// Nothing has run yet.
pub open spec fn fresh(r: DemoRun) -> bool {
    &&& r.verified == 0
    &&& r.producer is None
    &&& r.proc_gone is None
    &&& r.consumers@ == Seq::<(Seq<char>, u32)>::empty()
    &&& r.identity.requests@.len() == 0
    &&& r.identity.restore_exact && r.identity.start_hash && r.identity.finite
    &&& r.identity.identical
    &&& forall|m: Mode| (#[trigger] r.log(m)).tables@.len() == 0 && r.log(m).first is None
        && r.log(m).walls@.len() == 0 && r.log(m).sweep@.len() == 0
    &&& r.end_to_end@.len() == 0
    &&& r.producer_walls@.len() == 0
    &&& r.producer_tables@.len() == 0
    &&& r.producer_vole is None
    &&& r.producer_raw is None
    &&& r.sweep@ == Seq::<Emission>::empty()
    &&& r.sweep.repeated_identical
    &&& r.hashes@.len() == 0
    &&& r.points@.len() == 0
    &&& r.offered is None
    &&& r.negative is None
}

/// A process of a job counts, and stands for the job's role.
pub open spec fn accepted(before: DemoRun, after: DemoRun, job: Job, pid: u32) -> bool {
    &&& after == (DemoRun {
        verified: (before.verified + 1) as usize,
        consumers: after.consumers,
        ..before
    })
    &&& after.consumers@ == match role_of(job) {
        Some(name) => served(before.consumers@, name, pid),
        None => before.consumers@,
    }
}

/// A process that generated a compared future has reported.
pub open spec fn future_noted(
    before: DemoRun,
    after: DemoRun,
    mode: Mode,
    report: RequestReport,
) -> bool {
    &&& after == (DemoRun { identity: after.identity, ..before })
    &&& child_noted(
        before.identity,
        after.identity,
        mode,
        report,
        before.producer->0.state_hash@,
    )
}

/// The frame files of the three paths of a request were compared.
pub open spec fn comparison_noted(
    before: DemoRun,
    after: DemoRun,
    request: Request,
    baseline: Seq<u8>,
    raw: Seq<u8>,
    vole: Seq<u8>,
) -> bool {
    &&& after == (DemoRun { identity: after.identity, ..before })
    &&& request_noted(before.identity, after.identity, request, baseline, raw, vole)
}

/// A process that timed its phases has reported. The warm-up is discarded.
pub open spec fn timing_noted(
    before: DemoRun,
    after: DemoRun,
    mode: Mode,
    rep: usize,
    table: Option<Vec<PhaseTiming>>,
    report: RequestReport,
) -> bool {
    if rep == 0 {
        after == before
    } else {
        &&& after == (DemoRun {
            baseline: after.baseline,
            raw: after.raw,
            vole: after.vole,
            ..before
        })
        &&& after.others_kept(before, mode)
        &&& timed(before.log(mode), after.log(mode), table, report)
    }
}

/// A clocked process of a mode has finished. The warm-up is discarded, and the last one
/// ends the series.
pub open spec fn clock_noted<F: Fn(u64, u64) -> u64>(
    before: DemoRun,
    after: DemoRun,
    mode: Mode,
    rep: usize,
    wall: u64,
    mean: F,
) -> bool {
    if rep == 0 {
        after == before
    } else {
        let walls = before.log(mode).walls@.push(wall);
        let log = after.log(mode);
        &&& after == (DemoRun {
            baseline: after.baseline,
            raw: after.raw,
            vole: after.vole,
            end_to_end: after.end_to_end,
            ..before
        })
        &&& after.others_kept(before, mode)
        &&& log == (ModeLog { walls: log.walls, ..before.log(mode) })
        &&& if rep == TIMING_REPS {
            &&& log.walls@.len() == 0
            &&& after.end_to_end@.len() == before.end_to_end@.len() + 1
            &&& after.end_to_end@.drop_last() == before.end_to_end@
            &&& clocked(
                after.end_to_end@.last(),
                mode.text() + ".fresh_process_end_to_end"@,
                END_TO_END_DEFINITION@,
                walls,
                mean,
            )
        } else {
            &&& log.walls@ == walls
            &&& after.end_to_end == before.end_to_end
        }
    }
}

/// A clocked producer has finished that earned the canonical state. The warm-up is
/// discarded, and the last one ends the series.
pub open spec fn producer_clock_noted<F: Fn(u64, u64) -> u64>(
    before: DemoRun,
    after: DemoRun,
    skip_store: bool,
    rep: usize,
    wall: u64,
    table: Option<Vec<PhaseTiming>>,
    mean: F,
) -> bool {
    let walls = before.producer_walls@.push(wall);
    let tables = before.producer_tables@.push(table);
    if rep == 0 {
        after == before
    } else {
        &&& after == (DemoRun {
            producer_walls: after.producer_walls,
            producer_tables: after.producer_tables,
            producer_vole: after.producer_vole,
            producer_raw: after.producer_raw,
            ..before
        })
        &&& if rep == TIMING_REPS {
            let ended = if skip_store {
                after.producer_raw
            } else {
                after.producer_vole
            };
            &&& after.producer_walls@.len() == 0
            &&& after.producer_tables@.len() == 0
            &&& skip_store ==> after.producer_vole == before.producer_vole
            &&& !skip_store ==> after.producer_raw == before.producer_raw
            &&& ended matches Some((ms, list)) && producer_series(
                skip_store,
                ms,
                list@,
                walls,
                tables,
                mean,
            )
        } else {
            &&& after.producer_walls@ == walls
            &&& after.producer_tables@ == tables
            &&& after.producer_vole == before.producer_vole
            &&& after.producer_raw == before.producer_raw
        }
    }
}

/// A process of the sweep has finished: request `index` of a point with `n` requests. The
/// last restored request ends the point.
pub open spec fn sweep_noted<S: Fn(&Vec<u64>) -> u64, P: Fn(u64, u64) -> u64>(
    before: DemoRun,
    after: DemoRun,
    n: usize,
    index: usize,
    mode: Mode,
    wall: u64,
    hash: Seq<char>,
    sum: S,
    plus: P,
) -> bool {
    let e = Emission { mode, request: Request::ALL@[index as int % 6], hash };
    let hashes = point_hashes(texts(before.hashes@), mode, hash);
    &&& after == (DemoRun {
        baseline: after.baseline,
        raw: after.raw,
        vole: after.vole,
        sweep: after.sweep,
        hashes: after.hashes,
        points: after.points,
        ..before
    })
    &&& after.sweep@ == noted(before.sweep@, e)
    &&& after.sweep.repeated_identical == (before.sweep.repeated_identical && agrees(
        before.sweep@,
        e,
    ))
    &&& forall|m: Mode| #[trigger]
        after.log(m) == (ModeLog { sweep: after.log(m).sweep, ..before.log(m) })
    &&& if index + 1 == n && mode == Mode::Vole {
        &&& forall|m: Mode| (#[trigger] after.log(m)).sweep@.len() == 0
        &&& after.hashes@.len() == 0
        &&& after.points@.len() == before.points@.len() + 1
        &&& after.points@.drop_last() == before.points@
        &&& after.points@.last().vole_per_request_ms@ == before.vole.sweep@.push(wall)
        &&& is_point(
            after.points@.last(),
            n,
            before.baseline.sweep,
            before.raw.sweep,
            after.points@.last().vole_per_request_ms,
            hashes,
            cost(before.producer_vole),
            cost(before.producer_raw),
            sum,
            plus,
        )
    } else {
        &&& after.others_kept(before, mode)
        &&& after.log(mode).sweep@ == before.log(mode).sweep@.push(wall)
        &&& texts(after.hashes@) == hashes
        &&& after.points == before.points
    }
}

/// The reference of the negative case has reported.
pub open spec fn negative_noted(
    before: DemoRun,
    after: DemoRun,
    reference: RequestReport,
) -> bool {
    &&& after == (DemoRun { offered: None, negative: after.negative, ..before })
    &&& after.negative matches Some(n) && is_negative_info(n, before.offered->0, reference)
}

/// A producer whose figures can be accounted for: a hash to show, a record that holds the
/// payload, and sizes that files can have.
pub open spec fn accountable(p: ProducerReport) -> bool {
    &&& p.state_hash@.len() >= 16
    &&& p.raw_state_bytes <= p.vole_record_bytes
    &&& p.store_physical_delta <= i64::MAX
    &&& p.raw_file_bytes <= i64::MAX
}

/// The hashes of a point's baseline outputs, once a process of it has finished.
pub open spec fn point_hashes(before: Seq<Seq<char>>, mode: Mode, hash: Seq<char>) -> Seq<
    Seq<char>,
> {
    if mode == Mode::Baseline {
        before.push(hash)
    } else {
        before
    }
}

/// The cost of a series of clocked producers; none costs nothing.
pub open spec fn cost(series: Option<(u64, Vec<PhaseAcross>)>) -> u64 {
    match series {
        Some(s) => s.0,
        None => 0,
    }
}

/// The table of a series of clocked producers.
pub open spec fn series_table(series: Option<(u64, Vec<PhaseAcross>)>) -> Vec<PhaseAcross> {
    series.unwrap().1
}

/// A series of clocked producers: its cost is the median of the wall times, and its table
/// holds them first and its phases after them.
pub open spec fn producer_series<F: Fn(u64, u64) -> u64>(
    skip_store: bool,
    ms: u64,
    list: Seq<PhaseAcross>,
    walls: Seq<u64>,
    tables: Seq<Option<Vec<PhaseTiming>>>,
    mean: F,
) -> bool {
    &&& list.len() > 0
    &&& list[0].median_ms == Some(ms)
    &&& clocked(
        list[0],
        producer_tag(producer_label(skip_store)),
        PRODUCER_END_TO_END_DEFINITION@,
        walls,
        mean,
    )
    &&& across_all(
        list.drop_first(),
        tables,
        PRODUCER_PHASES@,
        "producer-"@ + producer_label(skip_store),
        mean,
    )
}

/// A process counts once it is verified, and is recorded under its role, if it has one.
pub proof fn law_verified_processes_are_recorded(
    before: DemoRun,
    after: DemoRun,
    job: Job,
    pid: u32,
)
    requires
        accepted(before, after, job, pid),
        before.verified < usize::MAX,
    ensures
        after.verified == before.verified + 1,
        role_of(job) is None ==> after.consumers@ == before.consumers@,
        role_of(job) matches Some(name) ==> after.consumers@ == served(
            before.consumers@,
            name,
            pid,
        ),
        after.identity == before.identity,
        after.sweep == before.sweep,
        after.producer == before.producer,
{
}

/// The first process of a series warms up and leaves nothing. Each of the others leaves its
/// table in its own path's log, behind those before it, and the first of them its report.
pub proof fn law_timed_processes_after_the_first_count(
    before: DemoRun,
    after: DemoRun,
    mode: Mode,
    rep: usize,
    table: Option<Vec<PhaseTiming>>,
    report: RequestReport,
)
    requires
        timing_noted(before, after, mode, rep, table, report),
    ensures
        rep == 0 ==> after == before,
        rep > 0 ==> {
            &&& after.log(mode).tables@ == before.log(mode).tables@.push(table)
            &&& before.log(mode).first is None ==> after.log(mode).first == Some(report)
            &&& before.log(mode).first is Some ==> after.log(mode).first == before.log(mode).first
            &&& forall|m: Mode| m != mode ==> (#[trigger] after.log(m)) == before.log(m)
        },
{
}

/// Of six clocked processes of a path the first warms up; the wall times of the other five
/// are kept in order, and the fifth of them closes the series with their median.
pub proof fn law_five_clocked_processes_make_a_series<F: Fn(u64, u64) -> u64>(
    before: DemoRun,
    after: DemoRun,
    mode: Mode,
    rep: usize,
    wall: u64,
    mean: F,
)
    requires
        clock_noted(before, after, mode, rep, wall, mean),
    ensures
        rep == 0 ==> after == before,
        0 < rep < 5 ==> after.log(mode).walls@ == before.log(mode).walls@.push(wall)
            && after.end_to_end == before.end_to_end,
        rep == 5 ==> {
            &&& after.end_to_end@.len() == before.end_to_end@.len() + 1
            &&& after.end_to_end@.last().phase@ == mode.text() + ".fresh_process_end_to_end"@
            &&& after.end_to_end@.last().per_process_ms@ == before.log(mode).walls@.push(wall)
            &&& is_median(
                after.end_to_end@.last().median_ms,
                before.log(mode).walls@.push(wall),
                mean,
            )
            &&& after.log(mode).walls@.len() == 0
        },
{
}

/// Of six clocked producers of a kind the first warms up, and the fifth of the others closes
/// the series with the median of the five wall times, which is what that kind of producer
/// costs.
pub proof fn law_five_clocked_producers_make_a_cost<F: Fn(u64, u64) -> u64>(
    before: DemoRun,
    after: DemoRun,
    skip_store: bool,
    rep: usize,
    wall: u64,
    table: Option<Vec<PhaseTiming>>,
    mean: F,
)
    requires
        producer_clock_noted(before, after, skip_store, rep, wall, table, mean),
    ensures
        rep == 0 ==> after == before,
        0 < rep < 5 ==> {
            &&& after.producer_walls@ == before.producer_walls@.push(wall)
            &&& after.producer_tables@ == before.producer_tables@.push(table)
            &&& after.producer_vole == before.producer_vole
            &&& after.producer_raw == before.producer_raw
        },
        rep == 5 && !skip_store ==> after.producer_raw == before.producer_raw && is_median(
            Some(cost(after.producer_vole)),
            before.producer_walls@.push(wall),
            mean,
        ),
        rep == 5 && skip_store ==> after.producer_vole == before.producer_vole && is_median(
            Some(cost(after.producer_raw)),
            before.producer_walls@.push(wall),
            mean,
        ),
{
}

/// A process of the sweep leaves its wall time in its own path's log, and the replaying one
/// its hash. The restoring process of the last request of a point closes the point: it is made
/// of the wall times of the three paths, and what the producers cost.
pub proof fn law_sweep_points_are_closed_by_their_last_process<
    S: Fn(&Vec<u64>) -> u64,
    P: Fn(u64, u64) -> u64,
>(
    before: DemoRun,
    after: DemoRun,
    n: usize,
    index: usize,
    mode: Mode,
    wall: u64,
    hash: Seq<char>,
    sum: S,
    plus: P,
)
    requires
        sweep_noted(before, after, n, index, mode, wall, hash, sum, plus),
    ensures
        !(index + 1 == n && mode == Mode::Vole) ==> {
            &&& after.points == before.points
            &&& after.log(mode).sweep@ == before.log(mode).sweep@.push(wall)
            &&& mode == Mode::Baseline ==> texts(after.hashes@) == texts(before.hashes@).push(hash)
            &&& mode != Mode::Baseline ==> texts(after.hashes@) == texts(before.hashes@)
        },
        index + 1 == n && mode == Mode::Vole ==> {
            let p = after.points@.last();
            &&& after.points@.len() == before.points@.len() + 1
            &&& p.n == n
            &&& p.baseline_per_request_ms == before.baseline.sweep
            &&& p.raw_per_request_ms == before.raw.sweep
            &&& p.vole_per_request_ms@ == before.vole.sweep@.push(wall)
            &&& p.vole_producer_ms == cost(before.producer_vole)
            &&& p.raw_producer_ms == cost(before.producer_raw)
            &&& p.distinct_baseline_outputs == distinct_count(texts(before.hashes@))
            &&& after.baseline.sweep@.len() == 0
            &&& after.raw.sweep@.len() == 0
            &&& after.vole.sweep@.len() == 0
        },
        cost(before.producer_vole) == match before.producer_vole {
            Some(series) => series.0,
            None => 0,
        },
{
    if index + 1 == n && mode == Mode::Vole {
        assert(after.log(Mode::Baseline) == after.baseline && after.log(Mode::Raw) == after.raw
            && after.log(Mode::Vole) == after.vole);
    }
}

/// A run begins with nothing counted and nothing spoilt.
pub proof fn law_fresh_run(r: DemoRun)
    requires
        fresh(r),
    ensures
        r.verified == 0,
        r.producer is None && r.negative is None && r.offered is None,
        r.identity.identical && r.identity.restore_exact && r.identity.start_hash
            && r.identity.finite,
        r.identity.requests@.len() == 0,
        r.sweep.repeated_identical,
        r.sweep@.len() == 0,
        r.points@.len() == 0,
        r.consumers@.len() == 0,
        r.end_to_end@.len() == 0,
{
}

/// The negative case is made of the two requests that were taken for it.
pub proof fn law_negative_case_is_taken_from_two_requests(
    before: DemoRun,
    after: DemoRun,
    reference: RequestReport,
)
    requires
        negative_noted(before, after, reference),
        before.offered is Some,
    ensures
        after.negative matches Some(n) && {
            &&& n.rejected <==> !before.offered->0.restore.accepted
            &&& n.fallback_matches_baseline <==> before.offered->0.output_hash@
                == reference.output_hash@
        },
        after.identity == before.identity && after.sweep == before.sweep && after.points
            == before.points,
{
}

/// Noting a reply changes what the reply is about and nothing else.
pub proof fn law_noting_keeps_the_rest(
    before: DemoRun,
    after: DemoRun,
    mode: Mode,
    report: RequestReport,
    request: Request,
    b: Seq<u8>,
    r: Seq<u8>,
    v: Seq<u8>,
    rep: usize,
    table: Option<Vec<PhaseTiming>>,
)
    ensures
        future_noted(before, after, mode, report) ==> after == (DemoRun {
            identity: after.identity,
            ..before
        }),
        comparison_noted(before, after, request, b, r, v) ==> after == (DemoRun {
            identity: after.identity,
            ..before
        }),
        timing_noted(before, after, mode, rep, table, report) ==> {
            &&& after.identity == before.identity && after.sweep == before.sweep
            &&& after.points == before.points && after.producer == before.producer
            &&& mode != Mode::Baseline ==> after.baseline == before.baseline
            &&& mode != Mode::Raw ==> after.raw == before.raw
            &&& mode != Mode::Vole ==> after.vole == before.vole
        },
        timing_noted(before, after, mode, 0, table, report) ==> after == before,
{
}

/// The times of a producer series are gathered until the fifth, and the next series begins
/// with none.
pub proof fn law_producer_series_begin_anew<F: Fn(u64, u64) -> u64>(
    before: DemoRun,
    after: DemoRun,
    skip_store: bool,
    rep: usize,
    wall: u64,
    table: Option<Vec<PhaseTiming>>,
    mean: F,
)
    requires
        producer_clock_noted(before, after, skip_store, rep, wall, table, mean),
    ensures
        rep == 0 ==> after == before,
        rep == 5 ==> after.producer_walls@.len() == 0 && after.producer_tables@.len() == 0,
        rep == 5 && skip_store ==> after.producer_vole == before.producer_vole,
        rep == 5 && !skip_store ==> after.producer_raw == before.producer_raw,
        0 < rep < 5 ==> {
            &&& after.producer_walls@ == before.producer_walls@.push(wall)
            &&& after.producer_tables@ == before.producer_tables@.push(table)
            &&& after.producer_vole == before.producer_vole
            &&& after.producer_raw == before.producer_raw
        },
        after.identity == before.identity && after.points == before.points && after.sweep
            == before.sweep,
{
}

} // verus!
