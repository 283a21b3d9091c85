//! Phase timings: one process's table, and its aggregation across processes.
//!
//! Times are milliseconds as `binary64` bit patterns. A phase that did not run is
//! absent, never zero.

use vstd::prelude::*;

use crate::experiment::stats::{is_median, is_nan, median, no_nans};
use crate::text::same_text;

verus! {

/// One measured phase within one process.
#[derive(Debug)]
pub struct PhaseTiming {
    /// Stable phase name.
    pub phase: String,
    /// What the number means.
    pub definition: String,
    /// The discarded warm-up repetition, if one ran.
    pub warmup_ms: Option<u64>,
    /// Every measured repetition, in order.
    pub samples_ms: Vec<u64>,
    /// Median of the samples, or `None` if the phase never ran.
    pub median_ms: Option<u64>,
}

impl PhaseTiming {
    /// A phase and its samples, with `mean` for the mean of two numbers.
    pub fn new<F: Fn(u64, u64) -> u64>(
        phase: &str,
        definition: &str,
        warmup: Option<u64>,
        samples: Vec<u64>,
        mean: F,
    ) -> (r: PhaseTiming)
        requires
            no_nans(samples@),
            forall|a: u64, b: u64| call_requires(mean, (a, b)),
        ensures
            r.phase@ == phase@,
            r.definition@ == definition@,
            r.warmup_ms == warmup,
            r.samples_ms == samples,
            is_median(r.median_ms, samples@, mean),
    {
        let median_ms = median(samples.as_slice(), mean);
        PhaseTiming {
            phase: phase.to_owned(),
            definition: definition.to_owned(),
            warmup_ms: warmup,
            samples_ms: samples,
            median_ms,
        }
    }
}

/// One phase aggregated across independent processes.
#[derive(Debug)]
pub struct PhaseAcross {
    /// Phase name.
    pub phase: String,
    /// What the number means.
    pub definition: String,
    /// One value per process, in order.
    pub per_process_ms: Vec<u64>,
    /// Median across processes, or `None` if there is no process.
    pub median_ms: Option<u64>,
}

/// The first entry of a table with this name, from `k` on; the length of the table
/// if there is none.
pub open spec fn phase_index(timings: Seq<PhaseTiming>, phase: Seq<char>, k: int) -> int
    decreases timings.len() - k,
{
    if k >= timings.len() {
        timings.len() as int
    } else if timings[k].phase@ == phase {
        k
    } else {
        phase_index(timings, phase, k + 1)
    }
}

/// Where a phase stands in a table.
fn find_phase(timings: &[PhaseTiming], phase: &str) -> (r: Option<usize>)
    ensures
        match r {
            Some(i) => i < timings@.len() && i == phase_index(timings@, phase@, 0),
            None => phase_index(timings@, phase@, 0) == timings@.len(),
        },
{
    let mut k: usize = 0;
    while k < timings.len()
        invariant
            k <= timings@.len(),
            phase_index(timings@, phase@, 0) == phase_index(timings@, phase@, k as int),
        decreases timings@.len() - k,
    {
        if same_text(timings[k].phase.as_str(), phase) {
            return Some(k);
        }
        k = k + 1;
    }
    None
}

/// A phase's median in a table: that of its first entry.
pub open spec fn table_median(timings: Seq<PhaseTiming>, phase: Seq<char>) -> Option<u64> {
    let i = phase_index(timings, phase, 0);
    if i < timings.len() {
        timings[i].median_ms
    } else {
        None
    }
}

/// Read one phase's median out of a timing table.
pub fn phase_median(timings: &[PhaseTiming], phase: &str) -> (r: Option<u64>)
    ensures
        r == table_median(timings@, phase@),
{
    match find_phase(timings, phase) {
        Some(i) => timings[i].median_ms,
        None => None,
    }
}

/// A phase's median in one process's report, which may have no table.
pub open spec fn report_median(report: Option<Vec<PhaseTiming>>, phase: Seq<char>) -> Option<u64> {
    match report {
        Some(t) => table_median(t@, phase),
        None => None,
    }
}

/// Whether every report gives a median for a phase.
pub open spec fn in_every_report(reports: Seq<Option<Vec<PhaseTiming>>>, phase: Seq<char>) -> bool {
    forall|i: int| 0 <= i < reports.len() ==> report_median(#[trigger] reports[i], phase) is Some
}

/// The median of each report for a phase.
pub open spec fn report_medians(reports: Seq<Option<Vec<PhaseTiming>>>, phase: Seq<char>) -> Seq<
    u64,
> {
    Seq::new(reports.len(), |i: int| report_median(reports[i], phase)->0)
}

/// No median in any table is a NaN.
pub open spec fn tables_are_numbers(reports: Seq<Option<Vec<PhaseTiming>>>) -> bool {
    forall|i: int, k: int|
        0 <= i < reports.len() && (reports[i] matches Some(t) && 0 <= k < t@.len()) ==> (
        #[trigger] reports[i]->0@[k].median_ms matches Some(m) ==> !is_nan(m))
}

impl PhaseAcross {
    /// One phase across reports, if every one of them gives a median for it. The
    /// definition is the last report's.
    pub fn from_reports<F: Fn(u64, u64) -> u64>(
        reports: &[Option<Vec<PhaseTiming>>],
        phase: &str,
        mean: F,
    ) -> (r: Option<PhaseAcross>)
        requires
            tables_are_numbers(reports@),
            forall|a: u64, b: u64| call_requires(mean, (a, b)),
        ensures
            r is Some <==> in_every_report(reports@, phase@),
            r matches Some(a) ==> {
                &&& a.phase@ == phase@
                &&& a.per_process_ms@ == report_medians(reports@, phase@)
                &&& is_median(a.median_ms, a.per_process_ms@, mean)
                &&& a.definition@ == if reports@.len() == 0 {
                    Seq::<char>::empty()
                } else {
                    let t = reports@.last()->0@;
                    t[phase_index(t, phase@, 0)].definition@
                }
            },
    {
        let mut per: Vec<u64> = Vec::new();
        let mut def: String = String::new();
        let mut i: usize = 0;
        while i < reports.len()
            invariant
                i <= reports@.len(),
                tables_are_numbers(reports@),
                per@.len() == i,
                forall|j: int|
                    0 <= j < i ==> report_median(#[trigger] reports@[j], phase@) == Some(per@[j]),
                no_nans(per@),
                def@ == if i == 0 {
                    Seq::<char>::empty()
                } else {
                    let t = reports@[i - 1]->0@;
                    t[phase_index(t, phase@, 0)].definition@
                },
            decreases reports@.len() - i,
        {
            match &reports[i] {
                Some(t) => {
                    match find_phase(t.as_slice(), phase) {
                        Some(k) => {
                            match t[k].median_ms {
                                Some(m) => {
                                    assert(reports@[i as int]->0@[k as int].median_ms == Some(m));
                                    per.push(m);
                                    def = t[k].definition.clone();
                                },
                                None => {
                                    assert(report_median(reports@[i as int], phase@) is None);
                                    return None;
                                },
                            }
                        },
                        None => {
                            assert(report_median(reports@[i as int], phase@) is None);
                            return None;
                        },
                    }
                },
                None => {
                    assert(report_median(reports@[i as int], phase@) is None);
                    return None;
                },
            }
            i = i + 1;
        }
        assert(per@ =~= report_medians(reports@, phase@));
        let median_ms = median(per.as_slice(), mean);
        Some(
            PhaseAcross {
                phase: phase.to_owned(),
                definition: def,
                median_ms,
                per_process_ms: per,
            },
        )
    }
}

/// The phases of a list that every report has, in the order of the list.
pub open spec fn common_phases(
    reports: Seq<Option<Vec<PhaseTiming>>>,
    phases: Seq<&str>,
) -> Seq<Seq<char>>
    decreases phases.len(),
{
    if phases.len() == 0 {
        Seq::empty()
    } else {
        let rest = common_phases(reports, phases.drop_last());
        if in_every_report(reports, phases.last()@) {
            rest.push(phases.last()@)
        } else {
            rest
        }
    }
}

/// Entry `a` is phase `p` across the reports, under a prefixed name.
pub open spec fn is_across<F: Fn(u64, u64) -> u64>(
    a: PhaseAcross,
    reports: Seq<Option<Vec<PhaseTiming>>>,
    p: Seq<char>,
    prefix: Seq<char>,
    mean: F,
) -> bool {
    &&& a.phase@ == prefix + "."@ + p
    &&& a.per_process_ms@ == report_medians(reports, p)
    &&& is_median(a.median_ms, a.per_process_ms@, mean)
    &&& reports.len() > 0 ==> {
        let t = reports.last()->0@;
        a.definition@ == t[phase_index(t, p, 0)].definition@
    }
}

/// Every phase of a list that all reports have, across them, under prefixed names.
pub fn aggregate<F: Fn(u64, u64) -> u64 + Copy>(
    reports: &[Option<Vec<PhaseTiming>>],
    phases: &[&str],
    prefix: &str,
    mean: F,
) -> (r: Vec<PhaseAcross>)
    requires
        tables_are_numbers(reports@),
        forall|a: u64, b: u64| call_requires(mean, (a, b)),
    ensures
        r@.len() == common_phases(reports@, phases@).len(),
        forall|i: int|
            0 <= i < r@.len() ==> is_across(
                #[trigger] r@[i],
                reports@,
                common_phases(reports@, phases@)[i],
                prefix@,
                mean,
            ),
{
    let mut out: Vec<PhaseAcross> = Vec::new();
    let mut k: usize = 0;
    assert(phases@.take(0) =~= Seq::<&str>::empty());
    while k < phases.len()
        invariant
            k <= phases@.len(),
            tables_are_numbers(reports@),
            forall|a: u64, b: u64| call_requires(mean, (a, b)),
            out@.len() == common_phases(reports@, phases@.take(k as int)).len(),
            forall|i: int|
                0 <= i < out@.len() ==> is_across(
                    #[trigger] out@[i],
                    reports@,
                    common_phases(reports@, phases@.take(k as int))[i],
                    prefix@,
                    mean,
                ),
        decreases phases@.len() - k,
    {
        proof {
            assert(phases@.take(k + 1).drop_last() =~= phases@.take(k as int));
            assert(phases@.take(k + 1).last() == phases@[k as int]);
        }
        match PhaseAcross::from_reports(reports, phases[k], mean) {
            Some(a) => {
                let mut name: String = prefix.to_owned();
                name.append(".");
                name.append(phases[k]);
                out.push(
                    PhaseAcross {
                        phase: name,
                        definition: a.definition,
                        per_process_ms: a.per_process_ms,
                        median_ms: a.median_ms,
                    },
                );
            },
            None => {},
        }
        k = k + 1;
    }
    assert(phases@.take(k as int) =~= phases@);
    out
}

/// The first entry with this name, from `k` on; the length of the list if there is
/// none.
pub open spec fn across_index(list: Seq<PhaseAcross>, phase: Seq<char>, k: int) -> int
    decreases list.len() - k,
{
    if k >= list.len() {
        list.len() as int
    } else if list[k].phase@ == phase {
        k
    } else {
        across_index(list, phase, k + 1)
    }
}

/// Where an aggregated phase stands in a list.
fn find_across(list: &[PhaseAcross], phase: &str) -> (r: Option<usize>)
    ensures
        match r {
            Some(i) => i < list@.len() && i == across_index(list@, phase@, 0),
            None => across_index(list@, phase@, 0) == list@.len(),
        },
{
    let mut k: usize = 0;
    while k < list.len()
        invariant
            k <= list@.len(),
            across_index(list@, phase@, 0) == across_index(list@, phase@, k as int),
        decreases list@.len() - k,
    {
        if same_text(list[k].phase.as_str(), phase) {
            return Some(k);
        }
        k = k + 1;
    }
    None
}

/// The name of a producer's end-to-end entry.
pub open spec fn producer_tag(which: Seq<char>) -> Seq<char> {
    "producer-"@ + which + ".fresh_process_end_to_end"@
}

/// The one-time cost of a producer: the median of its end-to-end entry, looked up
/// in the store producer's list and then in the raw producer's.
pub fn producer_once_ms(vole: &[PhaseAcross], raw: &[PhaseAcross], which: &str) -> (r: Option<u64>)
    ensures
        ({
            let tag = producer_tag(which@);
            let i = across_index(vole@, tag, 0);
            let j = across_index(raw@, tag, 0);
            r == if i < vole@.len() {
                vole@[i].median_ms
            } else if j < raw@.len() {
                raw@[j].median_ms
            } else {
                None
            }
        }),
{
    let mut tag: String = String::new();
    tag.append("producer-");
    tag.append(which);
    tag.append(".fresh_process_end_to_end");
    assert(tag@ =~= producer_tag(which@));
    match find_across(vole, tag.as_str()) {
        Some(i) => vole[i].median_ms,
        None => match find_across(raw, tag.as_str()) {
            Some(j) => raw[j].median_ms,
            None => None,
        },
    }
}

/// What a repetition of a phase was: the discarded warm-up or a measurement.
#[derive(Debug)]
pub struct Samples {
    /// The last warm-up that was recorded.
    pub warmup: Option<u64>,
    /// The measurements, in order.
    pub measured: Vec<u64>,
}

impl Samples {
    /// No repetition yet.
    pub fn new() -> (r: Samples)
        ensures
            r.warmup is None,
            r.measured@ == Seq::<u64>::empty(),
    {
        Samples { warmup: None, measured: Vec::new() }
    }

    /// Record one repetition.
    pub fn push_sample(&mut self, is_warmup: bool, v: u64)
        ensures
            final(self).warmup == if is_warmup {
                Some(v)
            } else {
                old(self).warmup
            },
            final(self).measured@ == if is_warmup {
                old(self).measured@
            } else {
                old(self).measured@.push(v)
            },
    {
        if is_warmup {
            self.warmup = Some(v);
        } else {
            self.measured.push(v);
        }
    }
}

/// A table's median for a phase is that of its first entry of that name.
pub proof fn law_first_entry_of_a_phase_counts(
    timings: Seq<PhaseTiming>,
    phase: Seq<char>,
    k: int,
)
    requires
        0 <= k <= timings.len(),
        forall|i: int| 0 <= i < k ==> (#[trigger] timings[i]).phase@ != phase,
        k < timings.len() ==> timings[k].phase@ == phase,
    ensures
        k < timings.len() ==> table_median(timings, phase) == timings[k].median_ms,
        k == timings.len() ==> table_median(timings, phase) is None,
{
    lemma_phase_from(timings, phase, 0, k);
}

/// The first entry of a phase, from `from` on.
proof fn lemma_phase_from(timings: Seq<PhaseTiming>, phase: Seq<char>, from: int, k: int)
    requires
        0 <= from <= k <= timings.len(),
        forall|i: int| 0 <= i < k ==> (#[trigger] timings[i]).phase@ != phase,
        k < timings.len() ==> timings[k].phase@ == phase,
    ensures
        phase_index(timings, phase, from) == k,
    decreases k - from,
{
    if from < k {
        assert(timings[from].phase@ != phase);
        lemma_phase_from(timings, phase, from + 1, k);
    }
}

/// A phase is aggregated exactly when every report has a table with a median for it, and then
/// over one number of each report, in their order.
pub proof fn law_phases_are_aggregated_over_all_reports(
    reports: Seq<Option<Vec<PhaseTiming>>>,
    phases: Seq<&str>,
    p: &str,
    i: int,
)
    requires
        0 <= i < reports.len(),
    ensures
        in_every_report(reports, p@) ==> (reports[i] matches Some(t) && table_median(t@, p@) == Some(
            report_medians(reports, p@)[i],
        )),
        report_medians(reports, p@).len() == reports.len(),
        (reports[i] is None || (reports[i] matches Some(t) && table_median(t@, p@) is None))
            ==> !in_every_report(reports, p@),
        common_phases(reports, phases.push(p)) == if in_every_report(reports, p@) {
            common_phases(reports, phases).push(p@)
        } else {
            common_phases(reports, phases)
        },
        common_phases(reports, Seq::<&str>::empty()).len() == 0,
{
    assert(phases.push(p).drop_last() =~= phases);
    assert(phases.push(p).last() == p);
    if in_every_report(reports, p@) {
        assert(report_median(reports[i], p@) is Some);
    }
    if reports[i] is None || (reports[i] matches Some(t) && table_median(t@, p@) is None) {
        assert(report_median(reports[i], p@) is None);
    }
}

/// The index of a phase in a list is that of its first entry, or the length where it has none.
pub proof fn law_first_entry_is_found(list: Seq<PhaseAcross>, phase: Seq<char>, k: int)
    requires
        0 <= k <= list.len(),
    ensures
        k <= across_index(list, phase, k) <= list.len(),
        forall|j: int|
            k <= j < across_index(list, phase, k) ==> (#[trigger] list[j]).phase@ != phase,
        across_index(list, phase, k) < list.len() ==> list[across_index(list, phase, k)].phase@
            == phase,
    decreases list.len() - k,
{
    if k < list.len() && list[k].phase@ != phase {
        law_first_entry_is_found(list, phase, k + 1);
    }
}

/// An aggregated phase is defined as the last report defines it.
pub proof fn law_phase_is_defined_by_the_last_report<F: Fn(u64, u64) -> u64>(
    a: PhaseAcross,
    reports: Seq<Option<Vec<PhaseTiming>>>,
    p: Seq<char>,
    prefix: Seq<char>,
    mean: F,
    k: int,
)
    requires
        is_across(a, reports, p, prefix, mean),
        reports.len() > 0,
        reports.last() is Some,
        0 <= k < reports.last()->0@.len(),
        reports.last()->0@[k].phase@ == p,
        forall|j: int| 0 <= j < k ==> (#[trigger] reports.last()->0@[j]).phase@ != p,
    ensures
        a.phase@ == prefix + "."@ + p,
        a.definition@ == reports.last()->0@[k].definition@,
{
    lemma_phase_from(reports.last()->0@, p, 0, k);
}

} // verus!
