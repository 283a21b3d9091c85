//! The timing tables of a demonstration: phases across processes, and processes
//! that were clocked as a whole.

use vstd::prelude::*;

use crate::demo::plan::{label_of, producer_label};
use crate::experiment::args::Mode;
use crate::experiment::producer::PRODUCER_PHASES;
use crate::experiment::request::REQUEST_PHASES;
use crate::experiment::stats::{is_median, median, no_nans};
use crate::experiment::timing::{aggregate, common_phases, is_across, producer_tag, report_medians,
    tables_are_numbers, PhaseAcross, PhaseTiming};
use crate::text::same_text;

verus! {

/// What a clocked request process measures.
pub const END_TO_END_DEFINITION: &'static str = "parent-measured wall time of one fresh process serving exactly one request: spawn, load, recover, generate, exit";

/// What a clocked producer process measures.
pub const PRODUCER_END_TO_END_DEFINITION: &'static str = "parent-measured wall time of one whole producer child, on a fresh store";

/// `a` is a clocked process under this name.
pub open spec fn clocked<F: Fn(u64, u64) -> u64>(
    a: PhaseAcross,
    name: Seq<char>,
    definition: Seq<char>,
    walls: Seq<u64>,
    mean: F,
) -> bool {
    &&& a.phase@ == name
    &&& a.definition@ == definition
    &&& a.per_process_ms@ == walls
    &&& is_median(a.median_ms, walls, mean)
}

/// The wall times of the clocked processes of a mode.
pub fn end_to_end<F: Fn(u64, u64) -> u64>(mode: Mode, walls: Vec<u64>, mean: F) -> (r: PhaseAcross)
    requires
        no_nans(walls@),
        forall|a: u64, b: u64| call_requires(mean, (a, b)),
    ensures
        clocked(
            r,
            mode.text() + ".fresh_process_end_to_end"@,
            END_TO_END_DEFINITION@,
            walls@,
            mean,
        ),
{
    let mut name: String = mode.as_str().to_owned();
    name.append(".fresh_process_end_to_end");
    let median_ms = median(walls.as_slice(), mean);
    PhaseAcross {
        phase: name,
        definition: END_TO_END_DEFINITION.to_owned(),
        median_ms,
        per_process_ms: walls,
    }
}

/// Whether a clocked producer earned the canonical state; otherwise the run fails
/// with this message.
pub fn check_timing_producer(skip_store: bool, earned: &str, canonical: &str) -> (r: Result<
    (),
    String,
>)
    ensures
        r is Ok <==> earned@ == canonical@,
        r matches Err(e) ==> e@ == producer_label(skip_store) + " timing producer earned state "@
            + earned@ + " != canonical "@ + canonical@,
{
    if same_text(earned, canonical) {
        return Ok(());
    }
    let mut e: String = label_of(skip_store).to_owned();
    e.append(" timing producer earned state ");
    e.append(earned);
    e.append(" != canonical ");
    e.append(canonical);
    Err(e)
}

/// The phases of a list across reports, under prefixed names.
pub open spec fn across_all<F: Fn(u64, u64) -> u64>(
    list: Seq<PhaseAcross>,
    reports: Seq<Option<Vec<PhaseTiming>>>,
    phases: Seq<&str>,
    prefix: Seq<char>,
    mean: F,
) -> bool {
    &&& list.len() == common_phases(reports, phases).len()
    &&& forall|i: int|
        0 <= i < list.len() ==> is_across(
            #[trigger] list[i],
            reports,
            common_phases(reports, phases)[i],
            prefix,
            mean,
        )
}

/// The cost of a producer, and its table: the whole process first, and its phases
/// after it. Without a clocked process there is no cost, which is an error.
pub fn producer_timing<F: Fn(u64, u64) -> u64 + Copy>(
    skip_store: bool,
    walls: Vec<u64>,
    reports: &[Option<Vec<PhaseTiming>>],
    mean: F,
) -> (r: Result<(u64, Vec<PhaseAcross>), String>)
    requires
        no_nans(walls@),
        tables_are_numbers(reports@),
        forall|a: u64, b: u64| call_requires(mean, (a, b)),
    ensures
        r is Err <==> walls@.len() == 0,
        r matches Err(e) ==> e@ == producer_label(skip_store)
            + " producer timing produced no median"@,
        r matches Ok((ms, table)) ==> {
            &&& table@.len() > 0
            &&& table@[0].median_ms == Some(ms)
            &&& clocked(
                table@[0],
                producer_tag(producer_label(skip_store)),
                PRODUCER_END_TO_END_DEFINITION@,
                walls@,
                mean,
            )
            &&& across_all(
                table@.drop_first(),
                reports@,
                PRODUCER_PHASES@,
                "producer-"@ + producer_label(skip_store),
                mean,
            )
        },
{
    let label = label_of(skip_store);
    let median_ms = median(walls.as_slice(), mean);
    match median_ms {
        None => {
            let mut e: String = label.to_owned();
            e.append(" producer timing produced no median");
            Err(e)
        },
        Some(ms) => {
            let mut prefix: String = "producer-".to_owned();
            prefix.append(label);
            let mut name: String = prefix.clone();
            name.append(".fresh_process_end_to_end");
            assert(name@ =~= producer_tag(label@));
            let phases = PRODUCER_PHASES;
            let rest = aggregate(reports, phases.as_slice(), prefix.as_str(), mean);
            let mut table: Vec<PhaseAcross> = Vec::new();
            table.push(
                PhaseAcross {
                    phase: name,
                    definition: PRODUCER_END_TO_END_DEFINITION.to_owned(),
                    median_ms,
                    per_process_ms: walls,
                },
            );
            let ghost first = table@[0];
            let ghost tail = rest@;
            let mut rest = rest;
            table.append(&mut rest);
            assert(table@ =~= seq![first] + tail);
            assert(table@.drop_first() =~= tail);
            Ok((ms, table))
        },
    }
}

/// The same times under the same name.
fn copied(a: &PhaseAcross) -> (r: PhaseAcross)
    ensures
        r.phase@ == a.phase@,
        r.definition@ == a.definition@,
        r.per_process_ms@ == a.per_process_ms@,
        r.median_ms == a.median_ms,
{
    PhaseAcross {
        phase: a.phase.clone(),
        definition: a.definition.clone(),
        per_process_ms: a.per_process_ms.clone(),
        median_ms: a.median_ms,
    }
}

/// Two entries say the same.
pub open spec fn same_entry(a: PhaseAcross, b: PhaseAcross) -> bool {
    &&& a.phase@ == b.phase@
    &&& a.definition@ == b.definition@
    &&& a.per_process_ms@ == b.per_process_ms@
    &&& a.median_ms == b.median_ms
}

/// The request timing table: the phases of each mode, and after them the clocked
/// processes.
pub open spec fn request_table<F: Fn(u64, u64) -> u64>(
    table: Seq<PhaseAcross>,
    baseline: Seq<Option<Vec<PhaseTiming>>>,
    raw: Seq<Option<Vec<PhaseTiming>>>,
    vole: Seq<Option<Vec<PhaseTiming>>>,
    whole: Seq<PhaseAcross>,
    mean: F,
) -> bool {
    let p = REQUEST_PHASES@;
    let b = common_phases(baseline, p).len() as int;
    let r = b + common_phases(raw, p).len();
    let v = r + common_phases(vole, p).len();
    &&& table.len() == v + whole.len()
    &&& across_all(table.subrange(0, b), baseline, p, "baseline"@, mean)
    &&& across_all(table.subrange(b, r), raw, p, "raw"@, mean)
    &&& across_all(table.subrange(r, v), vole, p, "vole"@, mean)
    &&& forall|i: int| 0 <= i < whole.len() ==> same_entry(#[trigger] table[v + i], whole[i])
}

/// The request timing table.
pub fn request_timing<F: Fn(u64, u64) -> u64 + Copy>(
    baseline: &[Option<Vec<PhaseTiming>>],
    raw: &[Option<Vec<PhaseTiming>>],
    vole: &[Option<Vec<PhaseTiming>>],
    whole: &Vec<PhaseAcross>,
    mean: F,
) -> (table: Vec<PhaseAcross>)
    requires
        tables_are_numbers(baseline@),
        tables_are_numbers(raw@),
        tables_are_numbers(vole@),
        forall|a: u64, b: u64| call_requires(mean, (a, b)),
    ensures
        request_table(table@, baseline@, raw@, vole@, whole@, mean),
{
    let phases = REQUEST_PHASES;
    let mut table = aggregate(baseline, phases.as_slice(), "baseline", mean);
    let mut second = aggregate(raw, phases.as_slice(), "raw", mean);
    let mut third = aggregate(vole, phases.as_slice(), "vole", mean);
    let ghost a = table@;
    let ghost b = second@;
    let ghost c = third@;
    table.append(&mut second);
    table.append(&mut third);
    let ghost head = a + b + c;
    assert(table@ =~= head);
    let mut i: usize = 0;
    while i < whole.len()
        invariant
            i <= whole@.len(),
            table@.len() == head.len() + i,
            table@.take(head.len() as int) == head,
            forall|j: int| 0 <= j < i ==> same_entry(#[trigger] table@[head.len() + j], whole@[j]),
        decreases whole@.len() - i,
    {
        table.push(copied(&whole[i]));
        assert(table@.take(head.len() as int) =~= head);
        i = i + 1;
    }
    proof {
        let n1 = a.len() as int;
        let n2 = n1 + b.len();
        let n3 = n2 + c.len();
        let t = table@.take(head.len() as int);
        assert(table@.subrange(0, n1) =~= t.subrange(0, n1));
        assert(table@.subrange(n1, n2) =~= t.subrange(n1, n2));
        assert(table@.subrange(n2, n3) =~= t.subrange(n2, n3));
        assert(head.subrange(0, n1) =~= a);
        assert(head.subrange(n1, n2) =~= b);
        assert(head.subrange(n2, n3) =~= c);
    }
    table
}

/// The request table is that of the replaying path, then that of the raw one, then that of
/// the restoring one, and then the whole processes. An entry is named by its path and its
/// phase, and is of one number from each process.
pub proof fn law_request_table_is_path_by_path<F: Fn(u64, u64) -> u64>(
    table: Seq<PhaseAcross>,
    baseline: Seq<Option<Vec<PhaseTiming>>>,
    raw: Seq<Option<Vec<PhaseTiming>>>,
    vole: Seq<Option<Vec<PhaseTiming>>>,
    whole: Seq<PhaseAcross>,
    mean: F,
    i: int,
)
    requires
        request_table(table, baseline, raw, vole, whole, mean),
    ensures
        ({
            let p = REQUEST_PHASES@;
            let b = common_phases(baseline, p);
            let r = common_phases(raw, p);
            let v = common_phases(vole, p);
            &&& table.len() == b.len() + r.len() + v.len() + whole.len()
            &&& 0 <= i < b.len() ==> {
                &&& table[i].phase@ == "baseline"@ + "."@ + b[i]
                &&& table[i].per_process_ms@ == report_medians(baseline, b[i])
                &&& is_median(table[i].median_ms, table[i].per_process_ms@, mean)
            }
            &&& 0 <= i < r.len() ==> {
                let e = table[b.len() + i];
                &&& e.phase@ == "raw"@ + "."@ + r[i]
                &&& e.per_process_ms@ == report_medians(raw, r[i])
                &&& is_median(e.median_ms, e.per_process_ms@, mean)
            }
            &&& 0 <= i < v.len() ==> {
                let e = table[b.len() + r.len() + i];
                &&& e.phase@ == "vole"@ + "."@ + v[i]
                &&& e.per_process_ms@ == report_medians(vole, v[i])
                &&& is_median(e.median_ms, e.per_process_ms@, mean)
            }
            &&& 0 <= i < whole.len() ==> {
                let e = table[b.len() + r.len() + v.len() + i];
                &&& e.phase@ == whole[i].phase@
                &&& e.per_process_ms@ == whole[i].per_process_ms@
                &&& e.median_ms == whole[i].median_ms
            }
        }),
{
    let p = REQUEST_PHASES@;
    let nb = common_phases(baseline, p).len() as int;
    let nr = nb + common_phases(raw, p).len();
    let nv = nr + common_phases(vole, p).len();
    let (x, y, z) = (table.subrange(0, nb), table.subrange(nb, nr), table.subrange(nr, nv));
    if 0 <= i < nb {
        assert(x[i] == table[i]);
    }
    if 0 <= i < nr - nb {
        assert(y[i] == table[nb + i]);
    }
    if 0 <= i < nv - nr {
        assert(z[i] == table[nr + i]);
    }
    if 0 <= i < whole.len() {
        assert(same_entry(table[nv + i], whole[i]));
    }
}

/// A clocked series is shown under its name by its wall times and their median.
pub proof fn law_series_is_its_wall_times<F: Fn(u64, u64) -> u64>(
    a: PhaseAcross,
    name: Seq<char>,
    definition: Seq<char>,
    walls: Seq<u64>,
    mean: F,
)
    requires
        clocked(a, name, definition, walls, mean),
    ensures
        a.phase@ == name,
        a.definition@ == definition,
        a.per_process_ms@ == walls,
        is_median(a.median_ms, walls, mean),
{
}

} // verus!
