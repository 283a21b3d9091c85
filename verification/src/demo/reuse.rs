//! The cost of repeated related requests, and from which number on reuse pays.
//!
//! Times are milliseconds as `binary64` bit patterns.

use vstd::prelude::*;

use crate::demo::distinct::{distinct_count, distinct_texts, texts};
use crate::demo::plan::N_POINTS;
use crate::experiment::stats::{float_less, less};
use crate::scene::Request;
use crate::text::{decimal, push_decimal};

verus! {

/// One point of the sweep.
#[derive(Debug)]
pub struct ReusePoint {
    /// Number of fresh related requests.
    pub n: usize,
    /// Wall time of `n` baseline processes.
    pub c_baseline_ms: u64,
    /// Wall time of `n` restoring processes and of the producer that they rest on.
    pub c_vole_ms: u64,
    /// Wall time of `n` raw-checkpoint processes and of the producer that they rest
    /// on.
    pub c_raw_ms: u64,
    /// One-time cost of the producer that uses the store.
    pub vole_producer_ms: u64,
    /// One-time cost of the producer that writes the raw file only.
    pub raw_producer_ms: u64,
    /// Request programs used, in order.
    pub requests: Vec<String>,
    /// Different request programs among them.
    pub distinct_request_programs: usize,
    /// Different outputs of the baseline processes.
    pub distinct_baseline_outputs: usize,
    /// Wall times of the baseline processes, in order.
    pub baseline_per_request_ms: Vec<u64>,
    /// Wall times of the restoring processes, in order.
    pub vole_per_request_ms: Vec<u64>,
    /// Wall times of the raw-checkpoint processes, in order.
    pub raw_per_request_ms: Vec<u64>,
}

/// The request programs of a point, which take turns.
pub open spec fn rotation(n: nat) -> Seq<Seq<char>> {
    Seq::new(n, |i: int| Request::ALL@[i % 6].text())
}

/// The names of the request programs of a point.
fn rotation_names(n: usize) -> (r: Vec<String>)
    ensures
        texts(r@) == rotation(n as nat),
{
    let all = Request::ALL;
    let mut out: Vec<String> = Vec::new();
    let mut i: usize = 0;
    while i < n
        invariant
            i <= n,
            all == Request::ALL,
            out@.len() == i,
            forall|j: int| 0 <= j < i ==> (#[trigger] out@[j])@ == Request::ALL@[j % 6].text(),
        decreases n - i,
    {
        out.push(all[i % 6].name().to_owned());
        i = i + 1;
    }
    assert(texts(out@) =~= rotation(n as nat));
    out
}

/// `total` is the one-time cost and the times, added up.
pub open spec fn totals<S: Fn(&Vec<u64>) -> u64, P: Fn(u64, u64) -> u64>(
    once: u64,
    times: Vec<u64>,
    total: u64,
    sum: S,
    plus: P,
) -> bool {
    exists|s: u64| call_ensures(sum, (&times,), s) && #[trigger] call_ensures(plus, (once, s), total)
}

/// `r` is the point of a sweep with these wall times, hashes of baseline outputs and
/// one-time costs.
pub open spec fn is_point<S: Fn(&Vec<u64>) -> u64, P: Fn(u64, u64) -> u64>(
    r: ReusePoint,
    n: usize,
    baseline: Vec<u64>,
    raw: Vec<u64>,
    vole: Vec<u64>,
    baseline_hashes: Seq<Seq<char>>,
    vole_producer_ms: u64,
    raw_producer_ms: u64,
    sum: S,
    plus: P,
) -> bool {
    &&& r.n == n
    &&& call_ensures(sum, (&baseline,), r.c_baseline_ms)
    &&& totals(vole_producer_ms, vole, r.c_vole_ms, sum, plus)
    &&& totals(raw_producer_ms, raw, r.c_raw_ms, sum, plus)
    &&& r.vole_producer_ms == vole_producer_ms
    &&& r.raw_producer_ms == raw_producer_ms
    &&& texts(r.requests@) == rotation(n as nat)
    &&& r.distinct_request_programs == distinct_count(rotation(n as nat))
    &&& r.distinct_baseline_outputs == distinct_count(baseline_hashes)
    &&& r.baseline_per_request_ms == baseline
    &&& r.vole_per_request_ms == vole
    &&& r.raw_per_request_ms == raw
}

/// A point of the sweep, from the wall times of its processes and the hashes of its
/// baseline outputs.
pub fn reuse_point<S: Fn(&Vec<u64>) -> u64, P: Fn(u64, u64) -> u64>(
    n: usize,
    baseline: Vec<u64>,
    raw: Vec<u64>,
    vole: Vec<u64>,
    baseline_hashes: &[String],
    vole_producer_ms: u64,
    raw_producer_ms: u64,
    sum: S,
    plus: P,
) -> (r: ReusePoint)
    requires
        forall|v: &Vec<u64>| call_requires(sum, (v,)),
        forall|a: u64, b: u64| call_requires(plus, (a, b)),
    ensures
        is_point(
            r,
            n,
            baseline,
            raw,
            vole,
            texts(baseline_hashes@),
            vole_producer_ms,
            raw_producer_ms,
            sum,
            plus,
        ),
{
    let requests = rotation_names(n);
    let distinct_request_programs: usize = distinct_texts(requests.as_slice());
    let distinct_baseline_outputs: usize = distinct_texts(baseline_hashes);
    let c_baseline_ms: u64 = sum(&baseline);
    let vole_sum: u64 = sum(&vole);
    let c_vole_ms: u64 = plus(vole_producer_ms, vole_sum);
    let raw_sum: u64 = sum(&raw);
    let c_raw_ms: u64 = plus(raw_producer_ms, raw_sum);
    ReusePoint {
        n,
        c_baseline_ms,
        c_vole_ms,
        c_raw_ms,
        vole_producer_ms,
        raw_producer_ms,
        requests,
        distinct_request_programs,
        distinct_baseline_outputs,
        baseline_per_request_ms: baseline,
        vole_per_request_ms: vole,
        raw_per_request_ms: raw,
    }
}

/// The request programs take turns without repeating one before all six were used.
pub proof fn law_rotation_uses_every_program(n: nat)
    ensures
        distinct_count(rotation(n)) == if n < 6 {
            n
        } else {
            6
        },
{
    let r = rotation(n);
    let m: nat = if n < 6 {
        n
    } else {
        6
    };
    let first = rotation(m);
    assert(first.no_duplicates()) by {
        assert forall|i: int, j: int| 0 <= i < m && 0 <= j < m && i != j implies first[i]
            != first[j] by {
            let all = Request::ALL@;
            assert(i % 6 == i && j % 6 == j);
            assert(all[i] != all[j]);
            Request::lemma_names_differ(all[i], all[j]);
        }
    }
    first.unique_seq_to_set();
    assert(r.to_set() =~= first.to_set()) by {
        assert forall|x: Seq<char>| r.contains(x) implies first.contains(x) by {
            let i = choose|i: int| 0 <= i < r.len() && r[i] == x;
            assert(first[i % 6] == x);
        }
        assert forall|x: Seq<char>| first.contains(x) implies r.contains(x) by {
            let i = choose|i: int| 0 <= i < first.len() && first[i] == x;
            assert(r[i] == x);
        }
    }
}

// ---------------------------------------------------------------------------
// The break-even point
// ---------------------------------------------------------------------------

/// The repeated-request result.
#[derive(Debug)]
pub struct ReuseInfo {
    /// Tested numbers of requests.
    pub n_points: Vec<usize>,
    /// The sweep.
    pub points: Vec<ReusePoint>,
    /// The smallest tested number for which reuse was cheaper.
    pub n_star: Option<usize>,
    /// A sentence that states this result.
    pub n_star_note: String,
    /// How many processes the sweep ran in each mode.
    pub fresh_processes_per_mode: usize,
    /// Every request ran in a process of its own.
    pub every_request_in_a_fresh_process: bool,
}

/// The first point, from `k` on, at which reuse was cheaper.
pub open spec fn crossing(points: Seq<ReusePoint>, k: int) -> Option<usize>
    decreases points.len() - k,
{
    if k >= points.len() {
        None
    } else if float_less(points[k].c_vole_ms, points[k].c_baseline_ms) {
        Some(points[k].n)
    } else {
        crossing(points, k + 1)
    }
}

/// The first point at which reuse was cheaper.
pub fn n_star(points: &[ReusePoint]) -> (r: Option<usize>)
    ensures
        r == crossing(points@, 0),
{
    let mut k: usize = 0;
    while k < points.len()
        invariant
            k <= points@.len(),
            crossing(points@, 0) == crossing(points@, k as int),
        decreases points@.len() - k,
    {
        if less(points[k].c_vole_ms, points[k].c_baseline_ms) {
            return Some(points[k].n);
        }
        k = k + 1;
    }
    None
}

/// The sentence about the break-even point, for a sweep up to `last` requests.
pub open spec fn crossing_note(n_star: Option<usize>, last: nat) -> Seq<char> {
    match n_star {
        Some(n) => "smallest tested N with C_vole(N) < C_baseline(N): "@ + decimal(n as nat)
            + " of "@ + decimal(last),
        None => "no crossover within the tested range: N* > "@ + decimal(last),
    }
}

/// The sentence about the break-even point.
pub fn n_star_note(n_star: Option<usize>, last: usize) -> (r: String)
    ensures
        r@ == crossing_note(n_star, last as nat),
{
    let mut s: String = String::new();
    match n_star {
        Some(n) => {
            s.append("smallest tested N with C_vole(N) < C_baseline(N): ");
            push_decimal(&mut s, n as u64);
            s.append(" of ");
        },
        None => {
            s.append("no crossover within the tested range: N* > ");
        },
    }
    push_decimal(&mut s, last as u64);
    assert(s@ =~= crossing_note(n_star, last as nat));
    s
}

/// The requests of all points.
pub open spec fn requests_in(points: Seq<ReusePoint>) -> nat
    decreases points.len(),
{
    if points.len() == 0 {
        0
    } else {
        requests_in(points.drop_last()) + points.last().n as nat
    }
}

/// The part of a sweep has no more requests than all of it.
proof fn lemma_requests_grow(points: Seq<ReusePoint>, k: int)
    requires
        0 <= k <= points.len(),
    ensures
        requests_in(points.take(k)) <= requests_in(points),
    decreases points.len() - k,
{
    if k < points.len() {
        lemma_requests_grow(points, k + 1);
        assert(points.take(k + 1).drop_last() =~= points.take(k));
    } else {
        assert(points.take(k) =~= points);
    }
}

/// `r` is the result of a sweep.
pub open spec fn is_reuse_info(r: ReuseInfo, points: Vec<ReusePoint>) -> bool {
    &&& r.n_points@ == N_POINTS@
    &&& r.points == points
    &&& r.n_star == crossing(points@, 0)
    &&& r.n_star_note@ == crossing_note(r.n_star, 16)
    &&& r.fresh_processes_per_mode == requests_in(points@)
    &&& r.every_request_in_a_fresh_process
}

/// The result of a sweep.
pub fn reuse_info(points: Vec<ReusePoint>) -> (r: ReuseInfo)
    requires
        requests_in(points@) <= usize::MAX,
    ensures
        is_reuse_info(r, points),
{
    let mut total: usize = 0;
    let mut k: usize = 0;
    assert(points@.take(0) =~= Seq::<ReusePoint>::empty());
    while k < points.len()
        invariant
            k <= points@.len(),
            requests_in(points@) <= usize::MAX,
            total == requests_in(points@.take(k as int)),
        decreases points@.len() - k,
    {
        proof {
            lemma_requests_grow(points@, k + 1);
            assert(points@.take(k + 1).drop_last() =~= points@.take(k as int));
        }
        total = total + points[k].n;
        k = k + 1;
    }
    assert(points@.take(k as int) =~= points@);
    let tested = N_POINTS;
    let mut n_points: Vec<usize> = Vec::new();
    let mut i: usize = 0;
    while i < 5
        invariant
            i <= 5,
            tested == N_POINTS,
            n_points@ == tested@.take(i as int),
        decreases 5 - i,
    {
        n_points.push(tested[i]);
        assert(n_points@ =~= tested@.take(i + 1));
        i = i + 1;
    }
    assert(n_points@ =~= N_POINTS@);
    let star = n_star(points.as_slice());
    ReuseInfo {
        n_points,
        n_star: star,
        n_star_note: n_star_note(star, tested[4]),
        fresh_processes_per_mode: total,
        every_request_in_a_fresh_process: true,
        points,
    }
}

/// The break-even number is the first tested one: reuse was cheaper there, and at
/// no earlier point.
pub proof fn law_break_even_is_the_first(points: Seq<ReusePoint>, k: int)
    requires
        0 <= k <= points.len(),
        forall|j: int|
            0 <= j < k ==> !float_less((#[trigger] points[j]).c_vole_ms, points[j].c_baseline_ms),
    ensures
        k == points.len() ==> crossing(points, 0) is None,
        k < points.len() && float_less(points[k].c_vole_ms, points[k].c_baseline_ms) ==> crossing(
            points,
            0,
        ) == Some(points[k].n),
{
    lemma_crossing_from(points, k, 0);
}

/// Points at which reuse was not cheaper can be passed over.
proof fn lemma_crossing_from(points: Seq<ReusePoint>, k: int, from: int)
    requires
        0 <= from <= k <= points.len(),
        forall|j: int|
            0 <= j < k ==> !float_less((#[trigger] points[j]).c_vole_ms, points[j].c_baseline_ms),
    ensures
        crossing(points, from) == crossing(points, k),
    decreases k - from,
{
    if from < k {
        lemma_crossing_from(points, k, from + 1);
    }
}

/// What a point of the sweep costs: the replaying path the sum of its requests, the restoring
/// and the raw path what their producer costs once and the sum of theirs. The requests are the
/// six programs in turn.
pub proof fn law_points_add_up<S: Fn(&Vec<u64>) -> u64, P: Fn(u64, u64) -> u64>(
    r: ReusePoint,
    n: usize,
    baseline: Vec<u64>,
    raw: Vec<u64>,
    vole: Vec<u64>,
    baseline_hashes: Seq<Seq<char>>,
    vole_producer_ms: u64,
    raw_producer_ms: u64,
    sum: S,
    plus: P,
    i: int,
)
    requires
        is_point(
            r,
            n,
            baseline,
            raw,
            vole,
            baseline_hashes,
            vole_producer_ms,
            raw_producer_ms,
            sum,
            plus,
        ),
        0 <= i < n,
    ensures
        r.n == n,
        call_ensures(sum, (&baseline,), r.c_baseline_ms),
        exists|s: u64| call_ensures(sum, (&vole,), s) && #[trigger] call_ensures(
            plus,
            (vole_producer_ms, s),
            r.c_vole_ms,
        ),
        exists|s: u64| call_ensures(sum, (&raw,), s) && #[trigger] call_ensures(
            plus,
            (raw_producer_ms, s),
            r.c_raw_ms,
        ),
        r.baseline_per_request_ms == baseline,
        r.vole_per_request_ms == vole,
        r.raw_per_request_ms == raw,
        r.vole_producer_ms == vole_producer_ms,
        r.raw_producer_ms == raw_producer_ms,
        r.requests@.len() == n,
        r.requests@[i]@ == Request::ALL@[i % 6].text(),
{
    assert(texts(r.requests@).len() == r.requests@.len());
    assert(texts(r.requests@)[i] == r.requests@[i]@);
}

/// The break-even point is the first at which the restoring path cost less, and all points
/// together served the sum of their requests.
pub proof fn law_break_even_costs_less(points: Seq<ReusePoint>, last: ReusePoint)
    ensures
        crossing(points, 0) matches Some(n) ==> exists|k: int|
            {
                &&& 0 <= k < points.len()
                &&& (#[trigger] points[k]).n == n
                &&& float_less(points[k].c_vole_ms, points[k].c_baseline_ms)
            },
        requests_in(points.push(last)) == requests_in(points) + last.n,
        requests_in(Seq::<ReusePoint>::empty()) == 0,
{
    assert(points.push(last).drop_last() =~= points);
    if crossing(points, 0) is Some {
        lemma_crossing_is_a_point(points, 0);
    }
}

/// Where the costs cross is a point.
proof fn lemma_crossing_is_a_point(points: Seq<ReusePoint>, from: int)
    requires
        0 <= from,
        crossing(points, from) is Some,
    ensures
        exists|k: int|
            {
                &&& from <= k < points.len()
                &&& (#[trigger] points[k]).n == crossing(points, from)->0
                &&& float_less(points[k].c_vole_ms, points[k].c_baseline_ms)
            },
    decreases points.len() - from,
{
    if float_less(points[from].c_vole_ms, points[from].c_baseline_ms) {
        assert(points[from].n == crossing(points, from)->0);
    } else {
        lemma_crossing_is_a_point(points, from + 1);
    }
}

/// What is said of the sweep as a whole: its points, where the restoring path first cost less,
/// and how many processes served it in each path. A point counts its different programs and
/// its different outputs.
pub proof fn law_sweep_is_summed_up<S: Fn(&Vec<u64>) -> u64, P: Fn(u64, u64) -> u64>(
    r: ReuseInfo,
    points: Vec<ReusePoint>,
    p: ReusePoint,
    n: usize,
    baseline: Vec<u64>,
    raw: Vec<u64>,
    vole: Vec<u64>,
    baseline_hashes: Seq<Seq<char>>,
    vole_producer_ms: u64,
    raw_producer_ms: u64,
    sum: S,
    plus: P,
)
    requires
        is_reuse_info(r, points),
        is_point(
            p,
            n,
            baseline,
            raw,
            vole,
            baseline_hashes,
            vole_producer_ms,
            raw_producer_ms,
            sum,
            plus,
        ),
    ensures
        r.n_points@ == seq![1usize, 2, 4, 8, 16],
        r.points == points,
        r.n_star == crossing(points@, 0),
        r.fresh_processes_per_mode == requests_in(points@),
        r.every_request_in_a_fresh_process,
        r.n_star matches Some(k) ==> r.n_star_note@
            == "smallest tested N with C_vole(N) < C_baseline(N): "@ + decimal(k as nat) + " of "@
            + decimal(16),
        r.n_star is None ==> r.n_star_note@ == "no crossover within the tested range: N* > "@
            + decimal(16),
        p.distinct_baseline_outputs == baseline_hashes.to_set().len(),
        n < 6 ==> p.distinct_request_programs == n,
        n >= 6 ==> p.distinct_request_programs == 6,
{
    law_rotation_uses_every_program(n as nat);
    assert(N_POINTS@ =~= seq![1usize, 2, 4, 8, 16]);
}

} // verus!
