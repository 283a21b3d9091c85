//! Small statistics on `binary64` numbers, which are held as bit patterns.

use vstd::prelude::*;

use crate::model::params::ints;

verus! {

/// The bits of the magnitude: all but the sign.
pub open spec fn magnitude(bits: u64) -> int {
    bits as int % 0x8000_0000_0000_0000
}

/// Whether these bits are no number.
pub open spec fn is_nan(bits: u64) -> bool {
    magnitude(bits) > 0x7ff0_0000_0000_0000
}

/// An integer by which numbers are ordered as `binary64` orders them; the two
/// zeros are equal.
pub open spec fn order_key(bits: u64) -> int {
    if bits >= 0x8000_0000_0000_0000 {
        -magnitude(bits)
    } else {
        magnitude(bits)
    }
}

/// `a < b`, which no comparison with a NaN is.
pub open spec fn float_less(a: u64, b: u64) -> bool {
    !is_nan(a) && !is_nan(b) && order_key(a) < order_key(b)
}

/// Whether `a < b` as numbers.
pub fn less(a: u64, b: u64) -> (r: bool)
    ensures
        r == float_less(a, b),
{
    let ma: u64 = a % 0x8000_0000_0000_0000;
    let mb: u64 = b % 0x8000_0000_0000_0000;
    let na: bool = a >= 0x8000_0000_0000_0000;
    let nb: bool = b >= 0x8000_0000_0000_0000;
    if ma > 0x7ff0_0000_0000_0000 || mb > 0x7ff0_0000_0000_0000 {
        false
    } else if na && nb {
        mb < ma
    } else if na {
        ma > 0 || mb > 0
    } else if nb {
        false
    } else {
        ma < mb
    }
}

/// No element is a NaN.
pub open spec fn no_nans(s: Seq<u64>) -> bool {
    forall|i: int| 0 <= i < s.len() ==> !is_nan(#[trigger] s[i])
}

/// `x` put into a list behind every element that is not larger.
pub open spec fn put(s: Seq<u64>, x: u64) -> Seq<u64>
    decreases s.len(),
{
    if s.len() == 0 || !float_less(x, s.last()) {
        s.push(x)
    } else {
        put(s.drop_last(), x).push(s.last())
    }
}

/// A list in ascending order, equal elements in the order in which they came.
pub open spec fn sorted(s: Seq<u64>) -> Seq<u64>
    decreases s.len(),
{
    if s.len() == 0 {
        s
    } else {
        put(sorted(s.drop_last()), s.last())
    }
}

/// No element is larger than one that follows it.
pub open spec fn ascending(s: Seq<u64>) -> bool {
    forall|i: int, j: int| 0 <= i <= j < s.len() ==> order_key(s[i]) <= order_key(s[j])
}

/// Putting an element in keeps the order and adds just that element.
proof fn lemma_put(s: Seq<u64>, x: u64)
    requires
        no_nans(s),
        !is_nan(x),
        ascending(s),
    ensures
        no_nans(put(s, x)),
        ascending(put(s, x)),
        put(s, x).len() == s.len() + 1,
        put(s, x).to_multiset() == s.to_multiset().insert(x),
        forall|i: int|
            0 <= i < put(s, x).len() ==> #[trigger] order_key(put(s, x)[i]) <= order_key(x)
                || (s.len() > 0 && order_key(put(s, x)[i]) <= order_key(s.last())),
    decreases s.len(),
{
    broadcast use vstd::seq_lib::group_to_multiset_ensures;

    if s.len() == 0 || !float_less(x, s.last()) {
        assert(put(s, x) == s.push(x));
    } else {
        let front = s.drop_last();
        lemma_put(front, x);
        let p = put(front, x);
        assert(put(s, x) == p.push(s.last()));
        assert forall|i: int| 0 <= i < p.len() implies order_key(#[trigger] p[i]) <= order_key(
            s.last(),
        ) by {
            assert(order_key(p[i]) <= order_key(x) || (front.len() > 0 && order_key(p[i])
                <= order_key(front.last())));
            if front.len() > 0 {
                assert(front.last() == s[s.len() - 2]);
            }
        }
        assert(s =~= front.push(s.last()));
        assert(s.to_multiset() =~= front.to_multiset().insert(s.last()));
        assert(put(s, x).to_multiset() =~= s.to_multiset().insert(x));
    }
}

/// Sorting gives an ascending list of exactly the elements that were given.
pub proof fn law_sorting_orders_and_keeps(s: Seq<u64>)
    requires
        no_nans(s),
    ensures
        ascending(sorted(s)),
        sorted(s).len() == s.len(),
        sorted(s).to_multiset() == s.to_multiset(),
        no_nans(sorted(s)),
    decreases s.len(),
{
    broadcast use vstd::seq_lib::group_to_multiset_ensures;

    if s.len() > 0 {
        law_sorting_orders_and_keeps(s.drop_last());
        lemma_put(sorted(s.drop_last()), s.last());
        assert(s =~= s.drop_last().push(s.last()));
        assert(s.to_multiset() =~= s.drop_last().to_multiset().insert(s.last()));
    }
}

/// Where [`put`] puts an element.
proof fn lemma_put_at(s: Seq<u64>, x: u64, j: int)
    requires
        0 <= j <= s.len(),
        forall|i: int| j <= i < s.len() ==> float_less(x, #[trigger] s[i]),
        j > 0 ==> !float_less(x, s[j - 1]),
    ensures
        put(s, x) == s.insert(j, x),
    decreases s.len(),
{
    if j < s.len() {
        lemma_put_at(s.drop_last(), x, j);
        assert(s.drop_last().insert(j, x).push(s.last()) =~= s.insert(j, x));
    } else {
        assert(s.insert(j, x) =~= s.push(x));
    }
}

/// The samples in ascending order.
pub fn sort(samples: &[u64]) -> (out: Vec<u64>)
    ensures
        out@ == sorted(samples@),
{
    let mut out: Vec<u64> = Vec::new();
    let mut i: usize = 0;
    assert(samples@.take(0) =~= Seq::<u64>::empty());
    while i < samples.len()
        invariant
            i <= samples@.len(),
            out@ == sorted(samples@.take(i as int)),
        decreases samples@.len() - i,
    {
        let x: u64 = samples[i];
        let mut j: usize = out.len();
        while j > 0 && less(x, out[j - 1])
            invariant
                j <= out@.len(),
                forall|k: int| j <= k < out@.len() ==> float_less(x, #[trigger] out@[k]),
            ensures
                j <= out@.len(),
                forall|k: int| j <= k < out@.len() ==> float_less(x, #[trigger] out@[k]),
                j > 0 ==> !float_less(x, out@[j - 1]),
            decreases j,
        {
            j = j - 1;
        }
        proof {
            lemma_put_at(out@, x, j as int);
            assert(samples@.take(i + 1).drop_last() =~= samples@.take(i as int));
            assert(samples@.take(i + 1).last() == x);
        }
        out.insert(j, x);
        i = i + 1;
    }
    assert(samples@.take(i as int) =~= samples@);
    out
}

/// Whether `m` is a median of `samples`: nothing for no samples, the middle one
/// of an odd number, and what `mean` makes of the two middle ones of an even
/// number.
pub open spec fn is_median<F: Fn(u64, u64) -> u64>(
    m: Option<u64>,
    samples: Seq<u64>,
    mean: F,
) -> bool {
    let n = samples.len() as int;
    let v = sorted(samples);
    if n == 0 {
        m is None
    } else if n % 2 == 1 {
        m == Some(v[n / 2])
    } else {
        m matches Some(x) && call_ensures(mean, (v[n / 2 - 1], v[n / 2]), x)
    }
}

/// Median of a sample set, with `mean` for the mean of two numbers. `None` when
/// there is nothing to take a median of.
pub fn median<F: Fn(u64, u64) -> u64>(samples: &[u64], mean: F) -> (r: Option<u64>)
    requires
        no_nans(samples@),
        forall|a: u64, b: u64| call_requires(mean, (a, b)),
    ensures
        is_median(r, samples@, mean),
{
    let n: usize = samples.len();
    if n == 0 {
        return None;
    }
    let v = sort(samples);
    proof {
        law_sorting_orders_and_keeps(samples@);
    }
    if n % 2 == 1 {
        Some(v[n / 2])
    } else {
        Some(mean(v[n / 2 - 1], v[n / 2]))
    }
}

/// A median lies between the smallest and the largest sample, when their number
/// is odd, and as many samples lie on either side of it.
pub proof fn law_odd_median_is_in_the_middle(samples: Seq<u64>)
    requires
        no_nans(samples),
        samples.len() % 2 == 1,
    ensures
        ({
            let v = sorted(samples);
            let mid = samples.len() as int / 2;
            &&& samples.contains(v[mid])
            &&& forall|i: int| 0 <= i <= mid ==> #[trigger] order_key(v[i]) <= order_key(v[mid])
            &&& forall|i: int|
                mid <= i < v.len() ==> order_key(v[mid]) <= #[trigger] order_key(v[i])
            &&& v.len() - mid == mid + 1
        }),
{
    broadcast use vstd::seq_lib::group_to_multiset_ensures;

    law_sorting_orders_and_keeps(samples);
    let v = sorted(samples);
    let mid = samples.len() as int / 2;
    assert(v.contains(v[mid]));
    assert(v.to_multiset().count(v[mid]) > 0);
    assert(samples.to_multiset().count(v[mid]) > 0);
}

// ---------------------------------------------------------------------------
// Indices and runs
// ---------------------------------------------------------------------------

/// Evenly spaced indices below `len`, exactly `k` of them, from the first to the last.
/// Where there are fewer than `k` to pick from, some are picked again.
pub open spec fn spaced(len: int, k: int) -> Seq<int> {
    if len <= 0 || k <= 0 {
        Seq::empty()
    } else if k == 1 {
        seq![0]
    } else {
        Seq::new(k as nat, |i: int| i * (len - 1) / (k - 1))
    }
}

/// Evenly spaced indices below `len`, exactly `k` of them; none where there is nothing to
/// pick from.
pub fn sample_indices(len: usize, k: usize) -> (r: Vec<usize>)
    requires
        len > 0 && k > 1 ==> (k - 1) * (len - 1) <= usize::MAX,
    ensures
        ints(r@) == spaced(len as int, k as int),
{
    let mut out: Vec<usize> = Vec::new();
    if len == 0 || k == 0 {
        assert(ints(out@) =~= spaced(len as int, k as int));
        return out;
    }
    if k == 1 {
        out.push(0);
        assert(ints(out@) =~= spaced(len as int, k as int));
        return out;
    }
    let mut i: usize = 0;
    while i < k
        invariant
            i <= k,
            0 < len,
            1 < k,
            (k - 1) * (len - 1) <= usize::MAX,
            out@.len() == i,
            forall|j: int| 0 <= j < i ==> out@[j] == #[trigger] spaced(len as int, k as int)[j],
        decreases k - i,
    {
        proof {
            assert(i * (len - 1) <= (k - 1) * (len - 1)) by (nonlinear_arith)
                requires
                    i <= k - 1,
                    len >= 1,
            ;
        }
        let pick: usize = i * (len - 1) / (k - 1);
        assert(pick as int == (i as int) * (len - 1) / (k - 1));
        out.push(pick);
        assert(out@.last() as int == spaced(len as int, k as int)[i as int]);
        i = i + 1;
    }
    assert(ints(out@) =~= spaced(len as int, k as int));
    out
}

/// There are exactly `k` sampled indices. They are valid, never descend, begin at the
/// first and, when there is more than one, end at the last; none repeats where there are
/// enough to pick from.
pub proof fn law_samples_span_the_range(len: int, k: int)
    requires
        0 < len,
        0 < k,
    ensures
        ({
            let s = spaced(len, k);
            &&& s.len() == k
            &&& s[0] == 0
            &&& k > 1 ==> s.last() == len - 1
            &&& forall|i: int| 0 <= i < k ==> 0 <= #[trigger] s[i] < len
            &&& forall|i: int, j: int| 0 <= i < j < k ==> s[i] <= s[j]
            &&& k <= len ==> forall|i: int, j: int| 0 <= i < j < k ==> s[i] < s[j]
        }),
{
    let s = spaced(len, k);
    if k > 1 {
        let (a, b) = (len - 1, k - 1);
        assert(0 * a / b == 0) by (nonlinear_arith)
            requires
                b > 0,
        ;
        assert(b * a / b == a) by (nonlinear_arith)
            requires
                b > 0,
        ;
        assert forall|i: int| 0 <= i < s.len() implies 0 <= #[trigger] s[i] < len by {
            assert(0 <= i * a / b <= a) by (nonlinear_arith)
                requires
                    0 <= i <= b,
                    0 <= a,
                    b > 0,
            ;
        }
        assert forall|i: int, j: int| 0 <= i < j < s.len() implies s[i] <= s[j] by {
            assert(i * a / b <= j * a / b) by (nonlinear_arith)
                requires
                    0 <= i < j,
                    a >= 0,
                    b > 0,
            ;
        }
        if k <= len {
            assert forall|i: int, j: int| 0 <= i < j < s.len() implies s[i] < s[j] by {
                assert(i * a / b < j * a / b) by (nonlinear_arith)
                    requires
                        0 <= i < j,
                        a >= b > 0,
                ;
            }
        }
    }
}

/// What run-length pairs stand for: each code, as often as its count says.
pub open spec fn expanded(runs: Seq<(u8, usize)>) -> Seq<u8>
    decreases runs.len(),
{
    if runs.len() == 0 {
        Seq::empty()
    } else {
        expanded(runs.drop_last()) + Seq::new(runs.last().1 as nat, |i: int| runs.last().0)
    }
}

/// Runs are maximal: none is empty, and neighbours differ.
pub open spec fn maximal(runs: Seq<(u8, usize)>) -> bool {
    &&& forall|i: int| 0 <= i < runs.len() ==> (#[trigger] runs[i]).1 > 0
    &&& forall|i: int| 0 <= i < runs.len() - 1 ==> (#[trigger] runs[i]).0 != runs[i + 1].0
}

/// Control codes as run-length pairs: the maximal runs that stand for them.
pub fn rle(codes: &[u8]) -> (out: Vec<(u8, usize)>)
    ensures
        expanded(out@) == codes@,
        maximal(out@),
{
    let mut out: Vec<(u8, usize)> = Vec::new();
    let mut i: usize = 0;
    assert(codes@.take(0) =~= Seq::<u8>::empty());
    while i < codes.len()
        invariant
            i <= codes@.len(),
            expanded(out@) == codes@.take(i as int),
            maximal(out@),
            out@.len() > 0 ==> out@.last().1 <= i,
        decreases codes@.len() - i,
    {
        let c: u8 = codes[i];
        let n: usize = out.len();
        if n > 0 && out[n - 1].0 == c {
            let ghost before = out@;
            let count: usize = out[n - 1].1 + 1;
            out[n - 1] = (c, count);
            proof {
                assert(out@.drop_last() =~= before.drop_last());
                let old_run = Seq::new((count - 1) as nat, |j: int| c);
                let new_run = Seq::new(count as nat, |j: int| c);
                assert(old_run.push(c) =~= new_run);
                assert(before.last() == (c, (count - 1) as usize));
                assert(expanded(before) =~= expanded(before.drop_last()) + old_run);
                assert(expanded(out@) =~= expanded(before).push(c));
            }
        } else {
            let ghost before = out@;
            out.push((c, 1));
            proof {
                assert(out@.drop_last() =~= before);
                assert(Seq::new(1nat, |j: int| c) =~= seq![c]);
                assert(expanded(out@) =~= expanded(before).push(c));
            }
        }
        assert(codes@.take(i + 1) =~= codes@.take(i as int).push(c));
        i = i + 1;
    }
    assert(codes@.take(i as int) =~= codes@);
    out
}

/// A list of codes has only one description by maximal runs.
pub proof fn law_runs_are_unique(a: Seq<(u8, usize)>, b: Seq<(u8, usize)>)
    requires
        maximal(a),
        maximal(b),
        expanded(a) == expanded(b),
    ensures
        a == b,
    decreases a.len(),
{
    lemma_last_run(a);
    lemma_last_run(b);
    let s = expanded(a);
    if a.len() == 0 {
        assert(s.len() == 0);
        assert(a =~= b);
    } else if b.len() == 0 {
        assert(s.len() == 0);
    } else {
        let (x, n) = a.last();
        let (y, m) = b.last();
        assert(s.last() == x && s.last() == y);
        if n < m {
            let k = s.len() - n - 1;
            assert(s[k] == y);
            assert(s[k] != x);
        }
        if m < n {
            let k = s.len() - m - 1;
            assert(s[k] == x);
            assert(s[k] != y);
        }
        assert(n == m);
        assert(expanded(a.drop_last()) =~= s.take(s.len() - n));
        assert(expanded(b.drop_last()) =~= s.take(s.len() - n));
        assert(maximal(a.drop_last())) by {
            assert forall|i: int| 0 <= i < a.drop_last().len() implies (
            #[trigger] a.drop_last()[i]).1 > 0 by {
                assert(a[i].1 > 0);
            }
            assert forall|i: int| 0 <= i < a.drop_last().len() - 1 implies (
            #[trigger] a.drop_last()[i]).0 != a.drop_last()[i + 1].0 by {
                assert(a[i].0 != a[i + 1].0);
            }
        }
        assert(maximal(b.drop_last())) by {
            assert forall|i: int| 0 <= i < b.drop_last().len() implies (
            #[trigger] b.drop_last()[i]).1 > 0 by {
                assert(b[i].1 > 0);
            }
            assert forall|i: int| 0 <= i < b.drop_last().len() - 1 implies (
            #[trigger] b.drop_last()[i]).0 != b.drop_last()[i + 1].0 by {
                assert(b[i].0 != b[i + 1].0);
            }
        }
        law_runs_are_unique(a.drop_last(), b.drop_last());
        assert(a =~= a.drop_last().push(a.last()));
        assert(b =~= b.drop_last().push(b.last()));
    }
}

/// What the last run says of the codes: they end in it, and it is preceded by
/// another code.
proof fn lemma_last_run(a: Seq<(u8, usize)>)
    requires
        maximal(a),
    ensures
        a.len() == 0 ==> expanded(a).len() == 0,
        a.len() > 0 ==> ({
            let s = expanded(a);
            let n = a.last().1;
            &&& 0 < n <= s.len()
            &&& forall|i: int| s.len() - n <= i < s.len() ==> #[trigger] s[i] == a.last().0
            &&& n < s.len() ==> s[s.len() - n - 1] != a.last().0
        }),
{
    if a.len() > 0 {
        assert(a[a.len() - 1].1 > 0);
        if a.len() > 1 {
            let d = a.drop_last();
            assert(d.last() == a[a.len() - 2]);
            assert(a[a.len() - 2].0 != a[a.len() - 2 + 1].0);
            assert(a[a.len() - 2].1 > 0);
            let e = expanded(d.drop_last()) + Seq::new(d.last().1 as nat, |i: int| d.last().0);
            assert(expanded(d) == e);
            assert(e.last() == d.last().0);
        } else {
            assert(a.drop_last().len() == 0);
            assert(expanded(a.drop_last()).len() == 0);
        }
    }
}

/// Numbers are ordered by their value: what is no number is less than nothing, positive ones
/// as their bits are, negative ones the other way round and below all positive ones, and the
/// two zeros are equal.
pub proof fn law_numbers_are_ordered_by_value(a: u64, b: u64)
    requires
        a % 0x8000_0000_0000_0000 <= 0x7ff0_0000_0000_0000,
        b % 0x8000_0000_0000_0000 <= 0x7ff0_0000_0000_0000,
    ensures
        !is_nan(a) && !is_nan(b),
        a < 0x8000_0000_0000_0000 && b < 0x8000_0000_0000_0000 ==> (float_less(a, b) <==> a < b),
        a > 0x8000_0000_0000_0000 && b > 0x8000_0000_0000_0000 ==> (float_less(a, b) <==> a > b),
        a > 0x8000_0000_0000_0000 && b < 0x8000_0000_0000_0000 ==> float_less(a, b) && !float_less(
            b,
            a,
        ),
        !float_less(0, 0x8000_0000_0000_0000) && !float_less(0x8000_0000_0000_0000, 0),
        forall|n: u64| n % 0x8000_0000_0000_0000 > 0x7ff0_0000_0000_0000 ==> is_nan(n)
            && !(#[trigger] float_less(n, a)) && !float_less(a, n),
{
}

/// The median of an even number of samples is the mean of the two in the middle: of the
/// samples in order, half are not above the lower one and half are not below the upper one.
/// No samples have no median.
pub proof fn law_even_median_is_the_mean_of_the_middle<F: Fn(u64, u64) -> u64>(
    m: Option<u64>,
    samples: Seq<u64>,
    mean: F,
    i: int,
)
    requires
        no_nans(samples),
        is_median(m, samples, mean),
        samples.len() % 2 == 0,
    ensures
        m is None <==> samples.len() == 0,
        samples.len() > 0 ==> exists|low: u64, high: u64|
            {
                &&& #[trigger] call_ensures(mean, (low, high), m->0)
                &&& low == sorted(samples)[samples.len() as int / 2 - 1]
                &&& high == sorted(samples)[samples.len() as int / 2]
            },
        samples.len() > 0 && 0 <= i < samples.len() as int / 2 ==> !float_less(
            sorted(samples)[samples.len() as int / 2 - 1],
            sorted(samples)[i],
        ),
        samples.len() > 0 && samples.len() as int / 2 <= i < samples.len() ==> !float_less(
            sorted(samples)[i],
            sorted(samples)[samples.len() as int / 2],
        ),
{
    law_sorting_orders_and_keeps(samples);
    let n = samples.len() as int;
    let v = sorted(samples);
    if n > 0 {
        assert(call_ensures(mean, (v[n / 2 - 1], v[n / 2]), m->0));
    }
}

/// The sampled indices are as evenly spaced as whole numbers can be: index `i` is the last
/// one that is not beyond its share of the way from the first to the last.
pub proof fn law_samples_are_evenly_spaced(len: int, k: int, i: int)
    requires
        0 < len,
        1 < k,
        0 <= i < k,
    ensures
        spaced(len, k).len() == k,
        spaced(len, k)[i] * (k - 1) <= i * (len - 1) < (spaced(len, k)[i] + 1) * (k - 1),
        spaced(len, 1) == seq![0int],
        spaced(0, k).len() == 0,
        spaced(len, 0).len() == 0,
{
    let a = i * (len - 1);
    let b = k - 1;
    vstd::arithmetic::div_mod::lemma_fundamental_div_mod(a, b);
    vstd::arithmetic::div_mod::lemma_mod_bound(a, b);
    assert((a / b) * b <= a < (a / b + 1) * b) by (nonlinear_arith)
        requires
            a == b * (a / b) + a % b,
            0 <= a % b < b,
    ;
}

/// Runs spell their codes out, one run after the other.
pub proof fn law_runs_spell_their_codes(runs: Seq<(u8, usize)>, code: u8, n: usize)
    ensures
        expanded(Seq::<(u8, usize)>::empty()) == Seq::<u8>::empty(),
        expanded(runs.push((code, n))).len() == expanded(runs).len() + n,
        expanded(runs.push((code, n))).take(expanded(runs).len() as int) == expanded(runs),
        forall|i: int| expanded(runs).len() <= i < expanded(runs).len() + n ==> (
        #[trigger] expanded(runs.push((code, n)))[i]) == code,
{
    assert(runs.push((code, n)).drop_last() =~= runs);
    assert(expanded(runs.push((code, n))).take(expanded(runs).len() as int) =~= expanded(runs));
}

/// The median of an odd number of samples is one of them, and in their order it stands in the
/// middle.
pub proof fn law_odd_median_is_a_sample<F: Fn(u64, u64) -> u64>(
    m: Option<u64>,
    samples: Seq<u64>,
    mean: F,
    i: int,
)
    requires
        no_nans(samples),
        is_median(m, samples, mean),
        samples.len() % 2 == 1,
    ensures
        m matches Some(x) && samples.contains(x) && {
            &&& 0 <= i <= samples.len() as int / 2 ==> !float_less(x, sorted(samples)[i])
            &&& samples.len() as int / 2 <= i < samples.len() ==> !float_less(
                sorted(samples)[i],
                x,
            )
        },
{
    law_odd_median_is_in_the_middle(samples);
    law_sorting_orders_and_keeps(samples);
}

} // verus!
