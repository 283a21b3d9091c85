//! Counting distinct values.

use vstd::prelude::*;

use crate::text::same_text;

verus! {

/// How many different values a list holds.
pub open spec fn distinct_count<A>(s: Seq<A>) -> nat {
    s.to_set().len()
}

/// Counting one element more.
proof fn lemma_one_more<A>(s: Seq<A>, i: int)
    requires
        0 <= i < s.len(),
    ensures
        distinct_count(s.take(i + 1)) == distinct_count(s.take(i)) + if s.take(i).contains(s[i]) {
            0nat
        } else {
            1nat
        },
        distinct_count(s.take(i)) <= i,
{
    vstd::seq_lib::seq_to_set_is_finite(s.take(i));
    assert(s.take(i + 1).to_set() =~= s.take(i).to_set().insert(s[i])) by {
        assert forall|x: A| s.take(i + 1).contains(x) implies s.take(i).contains(x) || x == s[i] by {
            let longer = s.take(i + 1);
            let k = choose|k: int| 0 <= k < longer.len() && longer[k] == x;
            if k < i {
                assert(s.take(i)[k] == x);
            }
        }
        assert forall|x: A| s.take(i).contains(x) implies s.take(i + 1).contains(x) by {
            let k = choose|k: int| 0 <= k < i && s.take(i)[k] == x;
            assert(s.take(i + 1)[k] == x);
        }
        assert(s.take(i + 1)[i] == s[i]);
    }
    s.take(i).lemma_cardinality_of_set();
}

/// The texts of a list.
pub open spec fn texts(v: Seq<String>) -> Seq<Seq<char>> {
    v.map_values(|s: String| s@)
}

/// How many different texts a list holds.
pub fn distinct_texts(v: &[String]) -> (r: usize)
    ensures
        r == distinct_count(texts(v@)),
{
    let ghost all = texts(v@);
    let mut count: usize = 0;
    let mut i: usize = 0;
    assert(all.take(0) =~= Seq::<Seq<char>>::empty());
    assert(all.take(0).to_set() =~= Set::<Seq<char>>::empty());
    while i < v.len()
        invariant
            i <= v@.len(),
            all == texts(v@),
            count <= i,
            count == distinct_count(all.take(i as int)),
        decreases v@.len() - i,
    {
        let mut k: usize = 0;
        while k < i && !same_text(v[k].as_str(), v[i].as_str())
            invariant
                k <= i < v@.len(),
                all == texts(v@),
                forall|j: int| 0 <= j < k ==> all[j] != all[i as int],
            ensures
                k <= i,
                forall|j: int| 0 <= j < k ==> all[j] != all[i as int],
                k < i ==> all[k as int] == all[i as int],
            decreases i - k,
        {
            k = k + 1;
        }
        proof {
            lemma_one_more(all, i as int);
            if k < i {
                assert(all.take(i as int)[k as int] == all[i as int]);
            } else {
                assert forall|j: int| 0 <= j < i implies all.take(i as int)[j] != all[i as int] by {
                    assert(all.take(i as int)[j] == all[j]);
                }
            }
        }
        if k == i {
            count = count + 1;
        }
        i = i + 1;
    }
    assert(all.take(i as int) =~= all);
    count
}

/// How many different numbers a list holds.
pub fn distinct_numbers(v: &[u32]) -> (r: usize)
    ensures
        r == distinct_count(v@),
{
    let ghost all = v@;
    let mut count: usize = 0;
    let mut i: usize = 0;
    assert(all.take(0) =~= Seq::<u32>::empty());
    assert(all.take(0).to_set() =~= Set::<u32>::empty());
    while i < v.len()
        invariant
            i <= v@.len(),
            all == v@,
            count <= i,
            count == distinct_count(all.take(i as int)),
        decreases v@.len() - i,
    {
        let mut k: usize = 0;
        while k < i && v[k] != v[i]
            invariant
                k <= i < v@.len(),
                all == v@,
                forall|j: int| 0 <= j < k ==> all[j] != all[i as int],
            ensures
                k <= i,
                forall|j: int| 0 <= j < k ==> all[j] != all[i as int],
                k < i ==> all[k as int] == all[i as int],
            decreases i - k,
        {
            k = k + 1;
        }
        proof {
            lemma_one_more(all, i as int);
            if k < i {
                assert(all.take(i as int)[k as int] == all[i as int]);
            } else {
                assert forall|j: int| 0 <= j < i implies all.take(i as int)[j] != all[i as int] by {
                    assert(all.take(i as int)[j] == all[j]);
                }
            }
        }
        if k == i {
            count = count + 1;
        }
        i = i + 1;
    }
    assert(all.take(i as int) =~= all);
    count
}

} // verus!
