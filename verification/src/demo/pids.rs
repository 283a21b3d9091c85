//! Process ids as the summary lists them: as texts, in order, each one once.

use vstd::prelude::*;

use crate::demo::distinct::texts;
use crate::text::{characters, decimal, decimal_text};

verus! {

/// Whether `a` comes before `b`: in the first place where they differ its character
/// is smaller, or it ends there.
pub open spec fn text_less(a: Seq<char>, b: Seq<char>) -> bool
    decreases a.len(),
{
    if b.len() == 0 {
        false
    } else if a.len() == 0 {
        true
    } else if a[0] != b[0] {
        a[0] < b[0]
    } else {
        text_less(a.drop_first(), b.drop_first())
    }
}

/// Of two different texts exactly one comes before the other.
proof fn lemma_text_order_is_total(a: Seq<char>, b: Seq<char>)
    ensures
        a == b ==> !text_less(a, b),
        a != b ==> text_less(a, b) != text_less(b, a),
    decreases a.len(),
{
    if a.len() > 0 && b.len() > 0 && a[0] == b[0] {
        lemma_text_order_is_total(a.drop_first(), b.drop_first());
        if a.drop_first() == b.drop_first() {
            assert(a =~= seq![a[0]] + a.drop_first());
            assert(b =~= seq![b[0]] + b.drop_first());
        }
    } else if a.len() == 0 && b.len() == 0 {
        assert(a =~= b);
    }
}

/// What comes before an earlier text comes before a later one.
proof fn lemma_text_order_is_transitive(a: Seq<char>, b: Seq<char>, c: Seq<char>)
    requires
        text_less(a, b),
        text_less(b, c),
    ensures
        text_less(a, c),
    decreases a.len(),
{
    if a.len() > 0 && a[0] == b[0] && b[0] == c[0] {
        lemma_text_order_is_transitive(a.drop_first(), b.drop_first(), c.drop_first());
    }
}

/// Every text comes before the ones behind it.
pub open spec fn in_order(s: Seq<Seq<char>>) -> bool {
    forall|i: int, j: int| 0 <= i < j < s.len() ==> text_less(#[trigger] s[i], #[trigger] s[j])
}

/// How two texts stand to each other.
#[derive(Debug, Clone, Copy, PartialEq, Eq, Structural)]
enum Place {
    Before,
    Same,
    Behind,
}

/// How `a` stands to `b`.
fn place(a: &str, b: &str) -> (r: Place)
    ensures
        r == if a@ == b@ {
            Place::Same
        } else if text_less(a@, b@) {
            Place::Before
        } else {
            Place::Behind
        },
{
    let x = characters(a);
    let y = characters(b);
    let mut k: usize = 0;
    assert(x@.skip(0) =~= x@ && y@.skip(0) =~= y@);
    while k < x.len() && k < y.len() && x[k] == y[k]
        invariant
            k <= x@.len(),
            k <= y@.len(),
            x@ == a@,
            y@ == b@,
            x@.take(k as int) == y@.take(k as int),
            text_less(x@, y@) == text_less(x@.skip(k as int), y@.skip(k as int)),
        ensures
            k <= x@.len(),
            k <= y@.len(),
            x@.take(k as int) == y@.take(k as int),
            text_less(x@, y@) == text_less(x@.skip(k as int), y@.skip(k as int)),
            k < x@.len() && k < y@.len() ==> x@[k as int] != y@[k as int],
        decreases x@.len() - k,
    {
        proof {
            assert(x@.skip(k as int).drop_first() =~= x@.skip(k + 1));
            assert(y@.skip(k as int).drop_first() =~= y@.skip(k + 1));
            assert(x@.take(k + 1) =~= x@.take(k as int).push(x@[k as int]));
            assert(y@.take(k + 1) =~= y@.take(k as int).push(y@[k as int]));
        }
        k = k + 1;
    }
    if k == x.len() && k == y.len() {
        assert(x@.take(k as int) =~= x@ && y@.take(k as int) =~= y@);
        Place::Same
    } else if k == x.len() {
        assert(x@.len() != y@.len());
        Place::Before
    } else if k == y.len() {
        assert(x@.len() != y@.len());
        Place::Behind
    } else if x[k] < y[k] {
        Place::Before
    } else {
        Place::Behind
    }
}

/// The numerals of numbers.
pub open spec fn numerals(pids: Seq<u32>) -> Seq<Seq<char>> {
    pids.map_values(|p: u32| decimal(p as nat))
}

/// Puts a text where it belongs, unless it is there.
fn put_in_order(out: &mut Vec<String>, t: String)
    requires
        in_order(texts(old(out)@)),
    ensures
        in_order(texts(final(out)@)),
        texts(final(out)@).to_set() == texts(old(out)@).to_set().insert(t@),
{
    let ghost all = texts(out@);
    let mut k: usize = 0;
    while k < out.len()
        invariant_except_break
            k <= out@.len(),
            out@ == old(out)@,
            all == texts(out@),
            in_order(all),
            forall|j: int| 0 <= j < k ==> text_less(#[trigger] all[j], t@),
        ensures
            k <= out@.len(),
            out@ == old(out)@,
            forall|j: int| 0 <= j < k ==> text_less(#[trigger] all[j], t@),
            k < out@.len() ==> !text_less(all[k as int], t@),
        decreases out@.len() - k,
    {
        match place(out[k].as_str(), t.as_str()) {
            Place::Before => {
                k = k + 1;
            },
            _ => {
                proof {
                    lemma_text_order_is_total(all[k as int], t@);
                }
                break;
            },
        }
    }
    if k < out.len() && place(out[k].as_str(), t.as_str()) == Place::Same {
        proof {
            assert(all.to_set().contains(t@)) by {
                assert(all[k as int] == t@);
            }
            assert(all.to_set() =~= all.to_set().insert(t@));
        }
        return ;
    }
    let ghost added = t@;
    out.insert(k, t);
    proof {
        let now = texts(out@);
        assert(now =~= all.insert(k as int, added));
        assert forall|i: int, j: int| 0 <= i < j < now.len() implies text_less(
            #[trigger] now[i],
            #[trigger] now[j],
        ) by {
            if k < all.len() {
                lemma_text_order_is_total(all[k as int], added);
            }
            if i == k {
                assert(now[j] == all[j - 1]);
                if j - 1 > k {
                    assert(text_less(all[k as int], all[j - 1]));
                    lemma_text_order_is_transitive(added, all[k as int], all[j - 1]);
                }
            } else if j == k {
                assert(now[i] == all[i]);
            } else {
                let a = if i < k {
                    i
                } else {
                    i - 1
                };
                let b = if j < k {
                    j
                } else {
                    j - 1
                };
                assert(now[i] == all[a] && now[j] == all[b]);
            }
        }
        assert(now.to_set() =~= all.to_set().insert(added)) by {
            assert forall|x: Seq<char>| now.contains(x) implies all.contains(x) || x == added by {
                let i = choose|i: int| 0 <= i < now.len() && now[i] == x;
                if i < k {
                    assert(all[i] == x);
                } else if i > k {
                    assert(all[i - 1] == x);
                }
            }
            assert forall|x: Seq<char>| all.contains(x) implies now.contains(x) by {
                let i = choose|i: int| 0 <= i < all.len() && all[i] == x;
                if i < k {
                    assert(now[i] == x);
                } else {
                    assert(now[i + 1] == x);
                }
            }
            assert(now[k as int] == added);
        }
    }
}

/// The different process ids of a list, as texts in order.
pub fn pid_texts(pids: &[u32]) -> (r: Vec<String>)
    ensures
        in_order(texts(r@)),
        texts(r@).to_set() == numerals(pids@).to_set(),
{
    let ghost all = numerals(pids@);
    let mut out: Vec<String> = Vec::new();
    let mut i: usize = 0;
    assert(texts(out@).to_set() =~= all.take(0).to_set());
    while i < pids.len()
        invariant
            i <= pids@.len(),
            all == numerals(pids@),
            in_order(texts(out@)),
            texts(out@).to_set() == all.take(i as int).to_set(),
        decreases pids@.len() - i,
    {
        put_in_order(&mut out, decimal_text(pids[i] as u64));
        proof {
            let longer = all.take(i + 1);
            let shorter = all.take(i as int);
            assert(longer =~= shorter.push(all[i as int]));
            assert(longer.to_set() =~= shorter.to_set().insert(all[i as int])) by {
                assert forall|x: Seq<char>| longer.contains(x) implies shorter.contains(x) || x
                    == all[i as int] by {
                    let k = choose|k: int| 0 <= k < longer.len() && longer[k] == x;
                    if k < i {
                        assert(shorter[k] == x);
                    }
                }
                assert forall|x: Seq<char>| shorter.contains(x) implies longer.contains(x) by {
                    let k = choose|k: int| 0 <= k < shorter.len() && shorter[k] == x;
                    assert(longer[k] == x);
                }
                assert(longer[i as int] == all[i as int]);
            }
        }
        i = i + 1;
    }
    assert(all.take(i as int) =~= all);
    out
}

/// There is only one way to list the texts of a set in order.
pub proof fn law_ordered_listing_is_unique(a: Seq<Seq<char>>, b: Seq<Seq<char>>)
    requires
        in_order(a),
        in_order(b),
        a.to_set() == b.to_set(),
    ensures
        a == b,
    decreases a.len(),
{
    if a.len() == 0 {
        if b.len() > 0 {
            assert(b.to_set().contains(b[0]));
        }
        assert(a =~= b);
    } else {
        assert(b.to_set().contains(a[0])) by {
            assert(a.contains(a[0]));
        }
        assert(a.to_set().contains(b[0])) by {
            assert(b.contains(b[0]));
        }
        let i = choose|i: int| 0 <= i < b.len() && b[i] == a[0];
        let j = choose|j: int| 0 <= j < a.len() && a[j] == b[0];
        lemma_text_order_is_total(a[0], b[0]);
        if i > 0 {
            assert(text_less(b[0], b[i]));
        }
        if j > 0 {
            assert(text_less(a[0], a[j]));
        }
        assert(a[0] == b[0]);
        let (x, y) = (a.drop_first(), b.drop_first());
        assert(in_order(x)) by {
            assert forall|p: int, q: int| 0 <= p < q < x.len() implies text_less(
                #[trigger] x[p],
                #[trigger] x[q],
            ) by {
                assert(text_less(a[p + 1], a[q + 1]));
            }
        }
        assert(in_order(y)) by {
            assert forall|p: int, q: int| 0 <= p < q < y.len() implies text_less(
                #[trigger] y[p],
                #[trigger] y[q],
            ) by {
                assert(text_less(b[p + 1], b[q + 1]));
            }
        }
        lemma_rest_of_listing(a);
        lemma_rest_of_listing(b);
        assert(x.to_set() =~= y.to_set());
        law_ordered_listing_is_unique(x, y);
        assert(a =~= seq![a[0]] + x);
        assert(b =~= seq![b[0]] + y);
    }
}

/// What follows the first text of a listing in order is all but it.
proof fn lemma_rest_of_listing(a: Seq<Seq<char>>)
    requires
        in_order(a),
        a.len() > 0,
    ensures
        a.drop_first().to_set() == a.to_set().remove(a[0]),
{
    let x = a.drop_first();
    assert forall|t: Seq<char>| x.contains(t) implies a.contains(t) && t != a[0] by {
        let i = choose|i: int| 0 <= i < x.len() && x[i] == t;
        assert(a[i + 1] == t);
        assert(text_less(a[0], a[i + 1]));
        lemma_text_order_is_total(a[0], t);
    }
    assert forall|t: Seq<char>| a.contains(t) && t != a[0] implies x.contains(t) by {
        let i = choose|i: int| 0 <= i < a.len() && a[i] == t;
        assert(x[i - 1] == t);
    }
    assert(x.to_set() =~= a.to_set().remove(a[0]));
}

/// Texts are ordered as in a dictionary: by the first character in which they differ, and a
/// text comes before what it is the beginning of.
pub proof fn law_texts_are_ordered_as_in_a_dictionary(a: Seq<char>, b: Seq<char>, k: int)
    requires
        0 <= k <= a.len(),
        k <= b.len(),
        a.take(k) == b.take(k),
    ensures
        k < a.len() && k < b.len() && a[k] != b[k] ==> (text_less(a, b) <==> a[k] < b[k]),
        k == a.len() && k < b.len() ==> text_less(a, b) && !text_less(b, a),
        k == a.len() && k == b.len() ==> !text_less(a, b),
    decreases k,
{
    if k > 0 {
        assert(a.take(k)[0] == a[0] && b.take(k)[0] == b[0]);
        let (x, y) = (a.drop_first(), b.drop_first());
        assert forall|i: int| 0 <= i < k - 1 implies #[trigger] x[i] == y[i] by {
            assert(a.take(k)[i + 1] == a[i + 1]);
            assert(b.take(k)[i + 1] == b[i + 1]);
        }
        assert(x.take(k - 1) =~= y.take(k - 1));
        law_texts_are_ordered_as_in_a_dictionary(x, y, k - 1);
    }
}

} // verus!
