//! The outputs of the reuse sweep: repeats have to agree, programs have to differ.

use vstd::prelude::*;

use crate::experiment::args::Mode;
use crate::scene::Request;
use crate::text::same_text;

verus! {

/// What a process emitted: its mode, its request and the hash of its frames.
pub struct Emission {
    pub mode: Mode,
    pub request: Request,
    pub hash: Seq<char>,
}

/// The first output of a request in a mode.
#[derive(Debug)]
pub struct Seen {
    /// Mode.
    pub mode: Mode,
    /// Request.
    pub request: Request,
    /// Hash of the frames.
    pub hash: String,
}

/// The first outputs as emissions.
pub open spec fn emissions(seen: Seq<Seen>) -> Seq<Emission> {
    seen.map_values(|s: Seen| Emission { mode: s.mode, request: s.request, hash: s.hash@ })
}

/// The hash of the first emission of a request in a mode, from `k` on.
pub open spec fn first_from(seen: Seq<Emission>, mode: Mode, request: Request, k: int) -> Option<
    Seq<char>,
>
    decreases seen.len() - k,
{
    if k >= seen.len() {
        None
    } else if seen[k].mode == mode && seen[k].request == request {
        Some(seen[k].hash)
    } else {
        first_from(seen, mode, request, k + 1)
    }
}

/// The hash of the first emission of a request in a mode.
pub open spec fn first_hash(seen: Seq<Emission>, mode: Mode, request: Request) -> Option<Seq<char>> {
    first_from(seen, mode, request, 0)
}

/// The first emissions, once one more process has emitted.
pub open spec fn noted(seen: Seq<Emission>, e: Emission) -> Seq<Emission> {
    if first_hash(seen, e.mode, e.request) is Some {
        seen
    } else {
        seen.push(e)
    }
}

/// Whether an emission agrees with the first of its request and mode.
pub open spec fn agrees(seen: Seq<Emission>, e: Emission) -> bool {
    match first_hash(seen, e.mode, e.request) {
        Some(h) => h == e.hash,
        None => true,
    }
}

/// Whether two different request programs had the same first baseline output.
pub open spec fn collide(seen: Seq<Emission>) -> bool {
    exists|a: Request, b: Request| #[trigger] same_first(seen, a, b)
}

/// Whether two request programs differ and have the same first baseline output.
pub open spec fn same_first(seen: Seq<Emission>, a: Request, b: Request) -> bool {
    &&& a != b
    &&& first_hash(seen, Mode::Baseline, a) is Some
    &&& first_hash(seen, Mode::Baseline, a) == first_hash(seen, Mode::Baseline, b)
}

/// How many of the first `k` request programs the baseline has served.
pub open spec fn programs_to(seen: Seq<Emission>, k: int) -> nat
    decreases k,
{
    if k <= 0 {
        0
    } else {
        programs_to(seen, k - 1) + if first_hash(seen, Mode::Baseline, Request::ALL@[k - 1]) is Some {
            1nat
        } else {
            0nat
        }
    }
}

/// What the sweep has shown of the outputs so far.
#[derive(Debug)]
pub struct SweepLog {
    /// The first output of each request in each mode.
    pub seen: Vec<Seen>,
    /// Every repeat agreed with the first output of its request and mode.
    pub repeated_identical: bool,
}

impl SweepLog {
    /// Nothing was emitted yet.
    pub fn new() -> (r: SweepLog)
        ensures
            r@ == Seq::<Emission>::empty(),
            r.repeated_identical,
    {
        let r = SweepLog { seen: Vec::new(), repeated_identical: true };
        assert(r@ =~= Seq::<Emission>::empty());
        r
    }

    /// The first output of a request in a mode.
    fn first(&self, mode: Mode, request: Request) -> (r: Option<&String>)
        ensures
            match r {
                Some(h) => first_hash(self@, mode, request) == Some(h@),
                None => first_hash(self@, mode, request) is None,
            },
    {
        let mut k: usize = 0;
        while k < self.seen.len()
            invariant
                k <= self.seen@.len(),
                first_hash(self@, mode, request) == first_from(self@, mode, request, k as int),
            decreases self.seen@.len() - k,
        {
            if self.seen[k].mode == mode && self.seen[k].request == request {
                return Some(&self.seen[k].hash);
            }
            k = k + 1;
        }
        None
    }

    /// A process of the sweep has emitted frames with this hash.
    pub fn emitted(&mut self, mode: Mode, request: Request, hash: &str)
        ensures
            ({
                let e = Emission { mode, request, hash: hash@ };
                &&& final(self)@ == noted(old(self)@, e)
                &&& final(self).repeated_identical == (old(self).repeated_identical && agrees(
                    old(self)@,
                    e,
                ))
            }),
    {
        let known: Option<bool> = match self.first(mode, request) {
            Some(h) => Some(same_text(h.as_str(), hash)),
            None => None,
        };
        match known {
            Some(same) => {
                self.repeated_identical = self.repeated_identical && same;
            },
            None => {
                self.seen.push(Seen { mode, request, hash: hash.to_owned() });
                assert(self@ =~= old(self)@.push(Emission { mode, request, hash: hash@ }));
            },
        }
    }

    /// How many request programs the baseline has served.
    pub fn programs(&self) -> (r: usize)
        ensures
            r == programs_to(self@, 6),
    {
        let all = Request::ALL;
        let mut n: usize = 0;
        let mut k: usize = 0;
        while k < 6
            invariant
                k <= 6,
                n <= k,
                all == Request::ALL,
                n == programs_to(self@, k as int),
            decreases 6 - k,
        {
            if self.first(Mode::Baseline, all[k]).is_some() {
                n = n + 1;
            }
            k = k + 1;
        }
        n
    }

    /// Whether two different request programs had the same first baseline output.
    pub fn programs_collide(&self) -> (r: bool)
        ensures
            r == collide(self@),
    {
        let all = Request::ALL;
        let mut i: usize = 0;
        while i < 6
            invariant
                i <= 6,
                all == Request::ALL,
                forall|a: int, b: int|
                    0 <= a < i && 0 <= b < 6 ==> !#[trigger] same_first(self@, all@[a], all@[b]),
            decreases 6 - i,
        {
            let mut j: usize = 0;
            while j < 6
                invariant
                    i < 6,
                    j <= 6,
                    all == Request::ALL,
                    forall|b: int| 0 <= b < j ==> !#[trigger] same_first(self@, all@[i as int], all@[b]),
                decreases 6 - j,
            {
                if all[i] != all[j] {
                    match (self.first(Mode::Baseline, all[i]), self.first(Mode::Baseline, all[j])) {
                        (Some(x), Some(y)) => {
                            if same_text(x.as_str(), y.as_str()) {
                                assert(same_first(self@, all@[i as int], all@[j as int]));
                                return true;
                            }
                        },
                        _ => {},
                    }
                }
                j = j + 1;
            }
            i = i + 1;
        }
        assert forall|a: Request, b: Request| !#[trigger] same_first(self@, a, b) by {
            lemma_every_request_is_listed(a);
            lemma_every_request_is_listed(b);
            let i = choose|i: int| 0 <= i < 6 && Request::ALL@[i] == a;
            let j = choose|j: int| 0 <= j < 6 && Request::ALL@[j] == b;
            assert(!same_first(self@, all@[i], all@[j]));
        }
        false
    }
}

impl View for SweepLog {
    type V = Seq<Emission>;

    open spec fn view(&self) -> Seq<Emission> {
        emissions(self.seen@)
    }
}

/// The list of all requests is complete.
proof fn lemma_every_request_is_listed(r: Request)
    ensures
        exists|i: int| 0 <= i < 6 && Request::ALL@[i] == r,
{
    let all = Request::ALL@;
    assert(all[0] == Request::Continue);
    let k: int = match r {
        Request::Continue => 0,
        Request::TurnLeft => 1,
        Request::TurnRight => 2,
        Request::Accelerate => 3,
        Request::BrakeThenLeft => 4,
        Request::SCurve => 5,
    };
    assert(Request::ALL@[k] == r);
}

/// The first emissions of a whole sweep.
pub open spec fn noted_all(list: Seq<Emission>) -> Seq<Emission>
    decreases list.len(),
{
    if list.len() == 0 {
        Seq::empty()
    } else {
        noted(noted_all(list.drop_last()), list.last())
    }
}

/// Whether every emission of a sweep agreed with the first of its kind.
pub open spec fn agreed_all(list: Seq<Emission>) -> bool
    decreases list.len(),
{
    list.len() == 0 || (agreed_all(list.drop_last()) && agrees(
        noted_all(list.drop_last()),
        list.last(),
    ))
}

/// Same request in the same mode.
pub open spec fn same_kind(a: Emission, b: Emission) -> bool {
    a.mode == b.mode && a.request == b.request
}

/// The first of a kind in a longer list.
proof fn lemma_first_of_push(seen: Seq<Emission>, e: Emission, mode: Mode, request: Request, k: int)
    requires
        0 <= k <= seen.len(),
    ensures
        first_from(seen.push(e), mode, request, k) == match first_from(seen, mode, request, k) {
            Some(h) => Some(h),
            None => if e.mode == mode && e.request == request {
                Some(e.hash)
            } else {
                None
            },
        },
    decreases seen.len() - k,
{
    if k < seen.len() {
        lemma_first_of_push(seen, e, mode, request, k + 1);
    } else {
        assert(first_from(seen.push(e), mode, request, k + 1) is None);
    }
}

/// The first emissions of a sweep are those of the whole list.
proof fn lemma_noted_keeps_the_first(list: Seq<Emission>, mode: Mode, request: Request)
    ensures
        first_hash(noted_all(list), mode, request) == first_hash(list, mode, request),
    decreases list.len(),
{
    if list.len() > 0 {
        let front = list.drop_last();
        let e = list.last();
        lemma_noted_keeps_the_first(front, mode, request);
        lemma_noted_keeps_the_first(front, e.mode, e.request);
        assert(list =~= front.push(e));
        lemma_first_of_push(front, e, mode, request, 0);
        lemma_first_of_push(noted_all(front), e, mode, request, 0);
    }
}

/// The first of a kind is an emission of that kind.
proof fn lemma_first_is_an_emission(list: Seq<Emission>, mode: Mode, request: Request, k: int) -> (i:
    int)
    requires
        0 <= k <= list.len(),
        first_from(list, mode, request, k) is Some,
    ensures
        k <= i < list.len(),
        list[i].mode == mode,
        list[i].request == request,
        first_from(list, mode, request, k) == Some(list[i].hash),
    decreases list.len() - k,
{
    if list[k].mode == mode && list[k].request == request {
        k
    } else {
        lemma_first_is_an_emission(list, mode, request, k + 1)
    }
}

/// What was emitted has a first of its kind.
proof fn lemma_emitted_has_a_first(list: Seq<Emission>, i: int, k: int)
    requires
        0 <= k <= i < list.len(),
    ensures
        first_from(list, list[i].mode, list[i].request, k) is Some,
    decreases i - k,
{
    if k < i {
        lemma_emitted_has_a_first(list, i, k + 1);
    }
}

/// Repeats are judged pairwise: a sweep counts as identical exactly when any two
/// processes that served the same request in the same mode emitted the same bytes
/// by hash.
pub proof fn law_repeats_agree_pairwise(list: Seq<Emission>)
    ensures
        agreed_all(list) <==> forall|i: int, j: int|
            0 <= i < list.len() && 0 <= j < list.len() && same_kind(
                #[trigger] list[i],
                #[trigger] list[j],
            ) ==> list[i].hash == list[j].hash,
    decreases list.len(),
{
    if list.len() > 0 {
        let front = list.drop_last();
        let e = list.last();
        let n = list.len() - 1;
        law_repeats_agree_pairwise(front);
        lemma_noted_keeps_the_first(front, e.mode, e.request);
        if agreed_all(list) {
            assert forall|i: int, j: int|
                0 <= i < list.len() && 0 <= j < list.len() && same_kind(
                    #[trigger] list[i],
                    #[trigger] list[j],
                ) implies list[i].hash == list[j].hash by {
                if i < n && j < n {
                    assert(front[i] == list[i] && front[j] == list[j]);
                } else if i < n || j < n {
                    let m = if i < n {
                        i
                    } else {
                        j
                    };
                    assert(front[m] == list[m]);
                    lemma_emitted_has_a_first(front, m, 0);
                    let f = lemma_first_is_an_emission(front, e.mode, e.request, 0);
                    assert(same_kind(front[f], front[m]));
                }
            }
        } else if agreed_all(front) {
            let f = lemma_first_is_an_emission(front, e.mode, e.request, 0);
            assert(front[f] == list[f]);
            assert(same_kind(list[f], list[n]));
            assert(list[f].hash != list[n].hash);
        } else {
            let (i, j) = choose|i: int, j: int|
                0 <= i < front.len() && 0 <= j < front.len() && same_kind(
                    #[trigger] front[i],
                    #[trigger] front[j],
                ) && front[i].hash != front[j].hash;
            assert(front[i] == list[i] && front[j] == list[j]);
        }
    }
}

/// Where repeats agree, programs collide exactly when two baseline processes that
/// served different requests emitted the same bytes by hash.
pub proof fn law_programs_collide_pairwise(list: Seq<Emission>)
    requires
        agreed_all(list),
    ensures
        collide(noted_all(list)) <==> exists|i: int, j: int|
            0 <= i < list.len() && 0 <= j < list.len() && clash(
                #[trigger] list[i],
                #[trigger] list[j],
            ),
{
    law_repeats_agree_pairwise(list);
    let seen = noted_all(list);
    let base = Mode::Baseline;
    if collide(seen) {
        let (a, b) = choose|a: Request, b: Request| #[trigger] same_first(seen, a, b);
        lemma_noted_keeps_the_first(list, base, a);
        lemma_noted_keeps_the_first(list, base, b);
        let i = lemma_first_is_an_emission(list, base, a, 0);
        let j = lemma_first_is_an_emission(list, base, b, 0);
        assert(clash(list[i], list[j]));
    }
    if exists|i: int, j: int|
        0 <= i < list.len() && 0 <= j < list.len() && clash(#[trigger] list[i], #[trigger] list[j]) {
        let (i, j) = choose|i: int, j: int|
            0 <= i < list.len() && 0 <= j < list.len() && clash(
                #[trigger] list[i],
                #[trigger] list[j],
            );
        let (a, b) = (list[i].request, list[j].request);
        lemma_emitted_has_a_first(list, i, 0);
        lemma_emitted_has_a_first(list, j, 0);
        lemma_noted_keeps_the_first(list, base, a);
        lemma_noted_keeps_the_first(list, base, b);
        let fi = lemma_first_is_an_emission(list, base, a, 0);
        let fj = lemma_first_is_an_emission(list, base, b, 0);
        assert(same_kind(list[fi], list[i]));
        assert(same_kind(list[fj], list[j]));
        assert(same_first(seen, a, b));
    }
}

/// Two baseline processes that served different requests emitted the same bytes.
pub open spec fn clash(a: Emission, b: Emission) -> bool {
    &&& a.mode == Mode::Baseline
    &&& b.mode == Mode::Baseline
    &&& a.request != b.request
    &&& a.hash == b.hash
}

/// The programs that are counted are those that the replaying path has served: all six where
/// each was, one less for each that was not.
pub proof fn law_programs_are_counted(seen: Seq<Emission>, k: int, request: Request)
    requires
        0 <= k < 6,
        request == Request::ALL@[k],
    ensures
        programs_to(seen, 0) == 0,
        first_hash(seen, Mode::Baseline, request) is Some ==> programs_to(seen, k + 1)
            == programs_to(seen, k) + 1,
        first_hash(seen, Mode::Baseline, request) is None ==> programs_to(seen, k + 1)
            == programs_to(seen, k),
        first_hash(seen, Mode::Baseline, request) is Some <==> exists|i: int|
            {
                &&& 0 <= i < seen.len()
                &&& (#[trigger] seen[i]).mode == Mode::Baseline
                &&& seen[i].request == request
            },
{
    if first_hash(seen, Mode::Baseline, request) is Some {
        let i = lemma_first_is_an_emission(seen, Mode::Baseline, request, 0);
        assert(seen[i].mode == Mode::Baseline && seen[i].request == request);
    }
    if exists|i: int|
        {
            &&& 0 <= i < seen.len()
            &&& (#[trigger] seen[i]).mode == Mode::Baseline
            &&& seen[i].request == request
        } {
        let i = choose|i: int|
            {
                &&& 0 <= i < seen.len()
                &&& (#[trigger] seen[i]).mode == Mode::Baseline
                &&& seen[i].request == request
            };
        lemma_emitted_has_a_first(seen, i, 0);
    }
}

} // verus!
