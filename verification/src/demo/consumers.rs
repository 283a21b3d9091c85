//! Which process last served each role of a demonstration.

use vstd::prelude::*;

use crate::demo::distinct::{distinct_count, distinct_numbers};
use crate::demo::plan::Job;
use crate::experiment::args::Mode;
use crate::scene::Request;
use crate::text::same_text;

verus! {

/// A role and the process that served it.
pub type Entry = (String, u32);

/// The processes that served the roles, one for each role.
#[derive(Debug)]
pub struct Consumers {
    /// Roles in the order in which they were first served.
    pub list: Vec<Entry>,
}

/// Roles and processes.
pub open spec fn entries(list: Seq<Entry>) -> Seq<(Seq<char>, u32)> {
    list.map_values(|e: Entry| (e.0@, e.1))
}

/// Where a role stands, from `k` on; the length of the list if it was never served.
pub open spec fn role_index(list: Seq<(Seq<char>, u32)>, role: Seq<char>, k: int) -> int
    decreases list.len() - k,
{
    if k >= list.len() {
        list.len() as int
    } else if list[k].0 == role {
        k
    } else {
        role_index(list, role, k + 1)
    }
}

/// The list once `pid` has served `role`: the last process of a role stands.
pub open spec fn served(list: Seq<(Seq<char>, u32)>, role: Seq<char>, pid: u32) -> Seq<
    (Seq<char>, u32),
> {
    let i = role_index(list, role, 0);
    if i < list.len() {
        list.update(i, (role, pid))
    } else {
        list.push((role, pid))
    }
}

/// The process that last served a role.
pub open spec fn process_of(list: Seq<(Seq<char>, u32)>, role: Seq<char>) -> Option<u32> {
    let i = role_index(list, role, 0);
    if i < list.len() {
        Some(list[i].1)
    } else {
        None
    }
}

/// No role is listed twice.
pub open spec fn roles_differ(list: Seq<(Seq<char>, u32)>) -> bool {
    forall|i: int, j: int| 0 <= i < j < list.len() ==> (#[trigger] list[i]).0 != (#[trigger] list[j]).0
}

/// The listed processes.
pub open spec fn processes(list: Seq<(Seq<char>, u32)>) -> Seq<u32> {
    list.map_values(|e: (Seq<char>, u32)| e.1)
}

/// Where a role is found.
proof fn lemma_role_index(list: Seq<(Seq<char>, u32)>, role: Seq<char>, k: int)
    requires
        0 <= k <= list.len(),
    ensures
        k <= role_index(list, role, k) <= list.len(),
        role_index(list, role, k) < list.len() ==> list[role_index(list, role, k)].0 == role,
        forall|j: int|
            k <= j < role_index(list, role, k) ==> (#[trigger] list[j]).0 != role,
    decreases list.len() - k,
{
    if k < list.len() && list[k].0 != role {
        lemma_role_index(list, role, k + 1);
    }
}

/// The first place with a role is where it is found.
proof fn lemma_role_found(list: Seq<(Seq<char>, u32)>, role: Seq<char>, i: int, k: int)
    requires
        0 <= k <= i < list.len(),
        list[i].0 == role,
        forall|j: int| k <= j < i ==> (#[trigger] list[j]).0 != role,
    ensures
        role_index(list, role, k) == i,
    decreases i - k,
{
    if k < i {
        lemma_role_found(list, role, i, k + 1);
    }
}

/// After a process has served a role it stands for that role, the other roles are
/// as they were, and no role is listed twice.
pub proof fn law_last_process_of_a_role_stands(
    list: Seq<(Seq<char>, u32)>,
    role: Seq<char>,
    pid: u32,
    other: Seq<char>,
)
    requires
        roles_differ(list),
    ensures
        roles_differ(served(list, role, pid)),
        process_of(served(list, role, pid), other) == if other == role {
            Some(pid)
        } else {
            process_of(list, other)
        },
{
    let s = served(list, role, pid);
    let i = role_index(list, role, 0);
    lemma_role_index(list, role, 0);
    lemma_role_index(list, other, 0);
    lemma_role_index(s, other, 0);
    if other == role {
        assert(s[i] == (role, pid));
        lemma_role_found(s, role, i, 0);
    } else {
        let j = role_index(list, other, 0);
        if j < list.len() {
            assert(s[j] == list[j]);
            assert forall|q: int| 0 <= q < j implies (#[trigger] s[q]).0 != other by {
                if q < list.len() {
                    assert(list[q].0 != other);
                }
            }
            lemma_role_found(s, other, j, 0);
        } else {
            let q = role_index(s, other, 0);
            if q < s.len() {
                assert(s[q].0 == other);
                if q < list.len() {
                    assert(list[q].0 != other);
                }
            }
        }
    }
}

impl View for Consumers {
    type V = Seq<(Seq<char>, u32)>;

    open spec fn view(&self) -> Seq<(Seq<char>, u32)> {
        entries(self.list@)
    }
}

impl Consumers {
    /// No role was served yet.
    pub fn new() -> (r: Consumers)
        ensures
            r@ == Seq::<(Seq<char>, u32)>::empty(),
    {
        let r = Consumers { list: Vec::new() };
        assert(r@ =~= Seq::<(Seq<char>, u32)>::empty());
        r
    }

    /// A process has served a role.
    pub fn insert(&mut self, role: String, pid: u32)
        ensures
            final(self)@ == served(old(self)@, role@, pid),
    {
        let mut i: usize = 0;
        while i < self.list.len() && !same_text(self.list[i].0.as_str(), role.as_str())
            invariant
                i <= self.list@.len(),
                self@ == old(self)@,
                role_index(self@, role@, 0) == role_index(self@, role@, i as int),
            ensures
                i <= self.list@.len(),
                self@ == old(self)@,
                role_index(self@, role@, 0) == i,
            decreases self.list@.len() - i,
        {
            i = i + 1;
        }
        if i < self.list.len() {
            self.list.set(i, (role, pid));
            assert(self@ =~= old(self)@.update(i as int, (role@, pid)));
        } else {
            self.list.push((role, pid));
            assert(self@ =~= old(self)@.push((role@, pid)));
        }
    }

    /// The listed processes.
    pub fn pids(&self) -> (r: Vec<u32>)
        ensures
            r@ == processes(self@),
    {
        let mut out: Vec<u32> = Vec::new();
        let mut i: usize = 0;
        while i < self.list.len()
            invariant
                i <= self.list@.len(),
                out@.len() == i,
                forall|j: int| 0 <= j < i ==> out@[j] == self.list@[j].1,
            decreases self.list@.len() - i,
        {
            out.push(self.list[i].1);
            i = i + 1;
        }
        assert(out@ =~= processes(self@));
        out
    }

    /// How many different processes are listed.
    pub fn distinct(&self) -> (r: usize)
        ensures
            r == distinct_count(processes(self@)),
    {
        let pids = self.pids();
        distinct_numbers(pids.as_slice())
    }

    /// Whether no listed process is `pid`.
    pub fn all_differ_from(&self, pid: u32) -> (r: bool)
        ensures
            r == !processes(self@).contains(pid),
    {
        let pids = self.pids();
        let mut i: usize = 0;
        while i < pids.len()
            invariant
                i <= pids@.len(),
                pids@ == processes(self@),
                forall|j: int| 0 <= j < i ==> pids@[j] != pid,
            decreases pids@.len() - i,
        {
            if pids[i] == pid {
                assert(pids@[i as int] == pid);
                return false;
            }
            i = i + 1;
        }
        true
    }
}

/// The counts of roles and of processes agree just when no process is listed for
/// two roles.
pub proof fn law_equal_counts_mean_distinct_processes(list: Seq<(Seq<char>, u32)>)
    ensures
        distinct_count(processes(list)) == list.len() <==> processes(list).no_duplicates(),
{
    let p = processes(list);
    if p.no_duplicates() {
        p.unique_seq_to_set();
    }
    if distinct_count(p) == p.len() {
        p.lemma_no_dup_set_cardinality();
    }
}

/// The role that a process serves, if it is recorded: what is discarded is not.
pub open spec fn role_of(job: Job) -> Option<Seq<char>> {
    match job {
        Job::Identity { request, mode } => Some(
            "montage-"@ + request.text() + "-"@ + mode.text(),
        ),
        Job::Timing { mode, rep } => if rep > 0 {
            Some("timing-"@ + mode.text())
        } else {
            None
        },
        Job::EndToEnd { mode, rep } => if rep > 0 {
            Some("e2e-"@ + mode.text())
        } else {
            None
        },
        Job::Sweep { mode, .. } => Some("sweep-"@ + mode.text() + "-last"@),
        Job::NegativeOffered => Some("negative-offered"@),
        Job::NegativeBaseline => Some("negative-baseline"@),
        _ => None,
    }
}

/// The role that a process serves, if it is recorded.
pub fn role(job: &Job) -> (r: Option<String>)
    ensures
        crate::experiment::args::opt_text(r) == role_of(*job),
{
    let mut s: String = String::new();
    match job {
        Job::Identity { request, mode } => {
            s.append("montage-");
            s.append(request.name());
            s.append("-");
            s.append(mode.as_str());
            assert(s@ =~= "montage-"@ + request.text() + "-"@ + mode.text());
            Some(s)
        },
        Job::Timing { mode, rep } => {
            if *rep > 0 {
                s.append("timing-");
                s.append(mode.as_str());
                assert(s@ =~= "timing-"@ + mode.text());
                Some(s)
            } else {
                None
            }
        },
        Job::EndToEnd { mode, rep } => {
            if *rep > 0 {
                s.append("e2e-");
                s.append(mode.as_str());
                assert(s@ =~= "e2e-"@ + mode.text());
                Some(s)
            } else {
                None
            }
        },
        Job::Sweep { n: _, index: _, mode } => {
            s.append("sweep-");
            s.append(mode.as_str());
            s.append("-last");
            assert(s@ =~= "sweep-"@ + mode.text() + "-last"@);
            Some(s)
        },
        Job::NegativeOffered => Some("negative-offered".to_owned()),
        Job::NegativeBaseline => Some("negative-baseline".to_owned()),
        _ => None,
    }
}

/// Which processes are recorded as consumers, and under which role: each compared request by
/// itself, the measured ones of the two clocks by their path, those of the sweep together as
/// the last of their path, and the two of the negative case. Warm-ups and producers are none.
pub proof fn law_roles_of_processes(request: Request, mode: Mode, n: usize, index: usize, rep: usize)
    ensures
        role_of(Job::Identity { request, mode }) == Some(
            "montage-"@ + request.text() + "-"@ + mode.text(),
        ),
        rep > 0 ==> role_of(Job::Timing { mode, rep }) == Some("timing-"@ + mode.text()),
        rep > 0 ==> role_of(Job::EndToEnd { mode, rep }) == Some("e2e-"@ + mode.text()),
        role_of(Job::Timing { mode, rep: 0 }) is None,
        role_of(Job::EndToEnd { mode, rep: 0 }) is None,
        role_of(Job::Sweep { n, index, mode }) == Some("sweep-"@ + mode.text() + "-last"@),
        role_of(Job::NegativeOffered) == Some("negative-offered"@),
        role_of(Job::NegativeBaseline) == Some("negative-baseline"@),
        role_of(Job::Producer) is None,
        role_of(Job::SweepWarmup { mode }) is None,
{
}

/// Serving a role keeps every other entry where it is, and a new role comes last.
pub proof fn law_serving_keeps_the_others(
    list: Seq<(Seq<char>, u32)>,
    role: Seq<char>,
    pid: u32,
    i: int,
)
    requires
        0 <= i < list.len(),
        list[i].0 != role,
    ensures
        served(list, role, pid)[i] == list[i],
        (forall|j: int| 0 <= j < list.len() ==> (#[trigger] list[j]).0 != role) ==> served(
            list,
            role,
            pid,
        ) == list.push((role, pid)),
        processes(list).len() == list.len(),
        processes(list)[i] == list[i].1,
{
    lemma_role_index_bound(list, role, 0);
}

/// Where a role is found.
proof fn lemma_role_index_bound(list: Seq<(Seq<char>, u32)>, role: Seq<char>, k: int)
    requires
        0 <= k <= list.len(),
    ensures
        k <= role_index(list, role, k) <= list.len(),
        role_index(list, role, k) < list.len() ==> list[role_index(list, role, k)].0 == role,
    decreases list.len() - k,
{
    if k < list.len() && list[k].0 != role {
        lemma_role_index_bound(list, role, k + 1);
    }
}

} // verus!
