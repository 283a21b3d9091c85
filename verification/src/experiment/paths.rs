//! Every path that a run uses.

use vstd::prelude::*;

verus! {

/// Default run directory, relative to the working directory.
pub const DEFAULT_RUN_DIR: &'static str = "run";

/// Default frozen checkpoint.
pub const DEFAULT_CHECKPOINT: &'static str = crate::model::checkpoint::CHECKPOINT_PATH;

/// A path extended by another: an absolute extension replaces it, and a slash is
/// put between the two unless the path is empty or ends in one.
pub open spec fn joined(base: Seq<char>, rest: Seq<char>) -> Seq<char> {
    if rest.len() > 0 && rest[0] == '/' {
        rest
    } else if base.len() == 0 || base.last() == '/' {
        base + rest
    } else {
        base + "/"@ + rest
    }
}

/// The path `base`, extended by `rest`.
pub fn join(base: &str, rest: &str) -> (r: String)
    ensures
        r@ == joined(base@, rest@),
{
    let b = crate::text::characters(base);
    let e = crate::text::characters(rest);
    if e.len() > 0 && e[0] == '/' {
        return rest.to_owned();
    }
    let mut out: String = base.to_owned();
    if b.len() > 0 && b[b.len() - 1] != '/' {
        out.append("/");
    }
    out.append(rest);
    assert(out@ =~= joined(base@, rest@));
    out
}

/// Every path that a run uses, derived from one root directory.
#[derive(Debug)]
pub struct Paths {
    /// Run root.
    pub root: String,
}

impl Clone for Paths {
    fn clone(&self) -> (r: Paths)
        ensures
            r == *self,
    {
        Paths { root: self.root.clone() }
    }
}

impl Paths {
    /// Derive all paths from a run root.
    pub fn new(root: String) -> (r: Paths)
        ensures
            r.root@ == root@,
    {
        Paths { root }
    }

    /// The store directory.
    pub fn store(&self) -> (r: String)
        ensures
            r@ == joined(self.root@, "entropyfs-store"@),
    {
        join(self.root.as_str(), "entropyfs-store")
    }

    /// The raw-checkpoint file, which holds the unframed payload.
    pub fn raw_state(&self) -> (r: String)
        ensures
            r@ == joined(self.root@, "raw_state.bin"@),
    {
        join(self.root.as_str(), "raw_state.bin")
    }

    /// Emitted branch frame files.
    pub fn futures(&self) -> (r: String)
        ensures
            r@ == joined(self.root@, "futures"@),
    {
        join(self.root.as_str(), "futures")
    }

    /// Child report files.
    pub fn reports(&self) -> (r: String)
        ensures
            r@ == joined(self.root@, "reports"@),
    {
        join(self.root.as_str(), "reports")
    }

    /// The evidence file.
    pub fn results_json(&self) -> (r: String)
        ensures
            r@ == joined(self.root@, "results.json"@),
    {
        join(self.root.as_str(), "results.json")
    }

    /// The cumulative-cost table.
    pub fn reuse_csv(&self) -> (r: String)
        ensures
            r@ == joined(self.root@, "reuse.csv"@),
    {
        join(self.root.as_str(), "reuse.csv")
    }

    /// The branch montage drawn from the restore path.
    pub fn montage(&self) -> (r: String)
        ensures
            r@ == joined(self.root@, "branches.ppm"@),
    {
        join(self.root.as_str(), "branches.ppm")
    }

    /// The branch montage drawn from the from-scratch replay path.
    pub fn montage_baseline(&self) -> (r: String)
        ensures
            r@ == joined(self.root@, "branches_baseline.ppm"@),
    {
        join(self.root.as_str(), "branches_baseline.ppm")
    }

    /// A scratch subdirectory for the timing producers.
    pub fn timing_dir(&self, name: &str) -> (r: String)
        ensures
            r@ == joined(joined(self.root@, "timing"@), name@),
    {
        let base = join(self.root.as_str(), "timing");
        join(base.as_str(), name)
    }
}

/// Joining puts one slash between a directory and a name, unless one is there already or
/// there is no directory; a name that is absolute stands for itself.
pub proof fn law_joined_paths(base: Seq<char>, rest: Seq<char>)
    ensures
        rest.len() > 0 && rest[0] == '/' ==> joined(base, rest) == rest,
        !(rest.len() > 0 && rest[0] == '/') && base.len() > 0 && base.last() != '/' ==> joined(
            base,
            rest,
        ) == base.push('/') + rest,
        !(rest.len() > 0 && rest[0] == '/') && base.len() > 0 && base.last() == '/' ==> joined(
            base,
            rest,
        ) == base + rest,
        joined(Seq::<char>::empty(), rest) == rest,
{
    reveal_strlit("/");
    assert(base + "/"@ =~= base.push('/'));
    assert(Seq::<char>::empty() + rest =~= rest);
}

} // verus!
