//! Which checkpoint a path stands for, and when the embedded copy may be used
//! instead of a file.

use vstd::prelude::*;

use crate::bytes::copy_range;
use crate::text::{after, before, characters, lemma_after_shorter, piece, piece_end, quote_path,
    quoted_path};

verus! {

/// Canonical checkpoint path, relative to the working directory.
pub const CHECKPOINT_PATH: &'static str = "assets/tiny_convlstm.safetensors";

/// The components of the rest of a path, behind its beginning: empty pieces and
/// single dots between slashes do not count.
pub open spec fn inner_components(s: Seq<char>) -> Seq<Seq<char>>
    decreases s.len(),
{
    if s.len() == 0 {
        Seq::empty()
    } else {
        proof {
            lemma_after_shorter(s, '/');
        }
        let first = before(s, '/');
        let rest = inner_components(after(s, '/'));
        if first.len() == 0 || first == "."@ {
            rest
        } else {
            seq![first] + rest
        }
    }
}

/// The components of a path. A leading slash is a component of its own, and so is
/// a dot that the path begins with.
pub open spec fn path_components(s: Seq<char>) -> Seq<Seq<char>> {
    if s.len() > 0 && s[0] == '/' {
        seq!["/"@] + inner_components(s)
    } else if before(s, '/') == "."@ {
        seq!["."@] + inner_components(s)
    } else {
        inner_components(s)
    }
}

/// Whether a path is the canonical checkpoint path: it has the same components.
pub open spec fn canonical_path(path: Seq<char>) -> bool {
    path_components(path) == path_components(CHECKPOINT_PATH@)
}

/// A list of texts as sequences of characters.
pub open spec fn texts(v: Seq<Vec<char>>) -> Seq<Seq<char>> {
    v.map_values(|t: Vec<char>| t@)
}

/// The components of a path, which slashes separate.
pub fn components(path: &str) -> (r: Vec<Vec<char>>)
    ensures
        texts(r@) == path_components(path@),
{
    let chars = characters(path);
    let mut out: Vec<Vec<char>> = Vec::new();
    proof {
        reveal_strlit("/");
        reveal_strlit(".");
        assert(chars@.skip(0) =~= chars@);
    }
    let first = piece_end(&chars, 0, '/');
    if chars.len() > 0 && chars[0] == '/' {
        let mut root: Vec<char> = Vec::new();
        root.push('/');
        assert(root@ =~= "/"@);
        out.push(root);
    } else if first == 1 && chars[0] == '.' {
        assert(chars@.subrange(0, 1) =~= "."@);
        out.push(piece(&chars, 0, 1));
    } else {
        assert(chars@.subrange(0, first as int).len() == first);
    }
    let mut pos: usize = 0;
    assert(texts(out@) + inner_components(chars@.skip(0)) =~= path_components(path@));
    while pos < chars.len()
        invariant
            pos <= chars@.len(),
            texts(out@) + inner_components(chars@.skip(pos as int)) == path_components(path@),
            "."@ == seq!['.'],
        decreases chars@.len() - pos,
    {
        let ghost done = texts(out@);
        let ghost s = chars@.skip(pos as int);
        let end = piece_end(&chars, pos, '/');
        let next: usize = if end < chars.len() {
            end + 1
        } else {
            end
        };
        assert(after(s, '/') =~= chars@.skip(next as int));
        let p = piece(&chars, pos, end);
        if p.len() > 0 && !(p.len() == 1 && p[0] == '.') {
            proof {
                if p@.len() == 1 {
                    assert(p@[0] != "."@[0]);
                }
            }
            out.push(p);
            assert(texts(out@) =~= done.push(before(s, '/')));
            assert(done.push(before(s, '/')) + inner_components(after(s, '/')) =~= done + (
            seq![before(s, '/')] + inner_components(after(s, '/'))));
        } else {
            proof {
                if p@.len() == 1 {
                    assert(p@ =~= "."@);
                }
            }
        }
        pos = next;
    }
    assert(texts(out@) + inner_components(chars@.skip(pos as int)) =~= texts(out@));
    out
}

/// Whether two component lists are equal.
fn same_components(a: &Vec<Vec<char>>, b: &Vec<Vec<char>>) -> (r: bool)
    ensures
        r == (texts(a@) == texts(b@)),
{
    if a.len() != b.len() {
        assert(texts(a@).len() != texts(b@).len());
        return false;
    }
    let mut i: usize = 0;
    while i < a.len()
        invariant
            i <= a@.len() == b@.len(),
            forall|j: int| 0 <= j < i ==> a@[j]@ == b@[j]@,
        decreases a@.len() - i,
    {
        if !same_characters(&a[i], &b[i]) {
            assert(texts(a@)[i as int] != texts(b@)[i as int]);
            return false;
        }
        i = i + 1;
    }
    assert(texts(a@) =~= texts(b@));
    true
}

/// Whether two lists of characters are equal.
fn same_characters(a: &Vec<char>, b: &Vec<char>) -> (r: bool)
    ensures
        r == (a@ == b@),
{
    if a.len() != b.len() {
        return false;
    }
    let mut i: usize = 0;
    while i < a.len()
        invariant
            i <= a@.len() == b@.len(),
            forall|j: int| 0 <= j < i ==> a@[j] == b@[j],
        decreases a@.len() - i,
    {
        if a[i] != b[i] {
            return false;
        }
        i = i + 1;
    }
    assert(a@ =~= b@);
    true
}

/// Whether `path` is the canonical checkpoint path.
pub fn is_canonical_checkpoint(path: &str) -> (r: bool)
    ensures
        r == canonical_path(path@),
{
    same_components(&components(path), &components(CHECKPOINT_PATH))
}

// ---------------------------------------------------------------------------
// The fallback rule
// ---------------------------------------------------------------------------

/// What came of reading a checkpoint file.
#[derive(Debug, PartialEq, Eq)]
pub enum ReadOutcome {
    /// The file's bytes.
    Bytes(Vec<u8>),
    /// The read failed.
    Failed {
        /// The file does not exist.
        not_found: bool,
        /// The error's own text.
        error: String,
    },
}

/// Whether the embedded copy may stand in: the file is absent, and it is the
/// canonical one that was asked for.
pub open spec fn fallback_applies(path: Seq<char>, not_found: bool) -> bool {
    not_found && canonical_path(path)
}

/// Whether the embedded copy may stand in for a read of `path` that failed.
pub fn fallback_for(path: &str, not_found: bool) -> (r: bool)
    ensures
        r == fallback_applies(path@, not_found),
{
    not_found && is_canonical_checkpoint(path)
}

/// A checkpoint's bytes: the file's, or the embedded copy's where the fallback
/// applies. Any other failed read is an error.
pub fn read_checkpoint(path: &str, read: ReadOutcome, embedded: &[u8]) -> (r: Result<
    Vec<u8>,
    String,
>)
    ensures
        match read {
            ReadOutcome::Bytes(b) => r == Ok::<Vec<u8>, String>(b),
            ReadOutcome::Failed { not_found, error } => if fallback_applies(path@, not_found) {
                r matches Ok(b) && b@ == embedded@
            } else {
                r matches Err(e) && e@ == "read "@ + quoted_path(path@) + ": "@ + error@
            },
        },
{
    match read {
        ReadOutcome::Bytes(b) => Ok(b),
        ReadOutcome::Failed { not_found, error } => {
            if fallback_for(path, not_found) {
                let b = copy_range(embedded, 0, embedded.len());
                assert(b@ =~= embedded@);
                Ok(b)
            } else {
                let mut e: String = String::new();
                e.append("read ");
                e.append(quote_path(path).as_str());
                e.append(": ");
                e.append(error.as_str());
                assert(e@ =~= "read "@ + quoted_path(path@) + ": "@ + error@);
                Err(e)
            }
        },
    }
}

/// A checkpoint that was named explicitly is never swapped for the embedded one,
/// and the canonical one only when it is absent.
pub proof fn law_fallback_only_for_the_absent_canonical_checkpoint(path: Seq<char>, not_found: bool)
    ensures
        !canonical_path(path) ==> !fallback_applies(path, not_found),
        !not_found ==> !fallback_applies(path, not_found),
        fallback_applies(CHECKPOINT_PATH@, true),
{
}

/// The components of a path are the names between its slashes; an empty one and a lone dot
/// count for nothing, but a slash or a dot that the path begins with does. So a path is the
/// canonical checkpoint's however many slashes stand between its two names.
pub proof fn law_components_are_names_between_slashes(first: Seq<char>, rest: Seq<char>)
    requires
        forall|i: int| 0 <= i < first.len() ==> #[trigger] first[i] != '/',
    ensures
        inner_components(Seq::<char>::empty()).len() == 0,
        ({
            let s = first.push('/') + rest;
            if first.len() == 0 || first == "."@ {
                inner_components(s) == inner_components(rest)
            } else {
                inner_components(s) == seq![first] + inner_components(rest)
            }
        }),
        first.len() > 0 && first != "."@ ==> inner_components(first) == seq![first],
        path_components(seq!['/'] + rest) == seq!["/"@] + inner_components(rest),
{
    let s = first.push('/') + rest;
    assert(s[first.len() as int] == '/');
    assert forall|i: int| 0 <= i < first.len() implies #[trigger] s[i] != '/' by {
        assert(s[i] == first[i]);
    }
    crate::text::law_split_at_the_first_separator(s, '/', first.len() as int);
    assert(s.take(first.len() as int) =~= first);
    assert(s.skip(first.len() as int + 1) =~= rest);
    if first.len() > 0 {
        crate::text::law_split_at_the_first_separator(first, '/', first.len() as int);
        assert(first.take(first.len() as int) =~= first);
        assert(inner_components(Seq::<char>::empty()) =~= Seq::<Seq<char>>::empty());
        assert(seq![first] + Seq::<Seq<char>>::empty() =~= seq![first]);
    }
    let rooted = seq!['/'] + rest;
    crate::text::law_split_at_the_first_separator(rooted, '/', 0);
    assert(rooted.take(0) =~= Seq::<char>::empty());
    assert(rooted.skip(1) =~= rest);
}

/// A path is the canonical checkpoint's exactly when its components are the directory and the
/// file of its name, and only then, and only where it is absent, the embedded copy stands in.
pub proof fn law_canonical_checkpoint(path: Seq<char>, not_found: bool)
    ensures
        canonical_path(path) <==> path_components(path) == seq![
            "assets"@,
            "tiny_convlstm.safetensors"@,
        ],
        fallback_applies(path, not_found) <==> not_found && path_components(path) == seq![
            "assets"@,
            "tiny_convlstm.safetensors"@,
        ],
{
    reveal_strlit("assets/tiny_convlstm.safetensors");
    reveal_strlit("assets");
    reveal_strlit("tiny_convlstm.safetensors");
    reveal_strlit(".");
    let s = "assets/tiny_convlstm.safetensors"@;
    let (a, b) = ("assets"@, "tiny_convlstm.safetensors"@);
    assert(s =~= a.push('/') + b);
    assert(a.len() == 6 && b.len() == 25 && "."@.len() == 1);
    assert forall|i: int| 0 <= i < a.len() implies #[trigger] a[i] != '/' by {}
    assert forall|i: int| 0 <= i < b.len() implies #[trigger] b[i] != '/' by {}
    law_components_are_names_between_slashes(a, b);
    law_components_are_names_between_slashes(b, Seq::empty());
    crate::text::law_split_at_the_first_separator(s, '/', 6);
    assert(s.take(6) =~= a);
    assert(path_components(s) == inner_components(s));
    assert(seq![a] + seq![b] =~= seq![a, b]);
}

} // verus!
