//! Command-line flags: looking values up in a list of arguments.

use vstd::prelude::*;

use crate::text::{parse_unsigned, read_unsigned, same_text};

verus! {

/// Arguments as sequences of characters.
pub open spec fn words(args: Seq<String>) -> Seq<Seq<char>> {
    args.map_values(|a: String| a@)
}

/// Where a word first stands in a list, from `k` on; the length of the list if it
/// does not.
pub open spec fn word_index(args: Seq<Seq<char>>, name: Seq<char>, k: int) -> int
    decreases args.len() - k,
{
    if k >= args.len() {
        args.len() as int
    } else if args[k] == name {
        k
    } else {
        word_index(args, name, k + 1)
    }
}

/// The value of a flag: the word that follows its first occurrence.
pub open spec fn flag_value(args: Seq<Seq<char>>, name: Seq<char>) -> Option<Seq<char>> {
    let i = word_index(args, name, 0);
    if i + 1 < args.len() {
        Some(args[i + 1])
    } else {
        None
    }
}

/// The value of a flag, as a number.
pub open spec fn flag_number(args: Seq<Seq<char>>, name: Seq<char>) -> Option<nat> {
    match flag_value(args, name) {
        Some(v) => parse_unsigned(v, usize::MAX as nat),
        None => None,
    }
}

/// Where a word first stands.
pub fn position(args: &[String], name: &str) -> (r: Option<usize>)
    ensures
        match r {
            Some(i) => i < args@.len() && i == word_index(words(args@), name@, 0),
            None => word_index(words(args@), name@, 0) == args@.len(),
        },
{
    let mut k: usize = 0;
    while k < args.len()
        invariant
            k <= args@.len(),
            word_index(words(args@), name@, 0) == word_index(words(args@), name@, k as int),
        decreases args@.len() - k,
    {
        if same_text(args[k].as_str(), name) {
            return Some(k);
        }
        k = k + 1;
    }
    None
}

/// The value of a flag, if it has one.
pub fn opt_str<'a>(args: &'a [String], name: &str) -> (r: Option<&'a str>)
    ensures
        match r {
            Some(v) => flag_value(words(args@), name@) == Some(v@),
            None => flag_value(words(args@), name@) is None,
        },
{
    match position(args, name) {
        Some(i) => {
            if i < args.len() - 1 {
                Some(args[i + 1].as_str())
            } else {
                None
            }
        },
        None => None,
    }
}

/// The value of a flag that must be there.
pub fn req_str<'a>(args: &'a [String], name: &str) -> (r: Result<&'a str, String>)
    ensures
        match flag_value(words(args@), name@) {
            Some(v) => r matches Ok(s) && s@ == v,
            None => r matches Err(e) && e@ == "missing "@ + name@,
        },
{
    match opt_str(args, name) {
        Some(v) => Ok(v),
        None => {
            let mut e: String = String::new();
            e.append("missing ");
            e.append(name);
            assert(e@ =~= "missing "@ + name@);
            Err(e)
        },
    }
}

/// The value of a flag as an owned text, if it has one.
pub fn opt_path(args: &[String], name: &str) -> (r: Option<String>)
    ensures
        match r {
            Some(v) => flag_value(words(args@), name@) == Some(v@),
            None => flag_value(words(args@), name@) is None,
        },
{
    match opt_str(args, name) {
        Some(v) => Some(v.to_owned()),
        None => None,
    }
}

/// The value of a flag that must be there, as an owned text.
pub fn req_path(args: &[String], name: &str) -> (r: Result<String, String>)
    ensures
        match flag_value(words(args@), name@) {
            Some(v) => r matches Ok(s) && s@ == v,
            None => r matches Err(e) && e@ == "missing "@ + name@,
        },
{
    match req_str(args, name) {
        Ok(v) => Ok(v.to_owned()),
        Err(e) => Err(e),
    }
}

/// The value of a flag as a number, if it is one.
pub fn opt_usize(args: &[String], name: &str) -> (r: Option<usize>)
    ensures
        match r {
            Some(n) => flag_number(words(args@), name@) == Some(n as nat),
            None => flag_number(words(args@), name@) is None,
        },
{
    match opt_str(args, name) {
        Some(v) => match read_unsigned(v, usize::MAX as u64) {
            Some(n) => {
                proof {
                    lemma_parsed_fits(v@, usize::MAX as nat);
                }
                Some(n as usize)
            },
            None => None,
        },
        None => None,
    }
}

/// What was parsed is at most the bound.
proof fn lemma_parsed_fits(s: Seq<char>, max: nat)
    ensures
        parse_unsigned(s, max) matches Some(n) ==> n <= max,
{
}

/// The value of a flag that must be a number.
pub fn req_usize(args: &[String], name: &str) -> (r: Result<usize, String>)
    ensures
        match flag_number(words(args@), name@) {
            Some(v) => r matches Ok(n) && n == v,
            None => r matches Err(e) && e@ == "missing or malformed "@ + name@,
        },
{
    match opt_usize(args, name) {
        Some(n) => Ok(n),
        None => {
            let mut e: String = String::new();
            e.append("missing or malformed ");
            e.append(name);
            assert(e@ =~= "missing or malformed "@ + name@);
            Err(e)
        },
    }
}

/// Whether a flag is there at all.
pub fn has_flag(args: &[String], name: &str) -> (r: bool)
    ensures
        r == words(args@).contains(name@),
{
    proof {
        lemma_word_index(words(args@), name@, 0);
    }
    match position(args, name) {
        Some(i) => true,
        None => false,
    }
}

/// What [`word_index`] finds.
pub proof fn lemma_word_index(args: Seq<Seq<char>>, name: Seq<char>, k: int)
    requires
        0 <= k <= args.len(),
    ensures
        k <= word_index(args, name, k) <= args.len(),
        word_index(args, name, k) < args.len() ==> args[word_index(args, name, k)] == name,
        forall|i: int| k <= i < word_index(args, name, k) ==> #[trigger] args[i] != name,
    decreases args.len() - k,
{
    if k < args.len() && args[k] != name {
        lemma_word_index(args, name, k + 1);
    }
}

// ---------------------------------------------------------------------------
// Arguments as a list of flags
// ---------------------------------------------------------------------------

/// One entry of an argument list: a word, or a flag and its value.
pub struct Entry {
    pub key: Seq<char>,
    pub value: Option<Seq<char>>,
}

/// The words that an entry puts on the command line.
pub open spec fn entry_words(e: Entry) -> Seq<Seq<char>> {
    match e.value {
        Some(v) => seq![e.key, v],
        None => seq![e.key],
    }
}

/// The command line of a list of entries.
pub open spec fn command_line(entries: Seq<Entry>) -> Seq<Seq<char>>
    decreases entries.len(),
{
    if entries.len() == 0 {
        Seq::empty()
    } else {
        entry_words(entries[0]) + command_line(entries.drop_first())
    }
}

/// The first entry with this key.
pub open spec fn entry_for(entries: Seq<Entry>, name: Seq<char>) -> Option<Entry>
    decreases entries.len(),
{
    if entries.len() == 0 {
        None
    } else if entries[0].key == name {
        Some(entries[0])
    } else {
        entry_for(entries.drop_first(), name)
    }
}

/// `name` is no entry's value before it is an entry's key.
pub open spec fn key_before_value(entries: Seq<Entry>, name: Seq<char>) -> bool {
    forall|i: int|
        0 <= i < entries.len() && (#[trigger] entries[i]).value == Some(name) ==> exists|j: int|
            0 <= j <= i && (#[trigger] entries[j]).key == name
}

/// The command line of two lists of entries, one after the other.
pub proof fn lemma_command_line_append(a: Seq<Entry>, b: Seq<Entry>)
    ensures
        command_line(a + b) == command_line(a) + command_line(b),
    decreases a.len(),
{
    if a.len() == 0 {
        assert(a + b =~= b);
        assert(command_line(a) + command_line(b) =~= command_line(b));
    } else {
        assert((a + b).drop_first() =~= a.drop_first() + b);
        lemma_command_line_append(a.drop_first(), b);
        assert(entry_words(a[0]) + (command_line(a.drop_first()) + command_line(b))
            =~= command_line(a) + command_line(b));
    }
}

/// Looking a key up in two lists of entries, one after the other.
pub proof fn lemma_entry_for_append(a: Seq<Entry>, b: Seq<Entry>, name: Seq<char>)
    ensures
        entry_for(a + b, name) == match entry_for(a, name) {
            Some(e) => Some(e),
            None => entry_for(b, name),
        },
    decreases a.len(),
{
    if a.len() == 0 {
        assert(a + b =~= b);
    } else {
        assert((a + b).drop_first() =~= a.drop_first() + b);
        lemma_entry_for_append(a.drop_first(), b, name);
    }
}

/// Words in front that differ from `name` do not matter.
proof fn lemma_skip_words(front: Seq<Seq<char>>, rest: Seq<Seq<char>>, name: Seq<char>, k: int)
    requires
        0 <= k <= front.len(),
        forall|i: int| 0 <= i < front.len() ==> #[trigger] front[i] != name,
    ensures
        word_index(front + rest, name, k) == front.len() + word_index(rest, name, 0),
    decreases front.len() - k,
{
    let all = front + rest;
    if k < front.len() {
        assert(all[k] == front[k]);
        lemma_skip_words(front, rest, name, k + 1);
    } else {
        lemma_index_shift(front, rest, name, 0);
    }
}

/// Searching behind a prefix is searching the rest.
proof fn lemma_index_shift(front: Seq<Seq<char>>, rest: Seq<Seq<char>>, name: Seq<char>, k: int)
    requires
        0 <= k <= rest.len(),
    ensures
        word_index(front + rest, name, front.len() + k) == front.len() + word_index(rest, name, k),
    decreases rest.len() - k,
{
    if k < rest.len() {
        assert((front + rest)[front.len() + k] == rest[k]);
        lemma_index_shift(front, rest, name, k + 1);
    }
}

/// A flag that is no entry's value before its own entry is found there, and its
/// value is that entry's.
pub proof fn lemma_lookup(entries: Seq<Entry>, name: Seq<char>)
    requires
        key_before_value(entries, name),
    ensures
        match entry_for(entries, name) {
            Some(e) => e.value is Some ==> flag_value(command_line(entries), name) == e.value,
            None => flag_value(command_line(entries), name) is None,
        },
        command_line(entries).contains(name) == (entry_for(entries, name) is Some),
    decreases entries.len(),
{
    let all = command_line(entries);
    if entries.len() > 0 {
        let front = entry_words(entries[0]);
        let tail = entries.drop_first();
        let rest = command_line(tail);
        assert(all == front + rest);
        if entries[0].key == name {
            assert(all[0] == name);
            assert(word_index(all, name, 0) == 0);
            if let Some(v) = entries[0].value {
                assert(all[1] == v);
            }
        } else {
            if entries[0].value == Some(name) {
                let j = choose|j: int| 0 <= j <= 0 && (#[trigger] entries[j]).key == name;
                assert(entries[j].key == name);
            }
            assert forall|i: int|
                0 <= i < tail.len() && (#[trigger] tail[i]).value == Some(
                    name,
                ) implies exists|j: int| 0 <= j <= i && (#[trigger] tail[j]).key == name by {
                assert(entries[i + 1].value == Some(name));
                let j = choose|j: int| 0 <= j <= i + 1 && (#[trigger] entries[j]).key == name;
                assert(tail[j - 1].key == name);
            }
            lemma_lookup(tail, name);
            assert forall|i: int| 0 <= i < front.len() implies #[trigger] front[i] != name by {}
            lemma_skip_words(front, rest, name, 0);
            lemma_word_index(rest, name, 0);
            assert(word_index(all, name, 0) == front.len() + word_index(rest, name, 0));
            if word_index(rest, name, 0) + 1 < rest.len() {
                assert(all[word_index(all, name, 0) + 1] == rest[word_index(rest, name, 0) + 1]);
            }
            if rest.contains(name) {
                let j = choose|j: int| 0 <= j < rest.len() && rest[j] == name;
                assert(all[front.len() + j] == name);
            }
            if all.contains(name) {
                let j = choose|j: int| 0 <= j < all.len() && all[j] == name;
                if j < front.len() {
                    assert(front[j] == name);
                } else {
                    assert(rest[j - front.len()] == name);
                }
            }
        }
    } else {
        assert(all.len() == 0);
    }
}

/// A flag's value is the word behind the first place where the flag stands; a flag that
/// stands nowhere, or last, has none.
pub proof fn law_value_follows_its_flag(args: Seq<Seq<char>>, name: Seq<char>, k: int)
    requires
        0 <= k <= args.len(),
        forall|i: int| 0 <= i < k ==> #[trigger] args[i] != name,
        k < args.len() ==> args[k] == name,
    ensures
        k + 1 < args.len() ==> flag_value(args, name) == Some(args[k + 1]),
        k + 1 >= args.len() ==> flag_value(args, name) is None,
{
    lemma_first_word(args, name, 0, k);
}

/// The first place of a word.
proof fn lemma_first_word(args: Seq<Seq<char>>, name: Seq<char>, from: int, k: int)
    requires
        0 <= from <= k <= args.len(),
        forall|i: int| 0 <= i < k ==> #[trigger] args[i] != name,
        k < args.len() ==> args[k] == name,
    ensures
        word_index(args, name, from) == k,
    decreases k - from,
{
    if from < k {
        assert(args[from] != name);
        lemma_first_word(args, name, from + 1, k);
    }
}

/// A flag that takes a number has it exactly when its value is one.
pub proof fn law_numbers_are_parsed_values(args: Seq<Seq<char>>, name: Seq<char>, v: Seq<char>)
    requires
        flag_value(args, name) == Some(v),
    ensures
        flag_number(args, name) == parse_unsigned(v, usize::MAX as nat),
{
}

/// A number that a flag gives is a size of this machine.
pub proof fn lemma_numbers_fit(args: Seq<Seq<char>>, name: Seq<char>)
    ensures
        flag_number(args, name) matches Some(n) ==> n <= usize::MAX,
{
}

} // verus!
