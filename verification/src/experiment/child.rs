//! What the orchestrator makes of a child process.

use vstd::prelude::*;

use crate::model::params::{names_text, push_names};
use crate::text::{after, before, characters, decimal, decimal_text,
    law_split_at_the_first_separator, lemma_after_shorter, piece_end, push_decimal, text_of};

verus! {

/// Marker prefix on a child's report line.
pub const CHILD_MARKER: &'static str = "@@VOLE_FIELD_CHILD@@";

/// Threads pinned for every child, at most.
pub const MAX_PINNED_THREADS: usize = 4;

/// A line without the carriage return that it ends in.
pub open spec fn without_return(s: Seq<char>) -> Seq<char> {
    if s.len() > 0 && s.last() == '\r' {
        s.drop_last()
    } else {
        s
    }
}

/// The lines of a text: each ends in a line feed, or in a carriage return and a
/// line feed, which do not belong to it; the last one may be unterminated.
pub open spec fn lines(s: Seq<char>) -> Seq<Seq<char>>
    decreases s.len(),
{
    if s.len() == 0 {
        Seq::empty()
    } else {
        proof {
            lemma_after_shorter(s, '\n');
        }
        let first = before(s, '\n');
        if first.len() == s.len() {
            seq![first]
        } else {
            seq![without_return(first)] + lines(after(s, '\n'))
        }
    }
}

/// Whether `s` begins with `prefix`.
pub open spec fn begins_with(s: Seq<char>, prefix: Seq<char>) -> bool {
    s.len() >= prefix.len() && s.take(prefix.len() as int) == prefix
}

/// What follows the marker on the last of the lines that begin with it.
pub open spec fn last_marked(ls: Seq<Seq<char>>) -> Option<Seq<char>>
    decreases ls.len(),
{
    if ls.len() == 0 {
        None
    } else if begins_with(ls.last(), CHILD_MARKER@) {
        Some(ls.last().skip(CHILD_MARKER@.len() as int))
    } else {
        last_marked(ls.drop_last())
    }
}

/// The report that a child printed: what follows the marker on the last line of
/// its output that begins with it.
pub fn report_text(stdout: &str) -> (r: Option<String>)
    ensures
        match r {
            Some(t) => last_marked(lines(stdout@)) == Some(t@),
            None => last_marked(lines(stdout@)) is None,
        },
{
    let chars = characters(stdout);
    let marker = characters(CHILD_MARKER);
    let mut found: Option<String> = None;
    let mut pos: usize = 0;
    let ghost mut seen: Seq<Seq<char>> = Seq::empty();
    proof {
        assert(chars@.skip(0) =~= chars@);
        assert(seen + lines(chars@.skip(0)) =~= lines(stdout@));
    }
    while pos < chars.len()
        invariant
            pos <= chars@.len(),
            marker@ == CHILD_MARKER@,
            seen + lines(chars@.skip(pos as int)) == lines(stdout@),
            match found {
                Some(t) => last_marked(seen) == Some(t@),
                None => last_marked(seen) is None,
            },
        decreases chars@.len() - pos,
    {
        let ghost s = chars@.skip(pos as int);
        let end = piece_end(&chars, pos, '\n');
        let mut stop: usize = end;
        let mut next: usize = end;
        if end < chars.len() {
            next = end + 1;
            if end > pos && chars[end - 1] == '\r' {
                stop = end - 1;
            }
        }
        let ghost line = chars@.subrange(pos as int, stop as int);
        proof {
            let first = before(s, '\n');
            assert(first == chars@.subrange(pos as int, end as int));
            assert(s.len() == chars@.len() - pos);
            if end < chars@.len() {
                assert(first.len() < s.len());
                assert(line =~= without_return(first));
                assert(after(s, '\n') =~= chars@.skip(next as int));
                assert(lines(s) == seq![line] + lines(chars@.skip(next as int)));
            } else {
                assert(line =~= first);
                assert(chars@.skip(next as int) =~= Seq::<char>::empty());
                assert(lines(s) =~= seq![line] + lines(chars@.skip(next as int)));
            }
        }
        if marked(&chars, pos, stop, &marker) {
            found = Some(text_of(&chars, pos + marker.len(), stop));
            assert(line.skip(marker@.len() as int) =~= chars@.subrange(
                pos + marker@.len(),
                stop as int,
            ));
        }
        proof {
            let before_line = seen;
            seen = seen.push(line);
            assert(seen.drop_last() =~= before_line);
            assert(seen + lines(chars@.skip(next as int)) =~= before_line + (seq![line] + lines(
                chars@.skip(next as int),
            )));
        }
        pos = next;
    }
    assert(seen + lines(chars@.skip(pos as int)) =~= seen);
    found
}

/// Whether the characters in `from..to` begin with the marker.
fn marked(chars: &Vec<char>, from: usize, to: usize, marker: &Vec<char>) -> (r: bool)
    requires
        from <= to <= chars@.len(),
    ensures
        r == begins_with(chars@.subrange(from as int, to as int), marker@),
{
    let ghost line = chars@.subrange(from as int, to as int);
    if to - from < marker.len() {
        return false;
    }
    let mut i: usize = 0;
    while i < marker.len()
        invariant
            i <= marker@.len() <= to - from,
            from <= to <= chars@.len(),
            line == chars@.subrange(from as int, to as int),
            forall|j: int| 0 <= j < i ==> chars@[from + j] == marker@[j],
        decreases marker@.len() - i,
    {
        if chars[from + i] != marker[i] {
            assert(line.take(marker@.len() as int)[i as int] != marker@[i as int]);
            return false;
        }
        i = i + 1;
    }
    assert(line.take(marker@.len() as int) =~= marker@);
    true
}

/// How a child is named in messages.
pub open spec fn child_name(args: Seq<String>) -> Seq<char> {
    "child "@ + names_text(args)
}

/// What a finished child reported, or why it counts as failed: it did not exit
/// successfully, or it printed no report line.
pub open spec fn child_outcome(
    args: Seq<String>,
    success: bool,
    status: Seq<char>,
    stdout: Seq<char>,
    stderr: Seq<char>,
) -> Result<Seq<char>, Seq<char>> {
    if !success {
        Err(child_name(args) + " exited with "@ + status + "\nstderr:\n"@ + stderr)
    } else {
        match last_marked(lines(stdout)) {
            Some(t) => Ok(t),
            None => Err(
                child_name(args) + " printed no report line\nstdout:\n"@ + stdout + "\nstderr:\n"@
                    + stderr,
            ),
        }
    }
}

/// The report of a finished child, still as text.
pub fn child_report(args: &Vec<String>, success: bool, status: &str, stdout: &str, stderr: &str)
    -> (r: Result<String, String>)
    ensures
        match r {
            Ok(t) => child_outcome(args@, success, status@, stdout@, stderr@) == Ok::<
                Seq<char>,
                Seq<char>,
            >(t@),
            Err(e) => child_outcome(args@, success, status@, stdout@, stderr@) == Err::<
                Seq<char>,
                Seq<char>,
            >(e@),
        },
{
    if success {
        match report_text(stdout) {
            Some(t) => {
                return Ok(t);
            },
            None => {},
        }
    }
    let mut e: String = String::new();
    e.append("child ");
    push_names(&mut e, args);
    assert(e@ =~= child_name(args@));
    if !success {
        e.append(" exited with ");
        e.append(status);
    } else {
        e.append(" printed no report line\nstdout:\n");
        e.append(stdout);
    }
    e.append("\nstderr:\n");
    e.append(stderr);
    Err(e)
}

/// Whether a child is the process that was spawned: it reported a process id, and
/// the one that the operating system assigned. Otherwise the error says which of
/// the two it was.
pub fn check_pid(args: &Vec<String>, pid: u32, os_pid: u32) -> (r: Result<(), String>)
    ensures
        if pid == 0 {
            r matches Err(e) && e@ == child_name(args@) + " reported no pid"@
        } else if pid != os_pid {
            r matches Err(e) && e@ == child_name(args@) + " reported pid "@ + decimal(pid as nat)
                + " but the OS assigned "@ + decimal(os_pid as nat)
        } else {
            r is Ok
        },
{
    if pid != 0 && pid == os_pid {
        return Ok(());
    }
    let mut e: String = String::new();
    e.append("child ");
    push_names(&mut e, args);
    assert(e@ =~= child_name(args@));
    if pid == 0 {
        e.append(" reported no pid");
    } else {
        e.append(" reported pid ");
        push_decimal(&mut e, pid as u64);
        e.append(" but the OS assigned ");
        push_decimal(&mut e, os_pid as u64);
    }
    Err(e)
}

/// The environment that pins a child's threads; zero leaves the default.
pub fn child_env(threads: usize) -> (r: Vec<(String, String)>)
    ensures
        threads == 0 ==> r@.len() == 0,
        threads > 0 ==> r@.len() == 1 && r@[0].0@ == "RAYON_NUM_THREADS"@ && r@[0].1@ == decimal(
            threads as nat,
        ),
{
    let mut env: Vec<(String, String)> = Vec::new();
    if threads > 0 {
        env.push(("RAYON_NUM_THREADS".to_owned(), decimal_text(threads as u64)));
    }
    env
}

/// Threads to pin, given how many the machine has, if that is known: at least one
/// and at most [`MAX_PINNED_THREADS`].
pub fn default_threads(available: Option<usize>) -> (r: usize)
    ensures
        r == match available {
            Some(n) => if n < 1 {
                1
            } else if n > 4 {
                4
            } else {
                n
            },
            None => 1,
        },
{
    let n: usize = match available {
        Some(n) => n,
        None => 1,
    };
    if n < 1 {
        1
    } else if n > MAX_PINNED_THREADS {
        MAX_PINNED_THREADS
    } else {
        n
    }
}

/// The line that a child prints last is found and gives its report back, whatever
/// complete lines it printed before.
pub proof fn law_printed_report_is_found(earlier: Seq<char>, json: Seq<char>)
    requires
        earlier.len() == 0 || earlier.last() == '\n',
        forall|i: int| 0 <= i < json.len() ==> json[i] != '\n',
        json.len() > 0 ==> json.last() != '\r',
    ensures
        last_marked(lines(earlier + CHILD_MARKER@ + json + "\n"@)) == Some(json),
    decreases earlier.len(),
{
    reveal_strlit("@@VOLE_FIELD_CHILD@@");
    reveal_strlit("\n");
    let line = CHILD_MARKER@ + json;
    let s = earlier + CHILD_MARKER@ + json + "\n"@;
    if earlier.len() == 0 {
        assert(s =~= line.push('\n'));
        lemma_terminated_line(line, Seq::empty());
        assert(line.push('\n') + Seq::<char>::empty() =~= line.push('\n'));
        assert(without_return(line) == line);
        assert(lines(Seq::<char>::empty()) =~= Seq::<Seq<char>>::empty());
        assert(lines(s) =~= seq![line]);
        assert(seq![line].last() == line);
        assert(line.take(CHILD_MARKER@.len() as int) =~= CHILD_MARKER@);
        assert(line.skip(CHILD_MARKER@.len() as int) =~= json);
    } else {
        let rest = after(earlier, '\n');
        lemma_after_shorter(earlier, '\n');
        lemma_after_of_terminated(earlier);
        let tail = CHILD_MARKER@ + json + "\n"@;
        let s2 = rest + CHILD_MARKER@ + json + "\n"@;
        assert(s =~= earlier + tail);
        assert(s2 =~= rest + tail);
        lemma_after_append(earlier, tail);
        assert(lines(s) == seq![without_return(before(s, '\n'))] + lines(s2));
        law_printed_report_is_found(rest, json);
        lemma_last_marked_prefix(seq![without_return(before(s, '\n'))], lines(s2));
    }
}

/// The first line of a text whose first line is terminated.
proof fn lemma_terminated_line(line: Seq<char>, rest: Seq<char>)
    requires
        forall|i: int| 0 <= i < line.len() ==> line[i] != '\n',
    ensures
        before(line.push('\n') + rest, '\n') == line,
        after(line.push('\n') + rest, '\n') == rest,
        lines(line.push('\n') + rest) == seq![without_return(line)] + lines(rest),
    decreases line.len(),
{
    let s = line.push('\n') + rest;
    if line.len() == 0 {
        assert(s[0] == '\n');
        assert(s.drop_first() =~= rest);
        assert(before(s, '\n') =~= line);
    } else {
        let l2 = line.drop_first();
        assert(s.drop_first() =~= l2.push('\n') + rest);
        lemma_terminated_line(l2, rest);
        assert(s[0] == line[0]);
        assert(before(s, '\n') =~= line);
    }
}

/// What follows the first line of a terminated text is empty or terminated, and
/// there is a line feed to follow.
proof fn lemma_after_of_terminated(s: Seq<char>)
    requires
        s.len() > 0,
        s.last() == '\n',
    ensures
        after(s, '\n').len() == 0 || after(s, '\n').last() == '\n',
        before(s, '\n').len() < s.len(),
    decreases s.len(),
{
    if s[0] == '\n' {
        if s.len() > 1 {
            assert(s.drop_first().last() == s.last());
        }
    } else {
        assert(s.drop_first().last() == s.last());
        lemma_after_of_terminated(s.drop_first());
    }
}

/// A terminated text keeps its first line when more follows it.
proof fn lemma_after_append(s: Seq<char>, tail: Seq<char>)
    requires
        s.len() > 0,
        s.last() == '\n',
    ensures
        after(s + tail, '\n') == after(s, '\n') + tail,
        before(s + tail, '\n') == before(s, '\n'),
        before(s + tail, '\n').len() < (s + tail).len(),
    decreases s.len(),
{
    assert((s + tail).drop_first() =~= s.drop_first() + tail);
    if s[0] != '\n' {
        assert(s.drop_first().last() == s.last());
        lemma_after_append(s.drop_first(), tail);
    }
}

/// Lines in front do not matter when a later one is marked.
proof fn lemma_last_marked_prefix(front: Seq<Seq<char>>, rest: Seq<Seq<char>>)
    requires
        last_marked(rest) is Some,
    ensures
        last_marked(front + rest) == last_marked(rest),
    decreases rest.len(),
{
    let all = front + rest;
    assert(rest.len() > 0);
    assert(all.last() == rest.last());
    if !begins_with(rest.last(), CHILD_MARKER@) {
        assert(all.drop_last() =~= front + rest.drop_last());
        lemma_last_marked_prefix(front, rest.drop_last());
    }
}

/// The last line that carries the marker is the report: no line behind it does, and what
/// follows the marker on it is the report's text. Without such a line there is no report.
pub proof fn law_last_marked_line_is_the_report(ls: Seq<Seq<char>>, k: int)
    requires
        -1 <= k < ls.len(),
        k >= 0 ==> ls[k].len() >= 20 && ls[k].take(20) == "@@VOLE_FIELD_CHILD@@"@,
        forall|j: int|
            k < j < ls.len() ==> !((#[trigger] ls[j]).len() >= 20 && ls[j].take(20)
                == "@@VOLE_FIELD_CHILD@@"@),
    ensures
        k >= 0 ==> last_marked(ls) == Some(ls[k].skip(20)),
        k == -1 ==> last_marked(ls) is None,
    decreases ls.len(),
{
    reveal_strlit("@@VOLE_FIELD_CHILD@@");
    assert("@@VOLE_FIELD_CHILD@@"@.len() == 20);
    if ls.len() > 0 && k < ls.len() - 1 {
        assert(!begins_with(ls[ls.len() - 1], CHILD_MARKER@));
        law_last_marked_line_is_the_report(ls.drop_last(), k);
    }
}

/// A child that failed is an error whatever it printed, and so is one that printed no
/// report; any other child's outcome is its report.
pub proof fn law_failed_children_are_errors(
    args: Seq<String>,
    status: Seq<char>,
    stdout: Seq<char>,
    stderr: Seq<char>,
)
    ensures
        child_outcome(args, false, status, stdout, stderr) is Err,
        child_outcome(args, true, status, stdout, stderr) is Err <==> last_marked(
            lines(stdout),
        ) is None,
        child_outcome(args, true, status, stdout, stderr) matches Ok(t) ==> last_marked(
            lines(stdout),
        ) == Some(t),
{
}

/// A text is taken apart at its line feeds. A carriage return before one goes with it, and one
/// that stands elsewhere stays.
pub proof fn law_lines_end_at_line_feeds(line: Seq<char>, rest: Seq<char>)
    requires
        !line.contains('\n'),
    ensures
        lines(Seq::empty()) == Seq::<Seq<char>>::empty(),
        line.len() > 0 ==> lines(line) == seq![line],
        line.len() == 0 || line.last() != '\r' ==> lines(line + seq!['\n'] + rest) == seq![line]
            + lines(rest),
        lines(line + seq!['\r', '\n'] + rest) == seq![line] + lines(rest),
{
    assert forall|i: int| 0 <= i < line.len() implies #[trigger] line[i] != '\n' by {
        assert(line.contains(line[i]));
    }
    law_split_at_the_first_separator(line, '\n', line.len() as int);
    assert(line.take(line.len() as int) =~= line);
    let fed = line + seq!['\n'] + rest;
    law_split_at_the_first_separator(fed, '\n', line.len() as int);
    assert(fed.take(line.len() as int) =~= line);
    assert(fed.skip(line.len() as int + 1) =~= rest);
    let ended = line.push('\r');
    let both = line + seq!['\r', '\n'] + rest;
    law_split_at_the_first_separator(both, '\n', ended.len() as int);
    assert(both.take(ended.len() as int) =~= ended);
    assert(both.skip(ended.len() as int + 1) =~= rest);
    assert(ended.drop_last() =~= line);
}

} // verus!
