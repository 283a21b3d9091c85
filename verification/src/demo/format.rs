//! How numbers are shown.
//!
//! The digits of real numbers come from a function that is handed in; how many of
//! them, and what stands around them, is decided here.

use vstd::prelude::*;

use crate::experiment::stats::{float_less, is_nan, less};
use crate::text::{characters, decimal, decimal_text, lemma_decimal_denotes};

verus! {

/// One hundred, as `binary64` bits.
pub const HUNDRED: u64 = 0x4059_0000_0000_0000;

/// `n` spaces.
pub open spec fn spaces(n: int) -> Seq<char> {
    Seq::new(
        if n > 0 {
            n as nat
        } else {
            0
        },
        |i: int| ' ',
    )
}

/// A text filled up with spaces behind it.
pub open spec fn padded(s: Seq<char>, width: int) -> Seq<char> {
    s + spaces(width - s.len())
}

/// A text filled up with spaces before it.
pub open spec fn aligned(s: Seq<char>, width: int) -> Seq<char> {
    spaces(width - s.len()) + s
}

/// Appends as many spaces as `len` characters leave of `width`.
fn push_spaces(out: &mut String, len: usize, width: usize)
    ensures
        final(out)@ == old(out)@ + spaces(width - len),
{
    let mut k: usize = len;
    assert(out@ =~= old(out)@ + spaces(0));
    while k < width
        invariant
            len <= k,
            k == len || k <= width,
            out@ == old(out)@ + spaces(k - len),
        decreases width - k,
    {
        out.push(' ');
        assert(out@ =~= old(out)@ + spaces(k + 1 - len));
        k = k + 1;
    }
    assert(len > width ==> spaces(width - len) =~= spaces(0));
}

/// Appends a text and fills it up with spaces behind it.
pub fn push_padded(out: &mut String, s: &str, width: usize)
    ensures
        final(out)@ == old(out)@ + padded(s@, width as int),
{
    let len: usize = characters(s).len();
    out.append(s);
    push_spaces(out, len, width);
    assert(out@ =~= old(out)@ + padded(s@, width as int));
}

/// Appends a text, filled up with spaces before it.
pub fn push_aligned(out: &mut String, s: &str, width: usize)
    ensures
        final(out)@ == old(out)@ + aligned(s@, width as int),
{
    let len: usize = characters(s).len();
    push_spaces(out, len, width);
    out.append(s);
    assert(out@ =~= old(out)@ + aligned(s@, width as int));
}

/// A line of this many equal signs.
pub open spec fn rule_text(width: nat) -> Seq<char> {
    Seq::new(width, |i: int| '=')
}

/// A line of this many equal signs.
pub fn rule(width: usize) -> (r: String)
    ensures
        r@ == rule_text(width as nat),
{
    let mut s: String = String::new();
    let mut k: usize = 0;
    assert(s@ =~= rule_text(0));
    while k < width
        invariant
            k <= width,
            s@ == rule_text(k as nat),
        decreases width - k,
    {
        s.push('=');
        assert(s@ =~= rule_text((k + 1) as nat));
        k = k + 1;
    }
    s
}

/// How an outcome is shown.
pub open spec fn pass_text(ok: bool) -> Seq<char> {
    if ok {
        "PASS"@
    } else {
        "FAIL"@
    }
}

/// How an outcome is shown.
pub fn pass_str(ok: bool) -> (r: &'static str)
    ensures
        r@ == pass_text(ok),
{
    if ok {
        "PASS"
    } else {
        "FAIL"
    }
}

// ---------------------------------------------------------------------------
// Counts
// ---------------------------------------------------------------------------

/// Digits in groups of three, counted from the end, with underscores between them.
pub open spec fn grouped(s: Seq<char>) -> Seq<char>
    decreases s.len(),
{
    if s.len() <= 3 {
        s
    } else {
        grouped(s.take(s.len() - 3)).push('_') + s.skip(s.len() - 3)
    }
}

/// Appends the first `n` characters in groups of three.
fn push_grouped(out: &mut String, chars: &Vec<char>, n: usize)
    requires
        n <= chars@.len(),
    ensures
        final(out)@ == old(out)@ + grouped(chars@.take(n as int)),
    decreases n,
{
    let ghost s = chars@.take(n as int);
    let from: usize = if n <= 3 {
        0
    } else {
        n - 3
    };
    if n > 3 {
        push_grouped(out, chars, from);
        assert(s.take(s.len() - 3) =~= chars@.take(from as int));
        out.push('_');
    }
    let ghost head = out@;
    let mut k: usize = from;
    assert(out@ =~= head + chars@.subrange(from as int, from as int));
    while k < n
        invariant
            from <= k <= n <= chars@.len(),
            out@ == head + chars@.subrange(from as int, k as int),
        decreases n - k,
    {
        out.push(chars[k]);
        assert(out@ =~= head + chars@.subrange(from as int, k + 1));
        k = k + 1;
    }
    proof {
        if n > 3 {
            assert(s.skip(s.len() - 3) =~= chars@.subrange(from as int, n as int));
            assert(out@ =~= old(out)@ + grouped(s));
        } else {
            assert(chars@.subrange(0, n as int) =~= s);
        }
    }
}

/// A count, with its digits in groups of three.
pub fn fmt_count(v: u64) -> (r: String)
    ensures
        r@ == grouped(decimal(v as nat)),
{
    let text = decimal_text(v);
    let chars = characters(text.as_str());
    let mut s: String = String::new();
    let n: usize = chars.len();
    push_grouped(&mut s, &chars, n);
    assert(chars@.take(n as int) =~= chars@);
    assert(s@ =~= grouped(decimal(v as nat)));
    s
}

/// A text without its underscores.
pub open spec fn ungrouped(s: Seq<char>) -> Seq<char>
    decreases s.len(),
{
    if s.len() == 0 {
        s
    } else if s.last() == '_' {
        ungrouped(s.drop_last())
    } else {
        ungrouped(s.drop_last()).push(s.last())
    }
}

/// Grouping only inserts underscores: without them, the numeral of the count is
/// left.
pub proof fn law_grouping_keeps_the_digits(n: nat)
    ensures
        ungrouped(grouped(decimal(n))) == decimal(n),
{
    lemma_decimal_denotes(n);
    lemma_grouping(decimal(n));
}

/// Grouping text without underscores only inserts underscores.
proof fn lemma_grouping(s: Seq<char>)
    requires
        crate::text::all_digits(s),
    ensures
        ungrouped(grouped(s)) == s,
    decreases s.len(),
{
    if s.len() <= 3 {
        lemma_no_underscore(s);
    } else {
        let front = s.take(s.len() - 3);
        let back = s.skip(s.len() - 3);
        assert(crate::text::all_digits(front)) by {
            assert forall|i: int| 0 <= i < front.len() implies crate::text::is_digit(
                #[trigger] front[i],
            ) by {
                assert(crate::text::is_digit(s[i]));
            }
        }
        assert(crate::text::all_digits(back)) by {
            assert forall|i: int| 0 <= i < back.len() implies crate::text::is_digit(
                #[trigger] back[i],
            ) by {
                assert(crate::text::is_digit(s[i + s.len() - 3]));
            }
        }
        lemma_grouping(front);
        let head = grouped(front).push('_');
        assert(head.drop_last() =~= grouped(front));
        lemma_ungrouped_append(head, back);
        assert(s =~= front + back);
    }
}

/// Digits hold no underscore.
proof fn lemma_no_underscore(s: Seq<char>)
    requires
        crate::text::all_digits(s),
    ensures
        ungrouped(s) == s,
    decreases s.len(),
{
    if s.len() > 0 {
        assert(crate::text::is_digit(s[s.len() - 1]));
        assert(crate::text::all_digits(s.drop_last())) by {
            assert forall|i: int| 0 <= i < s.len() - 1 implies crate::text::is_digit(
                #[trigger] s.drop_last()[i],
            ) by {
                assert(crate::text::is_digit(s[i]));
            }
        }
        lemma_no_underscore(s.drop_last());
        assert(s =~= s.drop_last().push(s.last()));
    }
}

/// Digits behind a text stay as they are.
proof fn lemma_ungrouped_append(a: Seq<char>, b: Seq<char>)
    requires
        crate::text::all_digits(b),
    ensures
        ungrouped(a + b) == ungrouped(a) + b,
    decreases b.len(),
{
    if b.len() == 0 {
        assert(a + b =~= a);
        assert(ungrouped(a) + b =~= ungrouped(a));
    } else {
        assert(crate::text::is_digit(b[b.len() - 1]));
        let front = b.drop_last();
        assert(crate::text::all_digits(front)) by {
            assert forall|i: int| 0 <= i < front.len() implies crate::text::is_digit(
                #[trigger] front[i],
            ) by {
                assert(crate::text::is_digit(b[i]));
            }
        }
        lemma_ungrouped_append(a, front);
        assert((a + b).drop_last() =~= a + front);
        assert(ungrouped(a + b) =~= ungrouped(a) + b);
    }
}

// ---------------------------------------------------------------------------
// Times and sizes
// ---------------------------------------------------------------------------

/// Decimals of a shown time: fewer from a hundred milliseconds on.
pub open spec fn ms_decimals(v: u64) -> usize {
    if !is_nan(v) && !float_less(v, HUNDRED) {
        1
    } else {
        2
    }
}

/// `text` shows the time `v`, with `fixed` for the digits of a number.
pub open spec fn shows_ms<F: Fn(u64, usize) -> String>(text: Seq<char>, v: u64, fixed: F) -> bool {
    exists|d: String| #[trigger] call_ensures(fixed, (v, ms_decimals(v)), d) && text == d@ + " ms"@
}

/// A time in milliseconds.
pub fn fmt_ms<F: Fn(u64, usize) -> String>(v: u64, fixed: F) -> (r: String)
    requires
        forall|v: u64, d: usize| call_requires(fixed, (v, d)),
    ensures
        shows_ms(r@, v, fixed),
{
    let number: bool = v % 0x8000_0000_0000_0000 <= 0x7ff0_0000_0000_0000;
    let decimals: usize = if number && !less(v, HUNDRED) {
        1
    } else {
        2
    };
    let digits = fixed(v, decimals);
    let mut s: String = digits.clone();
    s.append(" ms");
    assert(call_ensures(fixed, (v, ms_decimals(v)), digits));
    s
}

/// `text` shows the time `v`, or that there is none.
pub open spec fn shows_ms_opt<F: Fn(u64, usize) -> String>(
    text: Seq<char>,
    v: Option<u64>,
    fixed: F,
) -> bool {
    match v {
        Some(v) => shows_ms(text, v, fixed),
        None => text == "n/a"@,
    }
}

/// A time in milliseconds, or that there is none.
pub fn fmt_ms_opt<F: Fn(u64, usize) -> String>(v: Option<u64>, fixed: F) -> (r: String)
    requires
        forall|v: u64, d: usize| call_requires(fixed, (v, d)),
    ensures
        shows_ms_opt(r@, v, fixed),
{
    match v {
        Some(v) => fmt_ms(v, fixed),
        None => "n/a".to_owned(),
    }
}

/// `text` shows the size `v`, with `quotient` for the digits of a quotient.
pub open spec fn shows_bytes<G: Fn(u64, u64, usize) -> String>(
    text: Seq<char>,
    v: u64,
    quotient: G,
) -> bool {
    if v >= 1048576 {
        exists|d: String| #[trigger]
            call_ensures(quotient, (v, 1048576, 2), d) && text == decimal(v as nat) + " B ("@ + d@
                + " MiB)"@
    } else if v >= 1024 {
        exists|d: String| #[trigger]
            call_ensures(quotient, (v, 1024, 1), d) && text == decimal(v as nat) + " B ("@ + d@
                + " KiB)"@
    } else {
        text == decimal(v as nat) + " B"@
    }
}

/// A size in bytes, and from a kibibyte on in larger units too.
pub fn fmt_bytes<G: Fn(u64, u64, usize) -> String>(v: u64, quotient: G) -> (r: String)
    requires
        forall|v: u64, by: u64, d: usize| by != 0 ==> call_requires(quotient, (v, by, d)),
    ensures
        shows_bytes(r@, v, quotient),
{
    let mut s: String = decimal_text(v);
    if v >= 1048576 {
        let digits = quotient(v, 1048576, 2);
        s.append(" B (");
        s.append(digits.as_str());
        s.append(" MiB)");
        assert(call_ensures(quotient, (v, 1048576, 2), digits));
    } else if v >= 1024 {
        let digits = quotient(v, 1024, 1);
        s.append(" B (");
        s.append(digits.as_str());
        s.append(" KiB)");
        assert(call_ensures(quotient, (v, 1024, 1), digits));
    } else {
        s.append(" B");
    }
    s
}

/// Appends a count, with its digits in groups of three.
pub fn push_count(out: &mut String, v: u64)
    ensures
        final(out)@ == old(out)@ + grouped(decimal(v as nat)),
{
    let t = fmt_count(v);
    out.append(t.as_str());
}

/// A text is padded with spaces behind it, or in front of it where it is aligned, as far as
/// the width; a text that is as long already stays as it is.
pub proof fn law_padding_fills_the_width(s: Seq<char>, width: int, i: int)
    ensures
        s.len() >= width ==> padded(s, width) == s && aligned(s, width) == s,
        s.len() < width ==> {
            &&& padded(s, width).len() == width
            &&& aligned(s, width).len() == width
            &&& padded(s, width).take(s.len() as int) == s
            &&& aligned(s, width).skip(width - s.len()) == s
            &&& s.len() <= i < width ==> padded(s, width)[i] == ' '
            &&& 0 <= i < width - s.len() ==> aligned(s, width)[i] == ' '
        },
        pass_text(true) == "PASS"@,
        pass_text(false) == "FAIL"@,
{
    if s.len() >= width {
        assert(padded(s, width) =~= s);
        assert(aligned(s, width) =~= s);
    } else {
        assert(padded(s, width).take(s.len() as int) =~= s);
        assert(aligned(s, width).skip(width - s.len()) =~= s);
    }
}

/// Digits are grouped by threes from the right, with an underscore between the groups.
pub proof fn law_digits_are_grouped_by_threes(front: Seq<char>, a: char, b: char, c: char)
    requires
        front.len() > 0,
    ensures
        grouped(front + seq![a, b, c]) == grouped(front) + seq!['_', a, b, c],
        front.len() <= 3 ==> grouped(front) == front,
{
    let s = front + seq![a, b, c];
    assert(s.take(s.len() - 3) =~= front);
    assert(s.skip(s.len() - 3) =~= seq![a, b, c]);
    assert(grouped(front).push('_') + seq![a, b, c] =~= grouped(front) + seq!['_', a, b, c]);
}

/// A time is shown with two decimals below a hundred milliseconds and with one from there on;
/// a size is shown in bytes, and from a kibibyte and from a mebibyte on in that unit too.
pub proof fn law_times_and_sizes_are_shown<
    F: Fn(u64, usize) -> String,
    G: Fn(u64, u64, usize) -> String,
>(text: Seq<char>, v: u64, fixed: F, quotient: G)
    ensures
        v < 0x4059_0000_0000_0000 ==> ms_decimals(v) == 2,
        0x4059_0000_0000_0000 <= v <= 0x7ff0_0000_0000_0000 ==> ms_decimals(v) == 1,
        shows_ms(text, v, fixed) ==> exists|d: String| #[trigger]
            call_ensures(fixed, (v, ms_decimals(v)), d) && text == d@ + " ms"@,
        v < 1024 ==> (shows_bytes(text, v, quotient) <==> text == decimal(v as nat) + " B"@),
        1024 <= v < 1048576 && shows_bytes(text, v, quotient) ==> exists|d: String| #[trigger]
            call_ensures(quotient, (v, 1024, 1), d) && text == decimal(v as nat) + " B ("@ + d@
                + " KiB)"@,
        v >= 1048576 && shows_bytes(text, v, quotient) ==> exists|d: String| #[trigger]
            call_ensures(quotient, (v, 1048576, 2), d) && text == decimal(v as nat) + " B ("@ + d@
                + " MiB)"@,
{
}

} // verus!
