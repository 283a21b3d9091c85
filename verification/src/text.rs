//! Text: decimal and hexadecimal numerals, comparison, quoting and paths.

use vstd::prelude::*;
use vstd::utf8::{decode_utf8, valid_utf8};

verus! {

// ---------------------------------------------------------------------------
// What std does with text
// ---------------------------------------------------------------------------

/// `String::push` appends one character and leaves the rest as it was.
pub assume_specification[ String::push ](s: &mut String, c: char)
    ensures
        final(s)@ == old(s)@.push(c),
;

/// The text that std's `Debug` formatting gives a string: quoted, with its
/// special characters escaped.
pub uninterp spec fn quoted(s: Seq<char>) -> Seq<char>;

/// `format!("{:?}")` on a string slice. Which characters are escaped is left to
/// [`quoted`]; the result depends on nothing but the text.
#[verifier::external_body]
pub(crate) fn quote(s: &str) -> (r: String)
    ensures
        r@ == quoted(s@),
{
    format!("{s:?}")
}

/// The text that std's `Debug` formatting gives a path that is this text: quoted, with
/// its special characters escaped. Paths and strings do not escape all characters alike.
pub uninterp spec fn quoted_path(p: Seq<char>) -> Seq<char>;

/// `format!("{:?}")` on a `std::path::Path` made of a string slice. Which characters are
/// escaped is left to [`quoted_path`]; the result depends on nothing but the text.
#[verifier::external_body]
pub(crate) fn quote_path(p: &str) -> (r: String)
    ensures
        r@ == quoted_path(p@),
{
    format!("{:?}", std::path::Path::new(p))
}

/// The text that `String::from_utf8_lossy` makes of a byte string.
pub uninterp spec fn lossy(bytes: Seq<u8>) -> Seq<char>;

/// `String::from_utf8_lossy`, taken as an owned string. Valid UTF-8 is decoded
/// as it stands; where the replacement characters fall in any other byte string
/// is left to [`lossy`].
#[verifier::external_body]
pub(crate) fn decode_lossy(bytes: &[u8]) -> (r: String)
    ensures
        r@ == lossy(bytes@),
        valid_utf8(bytes@) ==> r@ == decode_utf8(bytes@),
{
    String::from_utf8_lossy(bytes).into_owned()
}

// ---------------------------------------------------------------------------
// Characters and comparison
// ---------------------------------------------------------------------------

/// The characters of `s`, in order.
pub fn characters(s: &str) -> (out: Vec<char>)
    ensures
        out@ == s@,
{
    let mut out: Vec<char> = Vec::new();
    for c in it: s.chars()
        invariant
            it.seq() == s@,
            out@ == it.seq().take(it.index() as int),
    {
        out.push(c);
        assert(out@ =~= it.seq().take(it.index() + 1));
    }
    assert(out@ =~= s@);
    out
}

/// Whether two texts are equal, character for character.
pub fn same_text(a: &str, b: &str) -> (r: bool)
    ensures
        r == (a@ == b@),
{
    proof {
        vstd::utf8::encode_utf8_decode_utf8(a@);
        vstd::utf8::encode_utf8_decode_utf8(b@);
    }
    crate::bytes::bytes_equal(a.as_bytes(), b.as_bytes())
}

// ---------------------------------------------------------------------------
// Pieces between separators
// ---------------------------------------------------------------------------

/// What follows the first `sep` of a text, or nothing.
pub open spec fn after(s: Seq<char>, sep: char) -> Seq<char>
    decreases s.len(),
{
    if s.len() == 0 {
        Seq::empty()
    } else if s[0] == sep {
        s.drop_first()
    } else {
        after(s.drop_first(), sep)
    }
}

/// What precedes the first `sep` of a text, or all of it.
pub open spec fn before(s: Seq<char>, sep: char) -> Seq<char>
    decreases s.len(),
{
    if s.len() == 0 || s[0] == sep {
        Seq::empty()
    } else {
        seq![s[0]] + before(s.drop_first(), sep)
    }
}

/// What follows a separator is shorter than the whole.
pub proof fn lemma_after_shorter(s: Seq<char>, sep: char)
    requires
        s.len() > 0,
    ensures
        after(s, sep).len() < s.len(),
    decreases s.len(),
{
    reveal_with_fuel(after, 2);
    if s[0] != sep && s.len() > 1 {
        lemma_after_shorter(s.drop_first(), sep);
    }
}

/// Where the first piece of a text ends.
proof fn lemma_first_piece(s: Seq<char>, sep: char, k: int)
    requires
        0 <= k <= s.len(),
        forall|i: int| 0 <= i < k ==> s[i] != sep,
        k < s.len() ==> s[k] == sep,
    ensures
        before(s, sep) == s.take(k),
        after(s, sep) == if k < s.len() {
            s.skip(k + 1)
        } else {
            Seq::empty()
        },
    decreases s.len(),
{
    if k > 0 {
        lemma_first_piece(s.drop_first(), sep, k - 1);
        assert(s.take(k) =~= seq![s[0]] + s.drop_first().take(k - 1));
        if k < s.len() {
            assert(s.drop_first().skip(k) =~= s.skip(k + 1));
        }
    } else {
        assert(s.take(0) =~= Seq::<char>::empty());
        if s.len() > 0 {
            assert(s.skip(1) =~= s.drop_first());
        }
    }
}

/// Where the piece that begins at `from` ends.
pub fn piece_end(chars: &Vec<char>, from: usize, sep: char) -> (end: usize)
    requires
        from <= chars@.len(),
    ensures
        from <= end <= chars@.len(),
        end < chars@.len() ==> chars@[end as int] == sep,
        before(chars@.skip(from as int), sep) == chars@.subrange(from as int, end as int),
        after(chars@.skip(from as int), sep) == if end < chars@.len() {
            chars@.skip(end + 1)
        } else {
            Seq::empty()
        },
{
    let mut end: usize = from;
    while end < chars.len() && chars[end] != sep
        invariant
            from <= end <= chars@.len(),
            forall|i: int| from <= i < end ==> chars@[i] != sep,
        ensures
            from <= end <= chars@.len(),
            forall|i: int| from <= i < end ==> chars@[i] != sep,
            end < chars@.len() ==> chars@[end as int] == sep,
        decreases chars@.len() - end,
    {
        end = end + 1;
    }
    proof {
        let s = chars@.skip(from as int);
        lemma_first_piece(s, sep, end - from);
        assert(s.take(end - from) =~= chars@.subrange(from as int, end as int));
        if end < chars@.len() {
            assert(s.skip(end - from + 1) =~= chars@.skip(end + 1));
        }
    }
    end
}

/// The characters in `from..to`.
pub fn piece(chars: &Vec<char>, from: usize, to: usize) -> (r: Vec<char>)
    requires
        from <= to <= chars@.len(),
    ensures
        r@ == chars@.subrange(from as int, to as int),
{
    let mut r: Vec<char> = Vec::new();
    let mut i: usize = from;
    while i < to
        invariant
            from <= i <= to <= chars@.len(),
            r@ == chars@.subrange(from as int, i as int),
        decreases to - i,
    {
        r.push(chars[i]);
        assert(r@ =~= chars@.subrange(from as int, i + 1));
        i = i + 1;
    }
    r
}

/// The text of the characters in `from..to`.
pub fn text_of(chars: &Vec<char>, from: usize, to: usize) -> (r: String)
    requires
        from <= to <= chars@.len(),
    ensures
        r@ == chars@.subrange(from as int, to as int),
{
    let mut r: String = String::new();
    let mut i: usize = from;
    assert(r@ =~= chars@.subrange(from as int, from as int));
    while i < to
        invariant
            from <= i <= to <= chars@.len(),
            r@ == chars@.subrange(from as int, i as int),
        decreases to - i,
    {
        r.push(chars[i]);
        assert(r@ =~= chars@.subrange(from as int, i + 1));
        i = i + 1;
    }
    r
}

/// The first `n` characters of a text.
pub fn leading(s: &str, n: usize) -> (r: String)
    requires
        n <= s@.len(),
    ensures
        r@ == s@.take(n as int),
{
    let chars = characters(s);
    let r = text_of(&chars, 0, n);
    assert(s@.subrange(0, n as int) =~= s@.take(n as int));
    r
}

/// Whether `c` is white space: it has the Unicode property `White_Space`.
pub open spec fn is_white(c: char) -> bool {
    let n = c as u32;
    ||| 0x9 <= n <= 0xd
    ||| n == 0x20
    ||| n == 0x85
    ||| n == 0xa0
    ||| n == 0x1680
    ||| 0x2000 <= n <= 0x200a
    ||| n == 0x2028
    ||| n == 0x2029
    ||| n == 0x202f
    ||| n == 0x205f
    ||| n == 0x3000
}

/// Whether a character is white space.
fn white(c: char) -> (r: bool)
    ensures
        r == is_white(c),
{
    let n: u32 = c as u32;
    (0x9 <= n && n <= 0xd) || n == 0x20 || n == 0x85 || n == 0xa0 || n == 0x1680 || (0x2000 <= n
        && n <= 0x200a) || n == 0x2028 || n == 0x2029 || n == 0x202f || n == 0x205f || n == 0x3000
}

/// A text without the white space that it begins with.
pub open spec fn trimmed_front(s: Seq<char>) -> Seq<char>
    decreases s.len(),
{
    if s.len() > 0 && is_white(s[0]) {
        trimmed_front(s.drop_first())
    } else {
        s
    }
}

/// A text without the white space that it ends with.
pub open spec fn trimmed_back(s: Seq<char>) -> Seq<char>
    decreases s.len(),
{
    if s.len() > 0 && is_white(s.last()) {
        trimmed_back(s.drop_last())
    } else {
        s
    }
}

/// A text without the white space at its two ends.
pub fn trim(s: &str) -> (r: String)
    ensures
        r@ == trimmed_back(trimmed_front(s@)),
{
    let chars = characters(s);
    let n: usize = chars.len();
    let mut from: usize = 0;
    assert(chars@.skip(0) =~= chars@);
    while from < n && white(chars[from])
        invariant
            from <= n,
            n == chars@.len(),
            trimmed_front(chars@) == trimmed_front(chars@.skip(from as int)),
        ensures
            from <= n,
            trimmed_front(chars@) == chars@.skip(from as int),
        decreases n - from,
    {
        assert(chars@.skip(from as int).drop_first() =~= chars@.skip(from + 1));
        from = from + 1;
    }
    let mut to: usize = n;
    assert(chars@.skip(from as int) =~= chars@.subrange(from as int, n as int));
    while to > from && white(chars[to - 1])
        invariant
            from <= to <= n,
            n == chars@.len(),
            trimmed_back(chars@.subrange(from as int, n as int)) == trimmed_back(
                chars@.subrange(from as int, to as int),
            ),
        ensures
            from <= to <= n,
            trimmed_back(chars@.subrange(from as int, n as int)) == chars@.subrange(
                from as int,
                to as int,
            ),
        decreases to - from,
    {
        assert(chars@.subrange(from as int, to as int).drop_last() =~= chars@.subrange(
            from as int,
            to - 1,
        ));
        to = to - 1;
    }
    text_of(&chars, from, to)
}

// ---------------------------------------------------------------------------
// Decimal numerals
// ---------------------------------------------------------------------------

/// The decimal digit for `d`, which is below ten.
pub open spec fn digit(d: nat) -> char {
    (48 + d) as char
}

/// The decimal numeral of `n`, without leading zeros.
pub open spec fn decimal(n: nat) -> Seq<char>
    decreases n,
{
    if n < 10 {
        seq![digit(n)]
    } else {
        decimal(n / 10).push(digit(n % 10))
    }
}

/// Whether `c` is one of the ten decimal digits.
pub open spec fn is_digit(c: char) -> bool {
    '0' <= c <= '9'
}

/// Whether `s` consists of decimal digits alone.
pub open spec fn all_digits(s: Seq<char>) -> bool {
    forall|i: int| 0 <= i < s.len() ==> is_digit(#[trigger] s[i])
}

/// The number that a string of decimal digits denotes.
pub open spec fn digits_value(s: Seq<char>) -> nat
    decreases s.len(),
{
    if s.len() == 0 {
        0
    } else {
        10 * digits_value(s.drop_last()) + (s.last() as nat - 48) as nat
    }
}

/// The digits of an unsigned numeral: what follows one optional plus sign.
pub open spec fn unsigned_digits(s: Seq<char>) -> Seq<char> {
    if s.len() > 0 && s[0] == '+' {
        s.drop_first()
    } else {
        s
    }
}

/// What an unsigned numeral denotes, if it is one and is at most `max`: an
/// optional plus sign, then at least one decimal digit and nothing else.
pub open spec fn parse_unsigned(s: Seq<char>, max: nat) -> Option<nat> {
    let d = unsigned_digits(s);
    if d.len() > 0 && all_digits(d) && digits_value(d) <= max {
        Some(digits_value(d))
    } else {
        None
    }
}

/// Decimal numerals are digits, and denote the number that they were made from.
pub proof fn lemma_decimal_denotes(n: nat)
    ensures
        decimal(n).len() > 0,
        all_digits(decimal(n)),
        digits_value(decimal(n)) == n,
    decreases n,
{
    let s = decimal(n);
    if n < 10 {
        assert(s.drop_last() =~= Seq::<char>::empty());
        assert(digits_value(s.drop_last()) == 0);
    } else {
        lemma_decimal_denotes(n / 10);
        assert(s.drop_last() =~= decimal(n / 10));
    }
}

/// Every number that fits reads back from its own numeral.
pub proof fn lemma_parse_of_decimal(n: nat, max: nat)
    requires
        n <= max,
    ensures
        parse_unsigned(decimal(n), max) == Some(n),
{
    lemma_decimal_denotes(n);
    assert(is_digit(decimal(n)[0]));
}

/// Distinct numbers have distinct numerals.
pub proof fn lemma_decimal_injective(a: nat, b: nat)
    requires
        decimal(a) == decimal(b),
    ensures
        a == b,
{
    lemma_decimal_denotes(a);
    lemma_decimal_denotes(b);
}

/// A prefix of digits denotes no more than the whole.
proof fn lemma_digits_value_prefix(s: Seq<char>, k: int)
    requires
        0 <= k <= s.len(),
    ensures
        digits_value(s.take(k)) <= digits_value(s),
    decreases s.len() - k,
{
    if k < s.len() {
        lemma_digits_value_prefix(s, k + 1);
        assert(s.take(k + 1).drop_last() =~= s.take(k));
    } else {
        assert(s.take(k) =~= s);
    }
}

/// Appends the decimal numeral of `n`.
pub fn push_decimal(out: &mut String, n: u64)
    ensures
        final(out)@ == old(out)@ + decimal(n as nat),
    decreases n,
{
    let ghost before = out@;
    if n >= 10 {
        push_decimal(out, n / 10);
    }
    out.push((48u8 + (n % 10) as u8) as char);
    assert(out@ =~= before + decimal(n as nat));
}

/// The decimal numeral of `n`.
pub fn decimal_text(n: u64) -> (r: String)
    ensures
        r@ == decimal(n as nat),
{
    let mut out: String = String::new();
    push_decimal(&mut out, n);
    assert(out@ =~= decimal(n as nat));
    out
}

/// Reads an unsigned numeral that is at most `max`.
pub fn read_unsigned(s: &str, max: u64) -> (r: Option<u64>)
    ensures
        match r {
            Some(n) => parse_unsigned(s@, max as nat) == Some(n as nat),
            None => parse_unsigned(s@, max as nat) is None,
        },
{
    let chars: Vec<char> = characters(s);
    let ghost d = unsigned_digits(s@);
    let start: usize = if chars.len() > 0 && chars[0] == '+' { 1 } else { 0 };
    if chars.len() == start {
        return None;
    }
    let mut value: u64 = 0;
    let mut i: usize = start;
    assert(d.take(0) =~= Seq::<char>::empty());
    while i < chars.len()
        invariant
            start <= i <= chars@.len(),
            chars@ == s@,
            d == unsigned_digits(s@),
            d == s@.skip(start as int),
            d.len() == s@.len() - start,
            d.len() > 0,
            forall|j: int| 0 <= j < i - start ==> is_digit(#[trigger] d[j]),
            value == digits_value(d.take(i - start)),
            value <= max,
        decreases chars@.len() - i,
    {
        let c: char = chars[i];
        assert(d[i - start] == c);
        if !(c >= '0' && c <= '9') {
            return None;
        }
        let step: u64 = (c as u32 - 48) as u64;
        proof {
            let k = i - start;
            assert(d.take(k + 1).drop_last() =~= d.take(k));
            assert(d.take(k + 1).last() == c);
            lemma_digits_value_prefix(d, k + 1);
        }
        if value > max / 10 || step > max || 10 * value > max - step {
            return None;
        }
        value = 10 * value + step;
        i = i + 1;
    }
    assert(d.take(i - start) =~= d);
    Some(value)
}

// ---------------------------------------------------------------------------
// Hexadecimal numerals
// ---------------------------------------------------------------------------

/// The lower-case hexadecimal digit for `d`, which is below sixteen.
pub open spec fn hex_digit(d: nat) -> char {
    if d < 10 {
        (48 + d) as char
    } else {
        (87 + d) as char
    }
}

/// Two lower-case hexadecimal digits for each byte, high half first.
pub open spec fn hex(s: Seq<u8>) -> Seq<char> {
    Seq::new(
        2 * s.len(),
        |i: int|
            if i % 2 == 0 {
                hex_digit(s[i / 2] as nat / 16)
            } else {
                hex_digit(s[i / 2] as nat % 16)
            },
    )
}

/// Distinct digits are written differently.
proof fn lemma_hex_digit_injective(a: nat, b: nat)
    requires
        a < 16,
        b < 16,
        hex_digit(a) == hex_digit(b),
    ensures
        a == b,
{
    assert(hex_digit(a) as nat == if a < 10 { 48 + a } else { 87 + a });
    assert(hex_digit(b) as nat == if b < 10 { 48 + b } else { 87 + b });
}

/// Distinct byte strings have distinct hexadecimal texts.
pub proof fn lemma_hex_injective(a: Seq<u8>, b: Seq<u8>)
    requires
        hex(a) == hex(b),
    ensures
        a == b,
{
    assert(hex(a).len() == 2 * a.len());
    assert(hex(b).len() == 2 * b.len());
    assert forall|i: int| 0 <= i < a.len() implies a[i] == b[i] by {
        assert(hex(a)[2 * i] == hex(b)[2 * i]);
        assert(hex(a)[2 * i + 1] == hex(b)[2 * i + 1]);
        assert(hex(a)[2 * i] == hex_digit(a[i] as nat / 16));
        assert(hex(b)[2 * i] == hex_digit(b[i] as nat / 16));
        assert(hex(a)[2 * i + 1] == hex_digit(a[i] as nat % 16));
        assert(hex(b)[2 * i + 1] == hex_digit(b[i] as nat % 16));
        lemma_hex_digit_injective(a[i] as nat / 16, b[i] as nat / 16);
        lemma_hex_digit_injective(a[i] as nat % 16, b[i] as nat % 16);
        assert(a[i] as nat == 16 * (a[i] as nat / 16) + a[i] as nat % 16);
        assert(b[i] as nat == 16 * (b[i] as nat / 16) + b[i] as nat % 16);
    }
    assert(a =~= b);
}

/// One hexadecimal digit, executable.
pub fn hex_char(d: u8) -> (c: char)
    requires
        d < 16,
    ensures
        c == hex_digit(d as nat),
{
    if d < 10 {
        (48u8 + d) as char
    } else {
        (87u8 + d) as char
    }
}

/// The bytes of `s` in lower-case hexadecimal.
pub fn hex_text(s: &[u8]) -> (r: String)
    ensures
        r@ == hex(s@),
{
    let mut out: String = String::new();
    let mut i: usize = 0;
    assert(hex(s@).take(0) =~= Seq::<char>::empty());
    while i < s.len()
        invariant
            i <= s@.len(),
            out@ == hex(s@).take(2 * i),
        decreases s@.len() - i,
    {
        let b: u8 = s[i];
        out.push(hex_char(b / 16));
        out.push(hex_char(b % 16));
        assert((2 * i) / 2 == i && (2 * i + 1) / 2 == i);
        assert(out@ =~= hex(s@).take(2 * (i + 1)));
        i = i + 1;
    }
    assert(out@ =~= hex(s@));
    out
}

// ---------------------------------------------------------------------------
// What the numerals and pieces are
// ---------------------------------------------------------------------------

/// A decimal numeral is written digit by digit, the last digit being the number's remainder
/// by ten, without a zero in front; and it denotes the number.
pub proof fn law_decimal_digits(n: nat)
    ensures
        n < 10 ==> decimal(n).len() == 1 && decimal(n)[0] as nat == '0' as nat + n,
        n >= 10 ==> decimal(n).last() as nat == '0' as nat + n % 10,
        n >= 10 ==> decimal(n).drop_last() == decimal(n / 10),
        n > 0 ==> decimal(n)[0] != '0',
        digits_value(decimal(n)) == n,
        all_digits(decimal(n)),
    decreases n,
{
    lemma_decimal_denotes(n);
    if n >= 10 {
        law_decimal_digits(n / 10);
        assert(decimal(n).drop_last() =~= decimal(n / 10));
        assert(decimal(n / 10).len() > 0) by {
            if n / 10 < 10 {
            } else {
                assert(decimal(n / 10).len() == decimal(n / 10 / 10).len() + 1);
            }
        }
        assert(decimal(n)[0] == decimal(n / 10)[0]);
    }
}

/// A digit more at the end makes a number ten times as large, and that digit more.
pub proof fn law_digits_have_their_place(s: Seq<char>, c: char)
    requires
        '0' <= c <= '9',
    ensures
        digits_value(s.push(c)) == 10 * digits_value(s) + (c as nat - '0' as nat),
        digits_value(Seq::<char>::empty()) == 0,
{
    assert(s.push(c).drop_last() =~= s);
}

/// What is read as a number: one digit at least and nothing but digits, which may have a
/// plus sign in front, and no number that is too large.
pub proof fn law_numbers_are_digits(s: Seq<char>, max: nat)
    requires
        s.len() > 0 ==> s[0] != '+',
    ensures
        parse_unsigned(s, max) is Some <==> s.len() > 0 && (forall|i: int|
            0 <= i < s.len() ==> '0' <= #[trigger] s[i] <= '9') && digits_value(s) <= max,
        parse_unsigned(s, max) matches Some(n) ==> n == digits_value(s),
        parse_unsigned(seq!['+'] + s, max) == parse_unsigned(s, max),
{
    assert((seq!['+'] + s).drop_first() =~= s);
    if forall|i: int| 0 <= i < s.len() ==> '0' <= #[trigger] s[i] <= '9' {
        assert forall|i: int| 0 <= i < s.len() implies is_digit(#[trigger] s[i]) by {}
    }
}

/// A byte is shown as two lower-case hexadecimal digits, the upper one first.
pub proof fn law_hex_is_two_digits_a_byte(s: Seq<u8>, i: int)
    requires
        0 <= i < s.len(),
    ensures
        hex(s).len() == 2 * s.len(),
        hex(s)[2 * i] == "0123456789abcdef"@[s[i] as int / 16],
        hex(s)[2 * i + 1] == "0123456789abcdef"@[s[i] as int % 16],
{
    reveal_strlit("0123456789abcdef");
    assert((2 * i) / 2 == i && (2 * i + 1) / 2 == i);
    assert((2 * i) % 2 == 0 && (2 * i + 1) % 2 == 1);
    lemma_hex_digit_is_listed(s[i] as nat / 16);
    lemma_hex_digit_is_listed(s[i] as nat % 16);
}

/// A hexadecimal digit, looked up.
proof fn lemma_hex_digit_is_listed(d: nat)
    requires
        d < 16,
    ensures
        hex_digit(d) == "0123456789abcdef"@[d as int],
{
    reveal_strlit("0123456789abcdef");
}

/// A text is split at the first place where the separator stands: what is in front of it is
/// before, what is behind it is after. Where it stands nowhere, all is before.
pub proof fn law_split_at_the_first_separator(s: Seq<char>, sep: char, k: int)
    requires
        0 <= k <= s.len(),
        forall|i: int| 0 <= i < k ==> #[trigger] s[i] != sep,
        k < s.len() ==> s[k] == sep,
    ensures
        before(s, sep) == s.take(k),
        after(s, sep) == if k < s.len() {
            s.skip(k + 1)
        } else {
            Seq::empty()
        },
{
    lemma_first_piece(s, sep, k);
}

/// Trimming takes white space off both ends, all of it, and nothing else.
pub proof fn law_trimming_takes_white_space_only(s: Seq<char>)
    ensures
        trimmed_front(s).len() <= s.len(),
        trimmed_front(s) == s.skip(s.len() - trimmed_front(s).len()),
        forall|i: int| 0 <= i < s.len() - trimmed_front(s).len() ==> is_white(#[trigger] s[i]),
        trimmed_front(s).len() > 0 ==> !is_white(trimmed_front(s)[0]),
        trimmed_back(s).len() <= s.len(),
        trimmed_back(s) == s.take(trimmed_back(s).len() as int),
        forall|i: int| trimmed_back(s).len() <= i < s.len() ==> is_white(#[trigger] s[i]),
        trimmed_back(s).len() > 0 ==> !is_white(trimmed_back(s).last()),
        is_white(' ') && is_white('\n') && is_white('\t') && is_white('\r'),
        !is_white('a') && !is_white('0'),
    decreases s.len(),
{
    if s.len() > 0 && is_white(s[0]) {
        let t = s.drop_first();
        law_trimming_takes_white_space_only(t);
        assert(t.skip(t.len() - trimmed_front(t).len()) =~= s.skip(
            s.len() - trimmed_front(s).len(),
        ));
        assert forall|i: int| 0 <= i < s.len() - trimmed_front(s).len() implies is_white(
            #[trigger] s[i],
        ) by {
            if i > 0 {
                assert(is_white(t[i - 1]));
            }
        }
    } else {
        assert(s.skip(0) =~= s);
    }
    if s.len() > 0 && is_white(s.last()) {
        let t = s.drop_last();
        law_trimming_takes_white_space_only(t);
        assert(t.take(trimmed_back(t).len() as int) =~= s.take(trimmed_back(s).len() as int));
        assert forall|i: int| trimmed_back(s).len() <= i < s.len() implies is_white(
            #[trigger] s[i],
        ) by {
            if i < s.len() - 1 {
                assert(is_white(t[i]));
            }
        }
    } else {
        assert(s.take(s.len() as int) =~= s);
    }
}

} // verus!
