//! Little-endian integers as byte sequences.

use vstd::prelude::*;

verus! {

/// The `width` low-order base-256 digits of `n`, least significant first.
pub open spec fn le_bytes(n: nat, width: nat) -> Seq<u8>
    decreases width,
{
    if width == 0 {
        Seq::empty()
    } else {
        seq![(n % 256) as u8] + le_bytes(n / 256, (width - 1) as nat)
    }
}

/// The number that a byte sequence denotes, least significant byte first.
pub open spec fn le_value(s: Seq<u8>) -> nat
    decreases s.len(),
{
    if s.len() == 0 {
        0
    } else {
        s[0] as nat + 256 * le_value(s.drop_first())
    }
}

/// `256` to the power `width`: how many numbers `width` bytes can hold.
pub open spec fn le_span(width: nat) -> nat
    decreases width,
{
    if width == 0 {
        1
    } else {
        256 * le_span((width - 1) as nat)
    }
}

/// An encoding has exactly the width that was asked for.
pub proof fn lemma_le_bytes_len(n: nat, width: nat)
    ensures
        le_bytes(n, width).len() == width,
    decreases width,
{
    if width > 0 {
        lemma_le_bytes_len(n / 256, (width - 1) as nat);
    }
}

/// Decoding an encoding gives the number back, whenever the number fits.
pub proof fn lemma_le_value_of_bytes(n: nat, width: nat)
    requires
        n < le_span(width),
    ensures
        le_value(le_bytes(n, width)) == n,
    decreases width,
{
    if width > 0 {
        let rest = (width - 1) as nat;
        let s = le_bytes(n, width);
        assert(s.drop_first() =~= le_bytes(n / 256, rest));
        assert(n / 256 < le_span(rest));
        lemma_le_value_of_bytes(n / 256, rest);
    }
}

/// Encoding a decoded number gives the bytes back.
pub proof fn lemma_le_bytes_of_value(s: Seq<u8>)
    ensures
        le_bytes(le_value(s), s.len()) == s,
        le_value(s) < le_span(s.len()),
    decreases s.len(),
{
    if s.len() > 0 {
        let tail = s.drop_first();
        lemma_le_bytes_of_value(tail);
        assert(le_value(s) / 256 == le_value(tail));
        assert(le_value(s) % 256 == s[0] as nat);
        assert(s =~= seq![s[0]] + tail);
    }
}

/// The spans of the fixed-width fields that the formats use.
pub proof fn lemma_le_spans()
    ensures
        le_span(4) == 0x1_0000_0000,
        le_span(8) == 0x1_0000_0000_0000_0000,
{
    reveal_with_fuel(le_span, 9);
}

/// Appends the four little-endian bytes of `x`.
pub fn push_u32(out: &mut Vec<u8>, x: u32)
    ensures
        final(out)@ == old(out)@ + le_bytes(x as nat, 4),
{
    proof {
        reveal_with_fuel(le_bytes, 5);
    }
    out.push((x % 256) as u8);
    out.push((x / 256 % 256) as u8);
    out.push((x / 256 / 256 % 256) as u8);
    out.push((x / 256 / 256 / 256 % 256) as u8);
    assert(out@ =~= old(out)@ + le_bytes(x as nat, 4));
}

/// Appends the eight little-endian bytes of `x`.
pub fn push_u64(out: &mut Vec<u8>, x: u64)
    ensures
        final(out)@ == old(out)@ + le_bytes(x as nat, 8),
{
    let ghost start = out@;
    let mut rest: u64 = x;
    let mut done: usize = 0;
    assert(start + le_bytes(x as nat, 8) =~= out@ + le_bytes(rest as nat, 8));
    while done < 8
        invariant
            done <= 8,
            start + le_bytes(x as nat, 8) == out@ + le_bytes(rest as nat, (8 - done) as nat),
        decreases 8 - done,
    {
        let ghost before = out@;
        out.push((rest % 256) as u8);
        assert(before + le_bytes(rest as nat, (8 - done) as nat) =~= out@ + le_bytes(
            rest as nat / 256,
            (8 - done - 1) as nat,
        ));
        rest = rest / 256;
        done = done + 1;
    }
    assert(out@ + le_bytes(rest as nat, 0) =~= out@);
}

/// Appends every byte of `s`, in order.
pub fn push_bytes(out: &mut Vec<u8>, s: &[u8])
    ensures
        final(out)@ == old(out)@ + s@,
{
    out.extend_from_slice(s);
    assert(out@ =~= old(out)@ + s@);
}

/// The `u32` whose little-endian bytes start at `at`.
pub fn read_u32(b: &[u8], at: usize) -> (x: u32)
    requires
        at + 4 <= b@.len(),
    ensures
        x == le_value(b@.subrange(at as int, at + 4)),
{
    let ghost s = b@.subrange(at as int, at + 4);
    proof {
        lemma_le_bytes_of_value(s);
        lemma_le_spans();
        reveal_with_fuel(le_value, 5);
        assert(s.drop_first().drop_first().drop_first().drop_first().len() == 0);
    }
    let x0: u32 = b[at] as u32;
    let x1: u32 = b[at + 1] as u32;
    let x2: u32 = b[at + 2] as u32;
    let x3: u32 = b[at + 3] as u32;
    x0 + 256 * (x1 + 256 * (x2 + 256 * x3))
}

/// The `u64` whose little-endian bytes start at `at`.
pub fn read_u64(b: &[u8], at: usize) -> (x: u64)
    requires
        at + 8 <= b@.len(),
    ensures
        x == le_value(b@.subrange(at as int, at + 8)),
{
    let ghost s = b@.subrange(at as int, at + 8);
    let n: usize = b.len();
    let mut x: u64 = 0;
    let mut left: usize = 8;
    proof {
        assert(s.subrange(8, 8) =~= Seq::<u8>::empty());
    }
    while left > 0
        invariant
            left <= 8,
            at + 8 <= n == b@.len(),
            s == b@.subrange(at as int, at + 8),
            x == le_value(s.subrange(left as int, 8)),
        decreases left,
    {
        left = left - 1;
        proof {
            let tail = s.subrange(left as int, 8);
            assert(tail.drop_first() =~= s.subrange(left + 1, 8));
            lemma_le_bytes_of_value(tail);
            lemma_le_span_monotone(tail.len(), 8);
            lemma_le_spans();
        }
        x = b[at + left] as u64 + 256 * x;
    }
    assert(s.subrange(0, 8) =~= s);
    x
}

/// Wider fields hold more numbers.
pub proof fn lemma_le_span_monotone(narrow: nat, wide: nat)
    requires
        narrow <= wide,
    ensures
        1 <= le_span(narrow) <= le_span(wide),
    decreases wide,
{
    if narrow < wide {
        lemma_le_span_monotone(narrow, (wide - 1) as nat);
    } else if narrow > 0 {
        lemma_le_span_monotone((narrow - 1) as nat, (wide - 1) as nat);
    }
}

/// A copy of the bytes in `from..to`.
pub fn copy_range(b: &[u8], from: usize, to: usize) -> (out: Vec<u8>)
    requires
        from <= to <= b@.len(),
    ensures
        out@ == b@.subrange(from as int, to as int),
{
    let mut out: Vec<u8> = Vec::new();
    push_bytes(&mut out, vstd::slice::slice_subrange(b, from, to));
    assert(out@ =~= b@.subrange(from as int, to as int));
    out
}

/// The 32 bytes that start at `at`, as an array.
pub fn array32(b: &[u8], at: usize) -> (out: [u8; 32])
    requires
        at + 32 <= b@.len(),
    ensures
        out@ == b@.subrange(at as int, at + 32),
{
    let n: usize = b.len();
    let mut out: [u8; 32] = [0u8; 32];
    let mut i: usize = 0;
    while i < 32
        invariant
            i <= 32,
            at + 32 <= n == b@.len(),
            forall|j: int| 0 <= j < i ==> out@[j] == b@[at + j],
        decreases 32 - i,
    {
        out[i] = b[at + i];
        i = i + 1;
    }
    assert(out@ =~= b@.subrange(at as int, at + 32));
    out
}

/// Whether two byte strings are equal.
pub fn bytes_equal(a: &[u8], b: &[u8]) -> (r: bool)
    ensures
        r == (a@ == b@),
{
    if a.len() != b.len() {
        return false;
    }
    let mut i: usize = 0;
    while i < a.len()
        invariant
            i <= a@.len(),
            a@.len() == b@.len(),
            forall|j: int| 0 <= j < i ==> a@[j] == b@[j],
        decreases a@.len() - i,
    {
        if a[i] != b[i] {
            return false;
        }
        i = i + 1;
    }
    assert(a@ =~= b@);
    true
}

/// A 32-bit field stands least significant byte first: byte `i` is worth `256` to the `i`.
pub proof fn law_fields_are_little_endian(n: nat, b: Seq<u8>)
    ensures
        le_bytes(n, 4).len() == 4,
        le_bytes(n, 4)[0] == n % 256,
        le_bytes(n, 4)[1] == n / 0x100 % 256,
        le_bytes(n, 4)[2] == n / 0x1_0000 % 256,
        le_bytes(n, 4)[3] == n / 0x100_0000 % 256,
        b.len() == 4 ==> le_value(b) == b[0] + 0x100 * b[1] + 0x1_0000 * b[2] + 0x100_0000 * b[3],
{
    reveal_with_fuel(le_bytes, 5);
    if b.len() == 4 {
        let b1 = b.drop_first();
        let b2 = b1.drop_first();
        let b3 = b2.drop_first();
        assert(le_value(b3.drop_first()) == 0);
        assert(le_value(b3) == b[3]);
        assert(le_value(b2) == b[2] + 256 * le_value(b3));
        assert(le_value(b1) == b[1] + 256 * le_value(b2));
        assert(le_value(b) == b[0] + 256 * le_value(b1));
    }
}

/// A field of twice the width is its lower half and then its upper half.
pub proof fn law_wide_fields_are_two_halves(n: nat)
    ensures
        le_bytes(n, 8) == le_bytes(n, 4) + le_bytes(n / 0x1_0000_0000, 4),
{
    reveal_with_fuel(le_bytes, 5);
    let n1 = n / 256;
    let n2 = n1 / 256;
    let n3 = n2 / 256;
    let n4 = n3 / 256;
    assert(n4 == n / 0x1_0000_0000);
    lemma_le_bytes_len(n4, 4);
    assert(le_bytes(n, 8) =~= seq![(n % 256) as u8] + le_bytes(n1, 7));
    assert(le_bytes(n1, 7) =~= seq![(n1 % 256) as u8] + le_bytes(n2, 6));
    assert(le_bytes(n2, 6) =~= seq![(n2 % 256) as u8] + le_bytes(n3, 5));
    assert(le_bytes(n3, 5) =~= seq![(n3 % 256) as u8] + le_bytes(n4, 4));
    assert(le_bytes(n, 4) =~= seq![
        (n % 256) as u8,
        (n1 % 256) as u8,
        (n2 % 256) as u8,
        (n3 % 256) as u8,
    ]);
    assert(le_bytes(n, 8) =~= le_bytes(n, 4) + le_bytes(n4, 4));
}

} // verus!
