//! `binary32` numbers as bit patterns, and their exact little-endian bytes.

use vstd::prelude::*;

use crate::bytes::{le_bytes, le_value, push_u32, read_u32};
use crate::bytes::{lemma_le_bytes_len, lemma_le_bytes_of_value, lemma_le_spans,
    lemma_le_value_of_bytes};

verus! {

/// The little-endian bytes of a list of bit patterns, one after the other.
pub open spec fn floats_to_bytes(v: Seq<u32>) -> Seq<u8> {
    Seq::new(4 * v.len(), |i: int| le_bytes(v[i / 4] as nat, 4)[i % 4])
}

/// The bit patterns that a byte string holds, four bytes each.
pub open spec fn bytes_to_floats(b: Seq<u8>) -> Seq<u32> {
    Seq::new(b.len() / 4, |i: int| le_value(b.subrange(4 * i, 4 * i + 4)) as u32)
}

/// Whether the number with these bits is finite: its exponent field is not all
/// ones.
pub open spec fn finite_bits(bits: u32) -> bool {
    bits as nat / 0x80_0000 % 0x100 != 0xff
}

/// Whether every number in a list is finite.
pub open spec fn finite_list(v: Seq<u32>) -> bool {
    forall|i: int| 0 <= i < v.len() ==> finite_bits(#[trigger] v[i])
}

/// A byte string whose length is not a whole number of floats.
#[derive(Debug, Clone, Copy, PartialEq, Eq, Structural)]
pub struct RaggedPayload {
    /// The length that was given.
    pub len: usize,
}

impl RaggedPayload {
    /// The error as a line of text.
    pub fn message(&self) -> (r: String)
        ensures
            r@ == "f32 payload length "@ + crate::text::decimal(self.len as nat)
                + " is not a multiple of 4"@,
    {
        let mut out: String = String::new();
        out.append("f32 payload length ");
        crate::text::push_decimal(&mut out, self.len as u64);
        out.append(" is not a multiple of 4");
        assert(out@ =~= "f32 payload length "@ + crate::text::decimal(self.len as nat)
            + " is not a multiple of 4"@);
        out
    }
}

/// Bit patterns to little-endian bytes.
pub fn f32s_to_le_bytes(v: &[u32]) -> (out: Vec<u8>)
    ensures
        out@ == floats_to_bytes(v@),
{
    let mut out: Vec<u8> = Vec::new();
    let mut i: usize = 0;
    while i < v.len()
        invariant
            i <= v@.len(),
            out@ == floats_to_bytes(v@.take(i as int)),
        decreases v@.len() - i,
    {
        let ghost before = out@;
        push_u32(&mut out, v[i]);
        proof {
            lemma_le_bytes_len(v@[i as int] as nat, 4);
            let now = floats_to_bytes(v@.take(i + 1));
            assert(out@.len() == now.len());
            assert forall|j: int| 0 <= j < now.len() implies out@[j] == now[j] by {
                if j < 4 * i {
                    assert(before[j] == le_bytes(v@.take(i as int)[j / 4] as nat, 4)[j % 4]);
                } else {
                    assert(j / 4 == i && j % 4 == j - 4 * i);
                }
            }
            assert(out@ =~= now);
        }
        i = i + 1;
    }
    assert(v@.take(i as int) =~= v@);
    out
}

/// Little-endian bytes to bit patterns. A length that is not a multiple of four
/// is an error.
pub fn le_bytes_to_f32s(b: &[u8]) -> (r: Result<Vec<u32>, RaggedPayload>)
    ensures
        match r {
            Ok(v) => b@.len() % 4 == 0 && v@ == bytes_to_floats(b@),
            Err(e) => b@.len() % 4 != 0 && e.len == b@.len(),
        },
{
    if b.len() % 4 != 0 {
        return Err(RaggedPayload { len: b.len() });
    }
    let n: usize = b.len();
    let count: usize = n / 4;
    let mut out: Vec<u32> = Vec::with_capacity(count);
    let mut i: usize = 0;
    while i < count
        invariant
            i <= count,
            b@.len() == n == 4 * count,
            out@ == bytes_to_floats(b@).take(i as int),
        decreases count - i,
    {
        out.push(read_u32(b, 4 * i));
        assert(out@ =~= bytes_to_floats(b@).take(i + 1));
        i = i + 1;
    }
    assert(out@ =~= bytes_to_floats(b@));
    Ok(out)
}

/// Whether every number in a list is finite.
pub fn all_finite(v: &[u32]) -> (r: bool)
    ensures
        r == finite_list(v@),
{
    let mut i: usize = 0;
    while i < v.len()
        invariant
            i <= v@.len(),
            forall|j: int| 0 <= j < i ==> finite_bits(#[trigger] v@[j]),
        decreases v@.len() - i,
    {
        if v[i] / 0x80_0000 % 0x100 == 0xff {
            assert(!finite_bits(v@[i as int]));
            return false;
        }
        i = i + 1;
    }
    true
}

/// Bit patterns survive their bytes, every one of them: subnormals, infinities
/// and the payloads of NaNs too.
pub proof fn law_floats_round_trip(v: Seq<u32>)
    ensures
        bytes_to_floats(floats_to_bytes(v)) == v,
{
    let b = floats_to_bytes(v);
    assert forall|i: int| 0 <= i < v.len() implies bytes_to_floats(b)[i] == v[i] by {
        lemma_le_bytes_len(v[i] as nat, 4);
        assert forall|j: int| 0 <= j < 4 implies b[4 * i + j] == le_bytes(v[i] as nat, 4)[j] by {
            assert((4 * i + j) / 4 == i && (4 * i + j) % 4 == j);
        }
        assert(b.subrange(4 * i, 4 * i + 4) =~= le_bytes(v[i] as nat, 4));
        lemma_le_spans();
        lemma_le_value_of_bytes(v[i] as nat, 4);
    }
    assert(bytes_to_floats(b) =~= v);
}

/// Bytes survive being read as floats, when they are a whole number of them.
pub proof fn law_float_bytes_round_trip(b: Seq<u8>)
    requires
        b.len() % 4 == 0,
    ensures
        floats_to_bytes(bytes_to_floats(b)) == b,
{
    let v = bytes_to_floats(b);
    assert forall|i: int| 0 <= i < b.len() implies floats_to_bytes(v)[i] == b[i] by {
        let s = b.subrange(4 * (i / 4), 4 * (i / 4) + 4);
        lemma_le_bytes_of_value(s);
        lemma_le_spans();
        assert(v[i / 4] as nat == le_value(s));
        assert(s[i % 4] == b[i]);
    }
    assert(floats_to_bytes(v) =~= b);
}

// ---------------------------------------------------------------------------
// Order
// ---------------------------------------------------------------------------

/// The bits of the magnitude: all but the sign.
pub open spec fn magnitude32(bits: u32) -> int {
    bits as int % 0x8000_0000
}

/// An integer by which numbers are ordered as `binary32` orders them; the two zeros
/// are equal.
pub open spec fn order_key32(bits: u32) -> int {
    if bits >= 0x8000_0000 {
        -magnitude32(bits)
    } else {
        magnitude32(bits)
    }
}

/// `a < b`, which no comparison with a NaN is.
pub open spec fn float32_less(a: u32, b: u32) -> bool {
    &&& magnitude32(a) <= 0x7f80_0000
    &&& magnitude32(b) <= 0x7f80_0000
    &&& order_key32(a) < order_key32(b)
}

/// Whether `a < b` as numbers.
pub fn less32(a: u32, b: u32) -> (r: bool)
    ensures
        r == float32_less(a, b),
{
    let ma: u32 = a % 0x8000_0000;
    let mb: u32 = b % 0x8000_0000;
    let na: bool = a >= 0x8000_0000;
    let nb: bool = b >= 0x8000_0000;
    if ma > 0x7f80_0000 || mb > 0x7f80_0000 {
        false
    } else if na && nb {
        mb < ma
    } else if na {
        ma > 0 || mb > 0
    } else if nb {
        false
    } else {
        ma < mb
    }
}

/// A list of floats stands in a file one after the other, four bytes each, least significant
/// byte first.
pub proof fn law_floats_stand_in_order(v: Seq<u32>, i: int)
    requires
        0 <= i < v.len(),
    ensures
        floats_to_bytes(v).len() == 4 * v.len(),
        floats_to_bytes(v)[4 * i] == v[i] % 256,
        floats_to_bytes(v)[4 * i + 1] == v[i] / 0x100 % 256,
        floats_to_bytes(v)[4 * i + 2] == v[i] / 0x1_0000 % 256,
        floats_to_bytes(v)[4 * i + 3] == v[i] / 0x100_0000 % 256,
{
    crate::bytes::law_fields_are_little_endian(v[i] as nat, Seq::empty());
    assert((4 * i) / 4 == i && (4 * i + 1) / 4 == i && (4 * i + 2) / 4 == i && (4 * i + 3) / 4
        == i);
    assert((4 * i) % 4 == 0 && (4 * i + 1) % 4 == 1 && (4 * i + 2) % 4 == 2 && (4 * i + 3) % 4
        == 3);
}

/// What is finite is what is smaller than infinity, whatever its sign; and a list is finite
/// where each of its numbers is.
pub proof fn law_finite_is_below_infinity(v: Seq<u32>, bits: u32)
    ensures
        finite_bits(bits) <==> (if bits < 0x8000_0000 {
            bits < 0x7f80_0000
        } else {
            bits - 0x8000_0000 < 0x7f80_0000
        }),
        finite_list(v) <==> forall|i: int| 0 <= i < v.len() ==> (#[trigger] v[i]) % 0x8000_0000
            < 0x7f80_0000,
{
    assert forall|b: u32| #[trigger] finite_bits(b) <==> b % 0x8000_0000 < 0x7f80_0000 by {
        assert(b as nat / 0x80_0000 % 0x100 == b as nat % 0x8000_0000 / 0x80_0000);
    }
    if forall|i: int| 0 <= i < v.len() ==> (#[trigger] v[i]) % 0x8000_0000 < 0x7f80_0000 {
        assert forall|i: int| 0 <= i < v.len() implies finite_bits(#[trigger] v[i]) by {}
    }
}

/// Floats are ordered by their value: what is no number is less than nothing, positive ones
/// as their bits are, negative ones the other way round and below all positive ones, and the
/// two zeros are equal.
pub proof fn law_floats_are_ordered_by_value(a: u32, b: u32)
    requires
        a % 0x8000_0000 <= 0x7f80_0000,
        b % 0x8000_0000 <= 0x7f80_0000,
    ensures
        a < 0x8000_0000 && b < 0x8000_0000 ==> (float32_less(a, b) <==> a < b),
        a > 0x8000_0000 && b > 0x8000_0000 ==> (float32_less(a, b) <==> a > b),
        a > 0x8000_0000 && b < 0x8000_0000 ==> float32_less(a, b) && !float32_less(b, a),
        !float32_less(0, 0x8000_0000) && !float32_less(0x8000_0000, 0),
        forall|n: u32| n % 0x8000_0000 > 0x7f80_0000 ==> !(#[trigger] float32_less(n, a))
            && !float32_less(a, n),
{
}

} // verus!
