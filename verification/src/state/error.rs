//! Why bytes are no state record.

use vstd::prelude::*;

use crate::model::params::separated;
use crate::text::{decimal, push_decimal, quote, quoted};

verus! {

/// Decode and validation failures, each a distinct, reportable reason.
#[derive(Debug, Clone, PartialEq, Eq)]
pub enum StateError {
    /// The bytes do not begin with the record magic.
    BadMagic([u8; 8]),
    /// A version other than the one that is implemented.
    UnsupportedVersion(u32),
    /// The header length field is not the format's length.
    BadHeaderLen(u32),
    /// Fewer bytes than the header, or than the declared payload, requires.
    Truncated {
        /// Bytes that the record declares it needs.
        need: usize,
        /// Bytes that are there.
        got: usize,
    },
    /// The declared payload sizes disagree with the declared dimensions.
    PayloadSizeMismatch {
        /// `H` bytes declared.
        h: usize,
        /// `C` bytes declared.
        c: usize,
        /// Carry bytes declared.
        carry: usize,
        /// `H` (and `C`) bytes that the dimensions require.
        expected: usize,
        /// Carry bytes that the dimensions require.
        expected_carry: usize,
    },
    /// The payload does not hash to the state hash in the header.
    StateHashMismatch {
        /// Hash stored in the header.
        stored: String,
        /// Hash recomputed from the payload.
        computed: String,
    },
    /// The scene identity field names no known scene.
    UnknownScene(String),
}

/// A [`StateError`] with its texts as sequences of characters.
pub enum ErrorModel {
    BadMagic(Seq<u8>),
    UnsupportedVersion(u32),
    BadHeaderLen(u32),
    Truncated { need: usize, got: usize },
    PayloadSizeMismatch {
        h: usize,
        c: usize,
        carry: usize,
        expected: usize,
        expected_carry: usize,
    },
    StateHashMismatch { stored: Seq<char>, computed: Seq<char> },
    UnknownScene(Seq<char>),
}

impl View for StateError {
    type V = ErrorModel;

    open spec fn view(&self) -> ErrorModel {
        match *self {
            StateError::BadMagic(m) => ErrorModel::BadMagic(m@),
            StateError::UnsupportedVersion(v) => ErrorModel::UnsupportedVersion(v),
            StateError::BadHeaderLen(l) => ErrorModel::BadHeaderLen(l),
            StateError::Truncated { need, got } => ErrorModel::Truncated { need, got },
            StateError::PayloadSizeMismatch { h, c, carry, expected, expected_carry } =>
                ErrorModel::PayloadSizeMismatch { h, c, carry, expected, expected_carry },
            StateError::StateHashMismatch { stored, computed } => ErrorModel::StateHashMismatch {
                stored: stored@,
                computed: computed@,
            },
            StateError::UnknownScene(s) => ErrorModel::UnknownScene(s@),
        }
    }
}

impl ErrorModel {
    /// The text of the error.
    pub open spec fn text(self) -> Seq<char> {
        match self {
            ErrorModel::BadMagic(m) => "bad magic ["@ + separated(
                m.map_values(|b: u8| decimal(b as nat)),
            ) + "]"@,
            ErrorModel::UnsupportedVersion(v) => "unsupported record version "@ + decimal(
                v as nat,
            ),
            ErrorModel::BadHeaderLen(l) => "unexpected header length "@ + decimal(l as nat),
            ErrorModel::Truncated { need, got } => "record truncated: need "@ + decimal(need as nat)
                + " bytes, have "@ + decimal(got as nat),
            ErrorModel::PayloadSizeMismatch { h, c, carry, expected, expected_carry } =>
                "payload size mismatch: H="@ + decimal(h as nat) + " C="@ + decimal(c as nat)
                + " carry="@ + decimal(carry as nat) + " bytes, dimensions require "@ + decimal(
                expected as nat,
            ) + " each and "@ + decimal(expected_carry as nat) + " carry"@,
            ErrorModel::StateHashMismatch { stored, computed } => "state hash mismatch: header "@
                + stored + ", payload "@ + computed,
            ErrorModel::UnknownScene(s) => "unknown scene identity "@ + quoted(s),
        }
    }
}

impl StateError {
    /// The error as a line of text.
    pub fn message(&self) -> (r: String)
        ensures
            r@ == self@.text(),
    {
        let mut out: String = String::new();
        match self {
            StateError::BadMagic(m) => {
                out.append("bad magic [");
                push_byte_list(&mut out, m);
                out.append("]");
            },
            StateError::UnsupportedVersion(v) => {
                out.append("unsupported record version ");
                push_decimal(&mut out, *v as u64);
            },
            StateError::BadHeaderLen(l) => {
                out.append("unexpected header length ");
                push_decimal(&mut out, *l as u64);
            },
            StateError::Truncated { need, got } => {
                out.append("record truncated: need ");
                push_decimal(&mut out, *need as u64);
                out.append(" bytes, have ");
                push_decimal(&mut out, *got as u64);
            },
            StateError::PayloadSizeMismatch { h, c, carry, expected, expected_carry } => {
                out.append("payload size mismatch: H=");
                push_decimal(&mut out, *h as u64);
                out.append(" C=");
                push_decimal(&mut out, *c as u64);
                out.append(" carry=");
                push_decimal(&mut out, *carry as u64);
                out.append(" bytes, dimensions require ");
                push_decimal(&mut out, *expected as u64);
                out.append(" each and ");
                push_decimal(&mut out, *expected_carry as u64);
                out.append(" carry");
            },
            StateError::StateHashMismatch { stored, computed } => {
                out.append("state hash mismatch: header ");
                out.append(stored.as_str());
                out.append(", payload ");
                out.append(computed.as_str());
            },
            StateError::UnknownScene(s) => {
                out.append("unknown scene identity ");
                out.append(quote(s.as_str()).as_str());
            },
        }
        assert(out@ =~= self@.text());
        out
    }
}

/// Appends eight bytes in decimal, separated by commas.
fn push_byte_list(out: &mut String, m: &[u8; 8])
    ensures
        final(out)@ == old(out)@ + separated(m@.map_values(|b: u8| decimal(b as nat))),
{
    let ghost items = m@.map_values(|b: u8| decimal(b as nat));
    let ghost start = out@;
    let mut i: usize = 0;
    assert(separated(items.take(0)) =~= Seq::<char>::empty());
    assert(start =~= start + separated(items.take(0)));
    while i < 8
        invariant
            i <= 8,
            items == m@.map_values(|b: u8| decimal(b as nat)),
            out@ == start + separated(items.take(i as int)),
        decreases 8 - i,
    {
        if i > 0 {
            out.append(", ");
        }
        push_decimal(out, m[i] as u64);
        proof {
            let t = items.take(i + 1);
            assert(t.drop_last() =~= items.take(i as int));
            assert(t.last() == decimal(m@[i as int] as nat));
            assert(out@ =~= start + separated(t));
        }
        i = i + 1;
    }
    assert(items.take(i as int) =~= items);
}

} // verus!
