//! The persistence path: blob identifiers and failures.

use vstd::prelude::*;

use crate::state::error::StateError;
use crate::text::{quote, quoted};

verus! {

/// The value of a hexadecimal digit of either case.
pub open spec fn hex_value(c: char) -> Option<nat> {
    if '0' <= c <= '9' {
        Some((c as nat - 48) as nat)
    } else if 'a' <= c <= 'f' {
        Some((c as nat - 87) as nat)
    } else if 'A' <= c <= 'F' {
        Some((c as nat - 55) as nat)
    } else {
        None
    }
}

/// The identifier that a text denotes: exactly 64 hexadecimal digits, two for
/// each byte, high half first.
pub open spec fn blob_id(s: Seq<char>) -> Option<Seq<u8>> {
    if s.len() == 64 && (forall|i: int| 0 <= i < 64 ==> hex_value(#[trigger] s[i]) is Some) {
        Some(
            Seq::new(
                32,
                |i: int| (16 * hex_value(s[2 * i])->0 + hex_value(s[2 * i + 1])->0) as u8,
            ),
        )
    } else {
        None
    }
}

/// `entropyfs::engine::BlobId::from_hex`, the identifier taken as its 32 bytes:
/// 64 hexadecimal digits of either case, and nothing else.
#[verifier::external_body]
fn blob_from_hex(hex: &str) -> (r: Option<[u8; 32]>)
    ensures
        match r {
            Some(id) => blob_id(hex@) == Some(id@),
            None => blob_id(hex@) is None,
        },
{
    entropyfs::engine::BlobId::from_hex(hex).map(|id| *id.as_bytes())
}

/// Failures on the persistence path, attributed to the layer that they come
/// from. Errors of the store and of the file system are kept as their texts.
#[derive(Debug, PartialEq, Eq)]
pub enum PersistError {
    /// The store refused an operation.
    Engine(String),
    /// The stored bytes are no valid record.
    Record(StateError),
    /// File system failure outside the store.
    Io(String),
    /// The blob identifier was malformed.
    BadBlobId(String),
}

impl PersistError {
    /// The text of the error.
    pub open spec fn text(self) -> Seq<char> {
        match self {
            PersistError::Engine(e) => "entropyfs: "@ + e@,
            PersistError::Record(e) => "record: "@ + e@.text(),
            PersistError::Io(e) => "io: "@ + e@,
            PersistError::BadBlobId(s) => "bad blob id "@ + quoted(s@),
        }
    }

    /// The error as a line of text.
    pub fn message(&self) -> (r: String)
        ensures
            r@ == self.text(),
    {
        let mut out: String = String::new();
        match self {
            PersistError::Engine(e) => {
                out.append("entropyfs: ");
                out.append(e.as_str());
            },
            PersistError::Record(e) => {
                out.append("record: ");
                out.append(e.message().as_str());
            },
            PersistError::Io(e) => {
                out.append("io: ");
                out.append(e.as_str());
            },
            PersistError::BadBlobId(s) => {
                out.append("bad blob id ");
                out.append(quote(s.as_str()).as_str());
            },
        }
        assert(out@ =~= self.text());
        out
    }
}

/// Parse a 64-character hexadecimal blob identifier.
pub fn parse_id(hex: &str) -> (r: Result<[u8; 32], PersistError>)
    ensures
        match blob_id(hex@) {
            Some(b) => r matches Ok(id) && id@ == b,
            None => r matches Err(PersistError::BadBlobId(s)) && s@ == hex@,
        },
{
    match blob_from_hex(hex) {
        Some(id) => Ok(id),
        None => Err(PersistError::BadBlobId(hex.to_owned())),
    }
}

/// The store was closed before it was used.
pub fn closed_store() -> (r: PersistError)
    ensures
        r matches PersistError::BadBlobId(s) && s@ == "store already closed"@,
{
    PersistError::BadBlobId("store already closed".to_owned())
}

/// Whether a store is created afresh: unless its directory exists and holds
/// something already.
pub fn creates_store(exists: bool, has_entries: bool) -> (r: bool)
    ensures
        r == !(exists && has_entries),
{
    !(exists && has_entries)
}

/// An identifier printed in lower-case hexadecimal parses back to itself.
pub proof fn law_printed_identifier_parses_back(id: Seq<u8>)
    requires
        id.len() == 32,
    ensures
        blob_id(crate::text::hex(id)) == Some(id),
{
    let s = crate::text::hex(id);
    assert(s.len() == 64);
    assert forall|i: int| 0 <= i < 64 implies hex_value(#[trigger] s[i]) is Some by {
        lemma_digit_value(id[i / 2] as nat / 16);
        lemma_digit_value(id[i / 2] as nat % 16);
    }
    let b = blob_id(s)->0;
    assert forall|i: int| 0 <= i < 32 implies b[i] == id[i] by {
        assert((2 * i) / 2 == i && (2 * i + 1) / 2 == i);
        assert((2 * i) % 2 == 0 && (2 * i + 1) % 2 == 1);
        lemma_digit_value(id[i] as nat / 16);
        lemma_digit_value(id[i] as nat % 16);
        assert(s[2 * i] == crate::text::hex_digit(id[i] as nat / 16));
        assert(s[2 * i + 1] == crate::text::hex_digit(id[i] as nat % 16));
    }
    assert(b =~= id);
}

/// A printed digit has the value that it was printed from.
proof fn lemma_digit_value(d: nat)
    requires
        d < 16,
    ensures
        hex_value(crate::text::hex_digit(d)) == Some(d),
{
}

/// A hexadecimal digit is worth what it says, in either case; nothing else is a digit. An
/// identifier is 64 digits, two for each of its 32 bytes, the upper one first.
pub proof fn law_identifiers_are_hexadecimal(s: Seq<char>, c: char, i: int)
    ensures
        hex_value(c) is Some <==> ('0' <= c <= '9' || 'a' <= c <= 'f' || 'A' <= c <= 'F'),
        '0' <= c <= '9' ==> hex_value(c) == Some((c as nat - '0' as nat) as nat),
        'a' <= c <= 'f' ==> hex_value(c) == Some((c as nat - 'a' as nat + 10) as nat),
        'A' <= c <= 'F' ==> hex_value(c) == Some((c as nat - 'A' as nat + 10) as nat),
        blob_id(s) is Some <==> s.len() == 64 && forall|j: int|
            0 <= j < 64 ==> hex_value(#[trigger] s[j]) is Some,
        blob_id(s) matches Some(id) ==> id.len() == 32 && (0 <= i < 32 ==> id[i] == hex_value(
            s[2 * i],
        )->0 * 16 + hex_value(s[2 * i + 1])->0),
{
    if let Some(id) = blob_id(s) {
        if 0 <= i < 32 {
            assert(hex_value(s[2 * i]) is Some && hex_value(s[2 * i + 1]) is Some);
        }
    }
}

} // verus!
