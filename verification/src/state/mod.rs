//! The durable state record: its hashes, its exact-byte codec, its compatibility
//! predicate, and the identifiers of the store that keeps it.
//!
//! A record is a fixed header of 176 bytes and the exact little-endian bytes of
//! `H`, `C` and the carry:
//!
//! ```text
//! offset size field
//!   0      8  magic "VOLEFLD1"
//!   8      4  format version
//!  12      4  header length, 176
//!  16     32  model weights hash
//!  48     32  model config hash
//!  80     16  scene identity (ASCII, NUL padded)
//!  96      4  context length
//! 100      4  hidden channels
//! 104      4  carry channels
//! 108      4  height
//! 112      4  width
//! 116      4  reserved, zero
//! 120      8  length of H in bytes
//! 128      8  length of C in bytes
//! 136      8  length of the carry in bytes
//! 144     32  state hash: BLAKE3 of H, C and the carry
//! 176    ...  H, then C, then the carry
//! ```
//!
//! No frame that is still to be generated is in it: the future has to be
//! materialised after a restore, from the state alone.

pub mod compat;
pub mod error;
pub mod hashes;
pub mod persist;
pub mod record;
