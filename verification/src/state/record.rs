//! The state record and its exact-byte codec.

use vstd::prelude::*;

use crate::bytes::{array32, bytes_equal, copy_range, le_bytes, le_value, push_bytes, push_u32,
    push_u64, read_u32, read_u64};
use crate::bytes::{lemma_le_bytes_len, lemma_le_bytes_of_value, lemma_le_spans,
    lemma_le_value_of_bytes};
use crate::model::config::{ModelConfig, CARRY_CHANNELS};
use crate::scene::{law_recorded_field_is_the_written_one, law_scene_identity_round_trips, SceneId};
use crate::state::error::{ErrorModel, StateError};
use crate::state::hashes::{blake3_digest, hex32, state_hash};
use crate::text::{characters, decode_lossy, hex, lossy, text_of};

verus! {

/// Record magic: the ASCII bytes of `VOLEFLD1`.
pub const MAGIC: [u8; 8] = [86, 79, 76, 69, 70, 76, 68, 49];

/// Format version.
pub const FORMAT_VERSION: u32 = 1;

/// Header length in bytes.
pub const HEADER_LEN: usize = 176;

/// The durable generative-state record.
#[derive(Debug, Clone, PartialEq, Eq)]
pub struct StateRecord {
    /// Behaviour-determining hash of the weights that earned this state.
    pub model_weights_hash: [u8; 32],
    /// Architecture hash.
    pub config_hash: [u8; 32],
    /// Scene that the state was earned from.
    pub scene: SceneId,
    /// Number of frames consumed to earn the state.
    pub context_len: u32,
    /// Hidden channels of `H` and `C`.
    pub hidden_channels: u32,
    /// Channels of the carry.
    pub carry_channels: u32,
    /// Field height.
    pub height: u32,
    /// Field width.
    pub width: u32,
    /// Exact little-endian bytes of `H`.
    pub h: Vec<u8>,
    /// Exact little-endian bytes of `C`.
    pub c: Vec<u8>,
    /// Exact little-endian bytes of the carry.
    pub carry: Vec<u8>,
    /// BLAKE3 of the three payloads, as stored in the header.
    pub state_hash: [u8; 32],
}

/// A [`StateRecord`] with its byte strings as sequences.
pub struct RecordModel {
    pub model_weights_hash: Seq<u8>,
    pub config_hash: Seq<u8>,
    pub scene: SceneId,
    pub context_len: u32,
    pub hidden_channels: u32,
    pub carry_channels: u32,
    pub height: u32,
    pub width: u32,
    pub h: Seq<u8>,
    pub c: Seq<u8>,
    pub carry: Seq<u8>,
    pub state_hash: Seq<u8>,
}

impl View for StateRecord {
    type V = RecordModel;

    open spec fn view(&self) -> RecordModel {
        RecordModel {
            model_weights_hash: self.model_weights_hash@,
            config_hash: self.config_hash@,
            scene: self.scene,
            context_len: self.context_len,
            hidden_channels: self.hidden_channels,
            carry_channels: self.carry_channels,
            height: self.height,
            width: self.width,
            h: self.h@,
            c: self.c@,
            carry: self.carry@,
            state_hash: self.state_hash@,
        }
    }
}

impl RecordModel {
    /// The unframed payload.
    pub open spec fn payload(self) -> Seq<u8> {
        self.h + self.c + self.carry
    }

    /// The header.
    pub open spec fn header(self) -> Seq<u8> {
        MAGIC@ + le_bytes(FORMAT_VERSION as nat, 4) + le_bytes(HEADER_LEN as nat, 4)
            + self.model_weights_hash + self.config_hash + self.scene.record_bytes() + le_bytes(
            self.context_len as nat,
            4,
        ) + le_bytes(self.hidden_channels as nat, 4) + le_bytes(self.carry_channels as nat, 4)
            + le_bytes(self.height as nat, 4) + le_bytes(self.width as nat, 4) + le_bytes(0, 4)
            + le_bytes(self.h.len(), 8) + le_bytes(self.c.len(), 8) + le_bytes(self.carry.len(), 8)
            + self.state_hash
    }

    /// The whole record.
    pub open spec fn encoded(self) -> Seq<u8> {
        self.header() + self.payload()
    }

    /// Pixels per frame, as declared.
    pub open spec fn pixels(self) -> int {
        self.height * self.width
    }

    /// The payload sizes are those of the declared dimensions, and the sizes that
    /// lead to them fit in a `usize`.
    pub open spec fn sized(self) -> bool {
        &&& self.pixels() <= usize::MAX
        &&& 4 * self.hidden_channels <= usize::MAX
        &&& 4 * self.carry_channels <= usize::MAX
        &&& self.h.len() == 4 * self.hidden_channels * self.pixels() <= usize::MAX
        &&& self.c.len() == self.h.len()
        &&& self.carry.len() == 4 * self.carry_channels * self.pixels() <= usize::MAX
    }

    /// The record is self-consistent: its sizes agree, its hashes have their
    /// width, and the state hash is that of the payload.
    pub open spec fn wf(self) -> bool {
        &&& self.model_weights_hash.len() == 32
        &&& self.config_hash.len() == 32
        &&& self.sized()
        &&& self.state_hash == blake3_digest(self.payload())
        &&& self.state_hash.len() == 32
    }
}

// ---------------------------------------------------------------------------
// What bytes decode to
// ---------------------------------------------------------------------------

/// The 32-bit field at `at`.
pub open spec fn field_u32(b: Seq<u8>, at: int) -> u32 {
    le_value(b.subrange(at, at + 4)) as u32
}

/// The 64-bit field at `at`, as a size of this machine.
pub open spec fn field_size(b: Seq<u8>, at: int) -> usize {
    (le_value(b.subrange(at, at + 8)) as u64) as usize
}

/// A text without the NULs that it ends in.
pub open spec fn without_trailing_nuls(s: Seq<char>) -> Seq<char>
    decreases s.len(),
{
    if s.len() > 0 && s.last() == '\0' {
        without_trailing_nuls(s.drop_last())
    } else {
        s
    }
}

/// A size, or the largest `usize` where it is larger.
pub open spec fn saturated(n: int) -> usize {
    if n > usize::MAX {
        usize::MAX
    } else {
        n as usize
    }
}

/// What the payload fields of a header come to: the first disagreement between
/// the declared lengths, the declared dimensions and the bytes that are there.
pub open spec fn payload_fault(b: Seq<u8>) -> Option<ErrorModel> {
    let hidden = field_u32(b, 100);
    let carry_channels = field_u32(b, 104);
    let pixels = field_u32(b, 108) * field_u32(b, 112);
    let h = field_size(b, 120);
    let c = field_size(b, 128);
    let carry = field_size(b, 136);
    let expected = 4 * hidden * pixels;
    let expected_carry = 4 * carry_channels * pixels;
    let need = HEADER_LEN + h + c + carry;
    if pixels > usize::MAX || 4 * hidden > usize::MAX || expected > usize::MAX || 4 * carry_channels
        > usize::MAX || expected_carry > usize::MAX {
        Some(
            ErrorModel::PayloadSizeMismatch { h, c, carry, expected: 0, expected_carry: 0 },
        )
    } else if h != expected || c != expected || carry != expected_carry {
        Some(
            ErrorModel::PayloadSizeMismatch {
                h,
                c,
                carry,
                expected: expected as usize,
                expected_carry: expected_carry as usize,
            },
        )
    } else if b.len() < need {
        Some(ErrorModel::Truncated { need: saturated(need), got: b.len() as usize })
    } else {
        None
    }
}

/// The record that well-framed bytes hold.
pub open spec fn record_in(b: Seq<u8>, scene: SceneId) -> RecordModel {
    let h = field_size(b, 120) as int;
    let c = field_size(b, 128) as int;
    let carry = field_size(b, 136) as int;
    RecordModel {
        model_weights_hash: b.subrange(16, 48),
        config_hash: b.subrange(48, 80),
        scene,
        context_len: field_u32(b, 96),
        hidden_channels: field_u32(b, 100),
        carry_channels: field_u32(b, 104),
        height: field_u32(b, 108),
        width: field_u32(b, 112),
        h: b.subrange(176, 176 + h),
        c: b.subrange(176 + h, 176 + h + c),
        carry: b.subrange(176 + h + c, 176 + h + c + carry),
        state_hash: b.subrange(144, 176),
    }
}

/// What bytes decode to: a self-consistent record, or the first reason why they
/// are none.
pub open spec fn decoded(b: Seq<u8>) -> Result<RecordModel, ErrorModel> {
    if b.len() < HEADER_LEN {
        Err(ErrorModel::Truncated { need: HEADER_LEN, got: b.len() as usize })
    } else if b.subrange(0, 8) != MAGIC@ {
        Err(ErrorModel::BadMagic(b.subrange(0, 8)))
    } else if field_u32(b, 8) != FORMAT_VERSION {
        Err(ErrorModel::UnsupportedVersion(field_u32(b, 8)))
    } else if field_u32(b, 12) != HEADER_LEN {
        Err(ErrorModel::BadHeaderLen(field_u32(b, 12)))
    } else {
        match SceneId::recorded(b.subrange(80, 96)) {
            None => Err(
                ErrorModel::UnknownScene(without_trailing_nuls(lossy(b.subrange(80, 96)))),
            ),
            Some(scene) => match payload_fault(b) {
                Some(e) => Err(e),
                None => {
                    let r = record_in(b, scene);
                    if blake3_digest(r.payload()) != r.state_hash {
                        Err(
                            ErrorModel::StateHashMismatch {
                                stored: hex(r.state_hash),
                                computed: hex(blake3_digest(r.payload())),
                            },
                        )
                    } else {
                        Ok(r)
                    }
                },
            },
        }
    }
}

impl StateRecord {
    /// Build from an earned state and where it came from.
    pub fn new(
        model_weights_hash: [u8; 32],
        config_hash: [u8; 32],
        scene: SceneId,
        context_len: u32,
        cfg: &ModelConfig,
        h: Vec<u8>,
        c: Vec<u8>,
        carry: Vec<u8>,
    ) -> (r: StateRecord)
        ensures
            r@ == (RecordModel {
                model_weights_hash: model_weights_hash@,
                config_hash: config_hash@,
                scene,
                context_len,
                hidden_channels: cfg.hidden_channels as u32,
                carry_channels: 2,
                height: cfg.height as u32,
                width: cfg.width as u32,
                h: h@,
                c: c@,
                carry: carry@,
                state_hash: blake3_digest(h@ + c@ + carry@),
            }),
            r@.sized() ==> r@.wf(),
    {
        let sh = state_hash(h.as_slice(), c.as_slice(), carry.as_slice());
        StateRecord {
            model_weights_hash,
            config_hash,
            scene,
            context_len,
            hidden_channels: cfg.hidden_channels as u32,
            carry_channels: CARRY_CHANNELS as u32,
            height: cfg.height as u32,
            width: cfg.width as u32,
            h,
            c,
            carry,
            state_hash: sh,
        }
    }

    /// The unframed payload: `H` bytes, then `C`, then carry.
    pub fn raw_payload(&self) -> (out: Vec<u8>)
        ensures
            out@ == self@.payload(),
    {
        let mut out: Vec<u8> = Vec::new();
        push_bytes(&mut out, self.h.as_slice());
        push_bytes(&mut out, self.c.as_slice());
        push_bytes(&mut out, self.carry.as_slice());
        assert(out@ =~= self@.payload());
        out
    }

    /// The header and the payload: the exact bytes handed to the store.
    pub fn encode(&self) -> (out: Vec<u8>)
        ensures
            out@ == self@.encoded(),
    {
        let mut out: Vec<u8> = Vec::new();
        push_bytes(&mut out, MAGIC.as_slice());
        push_u32(&mut out, FORMAT_VERSION);
        push_u32(&mut out, HEADER_LEN as u32);
        push_bytes(&mut out, self.model_weights_hash.as_slice());
        push_bytes(&mut out, self.config_hash.as_slice());
        push_bytes(&mut out, self.scene.to_record_bytes().as_slice());
        push_u32(&mut out, self.context_len);
        push_u32(&mut out, self.hidden_channels);
        push_u32(&mut out, self.carry_channels);
        push_u32(&mut out, self.height);
        push_u32(&mut out, self.width);
        push_u32(&mut out, 0);
        push_u64(&mut out, self.h.len() as u64);
        push_u64(&mut out, self.c.len() as u64);
        push_u64(&mut out, self.carry.len() as u64);
        push_bytes(&mut out, self.state_hash.as_slice());
        assert(out@ =~= self@.header());
        push_bytes(&mut out, self.h.as_slice());
        push_bytes(&mut out, self.c.as_slice());
        push_bytes(&mut out, self.carry.as_slice());
        assert(out@ =~= self@.encoded());
        out
    }

    /// Decode and fully validate a record: magic, version, header length, scene,
    /// self-consistent payload sizes, and the state hash.
    ///
    /// Validation is self-consistency only. Bytes behind the declared payload are
    /// not looked at. Where the declared sizes add up to more than a `usize`
    /// holds, the record is truncated, and the need is reported as the largest
    /// `usize`.
    pub fn decode(bytes: &[u8]) -> (r: Result<StateRecord, StateError>)
        ensures
            match r {
                Ok(rec) => decoded(bytes@) == Ok::<RecordModel, ErrorModel>(rec@),
                Err(e) => decoded(bytes@) == Err::<RecordModel, ErrorModel>(e@),
            },
    {
        if bytes.len() < HEADER_LEN {
            return Err(StateError::Truncated { need: HEADER_LEN, got: bytes.len() });
        }
        let magic: [u8; 8] = first_eight(bytes);
        if !bytes_equal(magic.as_slice(), MAGIC.as_slice()) {
            return Err(StateError::BadMagic(magic));
        }
        let version: u32 = read_u32(bytes, 8);
        if version != FORMAT_VERSION {
            return Err(StateError::UnsupportedVersion(version));
        }
        let header_len: u32 = read_u32(bytes, 12);
        if header_len as usize != HEADER_LEN {
            return Err(StateError::BadHeaderLen(header_len));
        }
        let scene_bytes: &[u8] = vstd::slice::slice_subrange(bytes, 80, 96);
        let scene: SceneId = match SceneId::from_record_bytes(scene_bytes) {
            Some(id) => id,
            None => return Err(StateError::UnknownScene(scene_text(scene_bytes))),
        };
        let sizes: Sizes = match check_sizes(bytes) {
            Ok(s) => s,
            Err(e) => return Err(e),
        };
        let h_end: usize = HEADER_LEN + sizes.h;
        let c_end: usize = h_end + sizes.c;
        let carry_end: usize = c_end + sizes.carry;
        let h = copy_range(bytes, HEADER_LEN, h_end);
        let c = copy_range(bytes, h_end, c_end);
        let carry = copy_range(bytes, c_end, carry_end);
        let stored: [u8; 32] = array32(bytes, 144);
        let computed = state_hash(h.as_slice(), c.as_slice(), carry.as_slice());
        if !bytes_equal(computed.as_slice(), stored.as_slice()) {
            return Err(
                StateError::StateHashMismatch { stored: hex32(&stored), computed: hex32(&computed) },
            );
        }
        Ok(
            StateRecord {
                model_weights_hash: array32(bytes, 16),
                config_hash: array32(bytes, 48),
                scene,
                context_len: read_u32(bytes, 96),
                hidden_channels: read_u32(bytes, 100),
                carry_channels: read_u32(bytes, 104),
                height: read_u32(bytes, 108),
                width: read_u32(bytes, 112),
                h,
                c,
                carry,
                state_hash: stored,
            },
        )
    }

    /// Decode an unframed payload, given where it came from.
    ///
    /// The payload's length is checked against the architecture.
    pub fn from_raw_payload(
        raw: &[u8],
        cfg: &ModelConfig,
        model_weights_hash: [u8; 32],
        config_hash: [u8; 32],
        scene: SceneId,
        context_len: u32,
    ) -> (r: Result<StateRecord, StateError>)
        requires
            raw_fits(*cfg),
        ensures
            raw@.len() == 2 * raw_tensor_bytes(*cfg) + raw_carry_bytes(*cfg) ==> (r matches Ok(rec)
                && rec@ == raw_record(
                raw@,
                *cfg,
                model_weights_hash@,
                config_hash@,
                scene,
                context_len,
            )),
            raw@.len() != 2 * raw_tensor_bytes(*cfg) + raw_carry_bytes(*cfg) ==> (r matches Err(e)
                && e@ == (ErrorModel::PayloadSizeMismatch {
                h: raw@.len() as usize,
                c: raw@.len() as usize,
                carry: raw@.len() as usize,
                expected: raw_tensor_bytes(*cfg) as usize,
                expected_carry: raw_carry_bytes(*cfg) as usize,
            })),
    {
        let tensor_bytes: usize = 4 * cfg.hidden_channels * cfg.height * cfg.width;
        let carry_bytes: usize = 4 * CARRY_CHANNELS * cfg.height * cfg.width;
        if raw.len() != 2 * tensor_bytes + carry_bytes {
            return Err(
                StateError::PayloadSizeMismatch {
                    h: raw.len(),
                    c: raw.len(),
                    carry: raw.len(),
                    expected: tensor_bytes,
                    expected_carry: carry_bytes,
                },
            );
        }
        Ok(
            StateRecord::new(
                model_weights_hash,
                config_hash,
                scene,
                context_len,
                cfg,
                copy_range(raw, 0, tensor_bytes),
                copy_range(raw, tensor_bytes, 2 * tensor_bytes),
                copy_range(raw, 2 * tensor_bytes, raw.len()),
            ),
        )
    }

    /// Payload bytes of `H`, and of `C`.
    pub fn tensor_bytes(&self) -> (r: usize)
        ensures
            r == self@.h.len(),
    {
        self.h.len()
    }

    /// Payload bytes of the carry.
    pub fn carry_bytes_len(&self) -> (r: usize)
        ensures
            r == self@.carry.len(),
    {
        self.carry.len()
    }
}

/// Bytes of `H`, and of `C`, under `cfg`.
pub open spec fn raw_tensor_bytes(cfg: ModelConfig) -> int {
    4 * cfg.hidden_channels * cfg.height * cfg.width
}

/// Bytes of the carry under `cfg`.
pub open spec fn raw_carry_bytes(cfg: ModelConfig) -> int {
    4 * 2 * cfg.height * cfg.width
}

/// The sizes of an unframed payload, and the products that lead to them, fit in a
/// `usize`.
pub open spec fn raw_fits(cfg: ModelConfig) -> bool {
    &&& 4 * cfg.hidden_channels <= usize::MAX
    &&& 4 * cfg.hidden_channels * cfg.height <= usize::MAX
    &&& 4 * 2 * cfg.height <= usize::MAX
    &&& 0 <= raw_tensor_bytes(cfg)
    &&& 0 <= raw_carry_bytes(cfg)
    &&& 2 * raw_tensor_bytes(cfg) + raw_carry_bytes(cfg) <= usize::MAX
}

/// The record that an unframed payload of the right length gives.
pub open spec fn raw_record(
    raw: Seq<u8>,
    cfg: ModelConfig,
    model_weights_hash: Seq<u8>,
    config_hash: Seq<u8>,
    scene: SceneId,
    context_len: u32,
) -> RecordModel {
    let n = raw_tensor_bytes(cfg);
    RecordModel {
        model_weights_hash,
        config_hash,
        scene,
        context_len,
        hidden_channels: cfg.hidden_channels as u32,
        carry_channels: 2,
        height: cfg.height as u32,
        width: cfg.width as u32,
        h: raw.subrange(0, n),
        c: raw.subrange(n, 2 * n),
        carry: raw.subrange(2 * n, raw.len() as int),
        state_hash: blake3_digest(
            raw.subrange(0, n) + raw.subrange(n, 2 * n) + raw.subrange(2 * n, raw.len() as int),
        ),
    }
}

/// The payload lengths that a header declares.
struct Sizes {
    h: usize,
    c: usize,
    carry: usize,
}

/// Holds the declared lengths against the declared dimensions and the bytes that
/// are there.
fn check_sizes(bytes: &[u8]) -> (r: Result<Sizes, StateError>)
    requires
        bytes@.len() >= HEADER_LEN,
    ensures
        match r {
            Ok(s) => payload_fault(bytes@) is None && s.h == field_size(bytes@, 120) && s.c
                == field_size(bytes@, 128) && s.carry == field_size(bytes@, 136) && HEADER_LEN + s.h
                + s.c + s.carry <= bytes@.len() && bytes@.len() <= usize::MAX,
            Err(e) => payload_fault(bytes@) == Some(e@),
        },
{
    let hidden: usize = read_u32(bytes, 100) as usize;
    let carry_channels: usize = read_u32(bytes, 104) as usize;
    let height: usize = read_u32(bytes, 108) as usize;
    let width: usize = read_u32(bytes, 112) as usize;
    let h: usize = read_u64(bytes, 120) as usize;
    let c: usize = read_u64(bytes, 128) as usize;
    let carry: usize = read_u64(bytes, 136) as usize;
    let expected: usize = match tensor_size(hidden, height, width) {
        Some(n) => n,
        None => return Err(
            StateError::PayloadSizeMismatch { h, c, carry, expected: 0, expected_carry: 0 },
        ),
    };
    let expected_carry: usize = match tensor_size(carry_channels, height, width) {
        Some(n) => n,
        None => return Err(
            StateError::PayloadSizeMismatch { h, c, carry, expected: 0, expected_carry: 0 },
        ),
    };
    if h != expected || c != expected || carry != expected_carry {
        return Err(StateError::PayloadSizeMismatch { h, c, carry, expected, expected_carry });
    }
    let need: u128 = HEADER_LEN as u128 + h as u128 + c as u128 + carry as u128;
    if (bytes.len() as u128) < need {
        let need: usize = if need > usize::MAX as u128 {
            usize::MAX
        } else {
            need as usize
        };
        return Err(StateError::Truncated { need, got: bytes.len() });
    }
    Ok(Sizes { h, c, carry })
}

/// Bytes of a tensor with these dimensions, if its size and what leads to it fit.
fn tensor_size(channels: usize, height: usize, width: usize) -> (r: Option<usize>)
    ensures
        match r {
            Some(n) => n == 4 * channels * (height * width) && height * width <= usize::MAX && 4
                * channels <= usize::MAX,
            None => height * width > usize::MAX || 4 * channels > usize::MAX || 4 * channels * (
            height * width) > usize::MAX,
        },
{
    let pixels: usize = match height.checked_mul(width) {
        Some(p) => p,
        None => return None,
    };
    match 4usize.checked_mul(channels) {
        Some(v) => v.checked_mul(pixels),
        None => None,
    }
}

/// The first eight bytes.
fn first_eight(b: &[u8]) -> (out: [u8; 8])
    requires
        b@.len() >= 8,
    ensures
        out@ == b@.subrange(0, 8),
{
    let mut out: [u8; 8] = [0u8; 8];
    let mut i: usize = 0;
    while i < 8
        invariant
            i <= 8 <= b@.len(),
            forall|j: int| 0 <= j < i ==> out@[j] == b@[j],
        decreases 8 - i,
    {
        out[i] = b[i];
        i = i + 1;
    }
    assert(out@ =~= b@.subrange(0, 8));
    out
}

/// A scene field as text, without the NULs that pad it.
fn scene_text(field: &[u8]) -> (r: String)
    ensures
        r@ == without_trailing_nuls(lossy(field@)),
{
    let text = decode_lossy(field);
    let chars = characters(text.as_str());
    let mut end: usize = chars.len();
    assert(chars@.take(end as int) =~= chars@);
    while end > 0 && chars[end - 1] == '\0'
        invariant
            end <= chars@.len(),
            without_trailing_nuls(chars@) == without_trailing_nuls(chars@.take(end as int)),
        ensures
            end <= chars@.len(),
            without_trailing_nuls(chars@) == chars@.take(end as int),
        decreases end,
    {
        assert(chars@.take(end as int).drop_last() =~= chars@.take(end - 1));
        end = end - 1;
    }
    assert(chars@.subrange(0, end as int) =~= chars@.take(end as int));
    text_of(&chars, 0, end)
}

// ---------------------------------------------------------------------------
// Laws of the codec
// ---------------------------------------------------------------------------

/// Where each field stands in a header, whatever follows it.
proof fn lemma_header_fields(m: RecordModel, rest: Seq<u8>)
    requires
        m.model_weights_hash.len() == 32,
        m.config_hash.len() == 32,
        m.state_hash.len() == 32,
    ensures
        m.header().len() == HEADER_LEN,
        ({
            let b = m.header() + rest;
            &&& b.subrange(0, 8) == MAGIC@
            &&& b.subrange(8, 12) == le_bytes(FORMAT_VERSION as nat, 4)
            &&& b.subrange(12, 16) == le_bytes(HEADER_LEN as nat, 4)
            &&& b.subrange(16, 48) == m.model_weights_hash
            &&& b.subrange(48, 80) == m.config_hash
            &&& b.subrange(80, 96) == m.scene.record_bytes()
            &&& b.subrange(96, 100) == le_bytes(m.context_len as nat, 4)
            &&& b.subrange(100, 104) == le_bytes(m.hidden_channels as nat, 4)
            &&& b.subrange(104, 108) == le_bytes(m.carry_channels as nat, 4)
            &&& b.subrange(108, 112) == le_bytes(m.height as nat, 4)
            &&& b.subrange(112, 116) == le_bytes(m.width as nat, 4)
            &&& b.subrange(120, 128) == le_bytes(m.h.len(), 8)
            &&& b.subrange(128, 136) == le_bytes(m.c.len(), 8)
            &&& b.subrange(136, 144) == le_bytes(m.carry.len(), 8)
            &&& b.subrange(144, 176) == m.state_hash
        }),
{
    let b = m.header() + rest;
    lemma_le_bytes_len(FORMAT_VERSION as nat, 4);
    lemma_le_bytes_len(HEADER_LEN as nat, 4);
    lemma_le_bytes_len(m.context_len as nat, 4);
    lemma_le_bytes_len(m.hidden_channels as nat, 4);
    lemma_le_bytes_len(m.carry_channels as nat, 4);
    lemma_le_bytes_len(m.height as nat, 4);
    lemma_le_bytes_len(m.width as nat, 4);
    lemma_le_bytes_len(0, 4);
    lemma_le_bytes_len(m.h.len(), 8);
    lemma_le_bytes_len(m.c.len(), 8);
    lemma_le_bytes_len(m.carry.len(), 8);
    law_scene_identity_round_trips(m.scene);
    assert(b.subrange(0, 8) =~= MAGIC@);
    assert(b.subrange(8, 12) =~= le_bytes(FORMAT_VERSION as nat, 4));
    assert(b.subrange(12, 16) =~= le_bytes(HEADER_LEN as nat, 4));
    assert(b.subrange(16, 48) =~= m.model_weights_hash);
    assert(b.subrange(48, 80) =~= m.config_hash);
    assert(b.subrange(80, 96) =~= m.scene.record_bytes());
    assert(b.subrange(96, 100) =~= le_bytes(m.context_len as nat, 4));
    assert(b.subrange(100, 104) =~= le_bytes(m.hidden_channels as nat, 4));
    assert(b.subrange(104, 108) =~= le_bytes(m.carry_channels as nat, 4));
    assert(b.subrange(108, 112) =~= le_bytes(m.height as nat, 4));
    assert(b.subrange(112, 116) =~= le_bytes(m.width as nat, 4));
    assert(b.subrange(120, 128) =~= le_bytes(m.h.len(), 8));
    assert(b.subrange(128, 136) =~= le_bytes(m.c.len(), 8));
    assert(b.subrange(136, 144) =~= le_bytes(m.carry.len(), 8));
    assert(b.subrange(144, 176) =~= m.state_hash);
}

/// A header has its fixed length.
pub proof fn lemma_header_len(m: RecordModel)
    requires
        m.model_weights_hash.len() == 32,
        m.config_hash.len() == 32,
        m.state_hash.len() == 32,
    ensures
        m.header().len() == HEADER_LEN,
{
    lemma_header_fields(m, Seq::empty());
}

/// What the fields of a header read back as.
proof fn lemma_header_reads_back(m: RecordModel, rest: Seq<u8>)
    requires
        m.model_weights_hash.len() == 32,
        m.config_hash.len() == 32,
        m.state_hash.len() == 32,
        m.sized(),
    ensures
        ({
            let b = m.header() + rest;
            &&& b.len() == HEADER_LEN + rest.len()
            &&& b.subrange(0, 8) == MAGIC@
            &&& field_u32(b, 8) == FORMAT_VERSION
            &&& field_u32(b, 12) == HEADER_LEN
            &&& SceneId::recorded(b.subrange(80, 96)) == Some(m.scene)
            &&& field_u32(b, 96) == m.context_len
            &&& field_u32(b, 100) == m.hidden_channels
            &&& field_u32(b, 104) == m.carry_channels
            &&& field_u32(b, 108) == m.height
            &&& field_u32(b, 112) == m.width
            &&& field_size(b, 120) == m.h.len()
            &&& field_size(b, 128) == m.c.len()
            &&& field_size(b, 136) == m.carry.len()
        }),
{
    lemma_header_fields(m, rest);
    lemma_le_spans();
    lemma_le_value_of_bytes(FORMAT_VERSION as nat, 4);
    lemma_le_value_of_bytes(HEADER_LEN as nat, 4);
    lemma_le_value_of_bytes(m.context_len as nat, 4);
    lemma_le_value_of_bytes(m.hidden_channels as nat, 4);
    lemma_le_value_of_bytes(m.carry_channels as nat, 4);
    lemma_le_value_of_bytes(m.height as nat, 4);
    lemma_le_value_of_bytes(m.width as nat, 4);
    lemma_le_value_of_bytes(m.h.len(), 8);
    lemma_le_value_of_bytes(m.c.len(), 8);
    lemma_le_value_of_bytes(m.carry.len(), 8);
    law_scene_identity_round_trips(m.scene);
}

/// Decoding an encoded record gives it back, whatever bytes follow it.
pub proof fn law_decode_undoes_encode(m: RecordModel, rest: Seq<u8>)
    requires
        m.wf(),
    ensures
        decoded(m.encoded()) == Ok::<RecordModel, ErrorModel>(m),
        decoded(m.encoded() + rest) == Ok::<RecordModel, ErrorModel>(m),
{
    assert(m.encoded() + Seq::<u8>::empty() =~= m.encoded());
    lemma_decode_of_encoded(m, Seq::empty());
    lemma_decode_of_encoded(m, rest);
}

/// Decoding an encoded record that more bytes follow.
proof fn lemma_decode_of_encoded(m: RecordModel, rest: Seq<u8>)
    requires
        m.wf(),
    ensures
        decoded(m.encoded() + rest) == Ok::<RecordModel, ErrorModel>(m),
{
    let tail = m.payload() + rest;
    let b = m.header() + tail;
    assert(m.encoded() + rest =~= b);
    lemma_header_fields(m, tail);
    lemma_header_reads_back(m, tail);
    let r = record_in(b, m.scene);
    let (n, k) = (m.h.len() as int, m.carry.len() as int);
    assert(r.h =~= m.h);
    assert(r.c =~= m.c);
    assert(r.carry =~= m.carry);
    assert(r == m);
}

/// Whatever decodes is self-consistent, and its own encoding decodes to it again.
pub proof fn law_decoded_records_are_consistent(b: Seq<u8>)
    ensures
        decoded(b) matches Ok(m) ==> m.wf() && decoded(m.encoded()) == Ok::<
            RecordModel,
            ErrorModel,
        >(m),
{
    if let Ok(m) = decoded(b) {
        law_decode_undoes_encode(m, Seq::empty());
    }
}

/// The three payload lengths that a header declares are sizes of this machine. They are
/// wherever a `usize` has 64 bits.
pub open spec fn lengths_are_sizes(b: Seq<u8>) -> bool {
    &&& le_value(b.subrange(120, 128)) <= usize::MAX
    &&& le_value(b.subrange(128, 136)) <= usize::MAX
    &&& le_value(b.subrange(136, 144)) <= usize::MAX
}

/// Bytes that begin with an encoded record, but for the four reserved bytes of its header.
pub open spec fn begins_with_record(b: Seq<u8>, encoded: Seq<u8>) -> bool {
    &&& encoded.len() <= b.len()
    &&& forall|i: int|
        0 <= i < encoded.len() && !(116 <= i < 120) ==> #[trigger] b[i] == encoded[i]
}

/// What decodes is the encoding of what it decodes to: it begins with exactly those
/// bytes, but for the four that are reserved, which nothing reads. What follows them is
/// not read either: with any other tail the same record comes out.
pub proof fn law_accepted_bytes_are_the_encoding(b: Seq<u8>, tail: Seq<u8>)
    requires
        usize::BITS == 64 || lengths_are_sizes(b),
    ensures
        decoded(b) matches Ok(m) ==> {
            &&& begins_with_record(b, m.encoded())
            &&& decoded(b.take(m.encoded().len() as int) + tail) == Ok::<RecordModel, ErrorModel>(m)
        },
{
    if let Ok(m) = decoded(b) {
        lemma_accepted_header(b, m);
        let n = m.encoded().len() as int;
        let other = b.take(n) + tail;
        assert(other.take(n) =~= b.take(n));
        lemma_tail_is_not_read(b, m, n, other);
    }
}

/// A field of accepted bytes, written again.
proof fn lemma_field_written_again(b: Seq<u8>, at: int)
    requires
        0 <= at,
        at + 4 <= b.len(),
    ensures
        le_bytes(field_u32(b, at) as nat, 4) == b.subrange(at, at + 4),
{
    lemma_le_spans();
    lemma_le_bytes_of_value(b.subrange(at, at + 4));
}

/// A length of accepted bytes, written again.
proof fn lemma_length_written_again(b: Seq<u8>, at: int)
    requires
        0 <= at,
        at + 8 <= b.len(),
        usize::BITS == 64 || le_value(b.subrange(at, at + 8)) <= usize::MAX,
    ensures
        le_bytes(field_size(b, at) as nat, 8) == b.subrange(at, at + 8),
{
    lemma_le_spans();
    lemma_le_bytes_of_value(b.subrange(at, at + 8));
    if usize::BITS == 64 {
        assert(usize::MAX == 0xffff_ffff_ffff_ffff);
    }
}

/// Accepted bytes begin with their record: each field of its header, written again, is
/// the one that is there.
proof fn lemma_accepted_header(b: Seq<u8>, m: RecordModel)
    requires
        decoded(b) == Ok::<RecordModel, ErrorModel>(m),
        usize::BITS == 64 || lengths_are_sizes(b),
    ensures
        m.encoded().len() == HEADER_LEN + m.payload().len(),
        begins_with_record(b, m.encoded()),
{
    lemma_header_fields(m, Seq::empty());
    assert(m.header() + Seq::<u8>::empty() =~= m.header());
    lemma_field_written_again(b, 8);
    lemma_field_written_again(b, 12);
    lemma_field_written_again(b, 96);
    lemma_field_written_again(b, 100);
    lemma_field_written_again(b, 104);
    lemma_field_written_again(b, 108);
    lemma_field_written_again(b, 112);
    lemma_length_written_again(b, 120);
    lemma_length_written_again(b, 128);
    lemma_length_written_again(b, 136);
    law_recorded_field_is_the_written_one(b.subrange(80, 96));
    assert(m.payload() =~= b.subrange(176, HEADER_LEN + m.payload().len()));
    lemma_fields_agree(b, m.header(), m.payload());
}

/// Bytes whose header agrees field by field, and whose payload agrees, begin with the two.
proof fn lemma_fields_agree(b: Seq<u8>, e: Seq<u8>, p: Seq<u8>)
    requires
        e.len() == HEADER_LEN,
        HEADER_LEN + p.len() <= b.len(),
        e.subrange(0, 8) == b.subrange(0, 8),
        e.subrange(8, 12) == b.subrange(8, 12),
        e.subrange(12, 16) == b.subrange(12, 16),
        e.subrange(16, 48) == b.subrange(16, 48),
        e.subrange(48, 80) == b.subrange(48, 80),
        e.subrange(80, 96) == b.subrange(80, 96),
        e.subrange(96, 100) == b.subrange(96, 100),
        e.subrange(100, 104) == b.subrange(100, 104),
        e.subrange(104, 108) == b.subrange(104, 108),
        e.subrange(108, 112) == b.subrange(108, 112),
        e.subrange(112, 116) == b.subrange(112, 116),
        e.subrange(120, 128) == b.subrange(120, 128),
        e.subrange(128, 136) == b.subrange(128, 136),
        e.subrange(136, 144) == b.subrange(136, 144),
        e.subrange(144, 176) == b.subrange(144, 176),
        p == b.subrange(176, HEADER_LEN + p.len()),
    ensures
        begins_with_record(b, e + p),
{
    lemma_part_agrees(b, e, 0, 8);
    lemma_part_agrees(b, e, 8, 12);
    lemma_part_agrees(b, e, 12, 16);
    lemma_part_agrees(b, e, 16, 48);
    lemma_part_agrees(b, e, 48, 80);
    lemma_part_agrees(b, e, 80, 96);
    lemma_part_agrees(b, e, 96, 100);
    lemma_part_agrees(b, e, 100, 104);
    lemma_part_agrees(b, e, 104, 108);
    lemma_part_agrees(b, e, 108, 112);
    lemma_part_agrees(b, e, 112, 116);
    lemma_part_agrees(b, e, 120, 128);
    lemma_part_agrees(b, e, 128, 136);
    lemma_part_agrees(b, e, 136, 144);
    lemma_part_agrees(b, e, 144, 176);
    assert forall|i: int| 0 <= i < (e + p).len() && !(116 <= i < 120) implies #[trigger] b[i] == (e
        + p)[i] by {
        if i >= HEADER_LEN {
            assert(b.subrange(176, HEADER_LEN + p.len())[i - 176] == b[i]);
        }
    }
}

/// Equal parts hold equal bytes.
proof fn lemma_part_agrees(b: Seq<u8>, e: Seq<u8>, from: int, to: int)
    requires
        0 <= from <= to <= b.len(),
        to <= e.len(),
        e.subrange(from, to) == b.subrange(from, to),
    ensures
        forall|i: int| from <= i < to ==> #[trigger] b[i] == e[i],
{
    assert forall|i: int| from <= i < to implies #[trigger] b[i] == e[i] by {
        assert(e.subrange(from, to)[i - from] == e[i]);
        assert(b.subrange(from, to)[i - from] == b[i]);
    }
}

/// Bytes that agree with accepted ones as far as their record goes decode to it too.
proof fn lemma_tail_is_not_read(b: Seq<u8>, m: RecordModel, n: int, other: Seq<u8>)
    requires
        decoded(b) == Ok::<RecordModel, ErrorModel>(m),
        n == HEADER_LEN + m.payload().len(),
        n <= b.len(),
        n <= other.len(),
        other.take(n) == b.take(n),
    ensures
        decoded(other) == Ok::<RecordModel, ErrorModel>(m),
{
    assert forall|from: int, to: int| 0 <= from <= to <= n implies #[trigger] other.subrange(
        from,
        to,
    ) == b.subrange(from, to) by {
        assert forall|i: int| from <= i < to implies other[i] == b[i] by {
            assert(other.take(n)[i] == other[i]);
            assert(b.take(n)[i] == b[i]);
        }
        assert(other.subrange(from, to) =~= b.subrange(from, to));
    }
    assert(payload_fault(other) == payload_fault(b));
    assert(record_in(other, m.scene) == m);
}

/// A payload that was changed under its header is caught whenever its digest
/// differs from the one that the header stores, and the error shows both.
pub proof fn law_tampering_is_caught(m: RecordModel, payload: Seq<u8>)
    requires
        m.wf(),
        payload.len() == m.payload().len(),
        blake3_digest(payload) != m.state_hash,
    ensures
        decoded(m.header() + payload) == Err::<RecordModel, ErrorModel>(
            ErrorModel::StateHashMismatch {
                stored: hex(m.state_hash),
                computed: hex(blake3_digest(payload)),
            },
        ),
{
    let b = m.header() + payload;
    lemma_header_fields(m, payload);
    lemma_header_reads_back(m, payload);
    let r = record_in(b, m.scene);
    assert(r.payload() =~= payload);
}

/// A record that was cut short anywhere is rejected as truncated.
pub proof fn law_truncation_is_caught(m: RecordModel, k: int)
    requires
        m.wf(),
        0 <= k < m.encoded().len() <= usize::MAX,
    ensures
        decoded(m.encoded().take(k)) == Err::<RecordModel, ErrorModel>(
            ErrorModel::Truncated {
                need: if k < HEADER_LEN {
                    HEADER_LEN
                } else {
                    m.encoded().len() as usize
                },
                got: k as usize,
            },
        ),
{
    lemma_header_fields(m, Seq::empty());
    if k >= HEADER_LEN {
        let rest = m.payload().take(k - HEADER_LEN);
        assert(m.encoded().take(k) =~= m.header() + rest);
        lemma_header_reads_back(m, rest);
    }
}

/// Bytes that begin otherwise, or carry another version, are rejected for that
/// reason, whatever else they hold.
pub proof fn law_foreign_bytes_are_rejected(b: Seq<u8>)
    requires
        b.len() >= HEADER_LEN,
    ensures
        b.subrange(0, 8) != MAGIC@ ==> decoded(b) == Err::<RecordModel, ErrorModel>(
            ErrorModel::BadMagic(b.subrange(0, 8)),
        ),
        b.subrange(0, 8) == MAGIC@ && field_u32(b, 8) != FORMAT_VERSION ==> decoded(b) == Err::<
            RecordModel,
            ErrorModel,
        >(ErrorModel::UnsupportedVersion(field_u32(b, 8))),
{
}

/// A self-consistent record of an architecture comes back from its unframed
/// payload and where it came from.
pub proof fn law_raw_payload_round_trips(m: RecordModel, cfg: ModelConfig)
    requires
        m.wf(),
        cfg.hidden_channels == m.hidden_channels,
        cfg.height == m.height,
        cfg.width == m.width,
        m.carry_channels == 2,
    ensures
        m.payload().len() == 2 * raw_tensor_bytes(cfg) + raw_carry_bytes(cfg),
        raw_record(
            m.payload(),
            cfg,
            m.model_weights_hash,
            m.config_hash,
            m.scene,
            m.context_len,
        ) == m,
{
    let (a, y, x) = (cfg.hidden_channels as int, cfg.height as int, cfg.width as int);
    assert(4 * a * (y * x) == 4 * a * y * x) by (nonlinear_arith);
    assert(4 * 2 * (y * x) == 4 * 2 * y * x) by (nonlinear_arith);
    let n = raw_tensor_bytes(cfg);
    let p = m.payload();
    assert(p.subrange(0, n) =~= m.h);
    assert(p.subrange(n, 2 * n) =~= m.c);
    assert(p.subrange(2 * n, p.len() as int) =~= m.carry);
}

/// Where everything stands in an encoded record: the magic `VOLEFLD1`, the format version,
/// the header's own length, the two hashes of where it came from, the scene, the sizes, the
/// lengths of the three tensors and the hash of the state, and behind the header `H`, `C` and
/// the carry.
pub proof fn law_record_layout(m: RecordModel)
    requires
        m.model_weights_hash.len() == 32,
        m.config_hash.len() == 32,
        m.state_hash.len() == 32,
    ensures
        ({
            let b = m.encoded();
            let (h, c, k) = (m.h.len(), m.c.len(), m.carry.len());
            &&& b.len() == 176 + h + c + k
            &&& b.subrange(0, 8) == seq![86u8, 79, 76, 69, 70, 76, 68, 49]
            &&& b.subrange(8, 12) == le_bytes(1, 4)
            &&& b.subrange(12, 16) == le_bytes(176, 4)
            &&& b.subrange(16, 48) == m.model_weights_hash
            &&& b.subrange(48, 80) == m.config_hash
            &&& b.subrange(80, 96) == m.scene.record_bytes()
            &&& b.subrange(96, 100) == le_bytes(m.context_len as nat, 4)
            &&& b.subrange(100, 104) == le_bytes(m.hidden_channels as nat, 4)
            &&& b.subrange(104, 108) == le_bytes(m.carry_channels as nat, 4)
            &&& b.subrange(108, 112) == le_bytes(m.height as nat, 4)
            &&& b.subrange(112, 116) == le_bytes(m.width as nat, 4)
            &&& b.subrange(120, 128) == le_bytes(h, 8)
            &&& b.subrange(128, 136) == le_bytes(c, 8)
            &&& b.subrange(136, 144) == le_bytes(k, 8)
            &&& b.subrange(144, 176) == m.state_hash
            &&& b.skip(176) == m.h + m.c + m.carry
        }),
{
    let p = m.payload();
    lemma_header_fields(m, p);
    lemma_header_len(m);
    assert(m.encoded() == m.header() + p);
    assert((m.header() + p).skip(176) =~= p);
    assert(MAGIC@ =~= seq![86u8, 79, 76, 69, 70, 76, 68, 49]);
}

/// What decodes has tensors of the declared sizes, four bytes for each number, and a stored
/// hash that is that of the three together.
pub proof fn law_decoded_tensors_have_their_sizes(b: Seq<u8>)
    ensures
        decoded(b) matches Ok(m) ==> {
            &&& m.h.len() == 4 * m.hidden_channels * (m.height * m.width)
            &&& m.c.len() == m.h.len()
            &&& m.carry.len() == 4 * m.carry_channels * (m.height * m.width)
            &&& m.state_hash == blake3_digest(m.h + m.c + m.carry)
            &&& b.len() >= 176 + m.h.len() + m.c.len() + m.carry.len()
        },
{
}

/// A header is refused for its first fault: a length that is not its own, and then a scene
/// that is none.
pub proof fn law_header_faults_in_order(b: Seq<u8>)
    requires
        b.len() >= 176,
        b.subrange(0, 8) == MAGIC@,
        le_value(b.subrange(8, 12)) == 1,
    ensures
        le_value(b.subrange(12, 16)) != 176 ==> (decoded(b) matches Err(ErrorModel::BadHeaderLen(l))
            && l == le_value(b.subrange(12, 16))),
        le_value(b.subrange(12, 16)) == 176 && SceneId::recorded(b.subrange(80, 96)) is None ==> (
        decoded(b) matches Err(ErrorModel::UnknownScene(_))),
        le_value(b.subrange(12, 16)) == 176 && (decoded(b) matches Err(ErrorModel::UnknownScene(_)))
            ==> SceneId::recorded(b.subrange(80, 96)) is None,
{
    lemma_le_spans();
    lemma_le_bytes_of_value(b.subrange(8, 12));
    lemma_le_bytes_of_value(b.subrange(12, 16));
}

} // verus!
