//! Frame files: a short header and the exact bytes of every frame.

use vstd::prelude::*;

use crate::bytes::{bytes_equal, le_bytes, le_value, push_bytes, push_u32, read_u32};
use crate::bytes::{lemma_le_bytes_len, lemma_le_spans, lemma_le_value_of_bytes};
use crate::model::floats::law_floats_round_trip;
use crate::model::floats::{bytes_to_floats, f32s_to_le_bytes, floats_to_bytes, le_bytes_to_f32s};
use crate::scene::HW;
use crate::text::{decimal, push_decimal};

verus! {

/// Magic prefix of a frame file: the ASCII bytes of `VOLEFRM1`.
pub const FRAME_MAGIC: [u8; 8] = [86, 79, 76, 69, 70, 82, 77, 49];

/// A list of frames, each a list of bit patterns.
pub open spec fn frame_list(frames: Seq<Vec<u32>>) -> Seq<Seq<u32>> {
    frames.map_values(|f: Vec<u32>| f@)
}

/// Every frame has a number for each pixel.
pub open spec fn full_frames(frames: Seq<Seq<u32>>) -> bool {
    forall|i: int| 0 <= i < frames.len() ==> (#[trigger] frames[i]).len() == HW
}

/// The bytes of all frames, one after the other.
pub open spec fn frames_payload(frames: Seq<Seq<u32>>) -> Seq<u8>
    decreases frames.len(),
{
    if frames.len() == 0 {
        Seq::empty()
    } else {
        frames_payload(frames.drop_last()) + floats_to_bytes(frames.last())
    }
}

/// The header of a frame file: magic, frame count, height and width.
pub open spec fn frames_header(count: nat) -> Seq<u8> {
    FRAME_MAGIC@ + le_bytes((count as u32) as nat, 4) + le_bytes(32, 4) + le_bytes(32, 4)
}

/// A frame file.
pub open spec fn frame_file(frames: Seq<Seq<u32>>) -> Seq<u8> {
    frames_header(frames.len()) + frames_payload(frames)
}

/// The frames that a payload holds, 4096 bytes each.
pub open spec fn payload_frames(payload: Seq<u8>, count: nat) -> Seq<Seq<u32>> {
    Seq::new(count, |i: int| bytes_to_floats(payload.subrange(4096 * i, 4096 * i + 4096)))
}

/// What a frame file decodes to: its frames, or the first thing that is wrong
/// with it.
pub open spec fn decoded_frames(b: Seq<u8>) -> Result<Seq<Seq<u32>>, Seq<char>> {
    let count = le_value(b.subrange(8, 12));
    let hh = le_value(b.subrange(12, 16));
    let ww = le_value(b.subrange(16, 20));
    if b.len() < 20 {
        Err("frame file is "@ + decimal(b.len()) + " bytes, need >= 20"@)
    } else if b.subrange(0, 8) != FRAME_MAGIC@ {
        Err("frame file magic mismatch"@)
    } else if hh != 32 || ww != 32 {
        Err("frame file is "@ + decimal(hh) + "x"@ + decimal(ww) + ", expected 32x32"@)
    } else if b.len() - 20 != count * 4096 {
        Err(
            "frame file payload is "@ + decimal((b.len() - 20) as nat) + " bytes, expected "@
                + decimal(count * 4096),
        )
    } else {
        Ok(payload_frames(b.skip(20), count))
    }
}

/// `magic, frame count, height, width, payload`.
pub fn encode_frames(frames: &[Vec<u32>]) -> (out: Vec<u8>)
    requires
        full_frames(frame_list(frames@)),
    ensures
        out@ == frame_file(frame_list(frames@)),
{
    let ghost all = frame_list(frames@);
    let mut out: Vec<u8> = Vec::new();
    push_bytes(&mut out, FRAME_MAGIC.as_slice());
    push_u32(&mut out, frames.len() as u32);
    push_u32(&mut out, 32);
    push_u32(&mut out, 32);
    let ghost header = out@;
    assert(header =~= frames_header(all.len()));
    let mut i: usize = 0;
    assert(frames_payload(all.take(0)) =~= Seq::<u8>::empty());
    assert(header =~= header + frames_payload(all.take(0)));
    while i < frames.len()
        invariant
            i <= frames@.len(),
            all == frame_list(frames@),
            out@ == header + frames_payload(all.take(i as int)),
        decreases frames@.len() - i,
    {
        let data = f32s_to_le_bytes(frames[i].as_slice());
        push_bytes(&mut out, data.as_slice());
        proof {
            assert(all.take(i + 1).drop_last() =~= all.take(i as int));
            assert(all.take(i + 1).last() == frames@[i as int]@);
            assert(out@ =~= header + frames_payload(all.take(i + 1)));
        }
        i = i + 1;
    }
    assert(all.take(i as int) =~= all);
    out
}

/// Inverse of [`encode_frames`]. Validates magic, dimensions and length.
pub fn decode_frames(bytes: &[u8]) -> (r: Result<Vec<Vec<u32>>, String>)
    ensures
        match r {
            Ok(v) => decoded_frames(bytes@) == Ok::<Seq<Seq<u32>>, Seq<char>>(frame_list(v@)),
            Err(e) => decoded_frames(bytes@) == Err::<Seq<Seq<u32>>, Seq<char>>(e@),
        },
{
    let n: usize = bytes.len();
    if n < 20 {
        let mut e: String = String::new();
        e.append("frame file is ");
        push_decimal(&mut e, n as u64);
        e.append(" bytes, need >= 20");
        assert(e@ =~= "frame file is "@ + decimal(bytes@.len()) + " bytes, need >= 20"@);
        return Err(e);
    }
    if !bytes_equal(vstd::slice::slice_subrange(bytes, 0, 8), FRAME_MAGIC.as_slice()) {
        return Err("frame file magic mismatch".to_owned());
    }
    let count: u32 = read_u32(bytes, 8);
    let hh: u32 = read_u32(bytes, 12);
    let ww: u32 = read_u32(bytes, 16);
    if hh != 32 || ww != 32 {
        let mut e: String = String::new();
        e.append("frame file is ");
        push_decimal(&mut e, hh as u64);
        e.append("x");
        push_decimal(&mut e, ww as u64);
        e.append(", expected 32x32");
        assert(e@ =~= "frame file is "@ + decimal(hh as nat) + "x"@ + decimal(ww as nat)
            + ", expected 32x32"@);
        return Err(e);
    }
    let have: u64 = (n - 20) as u64;
    let want: u64 = count as u64 * 4096;
    if have != want {
        let mut e: String = String::new();
        e.append("frame file payload is ");
        push_decimal(&mut e, have);
        e.append(" bytes, expected ");
        push_decimal(&mut e, want);
        assert(e@ =~= "frame file payload is "@ + decimal(have as nat) + " bytes, expected "@
            + decimal(want as nat));
        return Err(e);
    }
    let ghost payload = bytes@.skip(20);
    let mut out: Vec<Vec<u32>> = Vec::new();
    let mut i: usize = 0;
    while i < count as usize
        invariant
            i <= count,
            n == bytes@.len() == 20 + count * 4096,
            payload == bytes@.skip(20),
            out@.len() == i,
            forall|j: int|
                0 <= j < i ==> (#[trigger] out@[j])@ == payload_frames(payload, count as nat)[j],
        decreases count - i,
    {
        let from: usize = 20 + i * 4096;
        let part: &[u8] = vstd::slice::slice_subrange(bytes, from, from + 4096);
        assert(part@ =~= payload.subrange(4096 * i, 4096 * i + 4096));
        match le_bytes_to_f32s(part) {
            Ok(f) => {
                out.push(f);
            },
            Err(_) => {
                assert(false);
            },
        }
        i = i + 1;
    }
    assert(frame_list(out@) =~= payload_frames(payload, count as nat));
    Ok(out)
}

/// What identifies a frame file: its payload, without the header.
pub open spec fn payload_of(b: Seq<u8>) -> Seq<u8> {
    if b.len() < 20 {
        Seq::empty()
    } else {
        b.skip(20)
    }
}

/// The bytes that identify a frame sequence: the payload, without the header.
pub fn frame_payload(bytes: &[u8]) -> (r: &[u8])
    ensures
        r@ == payload_of(bytes@),
{
    let from: usize = if bytes.len() < 20 {
        bytes.len()
    } else {
        20
    };
    let r = vstd::slice::slice_subrange(bytes, from, bytes.len());
    assert(r@ =~= payload_of(bytes@));
    r
}

/// A payload holds 4096 bytes per frame, and each frame at its place.
proof fn lemma_payload(frames: Seq<Seq<u32>>, i: int)
    requires
        full_frames(frames),
        0 <= i <= frames.len(),
    ensures
        frames_payload(frames).len() == 4096 * frames.len(),
        i < frames.len() ==> frames_payload(frames).subrange(4096 * i, 4096 * i + 4096)
            == floats_to_bytes(frames[i]),
    decreases frames.len(),
{
    if frames.len() > 0 {
        let front = frames.drop_last();
        assert(full_frames(front)) by {
            assert forall|j: int| 0 <= j < front.len() implies (#[trigger] front[j]).len() == HW by {
                assert(frames[j].len() == HW);
            }
        }
        assert(frames[frames.len() - 1].len() == HW);
        lemma_payload(front, if i < front.len() {
            i
        } else {
            0
        });
        let p = frames_payload(frames);
        if i < front.len() {
            assert(p.subrange(4096 * i, 4096 * i + 4096) =~= frames_payload(front).subrange(
                4096 * i,
                4096 * i + 4096,
            ));
        } else if i < frames.len() {
            assert(p.subrange(4096 * i, 4096 * i + 4096) =~= floats_to_bytes(frames[i]));
        }
    }
}

/// The payload that identifies a frame file is that of its frames.
pub proof fn lemma_payload_of_file(frames: Seq<Seq<u32>>)
    ensures
        payload_of(frame_file(frames)) == frames_payload(frames),
{
    lemma_le_bytes_len((frames.len() as u32) as nat, 4);
    lemma_le_bytes_len(32, 4);
    assert(frame_file(frames).skip(20) =~= frames_payload(frames));
}

/// Frames come back from their file, bit for bit, and the payload that identifies
/// them is that of the frames alone.
pub proof fn law_frames_round_trip(frames: Seq<Seq<u32>>)
    requires
        full_frames(frames),
        frames.len() <= u32::MAX,
    ensures
        decoded_frames(frame_file(frames)) == Ok::<Seq<Seq<u32>>, Seq<char>>(frames),
        payload_of(frame_file(frames)) == frames_payload(frames),
{
    let b = frame_file(frames);
    let n = frames.len();
    lemma_le_spans();
    lemma_le_bytes_len(n, 4);
    lemma_le_bytes_len(32, 4);
    lemma_le_value_of_bytes(n, 4);
    lemma_le_value_of_bytes(32, 4);
    lemma_payload(frames, 0);
    assert(b.subrange(0, 8) =~= FRAME_MAGIC@);
    assert(b.subrange(8, 12) =~= le_bytes(n, 4));
    assert(b.subrange(12, 16) =~= le_bytes(32, 4));
    assert(b.subrange(16, 20) =~= le_bytes(32, 4));
    assert(b.skip(20) =~= frames_payload(frames));
    let got = payload_frames(b.skip(20), n);
    assert forall|i: int| 0 <= i < n implies got[i] == frames[i] by {
        lemma_payload(frames, i);
        law_floats_round_trip(frames[i]);
    }
    assert(got =~= frames);
}

/// How frames stand in a file: a header of twenty bytes with a magic, how many they are and
/// their two sizes, and then every frame, pixel by pixel, four bytes each.
pub proof fn law_frame_file_layout(frames: Seq<Seq<u32>>, i: int, p: int)
    requires
        full_frames(frames),
        frames.len() <= u32::MAX,
        0 <= i < frames.len(),
        0 <= p < 1024,
    ensures
        ({
            let b = frame_file(frames);
            let at = 20 + 4096 * i + 4 * p;
            &&& b.len() == 20 + 4096 * frames.len()
            &&& b.subrange(0, 8) == seq![86u8, 79, 76, 69, 70, 82, 77, 49]
            &&& b.subrange(8, 12) == le_bytes(frames.len(), 4)
            &&& b.subrange(12, 16) == le_bytes(32, 4)
            &&& b.subrange(16, 20) == le_bytes(32, 4)
            &&& b[at] == frames[i][p] % 256
            &&& b[at + 1] == frames[i][p] / 0x100 % 256
            &&& b[at + 2] == frames[i][p] / 0x1_0000 % 256
            &&& b[at + 3] == frames[i][p] / 0x100_0000 % 256
        }),
{
    law_frames_round_trip(frames);
    let b = frame_file(frames);
    let payload = frames_payload(frames);
    crate::bytes::lemma_le_bytes_len(frames.len(), 4);
    crate::bytes::lemma_le_bytes_len(32, 4);
    lemma_payload_len(frames);
    assert(b.subrange(0, 8) =~= seq![86u8, 79, 76, 69, 70, 82, 77, 49]);
    assert(b.subrange(8, 12) =~= le_bytes(frames.len(), 4));
    assert(b.subrange(12, 16) =~= le_bytes(32, 4));
    assert(b.subrange(16, 20) =~= le_bytes(32, 4));
    assert(b.skip(20) =~= payload);
    let part = payload.subrange(4096 * i, 4096 * i + 4096);
    assert(payload_frames(b.skip(20), frames.len())[i] == frames[i]);
    assert(bytes_to_floats(part) == frames[i]);
    crate::model::floats::law_float_bytes_round_trip(part);
    crate::model::floats::law_floats_stand_in_order(frames[i], p);
    assert(part[4 * p] == payload[4096 * i + 4 * p]);
    assert(part[4 * p + 1] == payload[4096 * i + 4 * p + 1]);
    assert(part[4 * p + 2] == payload[4096 * i + 4 * p + 2]);
    assert(part[4 * p + 3] == payload[4096 * i + 4 * p + 3]);
    let at = 20 + 4096 * i + 4 * p;
    assert(b.skip(20)[at - 20] == b[at]);
    assert(b.skip(20)[at - 19] == b[at + 1]);
    assert(b.skip(20)[at - 18] == b[at + 2]);
    assert(b.skip(20)[at - 17] == b[at + 3]);
}

/// Every frame of the scene takes 4096 bytes.
proof fn lemma_payload_len(frames: Seq<Seq<u32>>)
    requires
        full_frames(frames),
    ensures
        frames_payload(frames).len() == 4096 * frames.len(),
    decreases frames.len(),
{
    if frames.len() > 0 {
        let front = frames.drop_last();
        assert forall|i: int| 0 <= i < front.len() implies (#[trigger] front[i]).len() == HW by {
            assert(front[i] == frames[i]);
        }
        lemma_payload_len(front);
        assert(frames[frames.len() - 1].len() == HW);
    }
}

/// Bytes are a frame file exactly when they have a header, its magic, the sizes of the scene,
/// and as many bytes behind it as the frames that it declares.
pub proof fn law_frame_files_are_checked(b: Seq<u8>)
    ensures
        decoded_frames(b) is Ok <==> {
            &&& b.len() >= 20
            &&& b.subrange(0, 8) == FRAME_MAGIC@
            &&& le_value(b.subrange(12, 16)) == 32
            &&& le_value(b.subrange(16, 20)) == 32
            &&& b.len() == 20 + 4096 * le_value(b.subrange(8, 12))
        },
        decoded_frames(b) matches Ok(v) ==> v.len() == le_value(b.subrange(8, 12)),
        b.len() >= 20 ==> payload_of(b) == b.subrange(20, b.len() as int),
        b.len() < 20 ==> payload_of(b).len() == 0,
{
    if b.len() >= 20 {
        assert(b.skip(20) =~= b.subrange(20, b.len() as int));
    }
}

} // verus!
