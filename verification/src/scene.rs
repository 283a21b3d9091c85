//! Scene identity, discrete controls and the control programs of requests.
//!
//! Real numbers appear here only as `binary32` bit patterns. The field is a
//! 32 by 32 frame; a control word holds a steering and a throttle setting, each
//! of them `-1`, `0` or `+1`.

use vstd::prelude::*;

use crate::bytes::bytes_equal;
use crate::text::same_text;

verus! {

/// Field height in pixels.
pub const H: usize = 32;

/// Field width in pixels.
pub const W: usize = 32;

/// Pixels per frame.
pub const HW: usize = 1024;

/// Width, in bytes, of a scene identity inside a state record.
pub const SCENE_ID_BYTES: usize = 16;

/// Rotation per unit of `turn`, in radians: the bits of `0.18`.
pub const TURN_ANGLE: u32 = 0x3e38_51ec;

/// The bits of the cosine of the turn angle.
pub const TURN_COS: u32 = 0x3f7b_dd2e;

/// The bits of the sine of the turn angle.
pub const TURN_SIN: u32 = 0x3e37_5388;

/// Speed in pixels per frame under a zero throttle: the bits of `0.55`.
pub const SPEED_BASE: u32 = 0x3f0c_cccd;

/// Fractional speed change per unit of `accel`: the bits of `0.28`.
pub const ACCEL_STEP: u32 = 0x3e8f_5c29;

/// Slowest permitted speed: the bits of `0.32`.
pub const SPEED_MIN: u32 = 0x3ea3_d70a;

/// Fastest permitted speed: the bits of `0.78`.
pub const SPEED_MAX: u32 = 0x3f47_ae14;

/// Semi-axis of the body along its heading, in pixels: the bits of `5.6`.
pub const RADIUS_ALONG: u32 = 0x40b3_3333;

/// Semi-axis of the body across its heading, in pixels: the bits of `2.4`.
pub const RADIUS_ACROSS: u32 = 0x4019_999a;

/// Distance from a wall at which a body reflects: the bits of `7.0`.
pub const WALL_MARGIN: u32 = 0x40e0_0000;

/// The bits of `1.0`.
pub const ONE_BITS: u32 = 0x3f80_0000;

// ---------------------------------------------------------------------------
// Control
// ---------------------------------------------------------------------------

/// One discrete control word.
#[derive(Debug, Clone, Copy, PartialEq, Eq, Hash, Structural)]
pub struct Control {
    /// Steering: `-1`, `0` or `+1`.
    pub turn: i8,
    /// Throttle: `-1`, `0` or `+1`.
    pub accel: i8,
}

/// The bit pattern of a magnitude up to 128: the exponent is that of the power of two below
/// it, and the fraction is what is left.
pub open spec fn magnitude_bits(m: int) -> u32 {
    (if m < 1 {
        0
    } else if m < 2 {
        0x3f80_0000
    } else if m < 4 {
        0x4000_0000 + (m - 2) * 0x40_0000
    } else if m < 8 {
        0x4080_0000 + (m - 4) * 0x20_0000
    } else if m < 16 {
        0x4100_0000 + (m - 8) * 0x10_0000
    } else if m < 32 {
        0x4180_0000 + (m - 16) * 0x8_0000
    } else if m < 64 {
        0x4200_0000 + (m - 32) * 0x4_0000
    } else if m < 128 {
        0x4280_0000 + (m - 64) * 0x2_0000
    } else {
        0x4300_0000
    }) as u32
}

/// The bit pattern of a setting as a number.
pub open spec fn setting_bits(v: i8) -> u32 {
    if v < 0 {
        (0x8000_0000 + magnitude_bits(-v)) as u32
    } else {
        magnitude_bits(v as int)
    }
}

/// Executable [`setting_bits`].
fn bits_of_setting(v: i8) -> (r: u32)
    ensures
        r == setting_bits(v),
{
    let m: u32 = if v < 0 {
        (-(v as i32)) as u32
    } else {
        v as u32
    };
    let bits: u32 = if m < 1 {
        0
    } else if m < 2 {
        0x3f80_0000
    } else if m < 4 {
        0x4000_0000 + (m - 2) * 0x40_0000
    } else if m < 8 {
        0x4080_0000 + (m - 4) * 0x20_0000
    } else if m < 16 {
        0x4100_0000 + (m - 8) * 0x10_0000
    } else if m < 32 {
        0x4180_0000 + (m - 16) * 0x8_0000
    } else if m < 64 {
        0x4200_0000 + (m - 32) * 0x4_0000
    } else if m < 128 {
        0x4280_0000 + (m - 64) * 0x2_0000
    } else {
        0x4300_0000
    };
    if v < 0 {
        0x8000_0000 + bits
    } else {
        bits
    }
}

/// The powers of two that scale a significand.
proof fn lemma_significand_scales()
    ensures
        two_to(16) == 0x1_0000,
        two_to(17) == 0x2_0000,
        two_to(18) == 0x4_0000,
        two_to(19) == 0x8_0000,
        two_to(20) == 0x10_0000,
        two_to(21) == 0x20_0000,
        two_to(22) == 0x40_0000,
        two_to(23) == 0x80_0000,
{
    reveal_with_fuel(two_to, 25);
}

/// A setting's bit pattern denotes the setting: the sign is its sign, and the significand,
/// shifted by the exponent, is its magnitude.
pub proof fn law_setting_bits_denote_the_setting(v: i8)
    ensures
        ({
            let bits = setting_bits(v) as int;
            let magnitude = if v < 0 {
                -(v as int)
            } else {
                v as int
            };
            let exponent = bits % 0x8000_0000 / 0x80_0000;
            &&& (bits >= 0x8000_0000) == (v < 0)
            &&& v == 0 ==> bits == 0
            &&& v != 0 ==> {
                &&& 127 <= exponent <= 134
                &&& 0x80_0000 + bits % 0x80_0000 == magnitude * two_to((150 - exponent) as nat)
            }
        }),
{
    lemma_significand_scales();
    let magnitude = if v < 0 {
        -(v as int)
    } else {
        v as int
    };
    if magnitude < 1 {
    } else if magnitude < 2 {
        assert(magnitude * two_to(23) == magnitude * 0x80_0000);
    } else if magnitude < 4 {
        assert(magnitude * two_to(22) == magnitude * 0x40_0000);
    } else if magnitude < 8 {
        assert(magnitude * two_to(21) == magnitude * 0x20_0000);
    } else if magnitude < 16 {
        assert(magnitude * two_to(20) == magnitude * 0x10_0000);
    } else if magnitude < 32 {
        assert(magnitude * two_to(19) == magnitude * 0x8_0000);
    } else if magnitude < 64 {
        assert(magnitude * two_to(18) == magnitude * 0x4_0000);
    } else if magnitude < 128 {
        assert(magnitude * two_to(17) == magnitude * 0x2_0000);
    } else {
        assert(magnitude * two_to(16) == magnitude * 0x1_0000);
    }
}

impl Control {
    /// No steering, no throttle change.
    pub open spec fn spec_none() -> Control {
        Control { turn: 0, accel: 0 }
    }

    /// No steering, no throttle change.
    #[verifier::when_used_as_spec(spec_none)]
    pub fn none() -> (r: Control)
        ensures
            r == Control::spec_none(),
    {
        Control { turn: 0, accel: 0 }
    }

    /// Both settings lie in the discrete domain.
    pub open spec fn discrete(self) -> bool {
        -1 <= self.turn <= 1 && -1 <= self.accel <= 1
    }

    /// The dense code of a discrete control word.
    pub open spec fn spec_code(self) -> int {
        (self.turn + 1) * 3 + (self.accel + 1)
    }

    /// A control word from raw settings, which must be discrete.
    pub fn new(turn: i8, accel: i8) -> (r: Control)
        requires
            -1 <= turn <= 1,
            -1 <= accel <= 1,
        ensures
            r == (Control { turn, accel }),
            r.discrete(),
    {
        Control { turn, accel }
    }

    /// The values of the two constant input planes, `[turn, accel]`, as bits.
    pub fn planes(&self) -> (r: [u32; 2])
        ensures
            r@ == seq![setting_bits(self.turn), setting_bits(self.accel)],
    {
        let r: [u32; 2] = [bits_of_setting(self.turn), bits_of_setting(self.accel)];
        assert(r@ =~= seq![setting_bits(self.turn), setting_bits(self.accel)]);
        r
    }

    /// Dense code in `0..9`.
    pub fn code(&self) -> (r: u8)
        requires
            self.discrete(),
        ensures
            r == self.spec_code(),
            r < 9,
    {
        ((self.turn + 1) * 3 + (self.accel + 1)) as u8
    }
}

/// The dense code tells discrete control words apart, and takes the values
/// below nine.
pub proof fn law_codes_are_dense(a: Control, b: Control)
    requires
        a.discrete(),
        b.discrete(),
    ensures
        0 <= a.spec_code() < 9,
        a.spec_code() == b.spec_code() ==> a == b,
{
}

// ---------------------------------------------------------------------------
// Scene identity
// ---------------------------------------------------------------------------

/// The closed set of scene identities.
#[derive(Debug, Clone, Copy, PartialEq, Eq, Hash, Structural)]
pub enum SceneId {
    /// `moving-shape-01`: one blob on a gentle S-curve, the canonical scene.
    MovingShape01,
    /// `moving-shape-02`: two blobs on crossing paths, an unrelated scene.
    MovingShape02,
}

/// A byte string up to, and without, its first NUL.
pub open spec fn before_nul(s: Seq<u8>) -> Seq<u8>
    decreases s.len(),
{
    if s.len() == 0 || s[0] == 0 {
        Seq::empty()
    } else {
        seq![s[0]] + before_nul(s.drop_first())
    }
}

/// `s` followed by NULs, as far as `width` bytes.
pub open spec fn nul_padded(s: Seq<u8>, width: nat) -> Seq<u8> {
    Seq::new(
        width,
        |i: int|
            if i < s.len() {
                s[i]
            } else {
                0u8
            },
    )
}

/// A byte string without NULs comes back from its padding.
pub proof fn lemma_padding_is_undone(s: Seq<u8>, width: nat)
    requires
        s.len() <= width,
        forall|i: int| 0 <= i < s.len() ==> s[i] != 0,
    ensures
        before_nul(nul_padded(s, width)) == s,
    decreases s.len(),
{
    let p = nul_padded(s, width);
    if s.len() > 0 {
        assert(p.drop_first() =~= nul_padded(s.drop_first(), (width - 1) as nat));
        lemma_padding_is_undone(s.drop_first(), (width - 1) as nat);
        assert(s =~= seq![s[0]] + s.drop_first());
    }
}

/// How the prefix before the first NUL sits in the whole.
proof fn lemma_before_nul_is(s: Seq<u8>, end: int)
    requires
        0 <= end <= s.len(),
        forall|i: int| 0 <= i < end ==> s[i] != 0,
        end < s.len() ==> s[end] == 0,
    ensures
        before_nul(s) == s.take(end),
    decreases s.len(),
{
    if end > 0 {
        lemma_before_nul_is(s.drop_first(), end - 1);
        assert(s.take(end) =~= seq![s[0]] + s.drop_first().take(end - 1));
    } else {
        assert(s.take(0) =~= Seq::<u8>::empty());
    }
}

impl SceneId {
    /// The identity text.
    pub open spec fn text(self) -> Seq<char> {
        match self {
            SceneId::MovingShape01 => "moving-shape-01"@,
            SceneId::MovingShape02 => "moving-shape-02"@,
        }
    }

    /// The one-line description.
    pub open spec fn label_text(self) -> Seq<char> {
        match self {
            SceneId::MovingShape01 => "one blob, gentle S-curve, canonical"@,
            SceneId::MovingShape02 => "two blobs, crossing paths, unrelated"@,
        }
    }

    /// The ASCII bytes of the identity text.
    pub open spec fn text_bytes(self) -> Seq<u8> {
        vstd::utf8::encode_utf8(self.text())
    }

    /// The identity that a text names, by exact match.
    pub open spec fn named(s: Seq<char>) -> Option<SceneId> {
        if s == SceneId::MovingShape01.text() {
            Some(SceneId::MovingShape01)
        } else if s == SceneId::MovingShape02.text() {
            Some(SceneId::MovingShape02)
        } else {
            None
        }
    }

    /// The identity as a record field: its bytes, padded with NULs.
    pub open spec fn record_bytes(self) -> Seq<u8> {
        nul_padded(self.text_bytes(), SCENE_ID_BYTES as nat)
    }

    /// The identity that a record field carries: the field has the right width,
    /// and what precedes its first NUL is the identity's own text.
    pub open spec fn recorded(field: Seq<u8>) -> Option<SceneId> {
        if field.len() != SCENE_ID_BYTES {
            None
        } else if before_nul(field) == SceneId::MovingShape01.text_bytes() {
            Some(SceneId::MovingShape01)
        } else if before_nul(field) == SceneId::MovingShape02.text_bytes() {
            Some(SceneId::MovingShape02)
        } else {
            None
        }
    }

    /// The two texts are fifteen ASCII characters, none of them NUL, and differ.
    pub proof fn lemma_texts(self)
        ensures
            self.text().len() == 15,
            self.text_bytes().len() == 15,
            forall|i: int|
                0 <= i < 15 ==> #[trigger] self.text_bytes()[i] == self.text()[i] as u8,
            forall|i: int| 0 <= i < 15 ==> #[trigger] self.text_bytes()[i] != 0,
            SceneId::MovingShape01.text() != SceneId::MovingShape02.text(),
            SceneId::MovingShape01.text_bytes() != SceneId::MovingShape02.text_bytes(),
    {
        reveal_strlit("moving-shape-01");
        reveal_strlit("moving-shape-02");
        let a = SceneId::MovingShape01.text();
        let b = SceneId::MovingShape02.text();
        assert(vstd::utf8::is_ascii_chars(a));
        assert(vstd::utf8::is_ascii_chars(b));
        vstd::utf8::is_ascii_chars_encode_utf8(a);
        vstd::utf8::is_ascii_chars_encode_utf8(b);
        assert(a[14] != b[14]);
        vstd::utf8::encode_utf8_decode_utf8(a);
        vstd::utf8::encode_utf8_decode_utf8(b);
        assert forall|i: int| 0 <= i < 15 implies #[trigger] self.text_bytes()[i] == self.text()[i] as u8 by {
            assert(self.text()[i] as u8 == self.text_bytes()[i]);
        }
    }

    /// The fifteen-character identity string.
    pub fn as_str(&self) -> (r: &'static str)
        ensures
            r@ == self.text(),
    {
        match self {
            SceneId::MovingShape01 => "moving-shape-01",
            SceneId::MovingShape02 => "moving-shape-02",
        }
    }

    /// The identity with exactly this text.
    pub fn parse(s: &str) -> (r: Option<SceneId>)
        ensures
            r == SceneId::named(s@),
    {
        if same_text(s, "moving-shape-01") {
            Some(SceneId::MovingShape01)
        } else if same_text(s, "moving-shape-02") {
            Some(SceneId::MovingShape02)
        } else {
            None
        }
    }

    /// The identity as fixed-width NUL-padded bytes.
    pub fn to_record_bytes(&self) -> (r: [u8; SCENE_ID_BYTES])
        ensures
            r@ == self.record_bytes(),
    {
        let mut out: [u8; SCENE_ID_BYTES] = [0u8; SCENE_ID_BYTES];
        let s: &[u8] = self.as_str().as_bytes();
        proof {
            self.lemma_texts();
        }
        let mut i: usize = 0;
        while i < s.len()
            invariant
                i <= s@.len() == 15,
                s@ == self.text_bytes(),
                forall|j: int| 0 <= j < i ==> out@[j] == s@[j],
                forall|j: int| i <= j < 16 ==> out@[j] == 0,
            decreases s@.len() - i,
        {
            out[i] = s[i];
            i = i + 1;
        }
        assert(out@ =~= self.record_bytes());
        out
    }

    /// The identity that fixed-width NUL-padded bytes carry.
    pub fn from_record_bytes(bytes: &[u8]) -> (r: Option<SceneId>)
        ensures
            r == SceneId::recorded(bytes@),
    {
        if bytes.len() != SCENE_ID_BYTES {
            return None;
        }
        let mut end: usize = 0;
        while end < SCENE_ID_BYTES && bytes[end] != 0
            invariant
                end <= SCENE_ID_BYTES == bytes@.len(),
                forall|j: int| 0 <= j < end ==> bytes@[j] != 0,
            ensures
                end <= SCENE_ID_BYTES,
                end < SCENE_ID_BYTES ==> bytes@[end as int] == 0,
                forall|j: int| 0 <= j < end ==> bytes@[j] != 0,
            decreases SCENE_ID_BYTES - end,
        {
            end = end + 1;
        }
        proof {
            lemma_before_nul_is(bytes@, end as int);
            assert(bytes@.subrange(0, end as int) =~= bytes@.take(end as int));
        }
        let text: &[u8] = vstd::slice::slice_subrange(bytes, 0, end);
        if bytes_equal(text, SceneId::MovingShape01.as_str().as_bytes()) {
            Some(SceneId::MovingShape01)
        } else if bytes_equal(text, SceneId::MovingShape02.as_str().as_bytes()) {
            Some(SceneId::MovingShape02)
        } else {
            None
        }
    }

    /// A one-line description.
    pub fn label(&self) -> (r: &'static str)
        ensures
            r@ == self.label_text(),
    {
        match self {
            SceneId::MovingShape01 => "one blob, gentle S-curve, canonical",
            SceneId::MovingShape02 => "two blobs, crossing paths, unrelated",
        }
    }

    /// The most bodies that any scene holds.
    pub const MAX_BODIES: usize = 2;
}

/// A scene identity survives its text and its record field.
pub proof fn law_scene_identity_round_trips(id: SceneId)
    ensures
        SceneId::named(id.text()) == Some(id),
        id.record_bytes().len() == SCENE_ID_BYTES,
        SceneId::recorded(id.record_bytes()) == Some(id),
{
    id.lemma_texts();
    lemma_padding_is_undone(id.text_bytes(), SCENE_ID_BYTES as nat);
}

/// A field that carries an identity is that identity's own field, byte for byte: the
/// texts leave room for one NUL.
pub proof fn law_recorded_field_is_the_written_one(field: Seq<u8>)
    ensures
        SceneId::recorded(field) matches Some(id) ==> field == id.record_bytes(),
{
    if let Some(id) = SceneId::recorded(field) {
        id.lemma_texts();
        lemma_before_nul(field);
        assert(field =~= id.record_bytes());
    }
}

/// What precedes the first NUL of a field is its beginning, and a NUL ends it.
proof fn lemma_before_nul(field: Seq<u8>)
    ensures
        before_nul(field).len() <= field.len(),
        forall|i: int|
            0 <= i < before_nul(field).len() ==> #[trigger] before_nul(field)[i] == field[i],
        before_nul(field).len() < field.len() ==> field[before_nul(field).len() as int] == 0,
    decreases field.len(),
{
    if field.len() > 0 && field[0] != 0 {
        lemma_before_nul(field.drop_first());
        let rest = before_nul(field.drop_first());
        assert forall|i: int| 0 <= i < before_nul(field).len() implies #[trigger] before_nul(
            field,
        )[i] == field[i] by {
            if i > 0 {
                assert(before_nul(field)[i] == rest[i - 1]);
            }
        }
    }
}

/// A field of NULs carries no identity.
pub proof fn law_blank_field_names_no_scene(field: Seq<u8>)
    requires
        field.len() > 0 ==> field[0] == 0,
    ensures
        SceneId::recorded(field) is None,
{
    SceneId::MovingShape01.lemma_texts();
    SceneId::MovingShape02.lemma_texts();
    assert(before_nul(field).len() == 0);
}

// ---------------------------------------------------------------------------
// Model input
// ---------------------------------------------------------------------------

/// A frame followed by the two constant control planes of `u`, each as large as
/// the frame.
pub open spec fn input_planes(f: Seq<u32>, u: Control) -> Seq<u32> {
    Seq::new(
        f.len() + 2 * HW as nat,
        |i: int|
            if i < f.len() {
                f[i]
            } else if i < f.len() + HW {
                setting_bits(u.turn)
            } else {
                setting_bits(u.accel)
            },
    )
}

/// The model's input layout for frame `f` under control `u`: the frame's bits,
/// then the `turn` plane, then the `accel` plane.
pub fn model_input(f: &[u32], u: Control) -> (out: Vec<u32>)
    requires
        f@.len() == HW,
    ensures
        out@ == input_planes(f@, u),
{
    let mut out: Vec<u32> = Vec::with_capacity(3 * HW);
    out.extend_from_slice(f);
    assert(out@ =~= f@);
    let planes: [u32; 2] = u.planes();
    let mut i: usize = 0;
    while i < 2 * HW
        invariant
            i <= 2 * HW,
            f@.len() == HW,
            planes@ == seq![setting_bits(u.turn), setting_bits(u.accel)],
            out@ == input_planes(f@, u).take(HW + i),
        decreases 2 * HW - i,
    {
        out.push(
            if i < HW {
                planes[0]
            } else {
                planes[1]
            },
        );
        assert(out@ =~= input_planes(f@, u).take(HW + i + 1));
        i = i + 1;
    }
    assert(out@ =~= input_planes(f@, u));
    out
}

// ---------------------------------------------------------------------------
// Control schedules
// ---------------------------------------------------------------------------

/// A finite list of control words, held on the last word past the end.
#[derive(Debug, Clone, PartialEq)]
pub struct Schedule {
    /// Control held at each step, in order.
    pub steps: Vec<Control>,
}

/// The control that a list of words holds at step `t`.
pub open spec fn control_at(steps: Seq<Control>, t: int) -> Control {
    if steps.len() == 0 {
        Control::spec_none()
    } else if t < steps.len() {
        steps[t]
    } else {
        steps.last()
    }
}

/// The control that segments give step `t`: that of the last listed segment
/// that has begun by then.
pub open spec fn segment_control(segs: Seq<(usize, Control)>, t: int) -> Control
    decreases segs.len(),
{
    if segs.len() == 0 {
        Control::spec_none()
    } else if segs.last().0 <= t {
        segs.last().1
    } else {
        segment_control(segs.drop_last(), t)
    }
}

/// Whether every word of a list is discrete.
pub open spec fn all_discrete(steps: Seq<Control>) -> bool {
    forall|i: int| 0 <= i < steps.len() ==> (#[trigger] steps[i]).discrete()
}

impl View for Schedule {
    type V = Seq<Control>;

    open spec fn view(&self) -> Seq<Control> {
        self.steps@
    }
}

impl Schedule {
    /// The control held at step `t`, clamped to the final word.
    pub fn at(&self, t: usize) -> (r: Control)
        ensures
            r == control_at(self@, t as int),
    {
        if self.steps.is_empty() {
            Control::none()
        } else if t < self.steps.len() {
            self.steps[t]
        } else {
            self.steps[self.steps.len() - 1]
        }
    }

    /// Hold one control word forever.
    pub fn constant(u: Control) -> (r: Schedule)
        ensures
            r@ == seq![u],
    {
        let mut steps: Vec<Control> = Vec::new();
        steps.push(u);
        let r = Schedule { steps };
        assert(r@ =~= seq![u]);
        r
    }

    /// Build from `(step_from, control)` segments, covering `0..len`.
    pub fn segments(len: usize, segs: &[(usize, Control)]) -> (r: Schedule)
        ensures
            r@ == Seq::new(len as nat, |t: int| segment_control(segs@, t)),
    {
        let mut steps: Vec<Control> = Vec::with_capacity(len);
        let mut t: usize = 0;
        while t < len
            invariant
                t <= len,
                steps@ == Seq::new(t as nat, |i: int| segment_control(segs@, i)),
            decreases len - t,
        {
            let mut chosen: Control = Control::none();
            let mut k: usize = 0;
            assert(segs@.take(0) =~= Seq::<(usize, Control)>::empty());
            while k < segs.len()
                invariant
                    k <= segs@.len(),
                    chosen == segment_control(segs@.take(k as int), t as int),
                decreases segs@.len() - k,
            {
                if t >= segs[k].0 {
                    chosen = segs[k].1;
                }
                assert(segs@.take(k + 1).drop_last() =~= segs@.take(k as int));
                assert(segs@.take(k + 1).last() == segs@[k as int]);
                k = k + 1;
            }
            assert(segs@.take(k as int) =~= segs@);
            steps.push(chosen);
            t = t + 1;
            assert(steps@ =~= Seq::new(t as nat, |i: int| segment_control(segs@, i)));
        }
        Schedule { steps }
    }

    /// One dense code per step.
    pub fn codes(&self) -> (r: Vec<u8>)
        requires
            all_discrete(self@),
        ensures
            r@ == self@.map_values(|u: Control| u.spec_code() as u8),
    {
        let mut out: Vec<u8> = Vec::with_capacity(self.steps.len());
        let mut i: usize = 0;
        while i < self.steps.len()
            invariant
                i <= self.steps@.len(),
                all_discrete(self@),
                out@ == self@.take(i as int).map_values(|u: Control| u.spec_code() as u8),
            decreases self.steps@.len() - i,
        {
            out.push(self.steps[i].code());
            assert(out@ =~= self@.take(i + 1).map_values(|u: Control| u.spec_code() as u8));
            i = i + 1;
        }
        assert(self@.take(i as int) =~= self@);
        out
    }
}

/// Past its end a schedule holds its last word; a one-word schedule is constant.
pub proof fn law_schedule_holds_its_last_word(steps: Seq<Control>, t: int, later: int)
    requires
        steps.len() > 0,
        steps.len() - 1 <= t <= later,
    ensures
        control_at(steps, later) == control_at(steps, t),
        control_at(steps, t) == steps.last(),
{
}

/// The control word with these settings.
pub open spec fn word(turn: int, accel: int) -> Control {
    Control { turn: turn as i8, accel: accel as i8 }
}

/// The control that the watched scene holds at step `t`: an S-curve that ends
/// travelling straight.
pub open spec fn context_control(t: int) -> Control {
    if 64 <= t < 112 {
        word(-1, 0)
    } else if 160 <= t < 208 {
        word(1, 0)
    } else {
        word(0, 0)
    }
}

/// The canonical context program.
pub fn context_program() -> (r: Schedule)
    ensures
        r@ == Seq::new(512, |t: int| context_control(t)),
        all_discrete(r@),
{
    let segs: [(usize, Control); 5] = [
        (0, Control::none()),
        (64, Control::new(-1, 0)),
        (112, Control::none()),
        (160, Control::new(1, 0)),
        (208, Control::none()),
    ];
    let r = Schedule::segments(512, segs.as_slice());
    proof {
        assert forall|t: int| 0 <= t < 512 implies segment_control(segs@, t) == context_control(
            t,
        ) by {
            reveal_with_fuel(segment_control, 6);
            let s4 = segs@.drop_last();
            let s3 = s4.drop_last();
            let s2 = s3.drop_last();
            let s1 = s2.drop_last();
            assert(segs@.last().0 == 208 && s4.last().0 == 160 && s3.last().0 == 112
                && s2.last().0 == 64 && s1.last().0 == 0);
        }
        assert(r@ =~= Seq::new(512, |t: int| context_control(t)));
    }
    r
}

/// Whatever the step, the context program has settled on straight travel once
/// its last segment has begun.
pub proof fn law_context_ends_straight(steps: Seq<Control>, t: int)
    requires
        steps == Seq::new(512, |i: int| context_control(i)),
        t >= 208,
    ensures
        control_at(steps, t) == Control::spec_none(),
{
}

// ---------------------------------------------------------------------------
// Requests
// ---------------------------------------------------------------------------

/// A named future request: one branch of an earned state.
#[derive(Debug, Clone, Copy, PartialEq, Eq, Structural)]
pub enum Request {
    /// Hold course.
    Continue,
    /// Steady left turn.
    TurnLeft,
    /// Steady right turn.
    TurnRight,
    /// Steady acceleration.
    Accelerate,
    /// Brake for a while, then turn left.
    BrakeThenLeft,
    /// Turn right, then turn left.
    SCurve,
}

impl Request {
    /// All requests, in evidence order.
    pub const ALL: [Request; 6] = [
        Request::Continue,
        Request::TurnLeft,
        Request::TurnRight,
        Request::Accelerate,
        Request::BrakeThenLeft,
        Request::SCurve,
    ];

    /// The four requests drawn in the branch montage.
    pub const MONTAGE: [Request; 4] = [
        Request::Continue,
        Request::TurnLeft,
        Request::TurnRight,
        Request::Accelerate,
    ];

    /// The stable short name.
    pub open spec fn text(self) -> Seq<char> {
        match self {
            Request::Continue => "continue"@,
            Request::TurnLeft => "turn-left"@,
            Request::TurnRight => "turn-right"@,
            Request::Accelerate => "accelerate"@,
            Request::BrakeThenLeft => "brake-then-left"@,
            Request::SCurve => "s-curve"@,
        }
    }

    /// The one-line description.
    pub open spec fn label_text(self) -> Seq<char> {
        match self {
            Request::Continue => "hold course"@,
            Request::TurnLeft => "steady left turn"@,
            Request::TurnRight => "steady right turn"@,
            Request::Accelerate => "steady acceleration"@,
            Request::BrakeThenLeft => "brake 6 steps, then turn left"@,
            Request::SCurve => "right for 8 steps, then left"@,
        }
    }

    /// The request that a text names, by exact match.
    pub open spec fn named(s: Seq<char>) -> Option<Request> {
        if s == Request::Continue.text() {
            Some(Request::Continue)
        } else if s == Request::TurnLeft.text() {
            Some(Request::TurnLeft)
        } else if s == Request::TurnRight.text() {
            Some(Request::TurnRight)
        } else if s == Request::Accelerate.text() {
            Some(Request::Accelerate)
        } else if s == Request::BrakeThenLeft.text() {
            Some(Request::BrakeThenLeft)
        } else if s == Request::SCurve.text() {
            Some(Request::SCurve)
        } else {
            None
        }
    }

    /// The control program, indexed from the first generated step.
    pub open spec fn program(self) -> Seq<Control> {
        match self {
            Request::Continue => seq![word(0, 0)],
            Request::TurnLeft => seq![word(-1, 0)],
            Request::TurnRight => seq![word(1, 0)],
            Request::Accelerate => seq![word(0, 1)],
            Request::BrakeThenLeft => Seq::new(
                32,
                |t: int|
                    if t < 6 {
                        word(0, -1)
                    } else {
                        word(-1, 0)
                    },
            ),
            Request::SCurve => Seq::new(
                32,
                |t: int|
                    if t < 8 {
                        word(1, 0)
                    } else {
                        word(-1, 0)
                    },
            ),
        }
    }

    /// Stable short name, also the command-line value.
    pub fn name(&self) -> (r: &'static str)
        ensures
            r@ == self.text(),
    {
        match self {
            Request::Continue => "continue",
            Request::TurnLeft => "turn-left",
            Request::TurnRight => "turn-right",
            Request::Accelerate => "accelerate",
            Request::BrakeThenLeft => "brake-then-left",
            Request::SCurve => "s-curve",
        }
    }

    /// The request with exactly this name.
    pub fn parse(s: &str) -> (r: Option<Request>)
        ensures
            r == Request::named(s@),
    {
        if same_text(s, "continue") {
            Some(Request::Continue)
        } else if same_text(s, "turn-left") {
            Some(Request::TurnLeft)
        } else if same_text(s, "turn-right") {
            Some(Request::TurnRight)
        } else if same_text(s, "accelerate") {
            Some(Request::Accelerate)
        } else if same_text(s, "brake-then-left") {
            Some(Request::BrakeThenLeft)
        } else if same_text(s, "s-curve") {
            Some(Request::SCurve)
        } else {
            None
        }
    }

    /// The request's control program.
    pub fn schedule(&self) -> (r: Schedule)
        ensures
            r@ == self.program(),
            all_discrete(r@),
    {
        match self {
            Request::Continue => Schedule::constant(Control::none()),
            Request::TurnLeft => Schedule::constant(Control::new(-1, 0)),
            Request::TurnRight => Schedule::constant(Control::new(1, 0)),
            Request::Accelerate => Schedule::constant(Control::new(0, 1)),
            Request::BrakeThenLeft => two_phase(32, Control::new(0, -1), 6, Control::new(-1, 0)),
            Request::SCurve => two_phase(32, Control::new(1, 0), 8, Control::new(-1, 0)),
        }
    }

    /// One-line description.
    pub fn label(&self) -> (r: &'static str)
        ensures
            r@ == self.label_text(),
    {
        match self {
            Request::Continue => "hold course",
            Request::TurnLeft => "steady left turn",
            Request::TurnRight => "steady right turn",
            Request::Accelerate => "steady acceleration",
            Request::BrakeThenLeft => "brake 6 steps, then turn left",
            Request::SCurve => "right for 8 steps, then left",
        }
    }

    /// No two requests share a name.
    pub proof fn lemma_names_differ(a: Request, b: Request)
        ensures
            a.text() == b.text() ==> a == b,
    {
        reveal_strlit("continue");
        reveal_strlit("turn-left");
        reveal_strlit("turn-right");
        reveal_strlit("accelerate");
        reveal_strlit("brake-then-left");
        reveal_strlit("s-curve");
        assert("continue"@.len() == 8 && "turn-left"@.len() == 9 && "turn-right"@.len() == 10
            && "accelerate"@.len() == 10 && "brake-then-left"@.len() == 15
            && "s-curve"@.len() == 7);
        assert("turn-right"@[0] == 't' && "accelerate"@[0] == 'a');
    }
}

/// `first` for `until` steps, then `second`, over `len` steps.
fn two_phase(len: usize, first: Control, until: usize, second: Control) -> (r: Schedule)
    ensures
        r@ == Seq::new(
            len as nat,
            |t: int|
                if t < until {
                    first
                } else {
                    second
                },
        ),
{
    let segs: [(usize, Control); 2] = [(0, first), (until, second)];
    let r = Schedule::segments(len, segs.as_slice());
    proof {
        reveal_with_fuel(segment_control, 3);
        let s1 = segs@.drop_last();
        assert(segs@.last() == (until, second) && s1.last() == (0usize, first));
        assert(r@ =~= Seq::new(
            len as nat,
            |t: int|
                if t < until {
                    first
                } else {
                    second
                },
        ));
    }
    r
}

/// Every request parses back from its own name.
pub proof fn law_request_name_round_trips(r: Request)
    ensures
        Request::named(r.text()) == Some(r),
{
    Request::lemma_names_differ(r, Request::Continue);
    Request::lemma_names_differ(r, Request::TurnLeft);
    Request::lemma_names_differ(r, Request::TurnRight);
    Request::lemma_names_differ(r, Request::Accelerate);
    Request::lemma_names_differ(r, Request::BrakeThenLeft);
    Request::lemma_names_differ(r, Request::SCurve);
}

/// Distinct requests hold distinct controls at some step that is generated
/// within the first nine.
pub proof fn law_distinct_requests_steer_differently(a: Request, b: Request)
    requires
        a != b,
    ensures
        exists|t: int| 0 <= t < 9 && control_at(a.program(), t) != control_at(b.program(), t),
{
    if control_at(a.program(), 0) == control_at(b.program(), 0) {
        assert(control_at(a.program(), 8) != control_at(b.program(), 8));
    }
}

// ---------------------------------------------------------------------------
// A deterministic generator for the trainer
// ---------------------------------------------------------------------------

/// The generator's increment.
pub const GAMMA: u64 = 0x9E37_79B9_7F4A_7C15;

/// The state after one draw from `s`.
pub open spec fn rng_next(s: u64) -> u64 {
    s.wrapping_add(GAMMA)
}

/// The number drawn when the advanced state is `s`.
pub open spec fn rng_mix(s: u64) -> u64 {
    let a = (s ^ (s >> 30)).wrapping_mul(0xBF58_476D_1CE4_E5B9);
    let b = (a ^ (a >> 27)).wrapping_mul(0x94D0_49BB_1331_11EB);
    b ^ (b >> 31)
}

/// The number drawn from state `s`.
pub open spec fn rng_draw(s: u64) -> u64 {
    rng_mix(rng_next(s))
}

/// The control word drawn from state `s`: steering first, then throttle.
pub open spec fn rng_control(s: u64) -> Control {
    word(rng_draw(s) % 3 - 1, rng_draw(rng_next(s)) % 3 - 1)
}

/// How many steps a drawn segment lasts, when the choice between a long and a
/// short segment is drawn from state `s`.
pub open spec fn rng_hold(s: u64) -> nat {
    if rng_draw(s) % 4 == 0 {
        20 + rng_draw(rng_next(s)) as nat % 29
    } else {
        1 + rng_draw(rng_next(s)) as nat % 12
    }
}

/// The held segments drawn from state `s` to fill `len` steps, and the state
/// that is left: a control word takes two draws, its duration two more.
pub open spec fn rng_segments(s: u64, len: nat) -> (Seq<Control>, u64)
    decreases len,
{
    if len == 0 {
        (Seq::empty(), s)
    } else {
        let u = rng_control(s);
        let s2 = rng_next(rng_next(s));
        let hold = rng_hold(s2);
        let n = if hold < len {
            hold
        } else {
            len
        };
        let rest = rng_segments(rng_next(rng_next(s2)), (len - n) as nat);
        (Seq::new(n, |i: int| u) + rest.0, rest.1)
    }
}

/// The schedule drawn from state `s`, and the state that is left: one time in
/// three a single word held throughout, else held segments.
pub open spec fn rng_schedule(s: u64, len: nat) -> (Seq<Control>, u64) {
    let s1 = rng_next(s);
    if rng_draw(s) % 3 == 0 {
        (Seq::new(len, |i: int| rng_control(s1)), rng_next(rng_next(s1)))
    } else {
        rng_segments(s1, len)
    }
}

/// `2` to the power `n`.
pub open spec fn two_to(n: nat) -> nat
    decreases n,
{
    if n == 0 {
        1
    } else {
        2 * two_to((n - 1) as nat)
    }
}

/// Whether `bits` is the `binary32` pattern of the fraction `k / 2^24`: zero for
/// zero, else the normal number whose significand, hidden bit included, is `k`
/// scaled up by the power of two that its exponent field takes away.
pub open spec fn bits_of_fraction(bits: u32, k: nat) -> bool {
    if k == 0 {
        bits == 0
    } else {
        let exponent = bits as nat / 0x80_0000;
        &&& 103 <= exponent <= 126
        &&& 0x80_0000 + bits as nat % 0x80_0000 == k * two_to((126 - exponent) as nat)
    }
}

/// A splitmix64 generator.
#[derive(Debug, Clone)]
pub struct Rng(u64);

impl Rng {
    /// The current state.
    pub closed spec fn state(self) -> u64 {
        self.0
    }

    /// Seed the generator.
    pub fn new(seed: u64) -> (r: Rng)
        ensures
            r.state() == seed,
    {
        Rng(seed)
    }

    /// Next 64 bits.
    pub fn next_u64(&mut self) -> (r: u64)
        ensures
            r == rng_draw(old(self).state()),
            final(self).state() == rng_next(old(self).state()),
    {
        self.0 = self.0.wrapping_add(0x9E37_79B9_7F4A_7C15);
        let mut z: u64 = self.0;
        z = (z ^ (z >> 30)).wrapping_mul(0xBF58_476D_1CE4_E5B9);
        z = (z ^ (z >> 27)).wrapping_mul(0x94D0_49BB_1331_11EB);
        z ^ (z >> 31)
    }

    /// An integer in `0..n`.
    pub fn below(&mut self, n: u64) -> (r: u64)
        requires
            n > 0,
        ensures
            r == rng_draw(old(self).state()) % n,
            r < n,
            final(self).state() == rng_next(old(self).state()),
    {
        self.next_u64() % n
    }

    /// The bits of a `binary32` number in `[0, 1)`: the top 24 bits of a draw,
    /// over `2^24`.
    pub fn f32_unit(&mut self) -> (r: u32)
        ensures
            bits_of_fraction(r, (rng_draw(old(self).state()) >> 40) as nat),
            final(self).state() == rng_next(old(self).state()),
    {
        let z: u64 = self.next_u64();
        let k: u64 = z >> 40;
        assert(z >> 40 < 0x100_0000) by (bit_vector);
        fraction_bits(k as u32)
    }

    /// A random control word.
    pub fn control(&mut self) -> (r: Control)
        ensures
            r == rng_control(old(self).state()),
            r.discrete(),
            final(self).state() == rng_next(rng_next(old(self).state())),
    {
        let turn: i8 = (self.below(3) as i8) - 1;
        let accel: i8 = (self.below(3) as i8) - 1;
        Control { turn, accel }
    }

    /// A random control schedule of `len` steps.
    pub fn schedule(&mut self, len: usize) -> (r: Schedule)
        ensures
            (r@, final(self).state()) == rng_schedule(old(self).state(), len as nat),
            r@.len() == len,
            all_discrete(r@),
    {
        let ghost s0 = self.state();
        if self.below(3) == 0 {
            let u: Control = self.control();
            let steps: Vec<Control> = vec![u; len];
            assert(steps@ =~= Seq::new(len as nat, |i: int| rng_control(rng_next(s0))));
            return Schedule { steps };
        }
        let mut steps: Vec<Control> = Vec::with_capacity(len);
        let ghost s1 = self.state();
        assert(rng_segments(s1, len as nat).0 =~= steps@ + rng_segments(s1, len as nat).0);
        while steps.len() < len
            invariant
                steps@.len() <= len,
                all_discrete(steps@),
                rng_segments(s1, len as nat).0 == steps@ + rng_segments(
                    self.state(),
                    (len - steps@.len()) as nat,
                ).0,
                rng_segments(s1, len as nat).1 == rng_segments(
                    self.state(),
                    (len - steps@.len()) as nat,
                ).1,
            decreases len - steps@.len(),
        {
            let ghost s = self.state();
            let ghost before = steps@;
            let ghost left = (len - steps@.len()) as nat;
            let u: Control = self.control();
            let hold: usize = if self.below(4) == 0 {
                20 + self.below(29) as usize
            } else {
                1 + self.below(12) as usize
            };
            let room: usize = len - steps.len();
            let n: usize = if hold < room {
                hold
            } else {
                room
            };
            let mut i: usize = 0;
            while i < n
                invariant
                    i <= n,
                    u.discrete(),
                    all_discrete(before),
                    steps@ == before + Seq::new(i as nat, |j: int| u),
                decreases n - i,
            {
                steps.push(u);
                i = i + 1;
                assert(steps@ =~= before + Seq::new(i as nat, |j: int| u));
            }
            proof {
                let rest = rng_segments(self.state(), (left - n) as nat);
                assert(rng_segments(s, left) == (Seq::new(n as nat, |j: int| u) + rest.0, rest.1));
                assert(before + (Seq::new(n as nat, |j: int| u) + rest.0) =~= steps@ + rest.0);
            }
        }
        assert(steps@ + rng_segments(self.state(), 0).0 =~= steps@);
        Schedule { steps }
    }
}

/// The `binary32` bits of `k / 2^24`.
fn fraction_bits(k: u32) -> (r: u32)
    requires
        k < 0x100_0000,
    ensures
        bits_of_fraction(r, k as nat),
{
    if k == 0 {
        return 0;
    }
    let mut m: u32 = k;
    let mut exponent: u32 = 126;
    proof {
        lemma_two_to_23();
        assert(k * two_to(0) == k) by (nonlinear_arith)
            requires
                two_to(0) == 1,
        ;
    }
    while m < 0x80_0000
        invariant
            0 < k <= m < 0x100_0000,
            103 <= exponent <= 126,
            m == k * two_to((126 - exponent) as nat),
            two_to(23) == 0x80_0000,
        decreases 0x100_0000 - m,
    {
        proof {
            if exponent == 103 {
                assert(m >= 0x80_0000) by (nonlinear_arith)
                    requires
                        m == k * two_to((126 - exponent) as nat),
                        two_to((126 - exponent) as nat) == 0x80_0000,
                        k > 0,
                ;
            }
            let p = two_to((126 - exponent) as nat);
            assert(k * (2 * p) == 2 * (k * p)) by (nonlinear_arith);
        }
        m = 2 * m;
        exponent = exponent - 1;
    }
    let bits: u32 = exponent * 0x80_0000 + (m - 0x80_0000);
    assert(bits as nat / 0x80_0000 == exponent);
    assert(bits as nat % 0x80_0000 == m - 0x80_0000);
    bits
}

/// The power that the significand's width needs.
proof fn lemma_two_to_23()
    ensures
        two_to(23) == 0x80_0000,
{
    reveal_with_fuel(two_to, 24);
}

// ---------------------------------------------------------------------------
// What the words mean
// ---------------------------------------------------------------------------

/// A schedule gives step `t` its own word, the last word once it has run out, and no
/// steering at all if it has no word.
pub proof fn law_schedule_is_read_in_order(steps: Seq<Control>, t: int)
    requires
        0 <= t,
    ensures
        t < steps.len() ==> control_at(steps, t) == steps[t],
        t >= steps.len() > 0 ==> control_at(steps, t) == steps[steps.len() - 1],
        steps.len() == 0 ==> control_at(steps, t).turn == 0 && control_at(steps, t).accel == 0,
{
}

/// The last segment that has begun at step `t` decides its word; before any has begun
/// nothing is steered.
pub proof fn law_latest_segment_decides(segs: Seq<(usize, Control)>, t: int, k: int)
    requires
        -1 <= k < segs.len(),
        k >= 0 ==> segs[k].0 <= t,
        forall|j: int| k < j < segs.len() ==> (#[trigger] segs[j]).0 > t,
    ensures
        k >= 0 ==> segment_control(segs, t) == segs[k].1,
        k == -1 ==> segment_control(segs, t) == (Control { turn: 0, accel: 0 }),
    decreases segs.len(),
{
    if segs.len() > 0 && k < segs.len() - 1 {
        assert(segs[segs.len() - 1].0 > t);
        law_latest_segment_decides(segs.drop_last(), t, k);
    }
}

/// The watched scene bends left through steps 64 to 111 and right through steps 160 to
/// 207, travels straight otherwise, and never touches the throttle.
pub proof fn law_context_is_an_s_curve(t: int)
    ensures
        context_control(t).turn == -1 <==> 64 <= t < 112,
        context_control(t).turn == 1 <==> 160 <= t < 208,
        context_control(t).turn == 0 <==> t < 64 || 112 <= t < 160 || 208 <= t,
        context_control(t).accel == 0,
{
}

/// Every request steers as its name says, at every step: `continue` leaves both settings
/// alone, the turns hold their side, `accelerate` holds the throttle open,
/// `brake-then-left` brakes six steps and then holds left, and `s-curve` holds right for
/// eight steps and then left.
pub proof fn law_requests_steer_as_named(request: Request, t: int)
    requires
        0 <= t,
    ensures
        ({
            let u = control_at(request.program(), t);
            match request {
                Request::Continue => u.turn == 0 && u.accel == 0,
                Request::TurnLeft => u.turn == -1 && u.accel == 0,
                Request::TurnRight => u.turn == 1 && u.accel == 0,
                Request::Accelerate => u.turn == 0 && u.accel == 1,
                Request::BrakeThenLeft => {
                    &&& t < 6 ==> u.turn == 0 && u.accel == -1
                    &&& t >= 6 ==> u.turn == -1 && u.accel == 0
                },
                Request::SCurve => {
                    &&& u.accel == 0
                    &&& t < 8 ==> u.turn == 1
                    &&& t >= 8 ==> u.turn == -1
                },
            }
        }),
{
}

/// The requests that a user can ask for, by name, and the list of them all, each once.
pub proof fn law_requests_are_called_by_name(request: Request)
    ensures
        Request::named("continue"@) == Some(Request::Continue),
        Request::named("turn-left"@) == Some(Request::TurnLeft),
        Request::named("turn-right"@) == Some(Request::TurnRight),
        Request::named("accelerate"@) == Some(Request::Accelerate),
        Request::named("brake-then-left"@) == Some(Request::BrakeThenLeft),
        Request::named("s-curve"@) == Some(Request::SCurve),
        Request::ALL@.contains(request),
        Request::ALL@.no_duplicates(),
        Request::MONTAGE@.no_duplicates(),
        forall|s: Seq<char>| (#[trigger] Request::named(s)) == Some(request) ==> s
            == request.text(),
{
    law_request_name_round_trips(Request::Continue);
    law_request_name_round_trips(Request::TurnLeft);
    law_request_name_round_trips(Request::TurnRight);
    law_request_name_round_trips(Request::Accelerate);
    law_request_name_round_trips(Request::BrakeThenLeft);
    law_request_name_round_trips(Request::SCurve);
    let all = Request::ALL@;
    assert(all[0] == Request::Continue && all[1] == Request::TurnLeft && all[2]
        == Request::TurnRight && all[3] == Request::Accelerate && all[4] == Request::BrakeThenLeft
        && all[5] == Request::SCurve);
    match request {
        Request::Continue => assert(all.contains(all[0])),
        Request::TurnLeft => assert(all.contains(all[1])),
        Request::TurnRight => assert(all.contains(all[2])),
        Request::Accelerate => assert(all.contains(all[3])),
        Request::BrakeThenLeft => assert(all.contains(all[4])),
        Request::SCurve => assert(all.contains(all[5])),
    }
}

/// The dense code holds both settings: its third is the steering and its remainder the
/// throttle, each counted from its lowest.
pub proof fn law_code_holds_both_settings(u: Control)
    requires
        u.discrete(),
    ensures
        u.spec_code() / 3 - 1 == u.turn,
        u.spec_code() % 3 - 1 == u.accel,
{
}

/// The planes of the three settings that a request can hold are minus one, zero and one.
pub proof fn law_discrete_planes(u: Control)
    requires
        u.discrete(),
    ensures
        setting_bits(u.turn) == if u.turn < 0 {
            0xbf80_0000u32
        } else if u.turn > 0 {
            0x3f80_0000u32
        } else {
            0u32
        },
        setting_bits(u.accel) == if u.accel < 0 {
            0xbf80_0000u32
        } else if u.accel > 0 {
            0x3f80_0000u32
        } else {
            0u32
        },
{
}

/// The model's input is the frame, then a plane of the steering, then a plane of the
/// throttle.
pub proof fn law_input_is_frame_then_steering_then_throttle(f: Seq<u32>, u: Control, i: int)
    requires
        f.len() == 1024,
    ensures
        input_planes(f, u).len() == 3072,
        0 <= i < 1024 ==> input_planes(f, u)[i] == f[i],
        1024 <= i < 2048 ==> input_planes(f, u)[i] == setting_bits(u.turn),
        2048 <= i < 3072 ==> input_planes(f, u)[i] == setting_bits(u.accel),
{
}

/// A scene's field in a record is its fifteen ASCII characters and one NUL.
pub proof fn law_scene_field_is_its_text(id: SceneId, i: int)
    requires
        0 <= i < 15,
    ensures
        id.record_bytes().len() == 16,
        id.record_bytes()[i] == id.text()[i] as u8,
        id.record_bytes()[15] == 0,
        SceneId::named("moving-shape-01"@) == Some(SceneId::MovingShape01),
        SceneId::named("moving-shape-02"@) == Some(SceneId::MovingShape02),
{
    id.lemma_texts();
    SceneId::MovingShape01.lemma_texts();
    assert(id.text_bytes()[i] == id.text()[i] as u8);
}

// ---------------------------------------------------------------------------
// What the random draws mean
// ---------------------------------------------------------------------------

/// The generator steps by the odd golden-ratio constant and scrambles its state by two
/// multiplications between three shifts.
pub proof fn law_generator_is_splitmix(s: u64)
    ensures
        rng_next(s) == (s + 0x9E37_79B9_7F4A_7C15) % 0x1_0000_0000_0000_0000,
        ({
            let z = s.wrapping_add(0x9E37_79B9_7F4A_7C15);
            let z = (z ^ (z >> 30)).wrapping_mul(0xBF58_476D_1CE4_E5B9);
            let z = (z ^ (z >> 27)).wrapping_mul(0x94D0_49BB_1331_11EB);
            rng_draw(s) == z ^ (z >> 31)
        }),
{
}

/// A random word takes its steering from one draw and its throttle from the next, each
/// from minus one to one.
pub proof fn law_random_words_take_two_draws(s: u64)
    ensures
        rng_control(s).turn == rng_draw(s) % 3 - 1,
        rng_control(s).accel == rng_draw(s.wrapping_add(0x9E37_79B9_7F4A_7C15)) % 3 - 1,
        rng_control(s).discrete(),
{
}

/// One segment in four, by the first draw, is held for 20 to 48 steps, any other for 1 to
/// 12, by the second.
pub proof fn law_random_holds(s: u64)
    ensures
        ({
            let second = rng_draw(s.wrapping_add(0x9E37_79B9_7F4A_7C15)) as int;
            &&& rng_draw(s) % 4 == 0 ==> rng_hold(s) == 20 + second % 29
            &&& rng_draw(s) % 4 != 0 ==> rng_hold(s) == 1 + second % 12
            &&& 1 <= rng_hold(s) <= 48
        }),
{
}

/// A random schedule is one word throughout, for one draw in three, and segments
/// otherwise.
pub proof fn law_random_schedules(s: u64, len: nat, i: int)
    requires
        0 <= i < len,
    ensures
        rng_draw(s) % 3 == 0 ==> {
            &&& rng_schedule(s, len).0.len() == len
            &&& rng_schedule(s, len).0[i] == rng_control(rng_next(s))
            &&& rng_schedule(s, len).1 == rng_next(rng_next(rng_next(s)))
        },
        rng_draw(s) % 3 != 0 ==> rng_schedule(s, len) == rng_segments(rng_next(s), len),
{
}

/// A segment holds its word for as long as was drawn, cut off where the schedule ends, and
/// another segment follows, drawn from where this one left the generator.
pub proof fn law_segments_hold_their_word(s: u64, len: nat, held: Seq<Control>, n: nat)
    requires
        0 < len,
        n == if rng_hold(rng_next(rng_next(s))) < len {
            rng_hold(rng_next(rng_next(s)))
        } else {
            len
        },
        held == Seq::new(n, |i: int| rng_control(s)),
    ensures
        rng_segments(s, len).0 == held + rng_segments(
            rng_next(rng_next(rng_next(rng_next(s)))),
            (len - n) as nat,
        ).0,
        rng_segments(s, len).1 == rng_segments(
            rng_next(rng_next(rng_next(rng_next(s)))),
            (len - n) as nat,
        ).1,
        rng_segments(s, 0) == (Seq::<Control>::empty(), s),
{
    assert(held =~= Seq::new(n, |i: int| rng_control(s)));
}

/// A fraction of at least one half is one half and what is more, counted in its last
/// place; every fraction is less than one.
pub proof fn law_fractions_are_below_one(bits: u32, k: nat)
    requires
        bits_of_fraction(bits, k),
        k < 0x100_0000,
    ensures
        bits < 0x3f80_0000,
        k == 0 <==> bits == 0,
        k >= 0x80_0000 ==> bits - 0x3f00_0000 == k - 0x80_0000,
{
    if k > 0 {
        let exponent = bits as nat / 0x80_0000;
        let gap = (126 - exponent) as nat;
        if gap > 0 && k >= 0x80_0000 {
            let half = two_to((gap - 1) as nat);
            lemma_two_to_positive((gap - 1) as nat);
            assert(k * (2 * half) >= 0x100_0000) by (nonlinear_arith)
                requires
                    k >= 0x80_0000,
                    half >= 1,
            ;
        }
        if gap == 0 {
            assert(two_to(0) == 1);
            assert(k * two_to(0) == k) by (nonlinear_arith)
                requires
                    two_to(0) == 1,
            ;
            assert(bits == 126 * 0x80_0000 + bits as nat % 0x80_0000);
        }
    }
}

/// A power of two is at least one.
proof fn lemma_two_to_positive(n: nat)
    ensures
        two_to(n) >= 1,
    decreases n,
{
    if n > 0 {
        lemma_two_to_positive((n - 1) as nat);
    }
}

/// The labels that a reader sees.
pub proof fn law_labels()
    ensures
        Request::Continue.label_text() == "hold course"@,
        Request::TurnLeft.label_text() == "steady left turn"@,
        Request::TurnRight.label_text() == "steady right turn"@,
        Request::Accelerate.label_text() == "steady acceleration"@,
        Request::BrakeThenLeft.label_text() == "brake 6 steps, then turn left"@,
        Request::SCurve.label_text() == "right for 8 steps, then left"@,
        SceneId::MovingShape01.label_text() == "one blob, gentle S-curve, canonical"@,
        SceneId::MovingShape02.label_text() == "two blobs, crossing paths, unrelated"@,
{
}

/// A run of words is discrete where every one of them is.
pub proof fn law_discrete_runs(steps: Seq<Control>, i: int)
    ensures
        all_discrete(steps) && 0 <= i < steps.len() ==> -1 <= steps[i].turn <= 1 && -1
            <= steps[i].accel <= 1,
        0 <= i < steps.len() && !(-1 <= steps[i].turn <= 1) ==> !all_discrete(steps),
        0 <= i < steps.len() && !(-1 <= steps[i].accel <= 1) ==> !all_discrete(steps),
        (forall|j: int|
            0 <= j < steps.len() ==> -1 <= (#[trigger] steps[j]).turn <= 1 && -1 <= steps[j].accel
                <= 1) ==> all_discrete(steps),
{
}

/// The order in which requests are served, and that in which they are shown.
pub proof fn law_requests_in_order()
    ensures
        Request::ALL@ == seq![
            Request::Continue,
            Request::TurnLeft,
            Request::TurnRight,
            Request::Accelerate,
            Request::BrakeThenLeft,
            Request::SCurve,
        ],
        Request::MONTAGE@ == seq![
            Request::Continue,
            Request::TurnLeft,
            Request::TurnRight,
            Request::Accelerate,
        ],
{
    assert(Request::ALL@ =~= seq![
        Request::Continue,
        Request::TurnLeft,
        Request::TurnRight,
        Request::Accelerate,
        Request::BrakeThenLeft,
        Request::SCurve,
    ]);
    assert(Request::MONTAGE@ =~= seq![
        Request::Continue,
        Request::TurnLeft,
        Request::TurnRight,
        Request::Accelerate,
    ]);
}

} // verus!
