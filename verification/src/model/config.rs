//! The architecture, its canonical encoding and the sizes that follow from it.

use vstd::prelude::*;

use crate::bytes::{array32, le_bytes, push_u32};
use crate::bytes::{lemma_le_bytes_len, lemma_le_spans, lemma_le_value_of_bytes};
use crate::model::work::StepWork;
use crate::scene::{H, W};

verus! {

/// Gates per cell: input, forget, output, cell.
pub const GATES: usize = 4;

/// Input channels of the cell: one frame and two control planes.
pub const IN_CHANNELS: usize = 3;

/// Channels of the carry: the last two frames that the cell consumed.
pub const CARRY_CHANNELS: usize = 2;

/// Hidden channels inside the residual head branch.
pub const HEAD_HIDDEN: usize = 8;

/// Bound on the correction that the head may add in one step: the bits of `0.6`.
pub const RESIDUAL_SCALE: u32 = 0x3f19_999a;

/// Architecture configuration.
#[derive(Debug, Clone, Copy, PartialEq, Eq, Structural)]
pub struct ModelConfig {
    /// Input channels: frame and control planes.
    pub in_channels: usize,
    /// Recurrent hidden channels.
    pub hidden_channels: usize,
    /// Square convolution kernel size.
    pub kernel: usize,
    /// Field height.
    pub height: usize,
    /// Field width.
    pub width: usize,
}

impl Default for ModelConfig {
    fn default() -> (r: ModelConfig)
        ensures
            r.in_channels == 3,
            r.hidden_channels == 8,
            r.kernel == 3,
            r.height == 32,
            r.width == 32,
    {
        ModelConfig { in_channels: IN_CHANNELS, hidden_channels: 8, kernel: 3, height: H, width: W }
    }
}

/// A size as the 32-bit field of the canonical encoding holds it.
pub open spec fn field32(v: usize) -> Seq<u8> {
    le_bytes((v as u32) as nat, 4)
}

impl ModelConfig {
    /// Eight little-endian 32-bit fields: schema version one, the sizes with the
    /// carry's channels among them, and a reserved zero.
    pub open spec fn canonical(self) -> Seq<u8> {
        le_bytes(1, 4) + field32(self.in_channels) + field32(self.hidden_channels) + field32(
            CARRY_CHANNELS,
        ) + field32(self.kernel) + field32(self.height) + field32(self.width) + le_bytes(0, 4)
    }

    /// Every size fits the 32-bit field that it is encoded in.
    pub open spec fn fields_fit(self) -> bool {
        &&& self.in_channels <= u32::MAX
        &&& self.hidden_channels <= u32::MAX
        &&& self.kernel <= u32::MAX
        &&& self.height <= u32::MAX
        &&& self.width <= u32::MAX
    }

    /// Pixels per frame.
    pub open spec fn pixels(self) -> int {
        self.height * self.width
    }

    /// Taps of the square kernel.
    pub open spec fn taps(self) -> int {
        self.kernel * self.kernel
    }

    /// Channels that the convolution of the gates reads: the input and the hidden state.
    pub open spec fn cell_inputs(self) -> int {
        self.in_channels + self.hidden_channels
    }

    /// Parameters in the whole model: weights and biases of the gates, of the
    /// head's hidden layer and of its output.
    pub open spec fn parameters(self) -> int {
        4 * self.hidden_channels * self.cell_inputs() * self.taps() + 4 * self.hidden_channels + 8
            * (self.hidden_channels + 2) * self.taps() + 8 + 8 + 1
    }

    /// What computing the parameter count needs to fit in machine words.
    pub open spec fn parameters_fit(self) -> bool {
        &&& self.taps() <= usize::MAX
        &&& self.cell_inputs() <= u64::MAX
        &&& 4 * self.hidden_channels * self.cell_inputs() <= u64::MAX
        &&& 8 * (self.hidden_channels + 2) <= u64::MAX
        &&& self.parameters() <= u64::MAX
    }

    /// What computing the work of one step needs to fit in machine words.
    pub open spec fn step_work_fits(self) -> bool {
        &&& self.pixels() <= usize::MAX
        &&& self.taps() <= usize::MAX
        &&& self.cell_inputs() <= u64::MAX
        &&& self.pixels() * self.cell_inputs() <= u64::MAX
        &&& self.pixels() * self.cell_inputs() * 4 <= u64::MAX
        &&& self.pixels() * self.cell_inputs() * 4 * self.hidden_channels <= u64::MAX
        &&& self.pixels() * self.cell_inputs() * 4 * self.hidden_channels * self.taps() <= u64::MAX
        &&& self.pixels() * 4 <= u64::MAX
        &&& self.pixels() * 4 * self.hidden_channels <= u64::MAX
        &&& 5 * self.hidden_channels <= u64::MAX
        &&& 4 * self.hidden_channels * self.pixels() <= u64::MAX
        &&& 5 * self.hidden_channels * self.pixels() <= u64::MAX
        &&& self.hidden_channels + 2 <= u64::MAX
        &&& self.pixels() * 8 <= u64::MAX
        &&& self.pixels() * 8 * (self.hidden_channels + 2) <= u64::MAX
        &&& self.pixels() * 8 * (self.hidden_channels + 2) * self.taps() + self.pixels() * 8
            <= u64::MAX
    }

    /// Canonical little-endian encoding, the preimage of the architecture hash.
    pub fn canonical_bytes(&self) -> (r: [u8; 32])
        ensures
            r@ == self.canonical(),
    {
        let mut out: Vec<u8> = Vec::with_capacity(32);
        push_u32(&mut out, 1);
        push_u32(&mut out, self.in_channels as u32);
        push_u32(&mut out, self.hidden_channels as u32);
        push_u32(&mut out, CARRY_CHANNELS as u32);
        push_u32(&mut out, self.kernel as u32);
        push_u32(&mut out, self.height as u32);
        push_u32(&mut out, self.width as u32);
        push_u32(&mut out, 0);
        proof {
            assert(out@ =~= self.canonical());
            self.lemma_canonical_fields();
        }
        let r = array32(out.as_slice(), 0);
        assert(r@ =~= out@);
        r
    }

    /// Where each field stands in the canonical encoding.
    proof fn lemma_canonical_fields(self)
        ensures
            self.canonical().len() == 32,
            self.canonical().subrange(4, 8) == field32(self.in_channels),
            self.canonical().subrange(8, 12) == field32(self.hidden_channels),
            self.canonical().subrange(16, 20) == field32(self.kernel),
            self.canonical().subrange(20, 24) == field32(self.height),
            self.canonical().subrange(24, 28) == field32(self.width),
    {
        let c = self.canonical();
        lemma_le_bytes_len(1, 4);
        lemma_le_bytes_len((self.in_channels as u32) as nat, 4);
        lemma_le_bytes_len((self.hidden_channels as u32) as nat, 4);
        lemma_le_bytes_len((CARRY_CHANNELS as u32) as nat, 4);
        lemma_le_bytes_len((self.kernel as u32) as nat, 4);
        lemma_le_bytes_len((self.height as u32) as nat, 4);
        lemma_le_bytes_len((self.width as u32) as nat, 4);
        lemma_le_bytes_len(0, 4);
        assert(c.subrange(4, 8) =~= field32(self.in_channels));
        assert(c.subrange(8, 12) =~= field32(self.hidden_channels));
        assert(c.subrange(16, 20) =~= field32(self.kernel));
        assert(c.subrange(20, 24) =~= field32(self.height));
        assert(c.subrange(24, 28) =~= field32(self.width));
    }

    /// Pixels per frame.
    pub fn spatial(&self) -> (r: u64)
        requires
            self.pixels() <= usize::MAX,
        ensures
            r == self.pixels(),
    {
        (self.height * self.width) as u64
    }

    /// Floats in `H`, `C` and the carry.
    pub fn state_floats(&self) -> (r: u64)
        requires
            self.pixels() <= usize::MAX,
            2 * self.hidden_channels + 2 <= u64::MAX,
            (2 * self.hidden_channels + 2) * self.pixels() <= u64::MAX,
        ensures
            r == (2 * self.hidden_channels + 2) * self.pixels(),
    {
        (2 * self.hidden_channels as u64 + CARRY_CHANNELS as u64) * self.spatial()
    }

    /// Parameters in the whole model.
    pub fn parameter_count(&self) -> (r: u64)
        requires
            self.parameters_fit(),
        ensures
            r == self.parameters(),
    {
        let h: u64 = self.hidden_channels as u64;
        let k: u64 = (self.kernel * self.kernel) as u64;
        let ci: u64 = (self.in_channels as u64) + h;
        let m: u64 = HEAD_HIDDEN as u64;
        proof {
            assert(0 <= 4 * h * ci * k) by (nonlinear_arith)
                requires
                    h >= 0,
                    ci >= 0,
                    k >= 0,
            ;
            assert(0 <= 8 * (h + 2) * k) by (nonlinear_arith)
                requires
                    h >= 0,
                    k >= 0,
            ;
        }
        GATES as u64 * h * ci * k + GATES as u64 * h + m * (h + CARRY_CHANNELS as u64) * k + m + m
            + 1
    }

    /// Declared arithmetic of one recurrent step and one emission.
    pub fn step_work(&self) -> (r: StepWork)
        requires
            self.step_work_fits(),
        ensures
            r.cell_macs == self.pixels() * self.cell_inputs() * 4 * self.hidden_channels
                * self.taps(),
            r.cell_bias_adds == self.pixels() * 4 * self.hidden_channels,
            r.cell_mul_adds == 4 * self.hidden_channels * self.pixels(),
            r.cell_nonlinearities == 5 * self.hidden_channels * self.pixels(),
            r.head_macs == self.pixels() * 8 * (self.hidden_channels + 2) * self.taps()
                + self.pixels() * 8,
            r.head_bias_adds == 2 * self.pixels(),
    {
        let h: u64 = self.hidden_channels as u64;
        let s: u64 = self.spatial();
        let k: u64 = (self.kernel * self.kernel) as u64;
        let ci: u64 = (self.in_channels as u64) + h;
        let m: u64 = HEAD_HIDDEN as u64;
        proof {
            assert(0 <= s * 8 * (h + 2) * k) by (nonlinear_arith)
                requires
                    s >= 0,
                    h >= 0,
                    k >= 0,
            ;
        }
        StepWork {
            cell_macs: s * ci * GATES as u64 * h * k,
            cell_bias_adds: s * GATES as u64 * h,
            cell_mul_adds: 4 * h * s,
            cell_nonlinearities: 5 * h * s,
            head_macs: s * m * (h + CARRY_CHANNELS as u64) * k + s * m,
            head_bias_adds: 2 * s,
        }
    }
}

/// Architectures whose sizes fit their fields have equal encodings only when
/// they are equal.
pub proof fn law_canonical_encoding_is_injective(a: ModelConfig, b: ModelConfig)
    requires
        a.fields_fit(),
        b.fields_fit(),
        a.canonical() == b.canonical(),
    ensures
        a == b,
{
    a.lemma_canonical_fields();
    b.lemma_canonical_fields();
    lemma_le_spans();
    lemma_le_value_of_bytes(a.in_channels as nat, 4);
    lemma_le_value_of_bytes(b.in_channels as nat, 4);
    lemma_le_value_of_bytes(a.hidden_channels as nat, 4);
    lemma_le_value_of_bytes(b.hidden_channels as nat, 4);
    lemma_le_value_of_bytes(a.kernel as nat, 4);
    lemma_le_value_of_bytes(b.kernel as nat, 4);
    lemma_le_value_of_bytes(a.height as nat, 4);
    lemma_le_value_of_bytes(b.height as nat, 4);
    lemma_le_value_of_bytes(a.width as nat, 4);
    lemma_le_value_of_bytes(b.width as nat, 4);
}

/// The canonical encoding is eight 32-bit fields: its version, the five sizes of the
/// architecture with the channels of the carry between them, and one that is reserved.
pub proof fn law_canonical_fields(cfg: ModelConfig)
    requires
        cfg.fields_fit(),
    ensures
        cfg.canonical().len() == 32,
        cfg.canonical().subrange(0, 4) == le_bytes(1, 4),
        cfg.canonical().subrange(4, 8) == le_bytes(cfg.in_channels as nat, 4),
        cfg.canonical().subrange(8, 12) == le_bytes(cfg.hidden_channels as nat, 4),
        cfg.canonical().subrange(12, 16) == le_bytes(2, 4),
        cfg.canonical().subrange(16, 20) == le_bytes(cfg.kernel as nat, 4),
        cfg.canonical().subrange(20, 24) == le_bytes(cfg.height as nat, 4),
        cfg.canonical().subrange(24, 28) == le_bytes(cfg.width as nat, 4),
        cfg.canonical().subrange(28, 32) == le_bytes(0, 4),
{
    lemma_le_bytes_len(1, 4);
    lemma_le_bytes_len(cfg.in_channels as nat, 4);
    lemma_le_bytes_len(cfg.hidden_channels as nat, 4);
    lemma_le_bytes_len(2, 4);
    lemma_le_bytes_len(cfg.kernel as nat, 4);
    lemma_le_bytes_len(cfg.height as nat, 4);
    lemma_le_bytes_len(cfg.width as nat, 4);
    lemma_le_bytes_len(0, 4);
    let b = cfg.canonical();
    assert(b.subrange(0, 4) =~= le_bytes(1, 4));
    assert(b.subrange(4, 8) =~= le_bytes(cfg.in_channels as nat, 4));
    assert(b.subrange(8, 12) =~= le_bytes(cfg.hidden_channels as nat, 4));
    assert(b.subrange(12, 16) =~= le_bytes(2, 4));
    assert(b.subrange(16, 20) =~= le_bytes(cfg.kernel as nat, 4));
    assert(b.subrange(20, 24) =~= le_bytes(cfg.height as nat, 4));
    assert(b.subrange(24, 28) =~= le_bytes(cfg.width as nat, 4));
    assert(b.subrange(28, 32) =~= le_bytes(0, 4));
}

/// How large things are: a frame has a pixel for each place of the field, a kernel a tap for
/// each of its places, and the gates read the input channels and the hidden ones.
pub proof fn law_sizes_are_products(cfg: ModelConfig)
    ensures
        cfg.pixels() == cfg.height * cfg.width,
        cfg.taps() == cfg.kernel * cfg.kernel,
        cfg.cell_inputs() == cfg.in_channels + cfg.hidden_channels,
{
}

} // verus!
