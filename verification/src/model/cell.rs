//! One recurrent step and one emission.
//!
//! The step folds the input-to-gate convolutions into one over the frame, the control
//! planes and the hidden state; its four results are the input, forget and output
//! gates and the candidate. The emission adds a bounded correction to the newest frame
//! of the carry. Both treat the streams of a batch alike, each for itself.

use vstd::prelude::*;

use crate::model::config::{ModelConfig, RESIDUAL_SCALE};
use crate::model::floats::{float32_less, floats_to_bytes, less32, order_key32};
use crate::model::params::{elements, lemma_elements_four, lemma_elements_one, param_shape,
    ConvLstm};
use crate::model::state::{tensor_elements, State, StateModel};
use crate::model::tensors::{add_lists, adds_all, convolution_gives, convolvable, convolve,
    convolves, is_nan32, logistic_all, multiplies_all, multiply_lists, product_gives, sigmoid,
    sigmoid_gives, sum_gives, tangent_all, tanh, tanh_gives, ComputeError};
use crate::scene::{input_planes, model_input, setting_bits, Control, HW, ONE_BITS};

verus! {

/// `x` brought into the range from zero to one; what is no number stays as it is.
pub open spec fn clamped(x: u32) -> u32 {
    let low = if float32_less(x, 0) {
        0
    } else {
        x
    };
    if float32_less(ONE_BITS, low) {
        ONE_BITS
    } else {
        low
    }
}

/// Every number of a list, brought into the range from zero to one.
pub fn clamp(v: &Vec<u32>) -> (out: Vec<u32>)
    ensures
        out@.len() == v@.len(),
        forall|i: int| 0 <= i < v@.len() ==> (#[trigger] out@[i]) == clamped(v@[i]),
{
    let mut out: Vec<u32> = Vec::new();
    let mut i: usize = 0;
    while i < v.len()
        invariant
            i <= v@.len(),
            out@.len() == i,
            forall|j: int| 0 <= j < i ==> (#[trigger] out@[j]) == clamped(v@[j]),
        decreases v@.len() - i,
    {
        let low: u32 = if less32(v[i], 0) {
            0
        } else {
            v[i]
        };
        out.push(
            if less32(ONE_BITS, low) {
                ONE_BITS
            } else {
                low
            },
        );
        i = i + 1;
    }
    out
}

/// Clamping keeps a number in range, and leaves one that is in range alone.
pub proof fn law_clamping(x: u32)
    ensures
        is_nan32(x) ==> clamped(x) == x,
        !is_nan32(x) ==> 0 <= order_key32(clamped(x)) <= order_key32(ONE_BITS),
        0 <= order_key32(x) <= order_key32(ONE_BITS) ==> clamped(x) == x,
{
}

/// A list with one number, `n` times.
pub open spec fn constant(bits: u32, n: nat) -> Seq<u32> {
    Seq::new(n, |i: int| bits)
}

/// A list with one number, `n` times.
fn filled(bits: u32, n: usize) -> (out: Vec<u32>)
    ensures
        out@ == constant(bits, n as nat),
{
    let out: Vec<u32> = vec![bits; n];
    assert(out@ =~= constant(bits, n as nat));
    out
}

/// Planes of `n` numbers, one for each entry of a list.
pub open spec fn planes(bits: Seq<u32>, n: int) -> Seq<u32> {
    Seq::new((bits.len() * n) as nat, |i: int| bits[i / n])
}

/// Planes of `n` numbers, one for each entry of a list.
pub fn spread(bits: &Vec<u32>, n: usize) -> (out: Vec<u32>)
    requires
        n > 0,
        bits@.len() * n <= usize::MAX,
    ensures
        out@ == planes(bits@, n as int),
{
    let mut out: Vec<u32> = Vec::new();
    let mut c: usize = 0;
    while c < bits.len()
        invariant
            c <= bits@.len(),
            n > 0,
            bits@.len() * n <= usize::MAX,
            out@.len() == c * n,
            forall|i: int| 0 <= i < c * n ==> (#[trigger] out@[i]) == bits@[i / n as int],
        decreases bits@.len() - c,
    {
        let b: u32 = bits[c];
        let ghost before = out@;
        let mut k: usize = 0;
        while k < n
            invariant
                k <= n,
                n > 0,
                c < bits@.len(),
                b == bits@[c as int],
                before.len() == c * n,
                forall|i: int| 0 <= i < c * n ==> (#[trigger] before[i]) == bits@[i / n as int],
                out@.len() == c * n + k,
                forall|i: int| 0 <= i < c * n + k ==> (#[trigger] out@[i]) == bits@[i / n as int],
            decreases n - k,
        {
            out.push(b);
            proof {
                lemma_plane_of(c as int, k as int, n as int);
            }
            k = k + 1;
        }
        assert((c + 1) * n == c * n + n) by (nonlinear_arith);
        c = c + 1;
    }
    assert(out@ =~= planes(bits@, n as int));
    out
}

/// Which plane a position is in.
proof fn lemma_plane_of(c: int, k: int, n: int)
    requires
        0 <= c,
        0 <= k < n,
    ensures
        (c * n + k) / n == c,
{
    vstd::arithmetic::div_mod::lemma_fundamental_div_mod_converse(c * n + k, n, c, k);
}

/// The numbers `from..to` of a list.
fn part(v: &[u32], from: usize, to: usize) -> (out: Vec<u32>)
    requires
        from <= to <= v@.len(),
    ensures
        out@ == v@.subrange(from as int, to as int),
{
    let mut out: Vec<u32> = Vec::new();
    let mut i: usize = from;
    while i < to
        invariant
            from <= i <= to <= v@.len(),
            out@ == v@.subrange(from as int, i as int),
        decreases to - i,
    {
        out.push(v[i]);
        assert(out@ =~= v@.subrange(from as int, i + 1));
        i = i + 1;
    }
    out
}

/// Two lists, one after the other.
fn joined(a: &[u32], b: &[u32]) -> (out: Vec<u32>)
    ensures
        out@ == a@ + b@,
{
    let mut out: Vec<u32> = Vec::new();
    out.extend_from_slice(a);
    out.extend_from_slice(b);
    assert(out@ =~= a@ + b@);
    out
}

/// Block `b` of a list, in blocks of `n` numbers.
fn block_of(v: &[u32], n: usize, b: usize) -> (out: Vec<u32>)
    requires
        0 <= b * n <= (b + 1) * n <= v@.len(),
        (b + 1) * n == b * n + n,
    ensures
        out@ == block(v@, n as int, b as int),
{
    assert(v@.len() == v.len());
    let from: usize = b * n;
    part(v, from, from + n)
}

/// Whether a length is `k` times `n`.
fn is_multiple(len: usize, k: usize, n: usize) -> (r: bool)
    requires
        n > 0,
    ensures
        r == (len == k * n),
{
    proof {
        if len == k * n {
            vstd::arithmetic::div_mod::lemma_div_by_multiple(k as int, n as int);
            vstd::arithmetic::div_mod::lemma_mod_multiples_basic(k as int, n as int);
        }
        vstd::arithmetic::div_mod::lemma_fundamental_div_mod(len as int, n as int);
        assert(n * k == k * n) by (nonlinear_arith);
    }
    len % n == 0 && len / n == k
}

// ---------------------------------------------------------------------------
// Sizes
// ---------------------------------------------------------------------------

/// An architecture with something to compute, whose tensors fit in memory.
pub open spec fn computable(cfg: ModelConfig) -> bool {
    let h = cfg.hidden_channels as int;
    let y = cfg.height as int;
    let x = cfg.width as int;
    let k = cfg.kernel as int;
    &&& k % 2 == 1 ==> convolvable(3 + h, y, x, 4 * h, k)
    &&& k % 2 == 1 ==> convolvable(h + 2, y, x, 8, k)
    &&& convolvable(8, y, x, 1, 1)
    &&& 0 < h
    &&& 4 * (4 * h * (y * x)) <= usize::MAX
}

/// The tensors of a step or an emission do not fit together.
fn mismatched(what: &str) -> (e: ComputeError)
    ensures
        e.message@ == "shape mismatch: "@ + what@,
{
    let mut message: String = "shape mismatch: ".to_owned();
    message.append(what);
    ComputeError { message }
}

/// Pixels of a frame and numbers of a hidden tensor, as sizes that are at hand.
proof fn lemma_sizes(cfg: ModelConfig)
    requires
        computable(cfg),
    ensures
        ({
            let h = cfg.hidden_channels as int;
            let n = cfg.height * cfg.width;
            &&& 0 < n
            &&& n <= h * n
            &&& 4 * (8 * n) <= usize::MAX
            &&& tensor_elements(cfg, 1, h) == h * n
            &&& tensor_elements(cfg, 1, 2) == 2 * n
            &&& (3 + h) * n == 3 * n + h * n
            &&& (h + 2) * n == h * n + 2 * n
            &&& 4 * h * n == 4 * (h * n)
        }),
{
    let h = cfg.hidden_channels as int;
    let (y, x) = (cfg.height as int, cfg.width as int);
    let n = y * x;
    assert(0 < n) by (nonlinear_arith)
        requires
            0 < y,
            0 < x,
            n == y * x,
    ;
    assert(n <= h * n) by (nonlinear_arith)
        requires
            0 < n,
            0 < h,
    ;
    assert(1 * h * y * x == h * n) by (nonlinear_arith)
        requires
            n == y * x,
    ;
    assert(1 * 2 * y * x == 2 * n) by (nonlinear_arith)
        requires
            n == y * x,
    ;
    assert((3 + h) * n == 3 * n + h * n) by (nonlinear_arith);
    assert((h + 2) * n == h * n + 2 * n) by (nonlinear_arith);
    assert(4 * h * n == 4 * (h * n)) by (nonlinear_arith);
}

// ---------------------------------------------------------------------------
// Streams
// ---------------------------------------------------------------------------

/// Block `b` of a list, in blocks of `n` numbers.
pub open spec fn block(s: Seq<u32>, n: int, b: int) -> Seq<u32> {
    s.subrange(b * n, (b + 1) * n)
}

/// Stream `b` of a batch: its own part of each tensor.
pub open spec fn stream(cfg: ModelConfig, st: StateModel, b: int) -> StateModel {
    let one = cfg.hidden_channels * cfg.pixels();
    StateModel {
        h: block(st.h, one, b),
        c: block(st.c, one, b),
        carry: block(st.carry, 2 * cfg.pixels(), b),
    }
}

/// Blocks that are filled stay as they are when another follows, which is then the last.
proof fn lemma_block_appended(s: Seq<u32>, t: Seq<u32>, n: int, b: int)
    requires
        0 <= b,
        0 <= n,
        s.len() == b * n,
        t.len() == n,
    ensures
        (s + t).len() == (b + 1) * n,
        block(s + t, n, b) == t,
        forall|j: int| 0 <= j < b ==> #[trigger] block(s + t, n, j) == block(s, n, j),
{
    assert((b + 1) * n == b * n + n) by (nonlinear_arith);
    assert(block(s + t, n, b) =~= t);
    assert forall|j: int| 0 <= j < b implies #[trigger] block(s + t, n, j) == block(s, n, j) by {
        lemma_block_inside(j, b, n);
        assert(block(s + t, n, j) =~= block(s, n, j));
    }
}

/// A block of a list of `batch` blocks lies inside it.
proof fn lemma_block_inside(b: int, batch: int, n: int)
    requires
        0 <= b < batch,
        0 <= n,
    ensures
        0 <= b * n <= (b + 1) * n <= batch * n,
        (b + 1) * n == b * n + n,
{
    assert(0 <= b * n <= (b + 1) * n <= batch * n && (b + 1) * n == b * n + n) by (nonlinear_arith)
        requires
            0 <= b < batch,
            0 <= n,
    ;
}

/// The sizes of the tensors of a batch, in blocks of one stream.
proof fn lemma_batch_sizes(cfg: ModelConfig, batch: int)
    ensures
        tensor_elements(cfg, batch, cfg.hidden_channels as int) == batch * (cfg.hidden_channels
            * cfg.pixels()),
        tensor_elements(cfg, batch, 2) == batch * (2 * cfg.pixels()),
        2 * batch * cfg.pixels() == batch * (2 * cfg.pixels()),
{
    let (h, y, x) = (cfg.hidden_channels as int, cfg.height as int, cfg.width as int);
    assert(batch * h * y * x == batch * (h * (y * x))) by (nonlinear_arith);
    assert(batch * 2 * y * x == batch * (2 * (y * x))) by (nonlinear_arith);
    assert(2 * batch * (y * x) == batch * (2 * (y * x))) by (nonlinear_arith);
}

/// A stream of a batch is a state of one stream.
proof fn lemma_stream_is_shaped(cfg: ModelConfig, st: StateModel, batch: int, b: int)
    requires
        computable(cfg),
        st.shaped(cfg, batch),
        0 <= b < batch,
    ensures
        stream(cfg, st, b).shaped(cfg, 1),
{
    lemma_sizes(cfg);
    lemma_batch_sizes(cfg, batch);
    lemma_block_inside(b, batch, cfg.hidden_channels * cfg.pixels());
    lemma_block_inside(b, batch, 2 * cfg.pixels());
}

/// The one stream of a state of one stream is that state.
proof fn lemma_only_stream(cfg: ModelConfig, st: StateModel)
    requires
        st.shaped(cfg, 1),
    ensures
        stream(cfg, st, 0) == st,
{
    lemma_batch_sizes(cfg, 1);
    let one = cfg.hidden_channels * cfg.pixels();
    assert(0 * one == 0 && 1 * one == one) by (nonlinear_arith);
    assert(stream(cfg, st, 0).h =~= st.h);
    assert(stream(cfg, st, 0).c =~= st.c);
    assert(stream(cfg, st, 0).carry =~= st.carry);
}

/// A state is of one number of streams only.
proof fn lemma_streams_are_counted(cfg: ModelConfig, st: StateModel, a: int, b: int)
    requires
        computable(cfg),
        st.shaped(cfg, a),
        st.shaped(cfg, b),
    ensures
        a == b,
{
    lemma_sizes(cfg);
    lemma_batch_sizes(cfg, a);
    lemma_batch_sizes(cfg, b);
    let n = 2 * cfg.pixels();
    assert(a == b) by (nonlinear_arith)
        requires
            0 < n,
            a * n == b * n,
    ;
}

// ---------------------------------------------------------------------------
// The step
// ---------------------------------------------------------------------------

/// What the gates are of: a convolution of the input planes and the hidden tensor, and
/// a bias for each channel of it.
pub open spec fn preactivations(m: ConvLstm, x: Seq<u32>, g: Seq<u32>) -> bool {
    let h = m.cfg.hidden_channels as int;
    exists|raw: Seq<u32>|
        {
            &&& #[trigger] convolves(
                x,
                3 + h,
                m.cfg.height as int,
                m.cfg.width as int,
                m.params@[0].bits@,
                4 * h,
                m.cfg.kernel as int,
                raw,
            )
            &&& adds_all(raw, planes(m.params@[1].bits@, m.cfg.pixels()), g)
        }
}

/// The new cell tensor and hidden tensor come of the old cell tensor by gates. A quarter
/// of `g` each is of the input, the forget and the output gate and of the candidate: a
/// number of the cell is kept as far as the forget gate is open and takes the candidate
/// as far as the input gate is, and its tangent shows as far as the output gate is.
pub open spec fn gated(g: Seq<u32>, old_c: Seq<u32>, new_c: Seq<u32>, new_h: Seq<u32>) -> bool {
    let n = old_c.len() as int;
    exists|
        input: Seq<u32>,
        forget: Seq<u32>,
        output: Seq<u32>,
        candidate: Seq<u32>,
        kept: Seq<u32>,
        taken: Seq<u32>,
        shown: Seq<u32>,
    |
        {
            &&& #[trigger] logistic_all(g.subrange(0, n), input)
            &&& #[trigger] logistic_all(g.subrange(n, 2 * n), forget)
            &&& #[trigger] logistic_all(g.subrange(2 * n, 3 * n), output)
            &&& #[trigger] tangent_all(g.subrange(3 * n, 4 * n), candidate)
            &&& #[trigger] multiplies_all(forget, old_c, kept)
            &&& #[trigger] multiplies_all(input, candidate, taken)
            &&& adds_all(kept, taken, new_c)
            &&& #[trigger] tangent_all(new_c, shown)
            &&& multiplies_all(output, shown, new_h)
        }
}

/// `next` is what one recurrent step makes of `prev`, of one stream. The consumed frame
/// becomes the newest of the carry, and the newest before it moves back.
pub open spec fn steps(
    m: ConvLstm,
    frame: Seq<u32>,
    control: Seq<u32>,
    prev: StateModel,
    next: StateModel,
) -> bool {
    &&& next.shaped(m.cfg, 1)
    &&& next.carry == frame + prev.carry.take(m.cfg.pixels())
    &&& exists|g: Seq<u32>| #[trigger]
        preactivations(m, frame + control + prev.h, g) && gated(g, prev.c, next.c, next.h)
}

/// A step of `batch` streams that an architecture has: three input channels, a kernel that
/// keeps the size of the field, and tensors of the sizes that go with it.
pub open spec fn can_step(
    cfg: ModelConfig,
    batch: int,
    frame: Seq<u32>,
    control: Seq<u32>,
    prev: StateModel,
) -> bool {
    &&& 0 <= batch
    &&& cfg.in_channels == 3
    &&& cfg.kernel % 2 == 1
    &&& frame.len() == batch * cfg.pixels()
    &&& control.len() == 2 * batch * cfg.pixels()
    &&& prev.shaped(cfg, batch)
}

/// `next` is what one recurrent step makes of `prev`, of `batch` streams: each of them
/// steps, on its own frame and under its own control planes.
pub open spec fn streams_step(
    m: ConvLstm,
    batch: int,
    frame: Seq<u32>,
    control: Seq<u32>,
    prev: StateModel,
    next: StateModel,
) -> bool {
    let n = m.cfg.pixels();
    &&& next.shaped(m.cfg, batch)
    &&& forall|b: int|
        0 <= b < batch ==> steps(
            m,
            block(frame, n, b),
            block(control, 2 * n, b),
            stream(m.cfg, prev, b),
            #[trigger] stream(m.cfg, next, b),
        )
}

/// The two constant control planes of a control word.
pub open spec fn control_planes(u: Control) -> Seq<u32> {
    planes(seq![setting_bits(u.turn), setting_bits(u.accel)], HW as int)
}

/// A whole frame of the scene, followed by its control planes, is the input.
proof fn lemma_control_planes(f: Seq<u32>, u: Control)
    requires
        f.len() == HW,
    ensures
        input_planes(f, u).subrange(HW as int, 3 * HW) == control_planes(u),
{
    let c = input_planes(f, u).subrange(HW as int, 3 * HW);
    assert(c =~= control_planes(u));
}

impl ConvLstm {
    /// Whether the tensors of a state have the sizes of the architecture, for `batch`
    /// streams.
    fn fits(&self, st: &State, batch: usize) -> (r: bool)
        requires
            computable(self.cfg),
        ensures
            r == st@.shaped(self.cfg, batch as int),
    {
        proof {
            lemma_sizes(self.cfg);
            lemma_batch_sizes(self.cfg, batch as int);
        }
        let n: usize = self.cfg.height * self.cfg.width;
        let one: usize = self.cfg.hidden_channels * n;
        is_multiple(st.h.len(), batch, one) && is_multiple(st.c.len(), batch, one) && is_multiple(
            st.carry.len(),
            batch,
            2 * n,
        )
    }

    /// Stream `b` of a batch.
    fn stream_of(&self, st: &State, batch: usize, b: usize) -> (r: State)
        requires
            computable(self.cfg),
            st@.shaped(self.cfg, batch as int),
            b < batch,
        ensures
            r@ == stream(self.cfg, st@, b as int),
            r@.shaped(self.cfg, 1),
    {
        proof {
            lemma_sizes(self.cfg);
            lemma_batch_sizes(self.cfg, batch as int);
            lemma_stream_is_shaped(self.cfg, st@, batch as int, b as int);
            lemma_block_inside(
                b as int,
                batch as int,
                self.cfg.hidden_channels * self.cfg.pixels(),
            );
            lemma_block_inside(b as int, batch as int, 2 * self.cfg.pixels());
        }
        let n: usize = self.cfg.height * self.cfg.width;
        let one: usize = self.cfg.hidden_channels * n;
        State {
            h: block_of(st.h.as_slice(), one, b),
            c: block_of(st.c.as_slice(), one, b),
            carry: block_of(st.carry.as_slice(), 2 * n, b),
        }
    }

    /// One recurrent step: consume a frame under two control planes, in each stream of a
    /// batch.
    ///
    /// The state that comes of it is all that an emission reads. Tensors that do not fit
    /// the architecture or are of different numbers of streams, an architecture with other
    /// inputs or one whose kernel changes the size of the field are errors.
    pub fn cell(&self, frame: &[u32], control: &[u32], prev: &State) -> (r: Result<
        State,
        ComputeError,
    >)
        requires
            self.wf(),
            computable(self.cfg),
        ensures
            r is Ok <==> exists|batch: int| #[trigger]
                can_step(self.cfg, batch, frame@, control@, prev@),
            forall|batch: int| #[trigger]
                can_step(self.cfg, batch, frame@, control@, prev@) ==> r is Ok && streams_step(
                    *self,
                    batch,
                    frame@,
                    control@,
                    prev@,
                    r->Ok_0@,
                ),
    {
        if self.cfg.in_channels != 3 {
            return Err(mismatched("a frame and its controls are three channels"));
        }
        if self.cfg.kernel % 2 == 0 {
            return Err(mismatched("an even kernel does not keep the size of the field"));
        }
        proof {
            lemma_sizes(self.cfg);
        }
        let n: usize = self.cfg.height * self.cfg.width;
        let batch: usize = frame.len() / n;
        proof {
            lemma_batch_sizes(self.cfg, batch as int);
            assert forall|k: int| #[trigger]
                can_step(self.cfg, k, frame@, control@, prev@) implies k == batch by {
                vstd::arithmetic::div_mod::lemma_div_by_multiple(k, n as int);
            }
        }
        if !is_multiple(frame.len(), batch, n) || !is_multiple(control.len(), batch, 2 * n)
            || !self.fits(prev, batch) {
            return Err(mismatched("the tensors are not those of the architecture"));
        }
        assert(can_step(self.cfg, batch as int, frame@, control@, prev@));
        self.cells(frame, control, prev, batch)
    }

    /// The step of each stream of a batch.
    fn cells(&self, frame: &[u32], control: &[u32], prev: &State, batch: usize) -> (r: Result<
        State,
        ComputeError,
    >)
        requires
            self.wf(),
            computable(self.cfg),
            can_step(self.cfg, batch as int, frame@, control@, prev@),
        ensures
            r matches Ok(s) && streams_step(*self, batch as int, frame@, control@, prev@, s@),
    {
        proof {
            lemma_sizes(self.cfg);
            lemma_batch_sizes(self.cfg, batch as int);
        }
        let n: usize = self.cfg.height * self.cfg.width;
        let ghost one = self.cfg.hidden_channels * self.cfg.pixels();
        let mut next = State { h: Vec::new(), c: Vec::new(), carry: Vec::new() };
        let mut b: usize = 0;
        while b < batch
            invariant
                self.wf(),
                computable(self.cfg),
                can_step(self.cfg, batch as int, frame@, control@, prev@),
                n == self.cfg.pixels(),
                n > 0,
                2 * n <= usize::MAX,
                one == self.cfg.hidden_channels * self.cfg.pixels(),
                2 * batch * self.cfg.pixels() == batch * (2 * self.cfg.pixels()),
                b <= batch,
                next.h@.len() == b * one,
                next.c@.len() == b * one,
                next.carry@.len() == b * (2 * n),
                forall|j: int|
                    0 <= j < b ==> steps(
                        *self,
                        block(frame@, n as int, j),
                        block(control@, 2 * n, j),
                        stream(self.cfg, prev@, j),
                        #[trigger] stream(self.cfg, next@, j),
                    ),
            decreases batch - b,
        {
            proof {
                lemma_block_inside(b as int, batch as int, n as int);
                lemma_block_inside(b as int, batch as int, 2 * n);
                lemma_sizes(self.cfg);
            }
            let x = block_of(frame, n, b);
            let u = block_of(control, 2 * n, b);
            let st = self.stream_of(prev, batch, b);
            let mut s = self.cell_stream(x.as_slice(), u.as_slice(), &st)?;
            let ghost before = next@;
            let ghost added = s@;
            next.h.append(&mut s.h);
            next.c.append(&mut s.c);
            next.carry.append(&mut s.carry);
            proof {
                lemma_block_appended(before.h, added.h, one, b as int);
                lemma_block_appended(before.c, added.c, one, b as int);
                lemma_block_appended(before.carry, added.carry, 2 * n, b as int);
                assert(next@.h =~= before.h + added.h);
                assert(next@.c =~= before.c + added.c);
                assert(next@.carry =~= before.carry + added.carry);
                assert(stream(self.cfg, next@, b as int) == added);
                assert forall|j: int| 0 <= j <= b implies steps(
                    *self,
                    block(frame@, n as int, j),
                    block(control@, 2 * n, j),
                    stream(self.cfg, prev@, j),
                    #[trigger] stream(self.cfg, next@, j),
                ) by {
                    if j < b {
                        assert(stream(self.cfg, next@, j) == stream(self.cfg, before, j));
                    }
                }
            }
            b = b + 1;
        }
        proof {
            lemma_batch_sizes(self.cfg, batch as int);
        }
        Ok(next)
    }

    /// The step of one stream.
    fn cell_stream(&self, frame: &[u32], control: &[u32], prev: &State) -> (r: Result<
        State,
        ComputeError,
    >)
        requires
            self.wf(),
            computable(self.cfg),
            self.cfg.in_channels == 3,
            self.cfg.kernel % 2 == 1,
            frame@.len() == self.cfg.pixels(),
            control@.len() == 2 * self.cfg.pixels(),
            prev@.shaped(self.cfg, 1),
        ensures
            r matches Ok(s) && steps(*self, frame@, control@, prev@, s@),
    {
        proof {
            lemma_sizes(self.cfg);
        }
        let h: usize = self.cfg.hidden_channels;
        let n: usize = self.cfg.height * self.cfg.width;
        proof {
            lemma_elements_four(4 * h, 3 + h, self.cfg.kernel as int, self.cfg.kernel as int);
            lemma_elements_one(4 * h);
            assert(self.params@[0].bits@.len() == elements(param_shape(self.cfg, 0)));
            assert(self.params@[1].bits@.len() == elements(param_shape(self.cfg, 1)));
        }
        let seen = joined(frame, control);
        let x = joined(seen.as_slice(), prev.h.as_slice());
        let raw = convolve(
            &x,
            3 + h,
            self.cfg.height,
            self.cfg.width,
            &self.params[0].bits,
            4 * h,
            self.cfg.kernel,
        )?;
        let bias = spread(&self.params[1].bits, n);
        let gates = add_lists(&raw, &bias)?;
        let one: usize = prev.c.len();
        assert(gates@.len() == 4 * one);
        let (c, new_h) = gate(&gates, &prev.c)?;
        let carry = next_carry(frame, &prev.carry);
        proof {
            assert(convolves(
                x@,
                3 + h,
                self.cfg.height as int,
                self.cfg.width as int,
                self.params@[0].bits@,
                4 * h,
                self.cfg.kernel as int,
                raw@,
            ));
            assert(x@ =~= frame@ + control@ + prev.h@);
            assert(preactivations(*self, frame@ + control@ + prev.h@, gates@));
        }
        Ok(State { h: new_h, c, carry })
    }

    /// One recurrent step on a frame of the scene under a control word, of one stream.
    pub fn step(&self, frame: &[u32], u: Control, prev: &State) -> (r: Result<State, ComputeError>)
        requires
            self.wf(),
            computable(self.cfg),
        ensures
            r is Ok <==> frame@.len() == HW && can_step(
                self.cfg,
                1,
                frame@,
                control_planes(u),
                prev@,
            ),
            r matches Ok(s) ==> steps(*self, frame@, control_planes(u), prev@, s@),
    {
        proof {
            lemma_sizes(self.cfg);
        }
        if self.cfg.in_channels != 3 || self.cfg.kernel % 2 == 0 {
            return Err(mismatched("the architecture has no step of one frame"));
        }
        if frame.len() != HW || self.cfg.height * self.cfg.width != HW || !self.fits(prev, 1) {
            return Err(mismatched("a frame of the scene has other sizes"));
        }
        let input = model_input(frame, u);
        let control = part(input.as_slice(), HW, 3 * HW);
        proof {
            lemma_control_planes(frame@, u);
        }
        self.cell_stream(frame, control.as_slice(), prev)
    }

    /// Emit the next frame of each stream of a batch: the newest frame of its carry plus a
    /// correction that is bounded by the residual scale, brought into the range from zero to
    /// one. Tensors that do not fit the architecture, or a kernel that changes the size of
    /// the field, are errors.
    pub fn head(&self, st: &State) -> (r: Result<Vec<u32>, ComputeError>)
        requires
            self.wf(),
            computable(self.cfg),
        ensures
            r is Ok <==> can_emit(self.cfg, st@),
            r matches Ok(y) ==> emits(*self, st@, y@),
            forall|batch: int|
                self.cfg.kernel % 2 == 1 && 0 <= batch && #[trigger] st@.shaped(self.cfg, batch)
                    ==> r is Ok && streams_emit(*self, batch, st@, r->Ok_0@),
    {
        if self.cfg.kernel % 2 == 0 {
            return Err(mismatched("an even kernel does not keep the size of the field"));
        }
        proof {
            lemma_sizes(self.cfg);
        }
        let n: usize = self.cfg.height * self.cfg.width;
        let batch: usize = st.carry.len() / (2 * n);
        proof {
            assert forall|k: int| 0 <= k && #[trigger] st@.shaped(self.cfg, k) implies k
                == batch by {
                lemma_batch_sizes(self.cfg, k);
                vstd::arithmetic::div_mod::lemma_div_by_multiple(k, 2 * n);
            }
        }
        if !self.fits(st, batch) {
            return Err(mismatched("the tensors are not those of the architecture"));
        }
        proof {
            lemma_batch_sizes(self.cfg, batch as int);
        }
        let mut out: Vec<u32> = Vec::new();
        let mut b: usize = 0;
        while b < batch
            invariant
                self.wf(),
                computable(self.cfg),
                self.cfg.kernel % 2 == 1,
                st@.shaped(self.cfg, batch as int),
                n == self.cfg.pixels(),
                b <= batch,
                out@.len() == b * n,
                forall|j: int|
                    0 <= j < b ==> emits_frame(
                        *self,
                        stream(self.cfg, st@, j),
                        #[trigger] block(out@, n as int, j),
                    ),
            decreases batch - b,
        {
            let s = self.stream_of(st, batch, b);
            let mut y = self.head_stream(&s)?;
            let ghost before = out@;
            let ghost added = y@;
            out.append(&mut y);
            proof {
                lemma_block_appended(before, added, n as int, b as int);
                assert(out@ =~= before + added);
            }
            b = b + 1;
        }
        assert(streams_emit(*self, batch as int, st@, out@));
        Ok(out)
    }

    /// The emission of one stream.
    fn head_stream(&self, st: &State) -> (r: Result<Vec<u32>, ComputeError>)
        requires
            self.wf(),
            computable(self.cfg),
            self.cfg.kernel % 2 == 1,
            st@.shaped(self.cfg, 1),
        ensures
            r matches Ok(y) && emits_frame(*self, st@, y@),
    {
        proof {
            lemma_sizes(self.cfg);
        }
        let h: usize = self.cfg.hidden_channels;
        let n: usize = st.carry.len() / 2;
        proof {
            lemma_elements_four(8, h + 2, self.cfg.kernel as int, self.cfg.kernel as int);
            lemma_elements_four(1, 8, 1, 1);
            lemma_elements_one(8);
            lemma_elements_one(1);
            assert(self.params@[2].bits@.len() == elements(param_shape(self.cfg, 2)));
            assert(self.params@[3].bits@.len() == elements(param_shape(self.cfg, 3)));
            assert(self.params@[4].bits@.len() == elements(param_shape(self.cfg, 4)));
            assert(self.params@[5].bits@.len() == elements(param_shape(self.cfg, 5)));
        }
        let x = joined(st.h.as_slice(), st.carry.as_slice());
        let raw = convolve(
            &x,
            h + 2,
            self.cfg.height,
            self.cfg.width,
            &self.params[2].bits,
            8,
            self.cfg.kernel,
        )?;
        let bias = spread(&self.params[3].bits, n);
        let sum = add_lists(&raw, &bias)?;
        let middle = tanh(&sum)?;
        proof {
            assert(convolves(
                x@,
                h + 2,
                self.cfg.height as int,
                self.cfg.width as int,
                self.params@[2].bits@,
                8,
                self.cfg.kernel as int,
                raw@,
            ));
            assert(adds_all(raw@, bias@, sum@));
            assert(tangent_all(sum@, middle@));
            assert(hidden_layer(*self, x@, middle@));
        }
        let raw = convolve(
            &middle,
            8,
            self.cfg.height,
            self.cfg.width,
            &self.params[4].bits,
            1,
            1,
        )?;
        let bias = spread(&self.params[5].bits, n);
        let sum = add_lists(&raw, &bias)?;
        let bounded = tanh(&sum)?;
        proof {
            assert(convolves(
                middle@,
                8,
                self.cfg.height as int,
                self.cfg.width as int,
                self.params@[4].bits@,
                1,
                1,
                raw@,
            ));
            assert(adds_all(raw@, bias@, sum@));
            assert(tangent_all(sum@, bounded@));
            assert(output_layer(*self, middle@, bounded@));
        }
        let newest = part(st.carry.as_slice(), 0, n);
        assert(newest@ =~= st.carry@.take(n as int));
        correct(&newest, &bounded)
    }
}

/// The parts of `g` are the gates and the candidate of a cell tensor: its new cell tensor
/// and hidden tensor.
pub fn gate(g: &Vec<u32>, old_c: &Vec<u32>) -> (r: Result<(Vec<u32>, Vec<u32>), ComputeError>)
    requires
        0 < old_c@.len(),
        g@.len() == 4 * old_c@.len(),
        4 * old_c@.len() <= usize::MAX,
    ensures
        r matches Ok((new_c, new_h)) && {
            &&& gated(g@, old_c@, new_c@, new_h@)
            &&& new_c@.len() == old_c@.len()
            &&& new_h@.len() == old_c@.len()
        },
{
    let n: usize = old_c.len();
    let input = sigmoid(&part(g.as_slice(), 0, n))?;
    let forget = sigmoid(&part(g.as_slice(), n, 2 * n))?;
    let output = sigmoid(&part(g.as_slice(), 2 * n, 3 * n))?;
    let candidate = tanh(&part(g.as_slice(), 3 * n, 4 * n))?;
    let kept = multiply_lists(&forget, old_c)?;
    let taken = multiply_lists(&input, &candidate)?;
    let c = add_lists(&kept, &taken)?;
    let shown = tanh(&c)?;
    let h = multiply_lists(&output, &shown)?;
    proof {
        assert(logistic_all(g@.subrange(0, n as int), input@));
        assert(logistic_all(g@.subrange(n as int, 2 * n), forget@));
        assert(logistic_all(g@.subrange(2 * n, 3 * n), output@));
        assert(tangent_all(g@.subrange(3 * n, 4 * n), candidate@));
        assert(multiplies_all(forget@, old_c@, kept@));
        assert(multiplies_all(input@, candidate@, taken@));
        assert(tangent_all(c@, shown@));
    }
    Ok((c, h))
}

/// The carry after a frame was consumed: that frame, and the newest before it.
pub fn next_carry(frame: &[u32], carry: &Vec<u32>) -> (out: Vec<u32>)
    requires
        carry@.len() >= frame@.len(),
    ensures
        out@ == frame@ + carry@.take(frame@.len() as int),
{
    let previous = part(carry.as_slice(), 0, frame.len());
    assert(previous@ =~= carry@.take(frame@.len() as int));
    joined(frame, previous.as_slice())
}

// ---------------------------------------------------------------------------
// The emission
// ---------------------------------------------------------------------------

/// The hidden layer of the head: the tangent of a convolution of the hidden tensor and
/// the carry, with a bias for each channel.
pub open spec fn hidden_layer(m: ConvLstm, x: Seq<u32>, middle: Seq<u32>) -> bool {
    exists|raw: Seq<u32>, sum: Seq<u32>|
        {
            &&& #[trigger] convolves(
                x,
                m.cfg.hidden_channels + 2,
                m.cfg.height as int,
                m.cfg.width as int,
                m.params@[2].bits@,
                8,
                m.cfg.kernel as int,
                raw,
            )
            &&& adds_all(raw, planes(m.params@[3].bits@, m.cfg.pixels()), sum)
            &&& #[trigger] tangent_all(sum, middle)
        }
}

/// The output of the head: the tangent of a weighted sum over the hidden layer, pixel by
/// pixel, with a bias.
pub open spec fn output_layer(m: ConvLstm, middle: Seq<u32>, bounded: Seq<u32>) -> bool {
    exists|raw: Seq<u32>, sum: Seq<u32>|
        {
            &&& #[trigger] convolves(
                middle,
                8,
                m.cfg.height as int,
                m.cfg.width as int,
                m.params@[4].bits@,
                1,
                1,
                raw,
            )
            &&& adds_all(raw, planes(m.params@[5].bits@, m.cfg.pixels()), sum)
            &&& #[trigger] tangent_all(sum, bounded)
        }
}

/// `out` is a frame to which `bounded`, scaled, was added, brought into range.
pub open spec fn corrected(newest: Seq<u32>, bounded: Seq<u32>, out: Seq<u32>) -> bool {
    exists|scaled: Seq<u32>, correction: Seq<u32>, emitted: Seq<u32>|
        {
            &&& #[trigger] multiplies_all(bounded, constant(RESIDUAL_SCALE, newest.len()), scaled)
            &&& #[trigger] adds_all(scaled, constant(0, newest.len()), correction)
            &&& #[trigger] adds_all(newest, correction, emitted)
            &&& out.len() == newest.len()
            &&& forall|i: int| 0 <= i < out.len() ==> (#[trigger] out[i]) == clamped(emitted[i])
        }
}

/// `out` is the frame that a state of one stream emits: the newest frame of its carry,
/// corrected.
pub open spec fn emits_frame(m: ConvLstm, st: StateModel, out: Seq<u32>) -> bool {
    &&& out.len() == m.cfg.pixels()
    &&& exists|middle: Seq<u32>, bounded: Seq<u32>|
        {
            &&& #[trigger] hidden_layer(m, st.h + st.carry, middle)
            &&& #[trigger] output_layer(m, middle, bounded)
            &&& corrected(st.carry.take(m.cfg.pixels()), bounded, out)
        }
}

/// `out` is what a state of `batch` streams emits: the frame of each, one after the other.
pub open spec fn streams_emit(m: ConvLstm, batch: int, st: StateModel, out: Seq<u32>) -> bool {
    let n = m.cfg.pixels();
    &&& out.len() == batch * n
    &&& forall|b: int|
        0 <= b < batch ==> emits_frame(m, stream(m.cfg, st, b), #[trigger] block(out, n, b))
}

/// `out` is what a state emits, of however many streams it is.
pub open spec fn emits(m: ConvLstm, st: StateModel, out: Seq<u32>) -> bool {
    exists|batch: int|
        0 <= batch && #[trigger] st.shaped(m.cfg, batch) && streams_emit(m, batch, st, out)
}

/// An emission that an architecture has: a kernel that keeps the size of the field, and
/// tensors of the sizes that go with it, for some number of streams.
pub open spec fn can_emit(cfg: ModelConfig, st: StateModel) -> bool {
    cfg.kernel % 2 == 1 && exists|batch: int| 0 <= batch && #[trigger] st.shaped(cfg, batch)
}

/// What a state of one stream emits is one frame.
pub proof fn lemma_one_stream_emits_a_frame(m: ConvLstm, st: StateModel, out: Seq<u32>)
    requires
        computable(m.cfg),
        st.shaped(m.cfg, 1),
        emits(m, st, out),
    ensures
        out.len() == m.cfg.pixels(),
        emits_frame(m, st, out),
{
    let batch = choose|batch: int|
        0 <= batch && #[trigger] st.shaped(m.cfg, batch) && streams_emit(m, batch, st, out);
    lemma_streams_are_counted(m.cfg, st, batch, 1);
    lemma_only_stream(m.cfg, st);
    let n = m.cfg.pixels();
    assert(0 * n == 0 && 1 * n == n) by (nonlinear_arith);
    assert(block(out, n, 0) =~= out);
}

/// Add a bounded correction to a frame, scaled, and bring it into range.
pub fn correct(newest: &Vec<u32>, bounded: &Vec<u32>) -> (r: Result<Vec<u32>, ComputeError>)
    requires
        0 < newest@.len(),
        bounded@.len() == newest@.len(),
        4 * newest@.len() <= usize::MAX,
    ensures
        r matches Ok(out) && corrected(newest@, bounded@, out@),
{
    let n: usize = newest.len();
    let scale = filled(RESIDUAL_SCALE, n);
    let scaled = multiply_lists(bounded, &scale)?;
    let zero = filled(0, n);
    let correction = add_lists(&scaled, &zero)?;
    let emitted = add_lists(newest, &correction)?;
    let out = clamp(&emitted);
    proof {
        assert(multiplies_all(bounded@, scale@, scaled@));
        assert(adds_all(scaled@, zero@, correction@));
        assert(adds_all(newest@, correction@, emitted@));
    }
    Ok(out)
}

// ---------------------------------------------------------------------------
// Laws
// ---------------------------------------------------------------------------

/// Whatever the weights, what is emitted lies in the range from zero to one, or is
/// no number.
pub proof fn law_emissions_stay_in_range(m: ConvLstm, st: StateModel, out: Seq<u32>, i: int)
    requires
        computable(m.cfg),
        emits(m, st, out),
        0 <= i < out.len(),
    ensures
        is_nan32(out[i]) || 0 <= order_key32(out[i]) <= order_key32(ONE_BITS),
{
    let n = m.cfg.pixels();
    lemma_sizes(m.cfg);
    let batch = choose|batch: int|
        0 <= batch && #[trigger] st.shaped(m.cfg, batch) && streams_emit(m, batch, st, out);
    let b = i / n;
    let k = i % n;
    vstd::arithmetic::div_mod::lemma_fundamental_div_mod(i, n);
    assert(0 <= b < batch && i == b * n + k && 0 <= k < n) by (nonlinear_arith)
        requires
            0 < n,
            0 <= i < batch * n,
            i == n * b + k,
            b == i / n,
            k == i % n,
    ;
    lemma_block_inside(b, batch, n);
    assert(emits_frame(m, stream(m.cfg, st, b), block(out, n, b)));
    assert(out[i] == block(out, n, b)[k]);
    lemma_frame_stays_in_range(m, stream(m.cfg, st, b), block(out, n, b), k);
}

/// The frame of one stream stays in range.
proof fn lemma_frame_stays_in_range(m: ConvLstm, st: StateModel, out: Seq<u32>, i: int)
    requires
        emits_frame(m, st, out),
        0 <= i < out.len(),
    ensures
        is_nan32(out[i]) || 0 <= order_key32(out[i]) <= order_key32(ONE_BITS),
{
    let newest = st.carry.take(m.cfg.pixels());
    let (middle, bounded) = choose|middle: Seq<u32>, bounded: Seq<u32>|
        {
            &&& #[trigger] hidden_layer(m, st.h + st.carry, middle)
            &&& #[trigger] output_layer(m, middle, bounded)
            &&& corrected(newest, bounded, out)
        };
    let (scaled, correction, emitted) = choose|
        scaled: Seq<u32>,
        correction: Seq<u32>,
        emitted: Seq<u32>,
    |
        {
            &&& #[trigger] multiplies_all(bounded, constant(RESIDUAL_SCALE, newest.len()), scaled)
            &&& #[trigger] adds_all(scaled, constant(0, newest.len()), correction)
            &&& #[trigger] adds_all(newest, correction, emitted)
            &&& out.len() == newest.len()
            &&& forall|i: int| 0 <= i < out.len() ==> (#[trigger] out[i]) == clamped(emitted[i])
        };
    assert(out[i] == clamped(emitted[i]));
    law_clamping(emitted[i]);
}

/// After two steps the carry of each stream is exactly the two frames that it consumed, the
/// newest first.
pub proof fn law_carry_is_the_last_two_frames(
    m: ConvLstm,
    batch: int,
    first: Seq<u32>,
    second: Seq<u32>,
    u1: Seq<u32>,
    u2: Seq<u32>,
    s0: StateModel,
    s1: StateModel,
    s2: StateModel,
    b: int,
)
    requires
        computable(m.cfg),
        streams_step(m, batch, first, u1, s0, s1),
        streams_step(m, batch, second, u2, s1, s2),
        first.len() == batch * m.cfg.pixels(),
        0 <= b < batch,
    ensures
        stream(m.cfg, s2, b).carry == block(second, m.cfg.pixels(), b) + block(
            first,
            m.cfg.pixels(),
            b,
        ),
{
    let n = m.cfg.pixels();
    lemma_sizes(m.cfg);
    lemma_block_inside(b, batch, n);
    let old_frame = block(first, n, b);
    assert(stream(m.cfg, s1, b).carry.take(n) =~= old_frame) by {
        assert(stream(m.cfg, s1, b).carry == old_frame + stream(m.cfg, s0, b).carry.take(n));
    }
    assert(stream(m.cfg, s2, b).carry == block(second, n, b) + stream(m.cfg, s1, b).carry.take(n));
}

/// Streams do not mix: what a step makes of a stream, and what it emits, is what the step
/// makes of that stream alone.
pub proof fn law_streams_are_independent(
    m: ConvLstm,
    batch: int,
    frame: Seq<u32>,
    control: Seq<u32>,
    prev: StateModel,
    next: StateModel,
    out: Seq<u32>,
    b: int,
)
    requires
        computable(m.cfg),
        can_step(m.cfg, batch, frame, control, prev),
        streams_step(m, batch, frame, control, prev, next),
        streams_emit(m, batch, next, out),
        0 <= b < batch,
    ensures
        ({
            let n = m.cfg.pixels();
            let x = block(frame, n, b);
            let u = block(control, 2 * n, b);
            let (s, t) = (stream(m.cfg, prev, b), stream(m.cfg, next, b));
            &&& can_step(m.cfg, 1, x, u, s)
            &&& streams_step(m, 1, x, u, s, t)
            &&& streams_emit(m, 1, t, block(out, n, b))
        }),
{
    let n = m.cfg.pixels();
    lemma_sizes(m.cfg);
    lemma_batch_sizes(m.cfg, batch);
    lemma_block_inside(b, batch, n);
    lemma_block_inside(b, batch, 2 * n);
    let x = block(frame, n, b);
    let u = block(control, 2 * n, b);
    let (s, t) = (stream(m.cfg, prev, b), stream(m.cfg, next, b));
    let y = block(out, n, b);
    lemma_stream_is_shaped(m.cfg, prev, batch, b);
    lemma_stream_is_shaped(m.cfg, next, batch, b);
    lemma_only_stream(m.cfg, s);
    lemma_only_stream(m.cfg, t);
    assert(block(x, n, 0) =~= x);
    assert(block(u, 2 * n, 0) =~= u);
    assert(block(y, n, 0) =~= y);
}

// ---------------------------------------------------------------------------
// What a step and an emission do, number by number
// ---------------------------------------------------------------------------

/// A block is its own numbers, in order.
pub proof fn law_block_holds_its_own(s: Seq<u32>, n: int, b: int, i: int)
    requires
        0 <= b,
        0 <= i < n,
        (b + 1) * n <= s.len(),
    ensures
        block(s, n, b).len() == n,
        block(s, n, b)[i] == s[b * n + i],
{
    assert((b + 1) * n == b * n + n) by (nonlinear_arith);
    assert(0 <= b * n) by (nonlinear_arith)
        requires
            0 <= b,
            0 <= n,
    ;
}

/// The control planes are a plane of the steering and then a plane of the throttle.
pub proof fn law_control_planes_are_steering_then_throttle(u: Control, i: int)
    ensures
        control_planes(u).len() == 2048,
        0 <= i < 1024 ==> control_planes(u)[i] == setting_bits(u.turn),
        1024 <= i < 2048 ==> control_planes(u)[i] == setting_bits(u.accel),
{
}

/// The gates blend number by number. Of the four quarters the first opens the input, the
/// second keeps the old cell, the third shows the new one, all by the logistic function, and
/// the fourth is the candidate, by the tangent: the new cell is what is kept plus what is
/// let in, and the hidden number is the new cell's tangent as far as it is shown.
pub proof fn law_gates_blend_number_by_number(
    g: Seq<u32>,
    old_c: Seq<u32>,
    new_c: Seq<u32>,
    new_h: Seq<u32>,
    n: int,
    i: int,
)
    requires
        gated(g, old_c, new_c, new_h),
        n == old_c.len(),
        g.len() == 4 * n,
        0 <= i < old_c.len(),
    ensures
        new_c.len() == old_c.len(),
        new_h.len() == old_c.len(),
        exists|
            let_in: u32,
            keep: u32,
            show: u32,
            candidate: u32,
            kept: u32,
            taken: u32,
            shown: u32,
        |
            {
                &&& #[trigger] sigmoid_gives(g[i], let_in)
                &&& #[trigger] sigmoid_gives(g[n + i], keep)
                &&& #[trigger] sigmoid_gives(g[2 * n + i], show)
                &&& #[trigger] tanh_gives(g[3 * n + i], candidate)
                &&& #[trigger] product_gives(keep, old_c[i], kept)
                &&& #[trigger] product_gives(let_in, candidate, taken)
                &&& sum_gives(kept, taken, new_c[i])
                &&& #[trigger] tanh_gives(new_c[i], shown)
                &&& product_gives(show, shown, new_h[i])
            },
{
    let (input, forget, output, candidate, kept, taken, shown) = choose|
        input: Seq<u32>,
        forget: Seq<u32>,
        output: Seq<u32>,
        candidate: Seq<u32>,
        kept: Seq<u32>,
        taken: Seq<u32>,
        shown: Seq<u32>,
    |
        {
            &&& #[trigger] logistic_all(g.subrange(0, n), input)
            &&& #[trigger] logistic_all(g.subrange(n, 2 * n), forget)
            &&& #[trigger] logistic_all(g.subrange(2 * n, 3 * n), output)
            &&& #[trigger] tangent_all(g.subrange(3 * n, 4 * n), candidate)
            &&& #[trigger] multiplies_all(forget, old_c, kept)
            &&& #[trigger] multiplies_all(input, candidate, taken)
            &&& adds_all(kept, taken, new_c)
            &&& #[trigger] tangent_all(new_c, shown)
            &&& multiplies_all(output, shown, new_h)
        };
    assert(g.subrange(0, n)[i] == g[i]);
    assert(g.subrange(n, 2 * n)[i] == g[n + i]);
    assert(g.subrange(2 * n, 3 * n)[i] == g[2 * n + i]);
    assert(g.subrange(3 * n, 4 * n)[i] == g[3 * n + i]);
    assert(sigmoid_gives(g[i], input[i]));
    assert(sigmoid_gives(g[n + i], forget[i]));
    assert(sigmoid_gives(g[2 * n + i], output[i]));
    assert(tanh_gives(g[3 * n + i], candidate[i]));
    assert(product_gives(forget[i], old_c[i], kept[i]));
    assert(product_gives(input[i], candidate[i], taken[i]));
    assert(sum_gives(kept[i], taken[i], new_c[i]));
    assert(tanh_gives(new_c[i], shown[i]));
    assert(product_gives(output[i], shown[i], new_h[i]));
}

/// A bias is added to each number of a convolution, the same one throughout a channel.
proof fn lemma_bias_of(bias: Seq<u32>, n: int, c: int, p: int)
    requires
        0 <= c < bias.len(),
        0 <= p < n,
    ensures
        0 <= c * n + p < bias.len() * n,
        planes(bias, n)[c * n + p] == bias[c],
{
    lemma_plane_of(c, p, n);
    assert(0 <= c * n + p < bias.len() * n) by (nonlinear_arith)
        requires
            0 <= c < bias.len(),
            0 <= p < n,
    ;
}

/// What the gates are of: the first parameter convolved with the frame, the controls and the
/// hidden tensor, padded by half a kernel, and the second parameter as a bias of each
/// channel.
pub proof fn law_preactivations_are_a_biased_convolution(
    m: ConvLstm,
    x: Seq<u32>,
    g: Seq<u32>,
    c: int,
    p: int,
)
    requires
        m.wf(),
        computable(m.cfg),
        preactivations(m, x, g),
        0 <= c < 4 * m.cfg.hidden_channels,
        0 <= p < m.cfg.pixels(),
    ensures
        exists|raw: Seq<u32>|
            {
                let n = m.cfg.pixels();
                &&& #[trigger] convolution_gives(
                    floats_to_bytes(x),
                    3 + m.cfg.hidden_channels,
                    m.cfg.height as int,
                    m.cfg.width as int,
                    floats_to_bytes(m.params@[0].bits@),
                    4 * m.cfg.hidden_channels,
                    m.cfg.kernel as int,
                    m.cfg.kernel as int / 2,
                    floats_to_bytes(raw),
                )
                &&& raw.len() == g.len()
                &&& sum_gives(raw[c * n + p], m.params@[1].bits@[c], g[c * n + p])
            },
{
    let h = m.cfg.hidden_channels as int;
    let n = m.cfg.pixels();
    let raw = choose|raw: Seq<u32>|
        {
            &&& #[trigger] convolves(
                x,
                3 + h,
                m.cfg.height as int,
                m.cfg.width as int,
                m.params@[0].bits@,
                4 * h,
                m.cfg.kernel as int,
                raw,
            )
            &&& adds_all(raw, planes(m.params@[1].bits@, m.cfg.pixels()), g)
        };
    lemma_sizes(m.cfg);
    lemma_elements_one(4 * h);
    assert(m.params@[1].bits@.len() == elements(param_shape(m.cfg, 1)));
    lemma_bias_of(m.params@[1].bits@, n, c, p);
    assert(g.len() == 4 * h * n);
    assert(sum_gives(
        raw[c * n + p],
        planes(m.params@[1].bits@, n)[c * n + p],
        g[c * n + p],
    ));
}

/// A step of one stream: the gates are of the frame, then the controls, then the hidden
/// tensor; they turn the old cell into the new one and the new hidden tensor; and the new
/// carry is the frame, in front of the newest frame of the old one.
pub proof fn law_step_reads_frame_controls_and_hidden(
    m: ConvLstm,
    frame: Seq<u32>,
    control: Seq<u32>,
    prev: StateModel,
    next: StateModel,
    i: int,
)
    requires
        steps(m, frame, control, prev, next),
        computable(m.cfg),
        frame.len() == m.cfg.pixels(),
        prev.carry.len() == 2 * m.cfg.pixels(),
        0 <= i < m.cfg.pixels(),
    ensures
        next.shaped(m.cfg, 1),
        next.carry.len() == 2 * m.cfg.pixels(),
        next.carry[i] == frame[i],
        next.carry[m.cfg.pixels() + i] == prev.carry[i],
        exists|x: Seq<u32>, g: Seq<u32>|
            {
                &&& #[trigger] preactivations(m, x, g)
                &&& x.len() == frame.len() + control.len() + prev.h.len()
                &&& x.take(frame.len() as int) == frame
                &&& x.subrange(frame.len() as int, frame.len() as int + control.len()) == control
                &&& x.skip(frame.len() as int + control.len()) == prev.h
                &&& gated(g, prev.c, next.c, next.h)
            },
{
    lemma_sizes(m.cfg);
    let g = choose|g: Seq<u32>| #[trigger]
        preactivations(m, frame + control + prev.h, g) && gated(g, prev.c, next.c, next.h);
    let x = frame + control + prev.h;
    assert(x.take(frame.len() as int) =~= frame);
    assert(x.subrange(frame.len() as int, frame.len() as int + control.len()) =~= control);
    assert(x.skip(frame.len() as int + control.len()) =~= prev.h);
    assert(preactivations(m, x, g));
}

/// A frame that is emitted is the newest of the carry, each pixel of it corrected by the
/// bounded output times the residual scale, which is six tenths, and brought into range.
pub proof fn law_emission_corrects_the_newest_frame(
    m: ConvLstm,
    st: StateModel,
    out: Seq<u32>,
    i: int,
)
    requires
        emits_frame(m, st, out),
        computable(m.cfg),
        st.carry.len() == 2 * m.cfg.pixels(),
        0 <= i < m.cfg.pixels(),
    ensures
        out.len() == m.cfg.pixels(),
        exists|
            middle: Seq<u32>,
            bounded: Seq<u32>,
            scaled: u32,
            correction: u32,
            emitted: u32,
        |
            {
                &&& #[trigger] hidden_layer(m, st.h + st.carry, middle)
                &&& #[trigger] output_layer(m, middle, bounded)
                &&& #[trigger] product_gives(bounded[i], 0x3f19_999a, scaled)
                &&& #[trigger] sum_gives(scaled, 0, correction)
                &&& #[trigger] sum_gives(st.carry[i], correction, emitted)
                &&& out[i] == clamped(emitted)
            },
{
    lemma_sizes(m.cfg);
    let newest = st.carry.take(m.cfg.pixels());
    let (middle, bounded) = choose|middle: Seq<u32>, bounded: Seq<u32>|
        {
            &&& #[trigger] hidden_layer(m, st.h + st.carry, middle)
            &&& #[trigger] output_layer(m, middle, bounded)
            &&& corrected(newest, bounded, out)
        };
    let (scaled, correction, emitted) = choose|
        scaled: Seq<u32>,
        correction: Seq<u32>,
        emitted: Seq<u32>,
    |
        {
            &&& #[trigger] multiplies_all(bounded, constant(RESIDUAL_SCALE, newest.len()), scaled)
            &&& #[trigger] adds_all(scaled, constant(0, newest.len()), correction)
            &&& #[trigger] adds_all(newest, correction, emitted)
            &&& out.len() == newest.len()
            &&& forall|i: int| 0 <= i < out.len() ==> (#[trigger] out[i]) == clamped(emitted[i])
        };
    assert(emitted.len() == newest.len());
    assert(sum_gives(newest[i], correction[i], emitted[i]));
    assert(out[i] == clamped(emitted[i]));
    lemma_correction_at(bounded, newest, scaled, correction, out, i);
}

/// The correction of one pixel.
proof fn lemma_correction_at(
    bounded: Seq<u32>,
    newest: Seq<u32>,
    scaled: Seq<u32>,
    correction: Seq<u32>,
    out: Seq<u32>,
    i: int,
)
    requires
        multiplies_all(bounded, constant(RESIDUAL_SCALE, newest.len()), scaled),
        adds_all(scaled, constant(0, newest.len()), correction),
        bounded.len() == newest.len(),
        0 <= i < newest.len(),
    ensures
        product_gives(bounded[i], 0x3f19_999a, scaled[i]),
        sum_gives(scaled[i], 0, correction[i]),
{
    assert(product_gives(bounded[i], constant(RESIDUAL_SCALE, newest.len())[i], scaled[i]));
    assert(sum_gives(scaled[i], constant(0, newest.len())[i], correction[i]));
}

/// The hidden layer of the head: the third parameter convolved with the hidden tensor and the
/// carry, the fourth as a bias of each channel, and the tangent of that.
pub proof fn law_hidden_layer_is_a_biased_convolution(
    m: ConvLstm,
    x: Seq<u32>,
    middle: Seq<u32>,
    c: int,
    p: int,
)
    requires
        m.wf(),
        computable(m.cfg),
        hidden_layer(m, x, middle),
        0 <= c < 8,
        0 <= p < m.cfg.pixels(),
    ensures
        exists|raw: Seq<u32>, sum: u32|
            {
                let n = m.cfg.pixels();
                &&& #[trigger] convolution_gives(
                    floats_to_bytes(x),
                    m.cfg.hidden_channels + 2,
                    m.cfg.height as int,
                    m.cfg.width as int,
                    floats_to_bytes(m.params@[2].bits@),
                    8,
                    m.cfg.kernel as int,
                    m.cfg.kernel as int / 2,
                    floats_to_bytes(raw),
                )
                &&& sum_gives(raw[c * n + p], m.params@[3].bits@[c], sum)
                &&& #[trigger] tanh_gives(sum, middle[c * m.cfg.pixels() + p])
            },
{
    let n = m.cfg.pixels();
    let (raw, sum) = choose|raw: Seq<u32>, sum: Seq<u32>|
        {
            &&& #[trigger] convolves(
                x,
                m.cfg.hidden_channels + 2,
                m.cfg.height as int,
                m.cfg.width as int,
                m.params@[2].bits@,
                8,
                m.cfg.kernel as int,
                raw,
            )
            &&& adds_all(raw, planes(m.params@[3].bits@, m.cfg.pixels()), sum)
            &&& #[trigger] tangent_all(sum, middle)
        };
    lemma_sizes(m.cfg);
    lemma_elements_one(8);
    assert(m.params@[3].bits@.len() == elements(param_shape(m.cfg, 3)));
    lemma_bias_of(m.params@[3].bits@, n, c, p);
    assert(sum.len() == 8 * n);
    assert(sum_gives(
        raw[c * n + p],
        planes(m.params@[3].bits@, n)[c * n + p],
        sum[c * n + p],
    ));
    assert(tanh_gives(sum[c * n + p], middle[c * n + p]));
}

/// The output of the head: the fifth parameter weighs the hidden layer pixel by pixel, the
/// sixth is its bias, and the tangent of that bounds it.
pub proof fn law_output_layer_weighs_the_hidden_one(
    m: ConvLstm,
    middle: Seq<u32>,
    bounded: Seq<u32>,
    p: int,
)
    requires
        m.wf(),
        computable(m.cfg),
        output_layer(m, middle, bounded),
        0 <= p < m.cfg.pixels(),
    ensures
        bounded.len() == m.cfg.pixels(),
        exists|raw: Seq<u32>, sum: u32|
            {
                &&& #[trigger] convolution_gives(
                    floats_to_bytes(middle),
                    8,
                    m.cfg.height as int,
                    m.cfg.width as int,
                    floats_to_bytes(m.params@[4].bits@),
                    1,
                    1,
                    0,
                    floats_to_bytes(raw),
                )
                &&& sum_gives(raw[p], m.params@[5].bits@[0], sum)
                &&& #[trigger] tanh_gives(sum, bounded[p])
            },
{
    let n = m.cfg.pixels();
    let (raw, sum) = choose|raw: Seq<u32>, sum: Seq<u32>|
        {
            &&& #[trigger] convolves(
                middle,
                8,
                m.cfg.height as int,
                m.cfg.width as int,
                m.params@[4].bits@,
                1,
                1,
                raw,
            )
            &&& adds_all(raw, planes(m.params@[5].bits@, m.cfg.pixels()), sum)
            &&& #[trigger] tangent_all(sum, bounded)
        };
    lemma_sizes(m.cfg);
    lemma_elements_one(1);
    assert(m.params@[5].bits@.len() == elements(param_shape(m.cfg, 5)));
    lemma_bias_of(m.params@[5].bits@, n, 0, p);
    assert(sum.len() == 1 * n);
    assert(0 * n + p == p) by (nonlinear_arith);
    assert(sum_gives(raw[p], planes(m.params@[5].bits@, n)[p], sum[p]));
    assert(tanh_gives(sum[p], bounded[p]));
}

/// When a step and an emission are owed: three input channels and an odd kernel for a step,
/// an odd kernel for an emission, and lists that are as long as the streams make them.
pub proof fn law_when_a_step_is_owed(
    cfg: ModelConfig,
    batch: int,
    frame: Seq<u32>,
    control: Seq<u32>,
    st: StateModel,
)
    requires
        0 <= batch,
        st.h.len() == batch * cfg.hidden_channels * cfg.height * cfg.width,
        st.c.len() == st.h.len(),
        st.carry.len() == batch * 2 * cfg.height * cfg.width,
        cfg.kernel % 2 == 1,
    ensures
        can_emit(cfg, st),
        can_step(cfg, batch, frame, control, st) <==> cfg.in_channels == 3 && frame.len() == batch
            * (cfg.height * cfg.width) && control.len() == 2 * batch * (cfg.height * cfg.width),
{
    assert(st.shaped(cfg, batch));
}

/// The architecture of the canonical checkpoint can be computed.
pub proof fn law_canonical_architecture_is_computable(cfg: ModelConfig)
    requires
        cfg.hidden_channels == 8,
        cfg.kernel == 3,
        cfg.height == 32,
        cfg.width == 32,
    ensures
        computable(cfg),
{
}

/// A clamped number is the number itself between zero and one, and the nearer of the two
/// outside.
pub proof fn law_numbers_in_range_are_kept(x: u32)
    ensures
        float32_less(x, 0) ==> clamped(x) == 0,
        float32_less(0x3f80_0000, x) ==> clamped(x) == 0x3f80_0000,
        !float32_less(x, 0) && !float32_less(0x3f80_0000, x) ==> clamped(x) == x,
        !float32_less(clamped(x), 0),
        !float32_less(0x3f80_0000, clamped(x)),
{
}

} // verus!
