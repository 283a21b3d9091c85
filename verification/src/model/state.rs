//! The recurrent state as plain data.

use vstd::prelude::*;

use crate::model::config::{ModelConfig, CARRY_CHANNELS};
use crate::model::floats::{all_finite, bytes_to_floats, f32s_to_le_bytes, finite_list,
    floats_to_bytes, le_bytes_to_f32s};
use crate::model::floats::{law_float_bytes_round_trip, law_floats_round_trip};
use crate::text::{decimal, push_decimal};

verus! {

/// Recurrent state: hidden state, cell state and carry, each a list of
/// `binary32` bit patterns in row-major order.
///
/// It is everything that the decoder reads, the most recent frames included, so
/// a restored state needs nothing beside it.
#[derive(Debug, PartialEq, Eq)]
pub struct State {
    /// Hidden state, `[batch, hidden, height, width]`.
    pub h: Vec<u32>,
    /// Cell state, `[batch, hidden, height, width]`.
    pub c: Vec<u32>,
    /// The two frames most recently consumed, `[batch, carry, height, width]`.
    pub carry: Vec<u32>,
}

/// The numbers that a [`State`] holds.
pub struct StateModel {
    pub h: Seq<u32>,
    pub c: Seq<u32>,
    pub carry: Seq<u32>,
}

impl View for State {
    type V = StateModel;

    open spec fn view(&self) -> StateModel {
        StateModel { h: self.h@, c: self.c@, carry: self.carry@ }
    }
}

/// Elements of a `[batch, channels, height, width]` tensor.
pub open spec fn tensor_elements(cfg: ModelConfig, batch: int, channels: int) -> int {
    batch * channels * cfg.height * cfg.width
}

/// The products that an element count is made of fit in a `usize`.
pub open spec fn tensor_fits(cfg: ModelConfig, batch: int, channels: int) -> bool {
    &&& batch * channels <= usize::MAX
    &&& batch * channels * cfg.height <= usize::MAX
    &&& batch * channels * cfg.height * cfg.width <= usize::MAX
}

/// Both tensor shapes of a state fit.
pub open spec fn state_fits(cfg: ModelConfig, batch: int) -> bool {
    tensor_fits(cfg, batch, cfg.hidden_channels as int) && tensor_fits(cfg, batch, 2)
}

impl StateModel {
    /// Every list has as many elements as the architecture gives it.
    pub open spec fn shaped(self, cfg: ModelConfig, batch: int) -> bool {
        &&& self.h.len() == tensor_elements(cfg, batch, cfg.hidden_channels as int)
        &&& self.c.len() == tensor_elements(cfg, batch, cfg.hidden_channels as int)
        &&& self.carry.len() == tensor_elements(cfg, batch, 2)
    }

    /// All zeros.
    pub open spec fn zeros(cfg: ModelConfig, batch: int) -> StateModel {
        let n = tensor_elements(cfg, batch, cfg.hidden_channels as int) as nat;
        let k = tensor_elements(cfg, batch, 2) as nat;
        StateModel {
            h: Seq::new(n, |i: int| 0u32),
            c: Seq::new(n, |i: int| 0u32),
            carry: Seq::new(k, |i: int| 0u32),
        }
    }
}

/// Why bytes are no tensor of the shape asked for.
#[derive(Debug, Clone, Copy, PartialEq, Eq)]
pub enum TensorError {
    /// The length is not a multiple of four bytes.
    Ragged {
        /// The length that was given.
        len: usize,
    },
    /// The number of elements is not that of the shape.
    ShapeMismatch {
        /// Elements that were given.
        buffer_size: usize,
        /// The shape that was asked for.
        shape: (usize, usize, usize, usize),
    },
}

/// `[a, b, c, d]`, as a shape is printed.
pub open spec fn shape_text(s: (usize, usize, usize, usize)) -> Seq<char> {
    "["@ + decimal(s.0 as nat) + ", "@ + decimal(s.1 as nat) + ", "@ + decimal(s.2 as nat) + ", "@
        + decimal(s.3 as nat) + "]"@
}

impl TensorError {
    /// The text of the error.
    pub open spec fn text(self) -> Seq<char> {
        match self {
            TensorError::Ragged { len } => "f32 payload length "@ + decimal(len as nat)
                + " is not a multiple of 4"@,
            TensorError::ShapeMismatch { buffer_size, shape } =>
                "Shape mismatch, got buffer of size "@ + decimal(buffer_size as nat)
                + " which is compatible with shape "@ + shape_text(shape),
        }
    }

    /// The error as a line of text.
    pub fn message(&self) -> (r: String)
        ensures
            r@ == self.text(),
    {
        let mut out: String = String::new();
        match self {
            TensorError::Ragged { len } => {
                out.append("f32 payload length ");
                push_decimal(&mut out, *len as u64);
                out.append(" is not a multiple of 4");
            },
            TensorError::ShapeMismatch { buffer_size, shape } => {
                out.append("Shape mismatch, got buffer of size ");
                push_decimal(&mut out, *buffer_size as u64);
                out.append(" which is compatible with shape ");
                out.append("[");
                push_decimal(&mut out, shape.0 as u64);
                out.append(", ");
                push_decimal(&mut out, shape.1 as u64);
                out.append(", ");
                push_decimal(&mut out, shape.2 as u64);
                out.append(", ");
                push_decimal(&mut out, shape.3 as u64);
                out.append("]");
            },
        }
        assert(out@ =~= self.text());
        out
    }
}

/// What reading `b` as a tensor of this shape comes to: its bit patterns, or the
/// reason why it is none.
pub open spec fn tensor_from(
    b: Seq<u8>,
    cfg: ModelConfig,
    batch: usize,
    channels: usize,
) -> Result<Seq<u32>, TensorError> {
    if b.len() % 4 != 0 {
        Err(TensorError::Ragged { len: b.len() as usize })
    } else if b.len() / 4 != tensor_elements(cfg, batch as int, channels as int) {
        Err(
            TensorError::ShapeMismatch {
                buffer_size: (b.len() / 4) as usize,
                shape: (batch, channels, cfg.height, cfg.width),
            },
        )
    } else {
        Ok(bytes_to_floats(b))
    }
}

/// Reads one tensor.
fn read_tensor(b: &[u8], cfg: &ModelConfig, batch: usize, channels: usize) -> (r: Result<
    Vec<u32>,
    TensorError,
>)
    requires
        tensor_fits(*cfg, batch as int, channels as int),
    ensures
        match r {
            Ok(v) => tensor_from(b@, *cfg, batch, channels) == Ok::<Seq<u32>, TensorError>(v@),
            Err(e) => tensor_from(b@, *cfg, batch, channels) == Err::<Seq<u32>, TensorError>(e),
        },
{
    let n: usize = b.len();
    match le_bytes_to_f32s(b) {
        Err(e) => Err(TensorError::Ragged { len: e.len }),
        Ok(v) => {
            if v.len() != batch * channels * cfg.height * cfg.width {
                Err(
                    TensorError::ShapeMismatch {
                        buffer_size: v.len(),
                        shape: (batch, channels, cfg.height, cfg.width),
                    },
                )
            } else {
                Ok(v)
            }
        },
    }
}

/// A list of `n` zeros.
fn zero_list(n: usize) -> (r: Vec<u32>)
    ensures
        r@ == Seq::new(n as nat, |i: int| 0u32),
{
    let r: Vec<u32> = vec![0u32; n];
    assert(r@ =~= Seq::new(n as nat, |i: int| 0u32));
    r
}

/// A copy of a list.
fn copy_list(v: &Vec<u32>) -> (r: Vec<u32>)
    ensures
        r@ == v@,
{
    let r: Vec<u32> = v.clone();
    assert(r@ =~= v@);
    r
}

impl State {
    /// The zero state: `batch` fresh streams.
    pub fn zeros(cfg: &ModelConfig, batch: usize) -> (r: State)
        requires
            state_fits(*cfg, batch as int),
        ensures
            r@ == StateModel::zeros(*cfg, batch as int),
            r@.shaped(*cfg, batch as int),
    {
        proof {
            lemma_elements_nonnegative(*cfg, batch as int, cfg.hidden_channels as int);
            lemma_elements_nonnegative(*cfg, batch as int, 2);
        }
        let n: usize = batch * cfg.hidden_channels * cfg.height * cfg.width;
        let k: usize = batch * CARRY_CHANNELS * cfg.height * cfg.width;
        State { h: zero_list(n), c: zero_list(n), carry: zero_list(k) }
    }

    /// A deep copy.
    pub fn copy(&self) -> (r: State)
        ensures
            r@ == self@,
    {
        State { h: copy_list(&self.h), c: copy_list(&self.c), carry: copy_list(&self.carry) }
    }

    /// Exact little-endian bytes of `H`.
    pub fn h_bytes(&self) -> (r: Vec<u8>)
        ensures
            r@ == floats_to_bytes(self@.h),
    {
        f32s_to_le_bytes(self.h.as_slice())
    }

    /// Exact little-endian bytes of `C`.
    pub fn c_bytes(&self) -> (r: Vec<u8>)
        ensures
            r@ == floats_to_bytes(self@.c),
    {
        f32s_to_le_bytes(self.c.as_slice())
    }

    /// Exact little-endian bytes of the carry.
    pub fn carry_bytes(&self) -> (r: Vec<u8>)
        ensures
            r@ == floats_to_bytes(self@.carry),
    {
        f32s_to_le_bytes(self.carry.as_slice())
    }

    /// Rebuild a state from exact bytes. Every shape is taken from the
    /// architecture; the first tensor at fault, in the order `H`, `C`, carry, is
    /// the error.
    pub fn from_bytes(cfg: &ModelConfig, batch: usize, h: &[u8], c: &[u8], carry: &[u8]) -> (r:
        Result<State, TensorError>)
        requires
            state_fits(*cfg, batch as int),
        ensures
            match (
                tensor_from(h@, *cfg, batch, cfg.hidden_channels),
                tensor_from(c@, *cfg, batch, cfg.hidden_channels),
                tensor_from(carry@, *cfg, batch, CARRY_CHANNELS),
            ) {
                (Err(e), _, _) => r == Err::<State, TensorError>(e),
                (Ok(_), Err(e), _) => r == Err::<State, TensorError>(e),
                (Ok(_), Ok(_), Err(e)) => r == Err::<State, TensorError>(e),
                (Ok(hv), Ok(cv), Ok(kv)) => r matches Ok(s) && s@ == (StateModel {
                    h: hv,
                    c: cv,
                    carry: kv,
                }) && s@.shaped(*cfg, batch as int),
            },
    {
        let h = match read_tensor(h, cfg, batch, cfg.hidden_channels) {
            Ok(v) => v,
            Err(e) => return Err(e),
        };
        let c = match read_tensor(c, cfg, batch, cfg.hidden_channels) {
            Ok(v) => v,
            Err(e) => return Err(e),
        };
        let carry = match read_tensor(carry, cfg, batch, CARRY_CHANNELS) {
            Ok(v) => v,
            Err(e) => return Err(e),
        };
        Ok(State { h, c, carry })
    }

    /// Whether every element is finite.
    pub fn is_finite(&self) -> (r: bool)
        ensures
            r == (finite_list(self@.h) && finite_list(self@.c) && finite_list(self@.carry)),
    {
        all_finite(self.h.as_slice()) && all_finite(self.c.as_slice()) && all_finite(
            self.carry.as_slice(),
        )
    }
}

/// Element counts are counts.
proof fn lemma_elements_nonnegative(cfg: ModelConfig, batch: int, channels: int)
    requires
        batch >= 0,
        channels >= 0,
    ensures
        tensor_elements(cfg, batch, channels) >= 0,
{
    let (y, x) = (cfg.height, cfg.width);
    assert(batch * channels * y * x >= 0) by (nonlinear_arith)
        requires
            batch >= 0,
            channels >= 0,
            y >= 0,
            x >= 0,
    ;
}

/// A state of the right shape comes back bit for bit from its own bytes.
pub proof fn law_state_round_trips(s: StateModel, cfg: ModelConfig, batch: usize)
    requires
        s.shaped(cfg, batch as int),
    ensures
        tensor_from(floats_to_bytes(s.h), cfg, batch, cfg.hidden_channels) == Ok::<
            Seq<u32>,
            TensorError,
        >(s.h),
        tensor_from(floats_to_bytes(s.c), cfg, batch, cfg.hidden_channels) == Ok::<
            Seq<u32>,
            TensorError,
        >(s.c),
        tensor_from(floats_to_bytes(s.carry), cfg, batch, CARRY_CHANNELS) == Ok::<
            Seq<u32>,
            TensorError,
        >(s.carry),
{
    law_floats_round_trip(s.h);
    law_floats_round_trip(s.c);
    law_floats_round_trip(s.carry);
}

/// Bytes that were accepted as a tensor come back when it is written out.
pub proof fn law_accepted_bytes_round_trip(
    b: Seq<u8>,
    cfg: ModelConfig,
    batch: usize,
    channels: usize,
)
    ensures
        tensor_from(b, cfg, batch, channels) matches Ok(v) ==> floats_to_bytes(v) == b,
{
    if b.len() % 4 == 0 {
        law_float_bytes_round_trip(b);
    }
}

/// The zero state has a zero for every place of its tensors: `H` and `C` have the hidden
/// channels, the carry has two.
pub proof fn law_zero_state(cfg: ModelConfig, batch: int, i: int)
    requires
        0 <= batch,
    ensures
        ({
            let z = StateModel::zeros(cfg, batch);
            &&& z.h.len() == batch * cfg.hidden_channels * cfg.height * cfg.width
            &&& z.c.len() == batch * cfg.hidden_channels * cfg.height * cfg.width
            &&& z.carry.len() == batch * 2 * cfg.height * cfg.width
            &&& 0 <= i < z.h.len() ==> z.h[i] == 0 && z.c[i] == 0
            &&& 0 <= i < z.carry.len() ==> z.carry[i] == 0
        }),
{
    lemma_elements_nonnegative(cfg, batch, cfg.hidden_channels as int);
    lemma_elements_nonnegative(cfg, batch, 2);
}

/// A state has the shape of an architecture where each of its lists has as many numbers as
/// streams, channels and pixels make.
pub proof fn law_shape_is_a_count(s: StateModel, cfg: ModelConfig, batch: int)
    ensures
        s.shaped(cfg, batch) <==> {
            &&& s.h.len() == batch * cfg.hidden_channels * cfg.height * cfg.width
            &&& s.c.len() == s.h.len()
            &&& s.carry.len() == batch * 2 * cfg.height * cfg.width
        },
{
}

/// Bytes are a tensor of a shape exactly when they are four for each of its elements; the
/// tensor then holds the floats that they spell, and otherwise the error says which of the
/// two is wrong with them.
pub proof fn law_tensor_bytes_are_counted(
    b: Seq<u8>,
    cfg: ModelConfig,
    batch: usize,
    channels: usize,
)
    ensures
        tensor_from(b, cfg, batch, channels) is Ok <==> b.len() == 4 * (batch * channels
            * cfg.height * cfg.width),
        b.len() % 4 != 0 <==> (tensor_from(b, cfg, batch, channels) matches Err(
            TensorError::Ragged { .. },
        )),
        tensor_from(b, cfg, batch, channels) matches Ok(v) ==> v.len() == b.len() / 4
            && floats_to_bytes(v) == b,
{
    law_accepted_bytes_round_trip(b, cfg, batch, channels);
}

} // verus!
