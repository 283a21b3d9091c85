//! The frozen parameters: their names, their shapes, and loading them from
//! safetensors bytes.

use vstd::prelude::*;

use crate::model::config::{ModelConfig, CARRY_CHANNELS, GATES, HEAD_HIDDEN};
use crate::model::floats::{bytes_to_floats, le_bytes_to_f32s};
use crate::model::header::{loadable, sizes_can_be_counted};
use crate::scene::ONE_BITS;
use crate::text::{decimal, push_decimal, quote, quote_path, quoted, quoted_path,
    same_text};

verus! {

/// Folded gate convolution weight, `[4H, in+H, k, k]`.
pub const NAME_GATES_WEIGHT: &'static str = "convlstm.gates.weight";

/// Folded gate convolution bias, `[4H]`.
pub const NAME_GATES_BIAS: &'static str = "convlstm.gates.bias";

/// Head hidden convolution weight, `[M, H+carry, k, k]`.
pub const NAME_HEAD_MID_WEIGHT: &'static str = "convlstm.head.mid.weight";

/// Head hidden convolution bias, `[M]`.
pub const NAME_HEAD_MID_BIAS: &'static str = "convlstm.head.mid.bias";

/// Head output weight, `[1, M, 1, 1]`.
pub const NAME_HEAD_OUT_WEIGHT: &'static str = "convlstm.head.out.weight";

/// Head output bias, `[1]`.
pub const NAME_HEAD_OUT_BIAS: &'static str = "convlstm.head.out.bias";

/// Every parameter name, in the order that the weights hash uses.
pub const PARAM_NAMES: [&'static str; 6] = [
    NAME_GATES_WEIGHT,
    NAME_GATES_BIAS,
    NAME_HEAD_MID_WEIGHT,
    NAME_HEAD_MID_BIAS,
    NAME_HEAD_OUT_WEIGHT,
    NAME_HEAD_OUT_BIAS,
];

// ---------------------------------------------------------------------------
// Names and shapes
// ---------------------------------------------------------------------------

/// The name of parameter `i`.
pub open spec fn param_name(i: int) -> Seq<char> {
    PARAM_NAMES@[i]@
}

/// Whether a text names one of the six parameters.
pub open spec fn is_param_name(s: Seq<char>) -> bool {
    exists|i: int| 0 <= i < 6 && #[trigger] param_name(i) == s
}

/// The shape that parameter `i` has under `cfg`.
pub open spec fn param_shape(cfg: ModelConfig, i: int) -> Seq<int> {
    let h = cfg.hidden_channels as int;
    let k = cfg.kernel as int;
    if i == 0 {
        seq![4 * h, cfg.in_channels + h, k, k]
    } else if i == 1 {
        seq![4 * h]
    } else if i == 2 {
        seq![8, h + 2, k, k]
    } else if i == 3 {
        seq![8]
    } else if i == 4 {
        seq![1, 8, 1, 1]
    } else {
        seq![1]
    }
}

/// Dimensions as integers.
pub open spec fn ints(dims: Seq<usize>) -> Seq<int> {
    dims.map_values(|d: usize| d as int)
}

/// How many elements a shape has.
pub open spec fn elements(shape: Seq<int>) -> int
    decreases shape.len(),
{
    if shape.len() == 0 {
        1
    } else {
        shape[0] * elements(shape.drop_first())
    }
}

/// Every dimension of every parameter fits in a `usize`.
pub open spec fn shapes_fit(cfg: ModelConfig) -> bool {
    &&& 4 * cfg.hidden_channels <= usize::MAX
    &&& cfg.in_channels + cfg.hidden_channels <= usize::MAX
    &&& cfg.hidden_channels + 2 <= usize::MAX
}

/// The parameter count is the number of elements of the six shapes.
pub proof fn law_parameter_count_is_the_sum_of_the_shapes(cfg: ModelConfig)
    ensures
        cfg.parameters() == elements(param_shape(cfg, 0)) + elements(param_shape(cfg, 1))
            + elements(param_shape(cfg, 2)) + elements(param_shape(cfg, 3)) + elements(
            param_shape(cfg, 4),
        ) + elements(param_shape(cfg, 5)),
{
    let h = cfg.hidden_channels as int;
    let k = cfg.kernel as int;
    let ci = cfg.in_channels + h;
    lemma_elements_four(4 * h, ci, k, k);
    lemma_elements_four(8, h + 2, k, k);
    lemma_elements_four(1, 8, 1, 1);
    lemma_elements_one(4 * h);
    lemma_elements_one(8);
    lemma_elements_one(1);
    assert(4 * h * (ci * (k * k)) == 4 * h * ci * (k * k)) by (nonlinear_arith);
    assert(8 * ((h + 2) * (k * k)) == 8 * (h + 2) * (k * k)) by (nonlinear_arith);
}

/// Elements of a one-dimensional shape.
pub proof fn lemma_elements_one(a: int)
    ensures
        elements(seq![a]) == a,
{
    assert(seq![a].drop_first() =~= Seq::<int>::empty());
    assert(elements(Seq::<int>::empty()) == 1);
    assert(a * 1 == a);
}

/// Elements of a four-dimensional shape.
pub proof fn lemma_elements_four(a: int, b: int, c: int, d: int)
    ensures
        elements(seq![a, b, c, d]) == a * (b * (c * d)),
{
    assert(seq![a, b, c, d].drop_first() =~= seq![b, c, d]);
    assert(seq![b, c, d].drop_first() =~= seq![c, d]);
    assert(seq![c, d].drop_first() =~= seq![d]);
    lemma_elements_one(d);
    assert(elements(seq![c, d]) == c * d);
    assert(elements(seq![b, c, d]) == b * (c * d));
}

// ---------------------------------------------------------------------------
// What candle reads
// ---------------------------------------------------------------------------

/// One tensor of a checkpoint, as plain data.
#[derive(Debug)]
pub struct RawTensor {
    /// Its name.
    pub name: String,
    /// Its dimensions.
    pub dims: Vec<usize>,
    /// The name of its element type.
    pub dtype: String,
    /// The little-endian bytes of its elements, in row-major order.
    pub data: Vec<u8>,
}

/// Dimensions, element type and bytes of a tensor.
pub open spec fn contents(t: RawTensor) -> (Seq<usize>, Seq<char>, Seq<u8>) {
    (t.dims@, t.dtype@, t.data@)
}

/// A list of tensors by name; the last one of a name counts.
pub open spec fn by_name(ts: Seq<RawTensor>) -> Map<Seq<char>, (Seq<usize>, Seq<char>, Seq<u8>)>
    decreases ts.len(),
{
    if ts.len() == 0 {
        Map::empty()
    } else {
        by_name(ts.drop_last()).insert(ts.last().name@, contents(ts.last()))
    }
}

/// The `F32` tensors of a list hold four bytes for each element of their shape.
pub open spec fn consistent(ts: Seq<RawTensor>) -> bool {
    forall|i: int|
        0 <= i < ts.len() && (#[trigger] ts[i]).dtype@ == "F32"@ ==> ts[i].data@.len() == 4
            * elements(ints(ts[i].dims@))
}

/// An error of candle.
#[verifier::external_type_specification]
#[verifier::external_body]
pub struct ExCandleError(candle_core::Error);

/// The tensors that candle finds in a byte string, by name, if it can read it.
pub uninterp spec fn stored_tensors(bytes: Seq<u8>) -> Option<
    Map<Seq<char>, (Seq<usize>, Seq<char>, Seq<u8>)>,
>;

/// `candle_core::safetensors::load_buffer` on the CPU, each tensor taken apart
/// into its name, `Tensor::dims`, the `Debug` name of `Tensor::dtype` and what
/// `Tensor::write_bytes` writes (nothing, where it cannot write the type).
///
/// Which tensors there are depends on the bytes alone and is left to
/// [`stored_tensors`]; the order in which they are listed is that of a hash map
/// and is not stated, nor is the error. An `F32` tensor holds four bytes for each
/// element of its shape. The sum of the declared sizes and the strides of a shape are
/// computed without a check, so they have to fit in a machine word.
#[verifier::external_body]
fn load_tensors(bytes: &[u8]) -> (r: Result<Vec<RawTensor>, candle_core::Error>)
    requires
        loadable(bytes@),
    ensures
        match r {
            Ok(ts) => stored_tensors(bytes@) == Some(by_name(ts@)) && consistent(ts@),
            Err(_) => stored_tensors(bytes@) is None,
        },
{
    let map = candle_core::safetensors::load_buffer(bytes, &candle_core::Device::Cpu)?;
    let plain = |(name, t): (String, candle_core::Tensor)| {
        let mut data = Vec::new();
        let written = t.write_bytes(&mut data);
        let data = written.map(|_| data).unwrap_or_default();
        RawTensor { name, dims: t.dims().to_vec(), dtype: format!("{:?}", t.dtype()), data }
    };
    Ok(map.into_iter().map(plain).collect())
}

/// The tensors in a byte string, by name, if every size that it declares can be counted and
/// candle can read it.
pub open spec fn readable_tensors(bytes: Seq<u8>) -> Option<
    Map<Seq<char>, (Seq<usize>, Seq<char>, Seq<u8>)>,
> {
    if loadable(bytes) {
        stored_tensors(bytes)
    } else {
        None
    }
}

/// The `Display` text of a candle error. Nothing is stated of it.
#[verifier::external_body]
pub(crate) fn error_text(e: &candle_core::Error) -> (r: String) {
    e.to_string()
}

// ---------------------------------------------------------------------------
// The model as loaded
// ---------------------------------------------------------------------------

/// One parameter: its dimensions and the bit patterns of its elements.
#[derive(Debug, PartialEq, Eq)]
pub struct Param {
    /// Its dimensions.
    pub dims: Vec<usize>,
    /// The bits of its elements, in row-major order.
    pub bits: Vec<u32>,
}

/// The frozen model: an architecture and its six parameters.
#[derive(Debug, PartialEq, Eq)]
pub struct ConvLstm {
    /// Architecture.
    pub cfg: ModelConfig,
    /// The parameters, in the order of [`PARAM_NAMES`].
    pub params: Vec<Param>,
}

/// Shape and elements of each parameter.
pub open spec fn param_values(params: Seq<Param>) -> Seq<(Seq<int>, Seq<u32>)> {
    params.map_values(|p: Param| (ints(p.dims@), p.bits@))
}

impl View for ConvLstm {
    type V = Seq<(Seq<int>, Seq<u32>)>;

    open spec fn view(&self) -> Seq<(Seq<int>, Seq<u32>)> {
        param_values(self.params@)
    }
}

/// What is wrong with one parameter of a checkpoint.
pub enum Fault {
    /// It is not there.
    Missing,
    /// It has these dimensions.
    Shape(Seq<usize>),
    /// It has this element type.
    Dtype(Seq<char>),
}

/// What is wrong with parameter `i` among `m`, if anything: presence counts
/// before shape, and shape before element type.
pub open spec fn fault(
    m: Map<Seq<char>, (Seq<usize>, Seq<char>, Seq<u8>)>,
    cfg: ModelConfig,
    i: int,
) -> Option<Fault> {
    let n = param_name(i);
    if !m.dom().contains(n) {
        Some(Fault::Missing)
    } else if ints(m[n].0) != param_shape(cfg, i) {
        Some(Fault::Shape(m[n].0))
    } else if m[n].1 != "F32"@ {
        Some(Fault::Dtype(m[n].1))
    } else {
        None
    }
}

/// The first parameter, from `k` on, with a fault.
pub open spec fn first_fault(
    m: Map<Seq<char>, (Seq<usize>, Seq<char>, Seq<u8>)>,
    cfg: ModelConfig,
    k: int,
) -> Option<(int, Fault)>
    decreases 6 - k,
{
    if k >= 6 {
        None
    } else {
        match fault(m, cfg, k) {
            Some(f) => Some((k, f)),
            None => first_fault(m, cfg, k + 1),
        }
    }
}

/// The parameters that a faultless checkpoint gives.
pub open spec fn loaded_params(
    m: Map<Seq<char>, (Seq<usize>, Seq<char>, Seq<u8>)>,
    cfg: ModelConfig,
) -> Seq<(Seq<int>, Seq<u32>)> {
    Seq::new(6, |i: int| (param_shape(cfg, i), bytes_to_floats(m[param_name(i)].2)))
}

/// Whether a checkpoint holds nothing but parameters of the model.
pub open spec fn only_parameters(
    m: Map<Seq<char>, (Seq<usize>, Seq<char>, Seq<u8>)>,
) -> bool {
    forall|n: Seq<char>| #[trigger] m.dom().contains(n) ==> is_param_name(n)
}

/// Whether a text is among a list of names.
pub open spec fn among(names: Seq<String>, n: Seq<char>) -> bool {
    exists|j: int| 0 <= j < names.len() && #[trigger] names[j]@ == n
}

/// Whether `names` holds the tensors of `m` that are no parameters, and no others.
pub open spec fn names_the_extras(
    names: Seq<String>,
    m: Map<Seq<char>, (Seq<usize>, Seq<char>, Seq<u8>)>,
) -> bool {
    forall|n: Seq<char>|
        #![trigger among(names, n)]
        #![trigger m.dom().contains(n)]
        among(names, n) <==> m.dom().contains(n) && !is_param_name(n)
}

/// The items of a list, separated by a comma and a space.
pub open spec fn separated(items: Seq<Seq<char>>) -> Seq<char>
    decreases items.len(),
{
    if items.len() == 0 {
        Seq::empty()
    } else if items.len() == 1 {
        items[0]
    } else {
        separated(items.drop_last()) + ", "@ + items.last()
    }
}

/// A list of dimensions in square brackets.
pub open spec fn dims_text(dims: Seq<usize>) -> Seq<char> {
    "["@ + separated(dims.map_values(|d: usize| decimal(d as nat))) + "]"@
}

/// A list of quoted names in square brackets.
pub open spec fn names_text(names: Seq<String>) -> Seq<char> {
    "["@ + separated(names.map_values(|n: String| quoted(n@))) + "]"@
}

/// Why a checkpoint was not loaded.
#[derive(Debug)]
pub enum CheckpointError {
    /// The bytes are no readable checkpoint.
    Unreadable(String),
    /// A parameter is not there.
    Missing {
        /// The parameter.
        name: &'static str,
    },
    /// A parameter has another shape.
    WrongShape {
        /// The parameter.
        name: &'static str,
        /// The shape that it has.
        dims: Vec<usize>,
        /// The shape that it should have.
        expected: Vec<usize>,
    },
    /// A parameter has another element type.
    WrongDtype {
        /// The parameter.
        name: &'static str,
        /// The element type that it has.
        dtype: String,
    },
    /// There are tensors that are no parameters of the model.
    Unexpected(Vec<String>),
}

impl CheckpointError {
    /// This error names parameter `i` and its fault `f`.
    pub open spec fn reports(self, cfg: ModelConfig, i: int, f: Fault) -> bool {
        match (self, f) {
            (CheckpointError::Missing { name }, Fault::Missing) => name@ == param_name(i),
            (CheckpointError::WrongShape { name, dims, expected }, Fault::Shape(d)) => name@
                == param_name(i) && dims@ == d && ints(expected@) == param_shape(cfg, i),
            (CheckpointError::WrongDtype { name, dtype }, Fault::Dtype(t)) => name@ == param_name(
                i,
            ) && dtype@ == t,
            _ => false,
        }
    }

    /// This error lists the tensors of `m` that are no parameters, and no others.
    pub open spec fn lists_extras(
        self,
        m: Map<Seq<char>, (Seq<usize>, Seq<char>, Seq<u8>)>,
    ) -> bool {
        self matches CheckpointError::Unexpected(names) && names_the_extras(names@, m)
    }

    /// The text of the error, for a checkpoint that was read from `origin`.
    pub open spec fn text(self, origin: Seq<char>) -> Seq<char> {
        match self {
            CheckpointError::Unreadable(s) => s@,
            CheckpointError::Missing { name } => "checkpoint "@ + quoted_path(origin)
                + " is missing parameter "@ + name@,
            CheckpointError::WrongShape { name, dims, expected } => "checkpoint "@ + quoted_path(origin)
                + ": parameter "@ + name@ + " has shape "@ + dims_text(dims@) + ", expected "@
                + dims_text(expected@),
            CheckpointError::WrongDtype { name, dtype } => "checkpoint "@ + quoted_path(origin)
                + ": parameter "@ + name@ + " has dtype "@ + dtype@ + ", expected f32"@,
            CheckpointError::Unexpected(names) => "checkpoint "@ + quoted_path(origin)
                + " has unexpected parameters "@ + names_text(names@),
        }
    }

    /// The error as a line of text.
    pub fn message(&self, origin: &str) -> (r: String)
        ensures
            r@ == self.text(origin@),
    {
        let mut out: String = String::new();
        match self {
            CheckpointError::Unreadable(s) => {
                out.append(s.as_str());
            },
            CheckpointError::Missing { name } => {
                out.append("checkpoint ");
                out.append(quote_path(origin).as_str());
                out.append(" is missing parameter ");
                out.append(name);
            },
            CheckpointError::WrongShape { name, dims, expected } => {
                out.append("checkpoint ");
                out.append(quote_path(origin).as_str());
                out.append(": parameter ");
                out.append(name);
                out.append(" has shape ");
                push_dims(&mut out, dims);
                out.append(", expected ");
                push_dims(&mut out, expected);
            },
            CheckpointError::WrongDtype { name, dtype } => {
                out.append("checkpoint ");
                out.append(quote_path(origin).as_str());
                out.append(": parameter ");
                out.append(name);
                out.append(" has dtype ");
                out.append(dtype.as_str());
                out.append(", expected f32");
            },
            CheckpointError::Unexpected(names) => {
                out.append("checkpoint ");
                out.append(quote_path(origin).as_str());
                out.append(" has unexpected parameters ");
                push_names(&mut out, names);
            },
        }
        assert(out@ =~= self.text(origin@));
        out
    }
}

/// Appends a list of dimensions in square brackets.
fn push_dims(out: &mut String, dims: &Vec<usize>)
    ensures
        final(out)@ == old(out)@ + dims_text(dims@),
{
    let ghost items = dims@.map_values(|d: usize| decimal(d as nat));
    out.append("[");
    let ghost start = out@;
    let mut i: usize = 0;
    assert(separated(items.take(0)) =~= Seq::<char>::empty());
    assert(start =~= start + separated(items.take(0)));
    while i < dims.len()
        invariant
            i <= dims@.len(),
            items == dims@.map_values(|d: usize| decimal(d as nat)),
            out@ == start + separated(items.take(i as int)),
        decreases dims@.len() - i,
    {
        let ghost before = out@;
        if i > 0 {
            out.append(", ");
        }
        push_decimal(out, dims[i] as u64);
        proof {
            let t = items.take(i + 1);
            assert(t.drop_last() =~= items.take(i as int));
            assert(t.last() == decimal(dims@[i as int] as nat));
            assert(out@ =~= start + separated(t));
        }
        i = i + 1;
    }
    assert(items.take(i as int) =~= items);
    out.append("]");
    assert(out@ =~= old(out)@ + dims_text(dims@));
}

/// Appends a list of quoted names in square brackets.
pub fn push_names(out: &mut String, names: &Vec<String>)
    ensures
        final(out)@ == old(out)@ + names_text(names@),
{
    let ghost items = names@.map_values(|n: String| quoted(n@));
    out.append("[");
    let ghost start = out@;
    let mut i: usize = 0;
    assert(separated(items.take(0)) =~= Seq::<char>::empty());
    assert(start =~= start + separated(items.take(0)));
    while i < names.len()
        invariant
            i <= names@.len(),
            items == names@.map_values(|n: String| quoted(n@)),
            out@ == start + separated(items.take(i as int)),
        decreases names@.len() - i,
    {
        if i > 0 {
            out.append(", ");
        }
        let q = quote(names[i].as_str());
        out.append(q.as_str());
        proof {
            let t = items.take(i + 1);
            assert(t.drop_last() =~= items.take(i as int));
            assert(t.last() == quoted(names@[i as int]@));
            assert(out@ =~= start + separated(t));
        }
        i = i + 1;
    }
    assert(items.take(i as int) =~= items);
    out.append("]");
    assert(out@ =~= old(out)@ + names_text(names@));
}

impl ConvLstm {
    /// Every parameter has its shape, and an element for each place in it.
    pub open spec fn wf(self) -> bool {
        &&& self.params@.len() == 6
        &&& forall|i: int|
            0 <= i < 6 ==> ints((#[trigger] self.params@[i]).dims@) == param_shape(self.cfg, i)
        &&& forall|i: int|
            0 <= i < 6 ==> (#[trigger] self.params@[i]).bits@.len() == elements(
                param_shape(self.cfg, i),
            )
    }

    /// The bits that the bias of the gates starts from, in gate-major order: the forget
    /// gate open, the others at zero.
    pub fn initial_gate_bias(cfg: &ModelConfig) -> (out: Vec<u32>)
        requires
            4 * cfg.hidden_channels <= usize::MAX,
        ensures
            out@ == Seq::new(
                (4 * cfg.hidden_channels) as nat,
                |i: int|
                    if cfg.hidden_channels <= i < 2 * cfg.hidden_channels {
                        ONE_BITS
                    } else {
                        0u32
                    },
            ),
    {
        let h: usize = cfg.hidden_channels;
        let mut out: Vec<u32> = vec![0u32; GATES * h];
        let mut i: usize = h;
        while i < 2 * h
            invariant
                h <= i <= 2 * h,
                4 * h <= usize::MAX,
                out@.len() == 4 * h,
                forall|j: int| 0 <= j < 4 * h && !(h <= j < i) ==> out@[j] == 0,
                forall|j: int| h <= j < i ==> out@[j] == ONE_BITS,
            decreases 2 * h - i,
        {
            out[i] = ONE_BITS;
            i = i + 1;
        }
        assert(out@ =~= Seq::new(
            (4 * cfg.hidden_channels) as nat,
            |i: int|
                if cfg.hidden_channels <= i < 2 * cfg.hidden_channels {
                    ONE_BITS
                } else {
                    0u32
                },
        ));
        out
    }

    /// The bits of the head's output weight and bias that make it emit its carry
    /// unchanged: all zeros.
    pub fn persistence_head(_cfg: &ModelConfig) -> (r: (Vec<u32>, Vec<u32>))
        ensures
            r.0@ == seq![0u32, 0, 0, 0, 0, 0, 0, 0],
            r.1@ == seq![0u32],
    {
        let w: Vec<u32> = vec![0u32; HEAD_HIDDEN];
        let b: Vec<u32> = vec![0u32; 1];
        assert(w@ =~= seq![0u32, 0, 0, 0, 0, 0, 0, 0]);
        assert(b@ =~= seq![0u32]);
        (w, b)
    }

    /// The exact shape that each parameter must have for `cfg`.
    pub fn parameter_shapes(cfg: &ModelConfig) -> (r: Vec<(&'static str, Vec<usize>)>)
        requires
            shapes_fit(*cfg),
        ensures
            r@.len() == 6,
            forall|i: int| 0 <= i < 6 ==> (#[trigger] r@[i]).0@ == param_name(i),
            forall|i: int| 0 <= i < 6 ==> ints((#[trigger] r@[i]).1@) == param_shape(*cfg, i),
    {
        let mut out: Vec<(&'static str, Vec<usize>)> = Vec::with_capacity(6);
        let mut i: usize = 0;
        while i < 6
            invariant
                i <= 6,
                shapes_fit(*cfg),
                out@.len() == i,
                forall|j: int| 0 <= j < i ==> (#[trigger] out@[j]).0@ == param_name(j),
                forall|j: int| 0 <= j < i ==> ints((#[trigger] out@[j]).1@) == param_shape(*cfg, j),
            decreases 6 - i,
        {
            out.push((PARAM_NAMES[i], shape_of(cfg, i)));
            i = i + 1;
        }
        out
    }

    /// Pick the six parameters out of a list of tensors. Each must be there with
    /// exactly its shape and with `F32` elements.
    pub fn new(cfg: ModelConfig, tensors: &[RawTensor]) -> (r: Result<ConvLstm, CheckpointError>)
        requires
            shapes_fit(cfg),
            consistent(tensors@),
        ensures
            match first_fault(by_name(tensors@), cfg, 0) {
                Some((i, f)) => r matches Err(e) && e.reports(cfg, i, f),
                None => r matches Ok(model) && model.cfg == cfg && model.wf() && model@
                    == loaded_params(by_name(tensors@), cfg),
            },
    {
        let ghost m = by_name(tensors@);
        let mut params: Vec<Param> = Vec::with_capacity(6);
        let mut i: usize = 0;
        while i < 6
            invariant
                i <= 6,
                shapes_fit(cfg),
                consistent(tensors@),
                m == by_name(tensors@),
                params@.len() == i,
                first_fault(m, cfg, 0) == first_fault(m, cfg, i as int),
                forall|j: int|
                    0 <= j < i ==> ints((#[trigger] params@[j]).dims@) == param_shape(cfg, j),
                forall|j: int|
                    0 <= j < i ==> (#[trigger] params@[j]).bits@ == bytes_to_floats(
                        m[param_name(j)].2,
                    ),
                forall|j: int|
                    0 <= j < i ==> (#[trigger] params@[j]).bits@.len() == elements(
                        param_shape(cfg, j),
                    ),
            decreases 6 - i,
        {
            match pick(&cfg, tensors, i) {
                Ok(p) => {
                    params.push(p);
                },
                Err(e) => {
                    return Err(e);
                },
            }
            i = i + 1;
        }
        let model = ConvLstm { cfg, params };
        assert(model@ =~= loaded_params(m, cfg));
        Ok(model)
    }

    /// Load a frozen checkpoint from safetensors bytes.
    ///
    /// Every parameter must be there with exactly its shape and element type, and
    /// nothing else may be. Bytes whose header declares sizes that cannot be counted are
    /// not readable.
    pub fn load_safetensors_bytes(bytes: &[u8], cfg: ModelConfig) -> (r: Result<
        ConvLstm,
        CheckpointError,
    >)
        requires
            shapes_fit(cfg),
        ensures
            match readable_tensors(bytes@) {
                None => r matches Err(CheckpointError::Unreadable(_)),
                Some(m) => match first_fault(m, cfg, 0) {
                    Some((i, f)) => r matches Err(e) && e.reports(cfg, i, f),
                    None => if only_parameters(m) {
                        r matches Ok(model) && model.cfg == cfg && model.wf() && model@
                            == loaded_params(m, cfg)
                    } else {
                        r matches Err(e) && e.lists_extras(m)
                    },
                },
            },
    {
        if !sizes_can_be_counted(bytes) {
            return Err(
                CheckpointError::Unreadable("the header declares sizes beyond counting".to_owned()),
            );
        }
        match load_tensors(bytes) {
            Err(e) => Err(CheckpointError::Unreadable(error_text(&e))),
            Ok(tensors) => ConvLstm::from_tensors(cfg, tensors.as_slice()),
        }
    }

    /// What a list of tensors loads as: the model, or the reason why it is none.
    pub fn from_tensors(cfg: ModelConfig, tensors: &[RawTensor]) -> (r: Result<
        ConvLstm,
        CheckpointError,
    >)
        requires
            shapes_fit(cfg),
            consistent(tensors@),
        ensures
            match first_fault(by_name(tensors@), cfg, 0) {
                Some((i, f)) => r matches Err(e) && e.reports(cfg, i, f),
                None => if only_parameters(by_name(tensors@)) {
                    r matches Ok(model) && model.cfg == cfg && model.wf() && model@
                        == loaded_params(by_name(tensors@), cfg)
                } else {
                    r matches Err(e) && e.lists_extras(by_name(tensors@))
                },
            },
    {
        let model = match ConvLstm::new(cfg, tensors) {
            Ok(m) => m,
            Err(e) => return Err(e),
        };
        let extra = extras(tensors);
        if extra.len() > 0 {
            proof {
                let n = extra@[0]@;
                assert(among(extra@, n));
                assert(by_name(tensors@).dom().contains(n) && !is_param_name(n));
            }
            return Err(CheckpointError::Unexpected(extra));
        }
        Ok(model)
    }

    /// The parameters with their names.
    pub fn named_parameters(&self) -> (r: Vec<(&'static str, &Param)>)
        requires
            self.wf(),
        ensures
            r@.len() == 6,
            forall|i: int| 0 <= i < 6 ==> (#[trigger] r@[i]).0@ == param_name(i),
            forall|i: int| 0 <= i < 6 ==> *(#[trigger] r@[i]).1 == self.params@[i],
    {
        let mut out: Vec<(&'static str, &Param)> = Vec::with_capacity(6);
        let mut i: usize = 0;
        while i < 6
            invariant
                i <= 6,
                self.wf(),
                out@.len() == i,
                forall|j: int| 0 <= j < i ==> (#[trigger] out@[j]).0@ == param_name(j),
                forall|j: int| 0 <= j < i ==> *(#[trigger] out@[j]).1 == self.params@[j],
            decreases 6 - i,
        {
            out.push((PARAM_NAMES[i], &self.params[i]));
            i = i + 1;
        }
        out
    }
}

/// The shape of parameter `i`.
fn shape_of(cfg: &ModelConfig, i: usize) -> (r: Vec<usize>)
    requires
        i < 6,
        shapes_fit(*cfg),
    ensures
        ints(r@) == param_shape(*cfg, i as int),
{
    let h: usize = cfg.hidden_channels;
    let k: usize = cfg.kernel;
    let r: Vec<usize> = if i == 0 {
        vec![GATES * h, cfg.in_channels + h, k, k]
    } else if i == 1 {
        vec![GATES * h]
    } else if i == 2 {
        vec![HEAD_HIDDEN, h + CARRY_CHANNELS, k, k]
    } else if i == 3 {
        vec![HEAD_HIDDEN]
    } else if i == 4 {
        vec![1, HEAD_HIDDEN, 1, 1]
    } else {
        vec![1]
    };
    assert(ints(r@) =~= param_shape(*cfg, i as int));
    r
}

/// Where the last tensor with this name stands in a list.
fn find(tensors: &[RawTensor], name: &str) -> (r: Option<usize>)
    ensures
        match r {
            Some(k) => k < tensors@.len() && by_name(tensors@).dom().contains(name@) && by_name(
                tensors@,
            )[name@] == contents(tensors@[k as int]),
            None => !by_name(tensors@).dom().contains(name@),
        },
{
    let mut found: Option<usize> = None;
    let mut k: usize = 0;
    assert(tensors@.take(0) =~= Seq::<RawTensor>::empty());
    while k < tensors.len()
        invariant
            k <= tensors@.len(),
            match found {
                Some(j) => j < k && by_name(tensors@.take(k as int)).dom().contains(name@)
                    && by_name(tensors@.take(k as int))[name@] == contents(tensors@[j as int]),
                None => !by_name(tensors@.take(k as int)).dom().contains(name@),
            },
        decreases tensors@.len() - k,
    {
        assert(tensors@.take(k + 1).drop_last() =~= tensors@.take(k as int));
        assert(tensors@.take(k + 1).last() == tensors@[k as int]);
        if same_text(tensors[k].name.as_str(), name) {
            found = Some(k);
        }
        k = k + 1;
    }
    assert(tensors@.take(k as int) =~= tensors@);
    found
}

/// Whether two lists of dimensions are equal.
fn same_dims(a: &Vec<usize>, b: &Vec<usize>) -> (r: bool)
    ensures
        r == (ints(a@) == ints(b@)),
{
    if a.len() != b.len() {
        assert(ints(a@).len() != ints(b@).len());
        return false;
    }
    let mut i: usize = 0;
    while i < a.len()
        invariant
            i <= a@.len() == b@.len(),
            forall|j: int| 0 <= j < i ==> a@[j] == b@[j],
        decreases a@.len() - i,
    {
        if a[i] != b[i] {
            assert(ints(a@)[i as int] != ints(b@)[i as int]);
            return false;
        }
        i = i + 1;
    }
    assert(ints(a@) =~= ints(b@));
    true
}

/// A copy of a list of dimensions.
fn copy_dims(v: &Vec<usize>) -> (r: Vec<usize>)
    ensures
        r@ == v@,
{
    let r: Vec<usize> = v.clone();
    assert(r@ =~= v@);
    r
}

/// Parameter `i` out of a list of tensors.
fn pick(cfg: &ModelConfig, tensors: &[RawTensor], i: usize) -> (r: Result<Param, CheckpointError>)
    requires
        i < 6,
        shapes_fit(*cfg),
        consistent(tensors@),
    ensures
        match fault(by_name(tensors@), *cfg, i as int) {
            Some(f) => r matches Err(e) && e.reports(*cfg, i as int, f),
            None => r matches Ok(p) && ints(p.dims@) == param_shape(*cfg, i as int) && p.bits@
                == bytes_to_floats(by_name(tensors@)[param_name(i as int)].2) && p.bits@.len()
                == elements(param_shape(*cfg, i as int)),
        },
{
    let name: &'static str = PARAM_NAMES[i];
    let k: usize = match find(tensors, name) {
        Some(k) => k,
        None => return Err(CheckpointError::Missing { name }),
    };
    let t: &RawTensor = &tensors[k];
    let expected = shape_of(cfg, i);
    if !same_dims(&t.dims, &expected) {
        return Err(CheckpointError::WrongShape { name, dims: copy_dims(&t.dims), expected });
    }
    if !same_text(t.dtype.as_str(), "F32") {
        return Err(CheckpointError::WrongDtype { name, dtype: t.dtype.clone() });
    }
    match le_bytes_to_f32s(t.data.as_slice()) {
        Ok(bits) => Ok(Param { dims: expected, bits }),
        Err(_) => {
            assert(false);
            Err(CheckpointError::Missing { name })
        },
    }
}

/// Whether a text is one of the six names.
fn is_parameter(name: &str) -> (r: bool)
    ensures
        r == is_param_name(name@),
{
    let mut i: usize = 0;
    while i < 6
        invariant
            i <= 6,
            forall|j: int| 0 <= j < i ==> #[trigger] param_name(j) != name@,
        decreases 6 - i,
    {
        if same_text(PARAM_NAMES[i], name) {
            assert(param_name(i as int) == name@);
            return true;
        }
        assert(param_name(i as int) != name@);
        i = i + 1;
    }
    false
}

/// The names in a list of tensors that are no parameters.
fn extras(tensors: &[RawTensor]) -> (r: Vec<String>)
    ensures
        names_the_extras(r@, by_name(tensors@)),
{
    let mut out: Vec<String> = Vec::new();
    let mut k: usize = 0;
    assert(tensors@.take(0) =~= Seq::<RawTensor>::empty());
    while k < tensors.len()
        invariant
            k <= tensors@.len(),
            names_the_extras(out@, by_name(tensors@.take(k as int))),
        decreases tensors@.len() - k,
    {
        let ghost before = out@;
        let ghost m0 = by_name(tensors@.take(k as int));
        let ghost m1 = by_name(tensors@.take(k + 1));
        assert(tensors@.take(k + 1).drop_last() =~= tensors@.take(k as int));
        assert(tensors@.take(k + 1).last() == tensors@[k as int]);
        if !is_parameter(tensors[k].name.as_str()) {
            out.push(tensors[k].name.clone());
        }
        proof {
            let added = tensors@[k as int].name@;
            assert forall|n: Seq<char>|
                #![trigger among(out@, n)]
                #![trigger m1.dom().contains(n)]
                among(out@, n) <==> m1.dom().contains(n) && !is_param_name(n) by {
                assert(m1.dom().contains(n) == (m0.dom().contains(n) || n == added));
                assert(among(before, n) <==> m0.dom().contains(n) && !is_param_name(n));
                if among(before, n) {
                    let j = choose|j: int| 0 <= j < before.len() && #[trigger] before[j]@ == n;
                    assert(out@[j]@ == n);
                }
                if n == added && !is_param_name(n) {
                    assert(out@[out@.len() - 1]@ == n);
                }
                if among(out@, n) {
                    let j = choose|j: int| 0 <= j < out@.len() && #[trigger] out@[j]@ == n;
                    if j < before.len() {
                        assert(before[j]@ == n);
                    }
                }
            }
        }
        k = k + 1;
    }
    assert(tensors@.take(k as int) =~= tensors@);
    out
}

// ---------------------------------------------------------------------------
// What a checkpoint holds
// ---------------------------------------------------------------------------

/// The six parameters: the weights and bias of the gates, of the hidden layer of the head and
/// of its output, and their shapes.
pub proof fn law_parameters_and_their_shapes(cfg: ModelConfig)
    ensures
        ({
            let (h, k) = (cfg.hidden_channels as int, cfg.kernel as int);
            &&& param_name(0) == "convlstm.gates.weight"@
            &&& param_shape(cfg, 0) == seq![4 * h, cfg.in_channels + h, k, k]
            &&& param_name(1) == "convlstm.gates.bias"@
            &&& param_shape(cfg, 1) == seq![4 * h]
            &&& param_name(2) == "convlstm.head.mid.weight"@
            &&& param_shape(cfg, 2) == seq![8int, h + 2, k, k]
            &&& param_name(3) == "convlstm.head.mid.bias"@
            &&& param_shape(cfg, 3) == seq![8int]
            &&& param_name(4) == "convlstm.head.out.weight"@
            &&& param_shape(cfg, 4) == seq![1int, 8, 1, 1]
            &&& param_name(5) == "convlstm.head.out.bias"@
            &&& param_shape(cfg, 5) == seq![1int]
        }),
{
}

/// A shape has as many elements as the product of its dimensions.
pub proof fn law_elements_are_a_product(d: int, rest: Seq<int>)
    ensures
        elements(Seq::<int>::empty()) == 1,
        elements(seq![d] + rest) == d * elements(rest),
{
    assert((seq![d] + rest).drop_first() =~= rest);
}

/// Among tensors of one name the last one counts, and a name that none has is not there.
pub proof fn law_last_tensor_of_a_name_counts(ts: Seq<RawTensor>, name: Seq<char>, k: int)
    requires
        -1 <= k < ts.len(),
        k >= 0 ==> ts[k].name@ == name,
        forall|j: int| k < j < ts.len() ==> (#[trigger] ts[j]).name@ != name,
    ensures
        by_name(ts).dom().contains(name) <==> k >= 0,
        k >= 0 ==> by_name(ts)[name] == (ts[k].dims@, ts[k].dtype@, ts[k].data@),
    decreases ts.len(),
{
    if ts.len() > 0 && k < ts.len() - 1 {
        assert(ts[ts.len() - 1].name@ != name);
        law_last_tensor_of_a_name_counts(ts.drop_last(), name, k);
    }
}

/// A checkpoint is without fault exactly when it has each of the six parameters, in its
/// shape and as 32-bit floats; the fault that is reported is the first in their order.
pub proof fn law_faults_are_found_in_order(
    m: Map<Seq<char>, (Seq<usize>, Seq<char>, Seq<u8>)>,
    cfg: ModelConfig,
    i: int,
)
    requires
        0 <= i < 6,
    ensures
        fault(m, cfg, i) is None <==> m.dom().contains(param_name(i)) && ints(m[param_name(i)].0)
            == param_shape(cfg, i) && m[param_name(i)].1 == "F32"@,
        !m.dom().contains(param_name(i)) ==> fault(m, cfg, i) == Some(Fault::Missing),
        first_fault(m, cfg, 0) is None ==> fault(m, cfg, i) is None,
        first_fault(m, cfg, 0) matches Some((k, f)) ==> 0 <= k < 6 && fault(m, cfg, k) == Some(f)
            && (i < k ==> fault(m, cfg, i) is None),
{
    lemma_faults_from(m, cfg, 0, i);
}

/// The first fault from parameter `from` on.
proof fn lemma_faults_from(
    m: Map<Seq<char>, (Seq<usize>, Seq<char>, Seq<u8>)>,
    cfg: ModelConfig,
    from: int,
    i: int,
)
    requires
        0 <= from <= 6,
        from <= i < 6,
    ensures
        first_fault(m, cfg, from) is None ==> fault(m, cfg, i) is None,
        first_fault(m, cfg, from) matches Some((k, f)) ==> from <= k < 6 && fault(m, cfg, k)
            == Some(f) && (i < k ==> fault(m, cfg, i) is None),
    decreases 6 - from,
{
    if fault(m, cfg, from) is None {
        if from + 1 <= i {
            lemma_faults_from(m, cfg, from + 1, i);
        } else if from + 1 < 6 {
            lemma_faults_from(m, cfg, from + 1, from + 1);
        }
    }
}

/// A parameter that is loaded holds the floats of the tensor of its name, in its shape.
pub proof fn law_parameters_are_loaded_by_name(
    m: Map<Seq<char>, (Seq<usize>, Seq<char>, Seq<u8>)>,
    cfg: ModelConfig,
    i: int,
)
    requires
        0 <= i < 6,
        m[param_name(i)].2.len() % 4 == 0,
    ensures
        loaded_params(m, cfg).len() == 6,
        loaded_params(m, cfg)[i].0 == param_shape(cfg, i),
        crate::model::floats::floats_to_bytes(loaded_params(m, cfg)[i].1) == m[param_name(i)].2,
{
    crate::model::floats::law_float_bytes_round_trip(m[param_name(i)].2);
}

/// A model is well formed where it has six parameters, each with the elements of its shape.
pub proof fn law_well_formed_models(m: ConvLstm, i: int)
    requires
        m.wf(),
        0 <= i < 6,
    ensures
        m.params@.len() == 6,
        ints(m.params@[i].dims@) == param_shape(m.cfg, i),
        m.params@[i].bits@.len() == elements(param_shape(m.cfg, i)),
{
}

/// What the parameters are called, and that nothing else is one.
pub proof fn law_parameters_are_these_six(s: Seq<char>)
    ensures
        is_param_name(s) <==> {
            ||| s == "convlstm.gates.weight"@
            ||| s == "convlstm.gates.bias"@
            ||| s == "convlstm.head.mid.weight"@
            ||| s == "convlstm.head.mid.bias"@
            ||| s == "convlstm.head.out.weight"@
            ||| s == "convlstm.head.out.bias"@
        },
{
    assert(param_name(0) == "convlstm.gates.weight"@);
    assert(param_name(1) == "convlstm.gates.bias"@);
    assert(param_name(2) == "convlstm.head.mid.weight"@);
    assert(param_name(3) == "convlstm.head.mid.bias"@);
    assert(param_name(4) == "convlstm.head.out.weight"@);
    assert(param_name(5) == "convlstm.head.out.bias"@);
}

/// The extras of a checkpoint are the names in it that are no parameters.
pub proof fn law_extras_are_the_other_names(
    names: Seq<String>,
    m: Map<Seq<char>, (Seq<usize>, Seq<char>, Seq<u8>)>,
    n: Seq<char>,
    j: int,
)
    requires
        names_the_extras(names, m),
    ensures
        0 <= j < names.len() ==> m.dom().contains(names[j]@) && !is_param_name(names[j]@),
        m.dom().contains(n) && !is_param_name(n) ==> exists|k: int|
            0 <= k < names.len() && (#[trigger] names[k])@ == n,
{
    if 0 <= j < names.len() {
        assert(among(names, names[j]@));
    }
    if m.dom().contains(n) && !is_param_name(n) {
        assert(among(names, n));
    }
}

/// A list is written with a comma and a space between its items, and nowhere else.
pub proof fn law_lists_are_separated(items: Seq<Seq<char>>, x: Seq<char>)
    ensures
        separated(Seq::empty()) == Seq::<char>::empty(),
        separated(seq![x]) == x,
        items.len() > 0 ==> separated(items.push(x)) == separated(items) + ", "@ + x,
{
    assert(items.push(x).drop_last() == items);
}

/// What an error of a parameter names: the parameter, and what is wrong with it.
pub proof fn law_errors_name_the_parameter(
    e: CheckpointError,
    cfg: ModelConfig,
    i: int,
    dims: Seq<usize>,
    dtype: Seq<char>,
    origin: Seq<char>,
)
    ensures
        e.reports(cfg, i, Fault::Missing) ==> e.text(origin) == "checkpoint "@ + quoted_path(origin)
            + " is missing parameter "@ + param_name(i),
        e.reports(cfg, i, Fault::Dtype(dtype)) ==> e.text(origin) == "checkpoint "@ + quoted_path(
            origin,
        ) + ": parameter "@ + param_name(i) + " has dtype "@ + dtype + ", expected f32"@,
        e.reports(cfg, i, Fault::Shape(dims)) ==> {
            &&& e matches CheckpointError::WrongShape { expected, .. }
            &&& ints(expected@) == param_shape(cfg, i)
            &&& e.text(origin) == "checkpoint "@ + quoted_path(origin) + ": parameter "@
                + param_name(i) + " has shape "@ + dims_text(dims) + ", expected "@ + dims_text(
                expected@,
            )
        },
{
}

} // verus!
