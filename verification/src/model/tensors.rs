//! The tensor arithmetic that candle does for the model, on bit patterns.
//!
//! How a result is rounded is the machine's own: the order in which products are
//! summed, its exponential and its hyperbolic tangent, and the pattern of a sum or a
//! product that is no number. So an operation is known here as a relation between what
//! goes into it and what it may give. Candle takes raw bytes in the machine's order, so
//! this is for little-endian machines.

use vstd::prelude::*;

use crate::model::floats::{bytes_to_floats, f32s_to_le_bytes, floats_to_bytes,
    law_float_bytes_round_trip, law_floats_round_trip, le_bytes_to_f32s, magnitude32};
use crate::model::params::error_text;

verus! {

/// Tensor arithmetic failed.
#[derive(Debug, PartialEq, Eq)]
pub struct ComputeError {
    /// What candle says of it.
    pub message: String,
}

/// Whether these bits are no number.
pub open spec fn is_nan32(bits: u32) -> bool {
    magnitude32(bits) > 0x7f80_0000
}

/// `r` is a `binary32` sum of `a` and `b` as candle's addition gives it on some machine.
pub uninterp spec fn sum_gives(a: u32, b: u32, r: u32) -> bool;

/// `r` is a `binary32` product of `a` and `b` as candle's multiplication gives it on some
/// machine.
pub uninterp spec fn product_gives(a: u32, b: u32, r: u32) -> bool;

/// `r` is the logistic function of `x` as candle gives it on some machine.
pub uninterp spec fn sigmoid_gives(x: u32, r: u32) -> bool;

/// `r` is the hyperbolic tangent of `x` as candle gives it on some machine.
pub uninterp spec fn tanh_gives(x: u32, r: u32) -> bool;

/// `y` are the bytes of the convolution of one image with a kernel as candle gives it on
/// some machine, with stride, dilation and groups of one.
pub uninterp spec fn convolution_gives(
    x: Seq<u8>,
    channels: int,
    height: int,
    width: int,
    w: Seq<u8>,
    out_channels: int,
    kernel: int,
    padding: int,
    y: Seq<u8>,
) -> bool;

/// `r` is the sum of two lists, element by element.
pub open spec fn adds_all(a: Seq<u32>, b: Seq<u32>, r: Seq<u32>) -> bool {
    &&& r.len() == a.len()
    &&& forall|i: int| 0 <= i < r.len() ==> sum_gives(a[i], b[i], #[trigger] r[i])
}

/// `r` is the product of two lists, element by element.
pub open spec fn multiplies_all(a: Seq<u32>, b: Seq<u32>, r: Seq<u32>) -> bool {
    &&& r.len() == a.len()
    &&& forall|i: int| 0 <= i < r.len() ==> product_gives(a[i], b[i], #[trigger] r[i])
}

/// `r` is the logistic function of a list, element by element.
pub open spec fn logistic_all(x: Seq<u32>, r: Seq<u32>) -> bool {
    &&& r.len() == x.len()
    &&& forall|i: int| 0 <= i < r.len() ==> sigmoid_gives(x[i], #[trigger] r[i])
}

/// `r` is the hyperbolic tangent of a list, element by element.
pub open spec fn tangent_all(x: Seq<u32>, r: Seq<u32>) -> bool {
    &&& r.len() == x.len()
    &&& forall|i: int| 0 <= i < r.len() ==> tanh_gives(x[i], #[trigger] r[i])
}

/// `y` is the convolution of planes with an odd kernel that is padded to keep their size:
/// one plane for each output channel.
pub open spec fn convolves(
    x: Seq<u32>,
    channels: int,
    height: int,
    width: int,
    w: Seq<u32>,
    out: int,
    kernel: int,
    y: Seq<u32>,
) -> bool {
    &&& y.len() == out * (height * width)
    &&& convolution_gives(
        floats_to_bytes(x),
        channels,
        height,
        width,
        floats_to_bytes(w),
        out,
        kernel,
        kernel / 2,
        floats_to_bytes(y),
    )
}

// ---------------------------------------------------------------------------
// Candle
// ---------------------------------------------------------------------------

/// `Tensor::conv2d` on the CPU, for one image and with stride, dilation and groups of
/// one, between `Tensor::from_raw_buffer` and `Tensor::write_bytes`.
///
/// The result has one plane for each output channel, as much smaller than the input
/// as the kernel takes and the padding does not give back. Its numbers are sums of
/// products in an order and with a rounding that the machine picks. On the CPU, with
/// candle's own matrix multiplication, only shapes, element types or strides that do not
/// go together are errors. Here two contiguous `F32` tensors with the same input channels
/// meet, so it succeeds.
#[verifier::external_body]
fn convolve_bytes(
    x: &[u8],
    size: (usize, usize, usize),
    w: &[u8],
    out_channels: usize,
    kernel: usize,
    padding: usize,
) -> (r: Result<Vec<u8>, candle_core::Error>)
    requires
        x@.len() == 4 * (size.0 * (size.1 * size.2)),
        w@.len() == 4 * (out_channels * (size.0 * (kernel * kernel))),
        0 < size.0,
        0 < size.1,
        0 < size.2,
        0 < out_channels,
        0 < kernel,
        kernel <= size.1 + 2 * padding <= usize::MAX,
        kernel <= size.2 + 2 * padding <= usize::MAX,
        4 * (out_channels * ((size.1 + 2 * padding - kernel + 1) * (size.2 + 2 * padding - kernel
            + 1))) <= isize::MAX,
        4 * ((size.0 * (kernel * kernel)) * ((size.1 + 2 * padding - kernel + 1) * (size.2 + 2
            * padding - kernel + 1))) <= isize::MAX,
    ensures
        r is Ok,
        r matches Ok(y) ==> y@.len() == 4 * (out_channels * ((size.1 + 2 * padding - kernel + 1) * (
        size.2 + 2 * padding - kernel + 1))),
        r matches Ok(y) ==> convolution_gives(
            x@,
            size.0 as int,
            size.1 as int,
            size.2 as int,
            w@,
            out_channels as int,
            kernel as int,
            padding as int,
            y@,
        ),
{
    let (channels, height, width) = size;
    let cpu = candle_core::Device::Cpu;
    let kind = candle_core::DType::F32;
    let x = candle_core::Tensor::from_raw_buffer(x, kind, &[1, channels, height, width], &cpu)?;
    let shape = [out_channels, channels, kernel, kernel];
    let w = candle_core::Tensor::from_raw_buffer(w, kind, &shape, &cpu)?;
    let mut out = Vec::new();
    x.conv2d(&w, padding, 1, 1, 1)?.write_bytes(&mut out)?;
    Ok(out)
}

/// `candle_nn::ops::sigmoid` on the CPU, element by element. It goes through the
/// machine's exponential. Only element types that are no floats are errors, so for `F32`
/// it succeeds.
#[verifier::external_body]
fn sigmoid_bytes(x: &[u8]) -> (r: Result<Vec<u8>, candle_core::Error>)
    requires
        x@.len() % 4 == 0,
        x@.len() > 0,
    ensures
        r is Ok,
        r matches Ok(y) ==> y@.len() == x@.len(),
        r matches Ok(y) ==> forall|i: int|
            0 <= i < y@.len() / 4 ==> sigmoid_gives(
                bytes_to_floats(x@)[i],
                #[trigger] bytes_to_floats(y@)[i],
            ),
{
    let cpu = candle_core::Device::Cpu;
    let kind = candle_core::DType::F32;
    let x = candle_core::Tensor::from_raw_buffer(x, kind, &[x.len() / 4], &cpu)?;
    let mut out = Vec::new();
    candle_nn::ops::sigmoid(&x)?.write_bytes(&mut out)?;
    Ok(out)
}

/// `Tensor::tanh` on the CPU, element by element. It is the machine's hyperbolic
/// tangent. Only some narrow element types are errors, so for `F32` it succeeds.
#[verifier::external_body]
fn tanh_bytes(x: &[u8]) -> (r: Result<Vec<u8>, candle_core::Error>)
    requires
        x@.len() % 4 == 0,
        x@.len() > 0,
    ensures
        r is Ok,
        r matches Ok(y) ==> y@.len() == x@.len(),
        r matches Ok(y) ==> forall|i: int|
            0 <= i < y@.len() / 4 ==> tanh_gives(
                bytes_to_floats(x@)[i],
                #[trigger] bytes_to_floats(y@)[i],
            ),
{
    let cpu = candle_core::Device::Cpu;
    let kind = candle_core::DType::F32;
    let x = candle_core::Tensor::from_raw_buffer(x, kind, &[x.len() / 4], &cpu)?;
    let mut out = Vec::new();
    x.tanh()?.write_bytes(&mut out)?;
    Ok(out)
}

/// `Tensor::add` on the CPU for two tensors of one shape: each element is the
/// `binary32` sum of the two. Only shapes, element types or devices that differ are
/// errors, so for two `F32` tensors of one shape it succeeds.
#[verifier::external_body]
fn add_bytes(a: &[u8], b: &[u8]) -> (r: Result<Vec<u8>, candle_core::Error>)
    requires
        a@.len() % 4 == 0,
        a@.len() > 0,
        b@.len() == a@.len(),
    ensures
        r is Ok,
        r matches Ok(y) ==> y@.len() == a@.len(),
        r matches Ok(y) ==> forall|i: int|
            0 <= i < y@.len() / 4 ==> sum_gives(
                bytes_to_floats(a@)[i],
                bytes_to_floats(b@)[i],
                #[trigger] bytes_to_floats(y@)[i],
            ),
{
    let cpu = candle_core::Device::Cpu;
    let kind = candle_core::DType::F32;
    let a = candle_core::Tensor::from_raw_buffer(a, kind, &[a.len() / 4], &cpu)?;
    let b = candle_core::Tensor::from_raw_buffer(b, kind, &[b.len() / 4], &cpu)?;
    let mut out = Vec::new();
    a.add(&b)?.write_bytes(&mut out)?;
    Ok(out)
}

/// `Tensor::mul` on the CPU for two tensors of one shape: each element is the
/// `binary32` product of the two. Only shapes, element types or devices that differ are
/// errors, so for two `F32` tensors of one shape it succeeds.
#[verifier::external_body]
fn multiply_bytes(a: &[u8], b: &[u8]) -> (r: Result<Vec<u8>, candle_core::Error>)
    requires
        a@.len() % 4 == 0,
        a@.len() > 0,
        b@.len() == a@.len(),
    ensures
        r is Ok,
        r matches Ok(y) ==> y@.len() == a@.len(),
        r matches Ok(y) ==> forall|i: int|
            0 <= i < y@.len() / 4 ==> product_gives(
                bytes_to_floats(a@)[i],
                bytes_to_floats(b@)[i],
                #[trigger] bytes_to_floats(y@)[i],
            ),
{
    let cpu = candle_core::Device::Cpu;
    let kind = candle_core::DType::F32;
    let a = candle_core::Tensor::from_raw_buffer(a, kind, &[a.len() / 4], &cpu)?;
    let b = candle_core::Tensor::from_raw_buffer(b, kind, &[b.len() / 4], &cpu)?;
    let mut out = Vec::new();
    a.mul(&b)?.write_bytes(&mut out)?;
    Ok(out)
}

// ---------------------------------------------------------------------------
// On bit patterns
// ---------------------------------------------------------------------------

/// The bit patterns of what candle wrote.
fn result(r: Result<Vec<u8>, candle_core::Error>) -> (out: Result<Vec<u32>, ComputeError>)
    requires
        r matches Ok(y) ==> y@.len() % 4 == 0,
    ensures
        out is Ok <==> r is Ok,
        r matches Ok(y) ==> out matches Ok(v) && v@ == bytes_to_floats(y@) && floats_to_bytes(v@)
            == y@,
{
    match r {
        Ok(y) => {
            proof {
                law_float_bytes_round_trip(y@);
            }
            match le_bytes_to_f32s(y.as_slice()) {
                Ok(v) => Ok(v),
                Err(e) => Err(ComputeError { message: e.message() }),
            }
        },
        Err(e) => Err(ComputeError { message: error_text(&e) }),
    }
}

/// A list fits in a buffer of bytes.
pub open spec fn buffered(v: Seq<u32>) -> bool {
    0 < v.len() && 4 * v.len() <= usize::MAX
}

/// Logistic function, element by element.
pub fn sigmoid(x: &Vec<u32>) -> (r: Result<Vec<u32>, ComputeError>)
    requires
        buffered(x@),
    ensures
        r matches Ok(y) && logistic_all(x@, y@),
{
    let bytes = f32s_to_le_bytes(x.as_slice());
    proof {
        law_floats_round_trip(x@);
    }
    result(sigmoid_bytes(bytes.as_slice()))
}

/// Hyperbolic tangent, element by element.
pub fn tanh(x: &Vec<u32>) -> (r: Result<Vec<u32>, ComputeError>)
    requires
        buffered(x@),
    ensures
        r matches Ok(y) && tangent_all(x@, y@),
{
    let bytes = f32s_to_le_bytes(x.as_slice());
    proof {
        law_floats_round_trip(x@);
    }
    result(tanh_bytes(bytes.as_slice()))
}

/// Sum, element by element.
pub fn add_lists(a: &Vec<u32>, b: &Vec<u32>) -> (r: Result<Vec<u32>, ComputeError>)
    requires
        buffered(a@),
        b@.len() == a@.len(),
    ensures
        r matches Ok(y) && adds_all(a@, b@, y@),
{
    let x = f32s_to_le_bytes(a.as_slice());
    let y = f32s_to_le_bytes(b.as_slice());
    proof {
        law_floats_round_trip(a@);
        law_floats_round_trip(b@);
    }
    result(add_bytes(x.as_slice(), y.as_slice()))
}

/// Product, element by element.
pub fn multiply_lists(a: &Vec<u32>, b: &Vec<u32>) -> (r: Result<Vec<u32>, ComputeError>)
    requires
        buffered(a@),
        b@.len() == a@.len(),
    ensures
        r matches Ok(y) && multiplies_all(a@, b@, y@),
{
    let x = f32s_to_le_bytes(a.as_slice());
    let y = f32s_to_le_bytes(b.as_slice());
    proof {
        law_floats_round_trip(a@);
        law_floats_round_trip(b@);
    }
    result(multiply_bytes(x.as_slice(), y.as_slice()))
}

/// The sizes of a convolution whose padding makes up for its kernel.
pub open spec fn convolvable(channels: int, height: int, width: int, out: int, kernel: int) -> bool {
    &&& 0 < channels && 0 < height && 0 < width && 0 < out
    &&& kernel % 2 == 1 && 0 < kernel
    &&& height + kernel <= usize::MAX
    &&& width + kernel <= usize::MAX
    &&& 4 * (channels * (height * width)) <= usize::MAX
    &&& 4 * (out * (channels * (kernel * kernel))) <= usize::MAX
    &&& 4 * (out * (height * width)) <= isize::MAX
    &&& 4 * ((channels * (kernel * kernel)) * (height * width)) <= isize::MAX
}

/// A convolution of planes that keeps their size, with an odd kernel: one plane for
/// each output channel.
pub fn convolve(
    x: &Vec<u32>,
    channels: usize,
    height: usize,
    width: usize,
    w: &Vec<u32>,
    out: usize,
    kernel: usize,
) -> (r: Result<Vec<u32>, ComputeError>)
    requires
        convolvable(channels as int, height as int, width as int, out as int, kernel as int),
        x@.len() == channels * (height * width),
        w@.len() == out * (channels * (kernel * kernel)),
    ensures
        r matches Ok(y) && convolves(
            x@,
            channels as int,
            height as int,
            width as int,
            w@,
            out as int,
            kernel as int,
            y@,
        ),
{
    let xb = f32s_to_le_bytes(x.as_slice());
    let wb = f32s_to_le_bytes(w.as_slice());
    let padding: usize = kernel / 2;
    assert(height + 2 * padding - kernel + 1 == height);
    assert(width + 2 * padding - kernel + 1 == width);
    result(
        convolve_bytes(
            xb.as_slice(),
            (channels, height, width),
            wb.as_slice(),
            out,
            kernel,
            padding,
        ),
    )
}

} // verus!
