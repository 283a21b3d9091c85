//! What the header of a checkpoint declares, looked at before its tensors are loaded.
//!
//! A checkpoint is the length of its header, the header and the bytes of the tensors. The
//! header is JSON. Sizes in it that a machine word cannot count would stop the program in
//! the middle of loading, so they are found here first.

use vstd::prelude::*;

use crate::bytes::{le_value, read_u64};
use crate::model::params::{elements, ints};

verus! {

/// Bytes that the header of a checkpoint may take.
pub const MAX_HEADER_BYTES: usize = 100_000_000;

/// One tensor as a header declares it.
#[derive(Debug)]
pub struct Declared {
    /// Its dimensions.
    pub dims: Vec<usize>,
    /// Where its bytes end, counted from the end of the header.
    pub end: usize,
}

impl View for Declared {
    type V = (Seq<usize>, usize);

    open spec fn view(&self) -> (Seq<usize>, usize) {
        (self.dims@, self.end)
    }
}

/// The declarations of a list, in no order.
pub open spec fn listed(v: Seq<Declared>) -> Set<(Seq<usize>, usize)> {
    Set::new(|d: (Seq<usize>, usize)| exists|i: int| 0 <= i < v.len() && (#[trigger] v[i])@ == d)
}

/// The tensors that safetensors finds declared in the text of a header, if it is a valid
/// one.
pub uninterp spec fn declared_tensors(header: Seq<u8>) -> Option<Set<(Seq<usize>, usize)>>;

/// `serde_json::from_slice` into `safetensors::tensor::Metadata`, each tensor of it as its
/// shape and the end of its data.
///
/// What is declared depends on the bytes alone and is left to [`declared_tensors`]. The
/// order of the list is that of a hash map and is not stated, nor is the error.
#[verifier::external_body]
fn read_header(header: &[u8]) -> (r: Option<Vec<Declared>>)
    ensures
        match r {
            Some(v) => declared_tensors(header@) == Some(listed(v@)),
            None => declared_tensors(header@) is None,
        },
{
    let header: safetensors::tensor::Metadata = serde_json::from_slice(header).ok()?;
    let tensors = header.tensors();
    let plain = |t: &safetensors::tensor::TensorInfo| Declared {
        dims: t.shape.clone(),
        end: t.data_offsets.1,
    };
    Some(tensors.into_values().map(plain).collect())
}

/// The text of the header, if a byte string is long enough for it.
pub open spec fn header_in(bytes: Seq<u8>) -> Option<Seq<u8>> {
    if bytes.len() < 8 {
        None
    } else {
        let n = le_value(bytes.subrange(0, 8));
        if n > MAX_HEADER_BYTES || 8 + n > bytes.len() {
            None
        } else {
            Some(bytes.subrange(8, 8 + n as int))
        }
    }
}

/// The distances between neighbours along every dimension of a row-major tensor, and its
/// elements, can be counted.
pub open spec fn strides_fit(dims: Seq<usize>) -> bool {
    forall|i: int| 0 <= i <= dims.len() ==> elements(#[trigger] ints(dims).skip(i)) <= usize::MAX
}

/// The sizes of a declared tensor can be counted, behind `offset` bytes.
pub open spec fn countable(d: (Seq<usize>, usize), offset: int) -> bool {
    strides_fit(d.0) && offset + d.1 <= usize::MAX
}

/// Every size that a byte string declares can be counted. Where it has no header, it
/// declares none.
pub open spec fn loadable(bytes: Seq<u8>) -> bool {
    match header_in(bytes) {
        None => true,
        Some(h) => match declared_tensors(h) {
            None => true,
            Some(all) => forall|d: (Seq<usize>, usize)| #[trigger]
                all.contains(d) ==> countable(d, 8 + h.len() as int),
        },
    }
}

/// Whether the strides of a shape can be counted.
fn counts_strides(dims: &Vec<usize>) -> (r: bool)
    ensures
        r == strides_fit(dims@),
{
    let mut i: usize = dims.len();
    let mut product: usize = 1;
    let ghost all = ints(dims@);
    assert(all.skip(all.len() as int) =~= Seq::<int>::empty());
    while i > 0
        invariant
            i <= dims@.len(),
            all == ints(dims@),
            all.len() == dims@.len(),
            product == elements(all.skip(i as int)),
            forall|j: int|
                i <= j <= dims@.len() ==> elements(#[trigger] all.skip(j)) <= usize::MAX,
        decreases i,
    {
        let ghost j = i - 1;
        assert(all.skip(j)[0] == dims@[j]);
        assert(all.skip(j).drop_first() =~= all.skip(i as int));
        assert(elements(all.skip(j)) == dims@[j] * product);
        match dims[i - 1].checked_mul(product) {
            Some(p) => {
                product = p;
            },
            None => {
                assert(elements(all.skip(j)) > usize::MAX);
                return false;
            },
        }
        i = i - 1;
    }
    true
}

/// Whether every size that a byte string declares can be counted.
pub fn sizes_can_be_counted(bytes: &[u8]) -> (r: bool)
    ensures
        r == loadable(bytes@),
{
    if bytes.len() < 8 {
        return true;
    }
    let n: u64 = read_u64(bytes, 0);
    if n > MAX_HEADER_BYTES as u64 || n > (bytes.len() - 8) as u64 {
        return true;
    }
    let end: usize = 8 + n as usize;
    let header = vstd::slice::slice_subrange(bytes, 8, end);
    let list = match read_header(header) {
        None => return true,
        Some(v) => v,
    };
    let ghost all = listed(list@);
    let mut i: usize = 0;
    while i < list.len()
        invariant
            i <= list@.len(),
            all == listed(list@),
            header_in(bytes@) == Some(header@),
            end == 8 + header@.len(),
            declared_tensors(header@) == Some(all),
            forall|j: int| 0 <= j < i ==> countable((#[trigger] list@[j])@, end as int),
        decreases list@.len() - i,
    {
        let d = &list[i];
        if !counts_strides(&d.dims) || d.end > usize::MAX - end {
            proof {
                let bad = list@[i as int]@;
                let h = header_in(bytes@)->0;
                assert(all.contains(bad));
                assert(!countable(bad, 8 + h.len() as int));
                assert(declared_tensors(h)->0.contains(bad));
            }
            return false;
        }
        i = i + 1;
    }
    assert forall|d: (Seq<usize>, usize)| #[trigger] all.contains(d) implies countable(
        d,
        8 + header@.len() as int,
    ) by {
        let j = choose|j: int| 0 <= j < list@.len() && (#[trigger] list@[j])@ == d;
        assert(countable(list@[j]@, end as int));
    }
    true
}

} // verus!
