//! BLAKE3 digests and what they are taken of.

use vstd::prelude::*;

use crate::bytes::{le_bytes, push_bytes, push_u64};
use crate::bytes::{lemma_le_bytes_len, lemma_le_spans, lemma_le_value_of_bytes};
use crate::model::config::ModelConfig;
use crate::model::floats::{f32s_to_le_bytes, floats_to_bytes, law_floats_round_trip};
use crate::model::params::{param_name, param_shape, ConvLstm, Param, PARAM_NAMES};
use crate::text::{hex, hex_text};

verus! {

/// The BLAKE3-256 digest of a byte string.
pub uninterp spec fn blake3_digest(bytes: Seq<u8>) -> Seq<u8>;

/// `blake3::hash`: the digest depends on the bytes alone and is left to
/// [`blake3_digest`].
#[verifier::external_body]
fn blake3_hash(bytes: &[u8]) -> (r: [u8; 32])
    ensures
        r@ == blake3_digest(bytes@),
{
    *blake3::hash(bytes).as_bytes()
}

/// BLAKE3-256 of `bytes`.
pub fn hash32(bytes: &[u8]) -> (r: [u8; 32])
    ensures
        r@ == blake3_digest(bytes@),
{
    blake3_hash(bytes)
}

/// Lower-case hexadecimal of a 32-byte digest.
pub fn hex32(d: &[u8; 32]) -> (r: String)
    ensures
        r@ == hex(d@),
{
    hex_text(d.as_slice())
}

/// BLAKE3-256 of `bytes`, in lower-case hexadecimal.
pub fn hash_hex(bytes: &[u8]) -> (r: String)
    ensures
        r@ == hex(blake3_digest(bytes@)),
{
    hex32(&hash32(bytes))
}

/// The state hash: BLAKE3 over the bytes of `H`, `C` and the carry, in that order.
pub fn state_hash(h: &[u8], c: &[u8], carry: &[u8]) -> (r: [u8; 32])
    ensures
        r@ == blake3_digest(h@ + c@ + carry@),
{
    let mut all: Vec<u8> = Vec::new();
    push_bytes(&mut all, h);
    push_bytes(&mut all, c);
    push_bytes(&mut all, carry);
    assert(all@ =~= h@ + c@ + carry@);
    hash32(all.as_slice())
}

/// The dimensions of a shape as 64-bit little-endian words.
pub open spec fn shape_bytes(shape: Seq<int>) -> Seq<u8>
    decreases shape.len(),
{
    if shape.len() == 0 {
        Seq::empty()
    } else {
        shape_bytes(shape.drop_last()) + le_bytes(shape.last() as nat, 8)
    }
}

/// What one parameter contributes to the weights hash: its name, a NUL, its
/// shape and the exact bytes of its elements.
pub open spec fn param_bytes(name: Seq<char>, shape: Seq<int>, bits: Seq<u32>) -> Seq<u8> {
    vstd::utf8::encode_utf8(name) + seq![0u8] + shape_bytes(shape) + floats_to_bytes(bits)
}

/// What the first `k` parameters of a model contribute to the weights hash.
pub open spec fn weights_preimage(params: Seq<(Seq<int>, Seq<u32>)>, k: int) -> Seq<u8>
    decreases k,
{
    if k <= 0 {
        vstd::utf8::encode_utf8("vole-field/weights/1"@)
    } else {
        weights_preimage(params, k - 1) + param_bytes(
            param_name(k - 1),
            params[k - 1].0,
            params[k - 1].1,
        )
    }
}

/// The behaviour-determining hash of a frozen model: every parameter with its
/// name, its shape and its exact bytes, in a fixed order.
pub fn weights_hash(model: &ConvLstm) -> (r: [u8; 32])
    requires
        model.wf(),
    ensures
        r@ == blake3_digest(weights_preimage(model@, 6)),
{
    let mut all: Vec<u8> = Vec::new();
    push_bytes(&mut all, "vole-field/weights/1".as_bytes());
    assert(all@ =~= weights_preimage(model@, 0));
    let mut i: usize = 0;
    while i < 6
        invariant
            i <= 6,
            model.wf(),
            all@ == weights_preimage(model@, i as int),
        decreases 6 - i,
    {
        let ghost before = all@;
        let p: &Param = &model.params[i];
        push_bytes(&mut all, PARAM_NAMES[i].as_bytes());
        all.push(0);
        push_shape(&mut all, &p.dims);
        let data = f32s_to_le_bytes(p.bits.as_slice());
        push_bytes(&mut all, data.as_slice());
        proof {
            assert(model@[i as int] == (crate::model::params::ints(p.dims@), p.bits@));
            assert(all@ =~= before + param_bytes(
                param_name(i as int),
                model@[i as int].0,
                model@[i as int].1,
            ));
        }
        i = i + 1;
    }
    hash32(all.as_slice())
}

/// Appends the dimensions of a shape.
fn push_shape(out: &mut Vec<u8>, dims: &Vec<usize>)
    ensures
        final(out)@ == old(out)@ + shape_bytes(crate::model::params::ints(dims@)),
{
    let ghost all = crate::model::params::ints(dims@);
    let ghost start = out@;
    let mut i: usize = 0;
    assert(shape_bytes(all.take(0)) =~= Seq::<u8>::empty());
    assert(start =~= start + shape_bytes(all.take(0)));
    while i < dims.len()
        invariant
            i <= dims@.len(),
            all == crate::model::params::ints(dims@),
            out@ == start + shape_bytes(all.take(i as int)),
        decreases dims@.len() - i,
    {
        push_u64(out, dims[i] as u64);
        proof {
            let t = all.take(i + 1);
            assert(t.drop_last() =~= all.take(i as int));
            assert(t.last() == dims@[i as int] as int);
            assert(out@ =~= start + shape_bytes(t));
        }
        i = i + 1;
    }
    assert(all.take(i as int) =~= all);
}

/// Canonical architecture hash.
pub fn config_hash(cfg: &ModelConfig) -> (r: [u8; 32])
    ensures
        r@ == blake3_digest(cfg.canonical()),
{
    let b = cfg.canonical_bytes();
    hash32(b.as_slice())
}

/// What the parameters from `k` on contribute to the weights hash.
spec fn weights_tail(params: Seq<(Seq<int>, Seq<u32>)>, k: int) -> Seq<u8>
    decreases 6 - k,
{
    if k >= 6 {
        Seq::empty()
    } else {
        param_bytes(param_name(k), params[k].0, params[k].1) + weights_tail(params, k + 1)
    }
}

/// A preimage is what the first parameters contribute, then the others.
proof fn lemma_preimage_splits(params: Seq<(Seq<int>, Seq<u32>)>, k: int)
    requires
        0 <= k <= 6,
    ensures
        weights_preimage(params, 6) == weights_preimage(params, k) + weights_tail(params, k),
    decreases 6 - k,
{
    if k < 6 {
        lemma_preimage_splits(params, k + 1);
        let own = param_bytes(param_name(k), params[k].0, params[k].1);
        assert((weights_preimage(params, k) + own) + weights_tail(params, k + 1)
            =~= weights_preimage(params, k) + (own + weights_tail(params, k + 1)));
    } else {
        assert(weights_preimage(params, 6) + Seq::<u8>::empty() =~= weights_preimage(params, 6));
    }
}

/// Equal concatenations whose first parts are equally long have equal parts.
proof fn lemma_parts_equal(x: Seq<u8>, y: Seq<u8>, x2: Seq<u8>, y2: Seq<u8>)
    requires
        x + y == x2 + y2,
        x.len() == x2.len(),
    ensures
        x == x2,
        y == y2,
{
    assert((x + y).take(x.len() as int) =~= x);
    assert((x2 + y2).take(x.len() as int) =~= x2);
    assert((x + y).skip(x.len() as int) =~= y);
    assert((x2 + y2).skip(x.len() as int) =~= y2);
}

/// Whether every dimension fits in 64 bits.
spec fn dims_fit(shape: Seq<int>) -> bool {
    forall|i: int| 0 <= i < shape.len() ==> 0 <= #[trigger] shape[i] <= u64::MAX
}

/// Eight bytes per dimension, and the dimensions can be read back.
proof fn lemma_shape_bytes(a: Seq<int>, b: Seq<int>)
    requires
        a.len() == b.len(),
        dims_fit(a),
        dims_fit(b),
    ensures
        shape_bytes(a).len() == 8 * a.len(),
        shape_bytes(b).len() == 8 * a.len(),
        shape_bytes(a) == shape_bytes(b) ==> a == b,
    decreases a.len(),
{
    if a.len() > 0 {
        lemma_shape_bytes(a.drop_last(), b.drop_last());
        lemma_le_bytes_len(a.last() as nat, 8);
        lemma_le_bytes_len(b.last() as nat, 8);
        if shape_bytes(a) == shape_bytes(b) {
            lemma_parts_equal(
                shape_bytes(a.drop_last()),
                le_bytes(a.last() as nat, 8),
                shape_bytes(b.drop_last()),
                le_bytes(b.last() as nat, 8),
            );
            lemma_le_spans();
            lemma_le_value_of_bytes(a.last() as nat, 8);
            lemma_le_value_of_bytes(b.last() as nat, 8);
            assert(a =~= a.drop_last().push(a.last()));
            assert(b =~= b.drop_last().push(b.last()));
        }
    } else {
        assert(a =~= b);
    }
}

/// Parameter `k`, and what follows it, can be read back from the tail.
proof fn lemma_tails_equal(a: ConvLstm, b: ConvLstm, k: int)
    requires
        0 <= k <= 6,
        a.wf(),
        b.wf(),
        weights_tail(a@, k) == weights_tail(b@, k),
    ensures
        forall|i: int| k <= i < 6 ==> a@[i] == b@[i],
    decreases 6 - k,
{
    if k < 6 {
        let (sa, sb) = (a@[k].0, b@[k].0);
        let (fa, fb) = (a@[k].1, b@[k].1);
        assert(sa == param_shape(a.cfg, k) && sb == param_shape(b.cfg, k));
        assert(fa == a.params@[k].bits@ && fb == b.params@[k].bits@);
        assert(dims_fit(sa) && dims_fit(sb));
        lemma_shape_bytes(sa, sb);
        let lead = vstd::utf8::encode_utf8(param_name(k)) + seq![0u8];
        let (ta, tb) = (weights_tail(a@, k + 1), weights_tail(b@, k + 1));
        assert(weights_tail(a@, k) =~= (lead + shape_bytes(sa)) + (floats_to_bytes(fa) + ta));
        assert(weights_tail(b@, k) =~= (lead + shape_bytes(sb)) + (floats_to_bytes(fb) + tb));
        lemma_parts_equal(
            lead + shape_bytes(sa),
            floats_to_bytes(fa) + ta,
            lead + shape_bytes(sb),
            floats_to_bytes(fb) + tb,
        );
        lemma_parts_equal(lead, shape_bytes(sa), lead, shape_bytes(sb));
        lemma_parts_equal(floats_to_bytes(fa), ta, floats_to_bytes(fb), tb);
        law_floats_round_trip(fa);
        law_floats_round_trip(fb);
        lemma_tails_equal(a, b, k + 1);
        assert(a@[k] == b@[k]);
    }
}

/// What the weights hash is taken of tells models apart: two of them with the
/// same preimage have the same parameters, and two with the same parameters
/// have the same hash, whatever container they were read from.
pub proof fn law_weights_preimage_determines_the_parameters(a: ConvLstm, b: ConvLstm)
    requires
        a.wf(),
        b.wf(),
    ensures
        weights_preimage(a@, 6) == weights_preimage(b@, 6) <==> a@ == b@,
        a@ == b@ ==> blake3_digest(weights_preimage(a@, 6)) == blake3_digest(
            weights_preimage(b@, 6),
        ),
{
    if weights_preimage(a@, 6) == weights_preimage(b@, 6) {
        lemma_preimage_splits(a@, 0);
        lemma_preimage_splits(b@, 0);
        lemma_parts_equal(
            weights_preimage(a@, 0),
            weights_tail(a@, 0),
            weights_preimage(b@, 0),
            weights_tail(b@, 0),
        );
        lemma_tails_equal(a, b, 0);
        assert(a@ =~= b@);
    }
}

/// What the weights are hashed as: a tag, and then of each parameter its name, a NUL, each of
/// its dimensions in eight bytes, and its numbers in four bytes each.
pub proof fn law_weights_are_hashed_in_order(
    params: Seq<(Seq<int>, Seq<u32>)>,
    k: int,
    shape: Seq<int>,
    d: int,
)
    requires
        0 <= k,
    ensures
        weights_preimage(params, 0) == vstd::utf8::encode_utf8("vole-field/weights/1"@),
        weights_preimage(params, k + 1) == weights_preimage(params, k) + vstd::utf8::encode_utf8(
            param_name(k),
        ) + seq![0u8] + shape_bytes(params[k].0) + floats_to_bytes(params[k].1),
        shape_bytes(Seq::<int>::empty()) == Seq::<u8>::empty(),
        shape_bytes(shape.push(d)) == shape_bytes(shape) + le_bytes(d as nat, 8),
{
    assert(shape.push(d).drop_last() =~= shape);
    let name = vstd::utf8::encode_utf8(param_name(k));
    let front = weights_preimage(params, k);
    assert(front + (name + seq![0u8] + shape_bytes(params[k].0) + floats_to_bytes(params[k].1))
        =~= front + name + seq![0u8] + shape_bytes(params[k].0) + floats_to_bytes(params[k].1));
}

} // verus!
