//! Writing a trained model as a checkpoint.

use vstd::prelude::*;

use crate::bytes::bytes_equal;
use crate::model::config::ModelConfig;
use crate::model::floats::{f32s_to_le_bytes, floats_to_bytes, law_floats_round_trip};
use crate::model::header::{loadable, MAX_HEADER_BYTES};
use crate::model::params::{by_name, consistent, contents, elements, fault, first_fault, ints,
    is_param_name, loaded_params, only_parameters, param_name, param_shape, readable_tensors,
    shapes_fit, stored_tensors, CheckpointError, ConvLstm, RawTensor, PARAM_NAMES};
use crate::state::hashes::{blake3_digest, weights_hash, weights_preimage};

verus! {

/// An error of safetensors.
#[verifier::external_type_specification]
#[verifier::external_body]
pub struct ExSafeTensorError(safetensors::SafeTensorError);

/// No two tensors of a list have the same name.
pub open spec fn names_differ(ts: Seq<RawTensor>) -> bool {
    forall|i: int, j: int|
        0 <= i < j < ts.len() ==> (#[trigger] ts[i]).name@ != (#[trigger] ts[j]).name@
}

/// A tensor of `F32` elements whose size can be counted in bits.
pub open spec fn writable(t: RawTensor) -> bool {
    &&& t.dtype@ == "F32"@
    &&& t.name@ != "__metadata__"@
    &&& 32 * elements(ints(t.dims@)) <= usize::MAX
    &&& forall|i: int| 0 <= i < t.dims@.len() ==> #[trigger] t.dims@[i] > 0
}

/// The metadata that safetensors finds in the header of a byte string.
pub uninterp spec fn stored_metadata(bytes: Seq<u8>) -> Map<Seq<char>, Seq<char>>;

/// A list of entries by key; the last one of a key counts.
pub open spec fn by_key(meta: Seq<(String, String)>) -> Map<Seq<char>, Seq<char>>
    decreases meta.len(),
{
    if meta.len() == 0 {
        Map::empty()
    } else {
        by_key(meta.drop_last()).insert(meta.last().0@, meta.last().1@)
    }
}

/// Bytes that are enough for the entries of the metadata in a header: six for each
/// character, which an escaped one takes, and the quotes, the colon and the comma.
pub open spec fn texts_room(meta: Seq<(String, String)>) -> nat
    decreases meta.len(),
{
    if meta.len() == 0 {
        0
    } else {
        texts_room(meta.drop_last()) + 6 * (meta.last().0@.len() + meta.last().1@.len()) + 8
    }
}

/// Bytes that are enough for the descriptions of tensors in a header: six for each
/// character of a name, a size with its comma for each dimension, and the type, the two
/// offsets and the punctuation.
pub open spec fn tensors_room(ts: Seq<RawTensor>) -> nat
    decreases ts.len(),
{
    if ts.len() == 0 {
        0
    } else {
        tensors_room(ts.drop_last()) + 6 * ts.last().name@.len() + 21 * ts.last().dims@.len() + 128
    }
}

/// The metadata hold a text that is too long for any header.
pub open spec fn overlong(meta: Seq<(String, String)>) -> bool {
    exists|k: Seq<char>| #[trigger]
        by_key(meta).dom().contains(k) && by_key(meta)[k].len() > MAX_HEADER_BYTES
}

/// `safetensors::serialize` on views of `F32` tensors, with the entries as metadata.
///
/// What is written reads back: its header declares the sizes of the written tensors, which
/// can be counted, candle finds exactly these tensors in the bytes, and safetensors exactly
/// these metadata. Views whose data are as long as their shape says
/// are valid, so only a header over its limit is an error: it is JSON, padded to eight
/// bytes, in which a character takes one to six bytes. The bytes themselves are not
/// stated, since the metadata stand in them in the order of a hash map, nor the exact
/// length of a header, nor the error.
#[verifier::external_body]
fn serialize_tensors(tensors: &Vec<RawTensor>, meta: &Vec<(String, String)>) -> (r: Result<
    Vec<u8>,
    safetensors::SafeTensorError,
>)
    requires
        consistent(tensors@),
        names_differ(tensors@),
        forall|i: int| 0 <= i < tensors@.len() ==> writable(#[trigger] tensors@[i]),
    ensures
        64 + tensors_room(tensors@) + texts_room(meta@) <= MAX_HEADER_BYTES ==> r is Ok,
        overlong(meta@) ==> r is Err,
        r matches Ok(b) ==> loadable(b@) && stored_tensors(b@) == Some(by_name(tensors@)),
        r matches Ok(b) ==> stored_metadata(b@) == by_key(meta@),
{
    let mut views = Vec::new();
    for t in tensors {
        let kind = safetensors::Dtype::F32;
        let view = safetensors::tensor::TensorView::new(kind, t.dims.clone(), &t.data)?;
        views.push((t.name.clone(), view));
    }
    safetensors::serialize(views, Some(meta.iter().cloned().collect()))
}

/// The `Display` text of a safetensors error. Nothing is stated of it.
#[verifier::external_body]
fn write_error_text(e: &safetensors::SafeTensorError) -> (r: String) {
    e.to_string()
}

/// In a list without repeated names every tensor is found by its name.
proof fn lemma_found_by_name(ts: Seq<RawTensor>, i: int)
    requires
        names_differ(ts),
        0 <= i < ts.len(),
    ensures
        by_name(ts).dom().contains(ts[i].name@),
        by_name(ts)[ts[i].name@] == contents(ts[i]),
    decreases ts.len(),
{
    if i < ts.len() - 1 {
        let front = ts.drop_last();
        assert(front[i] == ts[i]);
        assert(names_differ(front)) by {
            assert forall|a: int, b: int| 0 <= a < b < front.len() implies (
            #[trigger] front[a]).name@ != (#[trigger] front[b]).name@ by {
                assert(ts[a].name@ != ts[b].name@);
            }
        }
        lemma_found_by_name(front, i);
        assert(ts[i].name@ != ts[ts.len() - 1].name@);
    }
}

/// What is found by name is the name of a listed tensor.
proof fn lemma_names_are_listed(ts: Seq<RawTensor>, n: Seq<char>)
    requires
        by_name(ts).dom().contains(n),
    ensures
        exists|i: int| 0 <= i < ts.len() && (#[trigger] ts[i]).name@ == n,
    decreases ts.len(),
{
    if ts.len() > 0 {
        if n == ts.last().name@ {
            assert(ts[ts.len() - 1].name@ == n);
        } else {
            lemma_names_are_listed(ts.drop_last(), n);
            let i = choose|i: int|
                0 <= i < ts.drop_last().len() && (#[trigger] ts.drop_last()[i]).name@ == n;
            assert(ts[i].name@ == n);
        }
    }
}

/// The parameter names are six different texts, and none of them is reserved.
proof fn lemma_param_names_differ(i: int, j: int)
    requires
        0 <= i < j < 6,
    ensures
        param_name(i) != param_name(j),
{
    lemma_param_names();
}

/// What the parameter names are told apart by.
proof fn lemma_param_names()
    ensures
        param_name(0).len() == 21,
        param_name(1).len() == 19,
        param_name(2).len() == 24,
        param_name(3).len() == 22,
        param_name(4).len() == 24,
        param_name(5).len() == 22,
        param_name(2)[14] == 'm',
        param_name(4)[14] == 'o',
        param_name(3)[14] == 'm',
        param_name(5)[14] == 'o',
        "__metadata__"@.len() == 12,
{
    reveal_strlit("convlstm.gates.weight");
    reveal_strlit("convlstm.gates.bias");
    reveal_strlit("convlstm.head.mid.weight");
    reveal_strlit("convlstm.head.mid.bias");
    reveal_strlit("convlstm.head.out.weight");
    reveal_strlit("convlstm.head.out.bias");
    reveal_strlit("__metadata__");
}

/// Every parameter has elements, and their size can be counted in bits.
pub open spec fn model_writable(cfg: ModelConfig) -> bool {
    &&& cfg.hidden_channels > 0
    &&& cfg.kernel > 0
    &&& forall|i: int|
        0 <= i < 6 ==> 32 * elements(#[trigger] param_shape(cfg, i)) <= usize::MAX
}

/// A byte string is a checkpoint with exactly the parameters of a model.
pub open spec fn holds(b: Seq<u8>, model: ConvLstm) -> bool {
    &&& readable_tensors(b) matches Some(m)
    &&& first_fault(m, model.cfg, 0) is None
    &&& only_parameters(m)
    &&& loaded_params(m, model.cfg) == model@
}

/// The descriptions of a model's parameters take little of a header.
proof fn lemma_parameters_room(ts: Seq<RawTensor>, model: ConvLstm)
    requires
        model.wf(),
        ts.len() == 6,
        forall|j: int|
            0 <= j < 6 ==> (#[trigger] ts[j]).name@ == param_name(j) && ts[j].dims@
                == model.params@[j].dims@,
    ensures
        tensors_room(ts) == 1_875,
{
    lemma_param_names();
    assert forall|j: int| 0 <= j < 6 implies (#[trigger] ts[j]).dims@.len() == param_shape(
        model.cfg,
        j,
    ).len() by {
        assert(ints(ts[j].dims@) == param_shape(model.cfg, j));
    }
    let t5 = ts.drop_last();
    let t4 = t5.drop_last();
    let t3 = t4.drop_last();
    let t2 = t3.drop_last();
    let t1 = t2.drop_last();
    assert(tensors_room(t1.drop_last()) == 0);
    assert(t1.last() == ts[0] && tensors_room(t1) == 338);
    assert(t2.last() == ts[1] && tensors_room(t2) == 601);
    assert(t3.last() == ts[2] && tensors_room(t3) == 957);
    assert(t4.last() == ts[3] && tensors_room(t4) == 1_238);
    assert(t5.last() == ts[4] && tensors_room(t5) == 1_594);
}

/// The header has room for the entries of the metadata beside the six parameters.
pub open spec fn header_has_room(meta: Seq<(String, String)>) -> bool {
    64 + 1_875 + texts_room(meta) <= MAX_HEADER_BYTES
}

/// The checkpoint of a model, with its provenance. Loading it gives the model back, and
/// its metadata are the provenance. Only a provenance that is too long for the header of
/// a checkpoint is an error.
pub fn checkpoint_bytes(model: &ConvLstm, meta: &Vec<(String, String)>) -> (r: Result<
    Vec<u8>,
    String,
>)
    requires
        model.wf(),
        model_writable(model.cfg),
    ensures
        header_has_room(meta@) ==> r is Ok,
        overlong(meta@) ==> r is Err,
        r matches Ok(b) ==> holds(b@, *model) && stored_metadata(b@) == by_key(meta@),
{
    let mut tensors: Vec<RawTensor> = Vec::new();
    let mut i: usize = 0;
    while i < 6
        invariant
            i <= 6,
            model.wf(),
            model_writable(model.cfg),
            tensors@.len() == i,
            forall|j: int|
                0 <= j < i ==> {
                    &&& (#[trigger] tensors@[j]).name@ == param_name(j)
                    &&& tensors@[j].dims@ == model.params@[j].dims@
                    &&& tensors@[j].dtype@ == "F32"@
                    &&& tensors@[j].data@ == floats_to_bytes(model.params@[j].bits@)
                },
        decreases 6 - i,
    {
        let p = &model.params[i];
        tensors.push(
            RawTensor {
                name: PARAM_NAMES[i].to_owned(),
                dims: p.dims.clone(),
                dtype: "F32".to_owned(),
                data: f32s_to_le_bytes(p.bits.as_slice()),
            },
        );
        i = i + 1;
    }
    proof {
        lemma_param_names();
        assert forall|a: int, b: int| 0 <= a < b < 6 implies (#[trigger] tensors@[a]).name@ != (
        #[trigger] tensors@[b]).name@ by {
            lemma_param_names_differ(a, b);
        }
        assert forall|j: int| 0 <= j < 6 implies writable(#[trigger] tensors@[j]) by {
            let dims = tensors@[j].dims@;
            assert(ints(dims) == param_shape(model.cfg, j));
            assert forall|k: int| 0 <= k < dims.len() implies #[trigger] dims[k] > 0 by {
                assert(dims[k] == ints(dims)[k]);
            }
        }
        assert(consistent(tensors@));
        lemma_parameters_room(tensors@, *model);
    }
    match serialize_tensors(&tensors, meta) {
        Err(e) => Err(write_error_text(&e)),
        Ok(b) => {
            proof {
                let m = by_name(tensors@);
                assert forall|j: int| 0 <= j < 6 implies #[trigger] fault(
                    m,
                    model.cfg,
                    j,
                ) is None by {
                    lemma_found_by_name(tensors@, j);
                    assert(tensors@[j].name@ == param_name(j));
                }
                assert forall|j: int| 0 <= j < 6 implies #[trigger] model@[j] == loaded_params(
                    m,
                    model.cfg,
                )[j] by {
                    lemma_found_by_name(tensors@, j);
                    assert(tensors@[j].name@ == param_name(j));
                    law_floats_round_trip(model.params@[j].bits@);
                }
                lemma_no_fault(m, model.cfg, 0);
                assert forall|n: Seq<char>| #[trigger] m.dom().contains(n) implies is_param_name(
                    n,
                ) by {
                    lemma_names_are_listed(tensors@, n);
                    let j = choose|j: int| 0 <= j < 6 && (#[trigger] tensors@[j]).name@ == n;
                    assert(param_name(j) == n);
                }
                assert(loaded_params(m, model.cfg) =~= model@);
            }
            Ok(b)
        },
    }
}

/// Without a fault in any parameter there is no first one.
proof fn lemma_no_fault(
    m: Map<Seq<char>, (Seq<usize>, Seq<char>, Seq<u8>)>,
    cfg: ModelConfig,
    k: int,
)
    requires
        0 <= k <= 6,
        forall|j: int| 0 <= j < 6 ==> #[trigger] fault(m, cfg, j) is None,
    ensures
        first_fault(m, cfg, k) is None,
    decreases 6 - k,
{
    if k < 6 {
        lemma_no_fault(m, cfg, k + 1);
    }
}

/// Whether a byte string reloads with the weights hash of a model; nothing if it is no
/// checkpoint of the architecture.
pub open spec fn reload_of(b: Seq<u8>, model: ConvLstm) -> Option<bool> {
    match readable_tensors(b) {
        Some(m) => if first_fault(m, model.cfg, 0) is None && only_parameters(m) {
            Some(
                blake3_digest(weights_preimage(loaded_params(m, model.cfg), 6)) == blake3_digest(
                    weights_preimage(model@, 6),
                ),
            )
        } else {
            None
        },
        None => None,
    }
}

/// Whether a checkpoint reloads with the weights hash of a model; an error if it does
/// not load.
pub fn reload_verified(model: &ConvLstm, bytes: &[u8]) -> (r: Result<bool, CheckpointError>)
    requires
        model.wf(),
        shapes_fit(model.cfg),
    ensures
        match reload_of(bytes@, *model) {
            Some(same) => r == Ok::<bool, CheckpointError>(same),
            None => r is Err,
        },
{
    let reloaded = match ConvLstm::load_safetensors_bytes(bytes, model.cfg) {
        Ok(m) => m,
        Err(e) => {
            return Err(e);
        },
    };
    let a = weights_hash(&reloaded);
    let b = weights_hash(model);
    Ok(bytes_equal(a.as_slice(), b.as_slice()))
}

/// A checkpoint that holds a model's own parameters reloads with its weights hash.
pub proof fn law_written_checkpoint_reloads(b: Seq<u8>, model: ConvLstm)
    requires
        holds(b, model),
    ensures
        reload_of(b, model) == Some(true),
{
}

/// A written checkpoint is verified exactly when what it reloads to has the hash of the
/// weights that were written; one that cannot be loaded is no answer.
pub proof fn law_reloading_compares_the_weights(b: Seq<u8>, model: ConvLstm)
    ensures
        reload_of(b, model) matches Some(same) ==> (readable_tensors(b) matches Some(m) && (same
            <==> blake3_digest(weights_preimage(loaded_params(m, model.cfg), 6)) == blake3_digest(
            weights_preimage(model@, 6),
        ))),
        reload_of(b, model) is Some <==> (readable_tensors(b) matches Some(m) && first_fault(
            m,
            model.cfg,
            0,
        ) is None && only_parameters(m)),
{
}

/// Of two entries of one key the last one counts.
pub proof fn law_last_entry_of_a_key_counts(meta: Seq<(String, String)>, e: (String, String))
    ensures
        by_key(meta.push(e)) == by_key(meta).insert(e.0@, e.1@),
        by_key(Seq::<(String, String)>::empty()) == Map::<Seq<char>, Seq<char>>::empty(),
{
    assert(meta.push(e).drop_last() =~= meta);
}

} // verus!
