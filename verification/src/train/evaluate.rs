//! What a checkpoint is judged by: for every request, the frames that it generates
//! and the frames that the scene itself shows.

use vstd::prelude::*;

use crate::experiment::frames::frame_list;
use crate::experiment::generator::{generable, generated, Generator};
use crate::model::cell::computable;
use crate::model::floats::{all_finite, finite_list};
use crate::model::state::State;
use crate::model::tensors::ComputeError;
use crate::model::work::WorkMeter;
use crate::rollout::{canonical_bodies, true_future, truth_future, Body};
use crate::scene::{Control, Request};

verus! {

/// One branch of the canonical scene.
#[derive(Debug)]
pub struct Branch {
    /// The request.
    pub request: Request,
    /// What the model generates.
    pub generated: Vec<Vec<u32>>,
    /// What the scene shows.
    pub truth: Vec<Vec<u32>>,
}

/// Branch `b` of a request.
pub open spec fn branch_of<A: Fn(&Body, Control) -> Body, R: Fn(&Vec<Body>) -> Vec<u32>>(
    b: Branch,
    gen: Generator,
    state: State,
    request: Request,
    advance: A,
    render: R,
) -> bool {
    &&& b.request == request
    &&& generated(
        gen.model,
        request.program(),
        state@,
        gen.future_len as int,
        frame_list(b.generated@),
    )
    &&& true_future(
        canonical_bodies(gen.scene),
        gen.context_len as nat,
        gen.future_len as nat,
        request,
        b.truth@,
        advance,
        render,
    )
}

/// Every branch of the canonical scene from an earned state, in evidence order. The
/// first frame that cannot be generated ends it: a checkpoint that cannot generate
/// is not judged at all.
pub fn all_branches<
    A: Fn(&Body, Control) -> Body + Copy,
    R: Fn(&Vec<Body>) -> Vec<u32> + Copy,
>(gen: &Generator, state: &State, advance: A, render: R) -> (r: Result<Vec<Branch>, ComputeError>)
    requires
        gen.wf(),
        computable(gen.cfg),
        forall|b: &Body, u: Control| call_requires(advance, (b, u)),
        forall|v: &Vec<Body>| call_requires(render, (v,)),
    ensures
        r is Ok <==> generable(gen.cfg, state@, gen.future_len as int),
        r matches Ok(list) ==> {
            &&& list@.len() == 6
            &&& forall|i: int|
                0 <= i < 6 ==> branch_of(
                    #[trigger] list@[i],
                    *gen,
                    *state,
                    Request::ALL@[i],
                    advance,
                    render,
                )
        },
{
    let all = Request::ALL;
    let mut list: Vec<Branch> = Vec::new();
    let mut i: usize = 0;
    while i < 6
        invariant
            i <= 6,
            all == Request::ALL,
            gen.wf(),
            computable(gen.cfg),
            forall|b: &Body, u: Control| call_requires(advance, (b, u)),
            forall|v: &Vec<Body>| call_requires(render, (v,)),
            i > 0 ==> generable(gen.cfg, state@, gen.future_len as int),
            list@.len() == i,
            forall|j: int|
                0 <= j < i ==> branch_of(
                    #[trigger] list@[j],
                    *gen,
                    *state,
                    Request::ALL@[j],
                    advance,
                    render,
                ),
        decreases 6 - i,
    {
        let request = all[i];
        let mut meter = WorkMeter::default();
        let frames = gen.generate(state, request, &mut meter)?;
        let truth = truth_future(
            gen.scene,
            gen.context_len,
            gen.future_len,
            request,
            advance,
            render,
        );
        list.push(Branch { request, generated: frames, truth });
        i = i + 1;
    }
    Ok(list)
}

/// Every number of every generated frame is finite.
pub open spec fn generated_finite(list: Seq<Branch>) -> bool {
    forall|i: int, j: int|
        0 <= i < list.len() && 0 <= j < list[i].generated@.len() ==> finite_list(
            (#[trigger] list[i].generated@[j])@,
        )
}

/// Whether every number of every generated frame is finite.
pub fn finite_branches(list: &Vec<Branch>) -> (r: bool)
    ensures
        r == generated_finite(list@),
{
    let mut i: usize = 0;
    while i < list.len()
        invariant
            i <= list@.len(),
            forall|a: int, b: int|
                0 <= a < i && 0 <= b < list@[a].generated@.len() ==> finite_list(
                    (#[trigger] list@[a].generated@[b])@,
                ),
        decreases list@.len() - i,
    {
        let frames = &list[i].generated;
        let mut j: usize = 0;
        while j < frames.len()
            invariant
                i < list@.len(),
                *frames == list@[i as int].generated,
                j <= frames@.len(),
                forall|b: int|
                    0 <= b < j ==> finite_list((#[trigger] list@[i as int].generated@[b])@),
            decreases frames@.len() - j,
        {
            if !all_finite(frames[j].as_slice()) {
                assert(!finite_list(list@[i as int].generated@[j as int]@));
                return false;
            }
            j = j + 1;
        }
        i = i + 1;
    }
    true
}

/// A branch is judged against the scene under its own request: what the model generates from
/// the state under the request's words stands beside what the scene itself shows under them,
/// after the same context, for as many frames.
pub proof fn law_branches_stand_beside_the_truth<
    A: Fn(&Body, Control) -> Body,
    R: Fn(&Vec<Body>) -> Vec<u32>,
>(b: Branch, gen: Generator, state: State, request: Request, advance: A, render: R)
    requires
        branch_of(b, gen, state, request, advance, render),
    ensures
        b.request == request,
        generated(
            gen.model,
            request.program(),
            state@,
            gen.future_len as int,
            frame_list(b.generated@),
        ),
        true_future(
            canonical_bodies(gen.scene),
            gen.context_len as nat,
            gen.future_len as nat,
            request,
            b.truth@,
            advance,
            render,
        ),
        b.generated@.len() == gen.future_len,
        b.truth@.len() == gen.future_len,
{
    assert(frame_list(b.generated@).len() == b.generated@.len());
}

/// Branches are finite exactly when every number of every generated frame is below infinity.
pub proof fn law_finite_branches(list: Seq<Branch>)
    ensures
        generated_finite(list) <==> forall|i: int, j: int, k: int|
            0 <= i < list.len() && 0 <= j < list[i].generated@.len() && 0 <= k
                < list[i].generated@[j]@.len() ==> (#[trigger] list[i].generated@[j]@[k])
                % 0x8000_0000 < 0x7f80_0000,
{
    assert forall|i: int, j: int|
        0 <= i < list.len() && 0 <= j < list[i].generated@.len() implies (finite_list(
        (#[trigger] list[i].generated@[j])@,
    ) <==> forall|k: int|
        0 <= k < list[i].generated@[j]@.len() ==> (#[trigger] list[i].generated@[j]@[k])
            % 0x8000_0000 < 0x7f80_0000) by {
        crate::model::floats::law_finite_is_below_infinity(list[i].generated@[j]@, 0);
    }
    if forall|i: int, j: int, k: int|
        0 <= i < list.len() && 0 <= j < list[i].generated@.len() && 0 <= k
            < list[i].generated@[j]@.len() ==> (#[trigger] list[i].generated@[j]@[k]) % 0x8000_0000
            < 0x7f80_0000 {
        assert forall|i: int, j: int|
            0 <= i < list.len() && 0 <= j < list[i].generated@.len() implies finite_list(
            (#[trigger] list[i].generated@[j])@,
        ) by {}
    }
}

} // verus!
