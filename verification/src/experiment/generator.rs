//! Earning a state and generating a future from it.
//!
//! The two loops are the same on every recovery path.

use vstd::prelude::*;

use crate::experiment::frames::frame_list;
use crate::model::cell::{can_emit, computable, control_planes, emits,
    lemma_one_stream_emits_a_frame, steps};
use crate::model::config::ModelConfig;
use crate::model::floats::floats_to_bytes;
use crate::model::params::{first_fault, loaded_params, only_parameters, readable_tensors,
    shapes_fit, CheckpointError, ConvLstm};
use crate::model::state::{law_state_round_trips, state_fits, tensor_from, State, StateModel,
    TensorError};
use crate::model::tensors::ComputeError;
use crate::model::work::{Account, StepWork, WorkMeter};
use crate::rollout::{canonical_bodies, controls_of, lemma_steered, rolled, rollout, Body,
    SceneSpec};
use crate::scene::{all_discrete, context_control, context_program, control_at, Control, Request,
    SceneId, Schedule, HW};
use crate::state::compat::Expectation;
use crate::state::error::ErrorModel;
use crate::state::hashes::{blake3_digest, config_hash, hash_hex, weights_hash, weights_preimage};
use crate::state::record::{decoded, law_decode_undoes_encode, RecordModel};
use crate::text::hex;

verus! {

/// A loaded frozen model and the geometry that it is used with.
pub struct Generator {
    /// The frozen model.
    pub model: ConvLstm,
    /// Architecture.
    pub cfg: ModelConfig,
    /// Behaviour-determining hash of the loaded weights.
    pub weights_hash: [u8; 32],
    /// Architecture hash.
    pub config_hash: [u8; 32],
    /// BLAKE3 of the checkpoint's bytes.
    pub checkpoint_file_hash: String,
    /// The checkpoint's size in bytes.
    pub checkpoint_bytes: u64,
    /// Scene that this generator is watching.
    pub scene: SceneId,
    /// Frames that the producer consumes.
    pub context_len: usize,
    /// Frames that a request generates.
    pub future_len: usize,
}

/// The observed history: frames, and the controls held during them.
pub struct Context {
    /// One frame for each step of the context.
    pub frames: Vec<Vec<u32>>,
    /// The control held during the transition out of each frame.
    pub schedule: Schedule,
}

/// Step `i` of a chain of states consumes frame `i` under its control.
pub open spec fn consumes(
    m: ConvLstm,
    frames: Seq<Seq<u32>>,
    controls: Seq<Control>,
    chain: Seq<StateModel>,
    i: int,
) -> bool {
    steps(m, frames[i], control_planes(control_at(controls, i)), chain[i], chain[i + 1])
}

/// A chain of states that consumes a history, frame by frame.
pub open spec fn replays(
    m: ConvLstm,
    frames: Seq<Seq<u32>>,
    controls: Seq<Control>,
    chain: Seq<StateModel>,
) -> bool {
    &&& chain.len() > 0
    &&& forall|i: int|
        0 <= i < chain.len() - 1 ==> #[trigger] consumes(m, frames, controls, chain, i)
}

/// State `i` of a chain emits frame `i`.
pub open spec fn emits_at(
    m: ConvLstm,
    chain: Seq<StateModel>,
    out: Seq<Seq<u32>>,
    i: int,
) -> bool {
    emits(m, chain[i], out[i])
}

/// A chain of states that emits a future and consumes it again, frame by frame.
pub open spec fn branches(
    m: ConvLstm,
    controls: Seq<Control>,
    chain: Seq<StateModel>,
    out: Seq<Seq<u32>>,
) -> bool {
    &&& chain.len() > 0
    &&& forall|i: int|
        0 <= i < out.len() && i < chain.len() ==> #[trigger] emits_at(m, chain, out, i)
    &&& forall|i: int|
        0 <= i < chain.len() - 1 ==> #[trigger] consumes(m, out, controls, chain, i)
}

/// Recurrent steps that generating `t` frames takes.
pub open spec fn advance_steps(t: int) -> int {
    if t > 0 {
        t - 1
    } else {
        0
    }
}

/// `s` is what a whole history makes of the zero state.
pub open spec fn earned(
    m: ConvLstm,
    frames: Seq<Seq<u32>>,
    controls: Seq<Control>,
    len: int,
    s: StateModel,
) -> bool {
    exists|chain: Seq<StateModel>|
        {
            &&& #[trigger] replays(m, frames, controls, chain)
            &&& chain.len() == len + 1
            &&& chain[0] == StateModel::zeros(m.cfg, 1)
            &&& chain.last() == s
        }
}

/// The model consumes whole frames of the scene under their control planes, and its kernel
/// keeps their size.
pub open spec fn consumes_scene(cfg: ModelConfig) -> bool {
    &&& cfg.in_channels == 3
    &&& cfg.kernel % 2 == 1
    &&& cfg.pixels() == HW
}

/// The first `len` frames of a history can be consumed.
pub open spec fn earnable(cfg: ModelConfig, frames: Seq<Seq<u32>>, len: int) -> bool {
    len > 0 ==> {
        &&& consumes_scene(cfg)
        &&& forall|i: int| 0 <= i < len ==> (#[trigger] frames[i]).len() == HW
    }
}

/// `t` frames can be generated from a state: it emits, and what it emits can be consumed
/// where another frame follows, under the one control word that a request gives a step.
pub open spec fn generable(cfg: ModelConfig, start: StateModel, t: int) -> bool {
    &&& t > 0 ==> can_emit(cfg, start)
    &&& t > 1 ==> consumes_scene(cfg) && start.shaped(cfg, 1)
}

/// `out` is the future of `start`: `t` frames, the last of them not consumed.
pub open spec fn generated(
    m: ConvLstm,
    controls: Seq<Control>,
    start: StateModel,
    t: int,
    out: Seq<Seq<u32>>,
) -> bool {
    &&& out.len() == t
    &&& exists|chain: Seq<StateModel>|
        {
            &&& #[trigger] branches(m, controls, chain, out)
            &&& chain.len() == advance_steps(t) + 1
            &&& chain[0] == start
        }
}

impl Generator {
    /// The hashes are those of the model, and the model is one of the architecture.
    pub open spec fn wf(self) -> bool {
        &&& self.model.wf()
        &&& self.model.cfg == self.cfg
        &&& self.weights_hash@ == blake3_digest(weights_preimage(self.model@, 6))
        &&& self.config_hash@ == blake3_digest(self.cfg.canonical())
    }

    /// Load a frozen checkpoint from its bytes and derive its identity hashes. The
    /// bytes that are hashed are the bytes that are loaded.
    pub fn load(
        bytes: &[u8],
        scene: SceneId,
        context_len: usize,
        future_len: usize,
        cfg: ModelConfig,
    ) -> (r: Result<Generator, CheckpointError>)
        requires
            shapes_fit(cfg),
        ensures
            r is Ok <==> (readable_tensors(bytes@) matches Some(m) && first_fault(m, cfg, 0) is None
                && only_parameters(m)),
            match r {
                Ok(g) => {
                    &&& g.wf()
                    &&& g.model@ == loaded_params(readable_tensors(bytes@)->0, cfg)
                    &&& g.cfg == cfg
                    &&& g.checkpoint_file_hash@ == hex(blake3_digest(bytes@))
                    &&& g.checkpoint_bytes == bytes@.len()
                    &&& g.scene == scene
                    &&& g.context_len == context_len
                    &&& g.future_len == future_len
                },
                Err(e) => match readable_tensors(bytes@) {
                    None => e is Unreadable,
                    Some(m) => match first_fault(m, cfg, 0) {
                        Some((i, f)) => e.reports(cfg, i, f),
                        None => e.lists_extras(m),
                    },
                },
            },
    {
        let model = match ConvLstm::load_safetensors_bytes(bytes, cfg) {
            Ok(m) => m,
            Err(e) => return Err(e),
        };
        Ok(
            Generator {
                weights_hash: weights_hash(&model),
                config_hash: config_hash(&cfg),
                checkpoint_file_hash: hash_hex(bytes),
                checkpoint_bytes: bytes.len() as u64,
                model,
                cfg,
                scene,
                context_len,
                future_len,
            },
        )
    }

    /// Render the context: the frames of this generator's scene under the context
    /// program, one for each step.
    pub fn context<A: Fn(&Body, Control) -> Body, R: Fn(&Vec<Body>) -> Vec<u32>>(
        &self,
        advance: A,
        render: R,
    ) -> (r: Context)
        requires
            self.context_len >= 1,
            forall|b: &Body, u: Control| call_requires(advance, (b, u)),
            forall|v: &Vec<Body>| call_requires(render, (v,)),
        ensures
            r.frames@.len() == self.context_len,
            rolled(
                canonical_bodies(self.scene),
                Seq::new((self.context_len - 1) as nat, |t: int| context_control(t)),
                r.frames@,
                advance,
                render,
            ),
            r.schedule@ == Seq::new(512, |t: int| context_control(t)),
            all_discrete(r.schedule@),
    {
        let schedule = context_program();
        let spec = SceneSpec::canonical(self.scene);
        let steps: usize = self.context_len - 1;
        let control = |t: usize| -> (u: Control)
            ensures
                u == control_at(schedule@, t as int),
            { schedule.at(t) };
        let frames = rollout(&spec, steps, control, advance, render);
        proof {
            lemma_steered(spec.bodies@, steps as nat, control, schedule@, frames@, advance, render);
        }
        assert(controls_of(schedule@, steps as nat) =~= Seq::new(
            steps as nat,
            |t: int| context_control(t),
        ));
        Context { frames, schedule }
    }

    /// Consume the context and return the earned state, counting the arithmetic:
    /// one step for each frame. The first step that fails ends it.
    pub fn earn(&self, ctx: &Context, meter: &mut WorkMeter) -> (r: Result<State, ComputeError>)
        requires
            self.wf(),
            computable(self.cfg),
            ctx.frames@.len() >= self.context_len,
            old(meter).cell_steps + self.context_len <= u64::MAX,
        ensures
            final(meter).head_applications == old(meter).head_applications,
            r is Ok <==> earnable(
                self.cfg,
                frame_list(ctx.frames@),
                self.context_len as int,
            ),
            match r {
                Ok(s) => {
                    &&& final(meter).cell_steps == old(meter).cell_steps + self.context_len
                    &&& s@.shaped(self.cfg, 1)
                    &&& earned(
                        self.model,
                        frame_list(ctx.frames@),
                        ctx.schedule@,
                        self.context_len as int,
                        s@,
                    )
                },
                Err(_) => exists|chain: Seq<StateModel>|
                    {
                        &&& #[trigger] replays(
                            self.model,
                            frame_list(ctx.frames@),
                            ctx.schedule@,
                            chain,
                        )
                        &&& chain.len() <= self.context_len
                        &&& chain[0] == StateModel::zeros(self.cfg, 1)
                        &&& !consumes_scene(self.cfg) || ctx.frames@[chain.len() - 1]@.len() != HW
                        &&& final(meter).cell_steps == old(meter).cell_steps + chain.len() - 1
                    },
            },
    {
        proof {
            lemma_states_fit(self.cfg);
        }
        let mut s = State::zeros(&self.cfg, 1);
        let ghost frames = frame_list(ctx.frames@);
        let ghost mut chain: Seq<StateModel> = seq![s@];
        let mut k: usize = 0;
        while k < self.context_len
            invariant
                self.wf(),
                computable(self.cfg),
                k <= self.context_len <= ctx.frames@.len(),
                frames == frame_list(ctx.frames@),
                old(meter).cell_steps + self.context_len <= u64::MAX,
                meter.cell_steps == old(meter).cell_steps + k,
                meter.head_applications == old(meter).head_applications,
                replays(self.model, frames, ctx.schedule@, chain),
                chain.len() == k + 1,
                chain[0] == StateModel::zeros(self.cfg, 1),
                chain.last() == s@,
                s@.shaped(self.cfg, 1),
                k > 0 ==> consumes_scene(self.cfg),
                forall|i: int| 0 <= i < k ==> (#[trigger] frames[i]).len() == HW,
            decreases self.context_len - k,
        {
            assert(frames[k as int] == ctx.frames@[k as int]@);
            let u: Control = ctx.schedule.at(k);
            s = self.model.step(ctx.frames[k].as_slice(), u, &s)?;
            meter.add_cell_step();
            proof {
                let before = chain;
                chain = chain.push(s@);
                assert(frames[k as int] == ctx.frames@[k as int]@);
                assert forall|i: int| 0 <= i < chain.len() - 1 implies #[trigger] consumes(
                    self.model,
                    frames,
                    ctx.schedule@,
                    chain,
                    i,
                ) by {
                    if i < before.len() - 1 {
                        assert(consumes(self.model, frames, ctx.schedule@, before, i));
                    }
                }
            }
            k = k + 1;
        }
        Ok(s)
    }

    /// Generate one branch future from a state, counting the arithmetic.
    ///
    /// The loop is `emit, then advance`: the state emits the first frame directly,
    /// and the last frame needs no successor, so `t` frames cost `t` emissions and
    /// `t - 1` recurrent steps. The first call that fails ends it.
    pub fn generate(&self, state: &State, request: Request, meter: &mut WorkMeter) -> (r: Result<
        Vec<Vec<u32>>,
        ComputeError,
    >)
        requires
            self.wf(),
            computable(self.cfg),
            old(meter).cell_steps + self.future_len <= u64::MAX,
            old(meter).head_applications + self.future_len <= u64::MAX,
        ensures
            r is Ok <==> generable(self.cfg, state@, self.future_len as int),
            match r {
                Ok(out) => {
                    &&& generated(
                        self.model,
                        request.program(),
                        state@,
                        self.future_len as int,
                        frame_list(out@),
                    )
                    &&& final(meter).head_applications == old(meter).head_applications
                        + self.future_len
                    &&& final(meter).cell_steps == old(meter).cell_steps + advance_steps(
                        self.future_len as int,
                    )
                },
                Err(_) => exists|chain: Seq<StateModel>, out: Seq<Seq<u32>>|
                    {
                        &&& #[trigger] branches(self.model, request.program(), chain, out)
                        &&& chain[0] == state@
                        &&& out.len() <= chain.len() <= out.len() + 1 <= self.future_len
                        &&& final(meter).cell_steps == old(meter).cell_steps + chain.len() - 1
                        &&& final(meter).head_applications == old(meter).head_applications
                            + out.len()
                    },
            },
    {
        let sched = request.schedule();
        let mut s = state.copy();
        let ghost controls = request.program();
        let ghost mut chain: Seq<StateModel> = seq![s@];
        let mut out: Vec<Vec<u32>> = Vec::with_capacity(self.future_len);
        let mut j: usize = 0;
        while j < self.future_len
            invariant
                self.wf(),
                computable(self.cfg),
                j <= self.future_len,
                j > 0 ==> can_emit(self.cfg, state@),
                j > 1 ==> consumes_scene(self.cfg) && state@.shaped(self.cfg, 1),
                0 < j < self.future_len ==> {
                    &&& consumes_scene(self.cfg)
                    &&& state@.shaped(self.cfg, 1)
                    &&& s@.shaped(self.cfg, 1)
                },
                j == 0 ==> s@ == state@,
                out@.len() == j,
                controls == request.program(),
                controls == sched@,
                old(meter).cell_steps + self.future_len <= u64::MAX,
                old(meter).head_applications + self.future_len <= u64::MAX,
                meter.head_applications == old(meter).head_applications + j,
                meter.cell_steps == old(meter).cell_steps + chain.len() - 1,
                chain.len() == if j < self.future_len {
                    j + 1
                } else {
                    advance_steps(j as int) + 1
                },
                chain[0] == state@,
                chain.last() == s@,
                branches(self.model, controls, chain, frame_list(out@)),
            decreases self.future_len - j,
        {
            let ghost frames = frame_list(out@);
            let ghost before = chain;
            let frame = self.model.head(&s)?;
            meter.add_head_application();
            let ghost emitted = frame@;
            out.push(frame);
            proof {
                lemma_emitted(self.model, controls, before, frames, frame_list(out@));
                if s@.shaped(self.cfg, 1) {
                    lemma_one_stream_emits_a_frame(self.model, s@, emitted);
                }
            }
            if j + 1 < self.future_len {
                let u: Control = sched.at(j);
                s = self.model.step(out[j].as_slice(), u, &s)?;
                meter.add_cell_step();
                proof {
                    chain = chain.push(s@);
                    lemma_advanced(self.model, controls, before, chain, frame_list(out@));
                }
            }
            j = j + 1;
        }
        proof {
            assert(branches(self.model, controls, chain, frame_list(out@)));
            assert(generated(
                self.model,
                controls,
                state@,
                self.future_len as int,
                frame_list(out@),
            ));
        }
        Ok(out)
    }

    /// The model's declared per-step arithmetic.
    pub fn step_work(&self) -> (r: StepWork)
        requires
            self.cfg.step_work_fits(),
        ensures
            r.cell_macs == self.cfg.pixels() * self.cfg.cell_inputs() * 4
                * self.cfg.hidden_channels * self.cfg.taps(),
            r.cell_bias_adds == self.cfg.pixels() * 4 * self.cfg.hidden_channels,
            r.cell_mul_adds == 4 * self.cfg.hidden_channels * self.cfg.pixels(),
            r.cell_nonlinearities == 5 * self.cfg.hidden_channels * self.cfg.pixels(),
            r.head_macs == self.cfg.pixels() * 8 * (self.cfg.hidden_channels + 2) * self.cfg.taps()
                + self.cfg.pixels() * 8,
            r.head_bias_adds == 2 * self.cfg.pixels(),
    {
        self.cfg.step_work()
    }

    /// What a request expects of an offered state record.
    pub fn expectation(&self, expect_scene: SceneId) -> (r: Expectation)
        ensures
            r.model_weights_hash == self.weights_hash,
            r.config_hash == self.config_hash,
            r.scene == expect_scene,
            r.context_len == self.context_len as u32,
            r.cfg == self.cfg,
    {
        Expectation {
            model_weights_hash: self.weights_hash,
            config_hash: self.config_hash,
            scene: expect_scene,
            context_len: self.context_len as u32,
            cfg: self.cfg,
        }
    }
}

/// The tensors of a computable architecture's state fit in memory.
proof fn lemma_states_fit(cfg: ModelConfig)
    requires
        computable(cfg),
    ensures
        state_fits(cfg, 1),
{
    let (h, y, x) = (cfg.hidden_channels as int, cfg.height as int, cfg.width as int);
    assert(1 * h * y <= h * (y * x)) by (nonlinear_arith)
        requires
            0 < h,
            0 < y,
            0 < x,
    ;
    assert(1 * h * y * x == h * (y * x)) by (nonlinear_arith);
    assert(1 * 2 * y <= 2 * (y * x)) by (nonlinear_arith)
        requires
            0 < y,
            0 < x,
    ;
    assert(1 * 2 * y * x == 2 * (y * x)) by (nonlinear_arith);
    assert(h <= h * (y * x)) by (nonlinear_arith)
        requires
            0 < h,
            0 < y,
            0 < x,
    ;
    assert(4 * h * (y * x) == 4 * (h * (y * x))) by (nonlinear_arith);
}

/// A chain that emits one more frame from its last state.
proof fn lemma_emitted(
    m: ConvLstm,
    controls: Seq<Control>,
    chain: Seq<StateModel>,
    a: Seq<Seq<u32>>,
    b: Seq<Seq<u32>>,
)
    requires
        branches(m, controls, chain, a),
        chain.len() == a.len() + 1,
        b.len() == a.len() + 1,
        forall|i: int| 0 <= i < a.len() ==> a[i] == b[i],
        emits(m, chain.last(), b.last()),
    ensures
        branches(m, controls, chain, b),
{
    assert forall|i: int| 0 <= i < b.len() && i < chain.len() implies #[trigger] emits_at(
        m,
        chain,
        b,
        i,
    ) by {
        if i < a.len() {
            assert(emits_at(m, chain, a, i));
        }
    }
    assert forall|i: int| 0 <= i < chain.len() - 1 implies #[trigger] consumes(
        m,
        b,
        controls,
        chain,
        i,
    ) by {
        assert(consumes(m, a, controls, chain, i));
    }
}

/// A chain that consumes the last frame that it emitted.
proof fn lemma_advanced(
    m: ConvLstm,
    controls: Seq<Control>,
    a: Seq<StateModel>,
    b: Seq<StateModel>,
    out: Seq<Seq<u32>>,
)
    requires
        branches(m, controls, a, out),
        a.len() == out.len(),
        b.len() == a.len() + 1,
        forall|i: int| 0 <= i < a.len() ==> a[i] == b[i],
        steps(
            m,
            out.last(),
            control_planes(control_at(controls, out.len() - 1)),
            a.last(),
            b.last(),
        ),
    ensures
        branches(m, controls, b, out),
{
    assert forall|i: int| 0 <= i < out.len() && i < b.len() implies #[trigger] emits_at(
        m,
        b,
        out,
        i,
    ) by {
        assert(emits_at(m, a, out, i));
    }
    assert forall|i: int| 0 <= i < b.len() - 1 implies #[trigger] consumes(
        m,
        out,
        controls,
        b,
        i,
    ) by {
        if i < a.len() - 1 {
            assert(consumes(m, out, controls, a, i));
        }
    }
}

// ---------------------------------------------------------------------------
// Laws
// ---------------------------------------------------------------------------

/// The arithmetic gives equal results for equal operands: on one machine, a step of the
/// model and an emission are functions of what goes into them.
pub open spec fn repeatable(m: ConvLstm) -> bool {
    &&& forall|x: Seq<u32>, u: Seq<u32>, s: StateModel, a: StateModel, b: StateModel|
        #[trigger] steps(m, x, u, s, a) && #[trigger] steps(m, x, u, s, b) ==> a == b
    &&& forall|s: StateModel, a: Seq<u32>, b: Seq<u32>| #[trigger]
        emits(m, s, a) && #[trigger] emits(m, s, b) ==> a == b
}

/// Equal histories make equal chains.
proof fn lemma_chains_agree(
    m: ConvLstm,
    frames: Seq<Seq<u32>>,
    controls: Seq<Control>,
    a: Seq<StateModel>,
    b: Seq<StateModel>,
    k: int,
)
    requires
        repeatable(m),
        replays(m, frames, controls, a),
        replays(m, frames, controls, b),
        0 <= k < a.len(),
        a.len() == b.len(),
        a[0] == b[0],
    ensures
        a[k] == b[k],
    decreases k,
{
    if k > 0 {
        lemma_chains_agree(m, frames, controls, a, b, k - 1);
        assert(consumes(m, frames, controls, a, k - 1));
        assert(consumes(m, frames, controls, b, k - 1));
    }
}

/// Replaying the same history gives the same state, whoever replays it.
pub proof fn law_equal_histories_earn_equal_states(
    m: ConvLstm,
    frames: Seq<Seq<u32>>,
    controls: Seq<Control>,
    len: int,
    a: StateModel,
    b: StateModel,
)
    requires
        repeatable(m),
        0 <= len,
        earned(m, frames, controls, len, a),
        earned(m, frames, controls, len, b),
    ensures
        a == b,
{
    let c1 = choose|chain: Seq<StateModel>|
        {
            &&& #[trigger] replays(m, frames, controls, chain)
            &&& chain.len() == len + 1
            &&& chain[0] == StateModel::zeros(m.cfg, 1)
            &&& chain.last() == a
        };
    let c2 = choose|chain: Seq<StateModel>|
        {
            &&& #[trigger] replays(m, frames, controls, chain)
            &&& chain.len() == len + 1
            &&& chain[0] == StateModel::zeros(m.cfg, 1)
            &&& chain.last() == b
        };
    lemma_chains_agree(m, frames, controls, c1, c2, len);
}

/// Chains from equal states agree, and so do the frames that they emit.
proof fn lemma_branches_agree(
    m: ConvLstm,
    controls: Seq<Control>,
    a: Seq<StateModel>,
    b: Seq<StateModel>,
    out1: Seq<Seq<u32>>,
    out2: Seq<Seq<u32>>,
    k: int,
)
    requires
        repeatable(m),
        branches(m, controls, a, out1),
        branches(m, controls, b, out2),
        a.len() == b.len(),
        out1.len() == out2.len(),
        0 <= k < a.len(),
        k < out1.len(),
        a[0] == b[0],
    ensures
        a[k] == b[k],
        out1[k] == out2[k],
    decreases k,
{
    if k > 0 {
        lemma_branches_agree(m, controls, a, b, out1, out2, k - 1);
        assert(consumes(m, out1, controls, a, k - 1));
        assert(consumes(m, out2, controls, b, k - 1));
    }
    assert(emits_at(m, a, out1, k));
    assert(emits_at(m, b, out2, k));
}

/// A future depends on nothing but the state that it starts from and the request:
/// equal states have equal futures, however they were come by.
pub proof fn law_equal_states_have_equal_futures(
    m: ConvLstm,
    request: Request,
    a: StateModel,
    b: StateModel,
    t: int,
    out1: Seq<Seq<u32>>,
    out2: Seq<Seq<u32>>,
)
    requires
        repeatable(m),
        a == b,
        generated(m, request.program(), a, t, out1),
        generated(m, request.program(), b, t, out2),
    ensures
        out1 == out2,
{
    let controls = request.program();
    let c1 = choose|chain: Seq<StateModel>|
        {
            &&& #[trigger] branches(m, controls, chain, out1)
            &&& chain.len() == advance_steps(t) + 1
            &&& chain[0] == a
        };
    let c2 = choose|chain: Seq<StateModel>|
        {
            &&& #[trigger] branches(m, controls, chain, out2)
            &&& chain.len() == advance_steps(t) + 1
            &&& chain[0] == b
        };
    assert forall|k: int| 0 <= k < t implies out1[k] == out2[k] by {
        lemma_branches_agree(m, controls, c1, c2, out1, out2, k);
    }
    assert(out1 =~= out2);
}

/// A request acts from the second frame on: the first frame is emitted by the state alone,
/// so it is the same for every request.
pub proof fn law_first_frame_is_the_same_for_every_request(
    m: ConvLstm,
    one: Request,
    other: Request,
    start: StateModel,
    t: int,
    out1: Seq<Seq<u32>>,
    out2: Seq<Seq<u32>>,
)
    requires
        repeatable(m),
        t >= 1,
        generated(m, one.program(), start, t, out1),
        generated(m, other.program(), start, t, out2),
    ensures
        out1[0] == out2[0],
{
    let c1 = choose|chain: Seq<StateModel>|
        {
            &&& #[trigger] branches(m, one.program(), chain, out1)
            &&& chain.len() == advance_steps(t) + 1
            &&& chain[0] == start
        };
    let c2 = choose|chain: Seq<StateModel>|
        {
            &&& #[trigger] branches(m, other.program(), chain, out2)
            &&& chain.len() == advance_steps(t) + 1
            &&& chain[0] == start
        };
    assert(emits_at(m, c1, out1, 0));
    assert(emits_at(m, c2, out2, 0));
}

/// A restored request generates the bytes that a replaying one generates.
///
/// The producer earns a state from the history and stores its record; a request
/// decodes the stored bytes and rebuilds the state; another request replays the
/// history. Whatever the two generate is equal, frame for frame.
pub proof fn law_restored_future_is_the_replayed_future(
    m: ConvLstm,
    frames: Seq<Seq<u32>>,
    controls: Seq<Control>,
    len: int,
    producer: StateModel,
    record: RecordModel,
    restored: StateModel,
    replayed: StateModel,
    request: Request,
    t: int,
    out_restored: Seq<Seq<u32>>,
    out_replayed: Seq<Seq<u32>>,
)
    requires
        repeatable(m),
        0 <= len,
        earned(m, frames, controls, len, producer),
        producer.shaped(m.cfg, 1),
        record.wf(),
        record.h == floats_to_bytes(producer.h),
        record.c == floats_to_bytes(producer.c),
        record.carry == floats_to_bytes(producer.carry),
        decoded(record.encoded()) matches Ok(d) ==> {
            let h = m.cfg.hidden_channels;
            &&& tensor_from(d.h, m.cfg, 1, h) == Ok::<Seq<u32>, TensorError>(restored.h)
            &&& tensor_from(d.c, m.cfg, 1, h) == Ok::<Seq<u32>, TensorError>(restored.c)
            &&& tensor_from(d.carry, m.cfg, 1, 2) == Ok::<Seq<u32>, TensorError>(restored.carry)
        },
        earned(m, frames, controls, len, replayed),
        generated(m, request.program(), restored, t, out_restored),
        generated(m, request.program(), replayed, t, out_replayed),
    ensures
        decoded(record.encoded()) == Ok::<RecordModel, ErrorModel>(record),
        restored == producer,
        out_restored == out_replayed,
{
    law_decode_undoes_encode(record, Seq::empty());
    law_state_round_trips(producer, m.cfg, 1);
    law_equal_histories_earn_equal_states(m, frames, controls, len, producer, replayed);
    assert(restored == producer);
    law_equal_states_have_equal_futures(
        m,
        request,
        restored,
        replayed,
        t,
        out_restored,
        out_replayed,
    );
}

/// A replaying request executes the context's recurrent steps on top of those
/// that generating takes, and a restored one only the latter; both emit equally
/// often. What is avoided is the context, step for step.
pub proof fn law_restoring_avoids_the_context(context: int, t: int, w: StepWork)
    ensures
        Account::of(context, 0, w).plus(Account::of(advance_steps(t), t, w)) == Account::of(
            context + advance_steps(t),
            t,
            w,
        ),
        Account::of(context + advance_steps(t), t, w).cell_steps - Account::of(
            advance_steps(t),
            t,
            w,
        ).cell_steps == context,
        Account::of(context + advance_steps(t), t, w).macs - Account::of(
            advance_steps(t),
            t,
            w,
        ).macs == context * w.cell_macs,
{
    crate::model::work::law_work_is_additive(context, 0, advance_steps(t), t, w);
    assert(0 * w.head_macs == 0);
}

/// Earning goes frame by frame. No frames leave the zero state, and one frame more is a
/// step of the model on that frame, under the word that the schedule holds at it, from the
/// state that the frames before it earn.
pub proof fn law_earning_goes_frame_by_frame(
    m: ConvLstm,
    frames: Seq<Seq<u32>>,
    controls: Seq<Control>,
    n: int,
    s: StateModel,
)
    requires
        0 <= n,
    ensures
        earned(m, frames, controls, 0, s) <==> s == StateModel::zeros(m.cfg, 1),
        earned(m, frames, controls, n + 1, s) <==> exists|p: StateModel| #[trigger]
            earned(m, frames, controls, n, p) && steps(
                m,
                frames[n],
                control_planes(control_at(controls, n)),
                p,
                s,
            ),
{
    let zero = StateModel::zeros(m.cfg, 1);
    if s == zero {
        let chain = seq![s];
        assert(replays(m, frames, controls, chain));
        assert(chain.len() == 0 + 1 && chain[0] == zero && chain.last() == s);
    }
    if earned(m, frames, controls, n + 1, s) {
        let chain = choose|chain: Seq<StateModel>|
            {
                &&& #[trigger] replays(m, frames, controls, chain)
                &&& chain.len() == n + 1 + 1
                &&& chain[0] == zero
                &&& chain.last() == s
            };
        let before = chain.drop_last();
        assert forall|i: int| 0 <= i < before.len() - 1 implies #[trigger] consumes(
            m,
            frames,
            controls,
            before,
            i,
        ) by {
            assert(consumes(m, frames, controls, chain, i));
        }
        assert(replays(m, frames, controls, before));
        assert(consumes(m, frames, controls, chain, n));
        assert(earned(m, frames, controls, n, before.last()));
    }
    if exists|p: StateModel| #[trigger]
        earned(m, frames, controls, n, p) && steps(
            m,
            frames[n],
            control_planes(control_at(controls, n)),
            p,
            s,
        ) {
        let p = choose|p: StateModel| #[trigger]
            earned(m, frames, controls, n, p) && steps(
                m,
                frames[n],
                control_planes(control_at(controls, n)),
                p,
                s,
            );
        let before = choose|chain: Seq<StateModel>|
            {
                &&& #[trigger] replays(m, frames, controls, chain)
                &&& chain.len() == n + 1
                &&& chain[0] == zero
                &&& chain.last() == p
            };
        let chain = before.push(s);
        assert forall|i: int| 0 <= i < chain.len() - 1 implies #[trigger] consumes(
            m,
            frames,
            controls,
            chain,
            i,
        ) by {
            if i < n {
                assert(consumes(m, frames, controls, before, i));
            }
        }
        assert(replays(m, frames, controls, chain));
    }
}

/// States that a future goes through, one for each of its frames: every frame is what its
/// state emits, and the next state is a step of the model on that very frame, under the
/// word that the schedule holds there.
pub open spec fn emits_and_advances(
    m: ConvLstm,
    controls: Seq<Control>,
    chain: Seq<StateModel>,
    out: Seq<Seq<u32>>,
) -> bool {
    &&& chain.len() == out.len()
    &&& forall|i: int| 0 <= i < out.len() ==> emits(m, #[trigger] chain[i], out[i])
    &&& forall|i: int|
        0 <= i < out.len() - 1 ==> steps(
            m,
            #[trigger] out[i],
            control_planes(control_at(controls, i)),
            chain[i],
            chain[i + 1],
        )
}

/// Generating emits first and advances after: a future of `t` frames goes through `t`
/// states, of which the first is the one that it starts from.
pub proof fn law_generating_emits_then_advances(
    m: ConvLstm,
    controls: Seq<Control>,
    start: StateModel,
    t: int,
    out: Seq<Seq<u32>>,
)
    requires
        0 < t,
    ensures
        generated(m, controls, start, t, out) <==> out.len() == t && exists|
            chain: Seq<StateModel>,
        | #[trigger]
            emits_and_advances(m, controls, chain, out) && chain[0] == start,
        generated(m, controls, start, 0, out) <==> out.len() == 0,
{
    if generated(m, controls, start, t, out) {
        let chain = choose|chain: Seq<StateModel>|
            {
                &&& #[trigger] branches(m, controls, chain, out)
                &&& chain.len() == advance_steps(t) + 1
                &&& chain[0] == start
            };
        assert forall|i: int| 0 <= i < out.len() implies emits(m, #[trigger] chain[i], out[i]) by {
            assert(emits_at(m, chain, out, i));
        }
        assert forall|i: int| 0 <= i < out.len() - 1 implies steps(
            m,
            #[trigger] out[i],
            control_planes(control_at(controls, i)),
            chain[i],
            chain[i + 1],
        ) by {
            assert(consumes(m, out, controls, chain, i));
        }
        assert(emits_and_advances(m, controls, chain, out));
    }
    if out.len() == t && exists|chain: Seq<StateModel>| #[trigger]
        emits_and_advances(m, controls, chain, out) && chain[0] == start {
        let chain = choose|chain: Seq<StateModel>| #[trigger]
            emits_and_advances(m, controls, chain, out) && chain[0] == start;
        assert forall|i: int| 0 <= i < out.len() && i < chain.len() implies #[trigger] emits_at(
            m,
            chain,
            out,
            i,
        ) by {
            assert(emits(m, chain[i], out[i]));
        }
        assert forall|i: int| 0 <= i < chain.len() - 1 implies #[trigger] consumes(
            m,
            out,
            controls,
            chain,
            i,
        ) by {
            assert(steps(
                m,
                out[i],
                control_planes(control_at(controls, i)),
                chain[i],
                chain[i + 1],
            ));
        }
        assert(branches(m, controls, chain, out));
    }
    if out.len() == 0 {
        let chain = seq![start];
        assert(branches(m, controls, chain, out));
        assert(chain.len() == advance_steps(0) + 1 && chain[0] == start);
    }
}

/// Generating `t` frames takes a step of the model less than it emits frames.
pub proof fn law_last_frame_needs_no_step(t: int)
    requires
        0 <= t,
    ensures
        t >= 1 ==> advance_steps(t) == t - 1,
        advance_steps(0) == 0,
{
}

/// When earning and generating succeed: a model with three input channels and an odd kernel,
/// whose field is the scene's, consumes any number of whole frames and generates any number
/// from a state of its own shape.
pub proof fn law_scene_sized_models_succeed(
    cfg: ModelConfig,
    frames: Seq<Seq<u32>>,
    len: int,
    start: StateModel,
    t: int,
)
    requires
        cfg.in_channels == 3,
        cfg.kernel % 2 == 1,
        cfg.height * cfg.width == 1024,
        forall|i: int| 0 <= i < len ==> (#[trigger] frames[i]).len() == 1024,
        start.shaped(cfg, 1),
    ensures
        earnable(cfg, frames, len),
        generable(cfg, start, t),
{
}

/// When they do not: an even kernel or other input channels consume nothing, nor does a model
/// whose field is not the scene's, and a frame that is cut short ends the earning.
pub proof fn law_other_models_fail(
    cfg: ModelConfig,
    frames: Seq<Seq<u32>>,
    len: int,
    start: StateModel,
    t: int,
    i: int,
)
    ensures
        len > 0 && (cfg.in_channels != 3 || cfg.kernel % 2 == 0 || cfg.height * cfg.width != 1024)
            ==> !earnable(cfg, frames, len),
        t > 1 && (cfg.in_channels != 3 || cfg.kernel % 2 == 0 || cfg.height * cfg.width != 1024)
            ==> !generable(cfg, start, t),
        t > 0 && cfg.kernel % 2 == 0 ==> !generable(cfg, start, t),
        0 <= i < len && frames[i].len() != 1024 ==> !earnable(cfg, frames, len),
{
}

} // verus!
