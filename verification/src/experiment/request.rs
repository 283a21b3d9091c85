//! A request child: repetitions of one recovery and one generation.
//!
//! The reading and the model arithmetic happen elsewhere; here is what a request
//! asks for, what it makes of what it is given, and the account that it gives.

use vstd::prelude::*;

use crate::bytes::bytes_equal;
use crate::experiment::args::{opt_text, Mode, RequestArgs};
use crate::experiment::frames::{encode_frames, frame_list, frame_payload, frames_payload,
    full_frames};
use crate::experiment::generator::{earned, generated, law_equal_histories_earn_equal_states,
    law_equal_states_have_equal_futures, repeatable, Generator};
use crate::experiment::producer::earned_record;
use crate::experiment::recover::{is_reused, law_unfit_records_are_refused, RestoreModel,
    RestoreReport};
use crate::experiment::stats::{is_median, is_nan, no_nans};
use crate::experiment::timing::{PhaseTiming, Samples};
use crate::model::floats::{finite_list, floats_to_bytes};
use crate::model::state::{law_accepted_bytes_round_trip, law_state_round_trips, state_fits,
    tensor_from, State, StateModel, TensorError};
use crate::model::work::{Account, StepWork, WorkMeter, WorkTotals};
use crate::scene::{Control, Request, SceneId};
use crate::state::compat::{accepts, all_checks, first_failing,
    law_reuse_is_permitted_iff_the_record_fits, lemma_first_failing, Expectation};
use crate::state::error::ErrorModel;
use crate::state::hashes::{blake3_digest, hash_hex, hex32, state_hash};
use crate::state::persist::{blob_id, parse_id};
use crate::state::record::{decoded, raw_carry_bytes, raw_fits, raw_record, raw_tensor_bytes,
    RecordModel, StateRecord};
use crate::text::{hex, quoted};

verus! {

/// What a request has to read before it can recover a state.
#[derive(Debug, PartialEq, Eq)]
pub enum Offer {
    /// Nothing: the request replays.
    Nothing,
    /// The raw payload in this file.
    RawFile(String),
    /// The blob with this identifier.
    Blob([u8; 32]),
}

/// How a repetition comes by its starting state.
#[derive(Debug, PartialEq, Eq)]
pub enum Recovery {
    /// By replaying the context.
    Replay,
    /// From the offered record.
    Restored(State),
}

/// The phases that a request times.
#[derive(Debug, Clone, Copy, PartialEq, Eq, Structural)]
pub enum RequestPhase {
    /// Rendering the context.
    Scene,
    /// Replaying the context.
    Replay,
    /// Obtaining the state from persisted bytes.
    Restore,
    /// Generating the future.
    Generate,
    /// The whole repetition.
    Total,
}

/// The course of a request child.
#[derive(Debug)]
pub struct RequestRun {
    /// What was asked for.
    pub args: RequestArgs,
    /// What an offered record has to satisfy.
    pub expectation: Expectation,
    /// Repetitions that are finished.
    pub rep: usize,
    /// How the state was obtained.
    pub restore: RestoreReport,
    /// Hash of the offered state.
    pub offered_state_hash: Option<String>,
    /// Hash of the state that was generated from.
    pub start_state_hash: Option<String>,
    /// Whether the rebuilt state has the offered bytes.
    pub restore_exact: Option<bool>,
    /// Whether the starting state was finite.
    pub start_finite: bool,
    /// Recurrent steps and emissions of the last replay.
    pub m_ctx: WorkMeter,
    /// Recurrent steps and emissions of the last generation.
    pub m_gen: WorkMeter,
    /// The frames of the last repetition.
    pub frames: Vec<Vec<u32>>,
    /// Times of rendering the context.
    pub scene: Samples,
    /// Times of replaying it.
    pub replay: Samples,
    /// Times of restoring.
    pub restored: Samples,
    /// Times of generating.
    pub generate: Samples,
    /// Times of whole repetitions.
    pub total: Samples,
}

/// The record that a request makes of the bytes that it was given, or its error:
/// a raw payload takes its identity from the request, a blob carries its own.
pub open spec fn offered_record(
    mode: Mode,
    bytes: Seq<u8>,
    exp: Expectation,
) -> Result<RecordModel, Seq<char>> {
    if mode == Mode::Raw {
        if bytes.len() == 2 * raw_tensor_bytes(exp.cfg) + raw_carry_bytes(exp.cfg) {
            Ok(
                raw_record(
                    bytes,
                    exp.cfg,
                    exp.model_weights_hash@,
                    exp.config_hash@,
                    exp.scene,
                    exp.context_len,
                ),
            )
        } else {
            Err(
                "raw payload: "@ + (ErrorModel::PayloadSizeMismatch {
                    h: bytes.len() as usize,
                    c: bytes.len() as usize,
                    carry: bytes.len() as usize,
                    expected: raw_tensor_bytes(exp.cfg) as usize,
                    expected_carry: raw_carry_bytes(exp.cfg) as usize,
                }).text(),
            )
        }
    } else {
        match decoded(bytes) {
            Ok(m) => Ok(m),
            Err(e) => Err("decode: "@ + e.text()),
        }
    }
}

/// The state that a record rebuilds, or the first tensor's error.
pub open spec fn rebuilt(
    rec: RecordModel,
    exp: Expectation,
) -> Result<StateModel, TensorError> {
    match (
        tensor_from(rec.h, exp.cfg, 1, exp.cfg.hidden_channels),
        tensor_from(rec.c, exp.cfg, 1, exp.cfg.hidden_channels),
        tensor_from(rec.carry, exp.cfg, 1, 2),
    ) {
        (Err(e), _, _) => Err(e),
        (Ok(_), Err(e), _) => Err(e),
        (Ok(_), Ok(_), Err(e)) => Err(e),
        (Ok(h), Ok(c), Ok(carry)) => Ok(StateModel { h, c, carry }),
    }
}

/// The hash of a state's bytes, as text.
pub open spec fn state_hash_text(s: StateModel) -> Seq<char> {
    hex(blake3_digest(floats_to_bytes(s.h) + floats_to_bytes(s.c) + floats_to_bytes(s.carry)))
}

impl RequestRun {
    /// A request that has not begun.
    pub fn new(args: RequestArgs, expectation: Expectation) -> (r: RequestRun)
        ensures
            r.args == args,
            r.expectation == expectation,
            r.rep == 0,
            r.restore@ == RestoreModel::initial(),
            r.offered_state_hash is None,
            r.start_state_hash is None,
            r.restore_exact is None,
            r.start_finite,
            r.m_ctx == (WorkMeter { cell_steps: 0, head_applications: 0 }),
            r.m_gen == (WorkMeter { cell_steps: 0, head_applications: 0 }),
            r.frames@.len() == 0,
            r.no_samples(),
    {
        RequestRun {
            args,
            expectation,
            rep: 0,
            restore: RestoreReport::default(),
            offered_state_hash: None,
            start_state_hash: None,
            restore_exact: None,
            start_finite: true,
            m_ctx: WorkMeter::default(),
            m_gen: WorkMeter::default(),
            frames: Vec::new(),
            scene: Samples::new(),
            replay: Samples::new(),
            restored: Samples::new(),
            generate: Samples::new(),
            total: Samples::new(),
        }
    }

    /// No phase was timed yet.
    pub open spec fn no_samples(self) -> bool {
        &&& self.scene.warmup is None && self.scene.measured@.len() == 0
        &&& self.replay.warmup is None && self.replay.measured@.len() == 0
        &&& self.restored.warmup is None && self.restored.measured@.len() == 0
        &&& self.generate.warmup is None && self.generate.measured@.len() == 0
        &&& self.total.warmup is None && self.total.measured@.len() == 0
    }

    /// Repetitions in all: the measured ones, and the discarded one before them.
    pub open spec fn repetitions(self) -> int {
        self.args.reps + if self.args.warmup {
            1int
        } else {
            0
        }
    }

    /// Whether a repetition is still to be run.
    pub fn more(&self) -> (r: bool)
        ensures
            r == (self.rep < self.repetitions()),
    {
        if self.args.warmup {
            self.rep <= self.args.reps
        } else {
            self.rep < self.args.reps
        }
    }

    /// Whether the current repetition is the discarded one.
    pub open spec fn warming(self) -> bool {
        self.args.warmup && self.rep == 0
    }

    /// Begin a repetition: fresh meters, so that what is reported is one request's
    /// work, and what has to be read for it.
    pub fn begin(&mut self) -> (r: Result<Offer, String>)
        ensures
            *final(self) == (RequestRun {
                m_ctx: WorkMeter { cell_steps: 0, head_applications: 0 },
                m_gen: WorkMeter { cell_steps: 0, head_applications: 0 },
                ..*old(self)
            }),
            match old(self).args.mode {
                Mode::Baseline => r == Ok::<Offer, String>(Offer::Nothing),
                Mode::Raw => match opt_text(old(self).args.raw_file) {
                    Some(p) => r matches Ok(Offer::RawFile(f)) && f@ == p,
                    None => r matches Err(e) && e@ == "--raw-file is required for --mode raw"@,
                },
                Mode::Vole => match opt_text(old(self).args.vole_blob) {
                    Some(b) => match blob_id(b) {
                        Some(id) => r matches Ok(Offer::Blob(got)) && got@ == id,
                        None => r matches Err(e) && e@ == "bad blob id "@ + quoted(b),
                    },
                    None => r matches Err(e) && e@ == "--vole-blob is required for --mode vole"@,
                },
            },
    {
        self.m_ctx = WorkMeter::default();
        self.m_gen = WorkMeter::default();
        match self.args.mode {
            Mode::Baseline => Ok(Offer::Nothing),
            Mode::Raw => match &self.args.raw_file {
                Some(p) => Ok(Offer::RawFile(p.clone())),
                None => Err("--raw-file is required for --mode raw".to_owned()),
            },
            Mode::Vole => match &self.args.vole_blob {
                Some(b) => match parse_id(b.as_str()) {
                    Ok(id) => Ok(Offer::Blob(id)),
                    Err(e) => Err(e.message()),
                },
                None => Err("--vole-blob is required for --mode vole".to_owned()),
            },
        }
    }

    /// The record in the bytes that were read.
    pub fn decode_offer(&self, bytes: &[u8]) -> (r: Result<StateRecord, String>)
        requires
            raw_fits(self.expectation.cfg),
        ensures
            match r {
                Ok(rec) => offered_record(self.args.mode, bytes@, self.expectation) == Ok::<
                    RecordModel,
                    Seq<char>,
                >(rec@),
                Err(e) => offered_record(self.args.mode, bytes@, self.expectation) == Err::<
                    RecordModel,
                    Seq<char>,
                >(e@),
            },
    {
        let exp = &self.expectation;
        if self.args.mode == Mode::Raw {
            match StateRecord::from_raw_payload(
                bytes,
                &exp.cfg,
                exp.model_weights_hash,
                exp.config_hash,
                exp.scene,
                exp.context_len,
            ) {
                Ok(r) => Ok(r),
                Err(e) => {
                    let mut m: String = "raw payload: ".to_owned();
                    m.append(e.message().as_str());
                    Err(m)
                },
            }
        } else {
            match StateRecord::decode(bytes) {
                Ok(r) => Ok(r),
                Err(e) => {
                    let mut m: String = "decode: ".to_owned();
                    m.append(e.message().as_str());
                    Err(m)
                },
            }
        }
    }

    /// Take nothing for an offer: the state has to be replayed.
    pub fn without_offer(&mut self)
        ensures
            final(self).restore@ == old(self).restore@.offered(
                old(self).args.mode,
                None,
                old(self).expectation,
            ),
            *final(self) == (RequestRun { restore: final(self).restore, ..*old(self) }),
    {
        let _reuse: bool = self.restore.offer(self.args.mode, None, &self.expectation);
    }

    /// Take a record for an offer: reuse it if it passes every check, else replay.
    /// A reused state has exactly the bytes of the record.
    pub fn with_offer(&mut self, rec: &StateRecord) -> (r: Result<Recovery, String>)
        requires
            state_fits(old(self).expectation.cfg, 1),
        ensures
            final(self).restore@ == old(self).restore@.offered(
                old(self).args.mode,
                Some(rec@),
                old(self).expectation,
            ),
            opt_text(final(self).offered_state_hash) == Some(hex(rec@.state_hash)),
            *final(self) == (RequestRun {
                restore: final(self).restore,
                offered_state_hash: final(self).offered_state_hash,
                restore_exact: final(self).restore_exact,
                ..*old(self)
            }),
            if !accepts(rec@, old(self).expectation) {
                r == Ok::<Recovery, String>(Recovery::Replay) && final(self).restore_exact == old(
                    self,
                ).restore_exact
            } else {
                match rebuilt(rec@, old(self).expectation) {
                    Ok(s) => {
                        &&& r matches Ok(Recovery::Restored(st)) && st@ == s
                        &&& final(self).restore_exact == Some(true)
                        &&& floats_to_bytes(s.h) == rec@.h
                        &&& floats_to_bytes(s.c) == rec@.c
                        &&& floats_to_bytes(s.carry) == rec@.carry
                    },
                    Err(e) => {
                        &&& r matches Err(m) && m@ == "rebuild state: "@ + e.text()
                        &&& final(self).restore_exact == old(self).restore_exact
                    },
                }
            },
    {
        let reuse: bool = self.restore.offer(self.args.mode, Some(rec), &self.expectation);
        self.offered_state_hash = Some(hex32(&rec.state_hash));
        if !reuse {
            return Ok(Recovery::Replay);
        }
        let cfg = self.expectation.cfg;
        match State::from_bytes(
            &cfg,
            1,
            rec.h.as_slice(),
            rec.c.as_slice(),
            rec.carry.as_slice(),
        ) {
            Err(e) => {
                let mut m: String = "rebuild state: ".to_owned();
                m.append(e.message().as_str());
                Err(m)
            },
            Ok(s) => {
                proof {
                    law_accepted_bytes_round_trip(rec@.h, cfg, 1, cfg.hidden_channels);
                    law_accepted_bytes_round_trip(rec@.c, cfg, 1, cfg.hidden_channels);
                    law_accepted_bytes_round_trip(rec@.carry, cfg, 1, 2);
                }
                let h = s.h_bytes();
                let c = s.c_bytes();
                let carry = s.carry_bytes();
                self.restore_exact = Some(
                    bytes_equal(h.as_slice(), rec.h.as_slice()) && bytes_equal(
                        c.as_slice(),
                        rec.c.as_slice(),
                    ) && bytes_equal(carry.as_slice(), rec.carry.as_slice()),
                );
                Ok(Recovery::Restored(s))
            },
        }
    }

    /// The error of a replay that failed, by what it was a replay for.
    pub fn replay_error(&self, e: &str) -> (r: String)
        ensures
            r@ == (if self.restore@.offered {
                "fallback replay: "@
            } else {
                "replay context: "@
            }) + e@,
    {
        let mut m: String = if self.restore.offered {
            "fallback replay: ".to_owned()
        } else {
            "replay context: ".to_owned()
        };
        m.append(e);
        m
    }

    /// Note the state that is generated from.
    pub fn start(&mut self, s: &State)
        ensures
            final(self).start_finite == (finite_list(s@.h) && finite_list(s@.c) && finite_list(
                s@.carry,
            )),
            opt_text(final(self).start_state_hash) == Some(state_hash_text(s@)),
            *final(self) == (RequestRun {
                start_finite: final(self).start_finite,
                start_state_hash: final(self).start_state_hash,
                ..*old(self)
            }),
    {
        self.start_finite = s.is_finite();
        let h = s.h_bytes();
        let c = s.c_bytes();
        let carry = s.carry_bytes();
        self.start_state_hash = Some(
            hex32(&state_hash(h.as_slice(), c.as_slice(), carry.as_slice())),
        );
    }

    /// Record the time of one phase of the current repetition: apart, if it is the
    /// discarded one.
    pub fn sample(&mut self, phase: RequestPhase, ms: u64)
        ensures
            ({
                let (before, after) = match phase {
                    RequestPhase::Scene => (old(self).scene, final(self).scene),
                    RequestPhase::Replay => (old(self).replay, final(self).replay),
                    RequestPhase::Restore => (old(self).restored, final(self).restored),
                    RequestPhase::Generate => (old(self).generate, final(self).generate),
                    RequestPhase::Total => (old(self).total, final(self).total),
                };
                if old(self).warming() {
                    after.warmup == Some(ms) && after.measured@ == before.measured@
                } else {
                    after.warmup == before.warmup && after.measured@ == before.measured@.push(ms)
                }
            }),
            *final(self) == match phase {
                RequestPhase::Scene => RequestRun { scene: final(self).scene, ..*old(self) },
                RequestPhase::Replay => RequestRun { replay: final(self).replay, ..*old(self) },
                RequestPhase::Restore => RequestRun {
                    restored: final(self).restored,
                    ..*old(self)
                },
                RequestPhase::Generate => RequestRun {
                    generate: final(self).generate,
                    ..*old(self)
                },
                RequestPhase::Total => RequestRun { total: final(self).total, ..*old(self) },
            },
    {
        let warming: bool = self.args.warmup && self.rep == 0;
        match phase {
            RequestPhase::Scene => self.scene.push_sample(warming, ms),
            RequestPhase::Replay => self.replay.push_sample(warming, ms),
            RequestPhase::Restore => self.restored.push_sample(warming, ms),
            RequestPhase::Generate => self.generate.push_sample(warming, ms),
            RequestPhase::Total => self.total.push_sample(warming, ms),
        }
    }

    /// End a repetition with the frames that it generated.
    pub fn finish(&mut self, frames: Vec<Vec<u32>>)
        requires
            old(self).rep < old(self).repetitions() <= usize::MAX,
        ensures
            *final(self) == (RequestRun {
                frames,
                rep: (old(self).rep + 1) as usize,
                ..*old(self)
            }),
            final(self).rep == old(self).rep + 1,
    {
        self.frames = frames;
        self.rep = self.rep + 1;
    }
}

// ---------------------------------------------------------------------------
// The report
// ---------------------------------------------------------------------------

/// Phase names that a request reports.
pub const REQUEST_PHASES: [&'static str; 6] = [
    "model_load",
    "scene_generate",
    "model_only_replay",
    "state_restore",
    "model_only_generate",
    "request_total",
];

/// What each of those phases means.
pub const REQUEST_DEFINITIONS: [&'static str; 6] = [
    "read the frozen safetensors checkpoint and derive its identity hashes",
    "deterministically render the context frames (no model arithmetic)",
    "consume the context through the ConvLSTM: model arithmetic only",
    "obtain the starting state from persisted bytes (open, get, decode, rebuild)",
    "emit the branch future: model arithmetic only",
    "one whole request inside this process: state recovery plus generation",
];

/// A request child's account of one recovery and generation.
#[derive(Debug)]
pub struct RequestReport {
    /// Process id of this request.
    pub pid: u32,
    /// `baseline`, `raw` or `vole`.
    pub mode: String,
    /// Scene that the request belongs to.
    pub scene: String,
    /// Scene that the request expected the offered state to belong to.
    pub expect_scene: String,
    /// Request name.
    pub request: String,
    /// Request label.
    pub request_label: String,
    /// Request control codes, one per step.
    pub request_controls: Vec<u8>,
    /// Frames that the request believes precede the future.
    pub context_len: usize,
    /// Frames generated.
    pub future_len: usize,
    /// Measured repetitions.
    pub reps: usize,
    /// Whether a discarded repetition ran.
    pub warmup: bool,
    /// Weights hash in use.
    pub model_weights_hash: String,
    /// Checkpoint hash.
    pub checkpoint_file_hash: String,
    /// How the starting state was obtained.
    pub restore: RestoreReport,
    /// Hash of the state that this request generated from.
    pub start_state_hash: Option<String>,
    /// Hash of the state that was offered.
    pub offered_state_hash: Option<String>,
    /// Whether the recovered state has the offered bytes. `None` when no bytes were
    /// accepted.
    pub restore_exact: Option<bool>,
    /// Whether the starting state was finite.
    pub start_state_finite: bool,
    /// BLAKE3 of the generated frame payload.
    pub output_hash: String,
    /// Frames generated.
    pub output_frames: usize,
    /// Payload bytes of the generated frames.
    pub output_bytes: usize,
    /// Where the frames were written.
    pub emitted: Option<String>,
    /// Phase timings, in execution order.
    pub timings: Vec<PhaseTiming>,
    /// Arithmetic executed while replaying.
    pub work_context: WorkTotals,
    /// Arithmetic executed while generating.
    pub work_generate: WorkTotals,
    /// Both together.
    pub work_total: WorkTotals,
    /// Failure, if the child failed.
    pub error: Option<String>,
}

/// What the meter `m` stands for under `w`.
pub open spec fn metered(m: WorkMeter, w: StepWork) -> Account {
    Account::of(m.cell_steps as int, m.head_applications as int, w)
}

/// Entry `i` of a timing table holds these samples.
pub open spec fn timed<F: Fn(u64, u64) -> u64>(
    t: PhaseTiming,
    name: Seq<char>,
    definition: Seq<char>,
    warmup: Option<u64>,
    samples: Seq<u64>,
    mean: F,
) -> bool {
    &&& t.phase@ == name
    &&& t.definition@ == definition
    &&& t.warmup_ms == warmup
    &&& t.samples_ms@ == samples
    &&& is_median(t.median_ms, samples, mean)
}

impl RequestRun {
    /// Every recorded time is a number.
    pub open spec fn times_are_numbers(self) -> bool {
        &&& no_nans(self.scene.measured@)
        &&& no_nans(self.replay.measured@)
        &&& no_nans(self.restored.measured@)
        &&& no_nans(self.generate.measured@)
        &&& no_nans(self.total.measured@)
    }

    /// The timing table of a request.
    pub open spec fn has_timings<F: Fn(u64, u64) -> u64>(
        self,
        t: Seq<PhaseTiming>,
        load_ms: u64,
        mean: F,
    ) -> bool {
        let n = REQUEST_PHASES@;
        let d = REQUEST_DEFINITIONS@;
        &&& t.len() == 6
        &&& timed(t[0], n[0]@, d[0]@, None, seq![load_ms], mean)
        &&& timed(t[1], n[1]@, d[1]@, self.scene.warmup, self.scene.measured@, mean)
        &&& timed(t[2], n[2]@, d[2]@, self.replay.warmup, self.replay.measured@, mean)
        &&& timed(t[3], n[3]@, d[3]@, self.restored.warmup, self.restored.measured@, mean)
        &&& timed(t[4], n[4]@, d[4]@, self.generate.warmup, self.generate.measured@, mean)
        &&& timed(t[5], n[5]@, d[5]@, self.total.warmup, self.total.measured@, mean)
    }

    /// The frame file of the last repetition.
    pub fn frame_file(&self) -> (out: Vec<u8>)
        requires
            full_frames(frame_list(self.frames@)),
        ensures
            out@ == crate::experiment::frames::frame_file(frame_list(self.frames@)),
    {
        encode_frames(self.frames.as_slice())
    }

    /// The account of a request that has run all its repetitions.
    pub fn report<F: Fn(u64, u64) -> u64 + Copy>(
        self,
        gen: &Generator,
        work: &StepWork,
        pid: u32,
        emitted: Option<String>,
        load_ms: u64,
        mean: F,
    ) -> (r: RequestReport)
        requires
            full_frames(frame_list(self.frames@)),
            metered(self.m_ctx, *work).fits(),
            metered(self.m_gen, *work).fits(),
            metered(self.m_ctx, *work).plus(metered(self.m_gen, *work)).fits(),
            self.times_are_numbers(),
            !is_nan(load_ms),
            forall|a: u64, b: u64| call_requires(mean, (a, b)),
        ensures
            r.pid == pid,
            r.mode@ == self.args.mode.text(),
            r.scene@ == self.args.scene.text(),
            r.expect_scene@ == self.args.expect_scene.text(),
            r.request@ == self.args.request.text(),
            r.request_label@ == self.args.request.label_text(),
            r.request_controls@ == self.args.request.program().map_values(
                |u: crate::scene::Control| u.spec_code() as u8,
            ),
            r.context_len == self.args.context_len,
            r.future_len == self.args.future_len,
            r.reps == self.args.reps,
            r.warmup == self.args.warmup,
            r.model_weights_hash@ == hex(gen.weights_hash@),
            r.checkpoint_file_hash@ == gen.checkpoint_file_hash@,
            r.restore == self.restore,
            r.start_state_hash == self.start_state_hash,
            r.offered_state_hash == self.offered_state_hash,
            r.restore_exact == self.restore_exact,
            r.start_state_finite == self.start_finite,
            r.output_hash@ == hex(blake3_digest(frames_payload(frame_list(self.frames@)))),
            r.output_frames == self.frames@.len(),
            r.output_bytes == frames_payload(frame_list(self.frames@)).len(),
            r.emitted == emitted,
            self.has_timings(r.timings@, load_ms, mean),
            r.work_context@ == metered(self.m_ctx, *work),
            r.work_generate@ == metered(self.m_gen, *work),
            r.work_total@ == metered(self.m_ctx, *work).plus(metered(self.m_gen, *work)),
            r.error is None,
    {
        let file = encode_frames(self.frames.as_slice());
        let payload = frame_payload(file.as_slice());
        proof {
            crate::experiment::frames::lemma_payload_of_file(frame_list(self.frames@));
        }
        let output_hash = hash_hex(payload);
        let output_bytes: usize = payload.len();
        let n = REQUEST_PHASES;
        let d = REQUEST_DEFINITIONS;
        let mut load: Vec<u64> = Vec::new();
        load.push(load_ms);
        assert(load@ =~= seq![load_ms]);
        let mut timings: Vec<PhaseTiming> = Vec::new();
        timings.push(PhaseTiming::new(n[0], d[0], None, load, mean));
        timings.push(
            PhaseTiming::new(n[1], d[1], self.scene.warmup, self.scene.measured, mean),
        );
        timings.push(
            PhaseTiming::new(n[2], d[2], self.replay.warmup, self.replay.measured, mean),
        );
        timings.push(
            PhaseTiming::new(n[3], d[3], self.restored.warmup, self.restored.measured, mean),
        );
        timings.push(
            PhaseTiming::new(n[4], d[4], self.generate.warmup, self.generate.measured, mean),
        );
        timings.push(
            PhaseTiming::new(n[5], d[5], self.total.warmup, self.total.measured, mean),
        );
        let work_context = self.m_ctx.totals(work);
        let work_generate = self.m_gen.totals(work);
        RequestReport {
            pid,
            mode: self.args.mode.as_str().to_owned(),
            scene: self.args.scene.as_str().to_owned(),
            expect_scene: self.args.expect_scene.as_str().to_owned(),
            request: self.args.request.name().to_owned(),
            request_label: self.args.request.label().to_owned(),
            request_controls: self.args.request.schedule().codes(),
            context_len: self.args.context_len,
            future_len: self.args.future_len,
            reps: self.args.reps,
            warmup: self.args.warmup,
            model_weights_hash: hex32(&gen.weights_hash),
            checkpoint_file_hash: gen.checkpoint_file_hash.clone(),
            restore: self.restore,
            start_state_hash: self.start_state_hash,
            offered_state_hash: self.offered_state_hash,
            restore_exact: self.restore_exact,
            start_state_finite: self.start_finite,
            output_hash,
            output_frames: self.frames.len(),
            output_bytes,
            emitted,
            timings,
            work_context,
            work_generate,
            work_total: work_context + work_generate,
            error: None,
        }
    }
}

/// A restored request generates from the state that was offered: the hash that it
/// reports is the record's own.
pub proof fn law_restored_state_has_the_offered_hash(rec: RecordModel, exp: Expectation)
    requires
        accepts(rec, exp),
    ensures
        rebuilt(rec, exp) matches Ok(s) ==> state_hash_text(s) == hex(rec.state_hash),
{
    law_accepted_bytes_round_trip(rec.h, exp.cfg, 1, exp.cfg.hidden_channels);
    law_accepted_bytes_round_trip(rec.c, exp.cfg, 1, exp.cfg.hidden_channels);
    law_accepted_bytes_round_trip(rec.carry, exp.cfg, 1, 2);
}

/// What a request generates and what it generates from: the state of a record that it
/// reuses, else the state that the context earns.
pub open spec fn serves(
    gen: Generator,
    frames: Seq<Seq<u32>>,
    controls: Seq<Control>,
    offer: Option<RecordModel>,
    exp: Expectation,
    request: Request,
    start: StateModel,
    out: Seq<Seq<u32>>,
) -> bool {
    &&& if is_reused(offer, exp) {
        rebuilt(offer->0, exp) == Ok::<StateModel, TensorError>(start)
    } else {
        earned(gen.model, frames, controls, gen.context_len as int, start)
    }
    &&& generated(gen.model, request.program(), start, gen.future_len as int, out)
}

/// A record is accepted if and only if it passes every check. A request that refuses one
/// names the first check that failed, says that it replays from scratch, and answers with
/// the output of a request that was offered nothing.
pub proof fn law_refused_request_answers_like_the_baseline(
    gen: Generator,
    frames: Seq<Seq<u32>>,
    controls: Seq<Control>,
    rec: RecordModel,
    exp: Expectation,
    request: Request,
    start: StateModel,
    out: Seq<Seq<u32>>,
    baseline_start: StateModel,
    baseline_out: Seq<Seq<u32>>,
)
    requires
        repeatable(gen.model),
        serves(gen, frames, controls, Some(rec), exp, request, start, out),
        serves(gen, frames, controls, None, exp, request, baseline_start, baseline_out),
    ensures
        ({
            let r = RestoreModel::initial().offered(Mode::Vole, Some(rec), exp);
            let k = first_failing(all_checks(rec, exp), 0);
            &&& r.checks == all_checks(rec, exp)
            &&& r.accepted <==> forall|i: int| 0 <= i < 6 ==> (#[trigger] r.checks[i]).ok
            &&& !r.accepted ==> {
                &&& 0 <= k < 6 && !r.checks[k].ok
                &&& forall|i: int| 0 <= i < k ==> (#[trigger] r.checks[i]).ok
                &&& r.rejection == Some(r.checks[k].name)
                &&& r.mechanism == "replay-from-scratch"@
                &&& r.fallback == Some("replay-from-scratch"@)
                &&& state_hash_text(start) == state_hash_text(baseline_start)
                &&& out == baseline_out
                &&& hex(blake3_digest(frames_payload(out))) == hex(
                    blake3_digest(frames_payload(baseline_out)),
                )
            }
        }),
{
    law_unfit_records_are_refused(RestoreModel::initial(), Mode::Vole, rec, exp);
    law_reuse_is_permitted_iff_the_record_fits(rec, exp);
    lemma_first_failing(all_checks(rec, exp), 0);
    if !accepts(rec, exp) {
        law_equal_histories_earn_equal_states(
            gen.model,
            frames,
            controls,
            gen.context_len as int,
            start,
            baseline_start,
        );
        law_equal_states_have_equal_futures(
            gen.model,
            request,
            start,
            baseline_start,
            gen.future_len as int,
            out,
            baseline_out,
        );
    }
}

/// A raw payload carries no identity: whatever has the right length is taken for
/// the state that the request expects, while a blob of another scene is refused.
pub proof fn law_raw_payloads_cannot_be_refused(bytes: Seq<u8>, exp: Expectation)
    requires
        bytes.len() == 2 * raw_tensor_bytes(exp.cfg) + raw_carry_bytes(exp.cfg),
    ensures
        offered_record(Mode::Raw, bytes, exp) matches Ok(rec) && accepts(rec, exp),
        offered_record(Mode::Vole, bytes, exp) matches Ok(rec) ==> (rec.scene != exp.scene
            ==> !accepts(rec, exp)),
{
}

// ---------------------------------------------------------------------------
// What comes back
// ---------------------------------------------------------------------------

/// The tensors of a raw file stand one after the other, `H`, `C` and the carry, and are taken
/// for a state of what the request expects.
pub proof fn law_raw_files_are_three_tensors(bytes: Seq<u8>, exp: Expectation)
    requires
        bytes.len() == 2 * raw_tensor_bytes(exp.cfg) + raw_carry_bytes(exp.cfg),
    ensures
        offered_record(Mode::Raw, bytes, exp) matches Ok(rec) && {
            let n = 4 * exp.cfg.hidden_channels * exp.cfg.height * exp.cfg.width;
            &&& rec.h == bytes.subrange(0, n)
            &&& rec.c == bytes.subrange(n, 2 * n)
            &&& rec.carry == bytes.skip(2 * n)
            &&& rec.scene == exp.scene
            &&& rec.context_len == exp.context_len
            &&& rec.model_weights_hash == exp.model_weights_hash@
            &&& rec.config_hash == exp.config_hash@
            &&& rec.state_hash == blake3_digest(bytes)
        },
        offered_record(Mode::Vole, bytes, exp) matches Ok(rec) ==> decoded(bytes) == Ok::<
            RecordModel,
            ErrorModel,
        >(rec),
        offered_record(Mode::Vole, bytes, exp) is Ok <==> decoded(bytes) is Ok,
{
    let (a, y, x) = (
        exp.cfg.hidden_channels as int,
        exp.cfg.height as int,
        exp.cfg.width as int,
    );
    let n = 4 * a * y * x;
    assert(0 <= n) by (nonlinear_arith)
        requires
            n == 4 * a * y * x,
            0 <= a,
            0 <= y,
            0 <= x,
    ;
    assert(4 * 2 * y * x >= 0) by (nonlinear_arith)
        requires
            0 <= y,
            0 <= x,
    ;
    assert(bytes.subrange(2 * n, bytes.len() as int) =~= bytes.skip(2 * n));
    let rec = raw_record(
        bytes,
        exp.cfg,
        exp.model_weights_hash@,
        exp.config_hash@,
        exp.scene,
        exp.context_len,
    );
    assert(rec.h + rec.c + rec.carry =~= bytes);
}

/// The state that a producer records is the state that a request rebuilds from its record,
/// number for number; and it is known by the hash of its three tensors, in this order.
pub proof fn law_recorded_state_is_rebuilt(
    gen: Generator,
    scene: SceneId,
    context_len: usize,
    s: StateModel,
    exp: Expectation,
)
    requires
        s.shaped(gen.cfg, 1),
        exp.cfg == gen.cfg,
    ensures
        rebuilt(earned_record(gen, scene, context_len, s), exp) == Ok::<StateModel, TensorError>(s),
        earned_record(gen, scene, context_len, s).state_hash == blake3_digest(
            floats_to_bytes(s.h) + floats_to_bytes(s.c) + floats_to_bytes(s.carry),
        ),
        state_hash_text(s) == hex(earned_record(gen, scene, context_len, s).state_hash),
{
    law_state_round_trips(s, gen.cfg, 1);
}

/// The timing table of a request: loading, rendering, replaying, restoring, generating and the
/// whole, each from its own samples, and only the loading from the one time that it was done.
pub proof fn law_request_phases<F: Fn(u64, u64) -> u64>(
    run: RequestRun,
    t: Seq<PhaseTiming>,
    load_ms: u64,
    mean: F,
)
    requires
        run.has_timings(t, load_ms, mean),
    ensures
        t.len() == 6,
        t[0].samples_ms@ == seq![load_ms],
        t[1].samples_ms@ == run.scene.measured@ && t[1].warmup_ms == run.scene.warmup,
        t[2].samples_ms@ == run.replay.measured@ && t[2].warmup_ms == run.replay.warmup,
        t[3].samples_ms@ == run.restored.measured@ && t[3].warmup_ms == run.restored.warmup,
        t[4].samples_ms@ == run.generate.measured@ && t[4].warmup_ms == run.generate.warmup,
        t[5].samples_ms@ == run.total.measured@ && t[5].warmup_ms == run.total.warmup,
        forall|i: int|
            0 <= i < 6 ==> is_median((#[trigger] t[i]).median_ms, t[i].samples_ms@, mean),
        forall|i: int| 0 <= i < 6 ==> (#[trigger] t[i]).phase@ == REQUEST_PHASES@[i]@,
{
}

/// How often a request is repeated, and what its work is: the asked repetitions and one more
/// to warm up, of which only the first does; and the steps and emissions that were counted.
pub proof fn law_repetitions_and_work(run: RequestRun, m: WorkMeter, w: StepWork)
    ensures
        run.args.warmup ==> run.repetitions() == run.args.reps + 1,
        !run.args.warmup ==> run.repetitions() == run.args.reps,
        run.warming() <==> run.args.warmup && run.rep == 0,
        metered(m, w).cell_steps == m.cell_steps,
        metered(m, w).head_applications == m.head_applications,
        metered(m, w).macs == m.cell_steps * w.cell_macs + m.head_applications * w.head_macs,
{
}

} // verus!
