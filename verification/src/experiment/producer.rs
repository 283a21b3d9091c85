//! A producer child: earn a state, persist it, and give an account of it.

use vstd::prelude::*;

use crate::experiment::args::ProducerArgs;
use crate::experiment::generator::Generator;
use crate::experiment::request::{metered, timed};
use crate::experiment::stats::{is_nan, no_nans};
use crate::experiment::timing::PhaseTiming;
use crate::model::floats::floats_to_bytes;
use crate::model::state::{State, StateModel};
use crate::model::work::{StepWork, WorkMeter, WorkTotals};
use crate::scene::SceneId;
use crate::state::compat::{accepts, Expectation};
use crate::state::hashes::{blake3_digest, hash32, hex32};
use crate::state::record::{RecordModel, StateRecord};
use crate::text::hex;

verus! {

/// Phase names that a producer reports.
pub const PRODUCER_PHASES: [&'static str; 8] = [
    "model_load",
    "store_open_or_create",
    "scene_generate",
    "model_only_replay",
    "state_serialize",
    "entropyfs_contains",
    "state_persist_entropyfs",
    "state_persist_raw_file",
];

/// What each of those phases means.
pub const PRODUCER_DEFINITIONS: [&'static str; 8] = [
    "read the frozen safetensors checkpoint and derive its identity hashes",
    "open the EntropyFS store, or mkfs it when absent",
    "deterministically render the context frames (no model arithmetic)",
    "consume the context through the ConvLSTM: model arithmetic only",
    "encode the VOLE state record: 176-byte header plus exact f32 payload",
    "namespace lookup of the blob id before the put",
    "put_blob then sync(): mutation-log append and the power-durability barrier",
    "write the same payload bytes to an ordinary file (the attribution control)",
];

/// The times of a producer's phases, as `binary64` bits.
#[derive(Debug, Clone, Copy)]
pub struct ProducerTimes {
    /// `model_load`.
    pub load: u64,
    /// `store_open_or_create`.
    pub store: u64,
    /// `scene_generate`.
    pub scene: u64,
    /// `model_only_replay`.
    pub replay: u64,
    /// `state_serialize`.
    pub serialize: u64,
    /// `entropyfs_contains`.
    pub contains: u64,
    /// `state_persist_entropyfs`.
    pub persist: u64,
    /// `state_persist_raw_file`.
    pub raw: u64,
}

impl ProducerTimes {
    /// Every time is a number.
    pub open spec fn are_numbers(self) -> bool {
        forall|i: int| 0 <= i < 8 ==> !is_nan(#[trigger] self.get(i))
    }

    /// The time of phase `i`.
    pub open spec fn get(self, i: int) -> u64 {
        if i == 0 {
            self.load
        } else if i == 1 {
            self.store
        } else if i == 2 {
            self.scene
        } else if i == 3 {
            self.replay
        } else if i == 4 {
            self.serialize
        } else if i == 5 {
            self.contains
        } else if i == 6 {
            self.persist
        } else {
            self.raw
        }
    }

    /// The time of phase `i`.
    fn at(&self, i: usize) -> (r: u64)
        requires
            i < 8,
        ensures
            r == self.get(i as int),
    {
        if i == 0 {
            self.load
        } else if i == 1 {
            self.store
        } else if i == 2 {
            self.scene
        } else if i == 3 {
            self.replay
        } else if i == 4 {
            self.serialize
        } else if i == 5 {
            self.contains
        } else if i == 6 {
            self.persist
        } else {
            self.raw
        }
    }
}

/// Whether a producer that leaves the store alone runs phase `i`.
pub open spec fn runs_phase(skip_store: bool, i: int) -> bool {
    !skip_store || (i != 1 && i != 5 && i != 6)
}

/// The phases, from `k` on, that a producer runs.
pub open spec fn phases_run(skip_store: bool, k: int) -> Seq<int>
    decreases 8 - k,
{
    if k >= 8 {
        Seq::empty()
    } else if runs_phase(skip_store, k) {
        seq![k] + phases_run(skip_store, k + 1)
    } else {
        phases_run(skip_store, k + 1)
    }
}

/// The timing table of a producer: one sample for each phase that it runs.
pub open spec fn producer_table<F: Fn(u64, u64) -> u64>(
    t: Seq<PhaseTiming>,
    skip_store: bool,
    times: ProducerTimes,
    mean: F,
) -> bool {
    let run = phases_run(skip_store, 0);
    &&& t.len() == run.len()
    &&& forall|i: int|
        0 <= i < t.len() ==> timed(
            #[trigger] t[i],
            PRODUCER_PHASES@[run[i]]@,
            PRODUCER_DEFINITIONS@[run[i]]@,
            None,
            seq![times.get(run[i])],
            mean,
        )
}

/// The timing table of a producer.
pub fn producer_timings<F: Fn(u64, u64) -> u64 + Copy>(
    skip_store: bool,
    times: &ProducerTimes,
    mean: F,
) -> (r: Vec<PhaseTiming>)
    requires
        times.are_numbers(),
        forall|a: u64, b: u64| call_requires(mean, (a, b)),
    ensures
        producer_table(r@, skip_store, *times, mean),
{
    let mut out: Vec<PhaseTiming> = Vec::new();
    let mut k: usize = 0;
    let ghost all = phases_run(skip_store, 0);
    assert(all.skip(0) =~= all);
    while k < 8
        invariant
            k <= 8,
            times.are_numbers(),
            forall|a: u64, b: u64| call_requires(mean, (a, b)),
            all == phases_run(skip_store, 0),
            out@.len() <= all.len(),
            all.skip(out@.len() as int) == phases_run(skip_store, k as int),
            forall|i: int|
                0 <= i < out@.len() ==> timed(
                    #[trigger] out@[i],
                    PRODUCER_PHASES@[all[i]]@,
                    PRODUCER_DEFINITIONS@[all[i]]@,
                    None,
                    seq![times.get(all[i])],
                    mean,
                ),
        decreases 8 - k,
    {
        let ghost done = out@.len() as int;
        if !skip_store || (k != 1 && k != 5 && k != 6) {
            let v: u64 = times.at(k);
            let mut one: Vec<u64> = Vec::new();
            one.push(v);
            assert(one@ =~= seq![v]);
            assert(no_nans(one@)) by {
                assert(!is_nan(times.get(k as int)));
            }
            out.push(PhaseTiming::new(PRODUCER_PHASES[k], PRODUCER_DEFINITIONS[k], None, one, mean));
            proof {
                let rest = phases_run(skip_store, k + 1);
                assert(all.skip(done) == seq![k as int] + rest);
                assert(all.skip(done)[0] == k);
                assert(all[done] == k);
                assert(all.skip(done + 1) =~= all.skip(done).drop_first());
                assert((seq![k as int] + rest).drop_first() =~= rest);
            }
        }
        k = k + 1;
    }
    assert(all.skip(out@.len() as int).len() == 0);
    out
}

// ---------------------------------------------------------------------------
// The record
// ---------------------------------------------------------------------------

/// The record of a state that a generator earned.
pub open spec fn earned_record(gen: Generator, scene: SceneId, context_len: usize, s: StateModel)
    -> RecordModel {
    RecordModel {
        model_weights_hash: gen.weights_hash@,
        config_hash: gen.config_hash@,
        scene,
        context_len: context_len as u32,
        hidden_channels: gen.cfg.hidden_channels as u32,
        carry_channels: 2,
        height: gen.cfg.height as u32,
        width: gen.cfg.width as u32,
        h: floats_to_bytes(s.h),
        c: floats_to_bytes(s.c),
        carry: floats_to_bytes(s.carry),
        state_hash: blake3_digest(
            floats_to_bytes(s.h) + floats_to_bytes(s.c) + floats_to_bytes(s.carry),
        ),
    }
}

/// The record of an earned state.
pub fn record_state(gen: &Generator, scene: SceneId, context_len: usize, state: &State) -> (r:
    StateRecord)
    ensures
        r@ == earned_record(*gen, scene, context_len, state@),
        r@.sized() ==> r@.wf(),
{
    StateRecord::new(
        gen.weights_hash,
        gen.config_hash,
        scene,
        context_len as u32,
        &gen.cfg,
        state.h_bytes(),
        state.c_bytes(),
        state.carry_bytes(),
    )
}

/// The identifier that the store gives a record's bytes: their BLAKE3 digest.
pub fn expected_blob(encoded: &[u8]) -> (id: [u8; 32])
    ensures
        id@ == blake3_digest(encoded@),
{
    hash32(encoded)
}

/// A request of the same generator accepts the record that a producer stored, if
/// it expects the scene that the producer watched.
pub proof fn law_own_record_is_accepted(
    gen: Generator,
    scene: SceneId,
    s: StateModel,
    exp: Expectation,
)
    requires
        exp.model_weights_hash == gen.weights_hash,
        exp.config_hash == gen.config_hash,
        exp.context_len == gen.context_len as u32,
        exp.cfg == gen.cfg,
    ensures
        accepts(earned_record(gen, scene, gen.context_len, s), exp) <==> exp.scene == scene,
{
    let r = earned_record(gen, scene, gen.context_len, s);
    assert(r.payload() == floats_to_bytes(s.h) + floats_to_bytes(s.c) + floats_to_bytes(s.carry));
}

/// The record of a state of the right shape is self-consistent in its sizes, when
/// the architecture's sizes fit their fields.
pub proof fn law_earned_record_is_sized(
    gen: Generator,
    scene: SceneId,
    context_len: usize,
    s: StateModel,
)
    requires
        s.shaped(gen.cfg, 1),
        gen.cfg.fields_fit(),
        gen.cfg.pixels() <= usize::MAX,
        4 * gen.cfg.hidden_channels <= usize::MAX,
        4 * s.h.len() <= usize::MAX,
        4 * s.carry.len() <= usize::MAX,
    ensures
        earned_record(gen, scene, context_len, s).sized(),
{
    let (a, y, x) = (
        gen.cfg.hidden_channels as int,
        gen.cfg.height as int,
        gen.cfg.width as int,
    );
    assert(4 * (1 * a * y * x) == 4 * a * (y * x)) by (nonlinear_arith);
    assert(4 * (1 * 2 * y * x) == 4 * 2 * (y * x)) by (nonlinear_arith);
}

// ---------------------------------------------------------------------------
// The report
// ---------------------------------------------------------------------------

/// What the store was seen to hold. All zero for a producer that left it alone.
#[derive(Debug)]
pub struct StoreFigures {
    /// Whether the store had to be created.
    pub created: bool,
    /// Bytes of a freshly created store.
    pub mkfs_bytes: u64,
    /// Bytes before the put.
    pub bytes_before: u64,
    /// Bytes after the put and the durability barrier.
    pub bytes_after: u64,
    /// The store's own figure after the put.
    pub engine_used: u64,
    /// Blob identifier, empty if the store was left alone.
    pub blob_id: String,
    /// Whether the blob was there already.
    pub already_present: bool,
}

impl StoreFigures {
    /// Nothing was stored.
    pub fn none() -> (r: StoreFigures)
        ensures
            !r.created,
            r.mkfs_bytes == 0,
            r.bytes_before == 0,
            r.bytes_after == 0,
            r.engine_used == 0,
            r.blob_id@ == Seq::<char>::empty(),
            !r.already_present,
    {
        StoreFigures {
            created: false,
            mkfs_bytes: 0,
            bytes_before: 0,
            bytes_after: 0,
            engine_used: 0,
            blob_id: String::new(),
            already_present: false,
        }
    }
}

/// The producer's account of one earning and persistence.
#[derive(Debug)]
pub struct ProducerReport {
    /// Process id of the producer.
    pub pid: u32,
    /// Scene watched.
    pub scene: String,
    /// Frames consumed.
    pub context_len: usize,
    /// Weights hash in use.
    pub model_weights_hash: String,
    /// Architecture hash in use.
    pub model_config_hash: String,
    /// Checkpoint hash.
    pub checkpoint_file_hash: String,
    /// Checkpoint size.
    pub checkpoint_bytes: u64,
    /// Hash of the earned state.
    pub state_hash: String,
    /// Whether every element of the earned state is finite.
    pub state_finite: bool,
    /// `H` payload bytes.
    pub h_bytes: usize,
    /// `C` payload bytes.
    pub c_bytes: usize,
    /// Carry payload bytes.
    pub carry_bytes: usize,
    /// The three together: the raw recurrent state size.
    pub raw_state_bytes: usize,
    /// Record size, header included.
    pub vole_record_bytes: usize,
    /// Whether the store was used at all.
    pub entropyfs_used: bool,
    /// Whether the store had to be created.
    pub store_created: bool,
    /// Bytes of a freshly created store.
    pub store_mkfs_bytes: u64,
    /// Store bytes before the put.
    pub store_bytes_before: u64,
    /// Store bytes after the put and the durability barrier.
    pub store_bytes_after: u64,
    /// What the blob added to the store.
    pub store_physical_delta: u64,
    /// The store's own figure after the put.
    pub engine_physical_used_after: u64,
    /// Blob identifier.
    pub blob_id: String,
    /// Whether the blob was there already.
    pub blob_already_present: bool,
    /// Path of the raw payload file.
    pub raw_file: String,
    /// Raw payload bytes written.
    pub raw_file_bytes: u64,
    /// Phase timings, in execution order.
    pub timings: Vec<PhaseTiming>,
    /// Arithmetic executed by the producer.
    pub work: WorkTotals,
    /// Failure, if the child failed.
    pub error: Option<String>,
}

/// The account of a producer that has finished.
pub fn producer_report<F: Fn(u64, u64) -> u64 + Copy>(
    args: &ProducerArgs,
    gen: &Generator,
    record: &StateRecord,
    finite: bool,
    store: StoreFigures,
    raw_file: String,
    meter: &WorkMeter,
    work: &StepWork,
    times: &ProducerTimes,
    pid: u32,
    mean: F,
) -> (r: ProducerReport)
    requires
        176 + record@.payload().len() <= usize::MAX,
        metered(*meter, *work).fits(),
        times.are_numbers(),
        forall|a: u64, b: u64| call_requires(mean, (a, b)),
    ensures
        r.pid == pid,
        r.scene@ == args.scene.text(),
        r.context_len == args.context_len,
        r.model_weights_hash@ == hex(gen.weights_hash@),
        r.model_config_hash@ == hex(gen.config_hash@),
        r.checkpoint_file_hash@ == gen.checkpoint_file_hash@,
        r.checkpoint_bytes == gen.checkpoint_bytes,
        r.state_hash@ == hex(record@.state_hash),
        r.state_finite == finite,
        r.h_bytes == record@.h.len(),
        r.c_bytes == record@.c.len(),
        r.carry_bytes == record@.carry.len(),
        r.raw_state_bytes == record@.payload().len(),
        r.vole_record_bytes == 176 + record@.payload().len(),
        r.entropyfs_used == !args.skip_entropyfs,
        r.store_created == store.created,
        r.store_mkfs_bytes == store.mkfs_bytes,
        r.store_bytes_before == store.bytes_before,
        r.store_bytes_after == store.bytes_after,
        r.store_physical_delta == if store.bytes_after > store.bytes_before {
            store.bytes_after - store.bytes_before
        } else {
            0
        },
        r.engine_physical_used_after == store.engine_used,
        r.blob_id@ == store.blob_id@,
        r.blob_already_present == store.already_present,
        r.raw_file@ == raw_file@,
        r.raw_file_bytes == record@.payload().len(),
        producer_table(r.timings@, args.skip_entropyfs, *times, mean),
        r.work@ == metered(*meter, *work),
        r.error is None,
{
    let raw: usize = record.h.len() + record.c.len() + record.carry.len();
    let timings = producer_timings(args.skip_entropyfs, times, mean);
    ProducerReport {
        pid,
        scene: args.scene.as_str().to_owned(),
        context_len: args.context_len,
        model_weights_hash: hex32(&gen.weights_hash),
        model_config_hash: hex32(&gen.config_hash),
        checkpoint_file_hash: gen.checkpoint_file_hash.clone(),
        checkpoint_bytes: gen.checkpoint_bytes,
        state_hash: hex32(&record.state_hash),
        state_finite: finite,
        h_bytes: record.h.len(),
        c_bytes: record.c.len(),
        carry_bytes: record.carry.len(),
        raw_state_bytes: raw,
        vole_record_bytes: 176 + raw,
        entropyfs_used: !args.skip_entropyfs,
        store_created: store.created,
        store_mkfs_bytes: store.mkfs_bytes,
        store_bytes_before: store.bytes_before,
        store_bytes_after: store.bytes_after,
        store_physical_delta: store.bytes_after.saturating_sub(store.bytes_before),
        engine_physical_used_after: store.engine_used,
        blob_id: store.blob_id,
        blob_already_present: store.already_present,
        raw_file,
        raw_file_bytes: raw as u64,
        timings,
        work: meter.totals(work),
        error: None,
    }
}

/// A record is its header longer than the state that it carries.
pub proof fn law_record_adds_only_its_header(m: RecordModel)
    requires
        m.model_weights_hash.len() == 32,
        m.config_hash.len() == 32,
        m.state_hash.len() == 32,
    ensures
        m.encoded().len() == 176 + m.payload().len(),
{
    crate::state::record::lemma_header_len(m);
}

/// A record says who earned its state: the weights and the architecture of the model, the
/// scene that it watched, for how long, and the sizes of the state.
pub proof fn law_record_says_who_earned_it(
    gen: Generator,
    scene: SceneId,
    context_len: usize,
    s: StateModel,
)
    ensures
        ({
            let r = earned_record(gen, scene, context_len, s);
            &&& r.model_weights_hash == gen.weights_hash@
            &&& r.config_hash == gen.config_hash@
            &&& r.scene == scene
            &&& r.context_len == context_len as u32
            &&& r.hidden_channels == gen.cfg.hidden_channels as u32
            &&& r.carry_channels == 2
            &&& r.height == gen.cfg.height as u32
            &&& r.width == gen.cfg.width as u32
            &&& r.h == floats_to_bytes(s.h)
            &&& r.c == floats_to_bytes(s.c)
            &&& r.carry == floats_to_bytes(s.carry)
        }),
{
}

/// The phases of a producer, in order, each with its own time. One that keeps its state out
/// of the store has none of the store's phases.
pub proof fn law_producer_phases(times: ProducerTimes)
    ensures
        phases_run(false, 0) == seq![0int, 1, 2, 3, 4, 5, 6, 7],
        phases_run(true, 0) == seq![0int, 2, 3, 4, 7],
        times.get(0) == times.load,
        times.get(1) == times.store,
        times.get(2) == times.scene,
        times.get(3) == times.replay,
        times.get(4) == times.serialize,
        times.get(5) == times.contains,
        times.get(6) == times.persist,
        times.get(7) == times.raw,
{
    reveal_with_fuel(phases_run, 9);
    assert(phases_run(false, 0) =~= seq![0int, 1, 2, 3, 4, 5, 6, 7]);
    assert(phases_run(true, 0) =~= seq![0int, 2, 3, 4, 7]);
}

/// The timing table of a producer has an entry for each phase that it ran, with its one time.
pub proof fn law_producer_table<F: Fn(u64, u64) -> u64>(
    t: Seq<PhaseTiming>,
    skip_store: bool,
    times: ProducerTimes,
    mean: F,
    i: int,
)
    requires
        producer_table(t, skip_store, times, mean),
        0 <= i < t.len(),
    ensures
        t.len() == if skip_store {
            5nat
        } else {
            8nat
        },
        t[i].samples_ms@ == seq![times.get(phases_run(skip_store, 0)[i])],
        t[i].phase@ == PRODUCER_PHASES@[phases_run(skip_store, 0)[i]]@,
        t[i].warmup_ms is None,
{
    law_producer_phases(times);
}

} // verus!
