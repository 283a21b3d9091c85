//! The evidence file of a demonstration.
//!
//! Real numbers are `binary64` bit patterns.

use vstd::prelude::*;

use crate::demo::consumers::{processes, Consumers};
use crate::demo::gates::{all_ok, avoided, gate_models, passed, Gate};
use crate::demo::identity::RequestIdentity;
use crate::demo::negative::NegativeInfo;
use crate::demo::plan::{canonical_scene, unrelated_scene};
use crate::demo::reuse::ReuseInfo;
use crate::experiment::args::opt_text;
use crate::experiment::paths::{joined, Paths};
use crate::experiment::producer::ProducerReport;
use crate::experiment::stats::{expanded, maximal, rle};
use crate::experiment::timing::PhaseAcross;
use crate::model::config::ModelConfig;
use crate::model::work::{StepWork, WorkTotals};
use crate::scene::{context_control, context_program, SceneId, H, W};
use crate::text::{decode_lossy, lossy, trim, trimmed_back, trimmed_front};

verus! {

// ---------------------------------------------------------------------------
// Host
// ---------------------------------------------------------------------------

/// Host facts that a reader needs to interpret the timings.
#[derive(Debug)]
pub struct HostInfo {
    /// Operating system.
    pub os: String,
    /// Machine architecture.
    pub arch: String,
    /// Logical CPUs that the process can see.
    pub available_parallelism: usize,
    /// Threads pinned for every child, or zero.
    pub pinned_threads: usize,
    /// Crate version.
    pub crate_version: String,
    /// The checkout's commit, when the run happened inside one.
    pub git_commit: Option<String>,
}

/// The commit in what the version-control command printed: none if it failed or
/// printed nothing but white space.
pub fn commit_text(success: bool, stdout: &[u8]) -> (r: Option<String>)
    ensures
        ({
            let t = trimmed_back(trimmed_front(lossy(stdout@)));
            opt_text(r) == if success && t.len() > 0 {
                Some(t)
            } else {
                None
            }
        }),
{
    if !success {
        return None;
    }
    let text = decode_lossy(stdout);
    let t = trim(text.as_str());
    if crate::text::characters(t.as_str()).len() == 0 {
        None
    } else {
        Some(t)
    }
}

// ---------------------------------------------------------------------------
// Model
// ---------------------------------------------------------------------------

/// The frozen model's identity and declared arithmetic.
#[derive(Debug)]
pub struct ModelInfo {
    /// Checkpoint path.
    pub checkpoint: String,
    /// Checkpoint bytes.
    pub checkpoint_bytes: u64,
    /// BLAKE3 of the checkpoint file.
    pub checkpoint_file_hash: String,
    /// Hash of the parameters.
    pub weights_hash: String,
    /// Hash of the architecture.
    pub config_hash: String,
    /// Architecture.
    pub config: ModelConfig,
    /// Parameters.
    pub parameter_count: u64,
    /// Declared arithmetic per recurrent step and per emission.
    pub step_work: StepWork,
    /// Every path reads the weights; they are no saving.
    pub weights_are_shared_by_both_paths: bool,
}

/// `r` tells of the frozen model of a producer.
pub open spec fn is_model_info(
    r: ModelInfo,
    checkpoint: Seq<char>,
    producer: ProducerReport,
) -> bool {
    &&& r.checkpoint@ == checkpoint
    &&& r.checkpoint_bytes == producer.checkpoint_bytes
    &&& r.checkpoint_file_hash@ == producer.checkpoint_file_hash@
    &&& r.weights_hash@ == producer.model_weights_hash@
    &&& r.config_hash@ == producer.model_config_hash@
    &&& r.config == (ModelConfig {
        in_channels: 3,
        hidden_channels: 8,
        kernel: 3,
        height: 32,
        width: 32,
    })
    &&& r.parameter_count == 3937
    &&& r.step_work == (StepWork {
        cell_macs: 3244032,
        cell_bias_adds: 32768,
        cell_mul_adds: 32768,
        cell_nonlinearities: 40960,
        head_macs: 745472,
        head_bias_adds: 2048,
    })
    &&& r.weights_are_shared_by_both_paths
}

/// The model that a producer ran.
pub fn model_info(checkpoint: &str, producer: &ProducerReport) -> (r: ModelInfo)
    ensures
        is_model_info(r, checkpoint@, *producer),
{
    let config = ModelConfig::default();
    assert(config.taps() == 9 && config.pixels() == 1024 && config.cell_inputs() == 11);
    ModelInfo {
        checkpoint: checkpoint.to_owned(),
        checkpoint_bytes: producer.checkpoint_bytes,
        checkpoint_file_hash: producer.checkpoint_file_hash.clone(),
        weights_hash: producer.model_weights_hash.clone(),
        config_hash: producer.model_config_hash.clone(),
        config,
        parameter_count: config.parameter_count(),
        step_work: config.step_work(),
        weights_are_shared_by_both_paths: true,
    }
}

// ---------------------------------------------------------------------------
// Scene
// ---------------------------------------------------------------------------

/// The scene and the requests.
#[derive(Debug)]
pub struct SceneInfo {
    /// Canonical scene identity.
    pub id: String,
    /// Its label.
    pub label: String,
    /// The scene of the negative case.
    pub unrelated_id: String,
    /// Its label.
    pub unrelated_label: String,
    /// Frame height.
    pub height: usize,
    /// Frame width.
    pub width: usize,
    /// Frames consumed to earn a state.
    pub context_len: usize,
    /// Frames generated per request.
    pub future_len: usize,
    /// The context control program, one code per step, in runs.
    pub context_controls_rle: Vec<(u8, usize)>,
    /// Every compared request.
    pub requests: Vec<RequestIdentity>,
}

/// The codes of the context program.
pub open spec fn context_codes(len: nat) -> Seq<u8> {
    Seq::new(len, |t: int| context_control(t).spec_code() as u8)
}

/// `r` tells of the scene and the requests of a run.
pub open spec fn is_scene_info(
    r: SceneInfo,
    context_len: usize,
    future_len: usize,
    requests: Vec<RequestIdentity>,
) -> bool {
    &&& r.id@ == SceneId::MovingShape01.text()
    &&& r.label@ == SceneId::MovingShape01.label_text()
    &&& r.unrelated_id@ == SceneId::MovingShape02.text()
    &&& r.unrelated_label@ == SceneId::MovingShape02.label_text()
    &&& r.height == 32
    &&& r.width == 32
    &&& r.context_len == context_len
    &&& r.future_len == future_len
    &&& expanded(r.context_controls_rle@) == context_codes(context_len as nat)
    &&& maximal(r.context_controls_rle@)
    &&& r.requests == requests
}

/// The scene and the requests of a run.
pub fn scene_info(context_len: usize, future_len: usize, requests: Vec<RequestIdentity>) -> (r:
    SceneInfo)
    ensures
        is_scene_info(r, context_len, future_len, requests),
{
    let program = context_program();
    let mut codes: Vec<u8> = Vec::new();
    let mut t: usize = 0;
    while t < context_len
        invariant
            t <= context_len,
            program@ == Seq::new(512, |i: int| context_control(i)),
            codes@ == context_codes(t as nat),
        decreases context_len - t,
    {
        let u = program.at(t);
        assert(u == context_control(t as int));
        codes.push(u.code());
        assert(codes@ =~= context_codes((t + 1) as nat));
        t = t + 1;
    }
    SceneInfo {
        id: canonical_scene().as_str().to_owned(),
        label: canonical_scene().label().to_owned(),
        unrelated_id: unrelated_scene().as_str().to_owned(),
        unrelated_label: unrelated_scene().label().to_owned(),
        height: H,
        width: W,
        context_len,
        future_len,
        context_controls_rle: rle(codes.as_slice()),
        requests,
    }
}

// ---------------------------------------------------------------------------
// State
// ---------------------------------------------------------------------------

/// What the store physically holds.
#[derive(Debug)]
pub struct EntropyFsInfo {
    /// Blob identifier.
    pub blob_id: String,
    /// Bytes of an empty store.
    pub store_mkfs_bytes: u64,
    /// Store bytes before the put.
    pub store_bytes_before: u64,
    /// Store bytes after the put and the durability barrier.
    pub store_bytes_after: u64,
    /// What the put added.
    pub physical_delta_bytes: u64,
    /// The store's own figure after the put.
    pub engine_physical_used_bytes: u64,
    /// Whether the blob was there before the put.
    pub blob_already_present: bool,
    /// Bytes that the record added relative to the raw payload.
    pub overhead_vs_raw_bytes: i64,
    /// The store was measured from outside the engine.
    pub measured_from_outside_the_engine: bool,
}

/// Byte accounting for the persisted state.
#[derive(Debug)]
pub struct StateInfo {
    /// `H` payload bytes.
    pub h_bytes: usize,
    /// `C` payload bytes.
    pub c_bytes: usize,
    /// Carry payload bytes.
    pub carry_bytes: usize,
    /// The three together.
    pub raw_state_bytes: usize,
    /// Record bytes.
    pub vole_record_bytes: usize,
    /// Header bytes.
    pub vole_header_bytes: usize,
    /// Raw file bytes.
    pub raw_file_bytes: u64,
    /// Hash of the earned state.
    pub state_hash: String,
    /// Hash of the recovered state.
    pub restored_state_hash: Option<String>,
    /// Recovered bytes equal offered bytes.
    pub state_exact: bool,
    /// Every element of the state is finite.
    pub state_finite: bool,
    /// What the store holds.
    pub entropyfs: EntropyFsInfo,
    /// Model weight bytes, which every path reads.
    pub model_weight_bytes: u64,
}

/// `r` is the byte accounting of a producer.
pub open spec fn is_state_info(
    r: StateInfo,
    producer: ProducerReport,
    restored: Option<String>,
    exact: bool,
) -> bool {
    &&& r.h_bytes == producer.h_bytes
    &&& r.c_bytes == producer.c_bytes
    &&& r.carry_bytes == producer.carry_bytes
    &&& r.raw_state_bytes == producer.raw_state_bytes
    &&& r.vole_record_bytes == producer.vole_record_bytes
    &&& r.vole_header_bytes == producer.vole_record_bytes - producer.raw_state_bytes
    &&& r.raw_file_bytes == producer.raw_file_bytes
    &&& r.state_hash@ == producer.state_hash@
    &&& r.restored_state_hash == restored
    &&& r.state_exact == exact
    &&& r.state_finite == producer.state_finite
    &&& r.entropyfs.blob_id@ == producer.blob_id@
    &&& r.entropyfs.store_mkfs_bytes == producer.store_mkfs_bytes
    &&& r.entropyfs.store_bytes_before == producer.store_bytes_before
    &&& r.entropyfs.store_bytes_after == producer.store_bytes_after
    &&& r.entropyfs.physical_delta_bytes == producer.store_physical_delta
    &&& r.entropyfs.engine_physical_used_bytes == producer.engine_physical_used_after
    &&& r.entropyfs.blob_already_present == producer.blob_already_present
    &&& r.entropyfs.overhead_vs_raw_bytes == producer.store_physical_delta
        - producer.raw_file_bytes
    &&& r.entropyfs.measured_from_outside_the_engine
    &&& r.model_weight_bytes == producer.checkpoint_bytes
}

/// The byte accounting of a run.
pub fn state_info(producer: &ProducerReport, restored: Option<String>, exact: bool) -> (r: StateInfo)
    requires
        producer.raw_state_bytes <= producer.vole_record_bytes,
        producer.store_physical_delta <= i64::MAX,
        producer.raw_file_bytes <= i64::MAX,
    ensures
        is_state_info(r, *producer, restored, exact),
{
    StateInfo {
        h_bytes: producer.h_bytes,
        c_bytes: producer.c_bytes,
        carry_bytes: producer.carry_bytes,
        raw_state_bytes: producer.raw_state_bytes,
        vole_record_bytes: producer.vole_record_bytes,
        vole_header_bytes: producer.vole_record_bytes - producer.raw_state_bytes,
        raw_file_bytes: producer.raw_file_bytes,
        state_hash: producer.state_hash.clone(),
        restored_state_hash: restored,
        state_exact: exact,
        state_finite: producer.state_finite,
        entropyfs: EntropyFsInfo {
            blob_id: producer.blob_id.clone(),
            store_mkfs_bytes: producer.store_mkfs_bytes,
            store_bytes_before: producer.store_bytes_before,
            store_bytes_after: producer.store_bytes_after,
            physical_delta_bytes: producer.store_physical_delta,
            engine_physical_used_bytes: producer.engine_physical_used_after,
            blob_already_present: producer.blob_already_present,
            overhead_vs_raw_bytes: producer.store_physical_delta as i64
                - producer.raw_file_bytes as i64,
            measured_from_outside_the_engine: true,
        },
        model_weight_bytes: producer.checkpoint_bytes,
    }
}

// ---------------------------------------------------------------------------
// Processes
// ---------------------------------------------------------------------------

/// What bridges the processes.
pub const BRIDGE: &'static str = "persisted bytes only: an EntropyFS blob id on the VOLE path, an ordinary file on the raw path";

/// What the isolation claim is.
pub const CLAIM: &'static str = "fresh-process restore (a.k.a. process-cold restore). The producer was waited on and its /proc entry was already gone before the first consumer was spawned. The OS page cache was not flushed; this is not a cold-disk-cache experiment.";

/// Process isolation.
#[derive(Debug)]
pub struct ProcessInfo {
    /// The process that earned and persisted the canonical state.
    pub producer_pid: u32,
    /// The last process of each recorded role.
    pub consumer_pids: Consumers,
    /// Children whose process id was verified.
    pub children_pid_verified: usize,
    /// No recorded consumer has the producer's process id.
    pub producer_differs_from_all_consumers: bool,
    /// Whether the producer's process entry was gone, where that can be seen.
    pub producer_proc_entry_gone: Option<bool>,
    /// The producer was waited on before any consumer was spawned.
    pub producer_exited_before_consumers: bool,
    /// What bridges the processes.
    pub bridge: String,
    /// Whether the disk cache was cold.
    pub cold_disk_cache: bool,
    /// What the isolation claim is.
    pub claim: String,
}

/// `r` tells how the processes were isolated.
pub open spec fn is_process_info(
    r: ProcessInfo,
    producer_pid: u32,
    consumers: Consumers,
    verified: usize,
    proc_gone: Option<bool>,
) -> bool {
    &&& r.producer_pid == producer_pid
    &&& r.consumer_pids == consumers
    &&& r.children_pid_verified == verified
    &&& r.producer_differs_from_all_consumers == !processes(consumers@).contains(producer_pid)
    &&& r.producer_proc_entry_gone == proc_gone
    &&& r.producer_exited_before_consumers
    &&& r.bridge@ == BRIDGE@
    &&& !r.cold_disk_cache
    &&& r.claim@ == CLAIM@
}

/// The process isolation of a run.
pub fn process_info(
    producer_pid: u32,
    consumers: Consumers,
    verified: usize,
    proc_gone: Option<bool>,
) -> (r: ProcessInfo)
    ensures
        is_process_info(r, producer_pid, consumers, verified, proc_gone),
{
    let differs: bool = consumers.all_differ_from(producer_pid);
    ProcessInfo {
        producer_pid,
        consumer_pids: consumers,
        children_pid_verified: verified,
        producer_differs_from_all_consumers: differs,
        producer_proc_entry_gone: proc_gone,
        producer_exited_before_consumers: true,
        bridge: BRIDGE.to_owned(),
        cold_disk_cache: false,
        claim: CLAIM.to_owned(),
    }
}

// ---------------------------------------------------------------------------
// Work
// ---------------------------------------------------------------------------

/// Model work per request.
#[derive(Debug)]
pub struct WorkInfo {
    /// Of a replaying request.
    pub baseline_per_request: WorkTotals,
    /// Of a restoring request.
    pub vole_per_request: WorkTotals,
    /// Of a raw-checkpoint request.
    pub raw_per_request: WorkTotals,
    /// Recurrent steps that restoring avoids.
    pub cell_steps_avoided_per_request: u64,
    /// Multiply-accumulates that restoring avoids.
    pub macs_avoided_per_request: u64,
    /// Their share of the baseline's.
    pub macs_avoided_fraction: u64,
    /// The producer's own arithmetic.
    pub producer: WorkTotals,
}

/// `r` tells what work was done and avoided.
pub open spec fn is_work_info<F: Fn(u64, u64) -> u64>(
    r: WorkInfo,
    baseline: WorkTotals,
    vole: WorkTotals,
    raw: WorkTotals,
    producer: WorkTotals,
    ratio: F,
) -> bool {
    &&& r.baseline_per_request == baseline
    &&& r.vole_per_request == vole
    &&& r.raw_per_request == raw
    &&& r.producer == producer
    &&& r.cell_steps_avoided_per_request == avoided(baseline.cell_steps, vole.cell_steps)
    &&& r.macs_avoided_per_request == avoided(baseline.macs, vole.macs)
    &&& if baseline.macs == 0 {
        r.macs_avoided_fraction == 0
    } else {
        call_ensures(
            ratio,
            (r.macs_avoided_per_request, baseline.macs),
            r.macs_avoided_fraction,
        )
    }
}

/// The work of a run, with `ratio` for the quotient of two counts. The share of
/// nothing is zero.
pub fn work_info<F: Fn(u64, u64) -> u64>(
    baseline: WorkTotals,
    vole: WorkTotals,
    raw: WorkTotals,
    producer: WorkTotals,
    ratio: F,
) -> (r: WorkInfo)
    requires
        forall|a: u64, b: u64| b != 0 ==> call_requires(ratio, (a, b)),
    ensures
        is_work_info(r, baseline, vole, raw, producer, ratio),
{
    let steps: u64 = baseline.cell_steps.saturating_sub(vole.cell_steps);
    let macs: u64 = baseline.macs.saturating_sub(vole.macs);
    let share: u64 = if baseline.macs == 0 {
        0
    } else {
        ratio(macs, baseline.macs)
    };
    WorkInfo {
        baseline_per_request: baseline,
        vole_per_request: vole,
        raw_per_request: raw,
        cell_steps_avoided_per_request: steps,
        macs_avoided_per_request: macs,
        macs_avoided_fraction: share,
        producer,
    }
}

// ---------------------------------------------------------------------------
// Artifacts and notes
// ---------------------------------------------------------------------------

/// Artifact locations.
#[derive(Debug)]
pub struct ArtifactInfo {
    /// Montage of the restored path.
    pub montage: String,
    /// Montage of the from-scratch path.
    pub montage_baseline: String,
    /// The two montages are the same bytes.
    pub montages_identical: bool,
    /// The cumulative-cost table.
    pub reuse_csv: String,
    /// The evidence file.
    pub results_json: String,
    /// The directory of the children's reports.
    pub child_reports: String,
}

/// `r` tells where the artifacts of a run are.
pub open spec fn is_artifact_info(
    r: ArtifactInfo,
    root: Seq<char>,
    montages_identical: bool,
) -> bool {
    &&& r.montage@ == joined(root, "branches.ppm"@)
    &&& r.montage_baseline@ == joined(root, "branches_baseline.ppm"@)
    &&& r.montages_identical == montages_identical
    &&& r.reuse_csv@ == joined(root, "reuse.csv"@)
    &&& r.results_json@ == joined(root, "results.json"@)
    &&& r.child_reports@ == joined(root, "reports"@)
}

/// Where the artifacts of a run are.
pub fn artifact_info(paths: &Paths, montages_identical: bool) -> (r: ArtifactInfo)
    ensures
        is_artifact_info(r, paths.root@, montages_identical),
{
    ArtifactInfo {
        montage: paths.montage(),
        montage_baseline: paths.montage_baseline(),
        montages_identical,
        reuse_csv: paths.reuse_csv(),
        results_json: paths.results_json(),
        child_reports: paths.reports(),
    }
}

/// What the numbers do and do not mean.
pub const NOTES: [&'static str; 6] = [
    "Model weights are read by every process on every path. They are not a saving of this technique and they are not charged to one side.",
    "Persistence and restore costs are reported separately from model arithmetic; persistence I/O is never counted as zero compute.",
    "The recurrent-step and MAC counts are the load-bearing evidence that less model work happened. Wall-clock confirms whether that translated into runtime on this machine.",
    "The raw-checkpoint control exists to keep the result honest: it measures how much of the saving comes from durable state in general, and how much from the VOLE record and the EntropyFS path.",
    "The raw-checkpoint payload carries no identity, so it cannot be checked for compatibility. That absence is itself part of the comparison.",
    "Performance does not determine PASS/FAIL. A slower VOLE path or an N* beyond the tested range is a passing run with an honest result.",
];

/// The notes of the evidence file.
pub fn notes() -> (r: Vec<String>)
    ensures
        r@.len() == 6,
        forall|i: int| 0 <= i < 6 ==> (#[trigger] r@[i])@ == NOTES@[i]@,
{
    let all = NOTES;
    let mut out: Vec<String> = Vec::new();
    let mut i: usize = 0;
    while i < 6
        invariant
            i <= 6,
            all == NOTES,
            out@.len() == i,
            forall|j: int| 0 <= j < i ==> (#[trigger] out@[j])@ == NOTES@[j]@,
        decreases 6 - i,
    {
        out.push(all[i].to_owned());
        i = i + 1;
    }
    out
}

// ---------------------------------------------------------------------------
// All of it
// ---------------------------------------------------------------------------

/// The timing tables of a run.
#[derive(Debug)]
pub struct Timings {
    /// Request phases across processes, and the clocked requests.
    pub requests: Vec<PhaseAcross>,
    /// The clocked requests, one entry per mode.
    pub end_to_end: Vec<PhaseAcross>,
    /// Producers that use the store.
    pub producer_vole: Vec<PhaseAcross>,
    /// Producers that write the raw file only.
    pub producer_raw: Vec<PhaseAcross>,
}

/// The whole evidence.
#[derive(Debug)]
pub struct Results {
    /// Schema identifier.
    pub schema: String,
    /// Time of generation, in seconds since the epoch.
    pub generated_unix_s: u64,
    /// Host facts.
    pub host: HostInfo,
    /// Model facts.
    pub model: ModelInfo,
    /// Scene and requests.
    pub scene: SceneInfo,
    /// Accounting of the persisted state.
    pub state: StateInfo,
    /// Process isolation.
    pub process: ProcessInfo,
    /// Model work.
    pub work: WorkInfo,
    /// Request phases across processes, and the clocked requests.
    pub timing: Vec<PhaseAcross>,
    /// The clocked requests, one entry per mode.
    pub fresh_process_end_to_end_ms: Vec<PhaseAcross>,
    /// Producers that use the store.
    pub producer_timing_vole: Vec<PhaseAcross>,
    /// Producers that write the raw file only.
    pub producer_timing_raw: Vec<PhaseAcross>,
    /// The repeated-request result.
    pub reuse: ReuseInfo,
    /// The negative case.
    pub negative: NegativeInfo,
    /// The correctness gates.
    pub gates: Vec<Gate>,
    /// Whether all of them passed.
    pub pass: bool,
    /// Artifacts.
    pub artifacts: ArtifactInfo,
    /// What the numbers do and do not mean.
    pub notes: Vec<String>,
}

impl Results {
    /// The evidence of a run; it passes if every gate does.
    pub fn new(
        generated_unix_s: u64,
        host: HostInfo,
        model: ModelInfo,
        scene: SceneInfo,
        state: StateInfo,
        process: ProcessInfo,
        work: WorkInfo,
        timings: Timings,
        reuse: ReuseInfo,
        negative: NegativeInfo,
        gates: Vec<Gate>,
        artifacts: ArtifactInfo,
    ) -> (r: Results)
        ensures
            r.schema@ == "vole-field/results/1"@,
            r.generated_unix_s == generated_unix_s,
            r.host == host,
            r.model == model,
            r.scene == scene,
            r.state == state,
            r.process == process,
            r.work == work,
            r.timing == timings.requests,
            r.fresh_process_end_to_end_ms == timings.end_to_end,
            r.producer_timing_vole == timings.producer_vole,
            r.producer_timing_raw == timings.producer_raw,
            r.reuse == reuse,
            r.negative == negative,
            r.gates == gates,
            r.pass == all_ok(gate_models(gates@)),
            r.artifacts == artifacts,
            r.notes@.len() == 6,
            forall|i: int| 0 <= i < 6 ==> (#[trigger] r.notes@[i])@ == NOTES@[i]@,
    {
        let pass: bool = passed(gates.as_slice());
        Results {
            schema: "vole-field/results/1".to_owned(),
            generated_unix_s,
            host,
            model,
            scene,
            state,
            process,
            work,
            timing: timings.requests,
            fresh_process_end_to_end_ms: timings.end_to_end,
            producer_timing_vole: timings.producer_vole,
            producer_timing_raw: timings.producer_raw,
            reuse,
            negative,
            gates,
            pass,
            artifacts,
            notes: notes(),
        }
    }
}

/// The model's figures are those of its architecture: as many parameters as the shapes have
/// elements, and the arithmetic of its convolutions.
pub proof fn law_model_figures_follow_the_architecture(
    r: ModelInfo,
    checkpoint: Seq<char>,
    producer: ProducerReport,
)
    requires
        is_model_info(r, checkpoint, producer),
    ensures
        r.parameter_count == r.config.parameters(),
        r.step_work.cell_macs == r.config.pixels() * r.config.cell_inputs() * 4
            * r.config.hidden_channels * r.config.taps(),
        r.step_work.cell_bias_adds == r.config.pixels() * 4 * r.config.hidden_channels,
        r.step_work.cell_nonlinearities == 5 * r.config.hidden_channels * r.config.pixels(),
        r.step_work.head_macs == r.config.pixels() * 8 * (r.config.hidden_channels + 2)
            * r.config.taps() + r.config.pixels() * 8,
        r.weights_hash@ == producer.model_weights_hash@,
        r.config_hash@ == producer.model_config_hash@,
        r.checkpoint_file_hash@ == producer.checkpoint_file_hash@,
        r.checkpoint@ == checkpoint,
{
    let c = r.config;
    assert(c.height * c.width == 1024) by (nonlinear_arith)
        requires
            c.height == 32,
            c.width == 32,
    ;
    assert(c.kernel * c.kernel == 9) by (nonlinear_arith)
        requires
            c.kernel == 3,
    ;
    assert(4 * c.hidden_channels * c.cell_inputs() == 352) by (nonlinear_arith)
        requires
            c.hidden_channels == 8,
            c.cell_inputs() == 11,
    ;
    assert(352 * c.taps() == 3168) by (nonlinear_arith)
        requires
            c.taps() == 9,
    ;
    assert(8 * (c.hidden_channels + 2) * c.taps() == 720) by (nonlinear_arith)
        requires
            c.hidden_channels == 8,
            c.taps() == 9,
    ;
    assert(c.pixels() * c.cell_inputs() == 11264) by (nonlinear_arith)
        requires
            c.pixels() == 1024,
            c.cell_inputs() == 11,
    ;
    assert(11264 * 4 * c.hidden_channels * c.taps() == 3244032) by (nonlinear_arith)
        requires
            c.hidden_channels == 8,
            c.taps() == 9,
    ;
}

/// What restoring avoids is what replaying takes more, and nothing where it takes no more.
pub proof fn law_avoided_work_is_a_difference<F: Fn(u64, u64) -> u64>(
    r: WorkInfo,
    baseline: WorkTotals,
    vole: WorkTotals,
    raw: WorkTotals,
    producer: WorkTotals,
    ratio: F,
)
    requires
        is_work_info(r, baseline, vole, raw, producer, ratio),
    ensures
        baseline.cell_steps >= vole.cell_steps ==> r.cell_steps_avoided_per_request
            == baseline.cell_steps - vole.cell_steps,
        baseline.cell_steps < vole.cell_steps ==> r.cell_steps_avoided_per_request == 0,
        baseline.macs >= vole.macs ==> r.macs_avoided_per_request == baseline.macs - vole.macs,
        baseline.macs < vole.macs ==> r.macs_avoided_per_request == 0,
        r.baseline_per_request == baseline,
        r.vole_per_request == vole,
        r.raw_per_request == raw,
        r.producer == producer,
        baseline.macs > 0 ==> call_ensures(
            ratio,
            (r.macs_avoided_per_request, baseline.macs),
            r.macs_avoided_fraction,
        ),
{
}

/// The state's sizes add up, and what the store costs more than a raw file is the difference
/// of the two.
pub proof fn law_state_sizes(
    r: StateInfo,
    producer: ProducerReport,
    restored: Option<String>,
    exact: bool,
)
    requires
        is_state_info(r, producer, restored, exact),
    ensures
        r.vole_record_bytes == r.raw_state_bytes + r.vole_header_bytes,
        r.entropyfs.physical_delta_bytes == r.raw_file_bytes + r.entropyfs.overhead_vs_raw_bytes,
        r.h_bytes == producer.h_bytes,
        r.c_bytes == producer.c_bytes,
        r.carry_bytes == producer.carry_bytes,
        r.raw_state_bytes == producer.raw_state_bytes,
        r.state_hash@ == producer.state_hash@,
        r.restored_state_hash == restored,
        r.state_exact == exact,
        r.state_finite == producer.state_finite,
        r.entropyfs.blob_id@ == producer.blob_id@,
{
}

/// What the results say of the scene and of the processes.
pub proof fn law_scene_and_processes_are_shown(
    r: SceneInfo,
    context_len: usize,
    future_len: usize,
    requests: Vec<RequestIdentity>,
    q: ProcessInfo,
    producer_pid: u32,
    consumers: Consumers,
    verified: usize,
    proc_gone: Option<bool>,
    t: int,
)
    requires
        is_scene_info(r, context_len, future_len, requests),
        is_process_info(q, producer_pid, consumers, verified, proc_gone),
        0 <= t < context_len,
    ensures
        r.id@ == "moving-shape-01"@,
        r.unrelated_id@ == "moving-shape-02"@,
        r.context_len == context_len,
        r.future_len == future_len,
        r.requests == requests,
        expanded(r.context_controls_rle@).len() == context_len,
        expanded(r.context_controls_rle@)[t] == 4 + 3 * context_control(t).turn,
        q.producer_pid == producer_pid,
        q.consumer_pids == consumers,
        q.producer_differs_from_all_consumers <==> !processes(consumers@).contains(producer_pid),
        q.producer_proc_entry_gone == proc_gone,
        q.children_pid_verified == verified,
{
    crate::scene::law_context_is_an_s_curve(t);
    assert(context_codes(context_len as nat)[t] == context_control(t).spec_code() as u8);
}

/// The rest of what is said of the model, the store, the scene and the files: each from where
/// it was measured, and every file in the run's directory.
pub proof fn law_results_show_what_was_measured(
    m: ModelInfo,
    checkpoint: Seq<char>,
    s: StateInfo,
    producer: ProducerReport,
    restored: Option<String>,
    exact: bool,
    a: ArtifactInfo,
    root: Seq<char>,
    montages_identical: bool,
    c: SceneInfo,
    context_len: usize,
    future_len: usize,
    requests: Vec<RequestIdentity>,
)
    requires
        is_model_info(m, checkpoint, producer),
        is_state_info(s, producer, restored, exact),
        is_artifact_info(a, root, montages_identical),
        is_scene_info(c, context_len, future_len, requests),
        root.len() > 0,
        root.last() != '/',
    ensures
        m.checkpoint_bytes == producer.checkpoint_bytes,
        m.step_work.cell_mul_adds == 4 * 8 * 1024,
        m.step_work.head_bias_adds == 2 * 1024,
        m.weights_are_shared_by_both_paths,
        s.raw_file_bytes == producer.raw_file_bytes,
        s.vole_record_bytes == producer.vole_record_bytes,
        s.entropyfs.store_mkfs_bytes == producer.store_mkfs_bytes,
        s.entropyfs.store_bytes_before == producer.store_bytes_before,
        s.entropyfs.store_bytes_after == producer.store_bytes_after,
        s.entropyfs.physical_delta_bytes == producer.store_physical_delta,
        s.entropyfs.engine_physical_used_bytes == producer.engine_physical_used_after,
        s.entropyfs.blob_already_present == producer.blob_already_present,
        s.model_weight_bytes == producer.checkpoint_bytes,
        a.montages_identical == montages_identical,
        a.montage@ == root.push('/') + "branches.ppm"@,
        a.montage_baseline@ == root.push('/') + "branches_baseline.ppm"@,
        a.reuse_csv@ == root.push('/') + "reuse.csv"@,
        a.results_json@ == root.push('/') + "results.json"@,
        a.child_reports@ == root.push('/') + "reports"@,
        c.height == 32 && c.width == 32,
        c.label@ == SceneId::MovingShape01.label_text(),
        c.unrelated_label@ == SceneId::MovingShape02.label_text(),
{
    reveal_strlit("branches.ppm");
    reveal_strlit("branches_baseline.ppm");
    reveal_strlit("reuse.csv");
    reveal_strlit("results.json");
    reveal_strlit("reports");
    crate::experiment::paths::law_joined_paths(root, "branches.ppm"@);
    crate::experiment::paths::law_joined_paths(root, "branches_baseline.ppm"@);
    crate::experiment::paths::law_joined_paths(root, "reuse.csv"@);
    crate::experiment::paths::law_joined_paths(root, "results.json"@);
    crate::experiment::paths::law_joined_paths(root, "reports"@);
}

} // verus!
