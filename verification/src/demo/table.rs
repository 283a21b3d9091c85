//! The summary that a demonstration prints, and its cost table.

use vstd::prelude::*;

use crate::demo::distinct::texts;
use crate::demo::format::{aligned, fmt_bytes, fmt_ms, fmt_ms_opt, grouped, padded, pass_str,
    pass_text, push_aligned, push_count, push_padded, rule, rule_text, shows_bytes, shows_ms,
    shows_ms_opt};
use crate::demo::gates::Gate;
use crate::demo::identity::RequestIdentity;
use crate::demo::negative::or_none;
use crate::demo::pids::{in_order, law_ordered_listing_is_unique, numerals, pid_texts};
use crate::demo::results::Results;
use crate::demo::reuse::ReusePoint;
use crate::demo::consumers::processes;
use crate::experiment::args::opt_text;
use crate::experiment::timing::{across_index, law_first_entry_is_found, producer_once_ms,
    producer_tag, PhaseAcross};
use crate::text::{decimal, decimal_text, leading, push_decimal};

verus! {

// ---------------------------------------------------------------------------
// Shown numbers
// ---------------------------------------------------------------------------

/// The costs of a sweep point, as they are shown.
#[derive(Debug)]
pub struct PointTexts {
    /// Of the replaying requests.
    pub baseline: String,
    /// Of the raw-checkpoint requests.
    pub raw: String,
    /// Of the restoring requests.
    pub vole: String,
}

/// The sizes, times and shares of a summary, as they are shown.
#[derive(Debug)]
pub struct TableTexts {
    /// The recurrent state.
    pub raw_state: String,
    /// `H`.
    pub h: String,
    /// `C`.
    pub c: String,
    /// The carry.
    pub carry: String,
    /// The record.
    pub record: String,
    /// The raw file.
    pub raw_file: String,
    /// An empty store.
    pub mkfs: String,
    /// What the put added to the store.
    pub delta: String,
    /// The store's own figure.
    pub engine: String,
    /// The weights.
    pub weights: String,
    /// The share of avoided multiply-accumulates, in percent.
    pub percent: String,
    /// The request timing table.
    pub timing: Vec<String>,
    /// The table of producers that use the store.
    pub producer_vole: Vec<String>,
    /// The table of producers that write the raw file only.
    pub producer_raw: Vec<String>,
    /// The sweep.
    pub points: Vec<PointTexts>,
    /// One-time cost of the producer that uses the store.
    pub once_vole: String,
    /// One-time cost of the producer that writes the raw file only.
    pub once_raw: String,
}

/// The texts show the medians of a table.
pub open spec fn shows_medians<F: Fn(u64, usize) -> String>(
    t: Seq<String>,
    list: Seq<PhaseAcross>,
    fixed: F,
) -> bool {
    &&& t.len() == list.len()
    &&& forall|i: int| 0 <= i < t.len() ==> shows_ms_opt((#[trigger] t[i])@, list[i].median_ms, fixed)
}

/// The texts show the costs of a sweep.
pub open spec fn shows_points<F: Fn(u64, usize) -> String>(
    t: Seq<PointTexts>,
    points: Seq<ReusePoint>,
    fixed: F,
) -> bool {
    &&& t.len() == points.len()
    &&& forall|i: int|
        0 <= i < t.len() ==> {
            &&& shows_ms((#[trigger] t[i]).baseline@, points[i].c_baseline_ms, fixed)
            &&& shows_ms(t[i].raw@, points[i].c_raw_ms, fixed)
            &&& shows_ms(t[i].vole@, points[i].c_vole_ms, fixed)
        }
}

/// The one-time cost of a producer in a run's tables.
pub open spec fn once(vole: Seq<PhaseAcross>, raw: Seq<PhaseAcross>, which: Seq<char>) -> Option<u64> {
    let tag = producer_tag(which);
    let i = across_index(vole, tag, 0);
    let j = across_index(raw, tag, 0);
    if i < vole.len() {
        vole[i].median_ms
    } else if j < raw.len() {
        raw[j].median_ms
    } else {
        None
    }
}

/// The texts show the numbers of a run.
pub open spec fn shows_results<
    F: Fn(u64, usize) -> String,
    G: Fn(u64, u64, usize) -> String,
    P: Fn(u64) -> String,
>(t: TableTexts, r: Results, fixed: F, quotient: G, percent: P) -> bool {
    &&& shows_bytes(t.raw_state@, r.state.raw_state_bytes as u64, quotient)
    &&& shows_bytes(t.h@, r.state.h_bytes as u64, quotient)
    &&& shows_bytes(t.c@, r.state.c_bytes as u64, quotient)
    &&& shows_bytes(t.carry@, r.state.carry_bytes as u64, quotient)
    &&& shows_bytes(t.record@, r.state.vole_record_bytes as u64, quotient)
    &&& shows_bytes(t.raw_file@, r.state.raw_file_bytes, quotient)
    &&& shows_bytes(t.mkfs@, r.state.entropyfs.store_mkfs_bytes, quotient)
    &&& shows_bytes(t.delta@, r.state.entropyfs.physical_delta_bytes, quotient)
    &&& shows_bytes(t.engine@, r.state.entropyfs.engine_physical_used_bytes, quotient)
    &&& shows_bytes(t.weights@, r.state.model_weight_bytes, quotient)
    &&& call_ensures(percent, (r.work.macs_avoided_fraction,), t.percent)
    &&& shows_medians(t.timing@, r.timing@, fixed)
    &&& shows_medians(t.producer_vole@, r.producer_timing_vole@, fixed)
    &&& shows_medians(t.producer_raw@, r.producer_timing_raw@, fixed)
    &&& shows_points(t.points@, r.reuse.points@, fixed)
    &&& shows_ms_opt(
        t.once_vole@,
        once(r.producer_timing_vole@, r.producer_timing_raw@, "vole"@),
        fixed,
    )
    &&& shows_ms_opt(
        t.once_raw@,
        once(r.producer_timing_vole@, r.producer_timing_raw@, "raw"@),
        fixed,
    )
}

/// The medians of a table, as they are shown.
fn median_texts<F: Fn(u64, usize) -> String + Copy>(list: &Vec<PhaseAcross>, fixed: F) -> (out: Vec<
    String,
>)
    requires
        forall|v: u64, d: usize| call_requires(fixed, (v, d)),
    ensures
        shows_medians(out@, list@, fixed),
{
    let mut out: Vec<String> = Vec::new();
    let mut i: usize = 0;
    while i < list.len()
        invariant
            i <= list@.len(),
            forall|v: u64, d: usize| call_requires(fixed, (v, d)),
            out@.len() == i,
            forall|j: int|
                0 <= j < i ==> shows_ms_opt((#[trigger] out@[j])@, list@[j].median_ms, fixed),
        decreases list@.len() - i,
    {
        out.push(fmt_ms_opt(list[i].median_ms, fixed));
        i = i + 1;
    }
    out
}

/// The costs of a sweep, as they are shown.
fn point_texts<F: Fn(u64, usize) -> String + Copy>(points: &Vec<ReusePoint>, fixed: F) -> (out: Vec<
    PointTexts,
>)
    requires
        forall|v: u64, d: usize| call_requires(fixed, (v, d)),
    ensures
        shows_points(out@, points@, fixed),
{
    let mut out: Vec<PointTexts> = Vec::new();
    let mut i: usize = 0;
    while i < points.len()
        invariant
            i <= points@.len(),
            forall|v: u64, d: usize| call_requires(fixed, (v, d)),
            out@.len() == i,
            shows_points(out@, points@.take(i as int), fixed),
        decreases points@.len() - i,
    {
        let ghost before = out@;
        out.push(
            PointTexts {
                baseline: fmt_ms(points[i].c_baseline_ms, fixed),
                raw: fmt_ms(points[i].c_raw_ms, fixed),
                vole: fmt_ms(points[i].c_vole_ms, fixed),
            },
        );
        assert forall|j: int| 0 <= j < out@.len() implies {
            &&& shows_ms((#[trigger] out@[j]).baseline@, points@.take(i + 1)[j].c_baseline_ms, fixed)
            &&& shows_ms(out@[j].raw@, points@.take(i + 1)[j].c_raw_ms, fixed)
            &&& shows_ms(out@[j].vole@, points@.take(i + 1)[j].c_vole_ms, fixed)
        } by {
            if j < i {
                assert(out@[j] == before[j]);
                assert(points@.take(i as int)[j] == points@[j]);
            }
        }
        i = i + 1;
    }
    assert(points@.take(i as int) =~= points@);
    out
}

/// The numbers of a run, as they are shown, with `fixed` for the digits of a
/// number, `quotient` for those of a quotient and `percent` for those of a share.
pub fn table_texts<
    F: Fn(u64, usize) -> String + Copy,
    G: Fn(u64, u64, usize) -> String + Copy,
    P: Fn(u64) -> String,
>(r: &Results, fixed: F, quotient: G, percent: P) -> (t: TableTexts)
    requires
        forall|v: u64, d: usize| call_requires(fixed, (v, d)),
        forall|v: u64, by: u64, d: usize| by != 0 ==> call_requires(quotient, (v, by, d)),
        forall|v: u64| call_requires(percent, (v,)),
    ensures
        shows_results(t, *r, fixed, quotient, percent),
{
    let once_vole = producer_once_ms(
        r.producer_timing_vole.as_slice(),
        r.producer_timing_raw.as_slice(),
        "vole",
    );
    let once_raw = producer_once_ms(
        r.producer_timing_vole.as_slice(),
        r.producer_timing_raw.as_slice(),
        "raw",
    );
    TableTexts {
        raw_state: fmt_bytes(r.state.raw_state_bytes as u64, quotient),
        h: fmt_bytes(r.state.h_bytes as u64, quotient),
        c: fmt_bytes(r.state.c_bytes as u64, quotient),
        carry: fmt_bytes(r.state.carry_bytes as u64, quotient),
        record: fmt_bytes(r.state.vole_record_bytes as u64, quotient),
        raw_file: fmt_bytes(r.state.raw_file_bytes, quotient),
        mkfs: fmt_bytes(r.state.entropyfs.store_mkfs_bytes, quotient),
        delta: fmt_bytes(r.state.entropyfs.physical_delta_bytes, quotient),
        engine: fmt_bytes(r.state.entropyfs.engine_physical_used_bytes, quotient),
        weights: fmt_bytes(r.state.model_weight_bytes, quotient),
        percent: percent(r.work.macs_avoided_fraction),
        timing: median_texts(&r.timing, fixed),
        producer_vole: median_texts(&r.producer_timing_vole, fixed),
        producer_raw: median_texts(&r.producer_timing_raw, fixed),
        points: point_texts(&r.reuse.points, fixed),
        once_vole: fmt_ms_opt(once_vole, fixed),
        once_raw: fmt_ms_opt(once_raw, fixed),
    }
}

// ---------------------------------------------------------------------------
// Sections
// ---------------------------------------------------------------------------

/// The heading: model, device, scene and lengths.
pub open spec fn heading_lines(r: Results) -> Seq<Seq<char>> {
    seq![
        Seq::empty(),
        rule_text(78),
        "VOLE-FIELD - DURABLE GENERATIVE-STATE REUSE"@,
        rule_text(78),
        "model:             tiny ConvLSTM ("@ + grouped(decimal(r.model.parameter_count as nat)) + " params, "@ + decimal(r.model.config.hidden_channels as nat) + " hidden ch, "@ + decimal(r.model.config.kernel as nat) + "x"@ + decimal(r.model.config.kernel as nat) + " kernels)"@,
        "device:            CPU (no hardware accelerator)"@,
        "scene:             "@ + r.scene.id@,
        "context frames:    "@ + decimal(r.scene.context_len as nat),
        "future frames:     "@ + decimal(r.scene.future_len as nat),
        Seq::empty(),
    ]
}

/// The heading: model, device, scene and lengths.
fn heading(r: &Results) -> (out: Vec<String>)
    ensures
        texts(out@) == heading_lines(*r),
{
    let mut out: Vec<String> = Vec::new();
    out.push(String::new());
    out.push(rule(78));
    out.push("VOLE-FIELD - DURABLE GENERATIVE-STATE REUSE".to_owned());
    out.push(rule(78));
    let mut s: String = "model:             tiny ConvLSTM (".to_owned();
    push_count(&mut s, r.model.parameter_count as u64);
    s.append(" params, ");
    push_decimal(&mut s, r.model.config.hidden_channels as u64);
    s.append(" hidden ch, ");
    push_decimal(&mut s, r.model.config.kernel as u64);
    s.append("x");
    push_decimal(&mut s, r.model.config.kernel as u64);
    s.append(" kernels)");
    out.push(s);
    out.push("device:            CPU (no hardware accelerator)".to_owned());
    let mut s: String = "scene:             ".to_owned();
    s.append(r.scene.id.as_str());
    out.push(s);
    let mut s: String = "context frames:    ".to_owned();
    push_decimal(&mut s, r.scene.context_len as u64);
    out.push(s);
    let mut s: String = "future frames:     ".to_owned();
    push_decimal(&mut s, r.scene.future_len as u64);
    out.push(s);
    out.push(String::new());
    assert(texts(out@) =~= heading_lines(*r));
    out
}

/// The byte accounting.
pub open spec fn state_section_lines(r: Results, t: TableTexts) -> Seq<Seq<char>> {
    seq![
        "STATE"@,
        "raw recurrent state:       "@ + t.raw_state@,
        "  H:                       "@ + t.h@ + "   C: "@ + t.c@,
        "  carry (last two frames): "@ + t.carry@,
        "VOLE logical blob:         "@ + t.record@ + " ("@ + decimal(r.state.vole_header_bytes as nat) + " header + payload)"@,
        "raw checkpoint file:       "@ + t.raw_file@,
        "EntropyFS mkfs floor:      "@ + t.mkfs@,
        "EntropyFS physical delta:  "@ + t.delta@,
        "EntropyFS engine figure:   "@ + t.engine@,
        "model weights (shared):    "@ + t.weights@,
        Seq::empty(),
    ]
}

/// The byte accounting.
fn state_section(r: &Results, t: &TableTexts) -> (out: Vec<String>)
    ensures
        texts(out@) == state_section_lines(*r, *t),
{
    let mut out: Vec<String> = Vec::new();
    out.push("STATE".to_owned());
    let mut s: String = "raw recurrent state:       ".to_owned();
    s.append(t.raw_state.as_str());
    out.push(s);
    let mut s: String = "  H:                       ".to_owned();
    s.append(t.h.as_str());
    s.append("   C: ");
    s.append(t.c.as_str());
    out.push(s);
    let mut s: String = "  carry (last two frames): ".to_owned();
    s.append(t.carry.as_str());
    out.push(s);
    let mut s: String = "VOLE logical blob:         ".to_owned();
    s.append(t.record.as_str());
    s.append(" (");
    push_decimal(&mut s, r.state.vole_header_bytes as u64);
    s.append(" header + payload)");
    out.push(s);
    let mut s: String = "raw checkpoint file:       ".to_owned();
    s.append(t.raw_file.as_str());
    out.push(s);
    let mut s: String = "EntropyFS mkfs floor:      ".to_owned();
    s.append(t.mkfs.as_str());
    out.push(s);
    let mut s: String = "EntropyFS physical delta:  ".to_owned();
    s.append(t.delta.as_str());
    out.push(s);
    let mut s: String = "EntropyFS engine figure:   ".to_owned();
    s.append(t.engine.as_str());
    out.push(s);
    let mut s: String = "model weights (shared):    ".to_owned();
    s.append(t.weights.as_str());
    out.push(s);
    out.push(String::new());
    assert(texts(out@) =~= state_section_lines(*r, *t));
    out
}

/// Texts with spaces between them.
pub open spec fn spaced(list: Seq<Seq<char>>) -> Seq<char>
    decreases list.len(),
{
    if list.len() == 0 {
        Seq::empty()
    } else if list.len() == 1 {
        list[0]
    } else {
        spaced(list.drop_last()) + " "@ + list.last()
    }
}

/// Appends texts with spaces between them.
fn push_spaced(out: &mut String, list: &Vec<String>)
    ensures
        final(out)@ == old(out)@ + spaced(texts(list@)),
{
    let ghost all = texts(list@);
    let mut i: usize = 0;
    assert(all.take(0) =~= Seq::<Seq<char>>::empty());
    assert(out@ =~= old(out)@ + spaced(all.take(0)));
    while i < list.len()
        invariant
            i <= list@.len(),
            all == texts(list@),
            out@ == old(out)@ + spaced(all.take(i as int)),
        decreases list@.len() - i,
    {
        let ghost before = out@;
        if i > 0 {
            out.append(" ");
        }
        out.append(list[i].as_str());
        proof {
            let longer = all.take(i + 1);
            assert(longer.drop_last() =~= all.take(i as int));
            assert(longer.last() == list@[i as int]@);
            if i == 0 {
                assert(out@ =~= old(out)@ + longer[0]);
            } else {
                assert(out@ =~= old(out)@ + (spaced(all.take(i as int)) + " "@ + longer.last()));
            }
        }
        i = i + 1;
    }
    assert(all.take(i as int) =~= all);
}

/// The different process ids of a list as texts, in order.
pub open spec fn pid_listing(pids: Seq<u32>) -> Seq<Seq<char>> {
    choose|s: Seq<Seq<char>>| #[trigger] in_order(s) && s.to_set() == numerals(pids).to_set()
}

/// The line that lists the consumers.
pub open spec fn consumers_line(pids: Seq<u32>) -> Seq<char> {
    let list = pid_listing(pids);
    "consumer pids ("@ + decimal(list.len()) + " distinct): "@ + spaced(list)
}

/// The processes.
pub open spec fn process_lines(r: Results) -> Seq<Seq<char>> {
    seq![
        "PROCESS"@,
        "producer pid:              "@ + decimal(r.process.producer_pid as nat),
        consumers_line(processes(r.process.consumer_pids@)),
        "fresh process:             "@ + pass_text(r.process.producer_differs_from_all_consumers),
        Seq::empty(),
    ]
}

/// The processes.
fn process(r: &Results) -> (out: Vec<String>)
    ensures
        texts(out@) == process_lines(*r),
{
    let mut out: Vec<String> = Vec::new();
    out.push("PROCESS".to_owned());
    let mut s: String = "producer pid:              ".to_owned();
    push_decimal(&mut s, r.process.producer_pid as u64);
    out.push(s);
    let pids = r.process.consumer_pids.pids();
    let list = pid_texts(pids.as_slice());
    proof {
        let chosen = pid_listing(pids@);
        assert(in_order(texts(list@)));
        law_ordered_listing_is_unique(texts(list@), chosen);
    }
    let mut s: String = "consumer pids (".to_owned();
    push_decimal(&mut s, list.len() as u64);
    s.append(" distinct): ");
    push_spaced(&mut s, &list);
    out.push(s);
    let mut s: String = "fresh process:             ".to_owned();
    s.append(pass_str(r.process.producer_differs_from_all_consumers));
    out.push(s);
    out.push(String::new());
    assert(texts(out@) =~= process_lines(*r));
    out
}

/// The hashes.
pub open spec fn identity_lines(r: Results) -> Seq<Seq<char>> {
    seq![
        "IDENTITY"@,
        "model weights hash:        "@ + r.model.weights_hash@,
        "checkpoint file hash:      "@ + r.model.checkpoint_file_hash@,
        "original state hash:       "@ + r.state.state_hash@,
        "restored state hash:       "@ + or_none(opt_text(r.state.restored_state_hash)),
        "state exact:               "@ + pass_text(r.state.state_exact),
        "state finite:              "@ + pass_text(r.state.state_finite),
        Seq::empty(),
        "REQUESTS (same earned state, related futures)"@,
    ]
}

/// The hashes.
fn identity(r: &Results) -> (out: Vec<String>)
    ensures
        texts(out@) == identity_lines(*r),
{
    let mut out: Vec<String> = Vec::new();
    out.push("IDENTITY".to_owned());
    let mut s: String = "model weights hash:        ".to_owned();
    s.append(r.model.weights_hash.as_str());
    out.push(s);
    let mut s: String = "checkpoint file hash:      ".to_owned();
    s.append(r.model.checkpoint_file_hash.as_str());
    out.push(s);
    let mut s: String = "original state hash:       ".to_owned();
    s.append(r.state.state_hash.as_str());
    out.push(s);
    let mut s: String = "restored state hash:       ".to_owned();
    match &r.state.restored_state_hash {
        Some(h) => s.append(h.as_str()),
        None => s.append("<none>"),
    }
    out.push(s);
    let mut s: String = "state exact:               ".to_owned();
    s.append(pass_str(r.state.state_exact));
    out.push(s);
    let mut s: String = "state finite:              ".to_owned();
    s.append(pass_str(r.state.state_finite));
    out.push(s);
    out.push(String::new());
    out.push("REQUESTS (same earned state, related futures)".to_owned());
    assert(texts(out@) =~= identity_lines(*r));
    out
}

/// How one request compared.
pub open spec fn request_line(q: RequestIdentity) -> Seq<char> {
    "  "@ + padded(q.request@, 14) + " baseline "@ + q.baseline_hash@.take(12) + " vole "@
        + q.vole_hash@.take(12) + " raw "@ + q.raw_hash@.take(12) + "  identical "@ + pass_text(
        q.byte_identical,
    )
}

/// The hashes of a request are long enough to be shortened.
pub open spec fn hashes_given(q: RequestIdentity) -> bool {
    q.baseline_hash@.len() >= 12 && q.vole_hash@.len() >= 12 && q.raw_hash@.len() >= 12
}

/// How the requests compared.
fn requests(list: &Vec<RequestIdentity>) -> (out: Vec<String>)
    requires
        forall|i: int| 0 <= i < list@.len() ==> hashes_given(#[trigger] list@[i]),
    ensures
        texts(out@) == list@.map_values(|q: RequestIdentity| request_line(q)),
{
    let mut out: Vec<String> = Vec::new();
    let mut i: usize = 0;
    while i < list.len()
        invariant
            i <= list@.len(),
            forall|i: int| 0 <= i < list@.len() ==> hashes_given(#[trigger] list@[i]),
            out@.len() == i,
            forall|j: int| 0 <= j < i ==> (#[trigger] out@[j])@ == request_line(list@[j]),
        decreases list@.len() - i,
    {
        let q = &list[i];
        assert(hashes_given(list@[i as int]));
        let mut s: String = "  ".to_owned();
        push_padded(&mut s, q.request.as_str(), 14);
        s.append(" baseline ");
        s.append(leading(q.baseline_hash.as_str(), 12).as_str());
        s.append(" vole ");
        s.append(leading(q.vole_hash.as_str(), 12).as_str());
        s.append(" raw ");
        s.append(leading(q.raw_hash.as_str(), 12).as_str());
        s.append("  identical ");
        s.append(pass_str(q.byte_identical));
        out.push(s);
        i = i + 1;
    }
    assert(texts(out@) =~= list@.map_values(|q: RequestIdentity| request_line(q)));
    out
}

/// The model work per request.
pub open spec fn work_lines(r: Results, t: TableTexts) -> Seq<Seq<char>> {
    seq![
        Seq::empty(),
        "MODEL WORK (per request)"@,
        "cell step arithmetic:      "@ + grouped(decimal(r.model.step_work.cell_macs as nat)) + " gate + "@ + grouped(decimal(r.model.step_work.head_macs as nat)) + " head = "@ + grouped(decimal((r.model.step_work.cell_macs + r.model.step_work.head_macs) as nat)) + " MACs, "@ + grouped(decimal(r.model.step_work.cell_nonlinearities as nat)) + " nonlinearities"@,
        "baseline cell steps:       "@ + grouped(decimal(r.work.baseline_per_request.cell_steps as nat)) + "  ("@ + grouped(decimal(r.work.baseline_per_request.head_applications as nat)) + " head applications)"@,
        "VOLE cell steps:           "@ + grouped(decimal(r.work.vole_per_request.cell_steps as nat)) + "  ("@ + grouped(decimal(r.work.vole_per_request.head_applications as nat)) + " head applications)"@,
        "cell steps avoided:        "@ + grouped(decimal(r.work.cell_steps_avoided_per_request as nat)),
        "baseline model MACs:       "@ + grouped(decimal(r.work.baseline_per_request.macs as nat)),
        "VOLE model MACs:           "@ + grouped(decimal(r.work.vole_per_request.macs as nat)),
        "model MACs avoided:        "@ + grouped(decimal(r.work.macs_avoided_per_request as nat)) + "  ("@ + t.percent@ + "% of baseline)"@,
        Seq::empty(),
        "TIMING"@,
    ]
}

/// The model work per request.
fn work(r: &Results, t: &TableTexts) -> (out: Vec<String>)
    requires
        r.model.step_work.cell_macs + r.model.step_work.head_macs <= u64::MAX,
    ensures
        texts(out@) == work_lines(*r, *t),
{
    let mut out: Vec<String> = Vec::new();
    out.push(String::new());
    out.push("MODEL WORK (per request)".to_owned());
    let mut s: String = "cell step arithmetic:      ".to_owned();
    push_count(&mut s, r.model.step_work.cell_macs);
    s.append(" gate + ");
    push_count(&mut s, r.model.step_work.head_macs);
    s.append(" head = ");
    push_count(&mut s, r.model.step_work.cell_macs + r.model.step_work.head_macs);
    s.append(" MACs, ");
    push_count(&mut s, r.model.step_work.cell_nonlinearities);
    s.append(" nonlinearities");
    out.push(s);
    let mut s: String = "baseline cell steps:       ".to_owned();
    push_count(&mut s, r.work.baseline_per_request.cell_steps);
    s.append("  (");
    push_count(&mut s, r.work.baseline_per_request.head_applications);
    s.append(" head applications)");
    out.push(s);
    let mut s: String = "VOLE cell steps:           ".to_owned();
    push_count(&mut s, r.work.vole_per_request.cell_steps);
    s.append("  (");
    push_count(&mut s, r.work.vole_per_request.head_applications);
    s.append(" head applications)");
    out.push(s);
    let mut s: String = "cell steps avoided:        ".to_owned();
    push_count(&mut s, r.work.cell_steps_avoided_per_request);
    out.push(s);
    let mut s: String = "baseline model MACs:       ".to_owned();
    push_count(&mut s, r.work.baseline_per_request.macs);
    out.push(s);
    let mut s: String = "VOLE model MACs:           ".to_owned();
    push_count(&mut s, r.work.vole_per_request.macs);
    out.push(s);
    let mut s: String = "model MACs avoided:        ".to_owned();
    push_count(&mut s, r.work.macs_avoided_per_request);
    s.append("  (");
    s.append(t.percent.as_str());
    s.append("% of baseline)");
    out.push(s);
    out.push(String::new());
    out.push("TIMING".to_owned());
    assert(texts(out@) =~= work_lines(*r, *t));
    out
}

/// One line for each entry of a timing table.
pub open spec fn timing_lines(list: Seq<PhaseAcross>, t: Seq<String>) -> Seq<Seq<char>> {
    Seq::new(list.len(), |i: int| "  "@ + padded(list[i].phase@, 40) + " "@ + t[i]@)
}

/// One line for each entry of a timing table.
fn timing(list: &Vec<PhaseAcross>, t: &Vec<String>) -> (out: Vec<String>)
    requires
        t@.len() == list@.len(),
    ensures
        texts(out@) == timing_lines(list@, t@),
{
    let mut out: Vec<String> = Vec::new();
    let mut i: usize = 0;
    while i < list.len()
        invariant
            i <= list@.len(),
            t@.len() == list@.len(),
            out@.len() == i,
            forall|j: int| 0 <= j < i ==> (#[trigger] out@[j])@ == timing_lines(list@, t@)[j],
        decreases list@.len() - i,
    {
        let mut s: String = "  ".to_owned();
        push_padded(&mut s, list[i].phase.as_str(), 40);
        s.append(" ");
        s.append(t[i].as_str());
        out.push(s);
        i = i + 1;
    }
    assert(texts(out@) =~= timing_lines(list@, t@));
    out
}

/// A row of the sweep's table.
pub open spec fn sweep_row(n: Seq<char>, a: Seq<char>, b: Seq<char>, c: Seq<char>) -> Seq<char> {
    "  "@ + padded(n, 4) + " "@ + aligned(a, 14) + " "@ + aligned(b, 14) + " "@ + aligned(c, 14)
}

/// A row of the sweep's table.
fn row(n: &str, a: &str, b: &str, c: &str) -> (s: String)
    ensures
        s@ == sweep_row(n@, a@, b@, c@),
{
    let mut s: String = "  ".to_owned();
    push_padded(&mut s, n, 4);
    s.append(" ");
    push_aligned(&mut s, a, 14);
    s.append(" ");
    push_aligned(&mut s, b, 14);
    s.append(" ");
    push_aligned(&mut s, c, 14);
    s
}

/// The rows of the sweep's table.
pub open spec fn sweep_rows(points: Seq<ReusePoint>, t: Seq<PointTexts>) -> Seq<Seq<char>> {
    Seq::new(
        points.len(),
        |i: int| sweep_row(decimal(points[i].n as nat), t[i].baseline@, t[i].raw@, t[i].vole@),
    )
}

/// The sweep's table.
pub open spec fn sweep_lines(points: Seq<ReusePoint>, t: Seq<PointTexts>) -> Seq<Seq<char>> {
    seq![
        Seq::empty(),
        "REUSE (cumulative cost of N related requests, one process each)"@,
        sweep_row("N"@, "baseline"@, "raw ckpt"@, "VOLE"@),
    ] + sweep_rows(points, t)
}

/// The sweep's table.
fn sweep(points: &Vec<ReusePoint>, t: &Vec<PointTexts>) -> (out: Vec<String>)
    requires
        t@.len() == points@.len(),
    ensures
        texts(out@) == sweep_lines(points@, t@),
{
    let mut out: Vec<String> = Vec::new();
    out.push(String::new());
    out.push("REUSE (cumulative cost of N related requests, one process each)".to_owned());
    out.push(row("N", "baseline", "raw ckpt", "VOLE"));
    let mut i: usize = 0;
    while i < points.len()
        invariant
            i <= points@.len(),
            t@.len() == points@.len(),
            out@.len() == 3 + i,
            forall|j: int| 0 <= j < 3 + i ==> (#[trigger] out@[j])@ == sweep_lines(points@, t@)[j],
        decreases points@.len() - i,
    {
        let n = decimal_text(points[i].n as u64);
        out.push(row(n.as_str(), t[i].baseline.as_str(), t[i].raw.as_str(), t[i].vole.as_str()));
        i = i + 1;
    }
    assert(texts(out@) =~= sweep_lines(points@, t@));
    out
}

/// How the break-even point is shown.
pub open spec fn break_even(n_star: Option<usize>, tested: Seq<usize>) -> Seq<char> {
    match n_star {
        Some(n) => decimal(n as nat),
        None => "> "@ + decimal(
            if tested.len() > 0 {
                tested.last() as nat
            } else {
                0
            },
        ),
    }
}

/// The costs that are paid once, and where reuse breaks even.
pub open spec fn break_even_lines(r: Results, t: TableTexts) -> Seq<Seq<char>> {
    seq![
        "  one-time VOLE producer:    "@ + t.once_vole@ + "   one-time raw producer: "@ + t.once_raw@,
        "  reuse break-even N*:       "@ + break_even(r.reuse.n_star, r.reuse.n_points@),
        "  "@ + r.reuse.n_star_note@,
        Seq::empty(),
    ]
}

/// The costs that are paid once, and where reuse breaks even.
fn break_even_section(r: &Results, t: &TableTexts) -> (out: Vec<String>)
    ensures
        texts(out@) == break_even_lines(*r, *t),
{
    let mut out: Vec<String> = Vec::new();
    let mut s: String = "  one-time VOLE producer:    ".to_owned();
    s.append(t.once_vole.as_str());
    s.append("   one-time raw producer: ");
    s.append(t.once_raw.as_str());
    out.push(s);
    let mut s: String = "  reuse break-even N*:       ".to_owned();
    match r.reuse.n_star {
        Some(n) => {
            push_decimal(&mut s, n as u64);
        },
        None => {
            let k: usize = r.reuse.n_points.len();
            let last: usize = if k > 0 {
                r.reuse.n_points[k - 1]
            } else {
                0
            };
            s.append("> ");
            push_decimal(&mut s, last as u64);
        },
    }
    assert(s@ =~= break_even_lines(*r, *t)[1]);
    out.push(s);
    let mut s: String = "  ".to_owned();
    s.append(r.reuse.n_star_note.as_str());
    out.push(s);
    out.push(String::new());
    assert(texts(out@) =~= break_even_lines(*r, *t));
    out
}

/// The negative case.
pub open spec fn negative_lines(r: Results) -> Seq<Seq<char>> {
    seq![
        "NEGATIVE CASE"@,
        "requested scene:           "@ + r.negative.requested_scene@,
        "offered state's scene:     "@ + r.negative.offered_scene@,
        if r.negative.rejected {
            "reuse:                     rejected"@
        } else {
            "reuse:                     accepted (FAIL)"@
        },
        "failing check:             "@ + r.negative.rejection@,
        "fallback:                  "@ + r.negative.fallback@,
        "fallback equals baseline:  "@ + pass_text(r.negative.fallback_matches_baseline),
        "cell steps executed:       "@ + grouped(decimal(r.negative.cell_steps_executed as nat)),
        Seq::empty(),
        "CORRECTNESS GATES"@,
    ]
}

/// The negative case.
fn negative(r: &Results) -> (out: Vec<String>)
    ensures
        texts(out@) == negative_lines(*r),
{
    let mut out: Vec<String> = Vec::new();
    out.push("NEGATIVE CASE".to_owned());
    let mut s: String = "requested scene:           ".to_owned();
    s.append(r.negative.requested_scene.as_str());
    out.push(s);
    let mut s: String = "offered state's scene:     ".to_owned();
    s.append(r.negative.offered_scene.as_str());
    out.push(s);
    if r.negative.rejected {
        out.push("reuse:                     rejected".to_owned());
    } else {
        out.push("reuse:                     accepted (FAIL)".to_owned());
    }
    let mut s: String = "failing check:             ".to_owned();
    s.append(r.negative.rejection.as_str());
    out.push(s);
    let mut s: String = "fallback:                  ".to_owned();
    s.append(r.negative.fallback.as_str());
    out.push(s);
    let mut s: String = "fallback equals baseline:  ".to_owned();
    s.append(pass_str(r.negative.fallback_matches_baseline));
    out.push(s);
    let mut s: String = "cell steps executed:       ".to_owned();
    push_count(&mut s, r.negative.cell_steps_executed);
    out.push(s);
    out.push(String::new());
    out.push("CORRECTNESS GATES".to_owned());
    assert(texts(out@) =~= negative_lines(*r));
    out
}

/// One line for each gate.
pub open spec fn gate_lines(gates: Seq<Gate>) -> Seq<Seq<char>> {
    Seq::new(gates.len(), |i: int| "  ["@ + pass_text(gates[i].ok) + "] "@ + gates[i].name@)
}

/// One line for each gate.
fn gate_section(gates: &Vec<Gate>) -> (out: Vec<String>)
    ensures
        texts(out@) == gate_lines(gates@),
{
    let mut out: Vec<String> = Vec::new();
    let mut i: usize = 0;
    while i < gates.len()
        invariant
            i <= gates@.len(),
            out@.len() == i,
            forall|j: int| 0 <= j < i ==> (#[trigger] out@[j])@ == gate_lines(gates@)[j],
        decreases gates@.len() - i,
    {
        let mut s: String = "  [".to_owned();
        s.append(pass_str(gates[i].ok));
        s.append("] ");
        s.append(gates[i].name.as_str());
        out.push(s);
        i = i + 1;
    }
    assert(texts(out@) =~= gate_lines(gates@));
    out
}

/// The outcome, and where the artifacts are.
pub open spec fn closing_lines(r: Results, root: &str) -> Seq<Seq<char>> {
    seq![
        "  overall: "@ + pass_text(r.pass),
        rule_text(78),
        "artifacts: "@ + root@,
        "  results.json  "@ + r.artifacts.results_json@,
        "  reuse.csv     "@ + r.artifacts.reuse_csv@,
        "  montage       "@ + r.artifacts.montage@,
        "  child reports "@ + r.artifacts.child_reports@,
        rule_text(78),
    ]
}

/// The outcome, and where the artifacts are.
fn closing(r: &Results, root: &str) -> (out: Vec<String>)
    ensures
        texts(out@) == closing_lines(*r, root),
{
    let mut out: Vec<String> = Vec::new();
    let mut s: String = "  overall: ".to_owned();
    s.append(pass_str(r.pass));
    out.push(s);
    out.push(rule(78));
    let mut s: String = "artifacts: ".to_owned();
    s.append(root);
    out.push(s);
    let mut s: String = "  results.json  ".to_owned();
    s.append(r.artifacts.results_json.as_str());
    out.push(s);
    let mut s: String = "  reuse.csv     ".to_owned();
    s.append(r.artifacts.reuse_csv.as_str());
    out.push(s);
    let mut s: String = "  montage       ".to_owned();
    s.append(r.artifacts.montage.as_str());
    out.push(s);
    let mut s: String = "  child reports ".to_owned();
    s.append(r.artifacts.child_reports.as_str());
    out.push(s);
    out.push(rule(78));
    assert(texts(out@) =~= closing_lines(*r, root));
    out
}

/// The whole summary, line by line.
pub open spec fn table(r: Results, root: &str, t: TableTexts) -> Seq<Seq<char>> {
    heading_lines(r) + state_section_lines(r, t) + process_lines(r) + identity_lines(r)
        + r.scene.requests@.map_values(|q: RequestIdentity| request_line(q)) + work_lines(r, t)
        + timing_lines(r.timing@, t.timing@) + timing_lines(r.producer_timing_vole@, t.producer_vole@)
        + timing_lines(r.producer_timing_raw@, t.producer_raw@) + sweep_lines(
        r.reuse.points@,
        t.points@,
    ) + break_even_lines(r, t) + negative_lines(r) + gate_lines(r.gates@) + closing_lines(r, root)
}

/// Appends lines.
fn extend(out: &mut Vec<String>, lines: Vec<String>)
    ensures
        texts(final(out)@) == texts(old(out)@) + texts(lines@),
{
    let mut rest = lines;
    out.append(&mut rest);
    assert(texts(out@) =~= texts(old(out)@) + texts(lines@));
}

/// The whole summary, line by line.
pub fn table_lines(r: &Results, root: &str, t: &TableTexts) -> (out: Vec<String>)
    requires
        forall|i: int| 0 <= i < r.scene.requests@.len() ==> hashes_given(#[trigger] r.scene.requests@[i]),
        r.model.step_work.cell_macs + r.model.step_work.head_macs <= u64::MAX,
        t.timing@.len() == r.timing@.len(),
        t.producer_vole@.len() == r.producer_timing_vole@.len(),
        t.producer_raw@.len() == r.producer_timing_raw@.len(),
        t.points@.len() == r.reuse.points@.len(),
    ensures
        texts(out@) == table(*r, root, *t),
{
    let mut out = heading(r);
    extend(&mut out, state_section(r, t));
    extend(&mut out, process(r));
    extend(&mut out, identity(r));
    extend(&mut out, requests(&r.scene.requests));
    extend(&mut out, work(r, t));
    extend(&mut out, timing(&r.timing, &t.timing));
    extend(&mut out, timing(&r.producer_timing_vole, &t.producer_vole));
    extend(&mut out, timing(&r.producer_timing_raw, &t.producer_raw));
    extend(&mut out, sweep(&r.reuse.points, &t.points));
    extend(&mut out, break_even_section(r, t));
    extend(&mut out, negative(r));
    extend(&mut out, gate_section(&r.gates));
    extend(&mut out, closing(r, root));
    out
}

// ---------------------------------------------------------------------------
// The cost table
// ---------------------------------------------------------------------------

/// The cost table of a sweep, from costs that are shown with three decimals.
pub open spec fn csv(points: Seq<ReusePoint>, t: Seq<PointTexts>) -> Seq<char>
    decreases points.len(),
{
    if points.len() == 0 {
        "N,baseline_ms,raw_checkpoint_ms,vole_ms\n"@
    } else {
        csv(points.drop_last(), t.drop_last()) + decimal(points.last().n as nat) + ","@
            + t.last().baseline@ + ","@ + t.last().raw@ + ","@ + t.last().vole@ + "\n"@
    }
}

/// The texts are the costs of a sweep with three decimals.
pub open spec fn shows_costs<F: Fn(u64, usize) -> String>(
    t: Seq<PointTexts>,
    points: Seq<ReusePoint>,
    fixed: F,
) -> bool {
    &&& t.len() == points.len()
    &&& forall|i: int|
        0 <= i < t.len() ==> {
            &&& call_ensures(fixed, (points[i].c_baseline_ms, 3), (#[trigger] t[i]).baseline)
            &&& call_ensures(fixed, (points[i].c_raw_ms, 3), t[i].raw)
            &&& call_ensures(fixed, (points[i].c_vole_ms, 3), t[i].vole)
        }
}

/// The costs of a sweep, with three decimals.
pub fn cost_texts<F: Fn(u64, usize) -> String>(points: &Vec<ReusePoint>, fixed: F) -> (out: Vec<
    PointTexts,
>)
    requires
        forall|v: u64, d: usize| call_requires(fixed, (v, d)),
    ensures
        shows_costs(out@, points@, fixed),
{
    let mut out: Vec<PointTexts> = Vec::new();
    let mut i: usize = 0;
    while i < points.len()
        invariant
            i <= points@.len(),
            forall|v: u64, d: usize| call_requires(fixed, (v, d)),
            out@.len() == i,
            shows_costs(out@, points@.take(i as int), fixed),
        decreases points@.len() - i,
    {
        let ghost before = out@;
        out.push(
            PointTexts {
                baseline: fixed(points[i].c_baseline_ms, 3),
                raw: fixed(points[i].c_raw_ms, 3),
                vole: fixed(points[i].c_vole_ms, 3),
            },
        );
        assert forall|j: int| 0 <= j < out@.len() implies {
            &&& call_ensures(
                fixed,
                (points@.take(i + 1)[j].c_baseline_ms, 3),
                (#[trigger] out@[j]).baseline,
            )
            &&& call_ensures(fixed, (points@.take(i + 1)[j].c_raw_ms, 3), out@[j].raw)
            &&& call_ensures(fixed, (points@.take(i + 1)[j].c_vole_ms, 3), out@[j].vole)
        } by {
            if j < i {
                assert(out@[j] == before[j]);
                assert(points@.take(i as int)[j] == points@[j]);
            }
        }
        i = i + 1;
    }
    assert(points@.take(i as int) =~= points@);
    out
}

/// The cost table of a sweep.
pub fn csv_text(points: &Vec<ReusePoint>, t: &Vec<PointTexts>) -> (s: String)
    requires
        t@.len() == points@.len(),
    ensures
        s@ == csv(points@, t@),
{
    let mut s: String = "N,baseline_ms,raw_checkpoint_ms,vole_ms\n".to_owned();
    let mut i: usize = 0;
    assert(s@ == csv(points@.take(0), t@.take(0)));
    while i < points.len()
        invariant
            i <= points@.len(),
            t@.len() == points@.len(),
            s@ == csv(points@.take(i as int), t@.take(i as int)),
        decreases points@.len() - i,
    {
        proof {
            assert(points@.take(i + 1).drop_last() =~= points@.take(i as int));
            assert(t@.take(i + 1).drop_last() =~= t@.take(i as int));
        }
        push_decimal(&mut s, points[i].n as u64);
        s.append(",");
        s.append(t[i].baseline.as_str());
        s.append(",");
        s.append(t[i].raw.as_str());
        s.append(",");
        s.append(t[i].vole.as_str());
        s.append("\n");
        i = i + 1;
    }
    assert(points@.take(i as int) =~= points@);
    assert(t@.take(i as int) =~= t@);
    s
}

// ---------------------------------------------------------------------------
// What the table says
// ---------------------------------------------------------------------------

/// The table ends with a line for each gate, which says whether it passed, and under them the
/// overall verdict.
pub proof fn law_table_ends_with_the_verdict(r: Results, root: &str, t: TableTexts, i: int)
    requires
        0 <= i < r.gates@.len(),
    ensures
        ({
            let lines = table(r, root, t);
            let n = lines.len();
            let g = r.gates@.len();
            &&& n >= g + 8
            &&& r.pass ==> lines[n - 8] == "  overall: "@ + "PASS"@
            &&& !r.pass ==> lines[n - 8] == "  overall: "@ + "FAIL"@
            &&& r.gates@[i].ok ==> lines[n - 8 - g + i] == "  ["@ + "PASS"@ + "] "@
                + r.gates@[i].name@
            &&& !r.gates@[i].ok ==> lines[n - 8 - g + i] == "  ["@ + "FAIL"@ + "] "@
                + r.gates@[i].name@
        }),
{
    let front = heading_lines(r) + state_section_lines(r, t) + process_lines(r) + identity_lines(r)
        + r.scene.requests@.map_values(|q: RequestIdentity| request_line(q)) + work_lines(r, t)
        + timing_lines(r.timing@, t.timing@) + timing_lines(r.producer_timing_vole@, t.producer_vole@)
        + timing_lines(r.producer_timing_raw@, t.producer_raw@) + sweep_lines(
        r.reuse.points@,
        t.points@,
    ) + break_even_lines(r, t) + negative_lines(r);
    let lines = table(r, root, t);
    lemma_last_sections(front, gate_lines(r.gates@), closing_lines(r, root), i);
    assert(lines == front + gate_lines(r.gates@) + closing_lines(r, root));
}

/// Where the last two sections of a listing stand.
proof fn lemma_last_sections(
    front: Seq<Seq<char>>,
    gates: Seq<Seq<char>>,
    closing: Seq<Seq<char>>,
    i: int,
)
    requires
        closing.len() == 8,
        0 <= i < gates.len(),
    ensures
        ({
            let lines = front + gates + closing;
            let n = lines.len();
            &&& n == front.len() + gates.len() + 8
            &&& lines[n - 8] == closing[0]
            &&& lines[n - 8 - gates.len() + i] == gates[i]
        }),
{
}

/// The line of a compared request: its name, the beginnings of the three hashes, the
/// replaying path's first, then the restoring and then the raw path's, and whether all three
/// were the same bytes.
pub proof fn law_request_lines_show_the_comparison(q: RequestIdentity)
    ensures
        ({
            let shown = "  "@ + padded(q.request@, 14) + " baseline "@ + q.baseline_hash@.take(12)
                + " vole "@ + q.vole_hash@.take(12) + " raw "@ + q.raw_hash@.take(12)
                + "  identical "@;
            &&& q.byte_identical ==> request_line(q) == shown + "PASS"@
            &&& !q.byte_identical ==> request_line(q) == shown + "FAIL"@
        }),
{
}

/// A point of the sweep is shown, in the table and in the file, by its number of requests and
/// then the cost of the replaying, the raw and the restoring path.
pub proof fn law_points_are_shown_in_one_order<F: Fn(u64, usize) -> String>(
    points: Seq<ReusePoint>,
    t: Seq<PointTexts>,
    p: ReusePoint,
    x: PointTexts,
    fixed: F,
    i: int,
)
    requires
        points.len() == t.len(),
        0 <= i < points.len(),
    ensures
        csv(points.push(p), t.push(x)) == csv(points, t) + decimal(p.n as nat) + ","@ + x.baseline@
            + ","@ + x.raw@ + ","@ + x.vole@ + "\n"@,
        csv(Seq::<ReusePoint>::empty(), Seq::<PointTexts>::empty())
            == "N,baseline_ms,raw_checkpoint_ms,vole_ms\n"@,
        sweep_rows(points, t)[i] == "  "@ + padded(decimal(points[i].n as nat), 4) + " "@ + aligned(
            t[i].baseline@,
            14,
        ) + " "@ + aligned(t[i].raw@, 14) + " "@ + aligned(t[i].vole@, 14),
        shows_costs(t, points, fixed) ==> {
            &&& call_ensures(fixed, (points[i].c_baseline_ms, 3), t[i].baseline)
            &&& call_ensures(fixed, (points[i].c_raw_ms, 3), t[i].raw)
            &&& call_ensures(fixed, (points[i].c_vole_ms, 3), t[i].vole)
        },
        shows_points(t, points, fixed) ==> {
            &&& shows_ms(t[i].baseline@, points[i].c_baseline_ms, fixed)
            &&& shows_ms(t[i].raw@, points[i].c_raw_ms, fixed)
            &&& shows_ms(t[i].vole@, points[i].c_vole_ms, fixed)
        },
{
    assert(points.push(p).drop_last() =~= points);
    assert(t.push(x).drop_last() =~= t);
}

/// The work and the negative case in words: what a replay and a restore take and what is
/// avoided, and whether the wrong scene's state was rejected.
pub proof fn law_work_and_negative_lines(r: Results, t: TableTexts)
    ensures
        work_lines(r, t)[3] == "baseline cell steps:       "@ + grouped(
            decimal(r.work.baseline_per_request.cell_steps as nat),
        ) + "  ("@ + grouped(decimal(r.work.baseline_per_request.head_applications as nat))
            + " head applications)"@,
        work_lines(r, t)[4] == "VOLE cell steps:           "@ + grouped(
            decimal(r.work.vole_per_request.cell_steps as nat),
        ) + "  ("@ + grouped(decimal(r.work.vole_per_request.head_applications as nat))
            + " head applications)"@,
        work_lines(r, t)[5] == "cell steps avoided:        "@ + grouped(
            decimal(r.work.cell_steps_avoided_per_request as nat),
        ),
        r.negative.rejected <==> negative_lines(r)[3] == "reuse:                     rejected"@,
        r.negative.fallback_matches_baseline ==> negative_lines(r)[6]
            == "fallback equals baseline:  "@ + "PASS"@,
        !r.negative.fallback_matches_baseline ==> negative_lines(r)[6]
            == "fallback equals baseline:  "@ + "FAIL"@,
        r.reuse.n_star matches Some(n) ==> break_even(r.reuse.n_star, r.reuse.n_points@) == decimal(
            n as nat,
        ),
{
    reveal_strlit("reuse:                     rejected");
    reveal_strlit("reuse:                     accepted (FAIL)");
    assert("reuse:                     rejected"@[27] == 'r');
    assert("reuse:                     accepted (FAIL)"@[27] == 'a');
}

/// A list is written with single spaces between its texts.
pub proof fn law_lists_are_spaced(list: Seq<Seq<char>>, x: Seq<char>)
    ensures
        spaced(Seq::empty()) == Seq::<char>::empty(),
        spaced(seq![x]) == x,
        list.len() > 0 ==> spaced(list.push(x)) == spaced(list) + " "@ + x,
{
    assert(list.push(x).drop_last() == list);
}

/// The processes are listed as their numerals, each once, in the order of the texts.
pub proof fn law_processes_are_listed_once_in_order(pids: Seq<u32>, s: Seq<Seq<char>>)
    requires
        in_order(s),
        forall|x: Seq<char>| s.contains(x) <==> numerals(pids).contains(x),
    ensures
        pid_listing(pids) == s,
        consumers_line(pids) == "consumer pids ("@ + decimal(s.len()) + " distinct): "@ + spaced(s),
{
    assert(s.to_set() =~= numerals(pids).to_set());
    let l = pid_listing(pids);
    assert(in_order(l) && l.to_set() == numerals(pids).to_set());
    law_ordered_listing_is_unique(l, s);
}

/// The one-time cost of a producer is the median of the first entry of its end-to-end phase in
/// the list of the producer with the store, or else in that of the one without.
pub proof fn law_one_time_cost(
    vole: Seq<PhaseAcross>,
    raw: Seq<PhaseAcross>,
    which: Seq<char>,
    i: int,
)
    ensures
        ({
            let tag = "producer-"@ + which + ".fresh_process_end_to_end"@;
            &&& 0 <= i < vole.len() && vole[i].phase@ == tag && (forall|j: int|
                0 <= j < i ==> (#[trigger] vole[j]).phase@ != tag) ==> once(vole, raw, which)
                == vole[i].median_ms
            &&& (forall|j: int| 0 <= j < vole.len() ==> (#[trigger] vole[j]).phase@ != tag) && 0
                <= i < raw.len() && raw[i].phase@ == tag && (forall|j: int|
                0 <= j < i ==> (#[trigger] raw[j]).phase@ != tag) ==> once(vole, raw, which)
                == raw[i].median_ms
            &&& (forall|j: int| 0 <= j < vole.len() ==> (#[trigger] vole[j]).phase@ != tag) && (
            forall|j: int| 0 <= j < raw.len() ==> (#[trigger] raw[j]).phase@ != tag) ==> once(
                vole,
                raw,
                which,
            ) is None
        }),
{
    let tag = "producer-"@ + which + ".fresh_process_end_to_end"@;
    law_first_entry_is_found(vole, tag, 0);
    law_first_entry_is_found(raw, tag, 0);
}

/// Every size, time and share in the table is that of its own figure in the results.
pub proof fn law_figures_are_shown<
    F: Fn(u64, usize) -> String,
    G: Fn(u64, u64, usize) -> String,
    P: Fn(u64) -> String,
>(t: TableTexts, r: Results, fixed: F, quotient: G, percent: P, i: int)
    requires
        shows_results(t, r, fixed, quotient, percent),
    ensures
        shows_bytes(t.raw_state@, r.state.raw_state_bytes as u64, quotient),
        shows_bytes(t.h@, r.state.h_bytes as u64, quotient),
        shows_bytes(t.c@, r.state.c_bytes as u64, quotient),
        shows_bytes(t.carry@, r.state.carry_bytes as u64, quotient),
        shows_bytes(t.record@, r.state.vole_record_bytes as u64, quotient),
        shows_bytes(t.raw_file@, r.state.raw_file_bytes, quotient),
        shows_bytes(t.mkfs@, r.state.entropyfs.store_mkfs_bytes, quotient),
        shows_bytes(t.delta@, r.state.entropyfs.physical_delta_bytes, quotient),
        shows_bytes(t.engine@, r.state.entropyfs.engine_physical_used_bytes, quotient),
        shows_bytes(t.weights@, r.state.model_weight_bytes, quotient),
        call_ensures(percent, (r.work.macs_avoided_fraction,), t.percent),
        t.timing@.len() == r.timing@.len(),
        t.producer_vole@.len() == r.producer_timing_vole@.len(),
        t.producer_raw@.len() == r.producer_timing_raw@.len(),
        t.points@.len() == r.reuse.points@.len(),
        0 <= i < r.timing@.len() ==> shows_ms_opt(t.timing@[i]@, r.timing@[i].median_ms, fixed),
        0 <= i < r.producer_timing_vole@.len() ==> shows_ms_opt(
            t.producer_vole@[i]@,
            r.producer_timing_vole@[i].median_ms,
            fixed,
        ),
        0 <= i < r.producer_timing_raw@.len() ==> shows_ms_opt(
            t.producer_raw@[i]@,
            r.producer_timing_raw@[i].median_ms,
            fixed,
        ),
        shows_ms_opt(
            t.once_vole@,
            once(r.producer_timing_vole@, r.producer_timing_raw@, "vole"@),
            fixed,
        ),
        shows_ms_opt(
            t.once_raw@,
            once(r.producer_timing_vole@, r.producer_timing_raw@, "raw"@),
            fixed,
        ),
{
}

/// What the first sections say: the title between two rules of 78 signs, the sizes of the
/// state, the processes and the hashes.
pub proof fn law_opening_sections(r: Results, t: TableTexts, i: int)
    requires
        0 <= i < 78,
    ensures
        heading_lines(r).len() == 10,
        heading_lines(r)[1].len() == 78 && heading_lines(r)[1][i] == '=',
        heading_lines(r)[3] == heading_lines(r)[1],
        heading_lines(r)[2] == "VOLE-FIELD - DURABLE GENERATIVE-STATE REUSE"@,
        heading_lines(r)[6] == "scene:             "@ + r.scene.id@,
        heading_lines(r)[7] == "context frames:    "@ + decimal(r.scene.context_len as nat),
        heading_lines(r)[8] == "future frames:     "@ + decimal(r.scene.future_len as nat),
        state_section_lines(r, t).len() == 11,
        state_section_lines(r, t)[1] == "raw recurrent state:       "@ + t.raw_state@,
        state_section_lines(r, t)[2] == "  H:                       "@ + t.h@ + "   C: "@ + t.c@,
        state_section_lines(r, t)[3] == "  carry (last two frames): "@ + t.carry@,
        state_section_lines(r, t)[5] == "raw checkpoint file:       "@ + t.raw_file@,
        state_section_lines(r, t)[6] == "EntropyFS mkfs floor:      "@ + t.mkfs@,
        state_section_lines(r, t)[7] == "EntropyFS physical delta:  "@ + t.delta@,
        state_section_lines(r, t)[8] == "EntropyFS engine figure:   "@ + t.engine@,
        state_section_lines(r, t)[9] == "model weights (shared):    "@ + t.weights@,
        process_lines(r).len() == 5,
        process_lines(r)[1] == "producer pid:              "@ + decimal(
            r.process.producer_pid as nat,
        ),
        r.process.producer_differs_from_all_consumers ==> process_lines(r)[3]
            == "fresh process:             "@ + "PASS"@,
        !r.process.producer_differs_from_all_consumers ==> process_lines(r)[3]
            == "fresh process:             "@ + "FAIL"@,
        identity_lines(r).len() == 9,
        identity_lines(r)[1] == "model weights hash:        "@ + r.model.weights_hash@,
        identity_lines(r)[2] == "checkpoint file hash:      "@ + r.model.checkpoint_file_hash@,
        identity_lines(r)[3] == "original state hash:       "@ + r.state.state_hash@,
        r.state.restored_state_hash matches Some(h) ==> identity_lines(r)[4]
            == "restored state hash:       "@ + h@,
        r.state.restored_state_hash is None ==> identity_lines(r)[4]
            == "restored state hash:       "@ + "<none>"@,
        r.state.state_exact ==> identity_lines(r)[5] == "state exact:               "@ + "PASS"@,
        !r.state.state_exact ==> identity_lines(r)[5] == "state exact:               "@ + "FAIL"@,
        r.state.state_finite ==> identity_lines(r)[6] == "state finite:              "@ + "PASS"@,
        !r.state.state_finite ==> identity_lines(r)[6] == "state finite:              "@ + "FAIL"@,
{
}

/// Where the break-even stands: the number of requests, or that it is beyond the largest that
/// was tried.
pub proof fn law_break_even_is_shown(r: Results, t: TableTexts)
    ensures
        break_even_lines(r, t).len() == 4,
        break_even_lines(r, t)[0] == "  one-time VOLE producer:    "@ + t.once_vole@
            + "   one-time raw producer: "@ + t.once_raw@,
        r.reuse.n_star matches Some(n) ==> break_even_lines(r, t)[1]
            == "  reuse break-even N*:       "@ + decimal(n as nat),
        r.reuse.n_star is None && r.reuse.n_points@.len() > 0 ==> break_even_lines(r, t)[1]
            == "  reuse break-even N*:       "@ + ("> "@ + decimal(r.reuse.n_points@.last() as nat)),
        break_even_lines(r, t)[2] == "  "@ + r.reuse.n_star_note@,
{
}

/// A phase is shown by its name, filled up to 40 signs, and its time; a point of the sweep by
/// its number of requests and the three costs, each to the right of a column of 14.
pub proof fn law_phases_and_points_are_lined_up(
    list: Seq<PhaseAcross>,
    times: Seq<String>,
    points: Seq<ReusePoint>,
    costs: Seq<PointTexts>,
    i: int,
)
    ensures
        timing_lines(list, times).len() == list.len(),
        0 <= i < list.len() ==> timing_lines(list, times)[i] == "  "@ + padded(list[i].phase@, 40)
            + " "@ + times[i]@,
        sweep_lines(points, costs).len() == points.len() + 3,
        sweep_lines(points, costs)[2] == "  "@ + padded("N"@, 4) + " "@ + aligned("baseline"@, 14)
            + " "@ + aligned("raw ckpt"@, 14) + " "@ + aligned("VOLE"@, 14),
        0 <= i < points.len() ==> sweep_lines(points, costs)[3 + i] == "  "@ + padded(
            decimal(points[i].n as nat),
            4,
        ) + " "@ + aligned(costs[i].baseline@, 14) + " "@ + aligned(costs[i].raw@, 14) + " "@
            + aligned(costs[i].vole@, 14),
{
}

} // verus!
