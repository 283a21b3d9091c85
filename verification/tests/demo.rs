//! The demonstration: its plan, the evidence that it gathers and how it shows it.

use vole_field::cli::{flag_u64, run_options, train_config, Subcommand};
use vole_field::demo::consumers::{role, Consumers};
use vole_field::demo::course::{FutureFiles, Reply};
use vole_field::demo::distinct::{distinct_numbers, distinct_texts};
use vole_field::demo::format::{
    fmt_bytes, fmt_count, fmt_ms, fmt_ms_opt, pass_str, push_aligned, push_count, push_padded, rule,
};
use vole_field::demo::gates::{gates, passed, Gate};
use vole_field::demo::identity::{compare, IdentityLog};
use vole_field::demo::negative::{negative_info, text_or_none, NegativeInfo};
use vole_field::demo::pids::pid_texts;
use vole_field::demo::plan::{
    canonical_scene, future_file, label_of, plan, unrelated_scene, Command, Job, RunOptions,
};
use vole_field::demo::producer_checks::{check_exited, check_producer};
use vole_field::demo::results::{
    artifact_info, commit_text, model_info, notes, process_info, scene_info, state_info, work_info,
    HostInfo, Results, Timings,
};
use vole_field::demo::reuse::{n_star, n_star_note, reuse_info, reuse_point, ReusePoint};
use vole_field::demo::run::DemoRun;
use vole_field::demo::sweep::SweepLog;
use vole_field::demo::table::{cost_texts, csv_text, table_lines, table_texts};
use vole_field::demo::timings::{
    check_timing_producer, end_to_end, producer_timing, request_timing,
};
use vole_field::experiment::args::Mode;
use vole_field::experiment::frames::encode_frames;
use vole_field::experiment::paths::Paths;
use vole_field::experiment::producer::ProducerReport;
use vole_field::experiment::recover::RestoreReport;
use vole_field::experiment::request::RequestReport;
use vole_field::experiment::timing::{PhaseAcross, PhaseTiming};
use vole_field::model::work::{WorkMeter, WorkTotals};
use vole_field::scene::{Request, SceneId};
use vole_field::state::hashes::hash_hex;
use vole_field::train::config::Loss;

fn words(list: &[&str]) -> Vec<String> {
    list.iter().map(|s| s.to_string()).collect()
}

fn bits(list: &[f64]) -> Vec<u64> {
    list.iter().map(|v| v.to_bits()).collect()
}

fn mean(a: u64, b: u64) -> u64 {
    (0.5 * (f64::from_bits(a) + f64::from_bits(b))).to_bits()
}

fn fixed(v: u64, d: usize) -> String {
    format!("{:.*}", d, f64::from_bits(v))
}

fn quotient(v: u64, by: u64, d: usize) -> String {
    format!("{:.*}", d, v as f64 / by as f64)
}

fn percent(v: u64) -> String {
    format!("{:.2}", f64::from_bits(v) * 100.0)
}

fn sum(v: &Vec<u64>) -> u64 {
    v.iter().map(|b| f64::from_bits(*b)).sum::<f64>().to_bits()
}

fn plus(a: u64, b: u64) -> u64 {
    (f64::from_bits(a) + f64::from_bits(b)).to_bits()
}

// ---------------------------------------------------------------------------
// Command line
// ---------------------------------------------------------------------------

#[test]
fn the_first_word_picks_the_subcommand() {
    assert_eq!(Subcommand::parse(&[]), Ok(Subcommand::Run));
    for (w, c) in [
        ("run", Subcommand::Run),
        ("producer", Subcommand::Producer),
        ("request", Subcommand::Request),
        ("train", Subcommand::Train),
        ("eval", Subcommand::Eval),
        ("version", Subcommand::Version),
    ] {
        assert_eq!(Subcommand::parse(&words(&[w, "x"])), Ok(c));
    }
    assert_eq!(
        Subcommand::parse(&words(&["fly\n\"up\""])),
        Err("unknown subcommand \"fly\\n\\\"up\\\"\"; expected \
             run|producer|request|train|eval|version"
            .to_string())
    );
}

#[test]
fn options_fall_back_to_their_defaults() {
    let d = run_options(&[], Some(16));
    assert_eq!((d.run_dir.as_str(), d.context_len, d.future_len), ("run", 256, 16));
    assert_eq!(d.checkpoint, "assets/tiny_convlstm.safetensors");
    assert_eq!((d.threads, d.clean), (4, true));
    let a = words(&["--context", "40", "--no-clean", "--threads", "x", "--run-dir", "r"]);
    let o = run_options(&a, None);
    assert_eq!((o.run_dir.as_str(), o.context_len, o.threads, o.clean), ("r", 40, 1, false));
    assert_eq!(flag_u64(&words(&["--n", "+5"]), "--n", 1), 5);
    let t = train_config(&words(&["--loss", "mse", "--detach-burn", "--batch", "2"]), 9, 8);
    assert_eq!((t.loss, t.full_bptt, t.batch, t.lr), (Loss::Mse, false, 2, 9));
    assert_eq!((t.iterations, t.scheduled_sampling_p_max), (12000, 8));
    assert_eq!(train_config(&words(&["--loss", "?"]), 0, 0).loss, Loss::WeightedMse);
}

// ---------------------------------------------------------------------------
// The plan
// ---------------------------------------------------------------------------

#[test]
fn the_plan_has_every_process_in_order() {
    let p = plan();
    assert_eq!(p.len(), 159);
    assert_eq!(p[0], Job::Producer);
    assert_eq!(p[1], Job::Identity { request: Request::Continue, mode: Mode::Baseline });
    assert_eq!(p[12], Job::Identity { request: Request::Accelerate, mode: Mode::Vole });
    assert_eq!(p[13], Job::Timing { mode: Mode::Baseline, rep: 0 });
    assert_eq!(p[19], Job::EndToEnd { mode: Mode::Baseline, rep: 0 });
    assert_eq!(p[49], Job::ProducerTiming { skip_store: false, rep: 0 });
    assert_eq!(p[61], Job::SweepWarmup { mode: Mode::Baseline });
    assert_eq!(p[64], Job::Sweep { n: 1, index: 0, mode: Mode::Baseline });
    assert_eq!(p[156], Job::Sweep { n: 16, index: 15, mode: Mode::Vole });
    assert_eq!(&p[157..], &[Job::NegativeOffered, Job::NegativeBaseline]);
    assert_eq!(canonical_scene(), SceneId::MovingShape01);
    assert_eq!(unrelated_scene(), SceneId::MovingShape02);
    assert_eq!((label_of(false), label_of(true)), ("vole", "raw"));
}

#[test]
fn jobs_become_commands() {
    let o = RunOptions::default_for(Some(2));
    match (Job::Identity { request: Request::TurnLeft, mode: Mode::Vole }).command(&o, "b10b") {
        Command::Request(a) => {
            assert_eq!(a.vole_blob, Some("b10b".to_string()));
            assert_eq!(a.raw_file, None);
            assert_eq!(a.emit, Some("run/futures/vole_turn-left.f32".to_string()));
            assert_eq!(a.report, Some("run/reports/identity-turn-left-vole.json".to_string()));
            assert_eq!((a.reps, a.warmup), (1, false));
        }
        Command::Producer(_) => panic!("a producer"),
    }
    assert_eq!(
        future_file(&o, Request::TurnLeft, Mode::Vole),
        "run/futures/vole_turn-left.f32"
    );
    match (Job::Timing { mode: Mode::Raw, rep: 3 }).command(&o, "b") {
        Command::Request(a) => {
            assert_eq!((a.reps, a.warmup), (5, true));
            assert_eq!(a.raw_file, Some("run/raw_state.bin".to_string()));
            assert_eq!(a.report, Some("run/reports/timing-raw-3.json".to_string()));
        }
        Command::Producer(_) => panic!("a producer"),
    }
    match (Job::ProducerTiming { skip_store: true, rep: 2 }).command(&o, "") {
        Command::Producer(a) => {
            assert_eq!(a.run_dir, "run/timing/producer-raw-2");
            assert!(a.skip_entropyfs && a.report.is_none());
        }
        Command::Request(_) => panic!("a request"),
    }
    let argv = Job::NegativeOffered.command(&o, "id").argv();
    assert_eq!(argv[0], "request");
    assert!(argv.contains(&"moving-shape-02".to_string()));
    assert!(argv.contains(&"id".to_string()));
    let argv = (Job::Sweep { n: 8, index: 7, mode: Mode::Baseline }).command(&o, "id").argv();
    assert!(argv.contains(&"turn-left".to_string()) && !argv.contains(&"id".to_string()));
}

// ---------------------------------------------------------------------------
// Evidence
// ---------------------------------------------------------------------------

#[test]
fn the_last_process_of_a_role_stands() {
    let mut c = Consumers::new();
    c.insert("a".to_string(), 5);
    c.insert("b".to_string(), 6);
    c.insert("a".to_string(), 7);
    assert_eq!(c.pids(), vec![7, 6]);
    assert_eq!(c.distinct(), 2);
    assert!(c.all_differ_from(5) && !c.all_differ_from(6));
    c.insert("c".to_string(), 6);
    assert_eq!((c.list.len(), c.distinct()), (3, 2));
    let r = |j: Job| role(&j);
    assert_eq!(r(Job::Producer), None);
    assert_eq!(
        r(Job::Identity { request: Request::Continue, mode: Mode::Raw }),
        Some("montage-continue-raw".to_string())
    );
    assert_eq!(r(Job::Timing { mode: Mode::Vole, rep: 0 }), None);
    assert_eq!(r(Job::Timing { mode: Mode::Vole, rep: 2 }), Some("timing-vole".to_string()));
    assert_eq!(r(Job::EndToEnd { mode: Mode::Raw, rep: 1 }), Some("e2e-raw".to_string()));
    assert_eq!(r(Job::SweepWarmup { mode: Mode::Raw }), None);
    assert_eq!(
        r(Job::Sweep { n: 2, index: 0, mode: Mode::Raw }),
        Some("sweep-raw-last".to_string())
    );
    assert_eq!(r(Job::NegativeOffered), Some("negative-offered".to_string()));
}

#[test]
fn distinct_values_are_counted_once() {
    assert_eq!(distinct_texts(&words(&["a", "b", "a"])), 2);
    assert_eq!(distinct_numbers(&[1, 1, 1]), 1);
    assert_eq!(distinct_numbers(&[]), 0);
    assert_eq!(pid_texts(&[100, 9, 100, 23]), words(&["100", "23", "9"]));
}

#[test]
fn futures_are_compared_byte_for_byte() {
    let a = encode_frames(&[vec![1; 1024]]);
    let b = encode_frames(&[vec![2; 1024]]);
    let same = compare(Request::SCurve, &a, &a, &a);
    assert!(same.byte_identical && same.baseline_eq_raw && same.baseline_eq_vole);
    assert_eq!(same.baseline_hash, hash_hex(&a[20..]));
    assert_eq!((same.request.as_str(), same.compared_bytes), ("s-curve", 4096));
    let other = compare(Request::SCurve, &a, &b, &a);
    assert!(!other.byte_identical && !other.baseline_eq_raw && other.baseline_eq_vole);
    assert_ne!(other.raw_hash, other.vole_hash);

    let mut log = IdentityLog::new();
    log.request(Request::SCurve, &a, &a, &a);
    assert!(log.identical && log.raw_identical());
    log.request(Request::Continue, &a, &b, &a);
    assert!(!log.identical && !log.raw_identical());
}

#[test]
fn only_restored_children_are_held_to_the_producer() {
    let mut log = IdentityLog::new();
    let mut r = request_report();
    r.start_state_hash = Some("other".to_string());
    r.restore_exact = None;
    log.child(Mode::Raw, &r, "state");
    assert!(log.restore_exact && log.start_hash && log.finite);
    log.child(Mode::Vole, &r, "state");
    assert!(!log.restore_exact && !log.start_hash && log.finite);
    r.start_state_finite = false;
    log.child(Mode::Baseline, &r, "state");
    assert!(!log.finite);
}

#[test]
fn repeats_must_agree_and_programs_must_not() {
    let mut s = SweepLog::new();
    s.emitted(Mode::Baseline, Request::Continue, "x");
    s.emitted(Mode::Vole, Request::Continue, "x");
    s.emitted(Mode::Baseline, Request::TurnLeft, "y");
    s.emitted(Mode::Baseline, Request::Continue, "x");
    assert!(s.repeated_identical && !s.programs_collide());
    assert_eq!(s.programs(), 2);
    s.emitted(Mode::Baseline, Request::TurnRight, "y");
    assert!(s.repeated_identical && s.programs_collide());
    s.emitted(Mode::Vole, Request::Continue, "z");
    assert!(!s.repeated_identical);
}

fn point(n: usize, baseline: f64, vole: f64) -> ReusePoint {
    reuse_point(
        n,
        bits(&[baseline]),
        bits(&[0.0]),
        bits(&[vole]),
        &words(&["h"]),
        10.0f64.to_bits(),
        1.0f64.to_bits(),
        sum,
        plus,
    )
}

#[test]
fn the_break_even_is_the_first_cheaper_point() {
    let p = point(8, 20.0, 5.0);
    assert_eq!(f64::from_bits(p.c_vole_ms), 15.0);
    assert_eq!(f64::from_bits(p.c_raw_ms), 1.0);
    assert_eq!(f64::from_bits(p.c_baseline_ms), 20.0);
    assert_eq!(p.requests[6], p.requests[0]);
    assert_eq!((p.distinct_request_programs, p.distinct_baseline_outputs), (6, 1));

    let list = vec![point(1, 10.0, 0.0), point(2, 20.0, 5.0), point(4, 40.0, 5.0)];
    assert_eq!(n_star(&list), Some(2));
    assert_eq!(n_star(&list[..1]), None);
    assert_eq!(
        n_star_note(Some(2), 16),
        "smallest tested N with C_vole(N) < C_baseline(N): 2 of 16"
    );
    assert_eq!(n_star_note(None, 16), "no crossover within the tested range: N* > 16");
    let info = reuse_info(list);
    assert_eq!((info.n_star, info.fresh_processes_per_mode), (Some(2), 7));
    assert_eq!(info.n_points, vec![1, 2, 4, 8, 16]);
    assert!(info.every_request_in_a_fresh_process);
}

#[test]
fn clocked_processes_are_aggregated() {
    let e = end_to_end(Mode::Raw, bits(&[1.0, 3.0, 2.0]), mean);
    assert_eq!(e.phase, "raw.fresh_process_end_to_end");
    assert_eq!(e.median_ms, Some(2.0f64.to_bits()));
    assert_eq!(check_timing_producer(true, "a", "a"), Ok(()));
    assert_eq!(
        check_timing_producer(false, "a", "b"),
        Err("vole timing producer earned state a != canonical b".to_string())
    );
    let timing = |p: &str| PhaseTiming::new(p, "d", None, bits(&[4.0]), mean);
    let reports = vec![Some(vec![timing("model_load")])];
    let (ms, list) = producer_timing(true, bits(&[5.0]), &reports, mean).unwrap();
    assert_eq!(f64::from_bits(ms), 5.0);
    assert_eq!(list[0].phase, "producer-raw.fresh_process_end_to_end");
    assert_eq!(list[1].phase, "producer-raw.model_load");
    assert_eq!(
        producer_timing(false, vec![], &reports, mean).unwrap_err(),
        "vole producer timing produced no median"
    );
    let all = request_timing(&reports, &reports, &reports, &vec![e], mean);
    let names: Vec<&str> = all.iter().map(|p| p.phase.as_str()).collect();
    assert_eq!(names, vec![
        "baseline.model_load",
        "raw.model_load",
        "vole.model_load",
        "raw.fresh_process_end_to_end",
    ]);
}

fn totals(cells: u64, heads: u64) -> WorkTotals {
    let w = vole_field::model::config::ModelConfig::default().step_work();
    WorkMeter { cell_steps: cells, head_applications: heads }.totals(&w)
}

fn request_report() -> RequestReport {
    RequestReport {
        pid: 4,
        mode: "vole".to_string(),
        scene: "moving-shape-01".to_string(),
        expect_scene: "moving-shape-01".to_string(),
        request: "continue".to_string(),
        request_label: String::new(),
        request_controls: vec![],
        context_len: 256,
        future_len: 16,
        reps: 1,
        warmup: false,
        model_weights_hash: String::new(),
        checkpoint_file_hash: String::new(),
        restore: RestoreReport::default(),
        start_state_hash: None,
        offered_state_hash: None,
        restore_exact: None,
        start_state_finite: true,
        output_hash: "out".to_string(),
        output_frames: 16,
        output_bytes: 0,
        emitted: None,
        timings: vec![],
        work_context: totals(256, 0),
        work_generate: totals(15, 16),
        work_total: totals(271, 16),
        error: None,
    }
}

fn producer_report() -> ProducerReport {
    ProducerReport {
        pid: 3,
        scene: "moving-shape-01".to_string(),
        context_len: 256,
        model_weights_hash: "w".to_string(),
        model_config_hash: "c".to_string(),
        checkpoint_file_hash: "f".to_string(),
        checkpoint_bytes: 16000,
        state_hash: "0123456789abcdef0123".to_string(),
        state_finite: true,
        h_bytes: 32768,
        c_bytes: 32768,
        carry_bytes: 8192,
        raw_state_bytes: 73728,
        vole_record_bytes: 73904,
        entropyfs_used: true,
        store_created: true,
        store_mkfs_bytes: 1000,
        store_bytes_before: 1000,
        store_bytes_after: 3000,
        store_physical_delta: 2000,
        engine_physical_used_after: 2500,
        blob_id: "b".to_string(),
        blob_already_present: false,
        raw_file: "run/raw_state.bin".to_string(),
        raw_file_bytes: 73728,
        timings: vec![],
        work: totals(256, 0),
        error: None,
    }
}

fn negative() -> NegativeInfo {
    let mut offered = request_report();
    offered.restore.offered_scene = Some("moving-shape-01".to_string());
    offered.restore.rejection = Some("scene_identity".to_string());
    offered.restore.fallback = Some("replay-from-scratch".to_string());
    negative_info(offered, &request_report())
}

#[test]
fn the_negative_case_is_told_from_the_reports() {
    let n = negative();
    assert!(n.rejected && n.fallback_matches_baseline);
    assert_eq!(n.requested_scene, "moving-shape-02");
    assert_eq!(n.rejection, "scene_identity");
    assert_eq!(n.cell_steps_executed, 271);
    assert_eq!(text_or_none(None), "<none>");
    let mut accepted = request_report();
    accepted.restore.accepted = true;
    accepted.output_hash = "else".to_string();
    let n = negative_info(accepted, &request_report());
    assert!(!n.rejected && !n.fallback_matches_baseline);
    assert_eq!(n.rejection, "<none>");
}

#[test]
fn a_failed_producer_ends_the_run() {
    assert_eq!(check_producer(3, 3, true), Ok(()));
    assert_eq!(
        check_producer(3, 4, true),
        Err("producer reported pid 3 but the OS assigned 4".to_string())
    );
    assert_eq!(
        check_producer(3, 3, false),
        Err("the earned state contains a non-finite value".to_string())
    );
    assert_eq!(check_exited(3, Some(true)), Ok(()));
    assert_eq!(check_exited(3, None), Ok(()));
    assert_eq!(
        check_exited(3, Some(false)),
        Err("producer pid 3 still has a /proc entry after wait()".to_string())
    );
}

fn all_gates(verified: usize, montages: bool) -> Vec<Gate> {
    let mut c = Consumers::new();
    c.insert("x".to_string(), 8);
    let mut id = IdentityLog::new();
    let f = encode_frames(&[vec![1; 1024]]);
    id.request(Request::Continue, &f, &f, &f);
    let mut s = SweepLog::new();
    s.emitted(Mode::Baseline, Request::Continue, "h");
    gates(
        &producer_report(),
        Some(true),
        &c,
        verified,
        &id,
        &totals(271, 16),
        &totals(15, 16),
        &negative(),
        &s,
        montages,
    )
}

#[test]
fn every_gate_has_to_pass() {
    let g = all_gates(1, true);
    assert_eq!(g.len(), 12);
    assert!(passed(&g));
    assert_eq!(
        g[0].detail,
        "producer pid 3; every recorded consumer pid differs from it; the producer was \
         waited on before any consumer was spawned and its /proc entry was already gone \
         (Some(true))"
    );
    assert_eq!(
        g[3].detail,
        "producer state hash 0123456789abcdef equals the hash of the state every VOLE request \
         generated from"
    );
    assert_eq!(g[4].detail, "4096 frames of exact f32 bytes compared per request, on 1 requests");
    assert_eq!(
        g[6].detail,
        "baseline 271 cell steps vs VOLE 15 cell steps per request; 256 avoided"
    );
    let bad = all_gates(0, true);
    assert_eq!(bad[1].name, "consumers_are_distinct_processes");
    assert!(!bad[1].ok && !passed(&bad));
    let bad = all_gates(1, false);
    assert_eq!(bad[11].name, "montages_identical");
    assert!(!bad[11].ok && !passed(&bad));
}

#[test]
fn work_that_is_avoided() {
    let ratio = |a: u64, b: u64| (a as f64 / b as f64).to_bits();
    let w = work_info(totals(271, 16), totals(15, 16), totals(15, 16), totals(256, 0), ratio);
    assert_eq!(w.cell_steps_avoided_per_request, 256);
    assert_eq!(w.macs_avoided_per_request, 830_472_192);
    assert_eq!(percent(w.macs_avoided_fraction), "93.20");
    let none = work_info(totals(0, 0), totals(1, 1), totals(0, 0), totals(0, 0), ratio);
    assert_eq!((none.macs_avoided_per_request, none.macs_avoided_fraction), (0, 0));
}

#[test]
fn a_commit_is_a_trimmed_line() {
    assert_eq!(commit_text(true, b" abc123\n"), Some("abc123".to_string()));
    assert_eq!(commit_text(true, b"\n"), None);
    assert_eq!(commit_text(false, b"abc"), None);
    assert_eq!(commit_text(true, b"a\xff"), Some("a\u{fffd}".to_string()));
}

// ---------------------------------------------------------------------------
// Texts
// ---------------------------------------------------------------------------

#[test]
fn numbers_are_shown_as_documented() {
    assert_eq!(fmt_count(0), "0");
    assert_eq!(fmt_count(999), "999");
    assert_eq!(fmt_count(1000), "1_000");
    assert_eq!(fmt_count(891_060_224), "891_060_224");
    let mut s = "n=".to_string();
    push_count(&mut s, 12345);
    assert_eq!(s, "n=12_345");
    assert_eq!(fmt_ms(99.994f64.to_bits(), fixed), "99.99 ms");
    assert_eq!(fmt_ms(100.0f64.to_bits(), fixed), "100.0 ms");
    assert_eq!(fmt_ms_opt(None, fixed), "n/a");
    assert_eq!(fmt_bytes(1023, quotient), "1023 B");
    assert_eq!(fmt_bytes(1536, quotient), "1536 B (1.5 KiB)");
    assert_eq!(fmt_bytes(3 * 1024 * 1024, quotient), "3145728 B (3.00 MiB)");
    assert_eq!((pass_str(true), pass_str(false)), ("PASS", "FAIL"));
    assert_eq!(rule(3), "===");
    let mut s = String::new();
    push_padded(&mut s, "ab", 4);
    push_aligned(&mut s, "c", 3);
    push_padded(&mut s, "long", 2);
    assert_eq!(s, "ab    clong");
}

#[test]
fn the_cost_table_has_three_decimals() {
    let points = vec![point(1, 1.5, 0.0), point(2, 2.0, 3.0)];
    let t = cost_texts(&points, fixed);
    assert_eq!(
        csv_text(&points, &t),
        "N,baseline_ms,raw_checkpoint_ms,vole_ms\n1,1.500,1.000,10.000\n2,2.000,1.000,13.000\n"
    );
}

fn results() -> Results {
    let producer = producer_report();
    let paths = Paths::new("run".to_string());
    let f = encode_frames(&[vec![1; 1024]]);
    let across = |name: &str| PhaseAcross {
        phase: name.to_string(),
        definition: String::new(),
        per_process_ms: vec![],
        median_ms: Some(2.0f64.to_bits()),
    };
    let mut c = Consumers::new();
    c.insert("x".to_string(), 8);
    let ratio = |a: u64, b: u64| (a as f64 / b as f64).to_bits();
    Results::new(
        7,
        host(),
        model_info("ck", &producer),
        scene_info(256, 16, vec![compare(Request::Continue, &f, &f, &f)]),
        state_info(&producer, Some("rs".to_string()), true),
        process_info(3, c, 9, Some(true)),
        work_info(totals(271, 16), totals(15, 16), totals(15, 16), totals(256, 0), ratio),
        Timings {
            requests: vec![across("vole.model_load")],
            end_to_end: vec![],
            producer_vole: vec![across("producer-vole.fresh_process_end_to_end")],
            producer_raw: vec![],
        },
        reuse_info(vec![point(1, 1.0, 1.0)]),
        negative(),
        all_gates(1, true),
        artifact_info(&paths, true),
    )
}

#[test]
fn replies_follow_the_plan_to_the_evidence() {
    let opts = RunOptions::default_for(None);
    let mut run = DemoRun::new();
    let state = producer_report().state_hash;
    let file = || encode_frames(&[vec![1; 1024]]);
    for (i, job) in plan().iter().enumerate() {
        let pid = 1000 + i as u32;
        run.accept(job, &job.command(&opts, "b").argv(), pid, pid).unwrap();
        let wall = (2.0 + i as f64).to_bits();
        let reply = match *job {
            Job::Producer => {
                let mut producer = producer_report();
                let early = Reply::Earned { producer, os_pid: pid, proc_gone: None };
                assert_eq!(
                    run.take(job, early, mean, sum, plus),
                    Err("producer reported pid 3 but the OS assigned 1000".to_string())
                );
                producer = producer_report();
                producer.pid = pid;
                Reply::Earned { producer, os_pid: pid, proc_gone: Some(true) }
            }
            Job::Identity { mode, .. } => {
                let files = FutureFiles { baseline: file(), raw: file(), vole: file() };
                let files = if mode == Mode::Vole { Some(files) } else { None };
                Reply::Future { report: request_report(), files }
            }
            Job::Timing { .. } => Reply::Timed { report: request_report(), table: None },
            Job::EndToEnd { .. } => Reply::Clocked { wall },
            Job::ProducerTiming { rep, .. } => {
                let other = Reply::EarnedAgain { earned: "x".to_string(), wall, table: None };
                assert_eq!(run.take(job, other, mean, sum, plus).is_ok(), rep == 0);
                Reply::EarnedAgain { earned: state.clone(), wall, table: None }
            }
            Job::SweepWarmup { .. } => Reply::Discarded,
            Job::Sweep { index, .. } => {
                Reply::Swept { hash: Request::ALL[index % 6].name().to_string(), wall }
            }
            Job::NegativeOffered | Job::NegativeBaseline => {
                Reply::Answered { report: request_report() }
            }
        };
        run.take(job, reply, mean, sum, plus).unwrap();
        assert_eq!(run.verified, i + 1);
    }
    assert_eq!(run.points.iter().map(|p| p.n).collect::<Vec<usize>>(), vec![1, 2, 4, 8, 16]);
    assert!(run.points.iter().all(|p| p.baseline_per_request_ms.len() == p.n
        && p.raw_per_request_ms.len() == p.n
        && p.vole_per_request_ms.len() == p.n));
    assert_eq!(run.identity.requests.len(), 4);
    assert_eq!(run.end_to_end.len(), 3);
    assert!(run.negative.is_some() && run.producer_vole.is_some() && run.producer_raw.is_some());
    let firsts = [&run.baseline.first, &run.raw.first, &run.vole.first];
    assert!(firsts.iter().all(|r| r.is_some()));
}

/// A whole run whose processes all report what they should.
fn finished_run(opts: &RunOptions) -> DemoRun {
    let mut run = DemoRun::new();
    let frames = encode_frames(&[vec![1; 1024]]);
    let state = producer_report().state_hash;
    for (i, job) in plan().iter().enumerate() {
        let pid = 1000 + i as u32;
        let args = job.command(opts, "b").argv();
        assert!(run.accept(job, &args, 0, pid).is_err());
        run.accept(job, &args, pid, pid).unwrap();
        let table = || Some(vec![PhaseTiming::new("model_load", "d", None, bits(&[1.0]), mean)]);
        let mut r = request_report();
        r.pid = pid;
        r.restore_exact = Some(true);
        r.start_state_hash = Some(state.clone());
        match *job {
            Job::Producer => {
                let mut p = producer_report();
                p.pid = pid;
                assert_eq!(
                    run.producer_done(producer_report(), pid, Some(true)).unwrap_err(),
                    "producer reported pid 3 but the OS assigned 1000"
                );
                assert!(run.producer.is_none());
                run.producer_done(p, pid, Some(true)).unwrap();
            }
            Job::Identity { request, mode } => {
                run.future_done(mode, &r);
                if mode == Mode::Vole {
                    run.compared(request, &frames, &frames, &frames);
                }
            }
            Job::Timing { mode, rep } => {
                if mode == Mode::Baseline {
                    r.work_total = totals(271, 16);
                } else {
                    r.work_total = totals(15, 16);
                }
                run.timing_done(mode, rep, table(), r);
            }
            Job::EndToEnd { mode, rep } => {
                run.clocked(mode, rep, (rep as f64).to_bits(), mean);
            }
            Job::ProducerTiming { skip_store, rep } => {
                assert_eq!(
                    run.producer_clocked(skip_store, rep, "other", 0, table(), mean).is_err(),
                    rep > 0
                );
                let wall = (10.0 + rep as f64).to_bits();
                run.producer_clocked(skip_store, rep, &state, wall, table(), mean).unwrap();
            }
            Job::SweepWarmup { .. } => {}
            Job::Sweep { n, index, mode } => {
                let ms: f64 = if mode == Mode::Baseline { 20.0 } else { 2.0 };
                let hash = Request::ALL[index % 6].name().to_string();
                run.swept(n, index, mode, ms.to_bits(), hash, sum, plus);
            }
            Job::NegativeOffered => {
                r.restore.rejection = Some("scene_identity".to_string());
                run.negative_offered(r);
            }
            Job::NegativeBaseline => run.negative_done(&r),
        }
    }
    run
}

fn host() -> HostInfo {
    HostInfo {
        os: "linux".to_string(),
        arch: "x".to_string(),
        available_parallelism: 1,
        pinned_threads: 1,
        crate_version: "0".to_string(),
        git_commit: None,
    }
}

#[test]
fn a_run_through_the_whole_plan_passes() {
    let opts = RunOptions::default_for(Some(1));
    let run = finished_run(&opts);
    assert_eq!(run.verified, 159);
    assert_eq!(run.baseline.tables.len(), 5);
    assert_eq!(run.end_to_end.len(), 3);
    assert_eq!(run.end_to_end[0].per_process_ms, bits(&[1.0, 2.0, 3.0, 4.0, 5.0]));
    assert_eq!(run.points.len(), 5);
    assert_eq!(run.points[4].baseline_per_request_ms.len(), 16);
    assert_eq!(run.points[4].distinct_baseline_outputs, 6);
    assert!(run.hashes.is_empty() && run.vole.sweep.is_empty());
    let ratio = |a: u64, b: u64| (a as f64 / b as f64).to_bits();
    let r = run.finish(&opts, 5, host(), true, mean, ratio).unwrap();
    assert!(r.pass, "{:?}", r.gates);
    assert_eq!(r.generated_unix_s, 5);
    assert_eq!(r.process.children_pid_verified, 159);
    assert_eq!(r.process.consumer_pids.list.len(), 23);
    assert_eq!(r.work.cell_steps_avoided_per_request, 256);
    assert_eq!(r.reuse.n_star, Some(1));
    assert_eq!(r.reuse.fresh_processes_per_mode, 31);
    assert_eq!(r.producer_timing_raw[0].median_ms, Some(13.0f64.to_bits()));
    assert_eq!(r.timing.len(), 3 + 3);
    assert_eq!(r.scene.requests.len(), 4);
    assert!(!finished_run(&opts).finish(&opts, 5, host(), false, mean, ratio).unwrap().pass);
}

#[test]
fn a_run_without_measured_processes_gives_no_evidence() {
    let opts = RunOptions::default_for(Some(1));
    let ratio = |a: u64, b: u64| (a as f64 / b as f64).to_bits();
    let mut run = finished_run(&opts);
    run.raw.first = None;
    assert_eq!(
        run.finish(&opts, 0, host(), true, mean, ratio).unwrap_err(),
        "no raw timing report"
    );
    let mut run = finished_run(&opts);
    run.raw.first = None;
    run.vole.first = None;
    assert_eq!(
        run.finish(&opts, 0, host(), true, mean, ratio).unwrap_err(),
        "no vole timing report"
    );
    let mut run = finished_run(&opts);
    run.baseline.first = None;
    assert_eq!(
        run.finish(&opts, 0, host(), true, mean, ratio).unwrap_err(),
        "no baseline timing report"
    );
}

#[test]
fn the_evidence_holds_together() {
    let r = results();
    assert_eq!(r.schema, "vole-field/results/1");
    assert!(r.pass);
    assert_eq!(r.model.parameter_count, 3937);
    assert_eq!(r.scene.context_controls_rle, vec![(4, 64), (1, 48), (4, 48), (7, 48), (4, 48)]);
    assert_eq!(r.state.vole_header_bytes, 176);
    assert_eq!(r.state.entropyfs.overhead_vs_raw_bytes, 2000 - 73728);
    assert!(r.process.producer_differs_from_all_consumers && !r.process.cold_disk_cache);
    assert_eq!(r.artifacts.montage, "run/branches.ppm");
    assert_eq!(r.notes, notes());
    assert_eq!(r.notes.len(), 6);
}

#[test]
fn the_summary_table_reads_as_documented() {
    let r = results();
    let t = table_texts(&r, fixed, quotient, percent);
    let lines = table_lines(&r, "run", &t);
    let has = |s: &str| assert!(lines.iter().any(|l| l == s), "no line {s:?}");
    has("VOLE-FIELD - DURABLE GENERATIVE-STATE REUSE");
    has("model:             tiny ConvLSTM (3_937 params, 8 hidden ch, 3x3 kernels)");
    has("raw recurrent state:       73728 B (72.0 KiB)");
    has("  H:                       32768 B (32.0 KiB)   C: 32768 B (32.0 KiB)");
    has("VOLE logical blob:         73904 B (72.2 KiB) (176 header + payload)");
    has("consumer pids (1 distinct): 8");
    has("restored state hash:       rs");
    has("cell step arithmetic:      3_244_032 gate + 745_472 head = 3_989_504 MACs, 40_960 nonlinearities");
    has("baseline cell steps:       271  (16 head applications)");
    has("model MACs avoided:        830_472_192  (93.20% of baseline)");
    has("  vole.model_load                          2.00 ms");
    has("  N          baseline       raw ckpt           VOLE");
    has("  1           1.00 ms        1.00 ms       11.00 ms");
    has("  one-time VOLE producer:    2.00 ms   one-time raw producer: n/a");
    has("  reuse break-even N*:       > 16");
    has("reuse:                     rejected");
    has("  [PASS] montages_identical");
    has("  overall: PASS");
    has("  child reports run/reports");
    assert_eq!(lines.last(), Some(&"=".repeat(78)));
}
