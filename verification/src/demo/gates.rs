//! The correctness gates of a demonstration, and what a pass means.

use vstd::prelude::*;

use crate::demo::consumers::{processes, Consumers};
use crate::demo::distinct::distinct_count;
use crate::demo::identity::{all_raw_identical, tallied, IdentityLog};
use crate::demo::negative::NegativeInfo;
use crate::demo::sweep::{collide, programs_to, SweepLog};
use crate::experiment::producer::ProducerReport;
use crate::model::work::WorkTotals;
use crate::text::{decimal, leading, push_decimal, same_text};

verus! {

/// One correctness gate.
#[derive(Debug)]
pub struct Gate {
    /// Gate name.
    pub name: String,
    /// Whether it passed.
    pub ok: bool,
    /// What was compared.
    pub detail: String,
}

/// A [`Gate`] with its texts as sequences of characters.
pub struct GateModel {
    pub name: Seq<char>,
    pub ok: bool,
    pub detail: Seq<char>,
}

impl View for Gate {
    type V = GateModel;

    open spec fn view(&self) -> GateModel {
        GateModel { name: self.name@, ok: self.ok, detail: self.detail@ }
    }
}

/// Gates by their texts.
pub open spec fn gate_models(gates: Seq<Gate>) -> Seq<GateModel> {
    gates.map_values(|g: Gate| g@)
}

/// Everything that the gates rest on.
pub struct Facts {
    /// The producer's process id.
    pub pid: u32,
    /// No recorded consumer has that process id.
    pub differs: bool,
    /// Whether the producer's process entry was gone, where that can be seen.
    pub proc_gone: Option<bool>,
    /// Recorded consumer roles.
    pub roles: nat,
    /// Different processes among them.
    pub distinct: nat,
    /// Children whose process id was verified.
    pub verified: nat,
    /// Every restored request rebuilt the offered bytes.
    pub restore_exact: bool,
    /// Every restored request generated from the producer's state.
    pub start_hash: bool,
    /// Hash of the producer's state.
    pub state_hash: Seq<char>,
    /// The three paths agreed on every request.
    pub identical: bool,
    /// Bytes compared on the first request.
    pub compared: nat,
    /// Requests compared.
    pub requests: nat,
    /// The raw path agreed with the baseline on every request.
    pub raw_identical: bool,
    /// Recurrent steps of a replaying request.
    pub baseline_steps: nat,
    /// Recurrent steps of a restoring request.
    pub vole_steps: nat,
    /// Recurrent steps that restoring avoids.
    pub avoided: nat,
    /// Every request started from a finite state.
    pub start_finite: bool,
    /// The producer's state was finite.
    pub state_finite: bool,
    /// The unrelated request refused the state.
    pub rejected: bool,
    /// The check that it refused on.
    pub rejection: Seq<char>,
    /// The scene that it wanted.
    pub requested_scene: Seq<char>,
    /// The scene that it was offered.
    pub offered_scene: Seq<char>,
    /// It then emitted what a replay emits.
    pub fallback_matches: bool,
    /// Repeats in different processes agreed.
    pub repeated_identical: bool,
    /// Two different request programs had the same output.
    pub collide: bool,
    /// Request programs that were served.
    pub programs: nat,
    /// The two montages are the same bytes.
    pub montages_identical: bool,
}

/// How an optional truth value is shown.
pub open spec fn shown(v: Option<bool>) -> Seq<char> {
    match v {
        Some(true) => "Some(true)"@,
        Some(false) => "Some(false)"@,
        None => "None"@,
    }
}

/// What is left of `a` after `b` is taken off, or nothing.
pub open spec fn avoided(a: u64, b: u64) -> nat {
    if a > b {
        (a - b) as nat
    } else {
        0
    }
}

/// The facts in the evidence of a run. No time is among them.
pub open spec fn facts(
    producer: ProducerReport,
    proc_gone: Option<bool>,
    consumers: Seq<(Seq<char>, u32)>,
    verified: nat,
    identity: IdentityLog,
    baseline: WorkTotals,
    vole: WorkTotals,
    negative: NegativeInfo,
    sweep: SweepLog,
    montages_identical: bool,
) -> Facts {
    Facts {
        pid: producer.pid,
        differs: !processes(consumers).contains(producer.pid),
        proc_gone,
        roles: consumers.len(),
        distinct: distinct_count(processes(consumers)),
        verified,
        restore_exact: identity.restore_exact,
        start_hash: identity.start_hash,
        state_hash: producer.state_hash@,
        identical: identity.identical,
        compared: if identity.requests@.len() > 0 {
            identity.requests@[0].compared_bytes as nat
        } else {
            0
        },
        requests: identity.requests@.len(),
        raw_identical: all_raw_identical(identity.requests@),
        baseline_steps: baseline.cell_steps as nat,
        vole_steps: vole.cell_steps as nat,
        avoided: avoided(baseline.cell_steps, vole.cell_steps),
        start_finite: identity.finite,
        state_finite: producer.state_finite,
        rejected: negative.rejected,
        rejection: negative.rejection@,
        requested_scene: negative.requested_scene@,
        offered_scene: negative.offered_scene@,
        fallback_matches: negative.fallback_matches_baseline,
        repeated_identical: sweep.repeated_identical,
        collide: collide(sweep@),
        programs: programs_to(sweep@, 6),
        montages_identical,
    }
}

/// Gate `k` of the twelve.
pub open spec fn gate_at(f: Facts, k: int) -> GateModel {
    if k == 0 {
        GateModel {
            name: "producer_really_exits"@,
            ok: f.differs && (f.proc_gone matches Some(gone) ==> gone),
            detail: "producer pid "@ + decimal(f.pid as nat) + "; every recorded consumer pid differs from it; the producer was waited on before any consumer was spawned and its /proc entry was already gone ("@ + shown(f.proc_gone) + ")"@,
        }
    } else if k == 1 {
        GateModel {
            name: "consumers_are_distinct_processes"@,
            ok: f.distinct == f.roles && f.verified > 0,
            detail: decimal(f.roles) + " recorded consumer roles spanning "@ + decimal(f.distinct) + " distinct pids, none equal to the producer's; "@ + decimal(f.verified) + " child processes reported a pid matching the one the OS assigned"@,
        }
    } else if k == 2 {
        GateModel {
            name: "restored_state_bytes_match_original"@,
            ok: f.restore_exact,
            detail: "re-serialised (H, C) compared byte-for-byte with the persisted payload on every VOLE request"@,
        }
    } else if k == 3 {
        GateModel {
            name: "restored_state_hash_matches_producer"@,
            ok: f.start_hash,
            detail: "producer state hash "@ + f.state_hash.take(16) + " equals the hash of the state every VOLE request generated from"@,
        }
    } else if k == 4 {
        GateModel {
            name: "baseline_and_restore_outputs_identical"@,
            ok: f.identical,
            detail: decimal(f.compared) + " frames of exact f32 bytes compared per request, on "@ + decimal(f.requests) + " requests"@,
        }
    } else if k == 5 {
        GateModel {
            name: "raw_checkpoint_and_restore_outputs_identical"@,
            ok: f.raw_identical,
            detail: "the raw-checkpoint path produced the same bytes as the baseline on every request"@,
        }
    } else if k == 6 {
        GateModel {
            name: "fewer_recurrent_steps"@,
            ok: f.avoided > 0,
            detail: "baseline "@ + decimal(f.baseline_steps) + " cell steps vs VOLE "@ + decimal(f.vole_steps) + " cell steps per request; "@ + decimal(f.avoided) + " avoided"@,
        }
    } else if k == 7 {
        GateModel {
            name: "state_is_finite"@,
            ok: f.start_finite && f.state_finite,
            detail: "no NaN or infinity in H or C, before or after persistence"@,
        }
    } else if k == 8 {
        GateModel {
            name: "negative_state_rejected"@,
            ok: f.rejected && f.rejection != "<none>"@,
            detail: "a "@ + f.requested_scene + " request offered a "@ + f.offered_scene + " record failed the "@ + f.rejection + " check"@,
        }
    } else if k == 9 {
        GateModel {
            name: "negative_fallback_matches_baseline"@,
            ok: f.fallback_matches,
            detail: "after refusing reuse the request replayed from scratch and produced the same bytes as an independent from-scratch baseline for the unrelated scene"@,
        }
    } else if k == 10 {
        GateModel {
            name: "fresh_process_requests_are_bit_identical"@,
            ok: f.repeated_identical && !f.collide,
            detail: decimal(f.programs) + " request programs; repeats of the same program in different fresh processes produced identical bytes, and no two programs collided"@,
        }
    } else {
        GateModel {
            name: "montages_identical"@,
            ok: f.montages_identical,
            detail: "the from-scratch montage and the restored montage are byte-identical images"@,
        }
    }
}

/// The twelve gates, in order.
pub open spec fn gate_list(f: Facts) -> Seq<GateModel> {
    Seq::new(12, |k: int| gate_at(f, k))
}

/// Whether every gate passed.
pub open spec fn all_ok(gates: Seq<GateModel>) -> bool {
    forall|i: int| 0 <= i < gates.len() ==> (#[trigger] gates[i]).ok
}

/// A gate with this outcome.
fn gate(name: &str, ok: bool, detail: String) -> (r: Gate)
    ensures
        r@ == (GateModel { name: name@, ok, detail: detail@ }),
{
    Gate { name: name.to_owned(), ok, detail }
}

/// The gates that rest on the processes.
fn process_gates(
    producer: &ProducerReport,
    proc_gone: Option<bool>,
    consumers: &Consumers,
    verified: usize,
    Ghost(f): Ghost<Facts>,
) -> (r: Vec<Gate>)
    requires
        f.pid == producer.pid,
        f.differs == !processes(consumers@).contains(producer.pid),
        f.proc_gone == proc_gone,
        f.roles == consumers@.len(),
        f.distinct == distinct_count(processes(consumers@)),
        f.verified == verified,
    ensures
        r@.len() == 2,
        r@[0]@ == gate_at(f, 0),
        r@[1]@ == gate_at(f, 1),
{
    let differs: bool = consumers.all_differ_from(producer.pid);
    let roles: usize = consumers.list.len();
    let distinct: usize = consumers.distinct();
    let gone: bool = match proc_gone {
        Some(b) => b,
        None => true,
    };
    let mut out: Vec<Gate> = Vec::new();
    let mut d: String = "producer pid ".to_owned();
    push_decimal(&mut d, producer.pid as u64);
    d.append(
        "; every recorded consumer pid differs from it; the producer was waited on before any consumer was spawned and its /proc entry was already gone (",
    );
    d.append(
        match proc_gone {
            Some(b) => if b {
                "Some(true)"
            } else {
                "Some(false)"
            },
            None => "None",
        },
    );
    d.append(")");
    out.push(gate("producer_really_exits", differs && gone, d));
    let mut d: String = String::new();
    push_decimal(&mut d, roles as u64);
    d.append(" recorded consumer roles spanning ");
    push_decimal(&mut d, distinct as u64);
    d.append(" distinct pids, none equal to the producer's; ");
    push_decimal(&mut d, verified as u64);
    d.append(" child processes reported a pid matching the one the OS assigned");
    assert(d@ =~= gate_at(f, 1).detail);
    out.push(gate("consumers_are_distinct_processes", distinct == roles && verified > 0, d));
    out
}

/// The gates of a run, in order.
pub fn gates(
    producer: &ProducerReport,
    proc_gone: Option<bool>,
    consumers: &Consumers,
    verified: usize,
    identity: &IdentityLog,
    baseline: &WorkTotals,
    vole: &WorkTotals,
    negative: &NegativeInfo,
    sweep: &SweepLog,
    montages_identical: bool,
) -> (r: Vec<Gate>)
    requires
        producer.state_hash@.len() >= 16,
    ensures
        gate_models(r@) == gate_list(
            facts(
                *producer,
                proc_gone,
                consumers@,
                verified as nat,
                *identity,
                *baseline,
                *vole,
                *negative,
                *sweep,
                montages_identical,
            ),
        ),
{
    let ghost f = facts(
        *producer,
        proc_gone,
        consumers@,
        verified as nat,
        *identity,
        *baseline,
        *vole,
        *negative,
        *sweep,
        montages_identical,
    );
    let mut out = process_gates(producer, proc_gone, consumers, verified, Ghost(f));
    out.push(
        gate(
            "restored_state_bytes_match_original",
            identity.restore_exact,
            "re-serialised (H, C) compared byte-for-byte with the persisted payload on every VOLE request".to_owned(),
        ),
    );
    let mut d: String = "producer state hash ".to_owned();
    d.append(leading(producer.state_hash.as_str(), 16).as_str());
    d.append(" equals the hash of the state every VOLE request generated from");
    out.push(gate("restored_state_hash_matches_producer", identity.start_hash, d));
    let compared: usize = if identity.requests.len() > 0 {
        identity.requests[0].compared_bytes
    } else {
        0
    };
    let mut d: String = String::new();
    push_decimal(&mut d, compared as u64);
    d.append(" frames of exact f32 bytes compared per request, on ");
    push_decimal(&mut d, identity.requests.len() as u64);
    d.append(" requests");
    assert(d@ =~= gate_at(f, 4).detail);
    out.push(gate("baseline_and_restore_outputs_identical", identity.identical, d));
    out.push(
        gate(
            "raw_checkpoint_and_restore_outputs_identical",
            identity.raw_identical(),
            "the raw-checkpoint path produced the same bytes as the baseline on every request".to_owned(),
        ),
    );
    let saved: u64 = baseline.cell_steps.saturating_sub(vole.cell_steps);
    let mut d: String = "baseline ".to_owned();
    push_decimal(&mut d, baseline.cell_steps);
    d.append(" cell steps vs VOLE ");
    push_decimal(&mut d, vole.cell_steps);
    d.append(" cell steps per request; ");
    push_decimal(&mut d, saved);
    d.append(" avoided");
    out.push(gate("fewer_recurrent_steps", saved > 0, d));
    out.push(
        gate(
            "state_is_finite",
            identity.finite && producer.state_finite,
            "no NaN or infinity in H or C, before or after persistence".to_owned(),
        ),
    );
    let mut d: String = "a ".to_owned();
    d.append(negative.requested_scene.as_str());
    d.append(" request offered a ");
    d.append(negative.offered_scene.as_str());
    d.append(" record failed the ");
    d.append(negative.rejection.as_str());
    d.append(" check");
    let named: bool = !same_text(negative.rejection.as_str(), "<none>");
    out.push(gate("negative_state_rejected", negative.rejected && named, d));
    out.push(
        gate(
            "negative_fallback_matches_baseline",
            negative.fallback_matches_baseline,
            "after refusing reuse the request replayed from scratch and produced the same bytes as an independent from-scratch baseline for the unrelated scene".to_owned(),
        ),
    );
    let mut d: String = String::new();
    push_decimal(&mut d, sweep.programs() as u64);
    d.append(
        " request programs; repeats of the same program in different fresh processes produced identical bytes, and no two programs collided",
    );
    assert(d@ =~= gate_at(f, 10).detail);
    let agree: bool = sweep.repeated_identical && !sweep.programs_collide();
    out.push(gate("fresh_process_requests_are_bit_identical", agree, d));
    out.push(
        gate(
            "montages_identical",
            montages_identical,
            "the from-scratch montage and the restored montage are byte-identical images".to_owned(),
        ),
    );
    assert(gate_models(out@) =~= gate_list(f));
    out
}

/// Whether every gate passed.
pub fn passed(gates: &[Gate]) -> (r: bool)
    ensures
        r == all_ok(gate_models(gates@)),
{
    let mut i: usize = 0;
    while i < gates.len()
        invariant
            i <= gates@.len(),
            forall|j: int| 0 <= j < i ==> (#[trigger] gate_models(gates@)[j]).ok,
        decreases gates@.len() - i,
    {
        if !gates[i].ok {
            assert(!gate_models(gates@)[i as int].ok);
            return false;
        }
        i = i + 1;
    }
    true
}

/// A run passes exactly when the producer had really exited, the consumers were
/// processes of their own, the restored state was the producer's, all paths emitted
/// the same bytes with fewer recurrent steps, every state was finite, the state of
/// the wrong scene was refused and replaced by a replay, repeats agreed, programs
/// differed, and the two montages are the same.
pub proof fn law_what_a_pass_means(f: Facts)
    ensures
        all_ok(gate_list(f)) <==> {
            &&& f.differs && (f.proc_gone matches Some(gone) ==> gone)
            &&& f.distinct == f.roles && f.verified > 0
            &&& f.restore_exact
            &&& f.start_hash
            &&& f.identical
            &&& f.raw_identical
            &&& f.avoided > 0
            &&& f.start_finite && f.state_finite
            &&& f.rejected && f.rejection != "<none>"@
            &&& f.fallback_matches
            &&& f.repeated_identical && !f.collide
            &&& f.montages_identical
        },
{
    let g = gate_list(f);
    if all_ok(g) {
        assert(g[0].ok && g[1].ok && g[2].ok && g[3].ok && g[4].ok && g[5].ok);
        assert(g[6].ok && g[7].ok && g[8].ok && g[9].ok && g[10].ok && g[11].ok);
    }
}

/// Performance does not decide: runs whose evidence differs in times alone have the
/// same gates.
pub proof fn law_performance_does_not_decide(
    a: ProducerReport,
    b: ProducerReport,
    proc_gone: Option<bool>,
    consumers: Seq<(Seq<char>, u32)>,
    verified: nat,
    identity: IdentityLog,
    baseline: WorkTotals,
    vole: WorkTotals,
    negative: NegativeInfo,
    sweep: SweepLog,
    montages_identical: bool,
)
    requires
        b == (ProducerReport { timings: b.timings, ..a }),
    ensures
        gate_list(
            facts(
                a,
                proc_gone,
                consumers,
                verified,
                identity,
                baseline,
                vole,
                negative,
                sweep,
                montages_identical,
            ),
        ) == gate_list(
            facts(
                b,
                proc_gone,
                consumers,
                verified,
                identity,
                baseline,
                vole,
                negative,
                sweep,
                montages_identical,
            ),
        ),
{
}

/// A run passes exactly when its evidence says so, piece by piece: no consumer was the
/// producer's process and no two consumers were one process; some process was verified;
/// the producer was not seen alive; the restored states were exact and the producer's; on
/// every compared request the restored future and the raw future were the baseline's; a
/// replay takes more recurrent steps than a restore; everything was finite; the wrong
/// scene's state was refused for a reason and the refusal answered like a replay; repeats
/// agreed, no two programs had one output, and the two montages were the same.
pub proof fn law_a_pass_is_the_evidence(
    producer: ProducerReport,
    proc_gone: Option<bool>,
    consumers: Seq<(Seq<char>, u32)>,
    verified: nat,
    identity: IdentityLog,
    baseline: WorkTotals,
    vole: WorkTotals,
    negative: NegativeInfo,
    sweep: SweepLog,
    montages_identical: bool,
)
    requires
        tallied(identity),
    ensures
        all_ok(
            gate_list(
                facts(
                    producer,
                    proc_gone,
                    consumers,
                    verified,
                    identity,
                    baseline,
                    vole,
                    negative,
                    sweep,
                    montages_identical,
                ),
            ),
        ) <==> {
            &&& forall|i: int| 0 <= i < consumers.len() ==> (#[trigger] consumers[i]).1
                != producer.pid
            &&& proc_gone != Some(false)
            &&& forall|i: int, j: int|
                0 <= i < j < consumers.len() ==> (#[trigger] consumers[i]).1 != (
                #[trigger] consumers[j]).1
            &&& verified > 0
            &&& identity.restore_exact
            &&& identity.start_hash
            &&& forall|i: int|
                0 <= i < identity.requests@.len() ==> (
                #[trigger] identity.requests@[i]).baseline_eq_vole
                    && identity.requests@[i].baseline_eq_raw
            &&& baseline.cell_steps > vole.cell_steps
            &&& identity.finite
            &&& producer.state_finite
            &&& negative.rejected
            &&& negative.rejection@ != "<none>"@
            &&& negative.fallback_matches_baseline
            &&& sweep.repeated_identical
            &&& !collide(sweep@)
            &&& montages_identical
        },
{
    let f = facts(
        producer,
        proc_gone,
        consumers,
        verified,
        identity,
        baseline,
        vole,
        negative,
        sweep,
        montages_identical,
    );
    law_what_a_pass_means(f);
    let pids = processes(consumers);
    crate::demo::consumers::law_equal_counts_mean_distinct_processes(consumers);
    assert(pids.len() == consumers.len());
    assert forall|i: int| 0 <= i < consumers.len() implies pids[i] == (#[trigger] consumers[i]).1 by {}
    assert(f.differs <==> forall|i: int|
        0 <= i < consumers.len() ==> (#[trigger] consumers[i]).1 != producer.pid) by {
        if pids.contains(producer.pid) {
            let i = choose|i: int| 0 <= i < pids.len() && pids[i] == producer.pid;
            assert(consumers[i].1 == producer.pid);
        }
        if exists|i: int| 0 <= i < consumers.len() && (#[trigger] consumers[i]).1 == producer.pid {
            let i = choose|i: int|
                0 <= i < consumers.len() && (#[trigger] consumers[i]).1 == producer.pid;
            assert(pids[i] == producer.pid);
        }
    }
    assert(pids.no_duplicates() <==> forall|i: int, j: int|
        0 <= i < j < consumers.len() ==> (#[trigger] consumers[i]).1 != (
        #[trigger] consumers[j]).1) by {
        if !pids.no_duplicates() {
            let (i, j) = choose|i: int, j: int|
                0 <= i < pids.len() && 0 <= j < pids.len() && i != j && pids[i] == pids[j];
            if i < j {
                assert(consumers[i].1 == consumers[j].1);
            } else {
                assert(consumers[j].1 == consumers[i].1);
            }
        }
        if exists|i: int, j: int|
            0 <= i < j < consumers.len() && (#[trigger] consumers[i]).1 == (
            #[trigger] consumers[j]).1 {
            let (i, j) = choose|i: int, j: int|
                0 <= i < j < consumers.len() && (#[trigger] consumers[i]).1 == (
                #[trigger] consumers[j]).1;
            assert(pids[i] == pids[j]);
        }
    }
}

/// The twelve gates and what each of them is called.
pub proof fn law_gates_are_named(f: Facts)
    ensures
        gate_list(f).len() == 12,
        gate_list(f)[0].name == "producer_really_exits"@,
        gate_list(f)[1].name == "consumers_are_distinct_processes"@,
        gate_list(f)[2].name == "restored_state_bytes_match_original"@,
        gate_list(f)[3].name == "restored_state_hash_matches_producer"@,
        gate_list(f)[4].name == "baseline_and_restore_outputs_identical"@,
        gate_list(f)[5].name == "raw_checkpoint_and_restore_outputs_identical"@,
        gate_list(f)[6].name == "fewer_recurrent_steps"@,
        gate_list(f)[7].name == "state_is_finite"@,
        gate_list(f)[8].name == "negative_state_rejected"@,
        gate_list(f)[9].name == "negative_fallback_matches_baseline"@,
        gate_list(f)[10].name == "fresh_process_requests_are_bit_identical"@,
        gate_list(f)[11].name == "montages_identical"@,
{
}

/// Each gate by itself: it is open exactly when its own piece of the evidence is good,
/// whatever the others say.
pub proof fn law_each_gate_has_its_own_evidence(
    producer: ProducerReport,
    proc_gone: Option<bool>,
    consumers: Seq<(Seq<char>, u32)>,
    verified: nat,
    identity: IdentityLog,
    baseline: WorkTotals,
    vole: WorkTotals,
    negative: NegativeInfo,
    sweep: SweepLog,
    montages_identical: bool,
)
    requires
        tallied(identity),
    ensures
        ({
            let g = gate_list(
                facts(
                    producer,
                    proc_gone,
                    consumers,
                    verified,
                    identity,
                    baseline,
                    vole,
                    negative,
                    sweep,
                    montages_identical,
                ),
            );
            &&& g[2].ok == identity.restore_exact
            &&& g[3].ok == identity.start_hash
            &&& g[4].ok <==> forall|i: int|
                0 <= i < identity.requests@.len() ==> (
                #[trigger] identity.requests@[i]).baseline_eq_vole
                    && identity.requests@[i].baseline_eq_raw
            &&& g[5].ok <==> forall|i: int|
                0 <= i < identity.requests@.len() ==> (
                #[trigger] identity.requests@[i]).baseline_eq_raw
            &&& g[6].ok <==> baseline.cell_steps > vole.cell_steps
            &&& g[7].ok <==> identity.finite && producer.state_finite
            &&& g[8].ok <==> negative.rejected && negative.rejection@ != "<none>"@
            &&& g[9].ok == negative.fallback_matches_baseline
            &&& g[10].ok <==> sweep.repeated_identical && !collide(sweep@)
            &&& g[11].ok == montages_identical
        }),
{
}

/// What the evidence counts: the bytes that were compared for the first request, the requests,
/// and the steps.
pub proof fn law_evidence_counts(
    producer: ProducerReport,
    proc_gone: Option<bool>,
    consumers: Seq<(Seq<char>, u32)>,
    verified: nat,
    identity: IdentityLog,
    baseline: WorkTotals,
    vole: WorkTotals,
    negative: NegativeInfo,
    sweep: SweepLog,
    montages_identical: bool,
)
    ensures
        ({
            let f = facts(
                producer,
                proc_gone,
                consumers,
                verified,
                identity,
                baseline,
                vole,
                negative,
                sweep,
                montages_identical,
            );
            &&& f.pid == producer.pid && f.roles == consumers.len() && f.verified == verified
            &&& f.requests == identity.requests@.len()
            &&& f.requests > 0 ==> f.compared == identity.requests@[0].compared_bytes
            &&& f.requests == 0 ==> f.compared == 0
            &&& f.baseline_steps == baseline.cell_steps && f.vole_steps == vole.cell_steps
            &&& vole.cell_steps <= baseline.cell_steps ==> f.avoided + vole.cell_steps
                == baseline.cell_steps
        }),
{
}

} // verus!
