//! The negative case: a request for one scene is offered the state of another.

use vstd::prelude::*;

use crate::demo::plan::unrelated_scene;
use crate::experiment::args::opt_text;
use crate::experiment::request::RequestReport;
use crate::scene::SceneId;
use crate::state::compat::Check;
use crate::text::same_text;

verus! {

/// What the negative case showed.
#[derive(Debug)]
pub struct NegativeInfo {
    /// Scene that the request wanted.
    pub requested_scene: String,
    /// Scene that the offered record belonged to.
    pub offered_scene: String,
    /// Whether reuse was refused.
    pub rejected: bool,
    /// The failing check.
    pub rejection: String,
    /// Every check that was evaluated.
    pub checks: Vec<Check>,
    /// What the request did instead.
    pub fallback: String,
    /// Hash of the fallback's output.
    pub fallback_output_hash: String,
    /// Hash of a replay for the same request in a process of its own.
    pub reference_baseline_hash: String,
    /// The two hashes are equal.
    pub fallback_matches_baseline: bool,
    /// Recurrent steps that the refused request still had to execute.
    pub cell_steps_executed: u64,
}

/// A text, or the mark for none.
pub open spec fn or_none(s: Option<Seq<char>>) -> Seq<char> {
    match s {
        Some(t) => t,
        None => "<none>"@,
    }
}

/// A text, or the mark for none.
pub fn text_or_none(s: Option<String>) -> (r: String)
    ensures
        r@ == or_none(opt_text(s)),
{
    match s {
        Some(t) => t,
        None => "<none>".to_owned(),
    }
}

/// `r` is what the refused request and the reference report.
pub open spec fn is_negative_info(
    r: NegativeInfo,
    offered: RequestReport,
    reference: RequestReport,
) -> bool {
    &&& r.requested_scene@ == SceneId::MovingShape02.text()
    &&& r.offered_scene@ == or_none(opt_text(offered.restore.offered_scene))
    &&& r.rejected == !offered.restore.accepted
    &&& r.rejection@ == or_none(opt_text(offered.restore.rejection))
    &&& r.checks == offered.restore.checks
    &&& r.fallback@ == or_none(opt_text(offered.restore.fallback))
    &&& r.fallback_output_hash@ == offered.output_hash@
    &&& r.reference_baseline_hash@ == reference.output_hash@
    &&& r.fallback_matches_baseline == (offered.output_hash@ == reference.output_hash@)
    &&& r.cell_steps_executed == offered.work_total.cell_steps
}

/// What the refused request and the reference that replays from scratch report.
pub fn negative_info(offered: RequestReport, reference: &RequestReport) -> (r: NegativeInfo)
    ensures
        is_negative_info(r, offered, *reference),
{
    let matches_baseline: bool = same_text(
        offered.output_hash.as_str(),
        reference.output_hash.as_str(),
    );
    NegativeInfo {
        requested_scene: unrelated_scene().as_str().to_owned(),
        offered_scene: text_or_none(offered.restore.offered_scene),
        rejected: !offered.restore.accepted,
        rejection: text_or_none(offered.restore.rejection),
        checks: offered.restore.checks,
        fallback: text_or_none(offered.restore.fallback),
        fallback_output_hash: offered.output_hash,
        reference_baseline_hash: reference.output_hash.clone(),
        fallback_matches_baseline: matches_baseline,
        cell_steps_executed: offered.work_total.cell_steps,
    }
}

/// What the negative case shows: the request counts as refused exactly when it did not accept
/// the state, for the reason that it gave, and as answered right exactly when its output has
/// the hash of a replay's.
pub proof fn law_negative_case_is_the_offered_request(
    r: NegativeInfo,
    offered: RequestReport,
    reference: RequestReport,
)
    requires
        is_negative_info(r, offered, reference),
    ensures
        r.rejected <==> !offered.restore.accepted,
        r.fallback_matches_baseline <==> offered.output_hash@ == reference.output_hash@,
        r.fallback_output_hash@ == offered.output_hash@,
        r.reference_baseline_hash@ == reference.output_hash@,
        offered.restore.rejection matches Some(t) ==> r.rejection@ == t@,
        offered.restore.rejection is None ==> r.rejection@ == "<none>"@,
        offered.restore.offered_scene matches Some(t) ==> r.offered_scene@ == t@,
        offered.restore.fallback matches Some(t) ==> r.fallback@ == t@,
        r.requested_scene@ == "moving-shape-02"@,
        r.checks == offered.restore.checks,
        r.cell_steps_executed == offered.work_total.cell_steps,
{
}

} // verus!
