//! The identity evidence: one earned state, related futures, three recovery paths.

use vstd::prelude::*;

use crate::bytes::bytes_equal;
use crate::experiment::args::{opt_text, Mode};
use crate::experiment::frames::{frame_payload, payload_of};
use crate::experiment::request::RequestReport;
use crate::scene::{Control, Request};
use crate::state::hashes::{blake3_digest, hash_hex};
use crate::text::{hex, same_text};

verus! {

/// One related request and how the three paths compared on it.
#[derive(Debug)]
pub struct RequestIdentity {
    /// Request name.
    pub request: String,
    /// Request label.
    pub label: String,
    /// Control codes, one per generation step.
    pub controls: Vec<u8>,
    /// Hash of the baseline's frames.
    pub baseline_hash: String,
    /// Hash of the restored path's frames.
    pub vole_hash: String,
    /// Hash of the raw path's frames.
    pub raw_hash: String,
    /// Bytes compared, per path.
    pub compared_bytes: usize,
    /// The baseline's and the restored path's frames are the same bytes.
    pub baseline_eq_vole: bool,
    /// The baseline's and the raw path's frames are the same bytes.
    pub baseline_eq_raw: bool,
    /// All three are the same bytes.
    pub byte_identical: bool,
}

/// `q` says how the frame files `b`, `r` and `v` compared on a request.
pub open spec fn compares(
    q: RequestIdentity,
    request: Request,
    b: Seq<u8>,
    r: Seq<u8>,
    v: Seq<u8>,
) -> bool {
    &&& q.request@ == request.text()
    &&& q.label@ == request.label_text()
    &&& q.controls@ == request.program().map_values(|u: Control| u.spec_code() as u8)
    &&& q.baseline_hash@ == hex(blake3_digest(payload_of(b)))
    &&& q.vole_hash@ == hex(blake3_digest(payload_of(v)))
    &&& q.raw_hash@ == hex(blake3_digest(payload_of(r)))
    &&& q.compared_bytes == payload_of(b).len()
    &&& q.baseline_eq_vole == (payload_of(b) == payload_of(v))
    &&& q.baseline_eq_raw == (payload_of(b) == payload_of(r))
    &&& q.byte_identical == (payload_of(b) == payload_of(v) && payload_of(b) == payload_of(r))
}

/// How the frame files of the three paths compare on a request.
pub fn compare(request: Request, baseline: &[u8], raw: &[u8], vole: &[u8]) -> (q: RequestIdentity)
    ensures
        compares(q, request, baseline@, raw@, vole@),
{
    let b = frame_payload(baseline);
    let r = frame_payload(raw);
    let v = frame_payload(vole);
    let baseline_eq_vole: bool = bytes_equal(b, v);
    let baseline_eq_raw: bool = bytes_equal(b, r);
    RequestIdentity {
        request: request.name().to_owned(),
        label: request.label().to_owned(),
        controls: request.schedule().codes(),
        baseline_hash: hash_hex(b),
        vole_hash: hash_hex(v),
        raw_hash: hash_hex(r),
        compared_bytes: b.len(),
        baseline_eq_vole,
        baseline_eq_raw,
        byte_identical: baseline_eq_vole && baseline_eq_raw,
    }
}

/// What the compared futures have shown so far.
#[derive(Debug)]
pub struct IdentityLog {
    /// The requests that were compared.
    pub requests: Vec<RequestIdentity>,
    /// Every restored request rebuilt the offered bytes.
    pub restore_exact: bool,
    /// Every restored request generated from the producer's state.
    pub start_hash: bool,
    /// Every request started from a finite state.
    pub finite: bool,
    /// All paths agreed on every request.
    pub identical: bool,
}

/// What a log becomes when a process that generated a compared future reports. Only a
/// restored one answers for the bytes and the hash of its state.
pub open spec fn child_noted(
    before: IdentityLog,
    after: IdentityLog,
    mode: Mode,
    report: RequestReport,
    producer_state: Seq<char>,
) -> bool {
    &&& after.requests == before.requests
    &&& after.identical == before.identical
    &&& after.restore_exact == (before.restore_exact && (mode == Mode::Vole
        ==> report.restore_exact == Some(true)))
    &&& after.start_hash == (before.start_hash && (mode == Mode::Vole ==> opt_text(
        report.start_state_hash,
    ) == Some(producer_state)))
    &&& after.finite == (before.finite && report.start_state_finite)
}

/// What a log becomes when the frame files of the three paths are compared.
pub open spec fn request_noted(
    before: IdentityLog,
    after: IdentityLog,
    request: Request,
    baseline: Seq<u8>,
    raw: Seq<u8>,
    vole: Seq<u8>,
) -> bool {
    &&& after.requests@.len() == before.requests@.len() + 1
    &&& after.requests@.drop_last() == before.requests@
    &&& compares(after.requests@.last(), request, baseline, raw, vole)
    &&& after.identical == (before.identical && after.requests@.last().byte_identical)
    &&& after.restore_exact == before.restore_exact
    &&& after.start_hash == before.start_hash
    &&& after.finite == before.finite
}

impl IdentityLog {
    /// Nothing was compared yet.
    pub fn new() -> (r: IdentityLog)
        ensures
            r.requests@.len() == 0,
            r.restore_exact && r.start_hash && r.finite && r.identical,
    {
        IdentityLog {
            requests: Vec::new(),
            restore_exact: true,
            start_hash: true,
            finite: true,
            identical: true,
        }
    }

    /// A process that generated a compared future reports. Only a restored one
    /// answers for the bytes and the hash of its state.
    pub fn child(&mut self, mode: Mode, report: &RequestReport, producer_state: &str)
        ensures
            child_noted(*old(self), *final(self), mode, *report, producer_state@),
    {
        if mode == Mode::Vole {
            let exact: bool = match report.restore_exact {
                Some(b) => b,
                None => false,
            };
            let same: bool = match &report.start_state_hash {
                Some(h) => same_text(h.as_str(), producer_state),
                None => false,
            };
            self.restore_exact = self.restore_exact && exact;
            self.start_hash = self.start_hash && same;
        }
        self.finite = self.finite && report.start_state_finite;
    }

    /// The frame files of the three paths are compared.
    pub fn request(&mut self, request: Request, baseline: &[u8], raw: &[u8], vole: &[u8])
        ensures
            request_noted(*old(self), *final(self), request, baseline@, raw@, vole@),
    {
        let q = compare(request, baseline, raw, vole);
        self.identical = self.identical && q.byte_identical;
        self.requests.push(q);
        assert(self.requests@.drop_last() =~= old(self).requests@);
    }

    /// Whether the raw path agreed with the baseline on every request.
    pub fn raw_identical(&self) -> (r: bool)
        ensures
            r == all_raw_identical(self.requests@),
    {
        let mut i: usize = 0;
        while i < self.requests.len()
            invariant
                i <= self.requests@.len(),
                forall|j: int| 0 <= j < i ==> (#[trigger] self.requests@[j]).baseline_eq_raw,
            decreases self.requests@.len() - i,
        {
            if !self.requests[i].baseline_eq_raw {
                return false;
            }
            i = i + 1;
        }
        true
    }
}

/// The raw path agreed with the baseline on every request.
pub open spec fn all_raw_identical(requests: Seq<RequestIdentity>) -> bool {
    forall|i: int| 0 <= i < requests.len() ==> (#[trigger] requests[i]).baseline_eq_raw
}

/// Paths that emitted the same bytes are reported with the same hash, so a request
/// whose hashes differ is never reported as identical.
pub proof fn law_identical_frames_have_one_hash(
    q: RequestIdentity,
    request: Request,
    b: Seq<u8>,
    r: Seq<u8>,
    v: Seq<u8>,
)
    requires
        compares(q, request, b, r, v),
        q.byte_identical,
    ensures
        q.baseline_hash@ == q.vole_hash@,
        q.baseline_hash@ == q.raw_hash@,
{
}

// ---------------------------------------------------------------------------
// What the log says
// ---------------------------------------------------------------------------

/// The log's verdict is that of the compared requests: identical exactly when on every one
/// of them the restored and the raw future were the baseline's.
pub open spec fn tallied(log: IdentityLog) -> bool {
    log.identical <==> forall|i: int|
        0 <= i < log.requests@.len() ==> (#[trigger] log.requests@[i]).baseline_eq_vole
            && log.requests@[i].baseline_eq_raw
}

/// The verdict stays that of the compared requests, whatever is noted.
pub proof fn law_verdict_is_that_of_every_request(
    before: IdentityLog,
    after: IdentityLog,
    mode: Mode,
    report: RequestReport,
    state: Seq<char>,
    request: Request,
    b: Seq<u8>,
    r: Seq<u8>,
    v: Seq<u8>,
)
    requires
        tallied(before),
        child_noted(before, after, mode, report, state) || request_noted(
            before,
            after,
            request,
            b,
            r,
            v,
        ),
    ensures
        tallied(after),
{
    if request_noted(before, after, request, b, r, v) {
        let n = before.requests@.len() as int;
        assert forall|i: int| 0 <= i < n implies before.requests@[i]
            == #[trigger] after.requests@[i] by {
            assert(after.requests@.drop_last()[i] == after.requests@[i]);
        }
        if after.identical {
            assert forall|i: int| 0 <= i < after.requests@.len() implies (
            #[trigger] after.requests@[i]).baseline_eq_vole
                && after.requests@[i].baseline_eq_raw by {
                if i < n {
                    assert(before.requests@[i] == after.requests@[i]);
                }
            }
        } else if !before.identical {
            let i = choose|i: int|
                0 <= i < n && !((#[trigger] before.requests@[i]).baseline_eq_vole
                    && before.requests@[i].baseline_eq_raw);
            assert(before.requests@[i] == after.requests@[i]);
        } else {
            assert(after.requests@[n] == after.requests@.last());
        }
    }
}

/// A comparison says of two futures that they are the same exactly when their frame files
/// are the same from their twentieth byte on, and shows the hashes of those bytes.
pub proof fn law_comparison_is_of_the_frames(
    q: RequestIdentity,
    request: Request,
    b: Seq<u8>,
    r: Seq<u8>,
    v: Seq<u8>,
)
    requires
        compares(q, request, b, r, v),
        b.len() >= 20,
        r.len() >= 20,
        v.len() >= 20,
    ensures
        q.baseline_eq_vole <==> b.subrange(20, b.len() as int) == v.subrange(20, v.len() as int),
        q.baseline_eq_raw <==> b.subrange(20, b.len() as int) == r.subrange(20, r.len() as int),
        q.byte_identical <==> q.baseline_eq_vole && q.baseline_eq_raw,
        q.compared_bytes == b.len() - 20,
        q.baseline_hash@ == hex(blake3_digest(b.subrange(20, b.len() as int))),
        q.vole_hash@ == hex(blake3_digest(v.subrange(20, v.len() as int))),
        q.raw_hash@ == hex(blake3_digest(r.subrange(20, r.len() as int))),
        q.request@ == request.text(),
{
    assert(payload_of(b) =~= b.subrange(20, b.len() as int));
    assert(payload_of(r) =~= r.subrange(20, r.len() as int));
    assert(payload_of(v) =~= v.subrange(20, v.len() as int));
}

/// Noting a request adds its comparison behind the others and keeps them as they are.
pub proof fn law_every_request_is_kept(
    before: IdentityLog,
    after: IdentityLog,
    request: Request,
    b: Seq<u8>,
    r: Seq<u8>,
    v: Seq<u8>,
    i: int,
)
    requires
        request_noted(before, after, request, b, r, v),
        0 <= i < before.requests@.len(),
    ensures
        after.requests@[i] == before.requests@[i],
        after.requests@.len() == before.requests@.len() + 1,
        compares(after.requests@[before.requests@.len() as int], request, b, r, v),
        after.restore_exact == before.restore_exact,
        after.start_hash == before.start_hash,
        after.finite == before.finite,
{
    assert(after.requests@.drop_last()[i] == after.requests@[i]);
}

/// A restored request spoils the log where it did not rebuild the offered bytes or did not
/// start from the producer's state, and any request does that started from a state with
/// something that is no number. A log that is spoilt stays so.
pub proof fn law_a_bad_restore_spoils_the_log(
    before: IdentityLog,
    after: IdentityLog,
    mode: Mode,
    report: RequestReport,
    state: Seq<char>,
)
    requires
        child_noted(before, after, mode, report, state),
    ensures
        after.restore_exact ==> before.restore_exact,
        after.start_hash ==> before.start_hash,
        after.finite ==> before.finite && report.start_state_finite,
        mode == Mode::Vole && after.restore_exact ==> report.restore_exact == Some(true),
        mode == Mode::Vole && after.start_hash ==> (report.start_state_hash matches Some(h) && h@
            == state),
        before.restore_exact && report.restore_exact == Some(true) ==> after.restore_exact,
        before.start_hash && (report.start_state_hash matches Some(h) && h@ == state)
            ==> after.start_hash,
        before.finite && report.start_state_finite ==> after.finite,
        mode != Mode::Vole ==> after.restore_exact == before.restore_exact && after.start_hash
            == before.start_hash,
        after.requests == before.requests && after.identical == before.identical,
{
}

/// A comparison is shown with the request's label and the codes of its words.
pub proof fn law_comparison_shows_its_request(
    q: RequestIdentity,
    request: Request,
    b: Seq<u8>,
    r: Seq<u8>,
    v: Seq<u8>,
    i: int,
)
    requires
        compares(q, request, b, r, v),
        0 <= i < request.program().len(),
    ensures
        q.label@ == request.label_text(),
        q.controls@.len() == request.program().len(),
        q.controls@[i] == 3 * request.program()[i].turn + request.program()[i].accel + 4,
{
    crate::scene::law_requests_steer_as_named(request, i);
}

} // verus!
