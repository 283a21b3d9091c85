//! How a request comes by its starting state, or refuses it.

use vstd::prelude::*;

use crate::experiment::args::{opt_text, Mode};
use crate::state::compat::{accepts, all_checks, check_models, first_failing, lemma_first_failing,
    law_reuse_is_permitted_iff_the_record_fits, Check, CheckModel, Expectation};
use crate::state::hashes::hex32;
use crate::state::record::{RecordModel, StateRecord};
use crate::text::hex;

verus! {

/// How a request child obtained, or refused, its starting state.
#[derive(Debug)]
pub struct RestoreReport {
    /// Whether a persisted state was offered at all.
    pub offered: bool,
    /// The scene that the offered record itself carried.
    pub offered_scene: Option<String>,
    /// The state hash that the offered record carried.
    pub offered_state_hash: Option<String>,
    /// Whether the offered bytes carried an identity that could be checked. A raw
    /// payload carries none.
    pub identity_available: bool,
    /// Whether the offered state was accepted for reuse.
    pub accepted: bool,
    /// `entropyfs`, `raw-file` or `replay-from-scratch`.
    pub mechanism: String,
    /// Every compatibility check that was evaluated, passed or not.
    pub checks: Vec<Check>,
    /// Name of the first failing check, if reuse was rejected.
    pub rejection: Option<String>,
    /// What the request did instead, if reuse was rejected.
    pub fallback: Option<String>,
}

/// A [`RestoreReport`] with its texts as sequences of characters.
pub struct RestoreModel {
    pub offered: bool,
    pub offered_scene: Option<Seq<char>>,
    pub offered_state_hash: Option<Seq<char>>,
    pub identity_available: bool,
    pub accepted: bool,
    pub mechanism: Seq<char>,
    pub checks: Seq<CheckModel>,
    pub rejection: Option<Seq<char>>,
    pub fallback: Option<Seq<char>>,
}

impl View for RestoreReport {
    type V = RestoreModel;

    open spec fn view(&self) -> RestoreModel {
        RestoreModel {
            offered: self.offered,
            offered_scene: opt_text(self.offered_scene),
            offered_state_hash: opt_text(self.offered_state_hash),
            identity_available: self.identity_available,
            accepted: self.accepted,
            mechanism: self.mechanism@,
            checks: check_models(self.checks@),
            rejection: opt_text(self.rejection),
            fallback: opt_text(self.fallback),
        }
    }
}

impl RestoreModel {
    /// Nothing has happened yet.
    pub open spec fn initial() -> RestoreModel {
        RestoreModel {
            offered: false,
            offered_scene: None,
            offered_state_hash: None,
            identity_available: false,
            accepted: false,
            mechanism: Seq::empty(),
            checks: Seq::empty(),
            rejection: None,
            fallback: None,
        }
    }

    /// The account after a record, or nothing, was offered to a request that
    /// expects `exp`. A record that fails a check is refused, and the request
    /// replays from scratch.
    pub open spec fn offered(
        self,
        mode: Mode,
        record: Option<RecordModel>,
        exp: Expectation,
    ) -> RestoreModel {
        match record {
            None => RestoreModel { offered: false, mechanism: "replay-from-scratch"@, ..self },
            Some(rec) => {
                let checks = all_checks(rec, exp);
                let k = first_failing(checks, 0);
                let seen = RestoreModel {
                    offered: true,
                    offered_scene: Some(rec.scene.text()),
                    offered_state_hash: Some(hex(rec.state_hash)),
                    identity_available: mode == Mode::Vole,
                    checks,
                    ..self
                };
                if k < checks.len() {
                    RestoreModel {
                        accepted: false,
                        rejection: Some(checks[k].name),
                        mechanism: "replay-from-scratch"@,
                        fallback: Some("replay-from-scratch"@),
                        ..seen
                    }
                } else {
                    RestoreModel {
                        accepted: true,
                        mechanism: if mode == Mode::Vole {
                            "entropyfs"@
                        } else {
                            "raw-file"@
                        },
                        ..seen
                    }
                }
            },
        }
    }
}

/// Whether a record, or nothing, is reused by a request that expects `exp`.
pub open spec fn is_reused(record: Option<RecordModel>, exp: Expectation) -> bool {
    record matches Some(rec) && accepts(rec, exp)
}

/// An optional record as its model.
pub open spec fn opt_record(record: Option<&StateRecord>) -> Option<RecordModel> {
    match record {
        Some(r) => Some(r@),
        None => None,
    }
}

impl Default for RestoreReport {
    fn default() -> (r: RestoreReport)
        ensures
            r@ == RestoreModel::initial(),
    {
        let r = RestoreReport {
            offered: false,
            offered_scene: None,
            offered_state_hash: None,
            identity_available: false,
            accepted: false,
            mechanism: String::new(),
            checks: Vec::new(),
            rejection: None,
            fallback: None,
        };
        assert(r@.checks =~= RestoreModel::initial().checks);
        r
    }
}

impl RestoreReport {
    /// Offer a record, or nothing, and decide whether it is reused. A refused
    /// record, like none at all, means a replay from scratch.
    pub fn offer(&mut self, mode: Mode, record: Option<&StateRecord>, exp: &Expectation) -> (reuse:
        bool)
        ensures
            reuse == is_reused(opt_record(record), *exp),
            final(self)@ == old(self)@.offered(mode, opt_record(record), *exp),
    {
        match record {
            None => {
                self.offered = false;
                self.mechanism = "replay-from-scratch".to_owned();
                false
            },
            Some(rec) => {
                let checks = rec.compatibility(exp);
                proof {
                    law_reuse_is_permitted_iff_the_record_fits(rec@, *exp);
                    lemma_first_failing(all_checks(rec@, *exp), 0);
                    assert(check_models(checks@).len() == checks@.len());
                }
                let rejection: Option<String> = match rec.first_rejection(checks.as_slice()) {
                    Some(c) => {
                        assert(c@ == check_models(checks@)[first_failing(check_models(checks@), 0)]);
                        Some(c.name.clone())
                    },
                    None => None,
                };
                self.offered = true;
                self.offered_scene = Some(rec.scene.as_str().to_owned());
                self.offered_state_hash = Some(hex32(&rec.state_hash));
                self.identity_available = mode == Mode::Vole;
                self.checks = checks;
                match rejection {
                    Some(name) => {
                        self.accepted = false;
                        self.rejection = Some(name);
                        self.mechanism = "replay-from-scratch".to_owned();
                        self.fallback = Some("replay-from-scratch".to_owned());
                        false
                    },
                    None => {
                        self.accepted = true;
                        self.mechanism = if mode == Mode::Vole {
                            "entropyfs".to_owned()
                        } else {
                            "raw-file".to_owned()
                        };
                        true
                    },
                }
            },
        }
    }
}

/// A request fails closed: a record that does not fit is refused by the name of
/// its first failing check, whatever mode offered it, and the request replays from
/// scratch; a record that fits is accepted.
pub proof fn law_unfit_records_are_refused(
    before: RestoreModel,
    mode: Mode,
    rec: RecordModel,
    exp: Expectation,
)
    ensures
        ({
            let r = before.offered(mode, Some(rec), exp);
            let k = first_failing(all_checks(rec, exp), 0);
            &&& r.accepted == accepts(rec, exp)
            &&& !accepts(rec, exp) ==> {
                &&& r.mechanism == "replay-from-scratch"@
                &&& r.fallback == Some("replay-from-scratch"@)
                &&& 0 <= k < 6
                &&& !all_checks(rec, exp)[k].ok
                &&& r.rejection == Some(all_checks(rec, exp)[k].name)
            }
            &&& r.checks == all_checks(rec, exp)
        }),
{
    law_reuse_is_permitted_iff_the_record_fits(rec, exp);
    lemma_first_failing(all_checks(rec, exp), 0);
}

/// What an offer leads to. Nothing offered is a replay. A record that was offered is shown by
/// its scene and its hash, and only the store's can show who it is; one that fits is taken,
/// from the store or from the file that offered it.
pub proof fn law_what_an_offer_leads_to(
    before: RestoreModel,
    mode: Mode,
    rec: RecordModel,
    exp: Expectation,
)
    ensures
        ({
            let r = before.offered(mode, None, exp);
            &&& !r.offered
            &&& r.mechanism == "replay-from-scratch"@
            &&& r.accepted == before.accepted
            &&& r.checks == before.checks
        }),
        ({
            let r = before.offered(mode, Some(rec), exp);
            &&& r.offered
            &&& r.offered_scene == Some(rec.scene.text())
            &&& r.offered_state_hash == Some(hex(rec.state_hash))
            &&& r.identity_available <==> mode == Mode::Vole
            &&& r.accepted <==> accepts(rec, exp)
            &&& r.accepted && mode == Mode::Vole ==> r.mechanism == "entropyfs"@
            &&& r.accepted && mode != Mode::Vole ==> r.mechanism == "raw-file"@
            &&& r.accepted ==> r.rejection == before.rejection && r.fallback == before.fallback
            &&& !r.accepted ==> r.mechanism == "replay-from-scratch"@
        }),
        !is_reused(None, exp),
        is_reused(Some(rec), exp) <==> accepts(rec, exp),
        ({
            let r = RestoreModel::initial();
            &&& !r.offered && !r.accepted && !r.identity_available
            &&& r.rejection is None && r.fallback is None && r.checks.len() == 0
        }),
{
    law_unfit_records_are_refused(before, mode, rec, exp);
}

} // verus!
