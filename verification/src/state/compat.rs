//! Whether a record is the right one for a request.

use vstd::prelude::*;

use crate::bytes::bytes_equal;
use crate::model::config::{ModelConfig, CARRY_CHANNELS};
use crate::scene::SceneId;
use crate::state::hashes::{blake3_digest, hex32, state_hash};
use crate::state::record::{RecordModel, StateRecord};
use crate::text::{decimal, decimal_text, hex, push_decimal};

verus! {

/// One compatibility check, evaluated and reported whether or not it passed.
#[derive(Debug, PartialEq, Eq)]
pub struct Check {
    /// Stable check name.
    pub name: String,
    /// What the request expects.
    pub expected: String,
    /// What the record carries.
    pub observed: String,
    /// Whether they agree.
    pub ok: bool,
}

/// A [`Check`] with its texts as sequences of characters.
pub struct CheckModel {
    pub name: Seq<char>,
    pub expected: Seq<char>,
    pub observed: Seq<char>,
    pub ok: bool,
}

impl View for Check {
    type V = CheckModel;

    open spec fn view(&self) -> CheckModel {
        CheckModel {
            name: self.name@,
            expected: self.expected@,
            observed: self.observed@,
            ok: self.ok,
        }
    }
}

/// A list of checks by their texts.
pub open spec fn check_models(checks: Seq<Check>) -> Seq<CheckModel> {
    checks.map_values(|c: Check| c@)
}

impl Check {
    /// A check with these texts.
    pub fn new(name: &str, expected: String, observed: String, ok: bool) -> (r: Check)
        ensures
            r@ == (CheckModel { name: name@, expected: expected@, observed: observed@, ok }),
    {
        Check { name: name.to_owned(), expected, observed, ok }
    }
}

impl Clone for Check {
    fn clone(&self) -> (r: Check)
        ensures
            r@ == self@,
    {
        Check {
            name: self.name.clone(),
            expected: self.expected.clone(),
            observed: self.observed.clone(),
            ok: self.ok,
        }
    }
}

/// What a request demands of a state before it will reuse it.
#[derive(Debug, Clone, Copy)]
pub struct Expectation {
    /// Behaviour-determining hash of the weights in use.
    pub model_weights_hash: [u8; 32],
    /// Architecture hash of the model in use.
    pub config_hash: [u8; 32],
    /// Scene that the request belongs to.
    pub scene: SceneId,
    /// Context length that the request believes it is continuing.
    pub context_len: u32,
    /// Architecture in use.
    pub cfg: ModelConfig,
}

/// Channels, carry channels, height and width as the shape check prints them.
pub open spec fn state_shape_text(hidden: nat, carry: nat, height: nat, width: nat) -> Seq<char> {
    decimal(hidden) + "x"@ + decimal(carry) + "+"@ + decimal(height) + "x"@ + decimal(width)
        + "x0"@
}

/// The declared dimensions of a record are those of an architecture.
pub open spec fn same_shape(m: RecordModel, cfg: ModelConfig) -> bool {
    &&& m.hidden_channels == cfg.hidden_channels as u32
    &&& m.carry_channels == 2
    &&& m.height == cfg.height as u32
    &&& m.width == cfg.width as u32
}

/// Every compatibility check of a record against an expectation, in order.
pub open spec fn all_checks(m: RecordModel, exp: Expectation) -> Seq<CheckModel> {
    let digest = blake3_digest(m.payload());
    seq![
        CheckModel {
            name: "model_weights_hash"@,
            expected: hex(exp.model_weights_hash@),
            observed: hex(m.model_weights_hash),
            ok: m.model_weights_hash == exp.model_weights_hash@,
        },
        CheckModel {
            name: "model_config_hash"@,
            expected: hex(exp.config_hash@),
            observed: hex(m.config_hash),
            ok: m.config_hash == exp.config_hash@,
        },
        CheckModel {
            name: "scene_identity"@,
            expected: exp.scene.text(),
            observed: m.scene.text(),
            ok: m.scene == exp.scene,
        },
        CheckModel {
            name: "context_length"@,
            expected: decimal(exp.context_len as nat),
            observed: decimal(m.context_len as nat),
            ok: m.context_len == exp.context_len,
        },
        CheckModel {
            name: "state_shape"@,
            expected: state_shape_text(
                exp.cfg.hidden_channels as nat,
                2,
                exp.cfg.height as nat,
                exp.cfg.width as nat,
            ),
            observed: state_shape_text(
                m.hidden_channels as nat,
                m.carry_channels as nat,
                m.height as nat,
                m.width as nat,
            ),
            ok: same_shape(m, exp.cfg),
        },
        CheckModel {
            name: "state_hash"@,
            expected: hex(digest),
            observed: hex(m.state_hash),
            ok: digest == m.state_hash,
        },
    ]
}

/// The record is the right one: same weights, same architecture hash, same scene,
/// same context length, same dimensions, and an unharmed payload.
pub open spec fn accepts(m: RecordModel, exp: Expectation) -> bool {
    &&& m.model_weights_hash == exp.model_weights_hash@
    &&& m.config_hash == exp.config_hash@
    &&& m.scene == exp.scene
    &&& m.context_len == exp.context_len
    &&& same_shape(m, exp.cfg)
    &&& blake3_digest(m.payload()) == m.state_hash
}

/// Where the first check that did not pass stands, from `k` on; the length of the
/// list if there is none.
pub open spec fn first_failing(checks: Seq<CheckModel>, k: int) -> int
    decreases checks.len() - k,
{
    if k >= checks.len() {
        checks.len() as int
    } else if !checks[k].ok {
        k
    } else {
        first_failing(checks, k + 1)
    }
}

/// Appends the dimensions as the shape check prints them.
fn shape_check_text(hidden: u64, carry: u64, height: u64, width: u64) -> (out: String)
    ensures
        out@ == state_shape_text(hidden as nat, carry as nat, height as nat, width as nat),
{
    let mut out: String = String::new();
    push_decimal(&mut out, hidden);
    out.append("x");
    push_decimal(&mut out, carry);
    out.append("+");
    push_decimal(&mut out, height);
    out.append("x");
    push_decimal(&mut out, width);
    out.append("x0");
    assert(out@ =~= state_shape_text(hidden as nat, carry as nat, height as nat, width as nat));
    out
}

impl StateRecord {
    /// Every compatibility check, evaluated in a fixed order and reported in
    /// full: a failing one hides none of the others.
    pub fn compatibility(&self, exp: &Expectation) -> (r: Vec<Check>)
        ensures
            check_models(r@) == all_checks(self@, *exp),
    {
        let digest = state_hash(self.h.as_slice(), self.c.as_slice(), self.carry.as_slice());
        let shape_ok: bool = self.hidden_channels == exp.cfg.hidden_channels as u32
            && self.carry_channels == CARRY_CHANNELS as u32 && self.height == exp.cfg.height as u32
            && self.width == exp.cfg.width as u32;
        let mut r: Vec<Check> = Vec::with_capacity(6);
        r.push(
            Check::new(
                "model_weights_hash",
                hex32(&exp.model_weights_hash),
                hex32(&self.model_weights_hash),
                bytes_equal(self.model_weights_hash.as_slice(), exp.model_weights_hash.as_slice()),
            ),
        );
        r.push(
            Check::new(
                "model_config_hash",
                hex32(&exp.config_hash),
                hex32(&self.config_hash),
                bytes_equal(self.config_hash.as_slice(), exp.config_hash.as_slice()),
            ),
        );
        r.push(
            Check::new(
                "scene_identity",
                exp.scene.as_str().to_owned(),
                self.scene.as_str().to_owned(),
                self.scene == exp.scene,
            ),
        );
        r.push(
            Check::new(
                "context_length",
                decimal_text(exp.context_len as u64),
                decimal_text(self.context_len as u64),
                self.context_len == exp.context_len,
            ),
        );
        r.push(
            Check::new(
                "state_shape",
                shape_check_text(
                    exp.cfg.hidden_channels as u64,
                    CARRY_CHANNELS as u64,
                    exp.cfg.height as u64,
                    exp.cfg.width as u64,
                ),
                shape_check_text(
                    self.hidden_channels as u64,
                    self.carry_channels as u64,
                    self.height as u64,
                    self.width as u64,
                ),
                shape_ok,
            ),
        );
        r.push(
            Check::new(
                "state_hash",
                hex32(&digest),
                hex32(&self.state_hash),
                bytes_equal(digest.as_slice(), self.state_hash.as_slice()),
            ),
        );
        assert(check_models(r@) =~= all_checks(self@, *exp));
        r
    }

    /// The first check that did not pass, if any. `None` means that reuse is
    /// permitted.
    pub fn first_rejection<'a>(&self, checks: &'a [Check]) -> (r: Option<&'a Check>)
        ensures
            match r {
                Some(c) => first_failing(check_models(checks@), 0) < checks@.len() && *c
                    == checks@[first_failing(check_models(checks@), 0)],
                None => first_failing(check_models(checks@), 0) == checks@.len(),
            },
    {
        let mut k: usize = 0;
        while k < checks.len()
            invariant
                k <= checks@.len(),
                first_failing(check_models(checks@), 0) == first_failing(
                    check_models(checks@),
                    k as int,
                ),
            decreases checks@.len() - k,
        {
            if !checks[k].ok {
                return Some(&checks[k]);
            }
            k = k + 1;
        }
        None
    }
}

/// The first failing check fails, and all before it passed.
pub proof fn lemma_first_failing(checks: Seq<CheckModel>, k: int)
    requires
        0 <= k <= checks.len(),
    ensures
        k <= first_failing(checks, k) <= checks.len(),
        first_failing(checks, k) < checks.len() ==> !checks[first_failing(checks, k)].ok,
        forall|i: int| k <= i < first_failing(checks, k) ==> (#[trigger] checks[i]).ok,
    decreases checks.len() - k,
{
    if k < checks.len() && checks[k].ok {
        lemma_first_failing(checks, k + 1);
    }
}

/// Reuse is permitted exactly when the record is the right one.
pub proof fn law_reuse_is_permitted_iff_the_record_fits(m: RecordModel, exp: Expectation)
    ensures
        first_failing(all_checks(m, exp), 0) == 6 <==> accepts(m, exp),
        all_checks(m, exp).len() == 6,
{
    let cs = all_checks(m, exp);
    lemma_first_failing(cs, 0);
    assert(cs[0].ok == (m.model_weights_hash == exp.model_weights_hash@));
    assert(cs[1].ok == (m.config_hash == exp.config_hash@));
    assert(cs[2].ok == (m.scene == exp.scene));
    assert(cs[3].ok == (m.context_len == exp.context_len));
    assert(cs[4].ok == same_shape(m, exp.cfg));
    assert(cs[5].ok == (blake3_digest(m.payload()) == m.state_hash));
}

/// A record of another scene is rejected on its scene, when weights and
/// architecture agree; all checks are still reported.
pub proof fn law_wrong_scene_is_rejected_by_name(m: RecordModel, exp: Expectation)
    requires
        m.model_weights_hash == exp.model_weights_hash@,
        m.config_hash == exp.config_hash@,
        m.scene != exp.scene,
    ensures
        first_failing(all_checks(m, exp), 0) == 2,
        all_checks(m, exp)[2].name == "scene_identity"@,
        all_checks(m, exp).len() == 6,
{
    let cs = all_checks(m, exp);
    assert(cs[0].ok && cs[1].ok && !cs[2].ok);
    reveal_with_fuel(first_failing, 4);
}

/// What a check shows decides it, save for sizes that are cut to 32 bits: a
/// passing hash, scene or context check shows the same text twice, and a failing
/// one shows two different texts.
pub proof fn law_shown_texts_decide(m: RecordModel, exp: Expectation, i: int)
    requires
        0 <= i < 6,
        i != 4,
    ensures
        all_checks(m, exp)[i].ok <==> all_checks(m, exp)[i].expected == all_checks(
            m,
            exp,
        )[i].observed,
{
    let cs = all_checks(m, exp);
    if i == 0 {
        if cs[0].expected == cs[0].observed {
            crate::text::lemma_hex_injective(exp.model_weights_hash@, m.model_weights_hash);
        }
    } else if i == 1 {
        if cs[1].expected == cs[1].observed {
            crate::text::lemma_hex_injective(exp.config_hash@, m.config_hash);
        }
    } else if i == 2 {
        m.scene.lemma_texts();
    } else if i == 3 {
        if cs[3].expected == cs[3].observed {
            crate::text::lemma_decimal_injective(exp.context_len as nat, m.context_len as nat);
        }
    } else {
        if cs[5].expected == cs[5].observed {
            crate::text::lemma_hex_injective(blake3_digest(m.payload()), m.state_hash);
        }
    }
}

// ---------------------------------------------------------------------------
// What reuse demands
// ---------------------------------------------------------------------------

/// A record may be reused exactly when it was earned by these weights, in this architecture,
/// from this scene, over a context of this length, has the shape of this architecture's
/// state, and its stored hash is that of its three tensors.
pub proof fn law_reuse_demands_everything(m: RecordModel, exp: Expectation)
    ensures
        accepts(m, exp) <==> {
            &&& m.model_weights_hash == exp.model_weights_hash@
            &&& m.config_hash == exp.config_hash@
            &&& m.scene == exp.scene
            &&& m.context_len == exp.context_len
            &&& m.hidden_channels == exp.cfg.hidden_channels as u32
            &&& m.carry_channels == 2
            &&& m.height == exp.cfg.height as u32
            &&& m.width == exp.cfg.width as u32
            &&& m.state_hash == blake3_digest(m.h + m.c + m.carry)
        },
        first_failing(all_checks(m, exp), 0) == 6 <==> accepts(m, exp),
{
    law_reuse_is_permitted_iff_the_record_fits(m, exp);
}

/// The six checks, what each is called and what it looks at.
pub proof fn law_each_check_looks_at_its_own(m: RecordModel, exp: Expectation)
    ensures
        ({
            let c = all_checks(m, exp);
            &&& c.len() == 6
            &&& c[0].name == "model_weights_hash"@
            &&& c[0].ok <==> m.model_weights_hash == exp.model_weights_hash@
            &&& c[1].name == "model_config_hash"@
            &&& c[1].ok <==> m.config_hash == exp.config_hash@
            &&& c[2].name == "scene_identity"@
            &&& c[2].ok <==> m.scene == exp.scene
            &&& c[3].name == "context_length"@
            &&& c[3].ok <==> m.context_len == exp.context_len
            &&& c[4].name == "state_shape"@
            &&& c[4].ok <==> m.hidden_channels == exp.cfg.hidden_channels as u32
                && m.carry_channels == 2 && m.height == exp.cfg.height as u32 && m.width
                == exp.cfg.width as u32
            &&& c[5].name == "state_hash"@
            &&& c[5].ok <==> m.state_hash == blake3_digest(m.h + m.c + m.carry)
        }),
{
}

/// The rejection is the first check that failed: those in front of it all passed.
pub proof fn law_first_failure_is_the_rejection(checks: Seq<CheckModel>, k: int)
    requires
        0 <= k <= checks.len(),
        forall|i: int| 0 <= i < k ==> (#[trigger] checks[i]).ok,
        k < checks.len() ==> !checks[k].ok,
    ensures
        first_failing(checks, 0) == k,
{
    lemma_failing_from(checks, 0, k);
}

/// The first check that failed, from `from` on.
proof fn lemma_failing_from(checks: Seq<CheckModel>, from: int, k: int)
    requires
        0 <= from <= k <= checks.len(),
        forall|i: int| 0 <= i < k ==> (#[trigger] checks[i]).ok,
        k < checks.len() ==> !checks[k].ok,
    ensures
        first_failing(checks, from) == k,
    decreases k - from,
{
    if from < k {
        assert(checks[from].ok);
        lemma_failing_from(checks, from + 1, k);
    }
}

} // verus!
