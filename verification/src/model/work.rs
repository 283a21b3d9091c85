//! Accounting for the arithmetic that was executed.

use vstd::prelude::*;

verus! {

/// The declared arithmetic of one recurrent step and one head application.
#[derive(Debug, Clone, Copy, PartialEq, Eq, Structural)]
pub struct StepWork {
    /// Multiply-accumulates in the cell convolution, per recurrent step.
    pub cell_macs: u64,
    /// Bias additions in the cell, per recurrent step.
    pub cell_bias_adds: u64,
    /// Elementwise multiplies and adds in the cell update, per recurrent step.
    pub cell_mul_adds: u64,
    /// Sigmoid and tanh evaluations in the cell, per recurrent step.
    pub cell_nonlinearities: u64,
    /// Multiply-accumulates in the output head, per emission.
    pub head_macs: u64,
    /// Bias additions in the output head, per emission.
    pub head_bias_adds: u64,
}

/// Counter of what was executed.
#[derive(Debug, Clone, Copy, PartialEq, Eq, Structural)]
pub struct WorkMeter {
    /// Recurrent cell steps executed.
    pub cell_steps: u64,
    /// Output-head applications executed.
    pub head_applications: u64,
}

/// [`StepWork`] scaled by a [`WorkMeter`].
#[derive(Debug, Clone, Copy, PartialEq, Eq, Structural)]
pub struct WorkTotals {
    /// Recurrent cell steps executed.
    pub cell_steps: u64,
    /// Output-head applications executed.
    pub head_applications: u64,
    /// Total convolution multiply-accumulates.
    pub macs: u64,
    /// Total bias additions.
    pub bias_adds: u64,
    /// Total elementwise multiplies and adds.
    pub mul_adds: u64,
    /// Total sigmoid and tanh evaluations.
    pub nonlinearities: u64,
}

/// An account in unbounded numbers.
pub struct Account {
    pub cell_steps: int,
    pub head_applications: int,
    pub macs: int,
    pub bias_adds: int,
    pub mul_adds: int,
    pub nonlinearities: int,
}

impl Account {
    /// No arithmetic at all.
    pub open spec fn zero() -> Account {
        Account {
            cell_steps: 0,
            head_applications: 0,
            macs: 0,
            bias_adds: 0,
            mul_adds: 0,
            nonlinearities: 0,
        }
    }

    /// What `cells` steps and `heads` emissions cost under `w`.
    pub open spec fn of(cells: int, heads: int, w: StepWork) -> Account {
        Account {
            cell_steps: cells,
            head_applications: heads,
            macs: cells * w.cell_macs + heads * w.head_macs,
            bias_adds: cells * w.cell_bias_adds + heads * w.head_bias_adds,
            mul_adds: cells * w.cell_mul_adds,
            nonlinearities: cells * w.cell_nonlinearities,
        }
    }

    /// Two accounts together.
    pub open spec fn plus(self, other: Account) -> Account {
        Account {
            cell_steps: self.cell_steps + other.cell_steps,
            head_applications: self.head_applications + other.head_applications,
            macs: self.macs + other.macs,
            bias_adds: self.bias_adds + other.bias_adds,
            mul_adds: self.mul_adds + other.mul_adds,
            nonlinearities: self.nonlinearities + other.nonlinearities,
        }
    }

    /// Every entry fits in 64 bits.
    pub open spec fn fits(self) -> bool {
        &&& 0 <= self.cell_steps <= u64::MAX
        &&& 0 <= self.head_applications <= u64::MAX
        &&& 0 <= self.macs <= u64::MAX
        &&& 0 <= self.bias_adds <= u64::MAX
        &&& 0 <= self.mul_adds <= u64::MAX
        &&& 0 <= self.nonlinearities <= u64::MAX
    }
}

/// A list of accounts, added up from the left.
pub open spec fn account_sum(items: Seq<WorkTotals>) -> Account
    decreases items.len(),
{
    if items.len() == 0 {
        Account::zero()
    } else {
        account_sum(items.drop_last()).plus(items.last()@)
    }
}

impl Default for WorkMeter {
    fn default() -> (r: WorkMeter)
        ensures
            r.cell_steps == 0,
            r.head_applications == 0,
    {
        WorkMeter { cell_steps: 0, head_applications: 0 }
    }
}

impl WorkMeter {
    /// Count one recurrent step.
    pub fn add_cell_step(&mut self)
        requires
            old(self).cell_steps < u64::MAX,
        ensures
            final(self).cell_steps == old(self).cell_steps + 1,
            final(self).head_applications == old(self).head_applications,
    {
        self.cell_steps = self.cell_steps + 1;
    }

    /// Count one head application.
    pub fn add_head_application(&mut self)
        requires
            old(self).head_applications < u64::MAX,
        ensures
            final(self).head_applications == old(self).head_applications + 1,
            final(self).cell_steps == old(self).cell_steps,
    {
        self.head_applications = self.head_applications + 1;
    }

    /// Declared per-step work, scaled by what was executed.
    pub fn totals(&self, w: &StepWork) -> (r: WorkTotals)
        requires
            Account::of(self.cell_steps as int, self.head_applications as int, *w).fits(),
        ensures
            r@ == Account::of(self.cell_steps as int, self.head_applications as int, *w),
    {
        let c: u64 = self.cell_steps;
        let e: u64 = self.head_applications;
        proof {
            lemma_products_nonnegative(c as int, e as int, *w);
        }
        WorkTotals {
            cell_steps: c,
            head_applications: e,
            macs: c * w.cell_macs + e * w.head_macs,
            bias_adds: c * w.cell_bias_adds + e * w.head_bias_adds,
            mul_adds: c * w.cell_mul_adds,
            nonlinearities: c * w.cell_nonlinearities,
        }
    }
}

/// Counts times counts are counts.
proof fn lemma_products_nonnegative(c: int, e: int, w: StepWork)
    requires
        c >= 0,
        e >= 0,
    ensures
        0 <= c * w.cell_macs,
        0 <= e * w.head_macs,
        0 <= c * w.cell_bias_adds,
        0 <= e * w.head_bias_adds,
        0 <= c * w.cell_mul_adds,
        0 <= c * w.cell_nonlinearities,
{
    let (a1, a2, a3, a4) = (w.cell_macs, w.cell_bias_adds, w.cell_mul_adds, w.cell_nonlinearities);
    let (b1, b2) = (w.head_macs, w.head_bias_adds);
    assert(0 <= c * a1 && 0 <= c * a2 && 0 <= c * a3 && 0 <= c * a4) by (nonlinear_arith)
        requires
            c >= 0,
    ;
    assert(0 <= e * b1 && 0 <= e * b2) by (nonlinear_arith)
        requires
            e >= 0,
    ;
}

impl View for WorkTotals {
    type V = Account;

    open spec fn view(&self) -> Account {
        Account {
            cell_steps: self.cell_steps as int,
            head_applications: self.head_applications as int,
            macs: self.macs as int,
            bias_adds: self.bias_adds as int,
            mul_adds: self.mul_adds as int,
            nonlinearities: self.nonlinearities as int,
        }
    }
}

impl std::ops::Add for WorkTotals {
    type Output = WorkTotals;

    fn add(self, rhs: WorkTotals) -> (r: WorkTotals) {
        WorkTotals {
            cell_steps: self.cell_steps + rhs.cell_steps,
            head_applications: self.head_applications + rhs.head_applications,
            macs: self.macs + rhs.macs,
            bias_adds: self.bias_adds + rhs.bias_adds,
            mul_adds: self.mul_adds + rhs.mul_adds,
            nonlinearities: self.nonlinearities + rhs.nonlinearities,
        }
    }
}

impl vstd::std_specs::ops::AddSpecImpl for WorkTotals {
    open spec fn obeys_add_spec() -> bool {
        true
    }

    open spec fn add_req(self, rhs: WorkTotals) -> bool {
        self@.plus(rhs@).fits()
    }

    open spec fn add_spec(self, rhs: WorkTotals) -> WorkTotals {
        WorkTotals {
            cell_steps: (self.cell_steps + rhs.cell_steps) as u64,
            head_applications: (self.head_applications + rhs.head_applications) as u64,
            macs: (self.macs + rhs.macs) as u64,
            bias_adds: (self.bias_adds + rhs.bias_adds) as u64,
            mul_adds: (self.mul_adds + rhs.mul_adds) as u64,
            nonlinearities: (self.nonlinearities + rhs.nonlinearities) as u64,
        }
    }
}

impl WorkTotals {
    /// The empty account.
    pub fn zero() -> (r: WorkTotals)
        ensures
            r@ == Account::zero(),
    {
        WorkTotals {
            cell_steps: 0,
            head_applications: 0,
            macs: 0,
            bias_adds: 0,
            mul_adds: 0,
            nonlinearities: 0,
        }
    }

    /// Every account in a list, together.
    pub fn sum(items: &[WorkTotals]) -> (r: WorkTotals)
        requires
            account_sum(items@).fits(),
        ensures
            r@ == account_sum(items@),
    {
        let mut total: WorkTotals = WorkTotals::zero();
        let mut i: usize = 0;
        assert(items@.take(0) =~= Seq::<WorkTotals>::empty());
        while i < items.len()
            invariant
                i <= items@.len(),
                account_sum(items@).fits(),
                total@ == account_sum(items@.take(i as int)),
            decreases items@.len() - i,
        {
            proof {
                assert(items@.take(i + 1).drop_last() =~= items@.take(i as int));
                assert(items@.take(i + 1).last() == items@[i as int]);
                lemma_sum_of_prefix(items@, i + 1);
            }
            total = total + items[i];
            i = i + 1;
        }
        assert(items@.take(i as int) =~= items@);
        total
    }
}

/// A prefix of a list accounts for no more than the whole.
proof fn lemma_sum_of_prefix(items: Seq<WorkTotals>, k: int)
    requires
        0 <= k <= items.len(),
    ensures
        account_sum(items).fits() ==> account_sum(items.take(k)).fits(),
    decreases items.len() - k,
{
    if k < items.len() {
        lemma_sum_of_prefix(items, k + 1);
        assert(items.take(k + 1).drop_last() =~= items.take(k));
        lemma_sum_nonnegative(items.take(k));
    } else {
        assert(items.take(k) =~= items);
    }
}

/// No entry of a sum is negative.
proof fn lemma_sum_nonnegative(items: Seq<WorkTotals>)
    ensures
        account_sum(items).cell_steps >= 0,
        account_sum(items).head_applications >= 0,
        account_sum(items).macs >= 0,
        account_sum(items).bias_adds >= 0,
        account_sum(items).mul_adds >= 0,
        account_sum(items).nonlinearities >= 0,
    decreases items.len(),
{
    if items.len() > 0 {
        lemma_sum_nonnegative(items.drop_last());
    }
}

/// Work adds up: what two stretches of execution cost together is what one
/// stretch of their combined length costs.
pub proof fn law_work_is_additive(c1: int, e1: int, c2: int, e2: int, w: StepWork)
    ensures
        Account::of(c1, e1, w).plus(Account::of(c2, e2, w)) == Account::of(c1 + c2, e1 + e2, w),
{
    let (a1, a2, a3, a4) = (w.cell_macs, w.cell_bias_adds, w.cell_mul_adds, w.cell_nonlinearities);
    let (b1, b2) = (w.head_macs, w.head_bias_adds);
    assert((c1 + c2) * a1 == c1 * a1 + c2 * a1 && (c1 + c2) * a2 == c1 * a2 + c2 * a2 && (c1 + c2)
        * a3 == c1 * a3 + c2 * a3 && (c1 + c2) * a4 == c1 * a4 + c2 * a4) by (nonlinear_arith);
    assert((e1 + e2) * b1 == e1 * b1 + e2 * b1 && (e1 + e2) * b2 == e1 * b2 + e2 * b2)
        by (nonlinear_arith);
}

/// The work that a restored state avoids is exactly the context's recurrent
/// steps: a run from scratch executes `context + t` of them, a restored run `t`,
/// and both emit equally often.
pub proof fn law_avoided_work_is_the_context(context: int, t: int, heads: int, w: StepWork)
    ensures
        Account::of(t, heads, w).plus(Account::of(context, 0, w)) == Account::of(
            context + t,
            heads,
            w,
        ),
{
    law_work_is_additive(t, heads, context, 0, w);
}

/// What a step and an emission cost: a step all of the cell's figures, an emission those of
/// the head, and nothing costs nothing.
pub proof fn law_one_step_and_one_emission(w: StepWork)
    ensures
        Account::of(1, 0, w) == (Account {
            cell_steps: 1,
            head_applications: 0,
            macs: w.cell_macs as int,
            bias_adds: w.cell_bias_adds as int,
            mul_adds: w.cell_mul_adds as int,
            nonlinearities: w.cell_nonlinearities as int,
        }),
        Account::of(0, 1, w) == (Account {
            cell_steps: 0,
            head_applications: 1,
            macs: w.head_macs as int,
            bias_adds: w.head_bias_adds as int,
            mul_adds: 0,
            nonlinearities: 0,
        }),
        Account::of(0, 0, w) == (Account {
            cell_steps: 0,
            head_applications: 0,
            macs: 0,
            bias_adds: 0,
            mul_adds: 0,
            nonlinearities: 0,
        }),
{
    assert(0 * w.head_macs == 0 && 0 * w.head_bias_adds == 0 && 0 * w.cell_macs == 0 && 0
        * w.cell_bias_adds == 0 && 0 * w.cell_mul_adds == 0 && 0 * w.cell_nonlinearities == 0);
}

/// Accounts add field by field, and a sum of accounts is its first ones and then its last.
pub proof fn law_accounts_add_up(a: Account, b: Account, items: Seq<WorkTotals>, last: WorkTotals)
    ensures
        a.plus(b).cell_steps == a.cell_steps + b.cell_steps,
        a.plus(b).head_applications == a.head_applications + b.head_applications,
        a.plus(b).macs == a.macs + b.macs,
        a.plus(b).bias_adds == a.bias_adds + b.bias_adds,
        a.plus(b).mul_adds == a.mul_adds + b.mul_adds,
        a.plus(b).nonlinearities == a.nonlinearities + b.nonlinearities,
        account_sum(items.push(last)).cell_steps == account_sum(items).cell_steps
            + last.cell_steps,
        account_sum(items.push(last)).macs == account_sum(items).macs + last.macs,
        account_sum(Seq::<WorkTotals>::empty()).macs == 0,
        account_sum(Seq::<WorkTotals>::empty()).cell_steps == 0,
{
    assert(items.push(last).drop_last() =~= items);
}

/// An empty account counts nothing.
pub proof fn law_zero_account(w: StepWork)
    ensures
        Account::zero().cell_steps == 0 && Account::zero().head_applications == 0,
        Account::zero().macs == 0 && Account::zero().bias_adds == 0,
        Account::zero().mul_adds == 0 && Account::zero().nonlinearities == 0,
        Account::of(0, 0, w) == Account::zero(),
{
    assert(0 * w.cell_macs == 0 && 0 * w.head_macs == 0);
}

} // verus!
