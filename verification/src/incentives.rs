use vstd::prelude::*;
use vstd::arithmetic::div_mod::{
    lemma_div_by_multiple, lemma_div_is_ordered, lemma_div_of0, lemma_div_pos_is_pos,
    lemma_fundamental_div_mod, lemma_mod_bound,
};
use vstd::arithmetic::mul::{
    lemma_mul_inequality, lemma_mul_is_distributive_add, lemma_mul_nonnegative,
};
use crate::ledger::{LockEntry, Lockdrop, lemma_sum_shares_nonneg, sum_shares};

verus! {

/// The entitlement carved out of `budget` by an entry holding `share` of
/// the `total` weighted shares: `budget * share / total`, rounded down.
/// When no share was ever recorded the budget is not distributed at all.
pub open spec fn entitlement(budget: u128, share: u128, total: u128) -> int {
    if total == 0 {
        0
    } else {
        budget * share / (total as int)
    }
}

pub proof fn lemma_entitlement_nonneg(budget: u128, share: u128, total: u128)
    ensures
        0 <= entitlement(budget, share, total),
{
    if total != 0 {
        lemma_mul_nonnegative(budget as int, share as int);
        lemma_div_pos_is_pos(budget * share, total as int);
    }
}

/// An entry whose share is no more than the recorded total is entitled to
/// no more than the whole budget; in particular every entitlement fits the
/// amount type.
pub proof fn lemma_entitlement_le_budget(budget: u128, share: u128, total: u128)
    requires
        share <= total,
    ensures
        entitlement(budget, share, total) <= budget,
{
    if total != 0 {
        lemma_mul_inequality(share as int, total as int, budget as int);
        lemma_div_is_ordered(budget * share, budget * total, total as int);
        lemma_div_by_multiple(budget as int, total as int);
        assert(budget * total == total * budget) by (nonlinear_arith);
        assert(share * budget == budget * share) by (nonlinear_arith);
    }
}

/// Computes one entry's entitlement; `None` when `budget * share` does not
/// fit the amount type.
pub fn compute_entitlement(budget: u128, share: u128, total: u128) -> (r: Option<u128>)
    ensures
        match r {
            Some(v) => v == entitlement(budget, share, total) && (total != 0 ==> budget * share
                <= u128::MAX),
            None => total != 0 && budget * share > u128::MAX,
        },
{
    if total == 0 {
        Some(0)
    } else {
        match budget.checked_mul(share) {
            Some(p) => Some(p / total),
            None => None,
        }
    }
}

/// Rounding down loses at most the fractional part: a budget distributed
/// over two shares separately never exceeds the same budget distributed
/// over their sum.
pub proof fn lemma_entitlement_superadditive(budget: int, a: int, b: int, total: int)
    requires
        0 < total,
        0 <= budget,
        0 <= a,
        0 <= b,
    ensures
        budget * a / total + budget * b / total <= budget * (a + b) / total,
{
    let qa = budget * a / total;
    let qb = budget * b / total;
    lemma_fundamental_div_mod(budget * a, total);
    lemma_fundamental_div_mod(budget * b, total);
    lemma_mod_bound(budget * a, total);
    lemma_mod_bound(budget * b, total);
    lemma_mul_is_distributive_add(budget, a, b);
    lemma_mul_is_distributive_add(total, qa, qb);
    assert(total * (qa + qb) <= budget * (a + b));
    lemma_div_is_ordered(total * (qa + qb), budget * (a + b), total);
    lemma_mul_nonnegative(budget, a);
    lemma_mul_nonnegative(budget, b);
    lemma_div_pos_is_pos(budget * a, total);
    lemma_div_pos_is_pos(budget * b, total);
    lemma_div_by_multiple(qa + qb, total);
    assert((qa + qb) * total == total * (qa + qb)) by (nonlinear_arith);
}

/// The entitlements of a sequence of entries, summed.
pub open spec fn sum_entitlements(s: Seq<LockEntry>, budget: u128, total: u128) -> int
    decreases s.len(),
{
    if s.len() == 0 {
        0
    } else {
        sum_entitlements(s.drop_last(), budget, total)
            + entitlement(budget, s.last().incentives_share, total)
    }
}

proof fn lemma_sum_entitlements_le(s: Seq<LockEntry>, budget: u128, total: u128)
    ensures
        total == 0 ==> sum_entitlements(s, budget, total) == 0,
        total != 0 ==> sum_entitlements(s, budget, total)
            <= budget * sum_shares(s) / (total as int),
    decreases s.len(),
{
    if s.len() == 0 {
        if total != 0 {
            assert(budget * sum_shares(s) == 0);
            lemma_div_of0(total as int);
        }
    } else {
        let prefix = s.drop_last();
        lemma_sum_entitlements_le(prefix, budget, total);
        if total != 0 {
            lemma_sum_shares_nonneg(prefix);
            lemma_entitlement_superadditive(
                budget as int,
                sum_shares(prefix),
                s.last().incentives_share as int,
                total as int,
            );
        }
    }
}

/// No over-distribution: with the totals the engine maintains, the
/// rounded-down reward entitlements of all entries sum to at most the
/// reward budget; the residual dust is never distributed.
pub proof fn lemma_no_over_distribution(ld: Lockdrop)
    requires
        ld.wf(),
    ensures
        sum_entitlements(ld.entries@, ld.config.budget(), ld.state.total_incentives_share)
            <= ld.config.budget(),
{
    lemma_distribution_bounded(ld, ld.config.budget());
}

/// The same bound for any budget distributed over the recorded shares: in
/// particular the minted pool shares are never over-distributed either.
pub proof fn lemma_distribution_bounded(ld: Lockdrop, budget: u128)
    requires
        ld.wf(),
    ensures
        sum_entitlements(ld.entries@, budget, ld.state.total_incentives_share) <= budget,
{
    let total = ld.state.total_incentives_share;
    lemma_sum_entitlements_le(ld.entries@, budget, total);
    if total != 0 {
        lemma_div_by_multiple(budget as int, total as int);
        assert(budget * total == total * budget) by (nonlinear_arith);
    }
}

} // verus!
