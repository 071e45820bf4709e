use vstd::prelude::*;
use vstd::arithmetic::mul::{
    lemma_mul_inequality, lemma_mul_is_distributive_add, lemma_mul_is_distributive_sub,
};
use crate::config::{
    Config, Phase, max_withdrawable, phase_of, scaled_weight_of, spec_max_withdrawable,
    spec_phase_of,
};
use crate::errors::LockdropError;
use crate::incentives::{
    compute_entitlement, entitlement, lemma_entitlement_le_budget, lemma_entitlement_nonneg,
};
use crate::ledger::{
    LockEntry, Lockdrop, State, entry_index, has_entry, is_entry_key, lemma_sum_principal_element,
    lemma_sum_principal_update, lemma_sum_push, lemma_sum_shares_element, lemma_sum_shares_update,
    lemma_unique_index, sum_principal, sum_shares,
};

verus! {

/// What a claim hands back for the embedding to transfer: the outstanding
/// reward-token amount and the outstanding pool-share amount.
#[derive(Clone, Copy, Debug, PartialEq, Eq, Structural)]
pub struct ClaimAmounts {
    pub reward: u128,
    pub pool_share: u128,
}

/// An entry as migration leaves it: its principal has moved downstream and
/// its unlock timestamp is fixed at migration time plus its duration.
pub open spec fn migrated_entry(e: LockEntry, now: u64) -> LockEntry {
    LockEntry { principal: 0, unlock_timestamp: (now + e.duration) as u64, ..e }
}

proof fn lemma_migrate_sums(s1: Seq<LockEntry>, s2: Seq<LockEntry>)
    requires
        s1.len() == s2.len(),
        forall|i: int| 0 <= i < s1.len()
            ==> (#[trigger] s2[i]).principal == 0
                && s2[i].incentives_share == s1[i].incentives_share,
    ensures
        sum_principal(s2) == 0,
        sum_shares(s2) == sum_shares(s1),
    decreases s1.len(),
{
    if s1.len() > 0 {
        lemma_migrate_sums(s1.drop_last(), s2.drop_last());
    }
}

impl Lockdrop {
    /// Deposits are legal while the deposit window is open; the withdrawal
    /// window is a sub-interval of it, so both open phases accept deposits.
    pub open spec fn deposit_phase_ok(self, now: u64) -> bool {
        let p = spec_phase_of(self.config, self.state.are_claims_allowed, now);
        p == Phase::WithdrawalOpen || p == Phase::DepositOpen
    }

    /// Whether recording a deposit would overflow the amount type.
    pub open spec fn deposit_overflow(self, duration: u64, amount: u128) -> bool {
        let w = scaled_weight_of(self.config, duration);
        ||| amount * w > u128::MAX
        ||| self.state.total_principal_deposited + amount > u128::MAX
        ||| self.state.total_incentives_share + amount * w > u128::MAX
    }

    /// The outcome of the checks `deposit` makes, in order: the phase gate,
    /// the duration bounds, a positive amount, and overflow guards.
    pub open spec fn deposit_check(self, duration: u64, amount: u128, now: u64) -> Result<
        (),
        LockdropError,
    > {
        if !self.deposit_phase_ok(now) {
            Err(LockdropError::PhaseViolation)
        } else if !self.config.duration_in_bounds(duration) {
            Err(LockdropError::InvalidDuration)
        } else if amount == 0 {
            Err(LockdropError::InsufficientPrincipal)
        } else if self.deposit_overflow(duration, amount) {
            Err(LockdropError::ArithmeticOverflow)
        } else {
            Ok(())
        }
    }

    /// An existing entry as a further deposit of `amount` leaves it.
    pub open spec fn deposited_entry(self, e: LockEntry, amount: u128) -> LockEntry {
        LockEntry {
            principal: (e.principal + amount) as u128,
            incentives_share: (e.incentives_share + amount * scaled_weight_of(
                self.config,
                e.duration,
            )) as u128,
            ..e
        }
    }

    /// The entry a first deposit creates.
    pub open spec fn fresh_entry(self, user: String, duration: u64, amount: u128) -> LockEntry {
        LockEntry {
            user,
            duration,
            principal: amount,
            incentives_share: (amount * scaled_weight_of(self.config, duration)) as u128,
            reward_claimed: 0,
            pool_share_claimed: 0,
            withdrawal_used: false,
            unlock_timestamp: 0,
        }
    }

    /// Adds `amount` to the `(user, duration)` lock entry, creating it on
    /// first deposit, and raises the deposited total and the weighted-share
    /// accumulator by `amount` and `amount * scaled_weight(duration)`.
    ///
    /// The embedding must have confirmed the inbound transfer of `amount`
    /// of the deposit asset before committing this call.
    pub fn deposit(&mut self, user: &String, duration: u64, amount: u128, now: u64) -> (r: Result<
        (),
        LockdropError,
    >)
        requires
            old(self).wf(),
        ensures
            final(self).wf(),
            r == old(self).deposit_check(duration, amount, now),
            r is Err ==> *final(self) == *old(self),
            r is Ok ==> ({
                let w = scaled_weight_of(old(self).config, duration);
                &&& final(self).config == old(self).config
                &&& final(self).state == (State {
                    total_principal_deposited: (old(self).state.total_principal_deposited
                        + amount) as u128,
                    total_incentives_share: (old(self).state.total_incentives_share + amount
                        * w) as u128,
                    ..old(self).state
                })
                &&& if has_entry(old(self).entries@, user@, duration) {
                    final(self).entries@ == old(self).entries@.update(
                        entry_index(old(self).entries@, user@, duration),
                        old(self).deposited_entry(
                            old(self).entries@[entry_index(old(self).entries@, user@, duration)],
                            amount,
                        ),
                    )
                } else {
                    final(self).entries@ == old(self).entries@.push(
                        old(self).fresh_entry(*user, duration, amount),
                    )
                }
            }),
    {
        let p = phase_of(&self.config, self.state.are_claims_allowed, now);
        if !(p == Phase::WithdrawalOpen || p == Phase::DepositOpen) {
            return Err(LockdropError::PhaseViolation);
        }
        if duration < self.config.min_lock_duration || duration > self.config.max_lock_duration {
            return Err(LockdropError::InvalidDuration);
        }
        if amount == 0 {
            return Err(LockdropError::InsufficientPrincipal);
        }
        let w = self.config.scaled_weight(duration);
        let share_add = match amount.checked_mul(w) {
            Some(x) => x,
            None => {
                return Err(LockdropError::ArithmeticOverflow);
            },
        };
        let new_deposited = match self.state.total_principal_deposited.checked_add(amount) {
            Some(x) => x,
            None => {
                return Err(LockdropError::ArithmeticOverflow);
            },
        };
        let new_total_share = match self.state.total_incentives_share.checked_add(share_add) {
            Some(x) => x,
            None => {
                return Err(LockdropError::ArithmeticOverflow);
            },
        };
        let ghost s_old = self.entries@;
        match self.find_entry(user, duration) {
            Some(i) => {
                proof {
                    lemma_unique_index(s_old, user@, duration, i as int);
                    lemma_sum_principal_element(s_old, i as int);
                    lemma_sum_shares_element(s_old, i as int);
                }
                {
                    let e = &mut self.entries[i];
                    e.principal = e.principal + amount;
                    e.incentives_share = e.incentives_share + share_add;
                }
                self.state.total_principal_deposited = new_deposited;
                self.state.total_incentives_share = new_total_share;
                proof {
                    let t = self.entries@;
                    let e_new = self.deposited_entry(s_old[i as int], amount);
                    assert(t =~= s_old.update(i as int, e_new));
                    lemma_sum_principal_update(s_old, i as int, e_new);
                    lemma_sum_shares_update(s_old, i as int, e_new);
                    lemma_mul_is_distributive_add(
                        scaled_weight_of(self.config, duration) as int,
                        s_old[i as int].principal as int,
                        amount as int,
                    );
                    assert(s_old[i as int].principal * scaled_weight_of(self.config, duration)
                        + amount * scaled_weight_of(self.config, duration) == (s_old[
                        i as int].principal + amount) * scaled_weight_of(self.config, duration))
                        by (nonlinear_arith);
                    assert forall|a: int, b: int|
                        0 <= a < t.len() && 0 <= b < t.len() && a != b implies !((#[trigger] t[a]).user@
                        == (#[trigger] t[b]).user@ && t[a].duration == t[b].duration) by {
                        assert(s_old[a].user@ == t[a].user@ && s_old[a].duration == t[a].duration);
                        assert(s_old[b].user@ == t[b].user@ && s_old[b].duration == t[b].duration);
                    }
                }
                Ok(())
            },
            None => {
                let entry = LockEntry {
                    user: user.clone(),
                    duration,
                    principal: amount,
                    incentives_share: share_add,
                    reward_claimed: 0,
                    pool_share_claimed: 0,
                    withdrawal_used: false,
                    unlock_timestamp: 0,
                };
                self.entries.push(entry);
                self.state.total_principal_deposited = new_deposited;
                self.state.total_incentives_share = new_total_share;
                proof {
                    let t = self.entries@;
                    let e_new = self.fresh_entry(*user, duration, amount);
                    assert(t =~= s_old.push(e_new));
                    lemma_sum_push(s_old, e_new);
                    assert forall|a: int, b: int|
                        0 <= a < t.len() && 0 <= b < t.len() && a != b implies !((#[trigger] t[a]).user@
                        == (#[trigger] t[b]).user@ && t[a].duration == t[b].duration) by {
                        if a < s_old.len() && b < s_old.len() {
                            assert(s_old[a] == t[a] && s_old[b] == t[b]);
                        } else if a == s_old.len() {
                            assert(!is_entry_key(s_old[b], user@, duration));
                        } else {
                            assert(!is_entry_key(s_old[a], user@, duration));
                        }
                    }
                }
                Ok(())
            },
        }
    }

    /// The outcome of the checks `withdraw` makes, in order: the phase
    /// gate, an existing entry, the one-withdrawal-per-entry rule, a
    /// positive amount within the entry's principal, the overflow guard,
    /// and the decaying cap.
    pub open spec fn withdraw_check(
        self,
        user: Seq<char>,
        duration: u64,
        amount: u128,
        now: u64,
    ) -> Result<(), LockdropError> {
        if spec_phase_of(self.config, self.state.are_claims_allowed, now)
            != Phase::WithdrawalOpen {
            Err(LockdropError::PhaseViolation)
        } else if !has_entry(self.entries@, user, duration) {
            Err(LockdropError::InsufficientPrincipal)
        } else {
            let e = self.entries@[entry_index(self.entries@, user, duration)];
            if e.withdrawal_used {
                Err(LockdropError::AlreadyWithdrawn)
            } else if amount == 0 || amount > e.principal {
                Err(LockdropError::InsufficientPrincipal)
            } else if e.principal * (self.config.withdrawal_window_end() - now) > u128::MAX {
                Err(LockdropError::ArithmeticOverflow)
            } else if amount > spec_max_withdrawable(self.config, e.principal, now) {
                Err(LockdropError::InsufficientPrincipal)
            } else {
                Ok(())
            }
        }
    }

    /// An entry as its single withdrawal of `amount` leaves it.
    pub open spec fn withdrawn_entry(self, e: LockEntry, amount: u128) -> LockEntry {
        LockEntry {
            principal: (e.principal - amount) as u128,
            incentives_share: (e.incentives_share - amount * scaled_weight_of(
                self.config,
                e.duration,
            )) as u128,
            withdrawal_used: true,
            ..e
        }
    }

    /// Takes `amount` back out of the `(user, duration)` entry during the
    /// withdrawal window, subject to the linearly decaying cap, at most
    /// once per entry. Principal, the deposited total, and the
    /// weighted-share accumulator all fall symmetrically.
    ///
    /// The embedding transfers `amount` of the deposit asset back to the
    /// user exactly when this call returns `Ok`.
    pub fn withdraw(&mut self, user: &String, duration: u64, amount: u128, now: u64) -> (r: Result<
        (),
        LockdropError,
    >)
        requires
            old(self).wf(),
        ensures
            final(self).wf(),
            r == old(self).withdraw_check(user@, duration, amount, now),
            r is Err ==> *final(self) == *old(self),
            r is Ok ==> ({
                let i = entry_index(old(self).entries@, user@, duration);
                let e = old(self).entries@[i];
                let w = scaled_weight_of(old(self).config, e.duration);
                &&& final(self).config == old(self).config
                &&& final(self).state == (State {
                    total_principal_deposited: (old(self).state.total_principal_deposited
                        - amount) as u128,
                    total_incentives_share: (old(self).state.total_incentives_share - amount
                        * w) as u128,
                    ..old(self).state
                })
                &&& final(self).entries@ == old(self).entries@.update(
                    i,
                    old(self).withdrawn_entry(e, amount),
                )
            }),
    {
        let p = phase_of(&self.config, self.state.are_claims_allowed, now);
        if !(p == Phase::WithdrawalOpen) {
            return Err(LockdropError::PhaseViolation);
        }
        let i = match self.find_entry(user, duration) {
            Some(i) => i,
            None => {
                return Err(LockdropError::InsufficientPrincipal);
            },
        };
        let ghost s_old = self.entries@;
        proof {
            lemma_unique_index(s_old, user@, duration, i as int);
            lemma_sum_principal_element(s_old, i as int);
            lemma_sum_shares_element(s_old, i as int);
        }
        if self.entries[i].withdrawal_used {
            return Err(LockdropError::AlreadyWithdrawn);
        }
        let e_principal = self.entries[i].principal;
        if amount == 0 || amount > e_principal {
            return Err(LockdropError::InsufficientPrincipal);
        }
        let cap = match max_withdrawable(&self.config, e_principal, now) {
            Some(c) => c,
            None => {
                return Err(LockdropError::ArithmeticOverflow);
            },
        };
        if amount > cap {
            return Err(LockdropError::InsufficientPrincipal);
        }
        let w = self.config.scaled_weight(duration);
        proof {
            lemma_mul_inequality(amount as int, e_principal as int, w as int);
        }
        let share_sub = amount * w;
        {
            let e = &mut self.entries[i];
            e.principal = e.principal - amount;
            e.incentives_share = e.incentives_share - share_sub;
            e.withdrawal_used = true;
        }
        self.state.total_principal_deposited = self.state.total_principal_deposited - amount;
        self.state.total_incentives_share = self.state.total_incentives_share - share_sub;
        proof {
            let t = self.entries@;
            let e_new = self.withdrawn_entry(s_old[i as int], amount);
            assert(t =~= s_old.update(i as int, e_new));
            lemma_sum_principal_update(s_old, i as int, e_new);
            lemma_sum_shares_update(s_old, i as int, e_new);
            lemma_mul_is_distributive_sub(
                scaled_weight_of(self.config, duration) as int,
                s_old[i as int].principal as int,
                amount as int,
            );
            assert(s_old[i as int].principal * scaled_weight_of(self.config, duration) - amount
                * scaled_weight_of(self.config, duration) == (s_old[i as int].principal - amount)
                * scaled_weight_of(self.config, duration)) by (nonlinear_arith);
            assert forall|a: int, b: int|
                0 <= a < t.len() && 0 <= b < t.len() && a != b implies !((#[trigger] t[a]).user@
                == (#[trigger] t[b]).user@ && t[a].duration == t[b].duration) by {
                assert(s_old[a].user@ == t[a].user@ && s_old[a].duration == t[a].duration);
                assert(s_old[b].user@ == t[b].user@ && s_old[b].duration == t[b].duration);
            }
        }
        Ok(())
    }

    /// The outcome of the checks `migrate` makes, in order: the caller must
    /// be the administrator, the deposit window must have closed with no
    /// migration done yet, and every unlock timestamp must fit.
    pub open spec fn migrate_check(self, caller: Seq<char>, now: u64) -> Result<
        (),
        LockdropError,
    > {
        if caller != self.config.owner@ {
            Err(LockdropError::Unauthorized)
        } else if spec_phase_of(self.config, self.state.are_claims_allowed, now)
            != Phase::DepositClosedAwaitingMigration {
            Err(LockdropError::PhaseViolation)
        } else if now + self.config.max_lock_duration > u64::MAX {
            Err(LockdropError::ArithmeticOverflow)
        } else {
            Ok(())
        }
    }

    /// The one-shot migration, administrator-only, legal exactly once. The
    /// embedding hands the whole deposited principal to the downstream pool
    /// and stakes the `pool_share_minted` pool shares it received before
    /// committing this call; on any downstream failure it commits nothing,
    /// and the phase stays `DepositClosedAwaitingMigration`, retryable.
    ///
    /// On success every entry's unlock timestamp becomes `now` plus its
    /// duration, its principal is recorded as migrated out, the pool-share
    /// token and amount are recorded, claims are enabled, and the amount
    /// handed downstream is returned.
    pub fn migrate(
        &mut self,
        caller: &String,
        pool_share_token: String,
        pool_share_minted: u128,
        now: u64,
    ) -> (r: Result<u128, LockdropError>)
        requires
            old(self).wf(),
        ensures
            final(self).wf(),
            r is Err ==> *final(self) == *old(self),
            match r {
                Ok(migrated) => old(self).migrate_check(caller@, now) is Ok && migrated == old(
                    self,
                ).state.total_principal_deposited,
                Err(e) => old(self).migrate_check(caller@, now) == Err::<(), LockdropError>(e),
            },
            r is Ok ==> ({
                &&& final(self).config == old(self).config
                &&& final(self).state == (State {
                    total_principal_migrated: old(self).state.total_principal_deposited,
                    pool_share_token: Some(pool_share_token),
                    pool_share_minted: pool_share_minted,
                    are_claims_allowed: true,
                    ..old(self).state
                })
                &&& final(self).entries@.len() == old(self).entries@.len()
                &&& forall|i: int| 0 <= i < old(self).entries@.len()
                    ==> final(self).entries@[i] == migrated_entry(
                        #[trigger] old(self).entries@[i],
                        now,
                    )
            }),
    {
        if !(self.config.owner == *caller) {
            return Err(LockdropError::Unauthorized);
        }
        let p = phase_of(&self.config, self.state.are_claims_allowed, now);
        if !(p == Phase::DepositClosedAwaitingMigration) {
            return Err(LockdropError::PhaseViolation);
        }
        if now.checked_add(self.config.max_lock_duration).is_none() {
            return Err(LockdropError::ArithmeticOverflow);
        }
        let ghost s_old = self.entries@;
        let n = self.entries.len();
        let mut i: usize = 0;
        while i < n
            invariant
                old(self).wf(),
                s_old == old(self).entries@,
                n == self.entries@.len(),
                s_old.len() == n,
                i <= n,
                self.config == old(self).config,
                self.state == old(self).state,
                now + self.config.max_lock_duration <= u64::MAX,
                forall|j: int| 0 <= j < i ==> self.entries@[j] == migrated_entry(
                    #[trigger] s_old[j],
                    now,
                ),
                forall|j: int| i <= j < n ==> #[trigger] self.entries@[j] == s_old[j],
            decreases n - i,
        {
            let d = self.entries[i].duration;
            assert(self.config.duration_in_bounds(d));
            let ts = now + d;
            {
                let e = &mut self.entries[i];
                e.principal = 0;
                e.unlock_timestamp = ts;
            }
            i = i + 1;
        }
        let migrated_amount = self.state.total_principal_deposited;
        self.state.total_principal_migrated = migrated_amount;
        self.state.pool_share_token = Some(pool_share_token);
        self.state.pool_share_minted = pool_share_minted;
        self.state.are_claims_allowed = true;
        proof {
            let t = self.entries@;
            assert forall|j: int| 0 <= j < t.len() implies #[trigger] t[j] == migrated_entry(
                s_old[j],
                now,
            ) by {
                assert(t[j] == migrated_entry(s_old[j], now));
            }
            assert forall|j: int| 0 <= j < t.len() implies (#[trigger] t[j]).principal == 0
                && t[j].incentives_share == s_old[j].incentives_share && t[j].reward_claimed == 0
                && t[j].pool_share_claimed == 0 && self.config.duration_in_bounds(
                t[j].duration,
            ) by {
                assert(t[j] == migrated_entry(s_old[j], now));
                assert(s_old[j].reward_claimed == 0 && s_old[j].pool_share_claimed == 0);
                assert(old(self).config.duration_in_bounds(s_old[j].duration));
            }
            lemma_migrate_sums(s_old, t);
            assert forall|a: int, b: int|
                0 <= a < t.len() && 0 <= b < t.len() && a != b implies !((#[trigger] t[a]).user@
                == (#[trigger] t[b]).user@ && t[a].duration == t[b].duration) by {
                assert(s_old[a].user@ == t[a].user@ && s_old[a].duration == t[a].duration);
                assert(s_old[b].user@ == t[b].user@ && s_old[b].duration == t[b].duration);
            }
            assert forall|j: int| 0 <= j < t.len() implies (#[trigger] t[j]).reward_claimed
                <= entitlement(
                self.config.budget(),
                t[j].incentives_share,
                self.state.total_incentives_share,
            ) && t[j].pool_share_claimed <= entitlement(
                self.state.pool_share_minted,
                t[j].incentives_share,
                self.state.total_incentives_share,
            ) by {
                lemma_entitlement_nonneg(
                    self.config.budget(),
                    t[j].incentives_share,
                    self.state.total_incentives_share,
                );
                lemma_entitlement_nonneg(
                    self.state.pool_share_minted,
                    t[j].incentives_share,
                    self.state.total_incentives_share,
                );
            }
        }
        Ok(migrated_amount)
    }

    /// The outcome of the checks `claim` makes, in order: claims must be
    /// enabled, the entry must exist, its unlock timestamp must have
    /// passed, and the entitlement products must fit the amount type.
    pub open spec fn claim_check(self, user: Seq<char>, duration: u64, now: u64) -> Result<
        (),
        LockdropError,
    > {
        if !self.state.are_claims_allowed {
            Err(LockdropError::PhaseViolation)
        } else if !has_entry(self.entries@, user, duration) {
            Err(LockdropError::InsufficientPrincipal)
        } else {
            let e = self.entries@[entry_index(self.entries@, user, duration)];
            let total = self.state.total_incentives_share;
            if now < e.unlock_timestamp {
                Err(LockdropError::NotYetUnlocked)
            } else if total != 0 && (self.config.budget() * e.incentives_share > u128::MAX
                || self.state.pool_share_minted * e.incentives_share > u128::MAX) {
                Err(LockdropError::ArithmeticOverflow)
            } else {
                Ok(())
            }
        }
    }

    /// This entry's total reward-token entitlement under the frozen totals.
    pub open spec fn reward_entitlement_of(self, e: LockEntry) -> int {
        entitlement(self.config.budget(), e.incentives_share, self.state.total_incentives_share)
    }

    /// This entry's total pool-share entitlement under the frozen totals.
    pub open spec fn pool_entitlement_of(self, e: LockEntry) -> int {
        entitlement(
            self.state.pool_share_minted,
            e.incentives_share,
            self.state.total_incentives_share,
        )
    }

    /// An entry as a claim leaves it: fully settled against both
    /// entitlements.
    pub open spec fn settled_entry(self, e: LockEntry) -> LockEntry {
        LockEntry {
            reward_claimed: self.reward_entitlement_of(e) as u128,
            pool_share_claimed: self.pool_entitlement_of(e) as u128,
            ..e
        }
    }

    /// What a claim on entry `e` transfers: the outstanding part of each
    /// entitlement.
    pub open spec fn claim_amounts(self, e: LockEntry) -> ClaimAmounts {
        ClaimAmounts {
            reward: (self.reward_entitlement_of(e) - e.reward_claimed) as u128,
            pool_share: (self.pool_entitlement_of(e) - e.pool_share_claimed) as u128,
        }
    }

    /// Pays out the `(user, duration)` entry's outstanding reward-token and
    /// pool-share entitlements once claims are enabled and the entry is
    /// unlocked, and records them as claimed. Settled entries claim zero:
    /// re-claiming is a no-op, not an error.
    ///
    /// The embedding transfers exactly the returned amounts, atomically
    /// with this call.
    pub fn claim(&mut self, user: &String, duration: u64, now: u64) -> (r: Result<
        ClaimAmounts,
        LockdropError,
    >)
        requires
            old(self).wf(),
        ensures
            final(self).wf(),
            r is Err ==> *final(self) == *old(self),
            match r {
                Ok(amounts) => old(self).claim_check(user@, duration, now) is Ok && amounts == old(
                    self,
                ).claim_amounts(
                    old(self).entries@[entry_index(old(self).entries@, user@, duration)],
                ),
                Err(e) => old(self).claim_check(user@, duration, now) == Err::<(), LockdropError>(
                    e,
                ),
            },
            r is Ok ==> ({
                let i = entry_index(old(self).entries@, user@, duration);
                &&& final(self).config == old(self).config
                &&& final(self).state == old(self).state
                &&& final(self).entries@ == old(self).entries@.update(
                    i,
                    old(self).settled_entry(old(self).entries@[i]),
                )
            }),
    {
        if !self.state.are_claims_allowed {
            return Err(LockdropError::PhaseViolation);
        }
        let i = match self.find_entry(user, duration) {
            Some(i) => i,
            None => {
                return Err(LockdropError::InsufficientPrincipal);
            },
        };
        let ghost s_old = self.entries@;
        proof {
            lemma_unique_index(s_old, user@, duration, i as int);
            lemma_sum_shares_element(s_old, i as int);
        }
        if now < self.entries[i].unlock_timestamp {
            return Err(LockdropError::NotYetUnlocked);
        }
        let share = self.entries[i].incentives_share;
        let total = self.state.total_incentives_share;
        let budget = match self.config.lockdrop_incentives {
            Some(b) => b,
            None => 0,
        };
        let reward_ent = match compute_entitlement(budget, share, total) {
            Some(v) => v,
            None => {
                return Err(LockdropError::ArithmeticOverflow);
            },
        };
        let pool_ent = match compute_entitlement(self.state.pool_share_minted, share, total) {
            Some(v) => v,
            None => {
                return Err(LockdropError::ArithmeticOverflow);
            },
        };
        let reward_out = reward_ent - self.entries[i].reward_claimed;
        let pool_out = pool_ent - self.entries[i].pool_share_claimed;
        {
            let e = &mut self.entries[i];
            e.reward_claimed = reward_ent;
            e.pool_share_claimed = pool_ent;
        }
        proof {
            let t = self.entries@;
            let e_new = self.settled_entry(s_old[i as int]);
            assert(t =~= s_old.update(i as int, e_new));
            lemma_sum_principal_update(s_old, i as int, e_new);
            lemma_sum_shares_update(s_old, i as int, e_new);
            assert forall|a: int, b: int|
                0 <= a < t.len() && 0 <= b < t.len() && a != b implies !((#[trigger] t[a]).user@
                == (#[trigger] t[b]).user@ && t[a].duration == t[b].duration) by {
                assert(s_old[a].user@ == t[a].user@ && s_old[a].duration == t[a].duration);
                assert(s_old[b].user@ == t[b].user@ && s_old[b].duration == t[b].duration);
            }
        }
        Ok(ClaimAmounts { reward: reward_out, pool_share: pool_out })
    }

    /// The outcome of the checks `update_config` makes: only the
    /// administrator may patch, and each patchable field may be set once,
    /// before migration freezes it.
    pub open spec fn update_config_check(
        self,
        caller: Seq<char>,
        new_astro_token: Option<String>,
        new_auction_contract: Option<String>,
        new_generator: Option<String>,
        new_incentives: Option<u128>,
    ) -> Result<(), LockdropError> {
        let any = new_astro_token is Some || new_auction_contract is Some || new_generator is Some
            || new_incentives is Some;
        if caller != self.config.owner@ {
            Err(LockdropError::Unauthorized)
        } else if self.state.are_claims_allowed && any {
            Err(LockdropError::PhaseViolation)
        } else if (new_astro_token is Some && self.config.astro_token is Some)
            || (new_auction_contract is Some && self.config.auction_contract is Some) || (
        new_generator is Some && self.config.generator is Some) || (new_incentives is Some
            && self.config.lockdrop_incentives is Some) {
            Err(LockdropError::PhaseViolation)
        } else {
            Ok(())
        }
    }

    /// Administrator-only patch of the collaborator addresses and the
    /// reward budget. Each field is settable exactly once, and only before
    /// migration; fields passed as `None` are left alone.
    pub fn update_config(
        &mut self,
        caller: &String,
        new_astro_token: Option<String>,
        new_auction_contract: Option<String>,
        new_generator: Option<String>,
        new_incentives: Option<u128>,
    ) -> (r: Result<(), LockdropError>)
        requires
            old(self).wf(),
        ensures
            final(self).wf(),
            r == old(self).update_config_check(
                caller@,
                new_astro_token,
                new_auction_contract,
                new_generator,
                new_incentives,
            ),
            r is Err ==> *final(self) == *old(self),
            r is Ok ==> ({
                &&& final(self).state == old(self).state
                &&& final(self).entries@ == old(self).entries@
                &&& final(self).config == (Config {
                    astro_token: if new_astro_token is Some {
                        new_astro_token
                    } else {
                        old(self).config.astro_token
                    },
                    auction_contract: if new_auction_contract is Some {
                        new_auction_contract
                    } else {
                        old(self).config.auction_contract
                    },
                    generator: if new_generator is Some {
                        new_generator
                    } else {
                        old(self).config.generator
                    },
                    lockdrop_incentives: if new_incentives is Some {
                        new_incentives
                    } else {
                        old(self).config.lockdrop_incentives
                    },
                    ..old(self).config
                })
            }),
    {
        if !(self.config.owner == *caller) {
            return Err(LockdropError::Unauthorized);
        }
        let any = new_astro_token.is_some() || new_auction_contract.is_some()
            || new_generator.is_some() || new_incentives.is_some();
        if self.state.are_claims_allowed && any {
            return Err(LockdropError::PhaseViolation);
        }
        if (new_astro_token.is_some() && self.config.astro_token.is_some())
            || (new_auction_contract.is_some() && self.config.auction_contract.is_some())
            || (new_generator.is_some() && self.config.generator.is_some())
            || (new_incentives.is_some() && self.config.lockdrop_incentives.is_some()) {
            return Err(LockdropError::PhaseViolation);
        }
        if new_astro_token.is_some() {
            self.config.astro_token = new_astro_token;
        }
        if new_auction_contract.is_some() {
            self.config.auction_contract = new_auction_contract;
        }
        if new_generator.is_some() {
            self.config.generator = new_generator;
        }
        if new_incentives.is_some() {
            self.config.lockdrop_incentives = new_incentives;
        }
        Ok(())
    }
}

/// Claim idempotence at the ledger level: a successful claim leaves the
/// targeted entry settled and everything else (state and config included)
/// unchanged, so by this lemma a second claim with no intervening state
/// change transfers zero of both assets and leaves every balance as it was.
pub proof fn lemma_claim_idempotent_at(ld: Lockdrop, i: int)
    requires
        ld.wf(),
        0 <= i < ld.entries@.len(),
    ensures
        ld.claim_amounts(ld.settled_entry(ld.entries@[i])) == (ClaimAmounts {
            reward: 0,
            pool_share: 0,
        }),
        ld.settled_entry(ld.settled_entry(ld.entries@[i])) == ld.settled_entry(ld.entries@[i]),
{
    lemma_sum_shares_element(ld.entries@, i);
    lemma_claim_idempotent(ld, ld.entries@[i]);
}

/// Claim idempotence: a second claim on an entry that the first claim
/// settled transfers nothing and leaves the entry as it was, as long as the
/// frozen totals between the two claims are unchanged.
pub proof fn lemma_claim_idempotent(ld: Lockdrop, e: LockEntry)
    requires
        e.incentives_share <= ld.state.total_incentives_share,
    ensures
        ld.claim_amounts(ld.settled_entry(e)) == (ClaimAmounts { reward: 0, pool_share: 0 }),
        ld.settled_entry(ld.settled_entry(e)) == ld.settled_entry(e),
{
    let total = ld.state.total_incentives_share;
    lemma_entitlement_nonneg(ld.config.budget(), e.incentives_share, total);
    lemma_entitlement_nonneg(ld.state.pool_share_minted, e.incentives_share, total);
    lemma_entitlement_le_budget(ld.config.budget(), e.incentives_share, total);
    lemma_entitlement_le_budget(ld.state.pool_share_minted, e.incentives_share, total);
}

} // verus!
