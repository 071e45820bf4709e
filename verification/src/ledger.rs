use vstd::prelude::*;
use crate::config::{Config, Phase, phase_of, scaled_weight_of, spec_phase_of};
use crate::errors::LockdropError;
use crate::incentives::entitlement;

verus! {

/// Singleton engine state, mutated as deposits, withdrawals, the one-shot
/// migration and claims occur.
pub struct State {
    /// Sum of `principal * scaled_weight(duration)` over every lock entry,
    /// frozen once migration begins.
    pub total_incentives_share: u128,
    /// Total principal paid in and not withdrawn.
    pub total_principal_deposited: u128,
    /// Total principal handed to the downstream pool by migration.
    pub total_principal_migrated: u128,
    /// Identity of the pool-share token minted by migration.
    pub pool_share_token: Option<String>,
    /// Amount of pool-share tokens minted by migration.
    pub pool_share_minted: u128,
    /// Set exactly once, when migration completes.
    pub are_claims_allowed: bool,
}

/// One user's lock position in one duration bucket. Created on first
/// deposit for its `(user, duration)` key and never deleted; zeroed-out
/// entries remain for audit and query.
pub struct LockEntry {
    pub user: String,
    /// The chosen lock duration, in duration units.
    pub duration: u64,
    /// Principal currently held in custody for this entry; zeroed when
    /// migration moves the pooled principal downstream.
    pub principal: u128,
    /// This entry's slice of the weighted-share accumulator:
    /// `principal * scaled_weight(duration)` until migration freezes it.
    pub incentives_share: u128,
    /// Reward tokens already claimed against this entry's entitlement.
    pub reward_claimed: u128,
    /// Pool-share tokens already claimed against this entry's entitlement.
    pub pool_share_claimed: u128,
    /// Whether the single permitted withdrawal has been used.
    pub withdrawal_used: bool,
    /// Migration time plus `duration`; zero until migration occurs.
    pub unlock_timestamp: u64,
}

/// The lock-accounting engine: configuration, global totals, and the
/// per-user, per-duration lock ledger.
pub struct Lockdrop {
    pub config: Config,
    pub state: State,
    pub entries: Vec<LockEntry>,
}

/// Whether `e` is the entry of `user` in duration bucket `duration`.
pub open spec fn is_entry_key(e: LockEntry, user: Seq<char>, duration: u64) -> bool {
    e.user@ == user && e.duration == duration
}

pub open spec fn has_entry(s: Seq<LockEntry>, user: Seq<char>, duration: u64) -> bool {
    exists|i: int| 0 <= i < s.len() && #[trigger] is_entry_key(s[i], user, duration)
}

/// The index of the entry keyed `(user, duration)`; meaningful when
/// `has_entry` holds and the keys are unique.
pub open spec fn entry_index(s: Seq<LockEntry>, user: Seq<char>, duration: u64) -> int {
    choose|i: int| 0 <= i < s.len() && #[trigger] is_entry_key(s[i], user, duration)
}

/// Each `(user, duration)` key owns at most one entry.
pub open spec fn unique_keys(s: Seq<LockEntry>) -> bool {
    forall|i: int, j: int| #![trigger s[i], s[j]]
        0 <= i < s.len() && 0 <= j < s.len() && i != j
            ==> !(s[i].user@ == s[j].user@ && s[i].duration == s[j].duration)
}

pub open spec fn sum_principal(s: Seq<LockEntry>) -> int
    decreases s.len(),
{
    if s.len() == 0 {
        0
    } else {
        sum_principal(s.drop_last()) + s.last().principal
    }
}

pub open spec fn sum_shares(s: Seq<LockEntry>) -> int
    decreases s.len(),
{
    if s.len() == 0 {
        0
    } else {
        sum_shares(s.drop_last()) + s.last().incentives_share
    }
}

pub proof fn lemma_sum_principal_nonneg(s: Seq<LockEntry>)
    ensures
        0 <= sum_principal(s),
    decreases s.len(),
{
    if s.len() > 0 {
        lemma_sum_principal_nonneg(s.drop_last());
    }
}

pub proof fn lemma_sum_shares_nonneg(s: Seq<LockEntry>)
    ensures
        0 <= sum_shares(s),
    decreases s.len(),
{
    if s.len() > 0 {
        lemma_sum_shares_nonneg(s.drop_last());
    }
}

/// No entry holds more principal than all entries together.
pub proof fn lemma_sum_principal_element(s: Seq<LockEntry>, i: int)
    requires
        0 <= i < s.len(),
    ensures
        s[i].principal <= sum_principal(s),
    decreases s.len(),
{
    if i == s.len() - 1 {
        lemma_sum_principal_nonneg(s.drop_last());
    } else {
        lemma_sum_principal_element(s.drop_last(), i);
    }
}

/// No entry's share exceeds the sum of all shares.
pub proof fn lemma_sum_shares_element(s: Seq<LockEntry>, i: int)
    requires
        0 <= i < s.len(),
    ensures
        s[i].incentives_share <= sum_shares(s),
    decreases s.len(),
{
    if i == s.len() - 1 {
        lemma_sum_shares_nonneg(s.drop_last());
    } else {
        lemma_sum_shares_element(s.drop_last(), i);
    }
}

pub proof fn lemma_sum_principal_update(s: Seq<LockEntry>, i: int, e: LockEntry)
    requires
        0 <= i < s.len(),
    ensures
        sum_principal(s.update(i, e)) == sum_principal(s) - s[i].principal + e.principal,
    decreases s.len(),
{
    let t = s.update(i, e);
    if i == s.len() - 1 {
        assert(t.drop_last() =~= s.drop_last());
    } else {
        lemma_sum_principal_update(s.drop_last(), i, e);
        assert(t.drop_last() =~= s.drop_last().update(i, e));
        assert(t.last() == s.last());
    }
}

pub proof fn lemma_sum_shares_update(s: Seq<LockEntry>, i: int, e: LockEntry)
    requires
        0 <= i < s.len(),
    ensures
        sum_shares(s.update(i, e)) == sum_shares(s) - s[i].incentives_share + e.incentives_share,
    decreases s.len(),
{
    let t = s.update(i, e);
    if i == s.len() - 1 {
        assert(t.drop_last() =~= s.drop_last());
    } else {
        lemma_sum_shares_update(s.drop_last(), i, e);
        assert(t.drop_last() =~= s.drop_last().update(i, e));
        assert(t.last() == s.last());
    }
}

pub proof fn lemma_sum_push(s: Seq<LockEntry>, e: LockEntry)
    ensures
        sum_principal(s.push(e)) == sum_principal(s) + e.principal,
        sum_shares(s.push(e)) == sum_shares(s) + e.incentives_share,
{
    assert(s.push(e).drop_last() =~= s);
}

/// Under unique keys, any entry matching `(user, duration)` stands at
/// `entry_index`.
pub proof fn lemma_unique_index(s: Seq<LockEntry>, user: Seq<char>, duration: u64, i: int)
    requires
        unique_keys(s),
        0 <= i < s.len(),
        is_entry_key(s[i], user, duration),
    ensures
        has_entry(s, user, duration),
        entry_index(s, user, duration) == i,
{
    assert(has_entry(s, user, duration));
    let c = entry_index(s, user, duration);
    assert(0 <= c < s.len() && is_entry_key(s[c], user, duration));
}

impl Lockdrop {
    /// What must hold of the ledger before migration: nothing has migrated,
    /// nothing has been minted or claimed, no entry is unlocked, and every
    /// entry's share is exactly its principal times its duration weight.
    pub open spec fn pre_migration_wf(self) -> bool {
        &&& self.state.total_principal_migrated == 0
        &&& self.state.pool_share_minted == 0
        &&& self.state.pool_share_token is None
        &&& forall|i: int| 0 <= i < self.entries@.len()
                ==> (#[trigger] self.entries@[i]).incentives_share
                    == self.entries@[i].principal * scaled_weight_of(self.config, self.entries@[i].duration)
        &&& forall|i: int| 0 <= i < self.entries@.len()
                ==> (#[trigger] self.entries@[i]).reward_claimed == 0
                    && self.entries@[i].pool_share_claimed == 0
                    && self.entries@[i].unlock_timestamp == 0
    }

    /// What must hold once migration has happened: every entry's principal
    /// has moved downstream, and nothing is claimed beyond its entitlement.
    pub open spec fn post_migration_wf(self) -> bool {
        &&& self.state.total_principal_migrated == self.state.total_principal_deposited
        &&& forall|i: int| 0 <= i < self.entries@.len()
                ==> (#[trigger] self.entries@[i]).principal == 0
        &&& forall|i: int| 0 <= i < self.entries@.len()
                ==> (#[trigger] self.entries@[i]).reward_claimed
                        <= entitlement(
                            self.config.budget(),
                            self.entries@[i].incentives_share,
                            self.state.total_incentives_share,
                        )
                    && self.entries@[i].pool_share_claimed
                        <= entitlement(
                            self.state.pool_share_minted,
                            self.entries@[i].incentives_share,
                            self.state.total_incentives_share,
                        )
    }

    /// The engine invariant, established at creation and preserved by every
    /// operation. In particular, the principal held by all entries together
    /// always equals what was deposited minus what has migrated out, and
    /// the weighted-share accumulator always equals the sum of the entries'
    /// shares.
    pub open spec fn wf(self) -> bool {
        &&& self.config.valid()
        &&& unique_keys(self.entries@)
        &&& forall|i: int| 0 <= i < self.entries@.len()
                ==> self.config.duration_in_bounds((#[trigger] self.entries@[i]).duration)
        &&& sum_principal(self.entries@)
            == self.state.total_principal_deposited - self.state.total_principal_migrated
        &&& sum_shares(self.entries@) == self.state.total_incentives_share
        &&& (!self.state.are_claims_allowed ==> self.pre_migration_wf())
        &&& (self.state.are_claims_allowed ==> self.post_migration_wf())
    }

    /// Creates the engine. Fails with `InvalidDuration` when the window or
    /// duration configuration breaks the `Config` invariant; otherwise the
    /// ledger starts empty, with all totals zero and claims disabled.
    pub fn instantiate(
        owner: String,
        init_timestamp: u64,
        deposit_window: u64,
        withdrawal_window: u64,
        min_lock_duration: u64,
        max_lock_duration: u64,
        weekly_multiplier: u64,
        weekly_divider: u64,
    ) -> (r: Result<Lockdrop, LockdropError>)
        ensures
            ({
                let cfg = (Config {
                    owner: owner,
                    astro_token: None,
                    auction_contract: None,
                    generator: None,
                    init_timestamp,
                    deposit_window,
                    withdrawal_window,
                    min_lock_duration,
                    max_lock_duration,
                    weekly_multiplier,
                    weekly_divider,
                    lockdrop_incentives: None,
                });
                match r {
                    Ok(ld) => {
                        &&& cfg.valid()
                        &&& ld.wf()
                        &&& ld.config == cfg
                        &&& ld.state == initial_state()
                        &&& ld.entries@ == Seq::<LockEntry>::empty()
                    },
                    Err(e) => !cfg.valid() && e == LockdropError::InvalidDuration,
                }
            }),
    {
        let config = Config {
            owner,
            astro_token: None,
            auction_contract: None,
            generator: None,
            init_timestamp,
            deposit_window,
            withdrawal_window,
            min_lock_duration,
            max_lock_duration,
            weekly_multiplier,
            weekly_divider,
            lockdrop_incentives: None,
        };
        if !config.validate() {
            return Err(LockdropError::InvalidDuration);
        }
        let ld = Lockdrop {
            config,
            state: State {
                total_incentives_share: 0,
                total_principal_deposited: 0,
                total_principal_migrated: 0,
                pool_share_token: None,
                pool_share_minted: 0,
                are_claims_allowed: false,
            },
            entries: Vec::new(),
        };
        assert(ld.entries@ =~= Seq::<LockEntry>::empty());
        Ok(ld)
    }

    /// Read-only projection of the configuration.
    pub fn query_config(&self) -> (c: &Config)
        ensures
            *c == self.config,
    {
        &self.config
    }

    /// Read-only projection of the global state.
    pub fn query_state(&self) -> (s: &State)
        ensures
            *s == self.state,
    {
        &self.state
    }

    /// The phase the engine is in at time `now`.
    pub fn query_phase(&self, now: u64) -> (p: Phase)
        requires
            self.wf(),
        ensures
            p == spec_phase_of(self.config, self.state.are_claims_allowed, now),
    {
        phase_of(&self.config, self.state.are_claims_allowed, now)
    }

    /// Finds the position of the entry keyed `(user, duration)`, scanning
    /// in deposit order.
    pub fn find_entry(&self, user: &String, duration: u64) -> (r: Option<usize>)
        ensures
            match r {
                Some(i) => i < self.entries@.len()
                    && is_entry_key(self.entries@[i as int], user@, duration),
                None => !has_entry(self.entries@, user@, duration),
            },
    {
        let n = self.entries.len();
        let mut i: usize = 0;
        while i < n
            invariant
                n == self.entries@.len(),
                i <= n,
                forall|j: int| 0 <= j < i
                    ==> !(#[trigger] is_entry_key(self.entries@[j], user@, duration)),
            decreases n - i,
        {
            if self.entries[i].user == *user && self.entries[i].duration == duration {
                return Some(i);
            }
            i = i + 1;
        }
        None
    }
}

/// Read-only projection of one lock entry, as the query surface reports
/// it; the user is the query's own argument and is left out.
#[derive(Clone, Copy, Debug, PartialEq, Eq, Structural)]
pub struct UserLockInfo {
    pub duration: u64,
    pub principal: u128,
    pub incentives_share: u128,
    pub reward_claimed: u128,
    pub pool_share_claimed: u128,
    pub withdrawal_used: bool,
    pub unlock_timestamp: u64,
}

pub open spec fn info_of(e: LockEntry) -> UserLockInfo {
    UserLockInfo {
        duration: e.duration,
        principal: e.principal,
        incentives_share: e.incentives_share,
        reward_claimed: e.reward_claimed,
        pool_share_claimed: e.pool_share_claimed,
        withdrawal_used: e.withdrawal_used,
        unlock_timestamp: e.unlock_timestamp,
    }
}

/// The projections of `user`'s entries, in deposit order.
pub open spec fn user_info_of(s: Seq<LockEntry>, user: Seq<char>) -> Seq<UserLockInfo>
    decreases s.len(),
{
    if s.len() == 0 {
        Seq::empty()
    } else {
        let prefix = user_info_of(s.drop_last(), user);
        if s.last().user@ == user {
            prefix.push(info_of(s.last()))
        } else {
            prefix
        }
    }
}

impl Lockdrop {
    /// Read-only projection of every lock entry `user` owns, in deposit
    /// order.
    pub fn query_user_info(&self, user: &String) -> (v: Vec<UserLockInfo>)
        ensures
            v@ == user_info_of(self.entries@, user@),
    {
        let mut v: Vec<UserLockInfo> = Vec::new();
        let n = self.entries.len();
        let mut i: usize = 0;
        while i < n
            invariant
                n == self.entries@.len(),
                i <= n,
                v@ == user_info_of(self.entries@.take(i as int), user@),
            decreases n - i,
        {
            let e = &self.entries[i];
            if e.user == *user {
                v.push(
                    UserLockInfo {
                        duration: e.duration,
                        principal: e.principal,
                        incentives_share: e.incentives_share,
                        reward_claimed: e.reward_claimed,
                        pool_share_claimed: e.pool_share_claimed,
                        withdrawal_used: e.withdrawal_used,
                        unlock_timestamp: e.unlock_timestamp,
                    },
                );
            }
            proof {
                assert(self.entries@.take(i as int + 1).drop_last() =~= self.entries@.take(
                    i as int,
                ));
                assert(self.entries@.take(i as int + 1).last() == self.entries@[i as int]);
            }
            i = i + 1;
        }
        proof {
            assert(self.entries@.take(n as int) =~= self.entries@);
        }
        v
    }
}

/// The state a freshly instantiated engine starts in.
pub open spec fn initial_state() -> State {
    State {
        total_incentives_share: 0,
        total_principal_deposited: 0,
        total_principal_migrated: 0,
        pool_share_token: None,
        pool_share_minted: 0,
        are_claims_allowed: false,
    }
}

/// Conservation of principal: the principal held by all lock entries
/// together equals everything deposited minus everything migrated out, a
/// direct consequence of the engine invariant that every operation
/// preserves.
pub proof fn lemma_principal_conservation(ld: Lockdrop)
    requires
        ld.wf(),
    ensures
        sum_principal(ld.entries@)
            == ld.state.total_principal_deposited - ld.state.total_principal_migrated,
{
}

} // verus!
