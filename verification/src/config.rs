use vstd::prelude::*;
use vstd::arithmetic::div_mod::{lemma_div_by_multiple, lemma_div_is_ordered, lemma_div_of0};
use vstd::arithmetic::mul::{lemma_mul_inequality, lemma_mul_upper_bound};

verus! {

/// Engine configuration. Written once at creation; the collaborator
/// addresses and the reward budget may each be set once, later, by the
/// administrator, as long as migration has not happened.
pub struct Config {
    /// Administrator address.
    pub owner: String,
    /// Reward-token address, settable once post-creation.
    pub astro_token: Option<String>,
    /// Downstream auction address, settable once post-creation.
    pub auction_contract: Option<String>,
    /// Generator (staking/reward-emission) address, settable once.
    pub generator: Option<String>,
    /// Timestamp at which the deposit window (and the withdrawal window)
    /// opens.
    pub init_timestamp: u64,
    /// Length of the deposit window.
    pub deposit_window: u64,
    /// Length of the withdrawal window, a sub-interval of the deposit
    /// window starting at the same instant.
    pub withdrawal_window: u64,
    /// Smallest lock duration a deposit may choose, in duration units.
    pub min_lock_duration: u64,
    /// Largest lock duration a deposit may choose, in duration units.
    pub max_lock_duration: u64,
    /// Numerator of the per-unit weight increment.
    pub weekly_multiplier: u64,
    /// Denominator of the per-unit weight increment.
    pub weekly_divider: u64,
    /// Total reward-token budget distributed pro rata over all lock
    /// entries; settable once post-creation.
    pub lockdrop_incentives: Option<u128>,
}

impl Config {
    /// The configuration invariant: the withdrawal window fits inside the
    /// deposit window, the lock-duration bounds are ordered, all durations
    /// are positive, and the window end fits in the timestamp type.
    pub open spec fn valid(self) -> bool {
        &&& 0 < self.withdrawal_window <= self.deposit_window
        &&& 0 < self.min_lock_duration <= self.max_lock_duration
        &&& self.weekly_divider > 0
        &&& self.init_timestamp + self.deposit_window <= u64::MAX
    }

    pub open spec fn deposit_window_end(self) -> int {
        self.init_timestamp + self.deposit_window
    }

    pub open spec fn withdrawal_window_end(self) -> int {
        self.init_timestamp + self.withdrawal_window
    }

    pub open spec fn deposits_open(self, now: u64) -> bool {
        self.init_timestamp <= now < self.deposit_window_end()
    }

    pub open spec fn withdrawals_open(self, now: u64) -> bool {
        self.init_timestamp <= now < self.withdrawal_window_end()
    }

    pub open spec fn duration_in_bounds(self, duration: u64) -> bool {
        self.min_lock_duration <= duration <= self.max_lock_duration
    }

    /// The reward budget; zero until the administrator has set it.
    pub open spec fn budget(self) -> u128 {
        match self.lockdrop_incentives {
            Some(b) => b,
            None => 0,
        }
    }

    /// Checks the configuration invariant.
    pub fn validate(&self) -> (b: bool)
        ensures
            b == self.valid(),
    {
        0 < self.withdrawal_window && self.withdrawal_window <= self.deposit_window
            && 0 < self.min_lock_duration && self.min_lock_duration <= self.max_lock_duration
            && self.weekly_divider > 0
            && self.init_timestamp.checked_add(self.deposit_window).is_some()
    }

    /// Computes the duration weight, scaled by `weekly_divider` so that all
    /// share arithmetic stays in exact integers: the rational weight
    /// `1 + (duration - 1) * weekly_multiplier / weekly_divider` times the
    /// divider.
    pub fn scaled_weight(&self, duration: u64) -> (w: u128)
        requires
            self.valid(),
            duration >= 1,
        ensures
            w == scaled_weight_of(*self, duration),
    {
        proof {
            lemma_mul_upper_bound(
                duration - 1,
                u64::MAX as int,
                self.weekly_multiplier as int,
                u64::MAX as int,
            );
        }
        (self.weekly_divider as u128) + ((duration - 1) as u128) * (self.weekly_multiplier as u128)
    }
}

/// The duration weight of a lock entry, scaled by `weekly_divider`:
/// `weekly_divider + (duration - 1) * weekly_multiplier`. Dividing by the
/// divider yields the rational weight `1 + (duration - 1) * multiplier /
/// divider`; keeping the scaled integer avoids any rounding in the share
/// accounting, and the common factor cancels out of every pro-rata
/// entitlement.
pub open spec fn scaled_weight_of(cfg: Config, duration: u64) -> int {
    cfg.weekly_divider + (duration - 1) * cfg.weekly_multiplier
}

/// The weight is monotonically non-decreasing in the chosen lock duration:
/// locking longer never earns a smaller share per unit of principal.
pub proof fn lemma_weight_monotonic(cfg: Config, d1: u64, d2: u64)
    requires
        cfg.valid(),
        cfg.duration_in_bounds(d1),
        cfg.duration_in_bounds(d2),
        d1 <= d2,
    ensures
        scaled_weight_of(cfg, d1) <= scaled_weight_of(cfg, d2),
{
    lemma_mul_inequality(d1 - 1, d2 - 1, cfg.weekly_multiplier as int);
}

/// Which operations are legal now. The withdrawal window opens together
/// with the deposit window and closes earlier, so deposits are accepted in
/// both `WithdrawalOpen` and `DepositOpen`; withdrawals only in
/// `WithdrawalOpen`; migration only in `DepositClosedAwaitingMigration`;
/// claims only in `Migrated`.
#[derive(Clone, Copy, Debug, PartialEq, Eq, Structural)]
pub enum Phase {
    NotStarted,
    WithdrawalOpen,
    DepositOpen,
    DepositClosedAwaitingMigration,
    Migrated,
}

/// The phase gate: a pure function of the current time, the configured
/// window boundaries, and the one-shot claims flag that migration sets.
pub open spec fn spec_phase_of(cfg: Config, claims_enabled: bool, now: u64) -> Phase {
    if claims_enabled {
        Phase::Migrated
    } else if now < cfg.init_timestamp {
        Phase::NotStarted
    } else if now < cfg.withdrawal_window_end() {
        Phase::WithdrawalOpen
    } else if now < cfg.deposit_window_end() {
        Phase::DepositOpen
    } else {
        Phase::DepositClosedAwaitingMigration
    }
}

/// Evaluates the phase gate.
pub fn phase_of(cfg: &Config, claims_enabled: bool, now: u64) -> (p: Phase)
    requires
        cfg.valid(),
    ensures
        p == spec_phase_of(*cfg, claims_enabled, now),
{
    if claims_enabled {
        Phase::Migrated
    } else if now < cfg.init_timestamp {
        Phase::NotStarted
    } else if now < cfg.init_timestamp + cfg.withdrawal_window {
        Phase::WithdrawalOpen
    } else if now < cfg.init_timestamp + cfg.deposit_window {
        Phase::DepositOpen
    } else {
        Phase::DepositClosedAwaitingMigration
    }
}

/// The largest amount an entry holding `principal` may withdraw at time
/// `now` inside the withdrawal window: the withdrawable fraction decays
/// linearly from the whole principal at window start to nothing at window
/// end.
pub open spec fn spec_max_withdrawable(cfg: Config, principal: u128, now: u64) -> int {
    principal * (cfg.withdrawal_window_end() - now) / (cfg.withdrawal_window as int)
}

/// Computes the decaying withdrawal cap; `None` when the product
/// `principal * (window_end - now)` does not fit the amount type.
pub fn max_withdrawable(cfg: &Config, principal: u128, now: u64) -> (r: Option<u128>)
    requires
        cfg.valid(),
        cfg.withdrawals_open(now),
    ensures
        match r {
            Some(c) => c == spec_max_withdrawable(*cfg, principal, now) && principal * (
            cfg.withdrawal_window_end() - now) <= u128::MAX,
            None => principal * (cfg.withdrawal_window_end() - now) > u128::MAX,
        },
{
    let remaining: u64 = cfg.init_timestamp + cfg.withdrawal_window - now;
    match principal.checked_mul(remaining as u128) {
        Some(scaled) => Some(scaled / (cfg.withdrawal_window as u128)),
        None => None,
    }
}

/// The withdrawal cap is monotonically decreasing in `now` across the
/// withdrawal window; at window start it permits the whole principal, and
/// at window end it permits nothing.
pub proof fn lemma_withdrawal_cap_monotonic(cfg: Config, principal: u128, t1: u64, t2: u64)
    requires
        cfg.valid(),
        cfg.withdrawals_open(t1),
        cfg.withdrawals_open(t2),
        t1 <= t2,
    ensures
        spec_max_withdrawable(cfg, principal, t2) <= spec_max_withdrawable(cfg, principal, t1),
        spec_max_withdrawable(cfg, principal, cfg.init_timestamp) == principal,
        spec_max_withdrawable(cfg, principal, (cfg.init_timestamp + cfg.withdrawal_window) as u64)
            == 0,
{
    let w = cfg.withdrawal_window as int;
    lemma_mul_inequality(
        cfg.withdrawal_window_end() - t2,
        cfg.withdrawal_window_end() - t1,
        principal as int,
    );
    lemma_div_is_ordered(
        principal * (cfg.withdrawal_window_end() - t2),
        principal * (cfg.withdrawal_window_end() - t1),
        w,
    );
    lemma_div_by_multiple(principal as int, w);
    assert(principal * (cfg.withdrawal_window_end() - cfg.init_timestamp) == principal * w);
    let endt = (cfg.init_timestamp + cfg.withdrawal_window) as u64;
    assert(cfg.withdrawal_window_end() - endt == 0);
    assert(principal * (cfg.withdrawal_window_end() - endt) == 0)
        by (nonlinear_arith)
        requires
            cfg.withdrawal_window_end() - endt == 0,
    ;
    lemma_div_of0(w);
}

} // verus!
