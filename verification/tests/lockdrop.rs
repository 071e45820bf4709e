use lockdrop::engine::ClaimAmounts;
use lockdrop::errors::LockdropError;
use lockdrop::ledger::Lockdrop;

const INIT: u64 = 100_000;
const DEPOSIT_WINDOW: u64 = 10_000_000;
const WITHDRAWAL_WINDOW: u64 = 500_000;
const WINDOW_CLOSE: u64 = INIT + DEPOSIT_WINDOW;

fn owner() -> String {
    String::from("contract_owner")
}

fn setup() -> Lockdrop {
    Lockdrop::instantiate(owner(), INIT, DEPOSIT_WINDOW, WITHDRAWAL_WINDOW, 1, 52, 1, 12).unwrap()
}

#[test]
fn proper_initialization_lockdrop() {
    let ld = setup();

    // Check config
    let config = ld.query_config();
    assert_eq!("contract_owner", config.owner);
    assert_eq!(None, config.astro_token);
    assert_eq!(None, config.auction_contract);
    assert_eq!(None, config.generator);
    assert_eq!(INIT, config.init_timestamp);
    assert_eq!(DEPOSIT_WINDOW, config.deposit_window);
    assert_eq!(WITHDRAWAL_WINDOW, config.withdrawal_window);
    assert_eq!(1, config.min_lock_duration);
    assert_eq!(52, config.max_lock_duration);
    assert_eq!(1, config.weekly_multiplier);
    assert_eq!(12, config.weekly_divider);
    assert_eq!(None, config.lockdrop_incentives);

    // Check state
    let state = ld.query_state();
    assert_eq!(0, state.total_incentives_share);
    assert_eq!(0, state.total_principal_deposited);
    assert_eq!(0, state.total_principal_migrated);
    assert_eq!(false, state.are_claims_allowed);
}

#[test]
fn invalid_window_config_rejected() {
    // Withdrawal window longer than the deposit window.
    let r = Lockdrop::instantiate(owner(), INIT, 100, 200, 1, 52, 1, 12);
    assert_eq!(r.err(), Some(LockdropError::InvalidDuration));
    // Duration bounds out of order.
    let r = Lockdrop::instantiate(owner(), INIT, DEPOSIT_WINDOW, WITHDRAWAL_WINDOW, 9, 3, 1, 12);
    assert_eq!(r.err(), Some(LockdropError::InvalidDuration));
    // Zero divider.
    let r = Lockdrop::instantiate(owner(), INIT, DEPOSIT_WINDOW, WITHDRAWAL_WINDOW, 1, 52, 1, 0);
    assert_eq!(r.err(), Some(LockdropError::InvalidDuration));
}

#[test]
fn end_to_end_migration_and_claims() {
    let mut ld = setup();
    let admin = owner();
    let user_a = String::from("user_a");
    let user_b = String::from("user_b");

    ld.update_config(&admin, None, None, None, Some(1_000_000)).unwrap();

    // weight(4) = 1 + 3/12 = 1.25, scaled share 100 * 15 = 1500
    ld.deposit(&user_a, 4, 100, INIT).unwrap();
    // weight(52) = 1 + 51/12 = 5.25, scaled share 300 * 63 = 18900
    ld.deposit(&user_b, 52, 300, INIT + 10).unwrap();
    assert_eq!(ld.query_state().total_incentives_share, 1500 + 18900);
    assert_eq!(ld.query_state().total_principal_deposited, 400);

    // Window closes; the administrator migrates, minting 400 pool shares.
    let migrated = ld.migrate(&admin, String::from("lp_token"), 400, WINDOW_CLOSE).unwrap();
    assert_eq!(migrated, 400);
    let state = ld.query_state();
    assert_eq!(state.total_principal_migrated, 400);
    assert_eq!(state.pool_share_minted, 400);
    assert!(state.are_claims_allowed);

    // Conservation: principal held by entries == deposited - migrated.
    let held: u128 = ld.entries.iter().map(|e| e.principal).sum();
    assert_eq!(held, 0);

    // Claims, once each entry unlocks.
    let a = ld.claim(&user_a, 4, WINDOW_CLOSE + 4).unwrap();
    assert_eq!(a.reward, 1_000_000 * 1500 / 20400); // 73_529
    assert_eq!(a.reward, 73_529);
    assert_eq!(a.pool_share, 400 * 1500 / 20400); // 29
    let b = ld.claim(&user_b, 52, WINDOW_CLOSE + 52).unwrap();
    assert_eq!(b.reward, 1_000_000 * 18900 / 20400); // 926_470
    assert_eq!(b.reward, 926_470);
    assert_eq!(b.pool_share, 370);

    // Rounding down never over-distributes.
    assert!(a.reward + b.reward <= 1_000_000);
    assert!(a.pool_share + b.pool_share <= 400);
}

#[test]
fn conservation_after_each_operation() {
    let mut ld = setup();
    let user_a = String::from("user_a");
    let user_b = String::from("user_b");

    ld.deposit(&user_a, 4, 100, INIT).unwrap();
    let held: u128 = ld.entries.iter().map(|e| e.principal).sum();
    assert_eq!(held, ld.query_state().total_principal_deposited);

    ld.deposit(&user_b, 8, 250, INIT + 5).unwrap();
    ld.deposit(&user_a, 4, 50, INIT + 7).unwrap();
    let held: u128 = ld.entries.iter().map(|e| e.principal).sum();
    assert_eq!(held, 400);
    assert_eq!(held, ld.query_state().total_principal_deposited);

    ld.withdraw(&user_a, 4, 30, INIT + 10).unwrap();
    let held: u128 = ld.entries.iter().map(|e| e.principal).sum();
    assert_eq!(held, 370);
    assert_eq!(held, ld.query_state().total_principal_deposited);
    assert_eq!(ld.query_state().total_principal_migrated, 0);
}

#[test]
fn withdrawal_cap_decays() {
    let mut ld = setup();
    let user_a = String::from("user_a");
    let user_b = String::from("user_b");
    ld.deposit(&user_a, 4, 100, INIT).unwrap();
    ld.deposit(&user_b, 4, 100, INIT).unwrap();

    // At window start the whole principal may leave.
    ld.withdraw(&user_a, 4, 100, INIT).unwrap();
    let info = ld.query_user_info(&user_a);
    assert_eq!(info[0].principal, 0);
    assert!(info[0].withdrawal_used);

    // Halfway through the window only half may leave.
    let halfway = INIT + WITHDRAWAL_WINDOW / 2;
    assert_eq!(
        ld.withdraw(&user_b, 4, 51, halfway),
        Err(LockdropError::InsufficientPrincipal)
    );
    ld.withdraw(&user_b, 4, 50, halfway).unwrap();
    assert_eq!(ld.query_user_info(&user_b)[0].principal, 50);
}

#[test]
fn withdrawal_cap_reaches_zero_at_window_end() {
    let mut ld = setup();
    let user_a = String::from("user_a");
    ld.deposit(&user_a, 4, 100, INIT).unwrap();

    // One instant before the window closes the cap has decayed to zero.
    let last = INIT + WITHDRAWAL_WINDOW - 1;
    assert_eq!(
        ld.withdraw(&user_a, 4, 1, last),
        Err(LockdropError::InsufficientPrincipal)
    );
    // At the close, withdrawals are no longer legal at all.
    assert_eq!(
        ld.withdraw(&user_a, 4, 1, INIT + WITHDRAWAL_WINDOW),
        Err(LockdropError::PhaseViolation)
    );
    assert_eq!(ld.query_user_info(&user_a)[0].principal, 100);
}

#[test]
fn second_withdrawal_rejected() {
    let mut ld = setup();
    let user_a = String::from("user_a");
    ld.deposit(&user_a, 4, 100, INIT).unwrap();

    ld.withdraw(&user_a, 4, 10, INIT + 1).unwrap();
    assert_eq!(ld.query_user_info(&user_a)[0].principal, 90);

    // The single permitted withdrawal is used up; principal is unchanged.
    assert_eq!(
        ld.withdraw(&user_a, 4, 5, INIT + 2),
        Err(LockdropError::AlreadyWithdrawn)
    );
    assert_eq!(ld.query_user_info(&user_a)[0].principal, 90);
    assert_eq!(ld.query_state().total_principal_deposited, 90);
}

#[test]
fn claim_before_unlock_rejected() {
    let mut ld = setup();
    let admin = owner();
    let user_a = String::from("user_a");
    ld.update_config(&admin, None, None, None, Some(1_000_000)).unwrap();
    ld.deposit(&user_a, 4, 100, INIT).unwrap();
    ld.migrate(&admin, String::from("lp_token"), 400, WINDOW_CLOSE).unwrap();

    // The entry unlocks at migration time + duration.
    assert_eq!(
        ld.claim(&user_a, 4, WINDOW_CLOSE + 3),
        Err(LockdropError::NotYetUnlocked)
    );
    let amounts = ld.claim(&user_a, 4, WINDOW_CLOSE + 4).unwrap();
    assert_eq!(amounts.reward, 1_000_000);
    assert_eq!(amounts.pool_share, 400);
}

#[test]
fn claim_is_idempotent() {
    let mut ld = setup();
    let admin = owner();
    let user_a = String::from("user_a");
    let user_b = String::from("user_b");
    ld.update_config(&admin, None, None, None, Some(1_000_000)).unwrap();
    ld.deposit(&user_a, 4, 100, INIT).unwrap();
    ld.deposit(&user_b, 52, 300, INIT).unwrap();
    ld.migrate(&admin, String::from("lp_token"), 400, WINDOW_CLOSE).unwrap();

    let now = WINDOW_CLOSE + 100;
    let first = ld.claim(&user_a, 4, now).unwrap();
    assert_eq!(first.reward, 73_529);
    let info_after_first = ld.query_user_info(&user_a);

    // A second claim with no intervening state change transfers nothing
    // and leaves every balance as it was.
    let second = ld.claim(&user_a, 4, now).unwrap();
    assert_eq!(second, ClaimAmounts { reward: 0, pool_share: 0 });
    assert_eq!(ld.query_user_info(&user_a), info_after_first);
    assert_eq!(ld.query_state().total_incentives_share, 20400);
}

#[test]
fn deposit_phase_and_argument_errors() {
    let mut ld = setup();
    let user_a = String::from("user_a");

    // Before the window opens.
    assert_eq!(
        ld.deposit(&user_a, 4, 100, INIT - 1),
        Err(LockdropError::PhaseViolation)
    );
    // After the window closes.
    assert_eq!(
        ld.deposit(&user_a, 4, 100, WINDOW_CLOSE),
        Err(LockdropError::PhaseViolation)
    );
    // Duration out of bounds.
    assert_eq!(
        ld.deposit(&user_a, 0, 100, INIT),
        Err(LockdropError::InvalidDuration)
    );
    assert_eq!(
        ld.deposit(&user_a, 53, 100, INIT),
        Err(LockdropError::InvalidDuration)
    );
    // A deposit of nothing.
    assert_eq!(
        ld.deposit(&user_a, 4, 0, INIT),
        Err(LockdropError::InsufficientPrincipal)
    );
    assert_eq!(ld.query_state().total_principal_deposited, 0);
}

#[test]
fn deposit_overflow_guarded() {
    let mut ld = setup();
    let user_a = String::from("user_a");
    // weight(4) scales the amount by 15, which cannot fit.
    assert_eq!(
        ld.deposit(&user_a, 4, u128::MAX, INIT),
        Err(LockdropError::ArithmeticOverflow)
    );
    assert_eq!(ld.query_state().total_principal_deposited, 0);
}

#[test]
fn withdraw_overflow_guarded() {
    let mut ld = setup();
    let user_a = String::from("user_a");
    // Large enough that principal times the remaining window overflows,
    // small enough that the share arithmetic of the deposit still fits.
    let big = u128::MAX / 15;
    ld.deposit(&user_a, 4, big, INIT).unwrap();
    assert_eq!(
        ld.withdraw(&user_a, 4, 1, INIT + 1),
        Err(LockdropError::ArithmeticOverflow)
    );
}

#[test]
fn claim_overflow_guarded() {
    let mut ld = setup();
    let admin = owner();
    let user_a = String::from("user_a");
    ld.update_config(&admin, None, None, None, Some(u128::MAX)).unwrap();
    ld.deposit(&user_a, 1, 2, INIT).unwrap();
    ld.migrate(&admin, String::from("lp_token"), 1, WINDOW_CLOSE).unwrap();
    // budget * share = u128::MAX * 24 cannot fit.
    assert_eq!(
        ld.claim(&user_a, 1, WINDOW_CLOSE + 1),
        Err(LockdropError::ArithmeticOverflow)
    );
}

#[test]
fn migration_gates() {
    let mut ld = setup();
    let admin = owner();
    let stranger = String::from("stranger");
    let user_a = String::from("user_a");
    ld.deposit(&user_a, 4, 100, INIT).unwrap();

    // Only the administrator may migrate.
    assert_eq!(
        ld.migrate(&stranger, String::from("lp_token"), 400, WINDOW_CLOSE),
        Err(LockdropError::Unauthorized)
    );
    // Not before the deposit window closes.
    assert_eq!(
        ld.migrate(&admin, String::from("lp_token"), 400, INIT + 5),
        Err(LockdropError::PhaseViolation)
    );
    // Exactly once.
    assert_eq!(
        ld.migrate(&admin, String::from("lp_token"), 400, WINDOW_CLOSE),
        Ok(100)
    );
    assert_eq!(
        ld.migrate(&admin, String::from("lp_token"), 400, WINDOW_CLOSE + 1),
        Err(LockdropError::PhaseViolation)
    );
}

#[test]
fn migration_with_no_deposits_succeeds() {
    let mut ld = setup();
    let admin = owner();
    let user_a = String::from("user_a");
    assert_eq!(ld.migrate(&admin, String::from("lp_token"), 0, WINDOW_CLOSE), Ok(0));
    assert!(ld.query_state().are_claims_allowed);
    // Nothing to claim for anyone: reward distribution is a no-op.
    assert_eq!(
        ld.claim(&user_a, 4, WINDOW_CLOSE + 100),
        Err(LockdropError::InsufficientPrincipal)
    );
}

#[test]
fn update_config_rules() {
    let mut ld = setup();
    let admin = owner();
    let stranger = String::from("stranger");

    assert_eq!(
        ld.update_config(&stranger, None, None, None, Some(5)),
        Err(LockdropError::Unauthorized)
    );
    ld.update_config(&admin, Some(String::from("astro")), None, None, Some(1_000_000)).unwrap();
    assert_eq!(ld.query_config().astro_token.as_deref(), Some("astro"));
    assert_eq!(ld.query_config().lockdrop_incentives, Some(1_000_000));

    // Each field is settable exactly once.
    assert_eq!(
        ld.update_config(&admin, Some(String::from("other")), None, None, None),
        Err(LockdropError::PhaseViolation)
    );

    // And never after migration.
    ld.migrate(&admin, String::from("lp_token"), 0, WINDOW_CLOSE).unwrap();
    assert_eq!(
        ld.update_config(&admin, None, None, Some(String::from("generator")), None),
        Err(LockdropError::PhaseViolation)
    );
    // A patch that changes nothing is still fine.
    assert_eq!(ld.update_config(&admin, None, None, None, None), Ok(()));
}
