use lockdrop::coins::{Coin, get_denom_amount_from_coins};
use lockdrop::config::Phase;
use lockdrop::ledger::Lockdrop;
use lockdrop::messages::{build_send_cw20_token_msg, build_transfer_cw20_token_msg, zero_address};

const INIT: u64 = 100_000;
const DEPOSIT_WINDOW: u64 = 10_000_000;
const WITHDRAWAL_WINDOW: u64 = 500_000;

fn setup() -> Lockdrop {
    Lockdrop::instantiate(
        String::from("contract_owner"),
        INIT,
        DEPOSIT_WINDOW,
        WITHDRAWAL_WINDOW,
        1,
        52,
        1,
        12,
    )
    .unwrap()
}

#[test]
fn phase_gate_follows_the_clock() {
    let mut ld = setup();
    assert_eq!(ld.query_phase(INIT - 1), Phase::NotStarted);
    assert_eq!(ld.query_phase(INIT), Phase::WithdrawalOpen);
    assert_eq!(ld.query_phase(INIT + WITHDRAWAL_WINDOW - 1), Phase::WithdrawalOpen);
    assert_eq!(ld.query_phase(INIT + WITHDRAWAL_WINDOW), Phase::DepositOpen);
    assert_eq!(ld.query_phase(INIT + DEPOSIT_WINDOW - 1), Phase::DepositOpen);
    assert_eq!(
        ld.query_phase(INIT + DEPOSIT_WINDOW),
        Phase::DepositClosedAwaitingMigration
    );

    let admin = String::from("contract_owner");
    ld.migrate(&admin, String::from("lp_token"), 0, INIT + DEPOSIT_WINDOW)
        .unwrap();
    // Once claims are enabled the engine stays migrated, whatever the clock
    // says: even a rolled-back clock reopens nothing.
    assert_eq!(ld.query_phase(INIT), Phase::Migrated);
    assert_eq!(ld.query_phase(u64::MAX), Phase::Migrated);
    assert_eq!(
        ld.deposit(&String::from("user_a"), 4, 100, INIT),
        Err(lockdrop::errors::LockdropError::PhaseViolation)
    );
}

#[test]
fn weight_grows_with_duration() {
    let ld = setup();
    let config = ld.query_config();
    // weight(4) = 1 + 3 * 1/12 = 1.25; scaled by the divider 12 that is 15.
    assert_eq!(config.scaled_weight(4), 15);
    // weight(52) = 1 + 51 * 1/12 = 5.25; scaled, 63.
    assert_eq!(config.scaled_weight(52), 63);
    let mut previous: u128 = 0;
    for duration in 1..=52u64 {
        let w = config.scaled_weight(duration);
        assert!(previous <= w);
        previous = w;
    }
}

#[test]
fn user_info_lists_only_that_user() {
    let mut ld = setup();
    let user_a = String::from("user_a");
    let user_b = String::from("user_b");
    ld.deposit(&user_a, 4, 100, INIT).unwrap();
    ld.deposit(&user_b, 8, 200, INIT).unwrap();
    ld.deposit(&user_a, 12, 300, INIT).unwrap();
    ld.deposit(&user_a, 4, 11, INIT).unwrap();

    let info = ld.query_user_info(&user_a);
    assert_eq!(info.len(), 2);
    assert_eq!(info[0].duration, 4);
    assert_eq!(info[0].principal, 111);
    assert_eq!(info[0].incentives_share, 111 * 15);
    assert_eq!(info[1].duration, 12);
    assert_eq!(info[1].principal, 300);
    assert!(!info[0].withdrawal_used);
    assert_eq!(info[0].unlock_timestamp, 0);

    assert_eq!(ld.query_user_info(&String::from("nobody")).len(), 0);
    assert!(ld.find_entry(&user_b, 8).is_some());
    assert!(ld.find_entry(&user_b, 4).is_none());
}

#[test]
fn transfer_msg_carries_the_decided_amount() {
    let recipient = cosmwasm_std::Addr::unchecked("user_a");
    let msg = build_transfer_cw20_token_msg(
        recipient,
        String::from("astro_token"),
        cosmwasm_std::Uint128::new(73_529),
    )
    .unwrap();
    match msg {
        cosmwasm_std::CosmosMsg::Wasm(cosmwasm_std::WasmMsg::Execute {
            contract_addr,
            msg,
            funds,
        }) => {
            assert_eq!(contract_addr, "astro_token");
            assert!(funds.is_empty());
            let decoded: cw20::Cw20ExecuteMsg = cosmwasm_std::from_json(&msg).unwrap();
            match decoded {
                cw20::Cw20ExecuteMsg::Transfer { recipient, amount } => {
                    assert_eq!(recipient, "user_a");
                    assert_eq!(amount.u128(), 73_529);
                }
                other => panic!("expected a transfer, got {:?}", other),
            }
        }
        other => panic!("expected a wasm execute message, got {:?}", other),
    }
}

#[test]
fn send_msg_carries_the_payload() {
    let payload = cosmwasm_std::Binary::from(b"hook".as_slice());
    let msg = build_send_cw20_token_msg(
        String::from("auction_contract"),
        String::from("lp_token"),
        cosmwasm_std::Uint128::new(400),
        payload.clone(),
    )
    .unwrap();
    match msg {
        cosmwasm_std::CosmosMsg::Wasm(cosmwasm_std::WasmMsg::Execute {
            contract_addr,
            msg,
            funds,
        }) => {
            assert_eq!(contract_addr, "lp_token");
            assert!(funds.is_empty());
            let decoded: cw20::Cw20ExecuteMsg = cosmwasm_std::from_json(&msg).unwrap();
            match decoded {
                cw20::Cw20ExecuteMsg::Send { contract, amount, msg } => {
                    assert_eq!(contract, "auction_contract");
                    assert_eq!(amount.u128(), 400);
                    assert_eq!(msg, payload);
                }
                other => panic!("expected a send, got {:?}", other),
            }
        }
        other => panic!("expected a wasm execute message, got {:?}", other),
    }
}

#[test]
fn zero_address_is_empty() {
    assert_eq!(zero_address().as_str(), "");
}

#[test]
fn denom_lookup_takes_first_match() {
    let coins = vec![
        Coin { denom: String::from("uusd"), amount: 40 },
        Coin { denom: String::from("uluna"), amount: 7 },
        Coin { denom: String::from("uusd"), amount: 99 },
    ];
    assert_eq!(get_denom_amount_from_coins(&coins, &String::from("uusd")), 40);
    assert_eq!(get_denom_amount_from_coins(&coins, &String::from("uluna")), 7);
    assert_eq!(get_denom_amount_from_coins(&coins, &String::from("ukrw")), 0);
    let empty: Vec<Coin> = Vec::new();
    assert_eq!(get_denom_amount_from_coins(&empty, &String::from("uusd")), 0);
}
