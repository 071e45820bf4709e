//! Outbound transfer instructions, built through the chain SDK. The engine
//! decides amounts and recipients; these calls only wrap them in the wire
//! messages the chain executes.

use vstd::prelude::*;

verus! {

#[verifier::external_type_specification]
#[verifier::external_body]
pub struct ExAddr(cosmwasm_std::Addr);

#[verifier::external_type_specification]
#[verifier::external_body]
pub struct ExUint128(cosmwasm_std::Uint128);

#[verifier::external_type_specification]
#[verifier::external_body]
pub struct ExBinary(cosmwasm_std::Binary);

#[verifier::external_type_specification]
#[verifier::external_body]
pub struct ExStdError(cosmwasm_std::StdError);

#[verifier::external_type_specification]
#[verifier::external_body]
pub struct ExEmpty(cosmwasm_std::Empty);

#[verifier::external_type_specification]
#[verifier::external_body]
#[verifier::reject_recursive_types(T)]
pub struct ExCosmosMsg<T>(cosmwasm_std::CosmosMsg<T>);

/// Helper function which returns a cosmos wasm msg to transfer cw20 tokens
/// to a recipient address.
///
/// Relies on cosmwasm_std::to_json_binary over cw20_base's transfer
/// message, whose fields (an address string and a string-encoded amount)
/// always serialize, so the call always succeeds.
#[verifier::external_body]
pub fn build_transfer_cw20_token_msg(
    recipient: cosmwasm_std::Addr,
    token_contract_address: String,
    amount: cosmwasm_std::Uint128,
) -> (r: Result<cosmwasm_std::CosmosMsg, cosmwasm_std::StdError>)
    ensures
        r is Ok,
{
    Ok(cosmwasm_std::CosmosMsg::Wasm(cosmwasm_std::WasmMsg::Execute {
        contract_addr: token_contract_address,
        msg: cosmwasm_std::to_json_binary(
            &cw20_base::msg::ExecuteMsg::Transfer { recipient: recipient.into(), amount },
        )?,
        funds: vec![],
    }))
}

/// Helper function which returns a cosmos wasm msg to send cw20 tokens to
/// another contract which implements the receive hook.
///
/// Relies on cosmwasm_std::to_json_binary over cw20_base's send message,
/// whose fields (an address string, a string-encoded amount and an already
/// base64-encoded payload) always serialize, so the call always succeeds.
#[verifier::external_body]
pub fn build_send_cw20_token_msg(
    recipient_contract_addr: String,
    token_contract_address: String,
    amount: cosmwasm_std::Uint128,
    msg_: cosmwasm_std::Binary,
) -> (r: Result<cosmwasm_std::CosmosMsg, cosmwasm_std::StdError>)
    ensures
        r is Ok,
{
    Ok(cosmwasm_std::CosmosMsg::Wasm(cosmwasm_std::WasmMsg::Execute {
        contract_addr: token_contract_address,
        msg: cosmwasm_std::to_json_binary(
            &cw20_base::msg::ExecuteMsg::Send {
                contract: recipient_contract_addr,
                amount,
                msg: msg_,
            },
        )?,
        funds: vec![],
    }))
}

/// The placeholder address used before a collaborator address is set.
///
/// Relies on cosmwasm_std::Addr::unchecked, which wraps the given string
/// without validating it.
#[verifier::external_body]
pub fn zero_address() -> cosmwasm_std::Addr {
    cosmwasm_std::Addr::unchecked("")
}

} // verus!
