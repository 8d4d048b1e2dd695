//! Wire form of the messages sent to an asset ledger.

use vstd::prelude::*;
use secret_cosmwasm_std::{CosmosMsg, HumanAddr, Uint128, WasmMsg};
use secret_toolkit::snip20::transfer_msg;
use crate::outbound::{CallView, ExecuteCall, OutboundTransfer, TransferView};

verus! {

/// Transfer messages are padded to a multiple of this many bytes.
pub const BLOCK_SIZE: usize = 256;

/// The bytes of the ledger's transfer message that pays `amount` to
/// `recipient`, padded to blocks of `block_size`; `None` where the message
/// cannot be serialised.
pub uninterp spec fn snip20_transfer_payload(
    recipient: Seq<char>,
    amount: u128,
    block_size: usize,
) -> Option<Seq<u8>>;

/// The call that carries out `transfer`, where its message can be built.
pub open spec fn transfer_call(transfer: TransferView, block_size: usize) -> Option<CallView> {
    match snip20_transfer_payload(transfer.recipient, transfer.amount, block_size) {
        Some(msg) => Some(
            CallView {
                contract_addr: transfer.contract_addr,
                callback_code_hash: transfer.callback_code_hash,
                msg,
            },
        ),
        None => None,
    }
}

/// Calls `secret_toolkit::snip20::transfer_msg` with no memo and no padding
/// text, and takes the resulting contract call apart.
///
/// Believed of it: the outcome is a function of the arguments. The call is
/// addressed to `contract` with `code_hash`, both as given. Its message
/// bytes, and whether the message can be built at all, depend on
/// `recipient`, `amount` and `block_size` only. No coins are attached.
#[verifier::external_body]
fn snip20_transfer(
    recipient: &String,
    amount: u128,
    block_size: usize,
    code_hash: &String,
    contract: &String,
) -> (call: Option<ExecuteCall>)
    ensures
        match call {
            Some(c) => snip20_transfer_payload(recipient@, amount, block_size) == Some(c.msg@)
                && c.contract_addr@ == contract@ && c.callback_code_hash@ == code_hash@,
            None => snip20_transfer_payload(recipient@, amount, block_size) is None,
        },
{
    let to = HumanAddr(recipient.clone());
    let ledger = HumanAddr(contract.clone());
    match transfer_msg(to, Uint128(amount), None, None, block_size, code_hash.clone(), ledger) {
        Ok(CosmosMsg::Wasm(WasmMsg::Execute { contract_addr, callback_code_hash, msg, .. })) => {
            Some(ExecuteCall { contract_addr: contract_addr.0, callback_code_hash, msg: msg.0 })
        },
        _ => None,
    }
}

/// Puts a transfer into its wire form, padded to [`BLOCK_SIZE`].
pub fn encode_transfer(transfer: &OutboundTransfer) -> (call: Option<ExecuteCall>)
    ensures
        match call {
            Some(c) => transfer_call(transfer@, BLOCK_SIZE) == Some(c@),
            None => transfer_call(transfer@, BLOCK_SIZE) is None,
        },
{
    snip20_transfer(
        &transfer.recipient,
        transfer.amount,
        BLOCK_SIZE,
        &transfer.callback_code_hash,
        &transfer.contract_addr,
    )
}

} // verus!
