//! The messages that the contract takes and gives, as plain values. Their
//! wire form is the caller's business.

use vstd::prelude::*;
use crate::address::Address;
use crate::order::{LimitOrderState, OrderSide};

verus! {

/// What the contract is set up with: the registry and the two asset ledgers.
#[derive(Debug, PartialEq, Eq)]
pub struct InitMsg {
    pub factory_address: String,
    pub factory_hash: String,
    /// Secret shared with the registry, used for the setup callback and when
    /// asking the registry to check a view-key.
    pub factory_key: String,
    pub token1_code_address: String,
    pub token1_code_hash: String,
    pub token2_code_address: String,
    pub token2_code_hash: String,
}

/// A request that changes the book.
#[derive(Debug, PartialEq, Eq)]
pub enum HandleMsg {
    /// An asset ledger announces that `from` transferred `amount` to this
    /// contract. `msg` is the instruction that came with the transfer, still
    /// in its wire form.
    Receive { sender: String, from: Address, amount: u128, msg: Vec<u8> },
    /// The instruction that a deposit carries. It cannot be sent on its own.
    CreateLimitOrder { side: OrderSide, price: u128 },
    /// Withdraws the sender's own order.
    WithdrawLimitOrder {  },
}

/// A request that reads the book.
#[derive(Debug, PartialEq, Eq)]
pub enum QueryMsg {
    GetLimitOrder { user_address: Address, user_viewkey: String },
    GetOrderBookPeek { user_address: Address, user_viewkey: String },
}

/// The best price on each side of the book, where the side holds any order.
#[derive(Clone, Copy, Debug, PartialEq, Eq)]
pub struct GetOrderBookPeekResponse {
    pub bid_price: Option<u128>,
    pub ask_price: Option<u128>,
}

/// What a query returns.
#[derive(Debug, PartialEq, Eq)]
pub enum QueryAnswer {
    LimitOrder(LimitOrderState),
    OrderBookPeek(GetOrderBookPeekResponse),
}

#[derive(Clone, Copy, Debug, PartialEq, Eq)]
pub struct IsKeyValid {
    pub is_valid: bool,
}

/// The registry's answer to a view-key check.
#[derive(Clone, Copy, Debug, PartialEq, Eq)]
pub struct IsKeyValidResponse {
    pub is_key_valid: IsKeyValid,
}

/// The question put to the registry: is `viewing_key` the view-key of
/// `address`?
#[derive(Debug, PartialEq, Eq)]
pub enum FactoryQueryMsg {
    IsKeyValid { factory_key: String, viewing_key: String, address: String },
}

/// A question, and the contract that it goes to.
#[derive(Debug, PartialEq, Eq)]
pub struct FactoryQuery {
    pub contract_addr: String,
    pub callback_code_hash: String,
    pub msg: FactoryQueryMsg,
}

/// What the contract tells the registry once it is set up.
#[derive(Debug, PartialEq, Eq)]
pub enum FactoryHandleMsg {
    InitCallBackFromSecretOrderBookToFactory {
        auth_key: String,
        contract_address: String,
        token1_address: String,
        token2_address: String,
    },
}

/// What the contract tells an asset ledger.
#[derive(Debug, PartialEq, Eq)]
pub enum Snip20Msg {
    /// Registers the contract with code hash `code_hash` as a recipient of
    /// deposit notifications.
    RegisterReceive { code_hash: String, padding: Option<String> },
}

impl Snip20Msg {
    pub fn register_receive(code_hash: String) -> (msg: Self)
        ensures
            msg == (Snip20Msg::RegisterReceive { code_hash, padding: None }),
    {
        Snip20Msg::RegisterReceive { code_hash, padding: None }
    }
}

/// A message that setting up the contract asks the caller to send.
#[derive(Debug, PartialEq, Eq)]
#[allow(inconsistent_fields)]
pub enum InitCall {
    Snip20 { contract_addr: String, callback_code_hash: String, msg: Snip20Msg },
    Factory { contract_addr: String, callback_code_hash: String, msg: FactoryHandleMsg },
}

/// The messages to send after the contract was set up, in this order.
#[derive(Debug, PartialEq, Eq)]
pub struct InitResponse {
    pub messages: Vec<InitCall>,
}

} // verus!
