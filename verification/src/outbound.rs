//! What a call asks its caller to send once the call has committed.
//!
//! Nothing here is sent by the library, and no call waits for an answer.

use vstd::prelude::*;

verus! {

/// An instruction to an asset ledger to pay escrowed funds back.
#[derive(Debug, PartialEq, Eq)]
pub struct OutboundTransfer {
    /// Address of the asset ledger.
    pub contract_addr: String,
    /// Code hash of the asset ledger.
    pub callback_code_hash: String,
    /// Who is paid.
    pub recipient: String,
    pub amount: u128,
}

/// The mathematical content of an [`OutboundTransfer`].
pub struct TransferView {
    pub contract_addr: Seq<char>,
    pub callback_code_hash: Seq<char>,
    pub recipient: Seq<char>,
    pub amount: u128,
}

impl View for OutboundTransfer {
    type V = TransferView;

    open spec fn view(&self) -> TransferView {
        TransferView {
            contract_addr: self.contract_addr@,
            callback_code_hash: self.callback_code_hash@,
            recipient: self.recipient@,
            amount: self.amount,
        }
    }
}

/// The contents of a list of transfers.
pub open spec fn transfer_views(transfers: Seq<OutboundTransfer>) -> Seq<TransferView> {
    Seq::new(transfers.len(), |i: int| transfers[i]@)
}

/// A call of another contract in its wire form: whom to call, and the
/// message bytes.
#[derive(Debug, PartialEq, Eq)]
pub struct ExecuteCall {
    pub contract_addr: String,
    pub callback_code_hash: String,
    pub msg: Vec<u8>,
}

/// The mathematical content of an [`ExecuteCall`].
pub struct CallView {
    pub contract_addr: Seq<char>,
    pub callback_code_hash: Seq<char>,
    pub msg: Seq<u8>,
}

impl View for ExecuteCall {
    type V = CallView;

    open spec fn view(&self) -> CallView {
        CallView {
            contract_addr: self.contract_addr@,
            callback_code_hash: self.callback_code_hash@,
            msg: self.msg@,
        }
    }
}

/// The contents of a list of calls.
pub open spec fn call_views(calls: Seq<ExecuteCall>) -> Seq<CallView> {
    Seq::new(calls.len(), |i: int| calls[i]@)
}

/// The messages to send after a request that changed the book, in this
/// order.
#[derive(Debug, PartialEq, Eq)]
pub struct HandleResponse {
    pub messages: Vec<ExecuteCall>,
}

impl HandleResponse {
    /// The response that asks for nothing to be sent.
    pub fn empty() -> (response: Self)
        ensures
            response.messages@.len() == 0,
    {
        HandleResponse { messages: Vec::new() }
    }
}

} // verus!
