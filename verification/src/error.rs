//! The ways in which a call can fail. A failed call changes nothing and
//! asks for no outbound message.

use vstd::prelude::*;

verus! {

#[derive(Clone, Copy, Debug, PartialEq, Eq, Structural)]
pub enum ContractError {
    /// A deposit was announced by an address that is neither registered asset.
    UnknownAsset,
    /// A deposit notification carried another deposit notification.
    RecursiveNotification,
    /// A deposit notification carried an instruction that no deposit can trigger.
    UnsupportedInnerMessage,
    /// The participant has no resting order.
    NoActiveOrder,
    /// The registry did not confirm the presented view-key.
    Unauthorized,
    /// The participant already has a resting order or queue entry.
    DuplicateOwner,
    /// The terms handed in do not describe a single-asset escrow.
    InvariantViolation,
    /// The message is not one that can be sent to the contract directly.
    HandlerNotFound,
    /// A transfer instruction could not be put into its wire form.
    MessageEncoding,
}

} // verus!
