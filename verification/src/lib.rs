//! Core of a two-asset limit order book: a price-time priority queue of
//! resting orders, the escrow-backed record of one order per participant,
//! and the authorization gate in front of every read of order data.
//!
//! The book is a plain value. Every operation takes the book, the caller's
//! inputs and whatever an outside service answered, and returns the outcome
//! together with the messages that the caller has to dispatch afterwards.

pub mod address;
pub mod book;
pub mod contract;
pub mod error;
pub mod model;
pub mod msg;
pub mod order;
pub mod order_queues;
pub mod outbound;
pub mod snip20;
pub mod state;
pub mod theorems;

pub use address::Address;
pub use book::{ContractInfo, OrderBook, RegistrationContext};
pub use contract::{
    create_limit_order, get_limit_order, get_order_book_peek, handle, init, query, try_receive,
    try_withdraw_limit_order, Env,
};
pub use error::ContractError;
pub use order::{LimitOrderState, LimitOrderStatus, OrderSide};
pub use order_queues::{OrderQueue, QueueEntry};
pub use outbound::{ExecuteCall, HandleResponse, OutboundTransfer};
pub use state::{OrderRecord, OrderStore};
