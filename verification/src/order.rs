//! The terms and escrow of one resting order.

use vstd::prelude::*;

verus! {

/// Which side of the book an order rests on.
#[derive(Clone, Copy, Debug, PartialEq, Eq, Structural)]
pub enum OrderSide {
    Bid,
    Ask,
}

/// An order is `Active` while it is on record. `Withdrawn` is terminal: a
/// withdrawn order is deleted, never kept with this mark.
#[derive(Clone, Copy, Debug, PartialEq, Eq, Structural)]
pub enum LimitOrderStatus {
    Active,
    Withdrawn,
}

/// One participant's resting order: its terms, and what is held in escrow
/// for it in each of the two registered assets.
#[derive(Debug, PartialEq, Eq)]
pub struct LimitOrderState {
    pub side: OrderSide,
    pub status: LimitOrderStatus,
    /// The limit price.
    pub price: u128,
    /// Which of the two registered assets funded the order: 0 or 1.
    pub order_token_index: i8,
    /// The amount that was transferred in.
    pub order_token_init_quant: u128,
    /// Block time at creation; breaks ties between equal prices.
    pub timestamp: u64,
    /// Escrowed amount per asset, one slot for each.
    pub balances: Vec<u128>,
}

/// The mathematical content of a [`LimitOrderState`].
pub struct OrderView {
    pub side: OrderSide,
    pub status: LimitOrderStatus,
    pub price: u128,
    pub order_token_index: i8,
    pub order_token_init_quant: u128,
    pub timestamp: u64,
    pub balances: Seq<u128>,
}

impl View for LimitOrderState {
    type V = OrderView;

    open spec fn view(&self) -> OrderView {
        OrderView {
            side: self.side,
            status: self.status,
            price: self.price,
            order_token_index: self.order_token_index,
            order_token_init_quant: self.order_token_init_quant,
            timestamp: self.timestamp,
            balances: self.balances@,
        }
    }
}

/// The escrow of a deposit of `quantity` in the asset at `index`: the whole
/// quantity in that asset's slot, nothing in the other.
pub open spec fn single_deposit(index: i8, quantity: u128) -> Seq<u128> {
    if index == 0 {
        seq![quantity, 0u128]
    } else {
        seq![0u128, quantity]
    }
}

impl OrderView {
    /// What holds of every order on record: it is active, it was funded by
    /// one of the two assets, and its escrow is exactly that one deposit,
    /// since nothing is ever filled or withdrawn in part.
    pub open spec fn resting(self) -> bool {
        &&& self.status == LimitOrderStatus::Active
        &&& (self.order_token_index == 0 || self.order_token_index == 1)
        &&& self.balances == single_deposit(self.order_token_index, self.order_token_init_quant)
    }
}

impl Clone for LimitOrderState {
    fn clone(&self) -> (copy: Self)
        ensures
            copy@ == self@,
    {
        LimitOrderState {
            side: self.side,
            status: self.status,
            price: self.price,
            order_token_index: self.order_token_index,
            order_token_init_quant: self.order_token_init_quant,
            timestamp: self.timestamp,
            balances: self.balances.clone(),
        }
    }
}

impl LimitOrderState {
    /// Whether the order has the shape of an order on record.
    pub fn is_resting(&self) -> (yes: bool)
        ensures
            yes == self@.resting(),
    {
        if self.balances.len() != 2 {
            return false;
        }
        let funded_first = self.order_token_index == 0
            && self.balances[0] == self.order_token_init_quant && self.balances[1] == 0;
        let funded_second = self.order_token_index == 1
            && self.balances[0] == 0 && self.balances[1] == self.order_token_init_quant;
        let active = match self.status {
            LimitOrderStatus::Active => true,
            LimitOrderStatus::Withdrawn => false,
        };
        proof {
            assert(single_deposit(0, self.order_token_init_quant).len() == 2);
            assert(single_deposit(1, self.order_token_init_quant).len() == 2);
            if active && (funded_first || funded_second) {
                assert(self.balances@ =~= single_deposit(
                    self.order_token_index,
                    self.order_token_init_quant,
                ));
            }
        }
        active && (funded_first || funded_second)
    }
}

} // verus!
