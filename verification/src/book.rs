//! The order book: the registration it was set up with, the orders on
//! record and the queue of their entries, kept consistent with each other.

use vstd::prelude::*;
use crate::address::Address;
use crate::error::ContractError;
use crate::model::{entry_for, lemma_create_consistent, lemma_withdraw_consistent, BookModel};
use crate::order::{LimitOrderState, OrderView};
use crate::order_queues::{
    entry_views, holds, lemma_head_is_best, EntryView, OrderQueue, QueueEntry,
};
use crate::outbound::{transfer_views, OutboundTransfer, TransferView};
use crate::state::{
    keyed, lemma_keyed_dom, lemma_keyed_value, listed, one_record_per_owner, record_views,
    OrderRecord, OrderStore,
};

verus! {

/// Address and code hash of a contract that the book talks to.
#[derive(Debug, PartialEq, Eq)]
pub struct ContractInfo {
    pub address: String,
    pub code_hash: String,
}

impl Clone for ContractInfo {
    fn clone(&self) -> (copy: Self)
        ensures
            copy == *self,
    {
        ContractInfo { address: self.address.clone(), code_hash: self.code_hash.clone() }
    }
}

/// What the book is set up with, once and for all: the registry, the secret
/// shared with it, and the two asset ledgers.
#[derive(Debug, PartialEq, Eq)]
pub struct RegistrationContext {
    pub factory: ContractInfo,
    pub factory_key: String,
    pub token1: ContractInfo,
    pub token2: ContractInfo,
}

impl Clone for RegistrationContext {
    fn clone(&self) -> (copy: Self)
        ensures
            copy == *self,
    {
        RegistrationContext {
            factory: self.factory.clone(),
            factory_key: self.factory_key.clone(),
            token1: self.token1.clone(),
            token2: self.token2.clone(),
        }
    }
}

impl RegistrationContext {
    /// Which registered asset `sender` is: 0 for the first, 1 for the
    /// second, `None` for any other address.
    pub open spec fn asset_index(self, sender: Seq<char>) -> Option<i8> {
        if sender == self.token1.address@ {
            Some(0i8)
        } else if sender == self.token2.address@ {
            Some(1i8)
        } else {
            None
        }
    }

    /// Which registered asset `sender` is.
    pub fn index_of_asset(&self, sender: &String) -> (index: Option<i8>)
        ensures
            index == self.asset_index(sender@),
    {
        if *sender == self.token1.address {
            Some(0)
        } else if *sender == self.token2.address {
            Some(1)
        } else {
            None
        }
    }
}

/// The transfer that pays `amount` of `asset` to `recipient`, if there is
/// anything to pay.
pub open spec fn refund(asset: ContractInfo, recipient: Seq<char>, amount: u128) -> Seq<
    TransferView,
> {
    if amount > 0 {
        seq![
            TransferView {
                contract_addr: asset.address@,
                callback_code_hash: asset.code_hash@,
                recipient,
                amount,
            },
        ]
    } else {
        Seq::empty()
    }
}

/// The transfers that release an escrow to `recipient`: one for each asset
/// of which anything is held, the first asset first.
pub open spec fn refunds(
    registration: RegistrationContext,
    recipient: Seq<char>,
    balances: Seq<u128>,
) -> Seq<TransferView> {
    refund(registration.token1, recipient, balances[0]) + refund(
        registration.token2,
        recipient,
        balances[1],
    )
}

/// The order book.
#[derive(Debug, PartialEq, Eq)]
pub struct OrderBook {
    registration: RegistrationContext,
    orders: OrderStore,
    bids: OrderQueue,
}

impl View for OrderBook {
    type V = BookModel;

    closed spec fn view(&self) -> BookModel {
        BookModel { orders: self.orders@, queue: self.bids@ }
    }
}

impl OrderBook {
    /// What the book was set up with.
    pub closed spec fn registration(&self) -> RegistrationContext {
        self.registration
    }

    /// The parts of the book are each in order.
    pub closed spec fn sound(&self) -> bool {
        self.orders.wf() && self.bids.wf()
    }

    /// The book is in order: a participant has an order exactly when it has
    /// a queue entry, the entry mirrors the order, and the queue is ranked.
    pub open spec fn wf(&self) -> bool {
        self.sound() && self@.consistent()
    }

    /// A book without orders.
    pub fn new(registration: RegistrationContext) -> (book: Self)
        ensures
            book.wf(),
            book@ == BookModel::empty(),
            book.registration() == registration,
    {
        let book = OrderBook { registration, orders: OrderStore::new(), bids: OrderQueue::new() };
        assert(book@.orders =~= Map::<Seq<u8>, OrderView>::empty());
        book
    }

    /// The book that was set up with `registration` and holds `records` and
    /// `entries`, if they make up a consistent book: no participant occurs
    /// twice in either list, the entries are in rank order, every record has
    /// its entry and every entry its record, the entry carries the order's
    /// price and time, and every order is an active single-asset escrow.
    /// `None` otherwise.
    pub fn restore(
        registration: RegistrationContext,
        records: Vec<OrderRecord>,
        entries: Vec<QueueEntry>,
    ) -> (book: Option<Self>)
        ensures
            match book {
                Some(b) => b.wf() && b.registration() == registration && b@ == (BookModel {
                    orders: keyed(record_views(records@)),
                    queue: entry_views(entries@),
                }),
                None => !(one_record_per_owner(record_views(records@)) && (BookModel {
                    orders: keyed(record_views(records@)),
                    queue: entry_views(entries@),
                }).consistent()),
            },
    {
        let ghost model = BookModel {
            orders: keyed(record_views(records@)),
            queue: entry_views(entries@),
        };
        let orders = match OrderStore::from_records(records) {
            Some(orders) => orders,
            None => { return None; },
        };
        let bids = match OrderQueue::from_entries(entries) {
            Some(bids) => bids,
            None => { return None; },
        };
        let kept = orders.records();
        let mut k: usize = 0;
        while k < kept.len()
            invariant
                k <= kept.len(),
                orders.wf(),
                bids.wf(),
                model == (BookModel {
                    orders: keyed(record_views(records@)),
                    queue: entry_views(entries@),
                }),
                record_views(kept@) == orders.listing(),
                orders@ == model.orders,
                bids@ == model.queue,
                forall|i: int|
                    0 <= i < k ==> holds(model.queue, (#[trigger] orders.listing()[i]).owner)
                        && orders.listing()[i].order.resting(),
            decreases kept.len() - k,
        {
            proof {
                lemma_keyed_value(orders.listing(), k as int);
                assert(kept@[k as int]@ == orders.listing()[k as int]);
            }
            if !kept[k].order.is_resting() || !bids.contains(&kept[k].owner) {
                assert(model.orders.contains_key(kept@[k as int].owner@));
                return None;
            }
            k += 1;
        }
        let queued = bids.entries();
        let mut n: usize = 0;
        while n < queued.len()
            invariant
                n <= queued.len(),
                orders.wf(),
                model == (BookModel {
                    orders: keyed(record_views(records@)),
                    queue: entry_views(entries@),
                }),
                entry_views(queued@) == bids@,
                orders@ == model.orders,
                bids@ == model.queue,
                forall|i: int|
                    0 <= i < n ==> model.orders.contains_key((#[trigger] model.queue[i]).owner)
                        && model.queue[i] == entry_for(
                        model.queue[i].owner,
                        model.orders[model.queue[i].owner],
                    ),
            decreases queued.len() - n,
        {
            assert(queued@[n as int]@ == model.queue[n as int]);
            match orders.get(&queued[n].owner) {
                Some(order) => {
                    if order.price != queued[n].price || order.timestamp != queued[n].created_at {
                        return None;
                    }
                },
                None => {
                    assert(holds(model.queue, model.queue[n as int].owner));
                    return None;
                },
            }
            n += 1;
        }
        let book = OrderBook { registration, orders, bids };
        proof {
            assert forall|owner: Seq<u8>|
                book@.orders.contains_key(owner) <==> holds(book@.queue, owner) by {
                lemma_keyed_dom(book.orders.listing(), owner);
                if listed(book.orders.listing(), owner) {
                    let i = choose|i: int|
                        0 <= i < book.orders.listing().len() && (
                        #[trigger] book.orders.listing()[i]).owner == owner;
                    assert(holds(model.queue, book.orders.listing()[i].owner));
                }
                if holds(book@.queue, owner) {
                    let i = choose|i: int|
                        0 <= i < model.queue.len() && (#[trigger] model.queue[i]).owner == owner;
                    assert(model.orders.contains_key(model.queue[i].owner));
                }
            }
            assert forall|owner: Seq<u8>| #[trigger]
                book@.orders.contains_key(owner) implies book@.orders[owner].resting() by {
                lemma_keyed_dom(book.orders.listing(), owner);
                let i = choose|i: int|
                    0 <= i < book.orders.listing().len() && (
                    #[trigger] book.orders.listing()[i]).owner == owner;
                lemma_keyed_value(book.orders.listing(), i);
            }
        }
        Some(book)
    }

    /// The orders on record, one record for each participant that has one.
    pub fn records(&self) -> (records: Vec<OrderRecord>)
        requires
            self.wf(),
        ensures
            one_record_per_owner(record_views(records@)),
            keyed(record_views(records@)) == self@.orders,
    {
        self.orders.records()
    }

    /// The queue entries in rank order, best first.
    pub fn entries(&self) -> (entries: Vec<QueueEntry>)
        ensures
            entry_views(entries@) == self@.queue,
    {
        self.bids.entries()
    }

    /// What the book was set up with.
    pub fn registration_ref(&self) -> (registration: &RegistrationContext)
        ensures
            *registration == self.registration(),
    {
        &self.registration
    }

    /// The order of `owner`, if it has one.
    pub fn order_of(&self, owner: &Vec<u8>) -> (found: Option<LimitOrderState>)
        requires
            self.wf(),
        ensures
            match found {
                Some(order) => self@.orders.contains_key(owner@) && order@ == self@.orders[owner@],
                None => !self@.orders.contains_key(owner@),
            },
    {
        self.orders.get(owner)
    }

    /// The best-ranked queue entry, if the book holds any order. No resting
    /// order has a higher price.
    pub fn best_entry(&self) -> (head: Option<QueueEntry>)
        requires
            self.wf(),
        ensures
            match head {
                Some(e) => self@.queue.len() > 0 && e@ == self@.queue[0],
                None => self@.queue.len() == 0,
            },
            forall|i: int| 0 <= i < self@.queue.len() ==> (#[trigger] self@.queue[i]).price
                <= self@.queue[0].price,
    {
        proof {
            assert forall|i: int| 0 <= i < self@.queue.len() implies (
            #[trigger] self@.queue[i]).price <= self@.queue[0].price by {
                lemma_head_is_best(self@.queue, i);
            }
        }
        self.bids.peek()
    }

    /// Records `order` as the resting order of `owner` and enters it in the
    /// queue at its rank. Refuses, changing nothing, an order that is not an
    /// active single-asset escrow (`InvariantViolation`) and a participant
    /// that has an order already (`DuplicateOwner`).
    pub fn create_order(&mut self, owner: Vec<u8>, order: LimitOrderState) -> (done: Result<
        (),
        ContractError,
    >)
        requires
            old(self).wf(),
        ensures
            final(self).wf(),
            final(self).registration() == old(self).registration(),
            match done {
                Ok(()) => old(self)@.try_create(owner@, order@) == Ok::<BookModel, ContractError>(
                    final(self)@,
                ),
                Err(e) => old(self)@.try_create(owner@, order@) == Err::<BookModel, ContractError>(e)
                    && final(self)@ == old(self)@,
            },
    {
        if !order.is_resting() {
            return Err(ContractError::InvariantViolation);
        }
        if self.orders.contains(&owner) {
            return Err(ContractError::DuplicateOwner);
        }
        let ghost before = self@;
        proof {
            lemma_create_consistent(before, owner@, order@);
            assert(entry_for(owner@, order@) == (EntryView {
                owner: owner@,
                price: order.price,
                created_at: order.timestamp,
            }));
        }
        let entered = self.bids.insert(owner.clone(), order.price, order.timestamp);
        assert(entered is Ok);
        self.orders.put(owner, order);
        Ok(())
    }

    /// The transfers that a withdrawal by `owner` would release, or `None`
    /// if `owner` has no order. The book is left as it is.
    pub fn refunds_due(&self, owner: &Address) -> (due: Option<Vec<OutboundTransfer>>)
        requires
            self.wf(),
        ensures
            match due {
                Some(transfers) => self@.orders.contains_key(owner.canonical@) && transfer_views(
                    transfers@,
                ) == refunds(
                    self.registration(),
                    owner.human@,
                    self@.orders[owner.canonical@].balances,
                ),
                None => !self@.orders.contains_key(owner.canonical@),
            },
    {
        let order = match self.orders.get(&owner.canonical) {
            Some(order) => order,
            None => { return None; },
        };
        assert(order@.resting());
        let mut transfers: Vec<OutboundTransfer> = Vec::new();
        if order.balances[0] > 0 {
            transfers.push(
                OutboundTransfer {
                    contract_addr: self.registration.token1.address.clone(),
                    callback_code_hash: self.registration.token1.code_hash.clone(),
                    recipient: owner.human.clone(),
                    amount: order.balances[0],
                },
            );
        }
        if order.balances[1] > 0 {
            transfers.push(
                OutboundTransfer {
                    contract_addr: self.registration.token2.address.clone(),
                    callback_code_hash: self.registration.token2.code_hash.clone(),
                    recipient: owner.human.clone(),
                    amount: order.balances[1],
                },
            );
        }
        assert(transfer_views(transfers@) =~= refunds(
            self.registration(),
            owner.human@,
            order@.balances,
        ));
        Some(transfers)
    }

    /// Withdraws the order of `owner` as a whole: deletes the order and its
    /// queue entry, and returns one transfer back to `owner` for each asset
    /// of which anything was held in escrow. Fails with `NoActiveOrder`,
    /// changing nothing, if `owner` has no order.
    pub fn withdraw_order(&mut self, owner: &Address) -> (done: Result<
        Vec<OutboundTransfer>,
        ContractError,
    >)
        requires
            old(self).wf(),
        ensures
            final(self).wf(),
            final(self).registration() == old(self).registration(),
            match done {
                Ok(transfers) => old(self)@.try_withdraw(owner.canonical@) == Ok::<
                    BookModel,
                    ContractError,
                >(final(self)@) && transfer_views(transfers@) == refunds(
                    old(self).registration(),
                    owner.human@,
                    old(self)@.orders[owner.canonical@].balances,
                ),
                Err(e) => old(self)@.try_withdraw(owner.canonical@) == Err::<
                    BookModel,
                    ContractError,
                >(e) && final(self)@ == old(self)@,
            },
    {
        let transfers = match self.refunds_due(owner) {
            Some(transfers) => transfers,
            None => { return Err(ContractError::NoActiveOrder); },
        };
        proof {
            lemma_withdraw_consistent(self@, owner.canonical@);
        }
        self.orders.delete(&owner.canonical);
        self.bids.remove(&owner.canonical);
        Ok(transfers)
    }
}

} // verus!
