//! The order book as a mathematical value, and what each lifecycle
//! operation does to it.
//!
//! The executable book in [`crate::book`] is specified against this model:
//! every operation says which model function it computes.

use vstd::prelude::*;
use crate::error::ContractError;
use crate::order::OrderView;
use crate::order_queues::{
    holds, lemma_insert_holds, lemma_insert_keeps_owners, lemma_insert_keeps_ranked,
    lemma_position_of_finds, lemma_rank_of_splits, lemma_without, one_entry_per_owner,
    position_of, rank_of, ranked, without, EntryView,
};

verus! {

/// The orders on record and the queue of their entries.
pub struct BookModel {
    /// The order of each participant that has one, by canonical address.
    pub orders: Map<Seq<u8>, OrderView>,
    /// The queue entries, best first.
    pub queue: Seq<EntryView>,
}

/// The queue entry that stands for `order`, owned by `owner`.
pub open spec fn entry_for(owner: Seq<u8>, order: OrderView) -> EntryView {
    EntryView { owner, price: order.price, created_at: order.timestamp }
}

impl BookModel {
    /// The book with no orders.
    pub open spec fn empty() -> BookModel {
        BookModel { orders: Map::empty(), queue: Seq::empty() }
    }

    /// A participant has an order on record exactly when it has a queue
    /// entry.
    pub open spec fn orders_match_entries(self) -> bool {
        forall|owner: Seq<u8>|
            #![trigger self.orders.contains_key(owner)]
            #![trigger holds(self.queue, owner)]
            self.orders.contains_key(owner) <==> holds(self.queue, owner)
    }

    /// Every queue entry carries the price and arrival time of its owner's
    /// order.
    pub open spec fn entries_mirror_orders(self) -> bool {
        forall|i: int|
            0 <= i < self.queue.len() ==> #[trigger] self.queue[i] == entry_for(
                self.queue[i].owner,
                self.orders[self.queue[i].owner],
            )
    }

    /// Every order on record is an active single-asset escrow.
    pub open spec fn orders_rest(self) -> bool {
        forall|owner: Seq<u8>| #[trigger]
            self.orders.contains_key(owner) ==> self.orders[owner].resting()
    }

    /// What holds of the book between calls.
    pub open spec fn consistent(self) -> bool {
        &&& ranked(self.queue)
        &&& one_entry_per_owner(self.queue)
        &&& self.orders_match_entries()
        &&& self.entries_mirror_orders()
        &&& self.orders_rest()
    }

    /// The book after `order` was recorded for `owner` and entered in the
    /// queue at its rank.
    pub open spec fn create(self, owner: Seq<u8>, order: OrderView) -> BookModel {
        BookModel {
            orders: self.orders.insert(owner, order),
            queue: self.queue.insert(
                rank_of(self.queue, entry_for(owner, order)),
                entry_for(owner, order),
            ),
        }
    }

    /// The book after the order of `owner` and its queue entry were deleted.
    pub open spec fn withdraw(self, owner: Seq<u8>) -> BookModel {
        BookModel { orders: self.orders.remove(owner), queue: without(self.queue, owner) }
    }

    /// Outcome of a request to record `order` for `owner`: refused if the
    /// order is not a single-asset escrow, or if `owner` has an order
    /// already.
    pub open spec fn try_create(self, owner: Seq<u8>, order: OrderView) -> Result<
        BookModel,
        ContractError,
    > {
        if !order.resting() {
            Err(ContractError::InvariantViolation)
        } else if self.orders.contains_key(owner) {
            Err(ContractError::DuplicateOwner)
        } else {
            Ok(self.create(owner, order))
        }
    }

    /// Outcome of a request to withdraw the order of `owner`: refused if
    /// there is none.
    pub open spec fn try_withdraw(self, owner: Seq<u8>) -> Result<BookModel, ContractError> {
        if self.orders.contains_key(owner) {
            Ok(self.withdraw(owner))
        } else {
            Err(ContractError::NoActiveOrder)
        }
    }

    /// The best price on the queue, if it holds any entry.
    pub open spec fn best_price(self) -> Option<u128> {
        if self.queue.len() == 0 {
            None
        } else {
            Some(self.queue[0].price)
        }
    }
}

/// Recording a well-formed order for a participant that has none keeps the
/// book consistent.
pub proof fn lemma_create_consistent(book: BookModel, owner: Seq<u8>, order: OrderView)
    requires
        book.consistent(),
        order.resting(),
        !book.orders.contains_key(owner),
    ensures
        book.create(owner, order).consistent(),
{
    let e = entry_for(owner, order);
    let k = rank_of(book.queue, e);
    let after = book.create(owner, order);
    lemma_rank_of_splits(book.queue, e);
    lemma_insert_keeps_ranked(book.queue, e);
    assert(!holds(book.queue, owner));
    lemma_insert_keeps_owners(book.queue, k, e);
    assert forall|other: Seq<u8>|
        after.orders.contains_key(other) <==> holds(after.queue, other) by {
        lemma_insert_holds(book.queue, k, e, other);
        assert(book.orders.contains_key(other) <==> holds(book.queue, other));
    }
    assert forall|i: int| 0 <= i < after.queue.len() implies #[trigger] after.queue[i]
        == entry_for(after.queue[i].owner, after.orders[after.queue[i].owner]) by {
        if i != k {
            let j = if i < k { i } else { i - 1 };
            assert(after.queue[i] == book.queue[j]);
            assert(book.queue[j].owner != owner);
        }
    }
    assert forall|other: Seq<u8>| #[trigger] after.orders.contains_key(other) implies after.orders[other].resting() by {
        if other != owner {
            assert(book.orders.contains_key(other));
        }
    }
}

/// Withdrawing keeps the book consistent, whether or not the participant
/// has an order.
pub proof fn lemma_withdraw_consistent(book: BookModel, owner: Seq<u8>)
    requires
        book.consistent(),
    ensures
        book.withdraw(owner).consistent(),
        !book.withdraw(owner).orders.contains_key(owner),
        !holds(book.withdraw(owner).queue, owner),
{
    let after = book.withdraw(owner);
    lemma_without(book.queue, owner);
    lemma_position_of_finds(book.queue, owner);
    assert forall|other: Seq<u8>|
        after.orders.contains_key(other) <==> holds(after.queue, other) by {
        assert(book.orders.contains_key(other) <==> holds(book.queue, other));
    }
    assert forall|i: int| 0 <= i < after.queue.len() implies #[trigger] after.queue[i]
        == entry_for(after.queue[i].owner, after.orders[after.queue[i].owner]) by {
        if holds(book.queue, owner) {
            let k = position_of(book.queue, owner);
            let j = if i < k { i } else { i + 1 };
            assert(after.queue[i] == book.queue[j]);
            if j < k {
                assert(book.queue[j].owner != book.queue[k].owner);
            } else {
                assert(book.queue[k].owner != book.queue[j].owner);
            }
        } else {
            assert(after.queue[i] == book.queue[i]);
            assert(holds(book.queue, book.queue[i].owner));
        }
    }
    assert forall|other: Seq<u8>| #[trigger] after.orders.contains_key(other) implies after.orders[other].resting() by {
        assert(book.orders.contains_key(other));
    }
}

/// Withdrawing an order right after it was created gives back the book as
/// it was.
pub proof fn lemma_create_then_withdraw(book: BookModel, owner: Seq<u8>, order: OrderView)
    requires
        book.consistent(),
        !book.orders.contains_key(owner),
    ensures
        book.create(owner, order).withdraw(owner) == book,
{
    let e = entry_for(owner, order);
    let k = rank_of(book.queue, e);
    let mid = book.create(owner, order);
    lemma_rank_of_splits(book.queue, e);
    assert(!holds(book.queue, owner));
    assert(mid.queue[k] == e);
    assert(holds(mid.queue, owner));
    lemma_position_of_finds(mid.queue, owner);
    let p = position_of(mid.queue, owner);
    assert(p == k) by {
        if p < k {
            assert(mid.queue[p] == book.queue[p]);
            assert(book.queue[p].owner == owner);
        } else if p > k {
            assert(mid.queue[k].owner == owner);
        }
    }
    assert(mid.queue.remove(k) =~= book.queue);
    assert(mid.orders.remove(owner) =~= book.orders);
}

} // verus!
