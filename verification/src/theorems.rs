//! What holds of the book whatever is asked of it.
//!
//! The theorems speak of the book as a mathematical value, through the same
//! functions that the contracts of the executable operations use.

use vstd::prelude::*;
use crate::book::{refund, refunds, ContractInfo, RegistrationContext};
use crate::contract::{deposit_order, deposit_outcome, key_confirmed};
use crate::error::ContractError;
use crate::msg::{HandleMsg, IsKeyValid, IsKeyValidResponse};
use crate::model::{
    lemma_create_consistent, lemma_create_then_withdraw, lemma_withdraw_consistent, BookModel,
};
use crate::order::{OrderSide, OrderView};
use crate::order_queues::{
    holds, lemma_head_is_best, lemma_insert_keeps_ranked, lemma_rank_of_splits, outranks, rank_of,
    ranked, EntryView,
};
use crate::outbound::TransferView;
use crate::state::{lemma_keyed_len, OrderStore};

verus! {

/// A request that changes the book.
pub enum Call {
    Create { owner: Seq<u8>, order: OrderView },
    Withdraw { owner: Seq<u8> },
}

/// The book after one request: changed as the request asks where it
/// succeeds, unchanged where it fails.
pub open spec fn step(book: BookModel, call: Call) -> BookModel {
    match call {
        Call::Create { owner, order } => match book.try_create(owner, order) {
            Ok(after) => after,
            Err(_) => book,
        },
        Call::Withdraw { owner } => match book.try_withdraw(owner) {
            Ok(after) => after,
            Err(_) => book,
        },
    }
}

/// The book after a sequence of requests.
pub open spec fn run(book: BookModel, calls: Seq<Call>) -> BookModel
    decreases calls.len(),
{
    if calls.len() == 0 {
        book
    } else {
        step(run(book, calls.drop_last()), calls.last())
    }
}

/// The empty book is consistent.
pub proof fn theorem_empty_is_consistent()
    ensures
        BookModel::empty().consistent(),
{
    let book = BookModel::empty();
    assert forall|owner: Seq<u8>| book.orders.contains_key(owner) <==> holds(
        book.queue,
        owner,
    ) by {}
}

/// One request, whether it succeeds or fails, keeps a consistent book
/// consistent.
pub proof fn theorem_step_keeps_consistent(book: BookModel, call: Call)
    requires
        book.consistent(),
    ensures
        step(book, call).consistent(),
{
    match call {
        Call::Create { owner, order } => {
            if book.try_create(owner, order) is Ok {
                lemma_create_consistent(book, owner, order);
            }
        },
        Call::Withdraw { owner } => {
            lemma_withdraw_consistent(book, owner);
        },
    }
}

/// After every request of any sequence of creations and withdrawals, a
/// participant has an order on record exactly when it has a queue entry,
/// and the book is consistent in every other respect too.
pub proof fn theorem_orders_match_entries_always(book: BookModel, calls: Seq<Call>, n: int)
    requires
        book.consistent(),
        0 <= n <= calls.len(),
    ensures
        run(book, calls.take(n)).consistent(),
        forall|owner: Seq<u8>|
            run(book, calls.take(n)).orders.contains_key(owner) <==> holds(
                run(book, calls.take(n)).queue,
                owner,
            ),
    decreases n,
{
    let prefix = calls.take(n);
    if n > 0 {
        assert(prefix.drop_last() =~= calls.take(n - 1));
        theorem_orders_match_entries_always(book, calls, n - 1);
        theorem_step_keeps_consistent(run(book, calls.take(n - 1)), prefix.last());
    }
    let after = run(book, prefix);
    assert forall|owner: Seq<u8>| after.orders.contains_key(owner) <==> holds(
        after.queue,
        owner,
    ) by {}
}

/// A participant that has an order cannot get a second one: the request is
/// refused and the book, with the first order, stays as it is.
pub proof fn theorem_second_order_refused(book: BookModel, owner: Seq<u8>, order: OrderView)
    requires
        book.orders.contains_key(owner),
    ensures
        book.try_create(owner, order) is Err,
        step(book, Call::Create { owner, order }) == book,
{
}

/// In a consistent book no participant has two queue entries.
pub proof fn theorem_one_entry_per_owner(book: BookModel, i: int, j: int)
    requires
        book.consistent(),
        0 <= i < book.queue.len(),
        0 <= j < book.queue.len(),
        i != j,
    ensures
        book.queue[i].owner != book.queue[j].owner,
{
    if i < j {
        assert(book.queue[i].owner != book.queue[j].owner);
    } else {
        assert(book.queue[j].owner != book.queue[i].owner);
    }
}

/// The store keeps one record for each participant that has an order: no
/// owner is listed twice, and there are as many records as owners.
pub proof fn theorem_one_record_per_owner(store: OrderStore, i: int, j: int)
    requires
        store.wf(),
        0 <= i < store.listing().len(),
        0 <= j < store.listing().len(),
        i != j,
    ensures
        store.listing()[i].owner != store.listing()[j].owner,
        store@.dom().finite(),
        store@.dom().len() == store.listing().len(),
{
    lemma_keyed_len(store.listing());
    if i < j {
        assert(store.listing()[i].owner != store.listing()[j].owner);
    } else {
        assert(store.listing()[j].owner != store.listing()[i].owner);
    }
}

/// The asset ledger at `index`: the first for 0, the second otherwise.
pub open spec fn asset_at(registration: RegistrationContext, index: i8) -> ContractInfo {
    if index == 0 {
        registration.token1
    } else {
        registration.token2
    }
}

/// A deposit that creates an order, withdrawn at once: the withdrawal
/// releases exactly one transfer, of the deposited amount, in the deposited
/// asset, back to the depositor, and the book is again as it was before the
/// deposit, with no order and no queue entry for the depositor.
pub proof fn theorem_round_trip(
    book: BookModel,
    registration: RegistrationContext,
    owner: Seq<u8>,
    recipient: Seq<char>,
    index: i8,
    amount: u128,
    side: OrderSide,
    price: u128,
    now: u64,
)
    requires
        book.consistent(),
        !book.orders.contains_key(owner),
        index == 0 || index == 1,
        amount > 0,
    ensures
        book.try_create(owner, deposit_order(index, amount, side, price, now)) == Ok::<
            BookModel,
            ContractError,
        >(book.create(owner, deposit_order(index, amount, side, price, now))),
        book.create(owner, deposit_order(index, amount, side, price, now)).try_withdraw(owner)
            == Ok::<BookModel, ContractError>(book),
        refunds(
            registration,
            recipient,
            book.create(owner, deposit_order(index, amount, side, price, now)).orders[owner].balances,
        ) == seq![
            TransferView {
                contract_addr: asset_at(registration, index).address@,
                callback_code_hash: asset_at(registration, index).code_hash@,
                recipient,
                amount,
            },
        ],
        !book.orders.contains_key(owner),
        !holds(book.queue, owner),
{
    let order = deposit_order(index, amount, side, price, now);
    lemma_create_then_withdraw(book, owner, order);
    let balances = book.create(owner, order).orders[owner].balances;
    assert(refunds(registration, recipient, balances) =~= seq![
        TransferView {
            contract_addr: asset_at(registration, index).address@,
            callback_code_hash: asset_at(registration, index).code_hash@,
            recipient,
            amount,
        },
    ]);
}

/// A withdrawal releases what was deposited, all of it and nothing else:
/// the escrow of an order on record is its one deposit.
pub proof fn theorem_refund_is_deposit(
    book: BookModel,
    registration: RegistrationContext,
    owner: Seq<u8>,
    recipient: Seq<char>,
)
    requires
        book.consistent(),
        book.orders.contains_key(owner),
    ensures
        refunds(registration, recipient, book.orders[owner].balances) == refund(
            asset_at(registration, book.orders[owner].order_token_index),
            recipient,
            book.orders[owner].order_token_init_quant,
        ),
{
    let order = book.orders[owner];
    assert(order.resting());
    assert(refunds(registration, recipient, order.balances) =~= refund(
        asset_at(registration, order.order_token_index),
        recipient,
        order.order_token_init_quant,
    ));
}

/// A deposit announced by an address that is neither registered asset is
/// refused as `UnknownAsset`, whatever it carries, and so creates no order.
pub proof fn theorem_unknown_asset_refused(
    book: BookModel,
    registration: RegistrationContext,
    sender: Seq<char>,
    from: Seq<u8>,
    amount: u128,
    instruction: Option<HandleMsg>,
    now: u64,
)
    requires
        sender != registration.token1.address@,
        sender != registration.token2.address@,
    ensures
        deposit_outcome(book, registration, sender, from, amount, instruction, now) == Err::<
            BookModel,
            ContractError,
        >(ContractError::UnknownAsset),
{
}

/// Only an answer of the registry that says valid confirms a view-key: no
/// answer does not, and an answer that says invalid does not.
pub proof fn theorem_only_valid_confirms(reply: Option<IsKeyValidResponse>)
    ensures
        key_confirmed(reply) <==> reply == Some(
            IsKeyValidResponse { is_key_valid: IsKeyValid { is_valid: true } },
        ),
{
}

/// In a ranked queue an entry at a better price stands in front.
pub proof fn theorem_better_price_first(s: Seq<EntryView>, i: int, j: int)
    requires
        ranked(s),
        0 <= i < s.len(),
        0 <= j < s.len(),
        s[i].price > s[j].price,
    ensures
        i < j,
{
    if j < i {
        assert(!outranks(s[i], s[j]));
    }
}

/// In a ranked queue, of two entries at the same price the one that
/// arrived earlier stands in front.
pub proof fn theorem_fifo_at_equal_price(s: Seq<EntryView>, i: int, j: int)
    requires
        ranked(s),
        0 <= i < s.len(),
        0 <= j < s.len(),
        s[i].price == s[j].price,
        s[i].created_at < s[j].created_at,
    ensures
        i < j,
{
    if j < i {
        assert(!outranks(s[i], s[j]));
    }
}

/// After an insertion the head of the queue is the new entry if it
/// outranks the old head or the queue was empty, and the old head
/// otherwise: a newcomer at the price and time of the head queues up behind
/// it. The queue stays ranked.
pub proof fn theorem_head_after_insert(s: Seq<EntryView>, e: EntryView)
    requires
        ranked(s),
    ensures
        ranked(s.insert(rank_of(s, e), e)),
        s.insert(rank_of(s, e), e)[0] == (if s.len() == 0 || outranks(e, s[0]) {
            e
        } else {
            s[0]
        }),
{
    lemma_insert_keeps_ranked(s, e);
    lemma_rank_of_splits(s, e);
}

/// The best price of a consistent book is the highest price of any order
/// on record, and there is none exactly when the book holds no order.
pub proof fn theorem_best_price_is_highest(book: BookModel, owner: Seq<u8>)
    requires
        book.consistent(),
    ensures
        book.orders.contains_key(owner) ==> (book.best_price() matches Some(best)
            && book.orders[owner].price <= best),
        book.best_price() is None <==> book.orders.dom() =~= Set::<Seq<u8>>::empty(),
{
    if book.orders.contains_key(owner) {
        assert(holds(book.queue, owner));
        let i = choose|i: int| 0 <= i < book.queue.len() && (#[trigger] book.queue[i]).owner
            == owner;
        lemma_head_is_best(book.queue, i);
    }
    if book.queue.len() > 0 {
        assert(holds(book.queue, book.queue[0].owner));
        assert(book.orders.dom().contains(book.queue[0].owner));
    } else {
        assert forall|other: Seq<u8>| !book.orders.dom().contains(other) by {
            assert(!holds(book.queue, other));
        }
    }
}

} // verus!
