//! The contract's entry points: setting the book up, deposits that create
//! orders, withdrawals, and the two queries behind the view-key gate.
//!
//! Whatever only an outside service can do is done by the caller. The caller
//! decodes messages, asks the registry whether a view-key is valid and
//! hands the answer in, and sends the messages that a response lists.

use vstd::prelude::*;
use crate::address::Address;
use crate::book::{refunds, OrderBook, RegistrationContext, ContractInfo};
use crate::error::ContractError;
use crate::model::BookModel;
use crate::msg::{
    FactoryHandleMsg, FactoryQuery, FactoryQueryMsg, GetOrderBookPeekResponse, HandleMsg,
    InitCall, InitMsg, InitResponse, IsKeyValidResponse, QueryAnswer, QueryMsg, Snip20Msg,
};
use crate::order::{single_deposit, LimitOrderState, LimitOrderStatus, OrderSide, OrderView};
use crate::outbound::{
    call_views, transfer_views, CallView, ExecuteCall, HandleResponse, OutboundTransfer,
    TransferView,
};
use crate::snip20::{encode_transfer, transfer_call, BLOCK_SIZE};

verus! {

/// What the chain tells the contract about the call at hand.
#[derive(Debug, PartialEq, Eq)]
pub struct Env {
    /// Block time, the logical clock of the book.
    pub block_time: u64,
    /// Who sent the message.
    pub sender: Address,
    /// The contract's own address.
    pub contract_address: String,
    /// The contract's own code hash.
    pub contract_code_hash: String,
}

/// The registration that `msg` asks for.
pub open spec fn registration_of(msg: InitMsg) -> RegistrationContext {
    RegistrationContext {
        factory: ContractInfo { address: msg.factory_address, code_hash: msg.factory_hash },
        factory_key: msg.factory_key,
        token1: ContractInfo { address: msg.token1_code_address, code_hash: msg.token1_code_hash },
        token2: ContractInfo { address: msg.token2_code_address, code_hash: msg.token2_code_hash },
    }
}

/// The messages that setting up asks for: a registration as deposit
/// recipient with each asset ledger, then the callback that tells the
/// registry where the book lives.
pub open spec fn setup_calls(env: Env, msg: InitMsg) -> Seq<InitCall> {
    seq![
        InitCall::Snip20 {
            contract_addr: msg.token1_code_address,
            callback_code_hash: msg.token1_code_hash,
            msg: Snip20Msg::RegisterReceive { code_hash: env.contract_code_hash, padding: None },
        },
        InitCall::Snip20 {
            contract_addr: msg.token2_code_address,
            callback_code_hash: msg.token2_code_hash,
            msg: Snip20Msg::RegisterReceive { code_hash: env.contract_code_hash, padding: None },
        },
        InitCall::Factory {
            contract_addr: msg.factory_address,
            callback_code_hash: msg.factory_hash,
            msg: FactoryHandleMsg::InitCallBackFromSecretOrderBookToFactory {
                auth_key: msg.factory_key,
                contract_address: env.contract_address,
                token1_address: msg.token1_code_address,
                token2_address: msg.token2_code_address,
            },
        },
    ]
}

/// Sets the book up: an empty book registered with the registry and the two
/// asset ledgers of `msg`, and the three messages that announce it.
pub fn init(env: Env, msg: InitMsg) -> (out: (OrderBook, InitResponse))
    ensures
        out.0.wf(),
        out.0@ == BookModel::empty(),
        out.0.registration() == registration_of(msg),
        out.1.messages@ == setup_calls(env, msg),
{
    let register = Snip20Msg::register_receive(env.contract_code_hash.clone());
    let token1_msg = InitCall::Snip20 {
        contract_addr: msg.token1_code_address.clone(),
        callback_code_hash: msg.token1_code_hash.clone(),
        msg: register,
    };
    let token2_msg = InitCall::Snip20 {
        contract_addr: msg.token2_code_address.clone(),
        callback_code_hash: msg.token2_code_hash.clone(),
        msg: Snip20Msg::register_receive(env.contract_code_hash.clone()),
    };
    let callback_msg = InitCall::Factory {
        contract_addr: msg.factory_address.clone(),
        callback_code_hash: msg.factory_hash.clone(),
        msg: FactoryHandleMsg::InitCallBackFromSecretOrderBookToFactory {
            auth_key: msg.factory_key.clone(),
            contract_address: env.contract_address,
            token1_address: msg.token1_code_address.clone(),
            token2_address: msg.token2_code_address.clone(),
        },
    };
    let book = OrderBook::new(
        RegistrationContext {
            factory: ContractInfo { address: msg.factory_address, code_hash: msg.factory_hash },
            factory_key: msg.factory_key,
            token1: ContractInfo {
                address: msg.token1_code_address,
                code_hash: msg.token1_code_hash,
            },
            token2: ContractInfo {
                address: msg.token2_code_address,
                code_hash: msg.token2_code_hash,
            },
        },
    );
    let mut messages: Vec<InitCall> = Vec::new();
    messages.push(token1_msg);
    messages.push(token2_msg);
    messages.push(callback_msg);
    assert(messages@ =~= setup_calls(env, msg));
    (book, InitResponse { messages })
}

/// The order that a deposit of `amount` in the asset at `index` creates.
pub open spec fn deposit_order(
    index: i8,
    amount: u128,
    side: OrderSide,
    price: u128,
    now: u64,
) -> OrderView {
    OrderView {
        side,
        status: LimitOrderStatus::Active,
        price,
        order_token_index: index,
        order_token_init_quant: amount,
        timestamp: now,
        balances: single_deposit(index, amount),
    }
}

/// What a deposit notification does to the book. The sender must be one of
/// the two registered assets. Then the instruction that came with the
/// deposit must not be a notification itself, and must ask for a limit
/// order. Then the order must be the depositor's only one.
pub open spec fn deposit_outcome(
    book: BookModel,
    registration: RegistrationContext,
    sender: Seq<char>,
    from: Seq<u8>,
    amount: u128,
    instruction: Option<HandleMsg>,
    now: u64,
) -> Result<BookModel, ContractError> {
    match registration.asset_index(sender) {
        None => Err(ContractError::UnknownAsset),
        Some(index) => match instruction {
            Some(HandleMsg::Receive { .. }) => Err(ContractError::RecursiveNotification),
            Some(HandleMsg::CreateLimitOrder { side, price }) => book.try_create(
                from,
                deposit_order(index, amount, side, price, now),
            ),
            _ => Err(ContractError::UnsupportedInnerMessage),
        },
    }
}

/// Handles a deposit notification: `env.sender` is the asset ledger that
/// announces it, `from` the depositor, `amount` what was transferred, and
/// `msg` the instruction that came with it, decoded by the caller (`None` if
/// it does not decode). On success the depositor has a new resting order
/// and nothing is to be sent. On failure nothing has changed.
pub fn try_receive(
    book: &mut OrderBook,
    env: Env,
    _sender: String,
    from: Address,
    amount: u128,
    msg: Option<HandleMsg>,
) -> (done: Result<HandleResponse, ContractError>)
    requires
        old(book).wf(),
    ensures
        final(book).wf(),
        final(book).registration() == old(book).registration(),
        match done {
            Ok(response) => deposit_outcome(
                old(book)@,
                old(book).registration(),
                env.sender.human@,
                from.canonical@,
                amount,
                msg,
                env.block_time,
            ) == Ok::<BookModel, ContractError>(final(book)@) && response.messages@.len() == 0,
            Err(e) => deposit_outcome(
                old(book)@,
                old(book).registration(),
                env.sender.human@,
                from.canonical@,
                amount,
                msg,
                env.block_time,
            ) == Err::<BookModel, ContractError>(e) && final(book)@ == old(book)@,
        },
{
    let order_token_index = match book.registration_ref().index_of_asset(&env.sender.human) {
        Some(index) => index,
        None => { return Err(ContractError::UnknownAsset); },
    };
    let (side, price) = match msg {
        Some(HandleMsg::Receive { .. }) => { return Err(ContractError::RecursiveNotification); },
        Some(HandleMsg::CreateLimitOrder { side, price }) => (side, price),
        _ => { return Err(ContractError::UnsupportedInnerMessage); },
    };
    let balances: Vec<u128> = if order_token_index == 0 {
        vec![amount, 0u128]
    } else {
        vec![0u128, amount]
    };
    assert(balances@ =~= single_deposit(order_token_index, amount));
    create_limit_order(book, env, balances, order_token_index, amount, from, side, price)
}

/// The order that `create_limit_order` is asked to record.
pub open spec fn requested_order(
    balances: Seq<u128>,
    order_token_index: i8,
    order_token_init_quant: u128,
    side: OrderSide,
    price: u128,
    now: u64,
) -> OrderView {
    OrderView {
        side,
        status: LimitOrderStatus::Active,
        price,
        order_token_index,
        order_token_init_quant,
        timestamp: now,
        balances,
    }
}

/// Records an active order for `from` with the terms given, created at
/// `env.block_time`, and enters it in the queue. Nothing is crossed against
/// other orders. Refuses, changing nothing, terms that are not the escrow
/// of one deposit in one of the two assets (`InvariantViolation`), and a
/// depositor that has an order already (`DuplicateOwner`).
pub fn create_limit_order(
    book: &mut OrderBook,
    env: Env,
    balances: Vec<u128>,
    order_token_index: i8,
    order_token_init_quant: u128,
    from: Address,
    side: OrderSide,
    price: u128,
) -> (done: Result<HandleResponse, ContractError>)
    requires
        old(book).wf(),
    ensures
        final(book).wf(),
        final(book).registration() == old(book).registration(),
        match done {
            Ok(response) => old(book)@.try_create(
                from.canonical@,
                requested_order(
                    balances@,
                    order_token_index,
                    order_token_init_quant,
                    side,
                    price,
                    env.block_time,
                ),
            ) == Ok::<BookModel, ContractError>(final(book)@) && response.messages@.len() == 0,
            Err(e) => old(book)@.try_create(
                from.canonical@,
                requested_order(
                    balances@,
                    order_token_index,
                    order_token_init_quant,
                    side,
                    price,
                    env.block_time,
                ),
            ) == Err::<BookModel, ContractError>(e) && final(book)@ == old(book)@,
        },
{
    let limit_order = LimitOrderState {
        side,
        status: LimitOrderStatus::Active,
        price,
        order_token_index,
        order_token_init_quant,
        timestamp: env.block_time,
        balances,
    };
    match book.create_order(from.canonical, limit_order) {
        Ok(()) => Ok(HandleResponse::empty()),
        Err(e) => Err(e),
    }
}

/// The wire form of a list of transfers: each transfer's call, in order, or
/// `None` if any of them cannot be built.
pub open spec fn encoded(transfers: Seq<TransferView>) -> Option<Seq<CallView>>
    decreases transfers.len(),
{
    if transfers.len() == 0 {
        Some(Seq::empty())
    } else {
        match (encoded(transfers.drop_last()), transfer_call(transfers.last(), BLOCK_SIZE)) {
            (Some(calls), Some(call)) => Some(calls.push(call)),
            _ => None,
        }
    }
}

/// Puts every transfer into its wire form.
pub fn encode_transfers(transfers: &Vec<OutboundTransfer>) -> (calls: Option<Vec<ExecuteCall>>)
    ensures
        match calls {
            Some(c) => encoded(transfer_views(transfers@)) == Some(call_views(c@)),
            None => encoded(transfer_views(transfers@)) is None,
        },
{
    let ghost all = transfer_views(transfers@);
    let mut calls: Vec<ExecuteCall> = Vec::new();
    let mut i: usize = 0;
    assert(all.take(0) =~= Seq::<TransferView>::empty());
    assert(call_views(calls@) =~= Seq::<CallView>::empty());
    while i < transfers.len()
        invariant
            i <= transfers.len(),
            all == transfer_views(transfers@),
            encoded(all.take(i as int)) == Some(call_views(calls@)),
        decreases transfers.len() - i,
    {
        let ghost done = all.take(i as int);
        let ghost next = all.take(i + 1);
        proof {
            assert(next.drop_last() =~= done);
            assert(next.last() == transfers@[i as int]@);
        }
        match encode_transfer(&transfers[i]) {
            Some(call) => {
                let ghost before = call_views(calls@);
                calls.push(call);
                assert(call_views(calls@) =~= before.push(call@));
            },
            None => {
                proof {
                    lemma_encoded_fails(all, i + 1);
                }
                return None;
            },
        }
        i += 1;
    }
    assert(all.take(i as int) =~= all);
    Some(calls)
}

/// If the first `n` transfers cannot be put into wire form, neither can the
/// whole list.
proof fn lemma_encoded_fails(transfers: Seq<TransferView>, n: int)
    requires
        0 <= n <= transfers.len(),
        encoded(transfers.take(n)) is None,
    ensures
        encoded(transfers) is None,
    decreases transfers.len(),
{
    if n < transfers.len() {
        assert(transfers.drop_last().take(n) =~= transfers.take(n));
        lemma_encoded_fails(transfers.drop_last(), n);
    } else {
        assert(transfers.take(n) =~= transfers);
    }
}

/// Completes a withdrawal by `owner` once the transfers that it releases
/// were put into wire form: `calls` holds them, or `None` if that failed.
/// Deletes the order and its queue entry and hands `calls` back as the
/// messages to send. Fails, changing nothing, with `NoActiveOrder` if
/// `owner` has no order, else with `MessageEncoding` if `calls` is `None`.
pub fn settle_withdrawal(
    book: &mut OrderBook,
    owner: &Address,
    calls: Option<Vec<ExecuteCall>>,
) -> (done: Result<HandleResponse, ContractError>)
    requires
        old(book).wf(),
    ensures
        final(book).wf(),
        final(book).registration() == old(book).registration(),
        !old(book)@.orders.contains_key(owner.canonical@) ==> final(book)@ == old(book)@ && (
        done matches Err(e) && e == ContractError::NoActiveOrder),
        old(book)@.orders.contains_key(owner.canonical@) && calls is None ==> final(book)@ == old(
            book,
        )@ && (done matches Err(e) && e == ContractError::MessageEncoding),
        old(book)@.orders.contains_key(owner.canonical@) && calls is Some ==> final(book)@ == old(
            book,
        )@.withdraw(owner.canonical@) && (done matches Ok(response) && Some(response.messages)
            == calls),
{
    let has_order = book.order_of(&owner.canonical).is_some();
    if !has_order {
        return Err(ContractError::NoActiveOrder);
    }
    let messages = match calls {
        Some(messages) => messages,
        None => { return Err(ContractError::MessageEncoding); },
    };
    match book.withdraw_order(owner) {
        Ok(_) => Ok(HandleResponse { messages }),
        Err(e) => Err(e),
    }
}

/// Withdraws the sender's order as a whole. On success the order and its
/// queue entry are gone and the response lists, in wire form, one transfer
/// back to the sender for each asset of which anything was held. Fails,
/// changing nothing and asking for nothing to be sent, with `NoActiveOrder`
/// if the sender has no order, and with `MessageEncoding` if a transfer
/// cannot be put into wire form.
pub fn try_withdraw_limit_order(book: &mut OrderBook, env: Env) -> (done: Result<
    HandleResponse,
    ContractError,
>)
    requires
        old(book).wf(),
    ensures
        final(book).wf(),
        final(book).registration() == old(book).registration(),
        !old(book)@.orders.contains_key(env.sender.canonical@) ==> final(book)@ == old(book)@ && (
        done matches Err(e) && e == ContractError::NoActiveOrder),
        old(book)@.orders.contains_key(env.sender.canonical@) ==> match encoded(
            refunds(
                old(book).registration(),
                env.sender.human@,
                old(book)@.orders[env.sender.canonical@].balances,
            ),
        ) {
            Some(calls) => final(book)@ == old(book)@.withdraw(env.sender.canonical@) && (
            done matches Ok(response) && call_views(response.messages@) == calls),
            None => final(book)@ == old(book)@ && (done matches Err(e) && e
                == ContractError::MessageEncoding),
        },
{
    let due = match book.refunds_due(&env.sender) {
        Some(due) => due,
        None => { return Err(ContractError::NoActiveOrder); },
    };
    let calls = encode_transfers(&due);
    settle_withdrawal(book, &env.sender, calls)
}

/// Handles a request that changes the book. `payload` is the instruction
/// inside a deposit notification, decoded by the caller; it is looked at
/// for a notification only. A limit order cannot be asked for directly, only
/// through a deposit: that fails with `HandlerNotFound`.
pub fn handle(book: &mut OrderBook, env: Env, msg: HandleMsg, payload: Option<HandleMsg>) -> (done:
    Result<HandleResponse, ContractError>)
    requires
        old(book).wf(),
    ensures
        final(book).wf(),
        final(book).registration() == old(book).registration(),
        done is Err ==> final(book)@ == old(book)@,
        match msg {
            HandleMsg::Receive { sender, from, amount, msg } => match done {
                Ok(response) => deposit_outcome(
                    old(book)@,
                    old(book).registration(),
                    env.sender.human@,
                    from.canonical@,
                    amount,
                    payload,
                    env.block_time,
                ) == Ok::<BookModel, ContractError>(final(book)@) && response.messages@.len()
                    == 0,
                Err(e) => deposit_outcome(
                    old(book)@,
                    old(book).registration(),
                    env.sender.human@,
                    from.canonical@,
                    amount,
                    payload,
                    env.block_time,
                ) == Err::<BookModel, ContractError>(e),
            },
            HandleMsg::WithdrawLimitOrder {  } => {
                &&& !old(book)@.orders.contains_key(env.sender.canonical@) ==> (
                done matches Err(e) && e == ContractError::NoActiveOrder)
                &&& old(book)@.orders.contains_key(env.sender.canonical@) ==> match encoded(
                    refunds(
                        old(book).registration(),
                        env.sender.human@,
                        old(book)@.orders[env.sender.canonical@].balances,
                    ),
                ) {
                    Some(calls) => final(book)@ == old(book)@.withdraw(env.sender.canonical@) && (
                    done matches Ok(response) && call_views(response.messages@) == calls),
                    None => done matches Err(e) && e == ContractError::MessageEncoding,
                }
            },
            HandleMsg::CreateLimitOrder { .. } => done matches Err(e) && e
                == ContractError::HandlerNotFound,
        },
{
    match msg {
        HandleMsg::Receive { sender, from, amount, msg: _ } => try_receive(
            book,
            env,
            sender,
            from,
            amount,
            payload,
        ),
        HandleMsg::WithdrawLimitOrder {  } => try_withdraw_limit_order(book, env),
        _ => Err(ContractError::HandlerNotFound),
    }
}

/// The registry confirmed the view-key: it answered, and its answer says
/// valid. No answer, or any other answer, is no confirmation.
pub open spec fn key_confirmed(reply: Option<IsKeyValidResponse>) -> bool {
    reply matches Some(r) && r.is_key_valid.is_valid
}

/// Whether the registry's answer confirms the view-key. `reply` is `None`
/// where the registry failed or could not be asked.
pub fn authorize(reply: &Option<IsKeyValidResponse>) -> (confirmed: bool)
    ensures
        confirmed == key_confirmed(*reply),
{
    match reply {
        Some(response) => response.is_key_valid.is_valid,
        None => false,
    }
}

/// The question to put to the registry before a query of `user_address`
/// with `user_viewkey` is answered.
pub fn key_validity_query(book: &OrderBook, user_address: &Address, user_viewkey: &String) -> (ask:
    FactoryQuery)
    ensures
        ask == (FactoryQuery {
            contract_addr: book.registration().factory.address,
            callback_code_hash: book.registration().factory.code_hash,
            msg: FactoryQueryMsg::IsKeyValid {
                factory_key: book.registration().factory_key,
                viewing_key: *user_viewkey,
                address: user_address.human,
            },
        }),
{
    let registration = book.registration_ref();
    FactoryQuery {
        contract_addr: registration.factory.address.clone(),
        callback_code_hash: registration.factory.code_hash.clone(),
        msg: FactoryQueryMsg::IsKeyValid {
            factory_key: registration.factory_key.clone(),
            viewing_key: user_viewkey.clone(),
            address: user_address.human.clone(),
        },
    }
}

/// The resting order of `user_address`. `reply` is the registry's answer to
/// [`key_validity_query`]. Unless it confirms the view-key the query fails
/// with `Unauthorized`, whether or not there is an order. With a confirmed
/// key it fails with `NoActiveOrder` if there is none.
pub fn get_limit_order(
    book: &OrderBook,
    user_address: &Address,
    reply: Option<IsKeyValidResponse>,
) -> (found: Result<LimitOrderState, ContractError>)
    requires
        book.wf(),
    ensures
        !key_confirmed(reply) ==> (found matches Err(e) && e == ContractError::Unauthorized),
        key_confirmed(reply) && !book@.orders.contains_key(user_address.canonical@) ==> (
        found matches Err(e) && e == ContractError::NoActiveOrder),
        key_confirmed(reply) && book@.orders.contains_key(user_address.canonical@) ==> (
        found matches Ok(order) && order@ == book@.orders[user_address.canonical@]),
{
    if !authorize(&reply) {
        return Err(ContractError::Unauthorized);
    }
    match book.order_of(&user_address.canonical) {
        Some(order) => Ok(order),
        None => Err(ContractError::NoActiveOrder),
    }
}

/// The best price on each side of the book. `reply` is the registry's
/// answer to [`key_validity_query`]; unless it confirms the view-key the
/// query fails with `Unauthorized`. The bid price is that of the head of
/// the queue, which no resting order exceeds, and `None` if the queue is
/// empty. The book keeps no ask side, so the ask price is always `None`.
pub fn get_order_book_peek(book: &OrderBook, reply: Option<IsKeyValidResponse>) -> (peek: Result<
    GetOrderBookPeekResponse,
    ContractError,
>)
    requires
        book.wf(),
    ensures
        !key_confirmed(reply) ==> (peek matches Err(e) && e == ContractError::Unauthorized),
        key_confirmed(reply) ==> (peek matches Ok(prices) && prices.bid_price
            == book@.best_price() && prices.ask_price.is_none()),
{
    if !authorize(&reply) {
        return Err(ContractError::Unauthorized);
    }
    let bid_price = match book.best_entry() {
        Some(entry) => Some(entry.price),
        None => None,
    };
    Ok(GetOrderBookPeekResponse { bid_price, ask_price: None })
}

/// Answers a query. `reply` is the registry's answer to the view-key check
/// of the address and key in `msg`; without a confirmation every query
/// fails with `Unauthorized` and reveals nothing.
pub fn query(book: &OrderBook, msg: QueryMsg, reply: Option<IsKeyValidResponse>) -> (answer: Result<
    QueryAnswer,
    ContractError,
>)
    requires
        book.wf(),
    ensures
        !key_confirmed(reply) ==> (answer matches Err(e) && e == ContractError::Unauthorized),
        key_confirmed(reply) ==> match msg {
            QueryMsg::GetLimitOrder { user_address, user_viewkey } => {
                if book@.orders.contains_key(user_address.canonical@) {
                    answer matches Ok(QueryAnswer::LimitOrder(order)) && order@
                        == book@.orders[user_address.canonical@]
                } else {
                    answer matches Err(e) && e == ContractError::NoActiveOrder
                }
            },
            QueryMsg::GetOrderBookPeek { user_address, user_viewkey } => {
                answer matches Ok(QueryAnswer::OrderBookPeek(prices)) && prices.bid_price
                    == book@.best_price() && prices.ask_price.is_none()
            },
        },
{
    match msg {
        QueryMsg::GetLimitOrder { user_address, user_viewkey: _ } => {
            match get_limit_order(book, &user_address, reply) {
                Ok(order) => Ok(QueryAnswer::LimitOrder(order)),
                Err(e) => Err(e),
            }
        },
        QueryMsg::GetOrderBookPeek { user_address: _, user_viewkey: _ } => {
            match get_order_book_peek(book, reply) {
                Ok(prices) => Ok(QueryAnswer::OrderBookPeek(prices)),
                Err(e) => Err(e),
            }
        },
    }
}

/// The question to put to the registry before `msg` is answered.
pub fn query_key_check(book: &OrderBook, msg: &QueryMsg) -> (ask: FactoryQuery)
    ensures
        ask.contract_addr == book.registration().factory.address,
        ask.callback_code_hash == book.registration().factory.code_hash,
        match *msg {
            QueryMsg::GetLimitOrder { user_address, user_viewkey } => ask.msg
                == (FactoryQueryMsg::IsKeyValid {
                factory_key: book.registration().factory_key,
                viewing_key: user_viewkey,
                address: user_address.human,
            }),
            QueryMsg::GetOrderBookPeek { user_address, user_viewkey } => ask.msg
                == (FactoryQueryMsg::IsKeyValid {
                factory_key: book.registration().factory_key,
                viewing_key: user_viewkey,
                address: user_address.human,
            }),
        },
{
    match msg {
        QueryMsg::GetLimitOrder { user_address, user_viewkey } => key_validity_query(
            book,
            user_address,
            user_viewkey,
        ),
        QueryMsg::GetOrderBookPeek { user_address, user_viewkey } => key_validity_query(
            book,
            user_address,
            user_viewkey,
        ),
    }
}

} // verus!
