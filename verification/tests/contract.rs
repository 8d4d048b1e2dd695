use secret_order_book::address::Address;
use secret_order_book::book::OrderBook;
use secret_order_book::contract::{
    authorize, create_limit_order, encode_transfers, get_limit_order, get_order_book_peek, handle,
    init, key_validity_query, query, query_key_check, settle_withdrawal, try_receive,
    try_withdraw_limit_order, Env,
};
use secret_order_book::error::ContractError;
use secret_order_book::msg::{
    FactoryHandleMsg, FactoryQuery, FactoryQueryMsg, GetOrderBookPeekResponse, HandleMsg, InitCall,
    InitMsg, IsKeyValid, IsKeyValidResponse, QueryAnswer, QueryMsg, Snip20Msg,
};
use secret_order_book::order::{LimitOrderState, LimitOrderStatus, OrderSide};
use secret_order_book::outbound::{ExecuteCall, HandleResponse, OutboundTransfer};
use secret_order_book::snip20::{encode_transfer, BLOCK_SIZE};

fn init_msg() -> InitMsg {
    InitMsg {
        factory_address: "factory".to_string(),
        factory_hash: "fhash".to_string(),
        factory_key: "secret".to_string(),
        token1_code_address: "token1".to_string(),
        token1_code_hash: "hash1".to_string(),
        token2_code_address: "token2".to_string(),
        token2_code_hash: "hash2".to_string(),
    }
}

fn participant(name: &str) -> Address {
    Address { human: name.to_string(), canonical: name.as_bytes().to_vec() }
}

fn env(sender: &str, time: u64) -> Env {
    Env {
        block_time: time,
        sender: participant(sender),
        contract_address: "book".to_string(),
        contract_code_hash: "bookhash".to_string(),
    }
}

fn new_book() -> OrderBook {
    init(env("creator", 0), init_msg()).0
}

fn limit(side: OrderSide, price: u128) -> Option<HandleMsg> {
    Some(HandleMsg::CreateLimitOrder { side, price })
}

fn deposit(book: &mut OrderBook, asset: &str, from: &str, amount: u128, price: u128, time: u64)
    -> Result<HandleResponse, ContractError>
{
    try_receive(
        book,
        env(asset, time),
        from.to_string(),
        participant(from),
        amount,
        limit(OrderSide::Bid, price),
    )
}

fn valid() -> Option<IsKeyValidResponse> {
    Some(IsKeyValidResponse { is_key_valid: IsKeyValid { is_valid: true } })
}

fn invalid() -> Option<IsKeyValidResponse> {
    Some(IsKeyValidResponse { is_key_valid: IsKeyValid { is_valid: false } })
}

fn padded(json: &str) -> Vec<u8> {
    let mut bytes = json.as_bytes().to_vec();
    while bytes.len() % BLOCK_SIZE != 0 {
        bytes.push(b' ');
    }
    bytes
}

#[test]
fn init_registers_with_both_ledgers_and_calls_the_registry_back() {
    let (book, response) = init(env("creator", 0), init_msg());
    assert_eq!(
        response.messages,
        vec![
            InitCall::Snip20 {
                contract_addr: "token1".to_string(),
                callback_code_hash: "hash1".to_string(),
                msg: Snip20Msg::RegisterReceive { code_hash: "bookhash".to_string(), padding: None },
            },
            InitCall::Snip20 {
                contract_addr: "token2".to_string(),
                callback_code_hash: "hash2".to_string(),
                msg: Snip20Msg::RegisterReceive { code_hash: "bookhash".to_string(), padding: None },
            },
            InitCall::Factory {
                contract_addr: "factory".to_string(),
                callback_code_hash: "fhash".to_string(),
                msg: FactoryHandleMsg::InitCallBackFromSecretOrderBookToFactory {
                    auth_key: "secret".to_string(),
                    contract_address: "book".to_string(),
                    token1_address: "token1".to_string(),
                    token2_address: "token2".to_string(),
                },
            },
        ]
    );
    assert!(book.records().is_empty());
    assert!(book.entries().is_empty());
    let reg = book.registration_ref();
    assert_eq!(reg.factory.address, "factory");
    assert_eq!(reg.factory.code_hash, "fhash");
    assert_eq!(reg.factory_key, "secret");
    assert_eq!(reg.token1.address, "token1");
    assert_eq!(reg.token1.code_hash, "hash1");
    assert_eq!(reg.token2.address, "token2");
    assert_eq!(reg.token2.code_hash, "hash2");
}

#[test]
fn register_receive_has_no_padding() {
    assert_eq!(
        Snip20Msg::register_receive("h".to_string()),
        Snip20Msg::RegisterReceive { code_hash: "h".to_string(), padding: None }
    );
}

#[test]
fn deposit_creates_an_active_order_funded_by_the_sending_ledger() {
    let mut book = new_book();
    let response = deposit(&mut book, "token1", "alice", 100, 50, 7).unwrap();
    assert!(response.messages.is_empty());
    assert_eq!(
        book.order_of(&participant("alice").canonical),
        Some(LimitOrderState {
            side: OrderSide::Bid,
            status: LimitOrderStatus::Active,
            price: 50,
            order_token_index: 0,
            order_token_init_quant: 100,
            timestamp: 7,
            balances: vec![100, 0],
        })
    );
    let response = try_receive(
        &mut book,
        env("token2", 9),
        "bob".to_string(),
        participant("bob"),
        5,
        limit(OrderSide::Ask, 60),
    )
    .unwrap();
    assert!(response.messages.is_empty());
    assert_eq!(
        book.order_of(&participant("bob").canonical),
        Some(LimitOrderState {
            side: OrderSide::Ask,
            status: LimitOrderStatus::Active,
            price: 60,
            order_token_index: 1,
            order_token_init_quant: 5,
            timestamp: 9,
            balances: vec![0, 5],
        })
    );
    assert_eq!(book.entries().len(), 2);
    assert_eq!(book.entries()[0].owner, b"bob".to_vec());
}

#[test]
fn deposit_from_unregistered_address_fails_with_unknown_asset() {
    let mut book = new_book();
    assert_eq!(deposit(&mut book, "token3", "alice", 100, 50, 7), Err(ContractError::UnknownAsset));
    assert_eq!(book, new_book());
    assert_eq!(book.order_of(&participant("alice").canonical), None);
    // whatever the deposit carries
    let recursive = Some(HandleMsg::Receive {
        sender: "x".to_string(),
        from: participant("x"),
        amount: 1,
        msg: Vec::new(),
    });
    assert_eq!(
        try_receive(&mut book, env("factory", 7), "a".to_string(), participant("a"), 1, recursive),
        Err(ContractError::UnknownAsset)
    );
    assert_eq!(
        try_receive(&mut book, env("alice", 7), "a".to_string(), participant("a"), 1, None),
        Err(ContractError::UnknownAsset)
    );
    assert_eq!(book, new_book());
}

#[test]
fn deposit_that_carries_a_notification_fails_as_recursive() {
    let mut book = new_book();
    let recursive = Some(HandleMsg::Receive {
        sender: "x".to_string(),
        from: participant("x"),
        amount: 1,
        msg: Vec::new(),
    });
    assert_eq!(
        try_receive(&mut book, env("token1", 7), "a".to_string(), participant("a"), 1, recursive),
        Err(ContractError::RecursiveNotification)
    );
    assert_eq!(book, new_book());
}

#[test]
fn deposit_that_carries_another_instruction_is_unsupported() {
    let mut book = new_book();
    assert_eq!(
        try_receive(
            &mut book,
            env("token1", 7),
            "a".to_string(),
            participant("a"),
            1,
            Some(HandleMsg::WithdrawLimitOrder {})
        ),
        Err(ContractError::UnsupportedInnerMessage)
    );
    assert_eq!(
        try_receive(&mut book, env("token2", 7), "a".to_string(), participant("a"), 1, None),
        Err(ContractError::UnsupportedInnerMessage)
    );
    assert_eq!(book, new_book());
}

#[test]
fn second_deposit_of_an_owner_fails_with_duplicate_owner() {
    let mut book = new_book();
    deposit(&mut book, "token1", "alice", 100, 50, 7).unwrap();
    let before = (book.records(), book.entries());
    assert_eq!(deposit(&mut book, "token2", "alice", 1, 99, 8), Err(ContractError::DuplicateOwner));
    assert_eq!((book.records(), book.entries()), before);
}

#[test]
fn create_limit_order_records_the_terms_given() {
    let mut book = new_book();
    let response = create_limit_order(
        &mut book,
        env("token2", 11),
        vec![0, 40],
        1,
        40,
        participant("carol"),
        OrderSide::Ask,
        75,
    )
    .unwrap();
    assert!(response.messages.is_empty());
    assert_eq!(
        book.order_of(&participant("carol").canonical),
        Some(LimitOrderState {
            side: OrderSide::Ask,
            status: LimitOrderStatus::Active,
            price: 75,
            order_token_index: 1,
            order_token_init_quant: 40,
            timestamp: 11,
            balances: vec![0, 40],
        })
    );
    let entries = book.entries();
    assert_eq!(entries.len(), 1);
    assert_eq!((entries[0].price, entries[0].created_at), (75, 11));
}

#[test]
fn create_limit_order_rejects_inconsistent_terms() {
    let mut book = new_book();
    let cases: Vec<(Vec<u128>, i8, u128)> = vec![
        (vec![40, 40], 0, 40),
        (vec![40, 0], 1, 40),
        (vec![40, 0], 0, 41),
        (vec![40], 0, 40),
        (vec![40, 0, 0], 0, 40),
        (vec![40, 0], 2, 40),
        (vec![], 0, 0),
    ];
    for (balances, index, quantity) in cases {
        assert_eq!(
            create_limit_order(
                &mut book,
                env("token1", 11),
                balances,
                index,
                quantity,
                participant("carol"),
                OrderSide::Bid,
                75,
            ),
            Err(ContractError::InvariantViolation)
        );
        assert_eq!(book, new_book());
    }
}

#[test]
fn create_then_withdraw_returns_the_deposit_in_one_transfer() {
    let mut book = new_book();
    deposit(&mut book, "token1", "alice", 100, 50, 7).unwrap();
    let response = try_withdraw_limit_order(&mut book, env("alice", 8)).unwrap();
    assert_eq!(
        response.messages,
        vec![ExecuteCall {
            contract_addr: "token1".to_string(),
            callback_code_hash: "hash1".to_string(),
            msg: padded(
                r#"{"transfer":{"recipient":"alice","amount":"100","memo":null,"padding":null}}"#
            ),
        }]
    );
    assert_eq!(response.messages[0].msg.len(), 256);
    assert_eq!(book.order_of(&participant("alice").canonical), None);
    assert!(book.entries().is_empty());
    assert_eq!(book, new_book());
}

#[test]
fn withdraw_of_second_asset_is_sent_to_the_second_ledger() {
    let mut book = new_book();
    deposit(&mut book, "token2", "bob", 7, 50, 7).unwrap();
    let response = try_withdraw_limit_order(&mut book, env("bob", 8)).unwrap();
    assert_eq!(response.messages.len(), 1);
    assert_eq!(response.messages[0].contract_addr, "token2");
    assert_eq!(response.messages[0].callback_code_hash, "hash2");
    assert_eq!(
        response.messages[0].msg,
        padded(r#"{"transfer":{"recipient":"bob","amount":"7","memo":null,"padding":null}}"#)
    );
}

#[test]
fn withdraw_without_order_fails_with_no_active_order() {
    let mut book = new_book();
    assert_eq!(
        try_withdraw_limit_order(&mut book, env("alice", 8)),
        Err(ContractError::NoActiveOrder)
    );
    deposit(&mut book, "token1", "bob", 100, 50, 7).unwrap();
    let before = (book.records(), book.entries());
    assert_eq!(
        try_withdraw_limit_order(&mut book, env("alice", 8)),
        Err(ContractError::NoActiveOrder)
    );
    assert_eq!((book.records(), book.entries()), before);
    // a withdrawn order cannot be withdrawn again
    try_withdraw_limit_order(&mut book, env("bob", 9)).unwrap();
    assert_eq!(
        try_withdraw_limit_order(&mut book, env("bob", 10)),
        Err(ContractError::NoActiveOrder)
    );
}

#[test]
fn encode_transfer_builds_the_padded_transfer_message() {
    let transfer = OutboundTransfer {
        contract_addr: "ledger".to_string(),
        callback_code_hash: "lhash".to_string(),
        recipient: "carol".to_string(),
        amount: 340282366920938463463374607431768211455,
    };
    let call = encode_transfer(&transfer).unwrap();
    assert_eq!(call.contract_addr, "ledger");
    assert_eq!(call.callback_code_hash, "lhash");
    assert_eq!(
        call.msg,
        padded(
            r#"{"transfer":{"recipient":"carol","amount":"340282366920938463463374607431768211455","memo":null,"padding":null}}"#
        )
    );
    assert_eq!(call.msg.len() % BLOCK_SIZE, 0);
    assert_eq!(BLOCK_SIZE, 256);
}

#[test]
fn encode_transfers_keeps_the_order_of_the_transfers() {
    let transfer = |ledger: &str, amount: u128| OutboundTransfer {
        contract_addr: ledger.to_string(),
        callback_code_hash: "h".to_string(),
        recipient: "carol".to_string(),
        amount,
    };
    let calls = encode_transfers(&vec![transfer("one", 1), transfer("two", 2)]).unwrap();
    assert_eq!(calls.len(), 2);
    assert_eq!(calls[0].contract_addr, "one");
    assert_eq!(calls[1].contract_addr, "two");
    assert_eq!(
        calls[1].msg,
        padded(r#"{"transfer":{"recipient":"carol","amount":"2","memo":null,"padding":null}}"#)
    );
    assert_eq!(encode_transfers(&Vec::new()), Some(Vec::new()));
}

#[test]
fn settle_withdrawal_hands_the_calls_back_and_deletes_the_order() {
    let mut book = new_book();
    deposit(&mut book, "token1", "alice", 100, 50, 7).unwrap();
    let calls = vec![ExecuteCall {
        contract_addr: "token1".to_string(),
        callback_code_hash: "hash1".to_string(),
        msg: vec![1, 2, 3],
    }];
    let response = settle_withdrawal(&mut book, &participant("alice"), Some(calls)).unwrap();
    assert_eq!(
        response.messages,
        vec![ExecuteCall {
            contract_addr: "token1".to_string(),
            callback_code_hash: "hash1".to_string(),
            msg: vec![1, 2, 3],
        }]
    );
    assert_eq!(book, new_book());
}

#[test]
fn settle_withdrawal_without_calls_fails_and_keeps_the_order() {
    let mut book = new_book();
    deposit(&mut book, "token1", "alice", 100, 50, 7).unwrap();
    let before = (book.records(), book.entries());
    assert_eq!(
        settle_withdrawal(&mut book, &participant("alice"), None),
        Err(ContractError::MessageEncoding)
    );
    assert_eq!((book.records(), book.entries()), before);
    assert_eq!(
        settle_withdrawal(&mut book, &participant("bob"), None),
        Err(ContractError::NoActiveOrder)
    );
    assert_eq!(
        settle_withdrawal(&mut book, &participant("bob"), Some(Vec::new())),
        Err(ContractError::NoActiveOrder)
    );
    assert_eq!((book.records(), book.entries()), before);
}

#[test]
fn handle_dispatches_deposits_and_withdrawals() {
    let mut book = new_book();
    let notification = HandleMsg::Receive {
        sender: "alice".to_string(),
        from: participant("alice"),
        amount: 100,
        msg: b"payload".to_vec(),
    };
    let response =
        handle(&mut book, env("token1", 7), notification, limit(OrderSide::Bid, 50)).unwrap();
    assert!(response.messages.is_empty());
    assert_eq!(
        book.order_of(&participant("alice").canonical).map(|o| (o.price, o.balances)),
        Some((50, vec![100, 0]))
    );
    let response =
        handle(&mut book, env("alice", 8), HandleMsg::WithdrawLimitOrder {}, None).unwrap();
    assert_eq!(response.messages.len(), 1);
    assert_eq!(book, new_book());
}

#[test]
fn handle_rejects_a_limit_order_sent_directly() {
    let mut book = new_book();
    assert_eq!(
        handle(
            &mut book,
            env("alice", 8),
            HandleMsg::CreateLimitOrder { side: OrderSide::Bid, price: 5 },
            None
        ),
        Err(ContractError::HandlerNotFound)
    );
    assert_eq!(book, new_book());
}

#[test]
fn authorize_takes_only_an_explicit_yes() {
    assert!(authorize(&valid()));
    assert!(!authorize(&invalid()));
    assert!(!authorize(&None));
}

#[test]
fn key_validity_query_asks_the_registry_with_the_shared_secret() {
    let book = new_book();
    let expected = FactoryQuery {
        contract_addr: "factory".to_string(),
        callback_code_hash: "fhash".to_string(),
        msg: FactoryQueryMsg::IsKeyValid {
            factory_key: "secret".to_string(),
            viewing_key: "vk".to_string(),
            address: "alice".to_string(),
        },
    };
    assert_eq!(key_validity_query(&book, &participant("alice"), &"vk".to_string()), expected);
    let msg =
        QueryMsg::GetLimitOrder { user_address: participant("alice"), user_viewkey: "vk".to_string() };
    assert_eq!(query_key_check(&book, &msg), expected);
    let msg = QueryMsg::GetOrderBookPeek {
        user_address: participant("alice"),
        user_viewkey: "vk".to_string(),
    };
    assert_eq!(query_key_check(&book, &msg), expected);
}

#[test]
fn get_limit_order_returns_the_order_to_a_valid_key() {
    let mut book = new_book();
    deposit(&mut book, "token1", "alice", 100, 50, 7).unwrap();
    let order = get_limit_order(&book, &participant("alice"), valid()).unwrap();
    assert_eq!(order, book.order_of(&participant("alice").canonical).unwrap());
    assert_eq!(order.price, 50);
    assert_eq!(
        get_limit_order(&book, &participant("bob"), valid()),
        Err(ContractError::NoActiveOrder)
    );
}

#[test]
fn queries_with_invalid_key_are_unauthorized() {
    let mut book = new_book();
    deposit(&mut book, "token1", "alice", 100, 50, 7).unwrap();
    for reply in [invalid(), None] {
        assert_eq!(
            get_limit_order(&book, &participant("alice"), reply),
            Err(ContractError::Unauthorized)
        );
        assert_eq!(
            get_limit_order(&book, &participant("bob"), reply),
            Err(ContractError::Unauthorized)
        );
        assert_eq!(get_order_book_peek(&book, reply), Err(ContractError::Unauthorized));
        assert_eq!(get_order_book_peek(&new_book(), reply), Err(ContractError::Unauthorized));
        let msg = QueryMsg::GetLimitOrder {
            user_address: participant("alice"),
            user_viewkey: "vk".to_string(),
        };
        assert_eq!(query(&book, msg, reply), Err(ContractError::Unauthorized));
        let msg = QueryMsg::GetOrderBookPeek {
            user_address: participant("alice"),
            user_viewkey: "vk".to_string(),
        };
        assert_eq!(query(&book, msg, reply), Err(ContractError::Unauthorized));
    }
}

#[test]
fn book_peek_reports_the_best_bid() {
    let mut book = new_book();
    assert_eq!(
        get_order_book_peek(&book, valid()),
        Ok(GetOrderBookPeekResponse { bid_price: None, ask_price: None })
    );
    deposit(&mut book, "token1", "alice", 100, 50, 7).unwrap();
    assert_eq!(
        get_order_book_peek(&book, valid()),
        Ok(GetOrderBookPeekResponse { bid_price: Some(50), ask_price: None })
    );
    deposit(&mut book, "token1", "bob", 100, 70, 8).unwrap();
    assert_eq!(
        get_order_book_peek(&book, valid()),
        Ok(GetOrderBookPeekResponse { bid_price: Some(70), ask_price: None })
    );
    try_withdraw_limit_order(&mut book, env("bob", 9)).unwrap();
    assert_eq!(
        get_order_book_peek(&book, valid()),
        Ok(GetOrderBookPeekResponse { bid_price: Some(50), ask_price: None })
    );
}

#[test]
fn equal_prices_are_served_first_come_first() {
    let mut book = new_book();
    deposit(&mut book, "token1", "late", 1, 50, 20).unwrap();
    deposit(&mut book, "token1", "early", 1, 50, 10).unwrap();
    let head = book.best_entry().unwrap();
    assert_eq!((head.owner, head.created_at), (b"early".to_vec(), 10));
}

#[test]
fn query_answers_both_kinds_of_request() {
    let mut book = new_book();
    deposit(&mut book, "token2", "alice", 100, 50, 7).unwrap();
    let msg = QueryMsg::GetLimitOrder {
        user_address: participant("alice"),
        user_viewkey: "vk".to_string(),
    };
    assert_eq!(
        query(&book, msg, valid()),
        Ok(QueryAnswer::LimitOrder(LimitOrderState {
            side: OrderSide::Bid,
            status: LimitOrderStatus::Active,
            price: 50,
            order_token_index: 1,
            order_token_init_quant: 100,
            timestamp: 7,
            balances: vec![0, 100],
        }))
    );
    let msg = QueryMsg::GetLimitOrder {
        user_address: participant("bob"),
        user_viewkey: "vk".to_string(),
    };
    assert_eq!(query(&book, msg, valid()), Err(ContractError::NoActiveOrder));
    let msg = QueryMsg::GetOrderBookPeek {
        user_address: participant("bob"),
        user_viewkey: "vk".to_string(),
    };
    assert_eq!(
        query(&book, msg, valid()),
        Ok(QueryAnswer::OrderBookPeek(GetOrderBookPeekResponse {
            bid_price: Some(50),
            ask_price: None
        }))
    );
}
