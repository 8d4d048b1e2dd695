use secret_order_book::order::{LimitOrderState, LimitOrderStatus, OrderSide};
use secret_order_book::state::{OrderRecord, OrderStore};

fn owner(tag: u8) -> Vec<u8> {
    vec![tag; 20]
}

fn order(price: u128, quantity: u128, at: u64) -> LimitOrderState {
    LimitOrderState {
        side: OrderSide::Bid,
        status: LimitOrderStatus::Active,
        price,
        order_token_index: 0,
        order_token_init_quant: quantity,
        timestamp: at,
        balances: vec![quantity, 0],
    }
}

#[test]
fn new_store_holds_nothing() {
    let store = OrderStore::new();
    assert_eq!(store.len(), 0);
    assert!(!store.contains(&owner(1)));
    assert_eq!(store.get(&owner(1)), None);
    assert!(store.records().is_empty());
}

#[test]
fn put_then_get_returns_the_order() {
    let mut store = OrderStore::new();
    store.put(owner(1), order(50, 100, 7));
    assert!(store.contains(&owner(1)));
    assert_eq!(store.get(&owner(1)), Some(order(50, 100, 7)));
    assert_eq!(store.get(&owner(2)), None);
    assert_eq!(store.len(), 1);
}

#[test]
fn put_overwrites_the_owners_order() {
    let mut store = OrderStore::new();
    store.put(owner(1), order(50, 100, 7));
    store.put(owner(2), order(60, 10, 8));
    store.put(owner(1), order(55, 200, 9));
    assert_eq!(store.len(), 2);
    assert_eq!(store.get(&owner(1)), Some(order(55, 200, 9)));
    assert_eq!(store.get(&owner(2)), Some(order(60, 10, 8)));
}

#[test]
fn delete_removes_only_the_owners_order() {
    let mut store = OrderStore::new();
    store.put(owner(1), order(50, 100, 7));
    store.put(owner(2), order(60, 10, 8));
    store.put(owner(3), order(70, 1, 9));
    store.delete(&owner(2));
    assert_eq!(store.len(), 2);
    assert_eq!(store.get(&owner(2)), None);
    assert_eq!(store.get(&owner(1)), Some(order(50, 100, 7)));
    assert_eq!(store.get(&owner(3)), Some(order(70, 1, 9)));
}

#[test]
fn delete_of_absent_owner_does_nothing() {
    let mut store = OrderStore::new();
    store.put(owner(1), order(50, 100, 7));
    store.delete(&owner(9));
    assert_eq!(store.len(), 1);
    assert_eq!(store.get(&owner(1)), Some(order(50, 100, 7)));
}

#[test]
fn records_lists_each_owner_once() {
    let mut store = OrderStore::new();
    store.put(owner(1), order(50, 100, 7));
    store.put(owner(2), order(60, 10, 8));
    store.put(owner(1), order(51, 100, 7));
    let records = store.records();
    assert_eq!(records.len(), 2);
    let mine: Vec<&OrderRecord> = records.iter().filter(|r| r.owner == owner(1)).collect();
    assert_eq!(mine.len(), 1);
    assert_eq!(mine[0].order, order(51, 100, 7));
}

#[test]
fn from_records_accepts_distinct_owners() {
    let records = vec![
        OrderRecord { owner: owner(1), order: order(50, 100, 7) },
        OrderRecord { owner: owner(2), order: order(60, 10, 8) },
    ];
    let store = OrderStore::from_records(records).unwrap();
    assert_eq!(store.len(), 2);
    assert_eq!(store.get(&owner(2)), Some(order(60, 10, 8)));
}

#[test]
fn from_records_rejects_an_owner_listed_twice() {
    let records = vec![
        OrderRecord { owner: owner(1), order: order(50, 100, 7) },
        OrderRecord { owner: owner(2), order: order(60, 10, 8) },
        OrderRecord { owner: owner(1), order: order(70, 1, 9) },
    ];
    assert_eq!(OrderStore::from_records(records), None);
}

#[test]
fn is_resting_tells_single_asset_escrows() {
    assert!(order(50, 100, 7).is_resting());
    let mut zero = order(50, 0, 7);
    assert!(zero.is_resting());
    zero.status = LimitOrderStatus::Withdrawn;
    assert!(!zero.is_resting());

    let mut second = order(50, 100, 7);
    second.order_token_index = 1;
    assert!(!second.is_resting());
    second.balances = vec![0, 100];
    assert!(second.is_resting());

    let mut both = order(50, 100, 7);
    both.balances = vec![100, 1];
    assert!(!both.is_resting());

    let mut short = order(50, 100, 7);
    short.balances = vec![100];
    assert!(!short.is_resting());

    let mut long = order(50, 100, 7);
    long.balances = vec![100, 0, 0];
    assert!(!long.is_resting());

    let mut bad_index = order(50, 100, 7);
    bad_index.order_token_index = 2;
    assert!(!bad_index.is_resting());
    bad_index.order_token_index = -1;
    assert!(!bad_index.is_resting());
}
