use sol_tx_aggregator::application::app::App;
use sol_tx_aggregator::domain::calendar::{day_number_of, parse_day_number, utc_day_of};
use sol_tx_aggregator::domain::errors::{AggregatorError, BcClientError, DataStorageError, NotifierError};
use sol_tx_aggregator::domain::models::{Account, DataStorage, Pubkey, Transaction};
use sol_tx_aggregator::infrastructure::memory::InMemoryDatabase;

fn key(b: u8) -> Pubkey {
    Pubkey::new_from_array([b; 32])
}

fn tx(id: &str, sender: u8, receiver: u8, slot: u64, timestamp: i64) -> Transaction {
    Transaction {
        id: id.to_string(),
        sender: key(sender),
        receiver: key(receiver),
        amount: 10,
        fee: 1,
        slot,
        timestamp,
    }
}

fn ids(mut list: Vec<Transaction>) -> Vec<String> {
    list.sort_by(|a, b| a.id.cmp(&b.id));
    list.into_iter().map(|t| t.id).collect()
}

fn filled() -> App<InMemoryDatabase> {
    let mut app = App::new();
    // 2024-03-01T00:00:00Z is 1709251200.
    app.database.store_transaction(tx("a", 1, 2, 5, 1_709_251_200)).unwrap();
    app.database.store_transaction(tx("b", 1, 3, 6, 1_709_251_199)).unwrap();
    app.database.store_transaction(tx("c", 2, 3, 5, 1_709_337_599)).unwrap();
    app
}

#[test]
fn new_app_is_empty() {
    let app = App::new();
    assert!(app.get_transactions().unwrap().is_empty());
    assert!(app.get_accounts().unwrap().is_empty());
}

#[test]
fn stored_transaction_reads_back() {
    let app = filled();
    let t = app.get_transaction("b".to_string()).unwrap();
    assert_eq!(t.sender.bytes, [1; 32]);
    assert_eq!(t.receiver.bytes, [3; 32]);
    assert_eq!(t.slot, 6);
    assert!(matches!(app.get_transaction("zz".to_string()), Err(DataStorageError::TransactionNotFound)));
}

#[test]
fn storing_again_replaces() {
    let mut app = filled();
    app.database.store_transaction(tx("a", 9, 9, 77, 0)).unwrap();
    assert_eq!(app.get_transactions().unwrap().len(), 3);
    assert_eq!(app.get_transaction("a".to_string()).unwrap().slot, 77);
}

#[test]
fn queries_select_by_field() {
    let app = filled();
    assert_eq!(ids(app.get_transactions().unwrap()), vec!["a", "b", "c"]);
    assert_eq!(ids(app.get_transactions_by_sender(key(1)).unwrap()), vec!["a", "b"]);
    assert_eq!(ids(app.get_transactions_by_receiver(key(3)).unwrap()), vec!["b", "c"]);
    assert_eq!(ids(app.get_transactions_by_slot(5).unwrap()), vec!["a", "c"]);
    assert!(app.get_transactions_by_slot(4).unwrap().is_empty());
}

#[test]
fn query_by_utc_date() {
    let app = filled();
    assert_eq!(ids(app.get_transactions_by_date("2024-03-01".to_string()).unwrap()), vec!["a", "c"]);
    assert_eq!(ids(app.get_transactions_by_date("2024-02-29".to_string()).unwrap()), vec!["b"]);
    assert!(app.get_transactions_by_date("2024-03-02".to_string()).unwrap().is_empty());
    assert!(app.get_transactions_by_date("2024-3-1".to_string()).unwrap().is_empty());
    assert!(app.get_transactions_by_date("2023-02-29".to_string()).unwrap().is_empty());
}

#[test]
fn accounts_are_kept_by_address_latest_first() {
    let mut app = App::new();
    app.database.store_account(Account { address: key(1), balance: 5, last_slot_updated: 1 }).unwrap();
    app.database.store_account(Account { address: key(2), balance: 6, last_slot_updated: 1 }).unwrap();
    app.database.store_account(Account { address: key(1), balance: 7, last_slot_updated: 2 }).unwrap();
    let mut accounts = app.get_accounts().unwrap();
    accounts.sort_by_key(|a| a.address.bytes);
    assert_eq!(accounts.len(), 2);
    assert_eq!((accounts[0].address.bytes, accounts[0].balance, accounts[0].last_slot_updated), ([1; 32], 7, 2));
    assert_eq!((accounts[1].address.bytes, accounts[1].balance), ([2; 32], 6));
}

#[test]
fn day_numbers() {
    assert_eq!(day_number_of(1970, 1, 1), 0);
    assert_eq!(day_number_of(1969, 12, 31), -1);
    assert_eq!(day_number_of(2000, 3, 1), 11_017);
    assert_eq!(day_number_of(2024, 3, 1), 19_783);
    assert_eq!(parse_day_number("2024-03-01"), Some(19_783));
    assert_eq!(parse_day_number("2024-02-29"), Some(19_782));
    assert_eq!(parse_day_number("2023-02-29"), None);
    assert_eq!(parse_day_number("2024-13-01"), None);
    assert_eq!(parse_day_number("2024/03/01"), None);
    assert_eq!(parse_day_number("0000-01-01"), Some(-719_528));
}

#[test]
fn utc_days_floor() {
    assert_eq!(utc_day_of(0), 0);
    assert_eq!(utc_day_of(86_399), 0);
    assert_eq!(utc_day_of(86_400), 1);
    assert_eq!(utc_day_of(-1), -1);
    assert_eq!(utc_day_of(-86_400), -1);
    assert_eq!(utc_day_of(-86_401), -2);
    assert_eq!(utc_day_of(i64::MIN), -106_751_991_167_301);
}

#[test]
fn errors_convert() {
    assert!(matches!(
        AggregatorError::from(NotifierError::FailedToNotifyAccount),
        AggregatorError::FailedToNotifyNotifier(NotifierError::FailedToNotifyAccount)
    ));
    match AggregatorError::from(BcClientError::FailedToGetBlock("gone".to_string())) {
        AggregatorError::FailedBcClient(BcClientError::FailedToGetBlock(m)) => assert_eq!(m, "gone"),
        _ => panic!("expected the client error"),
    }
}

#[test]
fn pubkeys_compare_by_bytes() {
    assert!(key(1).equals(&key(1)));
    let mut b = [1u8; 32];
    b[31] = 2;
    assert!(!key(1).equals(&Pubkey::new_from_array(b)));
}

#[test]
fn storing_the_same_transaction_twice_keeps_one() {
    let mut db = InMemoryDatabase::new();
    db.store_transaction(tx("k", 1, 2, 3, 4)).unwrap();
    db.store_transaction(tx("k", 1, 2, 3, 4)).unwrap();
    let all = db.get_transactions().unwrap();
    assert_eq!(all.len(), 1);
    assert_eq!(all[0].id, "k");
}

#[test]
fn storing_a_transaction_leaves_accounts_alone() {
    let mut db = InMemoryDatabase::new();
    db.store_account(Account { address: key(4), balance: 1, last_slot_updated: 1 }).unwrap();
    db.store_transaction(tx("k", 1, 2, 3, 4)).unwrap();
    let accounts = db.get_accounts().unwrap();
    assert_eq!(accounts.len(), 1);
    assert_eq!(accounts[0].address.bytes, [4; 32]);
}
