use wallet_ledger::error::{LoadWarning, WalletError};
use wallet_ledger::models::{Timestamp, Transaction, TransactionType, WalletRecord};
use wallet_ledger::wallet_manager::{Persisted, WalletManager, WalletSummary};

fn entry(id: &str, kind: TransactionType, amount: i64) -> Transaction {
    Transaction {
        id: id.to_string(),
        transaction_type: kind,
        amount,
        description: "entry".to_string(),
        timestamp: Timestamp { seconds: 1_700_000_000, nanoseconds: 0 },
    }
}

fn record(name: &str, balance: i128, transactions: Vec<Transaction>) -> WalletRecord {
    WalletRecord { name: name.to_string(), balance, transactions }
}

fn alice_after_credit_and_debit() -> WalletManager {
    let mut manager = WalletManager::new();
    manager.create_wallet("alice".to_string()).unwrap();
    manager.credit_wallet("alice", 100, None).unwrap();
    manager.debit_wallet("alice", 40, None).unwrap();
    manager
}

#[test]
fn a_new_store_is_empty_and_kept_in_wallets_json() {
    let manager = WalletManager::new();
    assert_eq!(manager.data_file(), "wallets.json");
    assert_eq!(manager.list_wallets(), None);
    assert!(manager.records().is_empty());
}

#[test]
fn create_credit_debit_then_balance_and_history() {
    let mut manager = WalletManager::new();
    assert_eq!(manager.create_wallet("alice".to_string()), Ok(()));
    assert_eq!(manager.credit_wallet("alice", 100, None), Ok(100));
    assert_eq!(manager.debit_wallet("alice", 40, None), Ok(60));
    assert_eq!(manager.show_balance("alice"), Ok(60));
    let history = manager.show_history("alice").unwrap();
    assert_eq!(history.len(), 2);
    assert_eq!(history[0].running_balance, 100);
    assert_eq!(history[1].running_balance, 60);
    assert_eq!(history[0].transaction.transaction_type, TransactionType::Credit);
    assert_eq!(history[0].transaction.amount, 100);
    assert_eq!(history[0].transaction.description, "Credit transaction");
    assert_eq!(history[1].transaction.transaction_type, TransactionType::Debit);
    assert_eq!(history[1].transaction.amount, 40);
    assert_eq!(history[1].transaction.description, "Debit transaction");
}

#[test]
fn credit_to_a_wallet_that_was_never_created() {
    let mut manager = alice_after_credit_and_debit();
    let before = manager.records();
    assert_eq!(
        manager.credit_wallet("bob", 10, None),
        Err(WalletError::WalletNotFound("bob".to_string()))
    );
    assert_eq!(manager.records(), before);
}

#[test]
fn debit_beyond_the_balance_leaves_it_as_it_was() {
    let mut manager = alice_after_credit_and_debit();
    let before = manager.records();
    assert_eq!(manager.debit_wallet("alice", 1000, None), Err(WalletError::InsufficientFunds));
    assert_eq!(manager.show_balance("alice"), Ok(60));
    assert_eq!(manager.records(), before);
}

#[test]
fn creating_a_wallet_twice_fails_and_keeps_the_first() {
    let mut manager = alice_after_credit_and_debit();
    let before = manager.records();
    assert_eq!(
        manager.create_wallet("alice".to_string()),
        Err(WalletError::WalletAlreadyExists("alice".to_string()))
    );
    assert_eq!(manager.records(), before);
    assert_eq!(manager.show_balance("alice"), Ok(60));
    assert_eq!(manager.show_history("alice").unwrap().len(), 2);
}

#[test]
fn names_differ_by_case_and_by_space() {
    let mut manager = WalletManager::new();
    assert_eq!(manager.create_wallet("alice".to_string()), Ok(()));
    assert_eq!(manager.create_wallet("Alice".to_string()), Ok(()));
    assert_eq!(manager.create_wallet("alice ".to_string()), Ok(()));
    assert_eq!(manager.create_wallet("".to_string()), Ok(()));
    assert!(manager.create_wallet("".to_string()).is_err());
    assert_eq!(manager.list_wallets().unwrap().len(), 4);
}

#[test]
fn invalid_amounts_are_refused_by_the_store_too() {
    let mut manager = alice_after_credit_and_debit();
    let before = manager.records();
    assert_eq!(manager.credit_wallet("alice", 0, None), Err(WalletError::InvalidAmount));
    assert_eq!(manager.credit_wallet("alice", -5, None), Err(WalletError::InvalidAmount));
    assert_eq!(manager.debit_wallet("alice", 0, None), Err(WalletError::InvalidAmount));
    assert_eq!(manager.debit_wallet("alice", -5, None), Err(WalletError::InvalidAmount));
    assert_eq!(manager.records(), before);
}

#[test]
fn a_missing_wallet_is_reported_before_a_bad_amount() {
    let mut manager = WalletManager::new();
    assert_eq!(
        manager.credit_wallet("nobody", -1, None),
        Err(WalletError::WalletNotFound("nobody".to_string()))
    );
    assert_eq!(
        manager.debit_wallet("nobody", 0, None),
        Err(WalletError::WalletNotFound("nobody".to_string()))
    );
}

#[test]
fn balance_and_history_of_a_missing_wallet() {
    let manager = alice_after_credit_and_debit();
    assert_eq!(manager.show_balance("bob"), Err(WalletError::WalletNotFound("bob".to_string())));
    assert_eq!(
        manager.show_history("bob").unwrap_err(),
        WalletError::WalletNotFound("bob".to_string())
    );
}

#[test]
fn history_of_a_fresh_wallet_is_empty() {
    let mut manager = WalletManager::new();
    manager.create_wallet("fresh".to_string()).unwrap();
    assert_eq!(manager.show_history("fresh"), Ok(Vec::new()));
    assert_eq!(manager.show_balance("fresh"), Ok(0));
}

#[test]
fn operations_touch_only_the_wallet_they_name() {
    let mut manager = WalletManager::new();
    manager.create_wallet("a".to_string()).unwrap();
    manager.create_wallet("b".to_string()).unwrap();
    manager.create_wallet("c".to_string()).unwrap();
    assert_eq!(manager.credit_wallet("b", 700, Some("to b".to_string())), Ok(700));
    assert_eq!(manager.credit_wallet("c", 5, None), Ok(5));
    assert_eq!(manager.debit_wallet("b", 699, None), Ok(1));
    assert_eq!(manager.show_balance("a"), Ok(0));
    assert_eq!(manager.show_balance("b"), Ok(1));
    assert_eq!(manager.show_balance("c"), Ok(5));
    assert_eq!(manager.show_history("a").unwrap().len(), 0);
    assert_eq!(manager.show_history("b").unwrap().len(), 2);
    assert_eq!(manager.show_history("b").unwrap()[0].transaction.description, "to b");
}

#[test]
fn wallets_are_listed_in_the_order_of_their_creation() {
    let mut manager = WalletManager::new();
    manager.create_wallet("zoe".to_string()).unwrap();
    manager.create_wallet("adam".to_string()).unwrap();
    manager.credit_wallet("adam", 250, None).unwrap();
    assert_eq!(
        manager.list_wallets(),
        Some(vec![
            WalletSummary { name: "zoe".to_string(), balance: 0 },
            WalletSummary { name: "adam".to_string(), balance: 250 },
        ])
    );
}

#[test]
fn the_last_running_balance_is_the_stored_balance() {
    let mut manager = WalletManager::new();
    manager.create_wallet("w".to_string()).unwrap();
    let requests: [(TransactionType, i64); 6] = [
        (TransactionType::Credit, 500),
        (TransactionType::Debit, -1),
        (TransactionType::Debit, 120),
        (TransactionType::Credit, 0),
        (TransactionType::Debit, 9_000),
        (TransactionType::Credit, 3),
    ];
    for (kind, amount) in requests {
        let _ = match kind {
            TransactionType::Credit => manager.credit_wallet("w", amount, None),
            TransactionType::Debit => manager.debit_wallet("w", amount, None),
        };
        let history = manager.show_history("w").unwrap();
        let balance = manager.show_balance("w").unwrap();
        match history.last() {
            Some(last) => assert_eq!(last.running_balance, balance),
            None => assert_eq!(balance, 0),
        }
    }
    assert_eq!(manager.show_balance("w"), Ok(500 - 120 + 3));
    assert_eq!(manager.show_history("w").unwrap().len(), 3);
}

#[test]
fn a_missing_file_starts_an_empty_store_without_warning() {
    let mut manager = WalletManager::new();
    assert_eq!(manager.load_wallets(Persisted::Absent), None);
    assert_eq!(manager.list_wallets(), None);
}

#[test]
fn an_unreadable_file_starts_an_empty_store_with_a_warning() {
    let mut manager = WalletManager::new();
    assert_eq!(manager.load_wallets(Persisted::Unreadable), Some(LoadWarning::Unreadable));
    assert_eq!(manager.list_wallets(), None);
}

#[test]
fn a_malformed_file_starts_an_empty_store_with_a_warning() {
    let mut manager = WalletManager::new();
    assert_eq!(manager.load_wallets(Persisted::Malformed), Some(LoadWarning::Malformed));
    assert_eq!(manager.list_wallets(), None);
}

#[test]
fn records_are_taken_over_as_they_are() {
    let records = vec![
        record(
            "alice",
            6_000,
            vec![entry("1", TransactionType::Credit, 10_000), entry("2", TransactionType::Debit, 4_000)],
        ),
        record("bob", 0, Vec::new()),
    ];
    let mut manager = WalletManager::new();
    assert_eq!(manager.load_wallets(Persisted::Records(records)), None);
    assert_eq!(manager.data_file(), "wallets.json");
    assert_eq!(manager.show_balance("alice"), Ok(6_000));
    assert_eq!(manager.show_balance("bob"), Ok(0));
    let history = manager.show_history("alice").unwrap();
    assert_eq!(history[0].transaction, entry("1", TransactionType::Credit, 10_000));
    assert_eq!(history[1].transaction, entry("2", TransactionType::Debit, 4_000));
    assert_eq!(history[1].running_balance, 6_000);
    assert_eq!(manager.credit_wallet("bob", 1, None), Ok(1));
}

#[test]
fn no_records_make_an_empty_store() {
    let mut manager = WalletManager::new();
    assert_eq!(manager.load_wallets(Persisted::Records(Vec::new())), None);
    assert_eq!(manager.list_wallets(), None);
}

#[test]
fn records_with_a_name_twice_are_malformed() {
    let records = vec![record("a", 0, Vec::new()), record("b", 0, Vec::new()), record("a", 0, Vec::new())];
    let mut manager = WalletManager::new();
    assert_eq!(manager.load_wallets(Persisted::Records(records)), Some(LoadWarning::Malformed));
    assert_eq!(manager.list_wallets(), None);
}

#[test]
fn records_whose_balances_have_drifted_load_as_they_are() {
    let records = vec![
        record("a", 10, vec![entry("1", TransactionType::Credit, 10)]),
        record("b", 99, vec![entry("1", TransactionType::Credit, 10)]),
        record("c", 5, Vec::new()),
        record("d", -4, vec![entry("1", TransactionType::Debit, 4), entry("2", TransactionType::Credit, -1)]),
    ];
    let mut manager = WalletManager::new();
    assert_eq!(manager.load_wallets(Persisted::Records(records)), None);
    assert_eq!(manager.show_balance("a"), Ok(10));
    assert_eq!(manager.show_balance("b"), Ok(99));
    assert_eq!(manager.show_balance("c"), Ok(5));
    assert_eq!(manager.show_balance("d"), Ok(-4));
    assert_eq!(manager.show_history("b").unwrap()[0].running_balance, 10);
    assert_eq!(manager.show_history("c"), Ok(Vec::new()));
    let replayed: Vec<i128> =
        manager.show_history("d").unwrap().iter().map(|line| line.running_balance).collect();
    assert_eq!(replayed, vec![-4, -5]);
    assert_eq!(manager.credit_wallet("c", 1, None), Ok(6));
    assert_eq!(manager.debit_wallet("b", 100, None), Err(WalletError::InsufficientFunds));
    assert_eq!(manager.debit_wallet("b", 99, None), Ok(0));
}

#[test]
fn a_balance_that_cannot_be_carried_spoils_the_file() {
    let records = vec![record("a", 10, Vec::new()), record("b", i128::MAX, Vec::new())];
    let mut manager = WalletManager::new();
    assert_eq!(manager.load_wallets(Persisted::Records(records)), Some(LoadWarning::Malformed));
    assert_eq!(manager.list_wallets(), None);
}

#[test]
fn a_file_that_cannot_be_used_leaves_the_store_as_it_was() {
    let mut manager = alice_after_credit_and_debit();
    let before = manager.records();
    assert_eq!(manager.load_wallets(Persisted::Absent), None);
    assert_eq!(manager.records(), before);
    assert_eq!(manager.load_wallets(Persisted::Unreadable), Some(LoadWarning::Unreadable));
    assert_eq!(manager.records(), before);
    assert_eq!(manager.load_wallets(Persisted::Malformed), Some(LoadWarning::Malformed));
    assert_eq!(manager.records(), before);
    let twice = vec![record("a", 0, Vec::new()), record("a", 0, Vec::new())];
    assert_eq!(manager.load_wallets(Persisted::Records(twice)), Some(LoadWarning::Malformed));
    assert_eq!(manager.records(), before);
    assert_eq!(manager.show_balance("alice"), Ok(60));
}

#[test]
fn a_file_that_decodes_replaces_what_the_store_held() {
    let mut manager = alice_after_credit_and_debit();
    assert_eq!(manager.load_wallets(Persisted::Records(vec![record("bob", 0, Vec::new())])), None);
    assert!(manager.show_balance("alice").is_err());
    assert_eq!(manager.show_balance("bob"), Ok(0));
    assert_eq!(manager.load_wallets(Persisted::Records(Vec::new())), None);
    assert_eq!(manager.list_wallets(), None);
}

#[test]
fn what_a_store_writes_it_reads_back() {
    let mut manager = WalletManager::new();
    manager.create_wallet("alice".to_string()).unwrap();
    manager.create_wallet("bob".to_string()).unwrap();
    manager.credit_wallet("alice", 10_000, Some("salary".to_string())).unwrap();
    manager.debit_wallet("alice", 4_000, None).unwrap();
    manager.credit_wallet("bob", 1, None).unwrap();
    let written = manager.records();
    assert_eq!(written.len(), 2);
    assert_eq!(written[0].name, "alice");
    assert_eq!(written[0].balance, 6_000);
    assert_eq!(written[0].transactions.len(), 2);
    assert_eq!(written[1].name, "bob");

    let mut reloaded = WalletManager::new();
    assert_eq!(reloaded.load_wallets(Persisted::Records(written)), None);
    assert_eq!(reloaded.records(), manager.records());
    assert_eq!(reloaded.list_wallets(), manager.list_wallets());
    assert_eq!(reloaded.show_history("alice"), manager.show_history("alice"));
}

#[test]
fn error_messages() {
    assert_eq!(WalletError::InvalidAmount.message(), "Amount must be positive");
    assert_eq!(WalletError::InsufficientFunds.message(), "Insufficient funds");
    assert_eq!(
        WalletError::WalletAlreadyExists("alice".to_string()).message(),
        "Wallet 'alice' already exists"
    );
    assert_eq!(WalletError::WalletNotFound("bob".to_string()).message(), "Wallet 'bob' not found");
    assert_eq!(WalletError::PersistenceFailure("disk full".to_string()).message(), "disk full");
}

#[test]
fn persistence_failures_say_which_step_failed() {
    assert_eq!(
        WalletError::serialization_failed("key must be a string"),
        WalletError::PersistenceFailure("Failed to serialize wallets: key must be a string".to_string())
    );
    assert_eq!(
        WalletError::write_failed("permission denied").message(),
        "Failed to write wallets file: permission denied"
    );
}

#[test]
fn warning_messages() {
    assert_eq!(LoadWarning::Unreadable.message(), "Warning: Could not read wallets file");
    assert_eq!(LoadWarning::Malformed.message(), "Warning: Could not parse wallets file");
}

#[test]
fn a_loaded_wallet_cannot_be_created_again() {
    let mut manager = WalletManager::new();
    let records = vec![record("alice", 10, vec![entry("1", TransactionType::Credit, 10)])];
    assert_eq!(manager.load_wallets(Persisted::Records(records)), None);
    assert_eq!(
        manager.create_wallet("alice".to_string()),
        Err(WalletError::WalletAlreadyExists("alice".to_string()))
    );
    assert_eq!(manager.show_balance("alice"), Ok(10));
    assert_eq!(manager.debit_wallet("alice", 11, None), Err(WalletError::InsufficientFunds));
    assert_eq!(manager.debit_wallet("alice", 10, None), Ok(0));
}
