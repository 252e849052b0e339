use wallet_ledger::cli::{execute, Commands, Report};
use wallet_ledger::error::WalletError;
use wallet_ledger::models::TransactionType;
use wallet_ledger::wallet_manager::{WalletManager, WalletSummary};

fn create(name: &str) -> Commands {
    Commands::Create { name: name.to_string() }
}

fn credit(wallet: &str, amount: i64) -> Commands {
    Commands::Credit { wallet: wallet.to_string(), amount, description: None }
}

fn debit(wallet: &str, amount: i64) -> Commands {
    Commands::Debit { wallet: wallet.to_string(), amount, description: None }
}

#[test]
fn create_reports_the_new_wallet() {
    let mut manager = WalletManager::new();
    let report = execute(&mut manager, create("alice")).unwrap();
    assert_eq!(report, Report::Created { name: "alice".to_string() });
    assert!(report.calls_for_save());
    assert_eq!(manager.show_balance("alice"), Ok(0));
}

#[test]
fn create_twice_is_an_error() {
    let mut manager = WalletManager::new();
    execute(&mut manager, create("alice")).unwrap();
    assert_eq!(
        execute(&mut manager, create("alice")),
        Err(WalletError::WalletAlreadyExists("alice".to_string()))
    );
    assert_eq!(manager.list_wallets().unwrap().len(), 1);
}

#[test]
fn credit_and_debit_report_amount_and_new_balance() {
    let mut manager = WalletManager::new();
    execute(&mut manager, create("alice")).unwrap();
    let credited = execute(&mut manager, credit("alice", 10_000)).unwrap();
    assert_eq!(
        credited,
        Report::Credited { wallet: "alice".to_string(), amount: 10_000, balance: 10_000 }
    );
    assert!(credited.calls_for_save());
    let debited = execute(&mut manager, debit("alice", 4_000)).unwrap();
    assert_eq!(
        debited,
        Report::Debited { wallet: "alice".to_string(), amount: 4_000, balance: 6_000 }
    );
    assert!(debited.calls_for_save());
}

#[test]
fn the_description_of_a_command_is_recorded() {
    let mut manager = WalletManager::new();
    execute(&mut manager, create("alice")).unwrap();
    let command = Commands::Credit {
        wallet: "alice".to_string(),
        amount: 5,
        description: Some("pocket money".to_string()),
    };
    execute(&mut manager, command).unwrap();
    let history = manager.show_history("alice").unwrap();
    assert_eq!(history[0].transaction.description, "pocket money");
}

#[test]
fn failed_commands_leave_the_store_alone() {
    let mut manager = WalletManager::new();
    execute(&mut manager, create("alice")).unwrap();
    execute(&mut manager, credit("alice", 6_000)).unwrap();
    let before = manager.records();
    assert_eq!(
        execute(&mut manager, credit("bob", 1_000)),
        Err(WalletError::WalletNotFound("bob".to_string()))
    );
    assert_eq!(execute(&mut manager, credit("alice", 0)), Err(WalletError::InvalidAmount));
    assert_eq!(execute(&mut manager, debit("alice", -1)), Err(WalletError::InvalidAmount));
    assert_eq!(execute(&mut manager, debit("alice", 100_000)), Err(WalletError::InsufficientFunds));
    assert_eq!(manager.records(), before);
}

#[test]
fn balance_reads_without_changing() {
    let mut manager = WalletManager::new();
    execute(&mut manager, create("alice")).unwrap();
    execute(&mut manager, credit("alice", 6_000)).unwrap();
    let before = manager.records();
    let report = execute(&mut manager, Commands::Balance { wallet: "alice".to_string() }).unwrap();
    assert_eq!(report, Report::Balance { wallet: "alice".to_string(), balance: 6_000 });
    assert!(!report.calls_for_save());
    assert_eq!(manager.records(), before);
    assert_eq!(
        execute(&mut manager, Commands::Balance { wallet: "bob".to_string() }),
        Err(WalletError::WalletNotFound("bob".to_string()))
    );
}

#[test]
fn history_reads_without_changing() {
    let mut manager = WalletManager::new();
    execute(&mut manager, create("alice")).unwrap();
    execute(&mut manager, credit("alice", 10_000)).unwrap();
    execute(&mut manager, debit("alice", 4_000)).unwrap();
    let before = manager.records();
    let report = execute(&mut manager, Commands::History { wallet: "alice".to_string() }).unwrap();
    assert!(!report.calls_for_save());
    match report {
        Report::History { wallet, entries } => {
            assert_eq!(wallet, "alice");
            assert_eq!(entries.len(), 2);
            assert_eq!(entries[0].transaction.transaction_type, TransactionType::Credit);
            assert_eq!(entries[0].running_balance, 10_000);
            assert_eq!(entries[1].transaction.transaction_type, TransactionType::Debit);
            assert_eq!(entries[1].running_balance, 6_000);
        },
        other => panic!("unexpected report {:?}", other),
    }
    assert_eq!(manager.records(), before);
    assert_eq!(
        execute(&mut manager, Commands::History { wallet: "bob".to_string() }),
        Err(WalletError::WalletNotFound("bob".to_string()))
    );
}

#[test]
fn list_tells_an_empty_store_from_a_full_one() {
    let mut manager = WalletManager::new();
    let empty = execute(&mut manager, Commands::List).unwrap();
    assert_eq!(empty, Report::NoWallets);
    assert!(!empty.calls_for_save());
    execute(&mut manager, create("alice")).unwrap();
    execute(&mut manager, create("bob")).unwrap();
    execute(&mut manager, credit("bob", 12)).unwrap();
    let full = execute(&mut manager, Commands::List).unwrap();
    assert_eq!(
        full,
        Report::Wallets(vec![
            WalletSummary { name: "alice".to_string(), balance: 0 },
            WalletSummary { name: "bob".to_string(), balance: 12 },
        ])
    );
    assert!(!full.calls_for_save());
}

#[test]
fn history_of_a_wallet_without_transactions_is_empty() {
    let mut manager = WalletManager::new();
    execute(&mut manager, create("fresh")).unwrap();
    let report = execute(&mut manager, Commands::History { wallet: "fresh".to_string() }).unwrap();
    assert_eq!(report, Report::History { wallet: "fresh".to_string(), entries: Vec::new() });
}
