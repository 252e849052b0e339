//! The commands of the ledger, and what each of them does to a store.

use vstd::prelude::*;
use crate::error::WalletError;
use crate::ledger::WalletView;
use crate::models::{is_history_of, optional_text, HistoryEntry, Timestamp};
use crate::wallet_manager::{
    all_valid, has_wallet, lists, storable, wallet_index, WalletManager, WalletSummary,
};

verus! {

/// One command, as the user gave it. Amounts are whole numbers of the
/// smallest unit of the currency.
#[derive(Debug, PartialEq, Eq)]
pub enum Commands {
    Create { name: String },
    Credit { wallet: String, amount: i64, description: Option<String> },
    Debit { wallet: String, amount: i64, description: Option<String> },
    Balance { wallet: String },
    History { wallet: String },
    List,
}

/// What a command that succeeded has to tell the user.
#[derive(Debug, PartialEq, Eq)]
pub enum Report {
    /// A wallet of this name was created.
    Created { name: String },
    /// `amount` was added to the wallet, which now holds `balance`.
    Credited { wallet: String, amount: i64, balance: i128 },
    /// `amount` was taken from the wallet, which now holds `balance`.
    Debited { wallet: String, amount: i64, balance: i128 },
    /// The wallet holds `balance`.
    Balance { wallet: String, balance: i128 },
    /// The wallet's transactions, oldest first, with the running balance.
    History { wallet: String, entries: Vec<HistoryEntry> },
    /// The wallets of the store, of which there is at least one.
    Wallets(Vec<WalletSummary>),
    /// The store has no wallet yet.
    NoWallets,
}

impl Report {
    /// Whether the command changed the store, so that the store has to be
    /// written out again.
    pub open spec fn changed_store(&self) -> bool {
        self is Created || self is Credited || self is Debited
    }

    /// Whether the command changed the store, so that the store has to be
    /// written out again.
    pub fn calls_for_save(&self) -> (save: bool)
        ensures
            save == self.changed_store(),
    {
        match self {
            Report::Created { .. } => true,
            Report::Credited { .. } => true,
            Report::Debited { .. } => true,
            _ => false,
        }
    }
}

/// Carries out `command` on the store. A command that fails leaves the
/// store as it was; only `Create`, `Credit` and `Debit` ever change it.
pub fn execute(manager: &mut WalletManager, command: Commands) -> (result: Result<
    Report,
    WalletError,
>)
    ensures
        storable(final(manager)@),
        all_valid(old(manager)@) ==> all_valid(final(manager)@),
        final(manager).file_name() == old(manager).file_name(),
        result is Err ==> final(manager)@ == old(manager)@,
        result matches Ok(report) ==> (report.changed_store() || final(manager)@ == old(manager)@),
        match command {
            Commands::Create { name } => {
                if has_wallet(old(manager)@, name@) {
                    result matches Err(WalletError::WalletAlreadyExists(taken)) && taken@ == name@
                } else {
                    &&& result matches Ok(Report::Created { name: created }) && created@ == name@
                    &&& final(manager)@ == old(manager)@.push(WalletView::empty(name@))
                }
            },
            Commands::Credit { wallet, amount, description } => {
                let i = wallet_index(old(manager)@, wallet@);
                if !has_wallet(old(manager)@, wallet@) {
                    result matches Err(WalletError::WalletNotFound(missing)) && missing@ == wallet@
                } else if amount <= 0 {
                    result matches Err(WalletError::InvalidAmount)
                } else {
                    &&& result matches Ok(Report::Credited { wallet: w, amount: a, balance: b })
                        && w@ == wallet@ && a == amount && b == old(manager)@[i].balance + amount
                    &&& exists|nanos: Option<i64>, at: Timestamp|
                        final(manager)@ == old(manager)@.update(
                            i,
                            #[trigger] old(manager)@[i].credited(
                                amount as int,
                                optional_text(description),
                                nanos,
                                at,
                            ),
                        )
                }
            },
            Commands::Debit { wallet, amount, description } => {
                let i = wallet_index(old(manager)@, wallet@);
                if !has_wallet(old(manager)@, wallet@) {
                    result matches Err(WalletError::WalletNotFound(missing)) && missing@ == wallet@
                } else if amount <= 0 {
                    result matches Err(WalletError::InvalidAmount)
                } else if amount > old(manager)@[i].balance {
                    result matches Err(WalletError::InsufficientFunds)
                } else {
                    &&& result matches Ok(Report::Debited { wallet: w, amount: a, balance: b })
                        && w@ == wallet@ && a == amount && b == old(manager)@[i].balance - amount
                    &&& exists|nanos: Option<i64>, at: Timestamp|
                        final(manager)@ == old(manager)@.update(
                            i,
                            #[trigger] old(manager)@[i].debited(
                                amount as int,
                                optional_text(description),
                                nanos,
                                at,
                            ),
                        )
                }
            },
            Commands::Balance { wallet } => {
                if !has_wallet(old(manager)@, wallet@) {
                    result matches Err(WalletError::WalletNotFound(missing)) && missing@ == wallet@
                } else {
                    result matches Ok(Report::Balance { wallet: w, balance: b }) && w@ == wallet@
                        && b == old(manager)@[wallet_index(old(manager)@, wallet@)].balance
                }
            },
            Commands::History { wallet } => {
                if !has_wallet(old(manager)@, wallet@) {
                    result matches Err(WalletError::WalletNotFound(missing)) && missing@ == wallet@
                } else {
                    let found = old(manager)@[wallet_index(old(manager)@, wallet@)];
                    result matches Ok(Report::History { wallet: w, entries }) && w@ == wallet@
                        && is_history_of(entries@, found.transactions) && (found.valid()
                        && entries@.len() > 0 ==> entries@.last().running_balance
                        == found.balance)
                }
            },
            Commands::List => {
                if old(manager)@.len() == 0 {
                    result matches Ok(Report::NoWallets)
                } else {
                    result matches Ok(Report::Wallets(lines)) && lists(lines@, old(manager)@)
                }
            },
        },
{
    match command {
        Commands::Create { name } => {
            let created = name.clone();
            match manager.create_wallet(name) {
                Ok(()) => Ok(Report::Created { name: created }),
                Err(error) => Err(error),
            }
        },
        Commands::Credit { wallet, amount, description } => {
            match manager.credit_wallet(wallet.as_str(), amount, description) {
                Ok(balance) => Ok(Report::Credited { wallet, amount, balance }),
                Err(error) => Err(error),
            }
        },
        Commands::Debit { wallet, amount, description } => {
            match manager.debit_wallet(wallet.as_str(), amount, description) {
                Ok(balance) => Ok(Report::Debited { wallet, amount, balance }),
                Err(error) => Err(error),
            }
        },
        Commands::Balance { wallet } => {
            match manager.show_balance(wallet.as_str()) {
                Ok(balance) => Ok(Report::Balance { wallet, balance }),
                Err(error) => Err(error),
            }
        },
        Commands::History { wallet } => {
            match manager.show_history(wallet.as_str()) {
                Ok(entries) => Ok(Report::History { wallet, entries }),
                Err(error) => Err(error),
            }
        },
        Commands::List => {
            match manager.list_wallets() {
                Some(lines) => Ok(Report::Wallets(lines)),
                None => Ok(Report::NoWallets),
            }
        },
    }
}

} // verus!
