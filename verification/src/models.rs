//! Wallets and the transactions that make up their history.

use vstd::prelude::*;
use vstd::string::StringExecFns;
use crate::clock::read_clock;
use crate::decimal::int_to_string;
use crate::error::WalletError;
use crate::ledger::{
    description_text, lemma_empty_wallet_valid, lemma_history_ends_at_balance,
    lemma_net_balance_bounded, lemma_net_balance_empty, lemma_net_balance_step, lemma_valid_push,
    net_balance, running_balances, transaction_id_text, Request, TransactionView, WalletView,
};

verus! {

/// A point in time (UTC): whole seconds since 1970-01-01T00:00:00Z, and the
/// nanoseconds into that second.
#[derive(Clone, Copy, Debug, PartialEq, Eq, Structural)]
pub struct Timestamp {
    pub seconds: i64,
    pub nanoseconds: u32,
}

/// Whether a transaction adds to the balance or takes from it.
#[derive(Clone, Copy, Debug, PartialEq, Eq, Structural)]
pub enum TransactionType {
    Credit,
    Debit,
}

/// One entry of a wallet's history. Amounts are whole numbers of the
/// smallest unit of the currency.
#[derive(Debug, PartialEq, Eq)]
pub struct Transaction {
    pub id: String,
    pub transaction_type: TransactionType,
    pub amount: i64,
    pub description: String,
    pub timestamp: Timestamp,
}

impl View for Transaction {
    type V = TransactionView;

    open spec fn view(&self) -> TransactionView {
        TransactionView {
            id: self.id@,
            transaction_type: self.transaction_type,
            amount: self.amount as int,
            description: self.description@,
            timestamp: self.timestamp,
        }
    }
}

impl Clone for Transaction {
    fn clone(&self) -> (copy: Self)
        ensures
            copy@ == self@,
    {
        Transaction {
            id: self.id.clone(),
            transaction_type: self.transaction_type,
            amount: self.amount,
            description: self.description.clone(),
            timestamp: self.timestamp,
        }
    }
}

/// The views of a sequence of transactions, in the same order.
pub open spec fn transaction_views(transactions: Seq<Transaction>) -> Seq<TransactionView> {
    transactions.map_values(|t: Transaction| t@)
}

/// The view of an optional string.
pub open spec fn optional_text(text: Option<String>) -> Option<Seq<char>> {
    match text {
        Some(s) => Some(s@),
        None => None,
    }
}

/// A wallet as it is written out and read back: the same three values,
/// with nothing checked about them.
#[derive(Debug, PartialEq, Eq)]
pub struct WalletRecord {
    pub name: String,
    pub balance: i128,
    pub transactions: Vec<Transaction>,
}

impl View for WalletRecord {
    type V = WalletView;

    open spec fn view(&self) -> WalletView {
        WalletView {
            name: self.name@,
            balance: self.balance as int,
            transactions: transaction_views(self.transactions@),
        }
    }
}

/// One line of a wallet's history: a transaction and the balance that
/// replaying the history up to and including it arrives at.
#[derive(Debug, PartialEq, Eq)]
pub struct HistoryEntry {
    pub transaction: Transaction,
    pub running_balance: i128,
}

/// Whether `entries` is the history of `log`: one entry for each
/// transaction, in order, each with the balance that replaying the log up to
/// and including it arrives at.
pub open spec fn is_history_of(entries: Seq<HistoryEntry>, log: Seq<TransactionView>) -> bool {
    &&& entries.len() == log.len()
    &&& forall|i: int| 0 <= i < entries.len() ==> (#[trigger] entries[i]).transaction@ == log[i]
    &&& forall|i: int|
        0 <= i < entries.len() ==> (#[trigger] entries[i]).running_balance as int
            == running_balances(log)[i]
}

/// A copy of `transactions`, entry by entry.
fn copy_transactions(transactions: &Vec<Transaction>) -> (copy: Vec<Transaction>)
    ensures
        transaction_views(copy@) == transaction_views(transactions@),
{
    let mut copy: Vec<Transaction> = Vec::new();
    let mut i: usize = 0;
    while i < transactions.len()
        invariant
            0 <= i <= transactions@.len(),
            copy@.len() == i,
            forall|j: int| 0 <= j < i ==> (#[trigger] copy@[j])@ == transactions@[j]@,
        decreases transactions@.len() - i,
    {
        copy.push(transactions[i].clone());
        i = i + 1;
    }
    copy
}

/// A named wallet: a balance and a history. A wallet that credits and
/// debits have built from nothing is valid: its balance is what its history
/// adds up to. One that was read from storage holds what the record held,
/// and credits and debits go by its stored balance.
pub struct Wallet {
    name: String,
    balance: i128,
    transactions: Vec<Transaction>,
}

impl View for Wallet {
    type V = WalletView;

    closed spec fn view(&self) -> WalletView {
        WalletView {
            name: self.name@,
            balance: self.balance as int,
            transactions: transaction_views(self.transactions@),
        }
    }
}

impl Wallet {
    #[verifier::type_invariant]
    spec fn well_formed(self) -> bool {
        self@.within_limits()
    }

    /// A wallet with no money and no history.
    pub fn new(name: String) -> (wallet: Self)
        ensures
            wallet@ == WalletView::empty(name@),
            wallet@.valid(),
    {
        let wallet = Wallet { name, balance: 0, transactions: Vec::new() };
        proof {
            assert(transaction_views(wallet.transactions@) =~= Seq::empty());
            lemma_empty_wallet_valid(name@);
        }
        wallet
    }

    /// The wallet's name.
    pub fn name(&self) -> (name: &String)
        ensures
            name@ == self@.name,
    {
        &self.name
    }

    /// The current balance.
    pub fn balance(&self) -> (balance: i128)
        ensures
            balance == self@.balance,
            self@.within_limits(),
    {
        proof {
            use_type_invariant(self);
        }
        self.balance
    }

    /// The history, oldest transaction first.
    pub fn transactions(&self) -> (transactions: &Vec<Transaction>)
        ensures
            transaction_views(transactions@) == self@.transactions,
    {
        &self.transactions
    }
    /// The identifier of a transaction made at the clock reading `nanos`.
    pub fn transaction_id(nanos: Option<i64>) -> (id: String)
        ensures
            id@ == transaction_id_text(nanos),
    {
        match nanos {
            Some(n) => int_to_string(n),
            None => int_to_string(0),
        }
    }

    /// The description to record: the one given, or the standard text.
    fn description_for(kind: TransactionType, given: Option<String>) -> (text: String)
        ensures
            text@ == description_text(kind, optional_text(given)),
    {
        match given {
            Some(text) => text,
            None => match kind {
                TransactionType::Credit => String::from_str("Credit transaction"),
                TransactionType::Debit => String::from_str("Debit transaction"),
            },
        }
    }

    /// Credits the wallet as `credit` does, with the clock readings handed
    /// in: `nanos` makes the identifier, `at` is the time recorded.
    pub fn credit_at(
        &mut self,
        amount: i64,
        description: Option<String>,
        nanos: Option<i64>,
        at: Timestamp,
    ) -> (result: Result<(), WalletError>)
        ensures
            amount <= 0 ==> result == Err::<(), WalletError>(WalletError::InvalidAmount)
                && final(self)@ == old(self)@,
            amount > 0 ==> result is Ok && final(self)@ == old(self)@.credited(
                amount as int,
                optional_text(description),
                nanos,
                at,
            ),
            final(self)@ == old(self)@.after(
                (Request {
                    kind: TransactionType::Credit,
                    amount: amount as int,
                    description: optional_text(description),
                    nanos,
                    at,
                }),
            ),
            old(self)@.valid() ==> final(self)@.valid(),
            final(self)@.within_limits(),
    {
        proof {
            use_type_invariant(&*self);
        }
        if amount <= 0 {
            return Err(WalletError::InvalidAmount);
        }
        let transaction = Transaction {
            id: Self::transaction_id(nanos),
            transaction_type: TransactionType::Credit,
            amount,
            description: Self::description_for(TransactionType::Credit, description),
            timestamp: at,
        };
        self.append(transaction);
        Ok(())
    }

    /// Debits the wallet as `debit` does, with the clock readings handed in:
    /// `nanos` makes the identifier, `at` is the time recorded.
    pub fn debit_at(
        &mut self,
        amount: i64,
        description: Option<String>,
        nanos: Option<i64>,
        at: Timestamp,
    ) -> (result: Result<(), WalletError>)
        ensures
            amount <= 0 ==> result == Err::<(), WalletError>(WalletError::InvalidAmount)
                && final(self)@ == old(self)@,
            0 < amount && amount > old(self)@.balance ==> result == Err::<(), WalletError>(
                WalletError::InsufficientFunds,
            ) && final(self)@ == old(self)@,
            0 < amount <= old(self)@.balance ==> result is Ok && final(self)@ == old(self)@.debited(
                amount as int,
                optional_text(description),
                nanos,
                at,
            ),
            final(self)@ == old(self)@.after(
                (Request {
                    kind: TransactionType::Debit,
                    amount: amount as int,
                    description: optional_text(description),
                    nanos,
                    at,
                }),
            ),
            old(self)@.valid() ==> final(self)@.valid(),
            final(self)@.within_limits(),
    {
        proof {
            use_type_invariant(&*self);
        }
        if amount <= 0 {
            return Err(WalletError::InvalidAmount);
        }
        if self.balance < amount as i128 {
            return Err(WalletError::InsufficientFunds);
        }
        let transaction = Transaction {
            id: Self::transaction_id(nanos),
            transaction_type: TransactionType::Debit,
            amount,
            description: Self::description_for(TransactionType::Debit, description),
            timestamp: at,
        };
        self.append(transaction);
        Ok(())
    }

    /// Adds `amount` to the balance and records the credit with a fresh
    /// identifier and the current time. An amount of zero or less is refused
    /// with `InvalidAmount` and changes nothing.
    pub fn credit(&mut self, amount: i64, description: Option<String>) -> (result: Result<
        (),
        WalletError,
    >)
        ensures
            amount <= 0 ==> result == Err::<(), WalletError>(WalletError::InvalidAmount)
                && final(self)@ == old(self)@,
            amount > 0 ==> result is Ok && exists|nanos: Option<i64>, at: Timestamp|
                final(self)@ == #[trigger] old(self)@.credited(
                    amount as int,
                    optional_text(description),
                    nanos,
                    at,
                ),
            old(self)@.valid() ==> final(self)@.valid(),
            final(self)@.within_limits(),
    {
        proof {
            use_type_invariant(&*self);
        }
        if amount <= 0 {
            return Err(WalletError::InvalidAmount);
        }
        let (nanos, at) = read_clock();
        self.credit_at(amount, description, nanos, at)
    }

    /// Takes `amount` from the balance and records the debit with a fresh
    /// identifier and the current time. An amount of zero or less is refused
    /// with `InvalidAmount`, one above the balance with `InsufficientFunds`;
    /// a refusal changes nothing.
    pub fn debit(&mut self, amount: i64, description: Option<String>) -> (result: Result<
        (),
        WalletError,
    >)
        ensures
            amount <= 0 ==> result == Err::<(), WalletError>(WalletError::InvalidAmount)
                && final(self)@ == old(self)@,
            0 < amount && amount > old(self)@.balance ==> result == Err::<(), WalletError>(
                WalletError::InsufficientFunds,
            ) && final(self)@ == old(self)@,
            0 < amount <= old(self)@.balance ==> result is Ok && exists|
                nanos: Option<i64>,
                at: Timestamp,
            |
                final(self)@ == #[trigger] old(self)@.debited(
                    amount as int,
                    optional_text(description),
                    nanos,
                    at,
                ),
            old(self)@.valid() ==> final(self)@.valid(),
            final(self)@.within_limits(),
    {
        proof {
            use_type_invariant(&*self);
        }
        if amount <= 0 {
            return Err(WalletError::InvalidAmount);
        }
        if self.balance < amount as i128 {
            return Err(WalletError::InsufficientFunds);
        }
        let (nanos, at) = read_clock();
        self.debit_at(amount, description, nanos, at)
    }

    /// Takes a record read from storage as a wallet, whatever its balance
    /// and history say of each other. The one record that is refused is one
    /// whose balance is beyond what the arithmetic can carry.
    pub fn from_record(record: WalletRecord) -> (wallet: Option<Wallet>)
        ensures
            wallet is Some <==> record@.within_limits(),
            wallet is Some ==> wallet.unwrap()@ == record@,
    {
        let count: usize = record.transactions.len();
        let limit: i128 = (count as i128 + 1) * (i64::MAX as i128);
        if -limit <= record.balance && record.balance <= limit {
            Some(
                Wallet {
                    name: record.name,
                    balance: record.balance,
                    transactions: record.transactions,
                },
            )
        } else {
            None
        }
    }

    /// The wallet as a record to write out.
    pub fn to_record(&self) -> (record: WalletRecord)
        ensures
            record@ == self@,
            record@.within_limits(),
    {
        proof {
            use_type_invariant(self);
        }
        WalletRecord {
            name: self.name.clone(),
            balance: self.balance,
            transactions: copy_transactions(&self.transactions),
        }
    }

    /// The history with its running balance: one entry for each transaction,
    /// oldest first. The running balance is recomputed by replay from zero,
    /// credits added and debits taken off, and owes nothing to the stored
    /// balance; for a valid wallet the last one is the stored balance.
    pub fn history(&self) -> (entries: Vec<HistoryEntry>)
        ensures
            is_history_of(entries@, self@.transactions),
            self@.valid() && entries@.len() > 0 ==> entries@.last().running_balance
                == self@.balance,
    {
        let ghost log = self@.transactions;
        let mut entries: Vec<HistoryEntry> = Vec::new();
        let mut running: i128 = 0;
        let mut i: usize = 0;
        proof {
            assert(log.take(0) =~= Seq::<TransactionView>::empty());
            lemma_net_balance_empty();
        }
        while i < self.transactions.len()
            invariant
                log == transaction_views(self.transactions@),
                0 <= i <= self.transactions@.len(),
                entries@.len() == i,
                running == net_balance(log.take(i as int)),
                forall|j: int| 0 <= j < i ==> (#[trigger] entries@[j]).transaction@ == log[j],
                forall|j: int|
                    0 <= j < i ==> (#[trigger] entries@[j]).running_balance as int == net_balance(
                        log.take(j + 1),
                    ),
            decreases self.transactions@.len() - i,
        {
            let transaction = &self.transactions[i];
            proof {
                // Each step moves the running balance by one amount, and the
                // history fits in memory: the running balance fits in 128 bits.
                lemma_net_balance_step(log, i as int);
                lemma_net_balance_bounded(log.take(i as int));
                lemma_net_balance_bounded(log.take(i + 1));
                assert(self.transactions.len() == self.transactions@.len());
            }
            running = match transaction.transaction_type {
                TransactionType::Credit => running + transaction.amount as i128,
                TransactionType::Debit => running - transaction.amount as i128,
            };
            entries.push(HistoryEntry { transaction: transaction.clone(), running_balance: running });
            i = i + 1;
        }
        proof {
            if self@.valid() {
                lemma_history_ends_at_balance(self@);
            }
        }
        entries
    }

    /// Moves the wallet out and leaves an empty, nameless one in its place.
    fn take(&mut self) -> (taken: Wallet)
        ensures
            taken == *old(self),
    {
        let mut taken = Wallet::new(String::new());
        core::mem::swap(self, &mut taken);
        taken
    }

    /// Appends a transaction that the rules have accepted, and moves the
    /// balance by its amount.
    fn append(&mut self, transaction: Transaction)
        requires
            transaction.amount > 0,
            transaction.transaction_type is Debit ==> transaction.amount <= old(self)@.balance,
        ensures
            final(self)@ == old(self)@.with_entry(transaction@),
            old(self)@.valid() ==> final(self)@.valid(),
            final(self)@.within_limits(),
    {
        let taken = self.take();
        proof {
            use_type_invariant(&taken);
            if taken@.valid() {
                lemma_valid_push(taken@, transaction@);
            }
            assert(transaction_views(taken.transactions@.push(transaction)) =~= transaction_views(
                taken.transactions@,
            ).push(transaction@));
        }
        let Wallet { name, balance, mut transactions } = taken;
        proof {
            // The history fits in memory, which keeps the new balance within 128 bits.
            assert(transactions.len() == transactions@.len());
        }
        let balance = match transaction.transaction_type {
            TransactionType::Credit => balance + transaction.amount as i128,
            TransactionType::Debit => balance - transaction.amount as i128,
        };
        transactions.push(transaction);
        *self = Wallet { name, balance, transactions };
    }
}

} // verus!
