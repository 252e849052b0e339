//! The store: every wallet, found by its name.

use vstd::prelude::*;
use vstd::string::StringExecFns;
use crate::error::{LoadWarning, WalletError};
use crate::ledger::WalletView;
use crate::models::{is_history_of, optional_text, HistoryEntry, Timestamp, Wallet, WalletRecord};

verus! {

/// Whether one of `wallets` goes by `name`.
pub open spec fn has_wallet(wallets: Seq<WalletView>, name: Seq<char>) -> bool {
    exists|i: int| 0 <= i < wallets.len() && (#[trigger] wallets[i]).name == name
}

/// Where the wallet called `name` stands in `wallets`, if one of them goes
/// by that name.
pub open spec fn wallet_index(wallets: Seq<WalletView>, name: Seq<char>) -> int {
    choose|i: int| 0 <= i < wallets.len() && (#[trigger] wallets[i]).name == name
}

/// No two of `wallets` share a name.
pub open spec fn distinct_names(wallets: Seq<WalletView>) -> bool {
    forall|i: int, j: int|
        0 <= i < j < wallets.len() ==> (#[trigger] wallets[i]).name != (#[trigger] wallets[j]).name
}

/// What holds of every store, and what records have to meet to be taken for
/// one: names are unique, and each balance is one that the arithmetic can
/// carry. Nothing is asked of what a balance and its history say of each
/// other.
pub open spec fn storable(wallets: Seq<WalletView>) -> bool {
    &&& distinct_names(wallets)
    &&& forall|i: int| 0 <= i < wallets.len() ==> (#[trigger] wallets[i]).within_limits()
}

/// Each of `wallets` is valid: its balance is what its history adds up to.
pub open spec fn all_valid(wallets: Seq<WalletView>) -> bool {
    forall|i: int| 0 <= i < wallets.len() ==> (#[trigger] wallets[i]).valid()
}

/// The views of a sequence of wallets, in the same order.
pub open spec fn wallet_views(wallets: Seq<Wallet>) -> Seq<WalletView> {
    wallets.map_values(|w: Wallet| w@)
}

/// The views of a sequence of records, in the same order.
pub open spec fn record_views(records: Seq<WalletRecord>) -> Seq<WalletView> {
    records.map_values(|r: WalletRecord| r@)
}

/// In a store with unique names, the wallet found under a name is the only
/// one of that name.
pub proof fn lemma_wallet_index_unique(wallets: Seq<WalletView>, i: int)
    requires
        distinct_names(wallets),
        0 <= i < wallets.len(),
    ensures
        has_wallet(wallets, wallets[i].name),
        wallet_index(wallets, wallets[i].name) == i,
{
    let j = wallet_index(wallets, wallets[i].name);
    assert(0 <= j < wallets.len() && wallets[j].name == wallets[i].name);
}

/// One line of the list of wallets.
#[derive(Debug, PartialEq, Eq)]
pub struct WalletSummary {
    pub name: String,
    pub balance: i128,
}

/// Whether `lines` lists `wallets`: one line for each wallet, in order, with
/// its name and its balance.
pub open spec fn lists(lines: Seq<WalletSummary>, wallets: Seq<WalletView>) -> bool {
    &&& lines.len() == wallets.len()
    &&& forall|i: int|
        0 <= i < lines.len() ==> (#[trigger] lines[i]).name@ == wallets[i].name && lines[i].balance
            == wallets[i].balance
}

/// What was found where the store is kept, as far as the caller could read
/// and decode it.
#[derive(Debug, PartialEq, Eq)]
pub enum Persisted {
    /// There is no file: nothing was ever saved.
    Absent,
    /// There is a file, but it could not be read.
    Unreadable,
    /// The file was read, but its text does not describe a store.
    Malformed,
    /// The wallets that the file describes.
    Records(Vec<WalletRecord>),
}

impl Persisted {
    /// The wallets of a store after finding this, where it held `before`:
    /// those of the file, as they are, if the store can take them over;
    /// otherwise those it held. A store that is new held none.
    pub open spec fn loaded(self, before: Seq<WalletView>) -> Seq<WalletView> {
        match self {
            Persisted::Records(records) => {
                if storable(record_views(records@)) {
                    record_views(records@)
                } else {
                    before
                }
            },
            _ => before,
        }
    }

    /// The warning that finding this calls for. A missing file is no cause
    /// for one; a file that cannot be used is.
    pub open spec fn warning(self) -> Option<LoadWarning> {
        match self {
            Persisted::Absent => None,
            Persisted::Unreadable => Some(LoadWarning::Unreadable),
            Persisted::Malformed => Some(LoadWarning::Malformed),
            Persisted::Records(records) => {
                if storable(record_views(records@)) {
                    None
                } else {
                    Some(LoadWarning::Malformed)
                }
            },
        }
    }
}

/// What a store writes out is what it reads back: the records of a store
/// load as the same wallets, in the same order, each with its name, balance
/// and history, and without a warning, whatever the store held before.
pub proof fn lemma_records_load_back(records: Vec<WalletRecord>, before: Seq<WalletView>)
    requires
        storable(record_views(records@)),
    ensures
        Persisted::Records(records).loaded(before) == record_views(records@),
        Persisted::Records(records).warning() is None,
{
}

/// Records with unique names load as they are, whatever their balances and
/// histories say of each other, as long as each balance lies no further
/// from zero than the largest amount.
pub proof fn lemma_records_load_as_they_are(records: Vec<WalletRecord>, before: Seq<WalletView>)
    requires
        distinct_names(record_views(records@)),
        forall|i: int|
            0 <= i < records@.len() ==> i64::MIN < (#[trigger] records@[i]).balance <= i64::MAX,
    ensures
        Persisted::Records(records).loaded(before) == record_views(records@),
        Persisted::Records(records).warning() is None,
{
    let found = record_views(records@);
    assert forall|i: int| 0 <= i < found.len() implies (#[trigger] found[i]).within_limits() by {
        let record = records@[i];
        assert(found[i] == record@);
        assert((record@.transactions.len() + 1) * i64::MAX >= i64::MAX) by (nonlinear_arith)
            requires
                record@.transactions.len() >= 0,
        ;
    }
}

/// Where the first of `wallets` that goes by `name` stands, if one does.
fn position_of(wallets: &Vec<Wallet>, name: &str) -> (found: Option<usize>)
    ensures
        found is Some <==> has_wallet(wallet_views(wallets@), name@),
        found matches Some(i) ==> i < wallets@.len() && wallet_views(wallets@)[i as int].name
            == name@,
{
    let key = String::from_str(name);
    let mut i: usize = 0;
    while i < wallets.len()
        invariant
            0 <= i <= wallets@.len(),
            key@ == name@,
            forall|j: int| 0 <= j < i ==> (#[trigger] wallet_views(wallets@)[j]).name != name@,
        decreases wallets@.len() - i,
    {
        if *wallets[i].name() == key {
            assert(wallet_views(wallets@)[i as int].name == name@);
            return Some(i);
        }
        i = i + 1;
    }
    None
}

/// The wallets of one user, kept in the order in which they were created,
/// and the name of the file that the store is written to.
pub struct WalletManager {
    wallets: Vec<Wallet>,
    data_file: String,
}

impl View for WalletManager {
    type V = Seq<WalletView>;

    closed spec fn view(&self) -> Seq<WalletView> {
        wallet_views(self.wallets@)
    }
}

impl WalletManager {
    #[verifier::type_invariant]
    spec fn well_formed(self) -> bool {
        storable(self@)
    }

    /// The name of the file that the store is written to.
    pub closed spec fn file_name(&self) -> Seq<char> {
        self.data_file@
    }

    /// An empty store that is kept in `wallets.json`.
    pub fn new() -> (manager: Self)
        ensures
            manager@ == Seq::<WalletView>::empty(),
            manager.file_name() == "wallets.json"@,
    {
        WalletManager { wallets: Vec::new(), data_file: String::from_str("wallets.json") }
    }

    /// The name of the file that the store is written to.
    pub fn data_file(&self) -> (name: &String)
        ensures
            name@ == self.file_name(),
    {
        &self.data_file
    }

    /// Where the wallet called `name` stands, if there is one.
    fn find(&self, name: &str) -> (found: Option<usize>)
        ensures
            storable(self@),
            found is Some <==> has_wallet(self@, name@),
            found is Some ==> found.unwrap() == wallet_index(self@, name@),
            found is Some ==> found.unwrap() < self.wallets@.len(),
    {
        proof {
            use_type_invariant(self);
        }
        let found = position_of(&self.wallets, name);
        proof {
            if let Some(i) = found {
                lemma_wallet_index_unique(self@, i as int);
            }
        }
        found
    }

    /// Adds an empty wallet called `name`, unless the store has one already.
    pub fn create_wallet(&mut self, name: String) -> (result: Result<(), WalletError>)
        ensures
            has_wallet(old(self)@, name@) ==> (result matches Err(
                WalletError::WalletAlreadyExists(taken),
            ) && taken@ == name@) && final(self)@ == old(self)@,
            !has_wallet(old(self)@, name@) ==> result is Ok && final(self)@ == old(self)@.push(
                WalletView::empty(name@),
            ),
            final(self).file_name() == old(self).file_name(),
            storable(final(self)@),
            all_valid(old(self)@) ==> all_valid(final(self)@),
    {
        if self.find(name.as_str()).is_some() {
            return Err(WalletError::WalletAlreadyExists(name));
        }
        let wallet = Wallet::new(name);
        let WalletManager { mut wallets, data_file } = self.take();
        proof {
            assert(wallet_views(wallets@.push(wallet)) =~= wallet_views(wallets@).push(wallet@));
        }
        wallets.push(wallet);
        *self = WalletManager { wallets, data_file };
        Ok(())
    }

    /// Credits the wallet called `name` and gives its new balance. Fails with
    /// `WalletNotFound` if the store has no such wallet, and as the wallet's
    /// own `credit` does otherwise; a failure changes nothing.
    pub fn credit_wallet(&mut self, name: &str, amount: i64, description: Option<String>) -> (result:
        Result<i128, WalletError>)
        ensures
            !has_wallet(old(self)@, name@) ==> (result matches Err(
                WalletError::WalletNotFound(missing),
            ) && missing@ == name@) && final(self)@ == old(self)@,
            has_wallet(old(self)@, name@) && amount <= 0 ==> result == Err::<i128, WalletError>(
                WalletError::InvalidAmount,
            ) && final(self)@ == old(self)@,
            has_wallet(old(self)@, name@) && amount > 0 ==> ({
                let i = wallet_index(old(self)@, name@);
                &&& (result matches Ok(balance) && balance == old(self)@[i].balance + amount)
                &&& exists|nanos: Option<i64>, at: Timestamp|
                    final(self)@ == old(self)@.update(
                        i,
                        #[trigger] old(self)@[i].credited(
                            amount as int,
                            optional_text(description),
                            nanos,
                            at,
                        ),
                    )
            }),
            final(self).file_name() == old(self).file_name(),
            storable(final(self)@),
            all_valid(old(self)@) ==> all_valid(final(self)@),
    {
        let i = match self.find(name) {
            Some(i) => i,
            None => {
                return Err(WalletError::WalletNotFound(String::from_str(name)));
            },
        };
        let WalletManager { mut wallets, data_file } = self.take();
        let ghost before = wallet_views(wallets@);
        let outcome = wallets[i].credit(amount, description);
        let balance = wallets[i].balance();
        proof {
            if outcome is Ok {
                assert(wallet_views(wallets@) =~= before.update(i as int, wallets@[i as int]@));
            } else {
                assert(wallet_views(wallets@) =~= before);
            }
        }
        *self = WalletManager { wallets, data_file };
        match outcome {
            Ok(()) => Ok(balance),
            Err(error) => Err(error),
        }
    }

    /// Debits the wallet called `name` and gives its new balance. Fails with
    /// `WalletNotFound` if the store has no such wallet, and as the wallet's
    /// own `debit` does otherwise; a failure changes nothing.
    pub fn debit_wallet(&mut self, name: &str, amount: i64, description: Option<String>) -> (result:
        Result<i128, WalletError>)
        ensures
            !has_wallet(old(self)@, name@) ==> (result matches Err(
                WalletError::WalletNotFound(missing),
            ) && missing@ == name@) && final(self)@ == old(self)@,
            has_wallet(old(self)@, name@) && amount <= 0 ==> result == Err::<i128, WalletError>(
                WalletError::InvalidAmount,
            ) && final(self)@ == old(self)@,
            has_wallet(old(self)@, name@) && 0 < amount && amount > old(self)@[wallet_index(
                old(self)@,
                name@,
            )].balance ==> result == Err::<i128, WalletError>(WalletError::InsufficientFunds)
                && final(self)@ == old(self)@,
            has_wallet(old(self)@, name@) && 0 < amount <= old(self)@[wallet_index(
                old(self)@,
                name@,
            )].balance ==> ({
                let i = wallet_index(old(self)@, name@);
                &&& (result matches Ok(balance) && balance == old(self)@[i].balance - amount)
                &&& exists|nanos: Option<i64>, at: Timestamp|
                    final(self)@ == old(self)@.update(
                        i,
                        #[trigger] old(self)@[i].debited(
                            amount as int,
                            optional_text(description),
                            nanos,
                            at,
                        ),
                    )
            }),
            final(self).file_name() == old(self).file_name(),
            storable(final(self)@),
            all_valid(old(self)@) ==> all_valid(final(self)@),
    {
        let i = match self.find(name) {
            Some(i) => i,
            None => {
                return Err(WalletError::WalletNotFound(String::from_str(name)));
            },
        };
        let WalletManager { mut wallets, data_file } = self.take();
        let ghost before = wallet_views(wallets@);
        let outcome = wallets[i].debit(amount, description);
        let balance = wallets[i].balance();
        proof {
            if outcome is Ok {
                assert(wallet_views(wallets@) =~= before.update(i as int, wallets@[i as int]@));
            } else {
                assert(wallet_views(wallets@) =~= before);
            }
        }
        *self = WalletManager { wallets, data_file };
        match outcome {
            Ok(()) => Ok(balance),
            Err(error) => Err(error),
        }
    }

    /// The balance of the wallet called `name`.
    pub fn show_balance(&self, name: &str) -> (result: Result<i128, WalletError>)
        ensures
            !has_wallet(self@, name@) ==> (result matches Err(WalletError::WalletNotFound(missing))
                && missing@ == name@),
            has_wallet(self@, name@) ==> (result matches Ok(balance) && balance == self@[wallet_index(
                self@,
                name@,
            )].balance),
            storable(self@),
    {
        match self.find(name) {
            Some(i) => Ok(self.wallets[i].balance()),
            None => Err(WalletError::WalletNotFound(String::from_str(name))),
        }
    }

    /// The history of the wallet called `name`, oldest transaction first,
    /// each with its running balance, recomputed by replay from zero; for a
    /// valid wallet the last one is the stored balance.
    pub fn show_history(&self, name: &str) -> (result: Result<Vec<HistoryEntry>, WalletError>)
        ensures
            !has_wallet(self@, name@) ==> (result matches Err(WalletError::WalletNotFound(missing))
                && missing@ == name@),
            has_wallet(self@, name@) ==> (result matches Ok(entries) && ({
                let wallet = self@[wallet_index(self@, name@)];
                &&& is_history_of(entries@, wallet.transactions)
                &&& wallet.valid() && entries@.len() > 0 ==> entries@.last().running_balance
                    == wallet.balance
            })),
            storable(self@),
    {
        match self.find(name) {
            Some(i) => Ok(self.wallets[i].history()),
            None => Err(WalletError::WalletNotFound(String::from_str(name))),
        }
    }

    /// Every wallet's name and balance, in the order in which the wallets
    /// were created; `None` if the store has no wallet.
    pub fn list_wallets(&self) -> (result: Option<Vec<WalletSummary>>)
        ensures
            self@.len() == 0 <==> result is None,
            result matches Some(lines) ==> lists(lines@, self@),
            storable(self@),
    {
        proof {
            use_type_invariant(self);
        }
        if self.wallets.len() == 0 {
            return None;
        }
        let mut lines: Vec<WalletSummary> = Vec::new();
        let mut i: usize = 0;
        while i < self.wallets.len()
            invariant
                0 <= i <= self.wallets@.len(),
                lines@.len() == i,
                forall|j: int|
                    0 <= j < i ==> (#[trigger] lines@[j]).name@ == self@[j].name
                        && lines@[j].balance == self@[j].balance,
            decreases self.wallets@.len() - i,
        {
            let wallet = &self.wallets[i];
            lines.push(WalletSummary { name: wallet.name().clone(), balance: wallet.balance() });
            i = i + 1;
        }
        Some(lines)
    }

    /// The store as records to write out, one for each wallet.
    pub fn records(&self) -> (records: Vec<WalletRecord>)
        ensures
            record_views(records@) == self@,
            storable(self@),
    {
        proof {
            use_type_invariant(self);
        }
        let mut records: Vec<WalletRecord> = Vec::new();
        let mut i: usize = 0;
        while i < self.wallets.len()
            invariant
                0 <= i <= self.wallets@.len(),
                records@.len() == i,
                forall|j: int| 0 <= j < i ==> (#[trigger] records@[j])@ == self@[j],
            decreases self.wallets@.len() - i,
        {
            records.push(self.wallets[i].to_record());
            i = i + 1;
        }
        records
    }

    /// Starts the store from what was found where it is kept. The wallets of
    /// a file that decodes are taken over as they are. A missing file
    /// changes nothing and gives no warning; a file that cannot be read or
    /// decoded, or whose wallets no store can hold, changes nothing and
    /// gives a warning. A new store, which holds nothing, so stays empty.
    pub fn load_wallets(&mut self, persisted: Persisted) -> (warning: Option<LoadWarning>)
        ensures
            final(self)@ == persisted.loaded(old(self)@),
            warning == persisted.warning(),
            final(self).file_name() == old(self).file_name(),
            storable(final(self)@),
    {
        proof {
            use_type_invariant(&*self);
        }
        match persisted {
            Persisted::Absent => None,
            Persisted::Unreadable => Some(LoadWarning::Unreadable),
            Persisted::Malformed => Some(LoadWarning::Malformed),
            Persisted::Records(records) => match Self::restore(records) {
                Some(wallets) => {
                    let WalletManager { wallets: _, data_file } = self.take();
                    *self = WalletManager { wallets, data_file };
                    None
                },
                None => Some(LoadWarning::Malformed),
            },
        }
    }

    /// Takes `records` as wallets, if a store can hold them together.
    fn restore(records: Vec<WalletRecord>) -> (wallets: Option<Vec<Wallet>>)
        ensures
            wallets is Some <==> storable(record_views(records@)),
            wallets is Some ==> wallet_views(wallets.unwrap()@) == record_views(records@),
    {
        let ghost found = record_views(records@);
        let mut wallets: Vec<Wallet> = Vec::new();
        for record in iter: records
            invariant
                found == record_views(records@),
                iter.seq() == records@,
                wallets@.len() == iter.index(),
                forall|j: int| 0 <= j < wallets@.len() ==> (#[trigger] wallets@[j])@ == found[j],
                forall|j: int| 0 <= j < wallets@.len() ==> (#[trigger] found[j]).within_limits(),
                forall|a: int, b: int|
                    0 <= a < b < wallets@.len() ==> (#[trigger] found[a]).name != (
                    #[trigger] found[b]).name,
        {
            let ghost at = wallets@.len() as int;
            let ghost before = wallet_views(wallets@);
            assert(record@ == found[at]);
            if position_of(&wallets, record.name.as_str()).is_some() {
                return None;
            }
            match Wallet::from_record(record) {
                Some(wallet) => {
                    wallets.push(wallet);
                    proof {
                        assert forall|a: int, b: int| 0 <= a < b < wallets@.len() implies (
                        #[trigger] found[a]).name != (#[trigger] found[b]).name by {
                            if b == at {
                                assert(before[a].name == found[a].name);
                            }
                        }
                    }
                },
                None => {
                    return None;
                },
            }
        }
        Some(wallets)
    }

    /// Moves the store out and leaves an empty, nameless one in its place.
    fn take(&mut self) -> (taken: WalletManager)
        ensures
            taken == *old(self),
            final(self)@ == Seq::<WalletView>::empty(),
    {
        let mut taken = WalletManager { wallets: Vec::new(), data_file: String::new() };
        core::mem::swap(self, &mut taken);
        taken
    }
}

} // verus!
