//! The arithmetic of a wallet: what its history adds up to, which histories
//! the rules allow, and what a credit or a debit does to it.

use vstd::prelude::*;
use crate::decimal::decimal_text;
use crate::models::{Timestamp, TransactionType};

verus! {

/// What a `Transaction` holds, as mathematical values.
pub struct TransactionView {
    pub id: Seq<char>,
    pub transaction_type: TransactionType,
    pub amount: int,
    pub description: Seq<char>,
    pub timestamp: Timestamp,
}

/// The sum of the amounts of the credits in `log`.
pub open spec fn total_credits(log: Seq<TransactionView>) -> int
    decreases log.len(),
{
    if log.len() == 0 {
        0
    } else {
        total_credits(log.drop_last()) + if log.last().transaction_type is Credit {
            log.last().amount
        } else {
            0
        }
    }
}

/// The sum of the amounts of the debits in `log`.
pub open spec fn total_debits(log: Seq<TransactionView>) -> int
    decreases log.len(),
{
    if log.len() == 0 {
        0
    } else {
        total_debits(log.drop_last()) + if log.last().transaction_type is Debit {
            log.last().amount
        } else {
            0
        }
    }
}

/// The balance that replaying `log` from zero arrives at: credits minus debits.
pub open spec fn net_balance(log: Seq<TransactionView>) -> int {
    total_credits(log) - total_debits(log)
}

/// The running balance after each entry of `log`: entry `i` is the balance
/// that replaying the first `i + 1` transactions arrives at.
pub open spec fn running_balances(log: Seq<TransactionView>) -> Seq<int> {
    Seq::new(log.len(), |i: int| net_balance(log.take(i + 1)))
}

/// Whether `log` is a history that credits and debits could have written:
/// every amount is positive, and no debit took the running balance below zero.
pub open spec fn replayable(log: Seq<TransactionView>) -> bool {
    &&& forall|i: int| 0 <= i < log.len() ==> 0 < (#[trigger] log[i]).amount
    &&& forall|k: int| 0 <= k <= log.len() ==> 0 <= net_balance(#[trigger] log.take(k))
}

/// The text of a transaction's identifier, made from a clock reading in
/// nanoseconds; a reading that is not available counts as zero.
pub open spec fn transaction_id_text(nanos: Option<i64>) -> Seq<char> {
    match nanos {
        Some(n) => decimal_text(n as int),
        None => decimal_text(0),
    }
}

/// The description recorded with a transaction: the one given, or the
/// standard text for its type.
pub open spec fn description_text(kind: TransactionType, given: Option<Seq<char>>) -> Seq<char> {
    match given {
        Some(text) => text,
        None => match kind {
            TransactionType::Credit => "Credit transaction"@,
            TransactionType::Debit => "Debit transaction"@,
        },
    }
}

/// A credit or a debit that is asked of a wallet, with the clock readings
/// that it would be recorded under.
pub struct Request {
    pub kind: TransactionType,
    pub amount: int,
    pub description: Option<Seq<char>>,
    pub nanos: Option<i64>,
    pub at: Timestamp,
}

/// A wallet as mathematical values: its name, its balance, and its history,
/// oldest transaction first.
pub struct WalletView {
    pub name: Seq<char>,
    pub balance: int,
    pub transactions: Seq<TransactionView>,
}

impl WalletView {
    /// A wallet of this name that has seen no transaction.
    pub open spec fn empty(name: Seq<char>) -> WalletView {
        WalletView { name, balance: 0, transactions: Seq::empty() }
    }

    /// The history is one that credits and debits could have written, and the
    /// balance is what it adds up to: every amount is positive, the running
    /// balance was never negative, and the balance is credits minus debits.
    pub open spec fn valid(self) -> bool {
        &&& replayable(self.transactions)
        &&& self.balance == net_balance(self.transactions)
    }

    /// The balance is one that the arithmetic can carry: it lies no further
    /// from zero than the largest amount, once for each transaction of the
    /// history and once more. No credit to such a wallet can overflow, and
    /// every valid wallet is such a wallet.
    pub open spec fn within_limits(self) -> bool {
        -(self.transactions.len() + 1) * i64::MAX <= self.balance <= (self.transactions.len() + 1)
            * i64::MAX
    }

    /// The transaction that an accepted operation appends.
    pub open spec fn entry(
        kind: TransactionType,
        amount: int,
        description: Option<Seq<char>>,
        nanos: Option<i64>,
        at: Timestamp,
    ) -> TransactionView {
        TransactionView {
            id: transaction_id_text(nanos),
            transaction_type: kind,
            amount,
            description: description_text(kind, description),
            timestamp: at,
        }
    }

    /// The wallet with `entry` appended to its history and its balance moved
    /// by the entry's amount: up for a credit, down for a debit.
    pub open spec fn with_entry(self, entry: TransactionView) -> WalletView {
        WalletView {
            name: self.name,
            balance: match entry.transaction_type {
                TransactionType::Credit => self.balance + entry.amount,
                TransactionType::Debit => self.balance - entry.amount,
            },
            transactions: self.transactions.push(entry),
        }
    }

    /// Whether the rules accept an operation of this kind and amount: the
    /// amount is positive, and a debit does not exceed the balance.
    pub open spec fn accepts(self, kind: TransactionType, amount: int) -> bool {
        amount > 0 && (kind is Debit ==> amount <= self.balance)
    }

    /// The wallet after `request`: with its entry if the rules accept it,
    /// unchanged if they refuse it.
    pub open spec fn after(self, request: Request) -> WalletView {
        if self.accepts(request.kind, request.amount) {
            self.with_entry(
                Self::entry(
                    request.kind,
                    request.amount,
                    request.description,
                    request.nanos,
                    request.at,
                ),
            )
        } else {
            self
        }
    }

    /// The wallet after each of `requests` in turn.
    pub open spec fn after_all(self, requests: Seq<Request>) -> WalletView
        decreases requests.len(),
    {
        if requests.len() == 0 {
            self
        } else {
            self.after_all(requests.drop_last()).after(requests.last())
        }
    }

    /// The sum of the amounts of those of `requests` that are of `kind` and
    /// that the rules accept when the requests are made in turn.
    pub open spec fn accepted_total(self, requests: Seq<Request>, kind: TransactionType) -> int
        decreases requests.len(),
    {
        if requests.len() == 0 {
            0
        } else {
            let earlier = requests.drop_last();
            let request = requests.last();
            self.accepted_total(earlier, kind) + if request.kind == kind && self.after_all(
                earlier,
            ).accepts(kind, request.amount) {
                request.amount
            } else {
                0
            }
        }
    }

    /// The wallet after an accepted credit of `amount`.
    pub open spec fn credited(
        self,
        amount: int,
        description: Option<Seq<char>>,
        nanos: Option<i64>,
        at: Timestamp,
    ) -> WalletView {
        self.with_entry(Self::entry(TransactionType::Credit, amount, description, nanos, at))
    }

    /// The wallet after an accepted debit of `amount`.
    pub open spec fn debited(
        self,
        amount: int,
        description: Option<Seq<char>>,
        nanos: Option<i64>,
        at: Timestamp,
    ) -> WalletView {
        self.with_entry(Self::entry(TransactionType::Debit, amount, description, nanos, at))
    }
}

/// Appending one transaction adds its amount to the credits or to the debits.
pub proof fn lemma_totals_push(log: Seq<TransactionView>, t: TransactionView)
    ensures
        total_credits(log.push(t)) == total_credits(log) + if t.transaction_type is Credit {
            t.amount
        } else {
            0
        },
        total_debits(log.push(t)) == total_debits(log) + if t.transaction_type is Debit {
            t.amount
        } else {
            0
        },
{
    assert(log.push(t).drop_last() =~= log);
}

/// Replaying one more transaction moves the running balance by its amount.
pub proof fn lemma_net_balance_step(log: Seq<TransactionView>, i: int)
    requires
        0 <= i < log.len(),
    ensures
        net_balance(log.take(i + 1)) == net_balance(log.take(i)) + match log[i].transaction_type {
            TransactionType::Credit => log[i].amount,
            TransactionType::Debit => -log[i].amount,
        },
{
    assert(log.take(i + 1).drop_last() =~= log.take(i));
}

/// An empty history adds up to zero.
pub proof fn lemma_net_balance_empty()
    ensures
        net_balance(Seq::<TransactionView>::empty()) == 0,
{
}

/// The whole of a history is its longest prefix, so the last running balance
/// is what the whole history adds up to.
pub proof fn lemma_last_running_balance(log: Seq<TransactionView>)
    ensures
        log.take(log.len() as int) == log,
        running_balances(log).len() == log.len(),
        log.len() > 0 ==> running_balances(log).last() == net_balance(log),
{
    assert(log.take(log.len() as int) =~= log);
}

/// With every amount within 64 bits, what a history adds up to lies no
/// further from zero than the number of transactions times the largest
/// magnitude of an amount.
pub proof fn lemma_net_balance_bounded(log: Seq<TransactionView>)
    requires
        forall|i: int| 0 <= i < log.len() ==> i64::MIN <= (#[trigger] log[i]).amount <= i64::MAX,
    ensures
        -log.len() * 0x8000_0000_0000_0000 <= net_balance(log) <= log.len()
            * 0x8000_0000_0000_0000,
    decreases log.len(),
{
    if log.len() > 0 {
        lemma_net_balance_bounded(log.drop_last());
    }
}

/// With every amount positive, neither total is negative, and the credits
/// are at least what the history adds up to.
pub proof fn lemma_totals_not_negative(log: Seq<TransactionView>)
    requires
        forall|i: int| 0 <= i < log.len() ==> 0 < (#[trigger] log[i]).amount,
    ensures
        0 <= total_credits(log),
        0 <= total_debits(log),
    decreases log.len(),
{
    if log.len() > 0 {
        lemma_totals_not_negative(log.drop_last());
    }
}

/// A valid wallet stays valid when an entry with a positive amount is
/// appended, provided a debit does not exceed the balance.
pub proof fn lemma_valid_push(wallet: WalletView, entry: TransactionView)
    requires
        wallet.valid(),
        entry.amount > 0,
        entry.transaction_type is Debit ==> entry.amount <= wallet.balance,
    ensures
        wallet.with_entry(entry).valid(),
{
    let after = wallet.with_entry(entry);
    lemma_totals_push(wallet.transactions, entry);
    assert(wallet.transactions.take(wallet.transactions.len() as int) =~= wallet.transactions);
    assert forall|k: int| 0 <= k <= after.transactions.len() implies 0 <= net_balance(
        #[trigger] after.transactions.take(k),
    ) by {
        if k == after.transactions.len() {
            assert(after.transactions.take(k) =~= after.transactions);
        } else {
            assert(after.transactions.take(k) =~= wallet.transactions.take(k));
        }
    }
}

/// The balance of a valid wallet is the sum of its credits minus the sum of
/// its debits, and is never negative.
pub proof fn lemma_balance_is_credits_minus_debits(wallet: WalletView)
    requires
        wallet.valid(),
    ensures
        wallet.balance == total_credits(wallet.transactions) - total_debits(wallet.transactions),
        wallet.balance >= 0,
{
    lemma_last_running_balance(wallet.transactions);
}

/// After any sequence of requests the history of a wallet has grown by
/// exactly the requests that were accepted, and its balance has moved by the
/// credits that were accepted minus the debits that were accepted: a refused
/// request contributes nothing. A wallet that was valid is still valid.
pub proof fn lemma_balance_after_requests(wallet: WalletView, requests: Seq<Request>)
    ensures
        wallet.after_all(requests).name == wallet.name,
        total_credits(wallet.after_all(requests).transactions) == total_credits(
            wallet.transactions,
        ) + wallet.accepted_total(requests, TransactionType::Credit),
        total_debits(wallet.after_all(requests).transactions) == total_debits(wallet.transactions)
            + wallet.accepted_total(requests, TransactionType::Debit),
        wallet.after_all(requests).balance == wallet.balance + wallet.accepted_total(
            requests,
            TransactionType::Credit,
        ) - wallet.accepted_total(requests, TransactionType::Debit),
        wallet.valid() ==> wallet.after_all(requests).valid(),
    decreases requests.len(),
{
    if requests.len() > 0 {
        let earlier = requests.drop_last();
        let request = requests.last();
        lemma_balance_after_requests(wallet, earlier);
        let before = wallet.after_all(earlier);
        if before.accepts(request.kind, request.amount) {
            let entry = WalletView::entry(
                request.kind,
                request.amount,
                request.description,
                request.nanos,
                request.at,
            );
            lemma_totals_push(before.transactions, entry);
            if wallet.valid() {
                lemma_valid_push(before, entry);
            }
        }
    }
}

/// A wallet that has seen no transaction and holds nothing is valid, and
/// after any sequence of requests it holds the credits that were accepted
/// minus the debits that were accepted.
pub proof fn lemma_balance_from_empty(name: Seq<char>, requests: Seq<Request>)
    ensures
        WalletView::empty(name).valid(),
        WalletView::empty(name).after_all(requests).valid(),
        WalletView::empty(name).after_all(requests).balance == WalletView::empty(
            name,
        ).accepted_total(requests, TransactionType::Credit) - WalletView::empty(
            name,
        ).accepted_total(requests, TransactionType::Debit),
{
    lemma_empty_wallet_valid(name);
    lemma_balance_after_requests(WalletView::empty(name), requests);
}

/// A wallet that has seen no transaction and holds nothing is valid and
/// within the limits.
pub proof fn lemma_empty_wallet_valid(name: Seq<char>)
    ensures
        WalletView::empty(name).valid(),
        WalletView::empty(name).within_limits(),
{
    let log = Seq::<TransactionView>::empty();
    lemma_net_balance_empty();
    assert forall|k: int| 0 <= k <= log.len() implies 0 <= net_balance(#[trigger] log.take(k)) by {
        assert(log.take(k) =~= log);
    }
}

/// Every valid wallet is within the limits, if each of its amounts fits in
/// 64 bits.
pub proof fn lemma_valid_within_limits(wallet: WalletView)
    requires
        wallet.valid(),
        forall|i: int|
            0 <= i < wallet.transactions.len() ==> (#[trigger] wallet.transactions[i]).amount
                <= i64::MAX,
    ensures
        wallet.within_limits(),
{
    lemma_last_running_balance(wallet.transactions);
    lemma_credits_bounded(wallet.transactions);
    lemma_totals_not_negative(wallet.transactions);
}

/// With every amount positive and within 64 bits, the credits are at most
/// the number of transactions times the largest amount.
pub proof fn lemma_credits_bounded(log: Seq<TransactionView>)
    requires
        forall|i: int| 0 <= i < log.len() ==> 0 < (#[trigger] log[i]).amount <= i64::MAX,
    ensures
        total_credits(log) <= log.len() * i64::MAX,
    decreases log.len(),
{
    if log.len() > 0 {
        lemma_credits_bounded(log.drop_last());
    }
}

/// A request that the rules refuse leaves the wallet as it was.
pub proof fn lemma_refused_request_changes_nothing(wallet: WalletView, request: Request)
    requires
        request.amount <= 0 || (request.kind is Debit && request.amount > wallet.balance),
    ensures
        wallet.after(request) == wallet,
{
}

/// The last running balance of a valid wallet's history is the wallet's
/// balance, and no running balance is negative.
pub proof fn lemma_history_ends_at_balance(wallet: WalletView)
    requires
        wallet.valid(),
    ensures
        running_balances(wallet.transactions).len() == wallet.transactions.len(),
        forall|i: int|
            0 <= i < wallet.transactions.len() ==> 0 <= #[trigger] running_balances(
                wallet.transactions,
            )[i],
        wallet.transactions.len() > 0 ==> running_balances(wallet.transactions).last()
            == wallet.balance,
        wallet.transactions.len() == 0 ==> wallet.balance == 0,
{
    lemma_last_running_balance(wallet.transactions);
    if wallet.transactions.len() == 0 {
        assert(wallet.transactions =~= Seq::<TransactionView>::empty());
        lemma_net_balance_empty();
    }
}

} // verus!
