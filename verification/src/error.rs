//! The errors and warnings that the ledger reports.

use vstd::prelude::*;
use vstd::string::StringExecFns;

verus! {

/// Why an operation on a wallet or on the store was refused.
#[derive(Debug, PartialEq, Eq)]
pub enum WalletError {
    /// The amount was zero or negative.
    InvalidAmount,
    /// A debit asked for more than the wallet holds.
    InsufficientFunds,
    /// A wallet of this name is already in the store.
    WalletAlreadyExists(String),
    /// No wallet of this name is in the store.
    WalletNotFound(String),
    /// The store could not be written out; the text says what went wrong.
    PersistenceFailure(String),
}

impl WalletError {
    /// The sentence that tells the user about this error.
    pub open spec fn message_text(&self) -> Seq<char> {
        match self {
            WalletError::InvalidAmount => "Amount must be positive"@,
            WalletError::InsufficientFunds => "Insufficient funds"@,
            WalletError::WalletAlreadyExists(name) => "Wallet '"@ + name@ + "' already exists"@,
            WalletError::WalletNotFound(name) => "Wallet '"@ + name@ + "' not found"@,
            WalletError::PersistenceFailure(text) => text@,
        }
    }

    /// The sentence that tells the user about this error.
    pub fn message(&self) -> (text: String)
        ensures
            text@ == self.message_text(),
    {
        match self {
            WalletError::InvalidAmount => String::from_str("Amount must be positive"),
            WalletError::InsufficientFunds => String::from_str("Insufficient funds"),
            WalletError::WalletAlreadyExists(name) => String::from_str("Wallet '").concat(
                name.as_str(),
            ).concat("' already exists"),
            WalletError::WalletNotFound(name) => String::from_str("Wallet '").concat(
                name.as_str(),
            ).concat("' not found"),
            WalletError::PersistenceFailure(text) => text.clone(),
        }
    }

    /// The store could not be put into its written form; `detail` is what
    /// the encoder reported.
    pub fn serialization_failed(detail: &str) -> (error: WalletError)
        ensures
            error matches WalletError::PersistenceFailure(text) && text@
                == "Failed to serialize wallets: "@ + detail@,
    {
        WalletError::PersistenceFailure(
            String::from_str("Failed to serialize wallets: ").concat(detail),
        )
    }

    /// The written form could not be stored; `detail` is what the file
    /// system reported.
    pub fn write_failed(detail: &str) -> (error: WalletError)
        ensures
            error matches WalletError::PersistenceFailure(text) && text@
                == "Failed to write wallets file: "@ + detail@,
    {
        WalletError::PersistenceFailure(
            String::from_str("Failed to write wallets file: ").concat(detail),
        )
    }
}

/// What went wrong when the store was read at start-up. Neither stops the
/// program: the store starts empty.
#[derive(Clone, Copy, Debug, PartialEq, Eq, Structural)]
pub enum LoadWarning {
    /// The file is there but could not be read.
    Unreadable,
    /// The file was read but does not hold wallets that a store can take.
    Malformed,
}

impl LoadWarning {
    /// The sentence that tells the user about this warning.
    pub open spec fn message_text(&self) -> Seq<char> {
        match self {
            LoadWarning::Unreadable => "Warning: Could not read wallets file"@,
            LoadWarning::Malformed => "Warning: Could not parse wallets file"@,
        }
    }

    /// The sentence that tells the user about this warning.
    pub fn message(&self) -> (text: String)
        ensures
            text@ == self.message_text(),
    {
        match self {
            LoadWarning::Unreadable => String::from_str("Warning: Could not read wallets file"),
            LoadWarning::Malformed => String::from_str("Warning: Could not parse wallets file"),
        }
    }
}

} // verus!
