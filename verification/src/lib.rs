//! A ledger of named wallets. Each wallet keeps a balance and an
//! append-only history of the credits and debits that produced it; a store
//! keeps the wallets of one user by name.
//!
//! Amounts and balances are whole numbers of the smallest unit of the
//! currency, so that sums are exact. The library touches no file: it takes
//! what was read from storage as plain records, as they are, and hands back
//! plain records to write.

pub mod cli;
mod clock;
pub mod decimal;
pub mod error;
pub mod ledger;
pub mod models;
pub mod wallet_manager;
