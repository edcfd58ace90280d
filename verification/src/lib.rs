//! A batch ledger processor: applies a finite stream of financial
//! transactions (deposit, withdrawal, dispute, resolve, chargeback) to
//! per-client accounts and yields the final balances.
//!
//! Monetary amounts are exact decimals with four fractional digits,
//! represented as integer counts of one ten-thousandth of a whole unit.

pub mod account;
pub mod dedup;
pub mod deposit_store;
pub mod error;
pub mod output;
pub mod transactions;
pub mod worker;

pub use transactions::TransactionRow;
