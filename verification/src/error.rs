//! The failure taxonomy of the ledger core. Every operation returns a typed
//! failure rather than aborting; a per-transaction failure never affects any
//! other transaction.

use vstd::prelude::*;

use crate::deposit_store::DepositStateError;

verus! {

/// A typed failure of a ledger operation.
///
/// Balances inside a failure are counts of ten-thousandths of a whole unit,
/// as everywhere in this crate.
#[derive(Clone, Copy, Debug, PartialEq, Eq, Structural)]
pub enum Error {
    /// A deposit or withdrawal was attempted on a locked account.
    AccountLocked(u16),
    /// An operation that needs a pre-existing account referenced a client
    /// with no account.
    AccountNotFound(u16),
    /// A withdrawal asked for more than the available balance.
    InsufficientFunds { client: u16, available: i128, requested: i64 },
    /// A dispute-family transaction's client does not match the disputed
    /// deposit's recorded owner.
    ClientMismatch { tx_id: u32, expected: u16, found: u16 },
    /// A dispute-family transaction referenced a transaction id with no
    /// stored deposit record.
    StoredDepositNotFound(u32),
    /// An illegal deposit lifecycle transition.
    DepositState(DepositStateError),
    /// A malformed input row (missing or negative amount on a monetary
    /// transfer). Generated at the validation boundary, never by the ledger.
    InvalidTransactionRow(u32),
}

} // verus!
