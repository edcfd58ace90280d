//! Transaction values and the validation boundary that turns an
//! already-parsed input row into a typed transaction.
//!
//! A row reaches this crate with its textual shape already checked by the
//! caller: the record kind is one of the five known kinds and the amount,
//! where present, is an exact decimal normalized to four fractional digits
//! (an integer count of ten-thousandths). This module enforces the value
//! rules: a monetary transfer must carry an amount and the amount must not
//! be negative.

use vstd::prelude::*;

use crate::account::Account;
use crate::account::AccountMap;
use crate::deposit_store::DepositStore;
use crate::deposit_store::StoredDeposit;
use crate::error::Error;

pub mod chargeback_tx;
pub mod deposit_tx;
pub mod dispute_tx;
pub mod resolve_tx;
pub mod withdrawal_tx;

pub use chargeback_tx::ChargebackTx;
pub use deposit_tx::DepositTx;
pub use dispute_tx::DisputeTx;
pub use resolve_tx::ResolveTx;
pub use withdrawal_tx::WithdrawalTx;

verus! {

/// The kind of an input record.
#[derive(Clone, Copy, Debug, PartialEq, Eq, Structural)]
pub enum TxKind {
    Deposit,
    Withdrawal,
    Dispute,
    Resolve,
    Chargeback,
}

/// One validated input row: a record kind, the client it concerns, the
/// transaction id, and — for monetary transfers — an amount in
/// ten-thousandths of a whole unit.
#[derive(Clone, Copy, Debug, PartialEq, Eq, Structural)]
pub struct TransactionRow {
    pub tx_type: TxKind,
    pub client: u16,
    pub tx: u32,
    pub amount: Option<i64>,
}

impl TransactionRow {
    pub fn client(&self) -> (c: u16)
        ensures
            c == self.client,
    {
        self.client
    }

    pub fn tx(&self) -> (id: u32)
        ensures
            id == self.tx,
    {
        self.tx
    }

    pub fn tx_type(&self) -> (k: TxKind)
        ensures
            k == self.tx_type,
    {
        self.tx_type
    }

    pub fn amount(&self) -> (a: Option<i64>)
        ensures
            a == self.amount,
    {
        self.amount
    }

    /// Whether the deduplication filter applies to this row: only deposits
    /// and withdrawals are deduplicated; dispute-family records are instead
    /// rejected deterministically by the deposit lifecycle state machine.
    pub fn should_dedupe(&self) -> (r: bool)
        ensures
            r == (self.tx_type == TxKind::Deposit || self.tx_type == TxKind::Withdrawal),
    {
        match self.tx_type {
            TxKind::Deposit => true,
            TxKind::Withdrawal => true,
            _ => false,
        }
    }
}

/// A typed transaction, ready to be applied to a worker's ledger.
#[derive(Clone, Copy, Debug, PartialEq, Eq, Structural)]
pub enum Transaction {
    Deposit(DepositTx),
    Withdrawal(WithdrawalTx),
    Dispute(DisputeTx),
    Resolve(ResolveTx),
    Chargeback(ChargebackTx),
}

impl Transaction {
    /// The transaction that a row converts to, or the row error that
    /// rejects it: a deposit or withdrawal without an amount, or with a
    /// negative amount, is refused before it can reach any ledger.
    pub open spec fn spec_try_from(row: TransactionRow) -> Result<Transaction, Error> {
        match row.tx_type {
            TxKind::Deposit => match row.amount {
                Some(amount) => if amount < 0 {
                    Err(Error::InvalidTransactionRow(row.tx))
                } else {
                    Ok(Transaction::Deposit(DepositTx {
                        client: row.client,
                        id: row.tx,
                        amount,
                    }))
                },
                None => Err(Error::InvalidTransactionRow(row.tx)),
            },
            TxKind::Withdrawal => match row.amount {
                Some(amount) => if amount < 0 {
                    Err(Error::InvalidTransactionRow(row.tx))
                } else {
                    Ok(Transaction::Withdrawal(WithdrawalTx {
                        client: row.client,
                        id: row.tx,
                        amount,
                    }))
                },
                None => Err(Error::InvalidTransactionRow(row.tx)),
            },
            TxKind::Dispute => Ok(Transaction::Dispute(DisputeTx {
                client: row.client,
                id: row.tx,
            })),
            TxKind::Resolve => Ok(Transaction::Resolve(ResolveTx {
                client: row.client,
                id: row.tx,
            })),
            TxKind::Chargeback => Ok(Transaction::Chargeback(ChargebackTx {
                client: row.client,
                id: row.tx,
            })),
        }
    }

    /// Converts a row into a typed transaction, rejecting monetary
    /// transfers with a missing or negative amount.
    pub fn try_from(row: TransactionRow) -> (r: Result<Transaction, Error>)
        ensures
            r == Transaction::spec_try_from(row),
            r is Ok ==> match r->Ok_0 {
                Transaction::Deposit(t) => t.amount >= 0,
                Transaction::Withdrawal(t) => t.amount >= 0,
                _ => true,
            },
    {
        match row.tx_type {
            TxKind::Deposit => match row.amount {
                Some(amount) => if amount < 0 {
                    Err(Error::InvalidTransactionRow(row.tx))
                } else {
                    Ok(Transaction::Deposit(DepositTx::new(row.client, row.tx, amount)))
                },
                None => Err(Error::InvalidTransactionRow(row.tx)),
            },
            TxKind::Withdrawal => match row.amount {
                Some(amount) => if amount < 0 {
                    Err(Error::InvalidTransactionRow(row.tx))
                } else {
                    Ok(Transaction::Withdrawal(WithdrawalTx::new(row.client, row.tx, amount)))
                },
                None => Err(Error::InvalidTransactionRow(row.tx)),
            },
            TxKind::Dispute => Ok(Transaction::Dispute(DisputeTx::new(row.client, row.tx))),
            TxKind::Resolve => Ok(Transaction::Resolve(ResolveTx::new(row.client, row.tx))),
            TxKind::Chargeback => Ok(Transaction::Chargeback(ChargebackTx::new(row.client, row.tx))),
        }
    }

    /// The client this transaction concerns.
    pub open spec fn spec_client(tx: Transaction) -> u16 {
        match tx {
            Transaction::Deposit(t) => t.client,
            Transaction::Withdrawal(t) => t.client,
            Transaction::Dispute(t) => t.client,
            Transaction::Resolve(t) => t.client,
            Transaction::Chargeback(t) => t.client,
        }
    }

    /// What `process` needs of the shard state, by transaction kind.
    pub open spec fn spec_fits(
        tx: Transaction,
        am: Map<u16, Account>,
        dm: Map<u32, StoredDeposit>,
    ) -> bool {
        match tx {
            Transaction::Deposit(t) => DepositTx::spec_fits(t, am),
            Transaction::Withdrawal(t) => WithdrawalTx::spec_fits(t),
            Transaction::Dispute(t) => DisputeTx::spec_fits(t, am, dm),
            Transaction::Resolve(t) => ResolveTx::spec_fits(t, am, dm),
            Transaction::Chargeback(t) => ChargebackTx::spec_fits(t, am, dm),
        }
    }

    /// The shard state and result that one transaction produces: the
    /// complete transition function of a worker's ledger and deposit
    /// store.
    pub open spec fn spec_process(
        tx: Transaction,
        am: Map<u16, Account>,
        dm: Map<u32, StoredDeposit>,
    ) -> (Map<u16, Account>, Map<u32, StoredDeposit>, Result<(), Error>) {
        match tx {
            Transaction::Deposit(t) => DepositTx::spec_process(t, am, dm),
            Transaction::Withdrawal(t) => {
                let u = WithdrawalTx::spec_process(t, am);
                (u.0, dm, u.1)
            },
            Transaction::Dispute(t) => DisputeTx::spec_process(t, am, dm),
            Transaction::Resolve(t) => ResolveTx::spec_process(t, am, dm),
            Transaction::Chargeback(t) => ChargebackTx::spec_process(t, am, dm),
        }
    }

    /// Applies one transaction to a worker's ledger and deposit store:
    /// the single-entry ingestion call. A failure is local to this
    /// transaction; the shard state then reflects exactly what the
    /// transition function says.
    pub fn process<S: DepositStore>(
        &self,
        accounts: &mut AccountMap,
        stored_deposits: &mut S,
    ) -> (r: Result<(), Error>)
        requires
            Transaction::spec_fits(*self, old(accounts)@, old(stored_deposits).contents()),
        ensures
            final(accounts)@ == Transaction::spec_process(
                *self,
                old(accounts)@,
                old(stored_deposits).contents(),
            ).0,
            final(stored_deposits).contents() == Transaction::spec_process(
                *self,
                old(accounts)@,
                old(stored_deposits).contents(),
            ).1,
            r == Transaction::spec_process(
                *self,
                old(accounts)@,
                old(stored_deposits).contents(),
            ).2,
            forall|c: u16|
                old(accounts)@.contains_key(c) && (#[trigger] old(accounts)@[c]).locked
                    ==> final(accounts)@.contains_key(c) && final(accounts)@[c].locked,
    {
        match self {
            Transaction::Deposit(t) => t.process(accounts, stored_deposits),
            Transaction::Withdrawal(t) => t.process(accounts),
            Transaction::Dispute(t) => t.process(accounts, stored_deposits),
            Transaction::Resolve(t) => t.process(accounts, stored_deposits),
            Transaction::Chargeback(t) => t.process(accounts, stored_deposits),
        }
    }
}

/// Law: applying any transaction never unlocks any account — the lock
/// flag is monotonic across the whole transition function, whatever the
/// transaction and whatever its outcome.
pub proof fn lemma_process_lock_monotonic(
    tx: Transaction,
    am: Map<u16, Account>,
    dm: Map<u32, StoredDeposit>,
    c: u16,
)
    requires
        am.contains_key(c),
        am[c].locked,
    ensures
        Transaction::spec_process(tx, am, dm).0.contains_key(c),
        Transaction::spec_process(tx, am, dm).0[c].locked,
{
}

/// Law: disputing, resolving or charging back a transaction id with no
/// stored deposit record fails with `StoredDepositNotFound` and leaves
/// both the ledger and the records untouched.
pub proof fn lemma_unknown_deposit_rejected(
    tx: Transaction,
    am: Map<u16, Account>,
    dm: Map<u32, StoredDeposit>,
    id: u32,
)
    requires
        match tx {
            Transaction::Dispute(t) => t.id == id,
            Transaction::Resolve(t) => t.id == id,
            Transaction::Chargeback(t) => t.id == id,
            _ => false,
        },
        !dm.contains_key(id),
    ensures
        Transaction::spec_process(tx, am, dm).0 == am,
        Transaction::spec_process(tx, am, dm).1 == dm,
        Transaction::spec_process(tx, am, dm).2 == Err::<(), Error>(
            Error::StoredDepositNotFound(id),
        ),
{
}

/// Law: a transaction for one client never touches any other client's
/// account: the transition function leaves every other account exactly
/// as it was.
pub proof fn lemma_process_local(
    tx: Transaction,
    am: Map<u16, Account>,
    dm: Map<u32, StoredDeposit>,
    c: u16,
)
    requires
        c != Transaction::spec_client(tx),
    ensures
        Transaction::spec_process(tx, am, dm).0.contains_key(c) == am.contains_key(c),
        am.contains_key(c) ==> Transaction::spec_process(tx, am, dm).0[c] == am[c],
{
}

} // verus!
