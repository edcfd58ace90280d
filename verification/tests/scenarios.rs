//! End-to-end scenarios through the worker's ingestion calls, checking
//! final balances rendered with four fractional digits.

use toy_processor::account::Account;
use toy_processor::account::AccountMap;
use toy_processor::error::Error;
use toy_processor::output::AccountOutput;
use toy_processor::transactions::TransactionRow;
use toy_processor::transactions::TxKind;
use toy_processor::worker::Worker;

/// `n` whole units as a count of ten-thousandths.
fn dec(n: i64) -> i64 {
    n * 10_000
}

fn row(tx_type: TxKind, client: u16, tx: u32, amount: Option<i64>) -> TransactionRow {
    TransactionRow { tx_type, client, tx, amount }
}

/// Drains rows through a single-worker pool and returns the final
/// accounts, ordered by client id.
fn run(rows: Vec<TransactionRow>) -> Vec<Account> {
    let mut worker = Worker::new(0, 1);
    worker.run(&rows);
    worker.into_accounts().into_iter_sorted()
}

fn snapshot(account: Account) -> (String, String, String, bool) {
    let out = AccountOutput::from(account);
    (out.available, out.held, out.total, out.locked)
}

#[test]
fn basic_deposit_withdraw() {
    let accounts = run(vec![
        row(TxKind::Deposit, 1, 1, Some(dec(100))),
        row(TxKind::Deposit, 2, 2, Some(dec(50))),
        row(TxKind::Withdrawal, 1, 3, Some(dec(15))),
    ]);
    assert_eq!(accounts.len(), 2);
    let (a1, h1, t1, l1) = snapshot(accounts[0]);
    assert_eq!(accounts[0].client, 1);
    assert_eq!((a1.as_str(), h1.as_str(), t1.as_str(), l1), ("85.0000", "0.0000", "85.0000", false));
    let (a2, h2, t2, l2) = snapshot(accounts[1]);
    assert_eq!(accounts[1].client, 2);
    assert_eq!((a2.as_str(), h2.as_str(), t2.as_str(), l2), ("50.0000", "0.0000", "50.0000", false));
}

#[test]
fn precision_4_decimals() {
    let accounts = run(vec![row(TxKind::Deposit, 1, 1, Some(151_235))]);
    let (available, _, total, _) = snapshot(accounts[0]);
    assert_eq!(available, "15.1235");
    assert_eq!(total, "15.1235");
}

#[test]
fn dispute_then_resolve_returns_funds() {
    let accounts = run(vec![
        row(TxKind::Deposit, 1, 1, Some(dec(100))),
        row(TxKind::Dispute, 1, 1, None),
        row(TxKind::Resolve, 1, 1, None),
    ]);
    let (available, held, total, locked) = snapshot(accounts[0]);
    assert_eq!(available, "100.0000");
    assert_eq!(held, "0.0000");
    assert_eq!(total, "100.0000");
    assert!(!locked);
}

#[test]
fn dispute_then_chargeback_locks_account() {
    let accounts = run(vec![
        row(TxKind::Deposit, 1, 1, Some(dec(100))),
        row(TxKind::Deposit, 1, 2, Some(dec(50))),
        row(TxKind::Dispute, 1, 1, None),
        row(TxKind::Chargeback, 1, 1, None),
    ]);
    let (available, held, total, locked) = snapshot(accounts[0]);
    assert_eq!(available, "50.0000");
    assert_eq!(held, "0.0000");
    assert_eq!(total, "50.0000");
    assert!(locked);
}

#[test]
fn locked_account_rejects_deposit() {
    let mut worker = Worker::new(0, 1);
    let _ = worker.process_row(row(TxKind::Deposit, 1, 1, Some(dec(100))));
    let _ = worker.process_row(row(TxKind::Dispute, 1, 1, None));
    let _ = worker.process_row(row(TxKind::Chargeback, 1, 1, None));

    // Account is now locked: a further deposit fails and changes nothing.
    let rejected = worker.process_row(row(TxKind::Deposit, 1, 2, Some(dec(50))));
    assert!(matches!(rejected, Err(Error::AccountLocked(1))));

    let accounts = worker.into_accounts().into_iter_sorted();
    let (available, held, total, locked) = snapshot(accounts[0]);
    assert_eq!(available, "0.0000");
    assert_eq!(held, "0.0000");
    assert_eq!(total, "0.0000");
    assert!(locked);
}

#[test]
fn negative_balance_clawback() {
    let accounts = run(vec![
        row(TxKind::Deposit, 1, 1, Some(dec(100))),
        row(TxKind::Withdrawal, 1, 2, Some(dec(80))),
        row(TxKind::Dispute, 1, 1, None),
    ]);
    let (available, held, total, locked) = snapshot(accounts[0]);
    assert_eq!(available, "-80.0000");
    assert_eq!(held, "100.0000");
    assert_eq!(total, "20.0000");
    assert!(!locked);
}

#[test]
fn double_dispute_idempotent() {
    let mut worker = Worker::new(0, 1);
    let _ = worker.process_row(row(TxKind::Deposit, 1, 1, Some(dec(100))));
    let first = worker.process_row(row(TxKind::Dispute, 1, 1, None));
    assert!(first.is_ok());

    let second = worker.process_row(row(TxKind::Dispute, 1, 1, None));
    assert!(matches!(
        second,
        Err(Error::DepositState(
            toy_processor::deposit_store::DepositStateError::AlreadyDisputed
        ))
    ));

    let accounts = worker.into_accounts().into_iter_sorted();
    let (available, held, total, _) = snapshot(accounts[0]);
    assert_eq!(available, "0.0000");
    assert_eq!(held, "100.0000");
    assert_eq!(total, "100.0000");
}

#[test]
fn insufficient_funds_rejected() {
    let mut worker = Worker::new(0, 1);
    let _ = worker.process_row(row(TxKind::Deposit, 1, 1, Some(dec(50))));

    let rejected = worker.process_row(row(TxKind::Withdrawal, 1, 2, Some(dec(100))));
    assert!(matches!(
        rejected,
        Err(Error::InsufficientFunds { client: 1, available, requested })
            if available == dec(50) as i128 && requested == dec(100)
    ));

    let accounts = worker.into_accounts().into_iter_sorted();
    let (available, _, _, _) = snapshot(accounts[0]);
    assert_eq!(available, "50.0000");
}

#[test]
fn zero_amount_transactions() {
    let accounts = run(vec![
        row(TxKind::Deposit, 1, 1, Some(dec(100))),
        row(TxKind::Deposit, 1, 2, Some(0)),
        row(TxKind::Withdrawal, 1, 3, Some(0)),
    ]);
    let (available, held, total, _) = snapshot(accounts[0]);
    assert_eq!(available, "100.0000");
    assert_eq!(held, "0.0000");
    assert_eq!(total, "100.0000");
}

#[test]
fn negative_amount_rejected() {
    let mut worker = Worker::new(0, 1);
    let _ = worker.process_row(row(TxKind::Deposit, 1, 1, Some(dec(100))));

    let bad_deposit = worker.process_row(row(TxKind::Deposit, 1, 2, Some(-dec(5))));
    assert!(matches!(bad_deposit, Err(Error::InvalidTransactionRow(2))));
    let bad_withdrawal = worker.process_row(row(TxKind::Withdrawal, 1, 3, Some(-1)));
    assert!(matches!(bad_withdrawal, Err(Error::InvalidTransactionRow(3))));
    let missing_amount = worker.process_row(row(TxKind::Deposit, 1, 4, None));
    assert!(matches!(missing_amount, Err(Error::InvalidTransactionRow(4))));

    let accounts = worker.into_accounts().into_iter_sorted();
    let (available, _, _, _) = snapshot(accounts[0]);
    assert_eq!(available, "100.0000");
}

#[test]
fn dispute_nonexistent_tx_ignored() {
    let mut worker = Worker::new(0, 1);
    let _ = worker.process_row(row(TxKind::Deposit, 1, 1, Some(dec(100))));

    let dispute = worker.process_row(row(TxKind::Dispute, 1, 999, None));
    assert!(matches!(dispute, Err(Error::StoredDepositNotFound(999))));
    let resolve = worker.process_row(row(TxKind::Resolve, 1, 999, None));
    assert!(matches!(resolve, Err(Error::StoredDepositNotFound(999))));
    let chargeback = worker.process_row(row(TxKind::Chargeback, 1, 999, None));
    assert!(matches!(chargeback, Err(Error::StoredDepositNotFound(999))));

    let accounts = worker.into_accounts().into_iter_sorted();
    let (available, held, _, _) = snapshot(accounts[0]);
    assert_eq!(available, "100.0000");
    assert_eq!(held, "0.0000");
}

#[test]
fn dispute_by_wrong_client_rejected() {
    let mut worker = Worker::new(0, 1);
    let _ = worker.process_row(row(TxKind::Deposit, 1, 1, Some(dec(100))));
    let _ = worker.process_row(row(TxKind::Deposit, 2, 2, Some(dec(30))));

    let mismatch = worker.process_row(row(TxKind::Dispute, 2, 1, None));
    assert!(matches!(
        mismatch,
        Err(Error::ClientMismatch { tx_id: 1, expected: 1, found: 2 })
    ));
}

#[test]
fn account_not_found_for_unknown_client() {
    let accounts = AccountMap::new();
    let result = accounts.get_mut(9);
    assert!(matches!(result, Err(Error::AccountNotFound(9))));
}

#[test]
fn failures_leave_other_transactions_unaffected() {
    let accounts = run(vec![
        row(TxKind::Deposit, 1, 1, Some(dec(100))),
        row(TxKind::Withdrawal, 1, 2, Some(dec(500))), // fails: insufficient
        row(TxKind::Dispute, 1, 77, None),             // fails: unknown id
        row(TxKind::Withdrawal, 1, 3, Some(dec(15))),
        row(TxKind::Deposit, 2, 4, Some(dec(50))),
    ]);
    assert_eq!(accounts.len(), 2);
    let (a1, _, _, _) = snapshot(accounts[0]);
    let (a2, _, _, _) = snapshot(accounts[1]);
    assert_eq!(accounts[0].client, 1);
    assert_eq!(accounts[1].client, 2);
    assert_eq!(a1, "85.0000");
    assert_eq!(a2, "50.0000");
}
