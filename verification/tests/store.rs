//! Tests for the deposit lifecycle store and its state machine.

use toy_processor::deposit_store::DepositStateError;
use toy_processor::deposit_store::DepositStatus;
use toy_processor::deposit_store::DepositStore;
use toy_processor::deposit_store::MemoryDepositStore;
use toy_processor::deposit_store::StoredDeposit;
use toy_processor::error::Error;
use toy_processor::transactions::DepositTx;

/// `n` whole units as a count of ten-thousandths.
fn dec(n: i64) -> i64 {
    n * 10_000
}

#[test]
fn client_mismatch_rejected() {
    let deposit = StoredDeposit::from(&DepositTx::new(1, 42, dec(100)));

    let result = deposit.ensure_client_matches(42, 2); // tx 42, wrong client 2

    assert!(matches!(
        result,
        Err(Error::ClientMismatch { tx_id: 42, expected: 1, found: 2 })
    ));
}

#[test]
fn lifecycle_legal_path_dispute_resolve() {
    let mut status = DepositStatus::Clear;
    assert!(status.dispute().is_ok());
    assert_eq!(status, DepositStatus::Disputed);
    assert!(status.resolve().is_ok());
    assert_eq!(status, DepositStatus::Resolved);
}

#[test]
fn lifecycle_legal_path_dispute_chargeback() {
    let mut status = DepositStatus::Clear;
    assert!(status.dispute().is_ok());
    assert!(status.chargeback().is_ok());
    assert_eq!(status, DepositStatus::Chargedback);
}

#[test]
fn lifecycle_rejects_from_clear() {
    let mut status = DepositStatus::Clear;
    assert_eq!(status.resolve(), Err(DepositStateError::CannotResolveUndisputed));
    assert_eq!(status.chargeback(), Err(DepositStateError::CannotChargebackUndisputed));
    assert_eq!(status, DepositStatus::Clear);
}

#[test]
fn lifecycle_rejects_from_disputed() {
    let mut status = DepositStatus::Disputed;
    assert_eq!(status.dispute(), Err(DepositStateError::AlreadyDisputed));
    assert_eq!(status, DepositStatus::Disputed);
}

#[test]
fn lifecycle_rejects_from_resolved() {
    let mut status = DepositStatus::Resolved;
    assert_eq!(status.dispute(), Err(DepositStateError::CannotDisputeResolved));
    assert_eq!(status.resolve(), Err(DepositStateError::AlreadyResolved));
    assert_eq!(status.chargeback(), Err(DepositStateError::CannotChargebackResolved));
    assert_eq!(status, DepositStatus::Resolved);
}

#[test]
fn lifecycle_rejects_from_chargedback() {
    let mut status = DepositStatus::Chargedback;
    assert_eq!(status.dispute(), Err(DepositStateError::CannotDisputeChargedback));
    assert_eq!(status.resolve(), Err(DepositStateError::CannotResolveChargedback));
    assert_eq!(status.chargeback(), Err(DepositStateError::AlreadyChargedback));
    assert_eq!(status, DepositStatus::Chargedback);
}

#[test]
fn memory_store_insert_get_update_remove() {
    let mut store = MemoryDepositStore::new();
    let tx = DepositTx::new(7, 11, dec(3));
    store.insert(&tx);

    let got = store.get(11).unwrap();
    assert_eq!(got.client(), 7);
    assert_eq!(got.amount(), dec(3));

    let mut changed = got;
    assert!(changed.set_disputed().is_ok());
    store.update(11, changed);
    assert!(matches!(store.get(11).unwrap().amount(), a if a == dec(3)));

    assert!(store.get(12).is_none());
    let removed = store.remove(11).unwrap();
    assert_eq!(removed.client(), 7);
    assert!(store.get(11).is_none());
    assert!(store.remove(11).is_none());
}

#[test]
fn insert_replaces_record_under_same_id() {
    let mut store = MemoryDepositStore::new();
    store.insert(&DepositTx::new(1, 5, dec(10)));
    store.insert(&DepositTx::new(2, 5, dec(20)));

    let got = store.get(5).unwrap();
    assert_eq!(got.client(), 2);
    assert_eq!(got.amount(), dec(20));
}
