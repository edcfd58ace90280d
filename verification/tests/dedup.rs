//! Tests for the deduplication filter gate.

use toy_processor::dedup::DedupFilter;
use toy_processor::transactions::TransactionRow;
use toy_processor::transactions::TxKind;

fn row(tx_type: TxKind, tx: u32) -> TransactionRow {
    TransactionRow { tx_type, client: 1, tx, amount: Some(10_000) }
}

#[test]
fn duplicate_transfer_dropped() {
    let mut filter = DedupFilter::new(1_000).unwrap();
    assert!(filter.should_forward(&row(TxKind::Deposit, 7)));
    assert!(!filter.should_forward(&row(TxKind::Deposit, 7)));
    assert!(!filter.should_forward(&row(TxKind::Withdrawal, 7)));
}

#[test]
fn no_false_negatives() {
    let mut filter = DedupFilter::new(10_000).unwrap();
    for id in 0..100u32 {
        assert!(filter.should_forward(&row(TxKind::Deposit, id * 31 + 5)));
    }
    // Every id recorded above must be reported present from now on.
    for id in 0..100u32 {
        assert!(!filter.should_forward(&row(TxKind::Withdrawal, id * 31 + 5)));
    }
}

#[test]
fn dispute_family_never_deduplicated() {
    let mut filter = DedupFilter::new(1_000).unwrap();
    assert!(filter.should_forward(&row(TxKind::Deposit, 9)));
    // The same id as a dispute, resolve or chargeback always passes: the
    // lifecycle state machine, not the filter, rejects replays of these.
    assert!(filter.should_forward(&row(TxKind::Dispute, 9)));
    assert!(filter.should_forward(&row(TxKind::Dispute, 9)));
    assert!(filter.should_forward(&row(TxKind::Resolve, 9)));
    assert!(filter.should_forward(&row(TxKind::Chargeback, 9)));
}
