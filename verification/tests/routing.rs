//! Tests for routing, the worker pool and the merge of disjoint shards.

use toy_processor::account::AccountMap;
use toy_processor::output::AccountOutput;
use toy_processor::transactions::TransactionRow;
use toy_processor::transactions::TxKind;
use toy_processor::worker::route;
use toy_processor::worker::Worker;

/// `n` whole units as a count of ten-thousandths.
fn dec(n: i64) -> i64 {
    n * 10_000
}

fn deposit_row(client: u16, tx: u32, amount: i64) -> TransactionRow {
    TransactionRow { tx_type: TxKind::Deposit, client, tx, amount: Some(amount) }
}

#[test]
fn routing_is_deterministic_and_stable() {
    for client in [0u16, 1, 2, 3, 4, 5, 100, 65535] {
        let first = route(client, 4);
        for _ in 0..10 {
            assert_eq!(route(client, 4), first);
        }
        assert!(first < 4);
        assert_eq!(first, (client as usize) % 4);
    }
}

#[test]
fn same_client_same_worker_across_pool_sizes() {
    for workers in 1usize..=8 {
        for client in 0u16..32 {
            assert_eq!(route(client, workers), route(client, workers));
            assert!(route(client, workers) < workers);
        }
    }
}

#[test]
fn disjoint_shards_merge_into_sorted_output() {
    // A pool of two workers; even clients to shard 0, odd to shard 1.
    let mut worker0 = Worker::new(0, 2);
    let mut worker1 = Worker::new(1, 2);

    let rows = vec![
        deposit_row(4, 1, dec(10)),
        deposit_row(1, 2, dec(20)),
        deposit_row(2, 3, dec(30)),
        deposit_row(3, 4, dec(40)),
        deposit_row(0, 5, dec(50)),
    ];
    for row in rows {
        if route(row.client, 2) == 0 {
            worker0.process_row(row).unwrap();
        } else {
            worker1.process_row(row).unwrap();
        }
    }

    let mut merged = AccountMap::new();
    merged.merge(worker0.into_accounts());
    merged.merge(worker1.into_accounts());
    assert_eq!(merged.len(), 5);
    assert!(!merged.is_empty());

    let sorted = merged.into_iter_sorted();
    let clients: Vec<u16> = sorted.iter().map(|a| a.client).collect();
    assert_eq!(clients, vec![0, 1, 2, 3, 4]);

    let available: Vec<String> = sorted
        .iter()
        .map(|a| AccountOutput::from(*a).available)
        .collect();
    assert_eq!(available, vec!["50.0000", "20.0000", "30.0000", "40.0000", "10.0000"]);
}

#[test]
fn merge_into_empty_map() {
    let mut worker = Worker::new(0, 1);
    worker.process_row(deposit_row(9, 1, dec(5))).unwrap();

    let mut merged = AccountMap::new();
    assert!(merged.is_empty());
    merged.merge(worker.into_accounts());
    assert_eq!(merged.len(), 1);
    let account = merged.get_mut(9).unwrap();
    assert_eq!(account.available(), dec(5) as i128);
}
