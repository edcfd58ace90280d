//! The partitioned execution model: a fixed pool of workers, each owning
//! one shard of accounts and deposit records exclusively.
//!
//! A transaction is routed to worker `client mod worker_count`. Routing is
//! a pure function of the client id, so every transaction for a given
//! client lands on the same worker, in submission order — per-account
//! serialization without any cross-worker coordination. The caller runs
//! one `Worker` per shard, feeds it rows in order, and merges the yielded
//! ledgers when the input is exhausted.

use vstd::prelude::*;

use crate::account::Account;
use crate::account::AccountMap;
use crate::deposit_store::DepositStore;
use crate::deposit_store::MemoryDepositStore;
use crate::deposit_store::StoredDeposit;
use crate::error::Error;
use crate::transactions::Transaction;
use crate::transactions::TransactionRow;

verus! {

/// The shard a client id belongs to in a pool of `worker_count` workers.
pub open spec fn spec_route(client: u16, worker_count: usize) -> int
    recommends
        worker_count > 0,
{
    client as int % worker_count as int
}

/// Routes a client id to its worker: a pure, deterministic function of
/// the client id and the pool size alone.
pub fn route(client: u16, worker_count: usize) -> (w: usize)
    requires
        worker_count > 0,
    ensures
        w == spec_route(client, worker_count),
        w < worker_count,
{
    (client as usize) % worker_count
}

/// Law: two workers of the same pool with different indices own disjoint
/// client sets, so merging their ledgers is a non-conflicting union.
pub proof fn lemma_shards_disjoint(
    am1: Map<u16, Account>,
    am2: Map<u16, Account>,
    i1: usize,
    i2: usize,
    worker_count: usize,
)
    requires
        worker_count > 0,
        i1 != i2,
        forall|c: u16| #[trigger] am1.contains_key(c) ==> spec_route(c, worker_count) == i1 as int,
        forall|c: u16| #[trigger] am2.contains_key(c) ==> spec_route(c, worker_count) == i2 as int,
    ensures
        am1.dom().disjoint(am2.dom()),
{
    assert forall|c: u16| am1.dom().contains(c) implies !am2.dom().contains(c) by {
        assert(am1.contains_key(c));
        if am2.dom().contains(c) {
            assert(am2.contains_key(c));
        }
    }
}

/// Each balance of `a` — and their sum — lies within `n` single-transfer
/// amounts of zero. One transaction moves each balance by at most
/// `i64::MAX`, so this bound follows a worker through its run and keeps
/// every `i128` balance far from overflow.
pub open spec fn balance_bounded(a: Account, n: int) -> bool {
    &&& -(n * (i64::MAX as int)) <= a.available <= n * (i64::MAX as int)
    &&& -(n * (i64::MAX as int)) <= a.held <= n * (i64::MAX as int)
    &&& -(n * (i64::MAX as int)) <= a.available + a.held <= n * (i64::MAX as int)
}

/// The ledger and record state left behind by a whole queue of rows,
/// applied in submission order, each failure local to its own row.
pub open spec fn spec_run(
    rows: Seq<TransactionRow>,
    am: Map<u16, Account>,
    dm: Map<u32, StoredDeposit>,
) -> (Map<u16, Account>, Map<u32, StoredDeposit>)
    decreases rows.len(),
{
    if rows.len() == 0 {
        (am, dm)
    } else {
        let s = spec_row_step(rows.first(), am, dm);
        spec_run(rows.drop_first(), s.0, s.1)
    }
}

/// The ledger and record state that one row leaves behind: conversion at
/// the validation boundary, then the transaction's transition function;
/// a row refused by the boundary leaves the shard untouched.
pub open spec fn spec_row_step(
    row: TransactionRow,
    am: Map<u16, Account>,
    dm: Map<u32, StoredDeposit>,
) -> (Map<u16, Account>, Map<u32, StoredDeposit>, Result<(), Error>) {
    match Transaction::spec_try_from(row) {
        Err(e) => (am, dm, Err(e)),
        Ok(tx) => Transaction::spec_process(tx, am, dm),
    }
}

proof fn lemma_bound_monotonic(a: Account, n: int, m: int)
    requires
        0 <= n <= m,
        balance_bounded(a, n),
    ensures
        balance_bounded(a, m),
{
    assert(n * (i64::MAX as int) <= m * (i64::MAX as int)) by (nonlinear_arith)
        requires
            0 <= n <= m,
    ;
}

/// One worker of the pool: the accounts and deposit records of its shard,
/// which it owns exclusively, plus its routing coordinates and a count of
/// the rows it has taken.
pub struct Worker {
    accounts: AccountMap,
    deposits: MemoryDepositStore,
    worker_index: usize,
    worker_count: usize,
    processed: u64,
}

impl Worker {
    /// This worker's shard of the ledger.
    pub closed spec fn ledger(&self) -> Map<u16, Account> {
        self.accounts@
    }

    /// This worker's shard of the deposit records.
    pub closed spec fn records(&self) -> Map<u32, StoredDeposit> {
        self.deposits.contents()
    }

    /// This worker's position in the pool.
    pub closed spec fn index(&self) -> usize {
        self.worker_index
    }

    /// The pool size this worker was created for.
    pub closed spec fn count(&self) -> usize {
        self.worker_count
    }

    /// How many rows this worker has taken so far.
    pub closed spec fn processed(&self) -> u64 {
        self.processed
    }

    #[verifier::type_invariant]
    spec fn wf(self) -> bool {
        &&& 0 < self.worker_count
        &&& self.worker_index < self.worker_count
        &&& forall|c: u16|
            #[trigger] self.accounts@.contains_key(c) ==> spec_route(c, self.worker_count)
                == self.worker_index as int
        &&& forall|c: u16|
            #[trigger] self.accounts@.contains_key(c) ==> balance_bounded(
                self.accounts@[c],
                self.processed as int,
            )
        &&& forall|id: u32|
            #[trigger] self.deposits.contents().contains_key(id) ==> 0
                <= self.deposits.contents()[id].amount
    }

    /// A fresh worker owning shard `worker_index` of a pool of
    /// `worker_count`.
    pub fn new(worker_index: usize, worker_count: usize) -> (w: Worker)
        requires
            worker_index < worker_count,
        ensures
            w.ledger() == Map::<u16, Account>::empty(),
            w.records() == Map::<u32, StoredDeposit>::empty(),
            w.index() == worker_index,
            w.count() == worker_count,
            w.processed() == 0,
    {
        Worker {
            accounts: AccountMap::new(),
            deposits: MemoryDepositStore::new(),
            worker_index,
            worker_count,
            processed: 0,
        }
    }

    pub fn processed_count(&self) -> (n: u64)
        ensures
            n == self.processed(),
    {
        self.processed
    }

    /// Takes one input row routed to this shard: converts it at the
    /// validation boundary and applies the resulting transaction. A
    /// failure is local: it is reported in the result and the worker goes
    /// on; no other transaction's outcome is affected and nothing is
    /// rolled back.
    pub fn process_row(&mut self, row: TransactionRow) -> (r: Result<(), Error>)
        requires
            spec_route(row.client, old(self).count()) == old(self).index() as int,
            old(self).processed() < u64::MAX,
        ensures
            final(self).index() == old(self).index(),
            final(self).count() == old(self).count(),
            final(self).processed() == old(self).processed() + 1,
            final(self).ledger() == spec_row_step(row, old(self).ledger(), old(self).records()).0,
            final(self).records() == spec_row_step(row, old(self).ledger(), old(self).records()).1,
            r == spec_row_step(row, old(self).ledger(), old(self).records()).2,
            forall|c: u16|
                #[trigger] final(self).ledger().contains_key(c) ==> spec_route(
                    c,
                    final(self).count(),
                ) == final(self).index() as int,
            forall|c: u16|
                old(self).ledger().contains_key(c) && (#[trigger] old(self).ledger()[c]).locked
                    ==> final(self).ledger().contains_key(c) && final(self).ledger()[c].locked,
    {
        proof {
            use_type_invariant(&*self);
        }
        let ghost n = self.processed as int;
        self.processed = self.processed + 1;
        match Transaction::try_from(row) {
            Err(e) => {
                proof {
                    assert forall|c: u16| #[trigger] self.accounts@.contains_key(c) implies
                        balance_bounded(self.accounts@[c], n + 1) by {
                        lemma_bound_monotonic(self.accounts@[c], n, n + 1);
                    }
                }
                Err(e)
            },
            Ok(tx) => {
                proof {
                    lemma_step_fits(tx, self.accounts@, self.deposits.contents(), n);
                }
                let mut accounts = AccountMap::new();
                let mut deposits = MemoryDepositStore::new();
                core::mem::swap(&mut accounts, &mut self.accounts);
                core::mem::swap(&mut deposits, &mut self.deposits);
                let r = tx.process(&mut accounts, &mut deposits);
                proof {
                    lemma_step_preserves_bounds(tx, old(self).ledger(), old(self).records(), n);
                }
                self.accounts = accounts;
                self.deposits = deposits;
                r
            },
        }
    }

    /// Drains a whole queue of rows routed to this shard, in order: the
    /// batch form of `process_row`. A row's failure is local — reflected
    /// in that row's outcome under the run's transition function and
    /// nowhere else; the worker continues with the next row.
    pub fn run(&mut self, rows: &Vec<TransactionRow>)
        requires
            forall|i: int|
                0 <= i < rows@.len() ==> spec_route(
                    (#[trigger] rows@[i]).client,
                    old(self).count(),
                ) == old(self).index() as int,
            old(self).processed() + rows@.len() <= u64::MAX,
        ensures
            final(self).index() == old(self).index(),
            final(self).count() == old(self).count(),
            final(self).processed() == old(self).processed() + rows@.len(),
            final(self).ledger() == spec_run(rows@, old(self).ledger(), old(self).records()).0,
            final(self).records() == spec_run(rows@, old(self).ledger(), old(self).records()).1,
    {
        let n = rows.len();
        let mut i: usize = 0;
        proof {
            assert(rows@.skip(0) =~= rows@);
        }
        while i < n
            invariant
                n == rows@.len(),
                i <= n,
                self.index() == old(self).index(),
                self.count() == old(self).count(),
                self.processed() == old(self).processed() + i,
                old(self).processed() + n <= u64::MAX,
                forall|j: int|
                    0 <= j < rows@.len() ==> spec_route(
                        (#[trigger] rows@[j]).client,
                        old(self).count(),
                    ) == old(self).index() as int,
                spec_run(rows@.skip(i as int), self.ledger(), self.records()) == spec_run(
                    rows@,
                    old(self).ledger(),
                    old(self).records(),
                ),
            decreases n - i,
        {
            let ghost pre = rows@.skip(i as int);
            proof {
                assert(pre.first() == rows@[i as int]);
                assert(pre.drop_first() =~= rows@.skip(i + 1));
            }
            let _ = self.process_row(rows[i]);
            i = i + 1;
        }
        proof {
            assert(rows@.skip(n as int) =~= Seq::<TransactionRow>::empty());
        }
    }

    /// Finishes the worker and yields its shard of the ledger, for the
    /// merge after every worker is done. Every client held is one this
    /// worker owns by routing.
    pub fn into_accounts(self) -> (m: AccountMap)
        ensures
            m@ == self.ledger(),
            forall|c: u16|
                #[trigger] m@.contains_key(c) ==> spec_route(c, self.count()) == self.index() as int,
    {
        proof {
            use_type_invariant(&self);
        }
        let Worker { accounts, .. } = self;
        accounts
    }
}

/// Within the balance bounds that a worker maintains, the next
/// transaction's arithmetic cannot leave the `i128` range.
proof fn lemma_step_fits(
    tx: Transaction,
    am: Map<u16, Account>,
    dm: Map<u32, StoredDeposit>,
    n: int,
)
    requires
        0 <= n,
        n + 1 <= u64::MAX as int,
        match tx {
            Transaction::Deposit(t) => 0 <= t.amount,
            Transaction::Withdrawal(t) => 0 <= t.amount,
            _ => true,
        },
        forall|c: u16| #[trigger] am.contains_key(c) ==> balance_bounded(am[c], n),
        forall|id: u32| #[trigger] dm.contains_key(id) ==> 0 <= dm[id].amount,
    ensures
        Transaction::spec_fits(tx, am, dm),
{
    lemma_pool_bound(n);
}

/// `n` single-transfer amounts stay far inside the `i128` range for any
/// feasible row count `n`.
proof fn lemma_pool_bound(n: int)
    requires
        0 <= n,
        n + 1 <= u64::MAX as int,
    ensures
        (n + 1) * (i64::MAX as int) < i128::MAX as int,
        -(i128::MAX as int) < -((n + 1) * (i64::MAX as int)),
{
    assert((n + 1) * (i64::MAX as int) <= (u64::MAX as int) * (i64::MAX as int))
        by (nonlinear_arith)
        requires
            0 <= n,
            n + 1 <= u64::MAX as int,
    ;
}

/// Applying one transaction within the bounds for `n` rows leaves every
/// balance within the bounds for `n + 1` rows, keeps every stored amount
/// non-negative, and creates accounts only for the transaction's own
/// client.
proof fn lemma_step_preserves_bounds(
    tx: Transaction,
    am: Map<u16, Account>,
    dm: Map<u32, StoredDeposit>,
    n: int,
)
    requires
        0 <= n,
        n + 1 <= u64::MAX as int,
        match tx {
            Transaction::Deposit(t) => 0 <= t.amount,
            Transaction::Withdrawal(t) => 0 <= t.amount,
            _ => true,
        },
        forall|c: u16| #[trigger] am.contains_key(c) ==> balance_bounded(am[c], n),
        forall|id: u32| #[trigger] dm.contains_key(id) ==> 0 <= dm[id].amount,
    ensures
        forall|c: u16|
            #[trigger] Transaction::spec_process(tx, am, dm).0.contains_key(c) ==> am.contains_key(
                c,
            ) || c == Transaction::spec_client(tx),
        forall|c: u16|
            #[trigger] Transaction::spec_process(tx, am, dm).0.contains_key(c)
                ==> balance_bounded(Transaction::spec_process(tx, am, dm).0[c], n + 1),
        forall|id: u32|
            #[trigger] Transaction::spec_process(tx, am, dm).1.contains_key(id) ==> 0
                <= Transaction::spec_process(tx, am, dm).1[id].amount,
{
    lemma_pool_bound(n);
    let post = Transaction::spec_process(tx, am, dm).0;
    assert forall|c: u16| #[trigger] post.contains_key(c) implies balance_bounded(
        post[c],
        n + 1,
    ) by {
        if am.contains_key(c) {
            lemma_bound_monotonic(am[c], n, n + 1);
        }
    }
}

} // verus!
