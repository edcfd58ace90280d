//! A deposit: credits an amount to a client's available balance and
//! records the deposit for possible later dispute.

use vstd::prelude::*;

use crate::account::Account;
use crate::account::AccountMap;
use crate::deposit_store::DepositStore;
use crate::deposit_store::StoredDeposit;
use crate::error::Error;

verus! {

/// A deposit of `amount` ten-thousandths for `client`, identified by the
/// globally unique transaction id `id`.
#[derive(Clone, Copy, Debug, PartialEq, Eq, Structural)]
pub struct DepositTx {
    pub client: u16,
    pub id: u32,
    pub amount: i64,
}

impl DepositTx {
    pub fn new(client: u16, id: u32, amount: i64) -> (t: DepositTx)
        ensures
            t == (DepositTx { client, id, amount }),
    {
        DepositTx { client, id, amount }
    }

    pub fn client(&self) -> (c: u16)
        ensures
            c == self.client,
    {
        self.client
    }

    pub fn id(&self) -> (id: u32)
        ensures
            id == self.id,
    {
        self.id
    }

    pub fn amount(&self) -> (a: i64)
        ensures
            a == self.amount,
    {
        self.amount
    }

    /// What `process` needs of the shard state: a non-negative amount
    /// (guaranteed upstream by the validation boundary) and headroom in
    /// the client's running balance.
    pub open spec fn spec_fits(tx: DepositTx, am: Map<u16, Account>) -> bool {
        &&& 0 <= tx.amount
        &&& am.contains_key(tx.client) ==> am[tx.client].available + tx.amount <= i128::MAX
    }

    /// The shard state and result that this deposit produces: the client's
    /// account is created if absent, credited unless locked, and on
    /// success the deposit is recorded for possible later dispute.
    pub open spec fn spec_process(
        tx: DepositTx,
        am: Map<u16, Account>,
        dm: Map<u32, StoredDeposit>,
    ) -> (Map<u16, Account>, Map<u32, StoredDeposit>, Result<(), Error>) {
        let a0 = if am.contains_key(tx.client) {
            am[tx.client]
        } else {
            Account::spec_new(tx.client)
        };
        let t = Account::spec_deposit(a0, tx.amount);
        if t.1 is Ok {
            (am.insert(tx.client, t.0), dm.insert(tx.id, StoredDeposit::spec_from(tx)), t.1)
        } else {
            (am.insert(tx.client, t.0), dm, t.1)
        }
    }

    /// Applies this deposit to a worker's ledger and deposit store.
    pub fn process<S: DepositStore>(
        &self,
        accounts: &mut AccountMap,
        stored_deposits: &mut S,
    ) -> (r: Result<(), Error>)
        requires
            DepositTx::spec_fits(*self, old(accounts)@),
        ensures
            final(accounts)@ == DepositTx::spec_process(
                *self,
                old(accounts)@,
                old(stored_deposits).contents(),
            ).0,
            final(stored_deposits).contents() == DepositTx::spec_process(
                *self,
                old(accounts)@,
                old(stored_deposits).contents(),
            ).1,
            r == DepositTx::spec_process(*self, old(accounts)@, old(stored_deposits).contents()).2,
            forall|c: u16|
                old(accounts)@.contains_key(c) && (#[trigger] old(accounts)@[c]).locked
                    ==> final(accounts)@.contains_key(c) && final(accounts)@[c].locked,
    {
        let ghost am0 = accounts@;
        let mut account = accounts.get_or_create(self.client());
        let ghost a0 = account;
        let r = account.deposit(self.amount());
        accounts.update(self.client(), account);
        proof {
            assert(am0.insert(self.client, a0).insert(self.client, account) =~= am0.insert(
                self.client,
                account,
            ));
        }
        match r {
            Ok(()) => {
                stored_deposits.insert(self);
                Ok(())
            },
            Err(e) => Err(e),
        }
    }
}

} // verus!
