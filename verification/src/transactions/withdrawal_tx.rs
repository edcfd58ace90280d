//! A withdrawal: debits an amount from a client's available balance.

use vstd::prelude::*;

use crate::account::Account;
use crate::account::AccountMap;
use crate::error::Error;

verus! {

/// A withdrawal of `amount` ten-thousandths for `client`, identified by
/// the transaction id `id`.
#[derive(Clone, Copy, Debug, PartialEq, Eq, Structural)]
pub struct WithdrawalTx {
    pub client: u16,
    pub id: u32,
    pub amount: i64,
}

impl WithdrawalTx {
    pub fn new(client: u16, id: u32, amount: i64) -> (t: WithdrawalTx)
        ensures
            t == (WithdrawalTx { client, id, amount }),
    {
        WithdrawalTx { client, id, amount }
    }

    pub fn client(&self) -> (c: u16)
        ensures
            c == self.client,
    {
        self.client
    }

    pub fn id(&self) -> (id: u32)
        ensures
            id == self.id,
    {
        self.id
    }

    pub fn amount(&self) -> (a: i64)
        ensures
            a == self.amount,
    {
        self.amount
    }

    /// What `process` needs: a non-negative amount, guaranteed upstream
    /// by the validation boundary. A withdrawal never overflows: it only
    /// subtracts when `available >= amount >= 0`.
    pub open spec fn spec_fits(tx: WithdrawalTx) -> bool {
        0 <= tx.amount
    }

    /// The shard state and result that this withdrawal produces: the
    /// client's account is created if absent (and then necessarily lacks
    /// the funds unless the amount is zero), debited when unlocked and
    /// sufficiently funded, and left untouched on any failure.
    pub open spec fn spec_process(tx: WithdrawalTx, am: Map<u16, Account>) -> (
        Map<u16, Account>,
        Result<(), Error>,
    ) {
        let a0 = if am.contains_key(tx.client) {
            am[tx.client]
        } else {
            Account::spec_new(tx.client)
        };
        let t = Account::spec_withdraw(a0, tx.amount);
        (am.insert(tx.client, t.0), t.1)
    }

    /// Applies this withdrawal to a worker's ledger.
    pub fn process(&self, accounts: &mut AccountMap) -> (r: Result<(), Error>)
        requires
            WithdrawalTx::spec_fits(*self),
        ensures
            final(accounts)@ == WithdrawalTx::spec_process(*self, old(accounts)@).0,
            r == WithdrawalTx::spec_process(*self, old(accounts)@).1,
            forall|c: u16|
                old(accounts)@.contains_key(c) && (#[trigger] old(accounts)@[c]).locked
                    ==> final(accounts)@.contains_key(c) && final(accounts)@[c].locked,
    {
        let ghost am0 = accounts@;
        let mut account = accounts.get_or_create(self.client());
        let ghost a0 = account;
        let r = account.withdraw(self.amount());
        accounts.update(self.client(), account);
        proof {
            assert(am0.insert(self.client, a0).insert(self.client, account) =~= am0.insert(
                self.client,
                account,
            ));
        }
        r
    }
}

} // verus!
