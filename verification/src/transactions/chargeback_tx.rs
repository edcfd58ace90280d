//! A chargeback: the final reversal of a disputed deposit. The held funds
//! leave the account and the account is locked for the rest of the run.

use vstd::prelude::*;

use crate::account::Account;
use crate::account::AccountMap;
use crate::deposit_store::DepositStatus;
use crate::deposit_store::DepositStore;
use crate::deposit_store::StoredDeposit;
use crate::error::Error;

verus! {

/// A chargeback issued by `client` for the disputed deposit with
/// transaction id `id`.
#[derive(Clone, Copy, Debug, PartialEq, Eq, Structural)]
pub struct ChargebackTx {
    pub client: u16,
    pub id: u32,
}

impl ChargebackTx {
    pub fn new(client: u16, id: u32) -> (t: ChargebackTx)
        ensures
            t == (ChargebackTx { client, id }),
    {
        ChargebackTx { client, id }
    }

    pub fn client(&self) -> (c: u16)
        ensures
            c == self.client,
    {
        self.client
    }

    pub fn id(&self) -> (id: u32)
        ensures
            id == self.id,
    {
        self.id
    }

    /// What `process` needs of the shard state: where the chargeback will
    /// actually reach the account, the recorded amount is non-negative
    /// and the held balance has headroom for removing it.
    pub open spec fn spec_fits(
        tx: ChargebackTx,
        am: Map<u16, Account>,
        dm: Map<u32, StoredDeposit>,
    ) -> bool {
        (dm.contains_key(tx.id) && dm[tx.id].client == tx.client
            && DepositStatus::spec_chargeback(dm[tx.id].status) is Ok
            && am.contains_key(tx.client)) ==> {
            let d = dm[tx.id];
            let a = am[tx.client];
            &&& 0 <= d.amount
            &&& i128::MIN <= a.held - d.amount
        }
    }

    /// The shard state and result that this chargeback produces. Checks
    /// run in order: record lookup, owner match, account lookup, lifecycle
    /// transition; on success the held amount recorded at deposit time
    /// leaves the account and the account locks permanently.
    pub open spec fn spec_process(
        tx: ChargebackTx,
        am: Map<u16, Account>,
        dm: Map<u32, StoredDeposit>,
    ) -> (Map<u16, Account>, Map<u32, StoredDeposit>, Result<(), Error>) {
        if !dm.contains_key(tx.id) {
            (am, dm, Err(Error::StoredDepositNotFound(tx.id)))
        } else {
            let d = dm[tx.id];
            if tx.client != d.client {
                (am, dm, Err(Error::ClientMismatch {
                    tx_id: tx.id,
                    expected: d.client,
                    found: tx.client,
                }))
            } else if !am.contains_key(tx.client) {
                (am, dm, Err(Error::AccountNotFound(tx.client)))
            } else {
                match DepositStatus::spec_chargeback(d.status) {
                    Err(e) => (am, dm, Err(Error::DepositState(e))),
                    Ok(s2) => {
                        let dm2 = dm.insert(tx.id, StoredDeposit { status: s2, ..d });
                        let t = Account::spec_chargeback(am[tx.client], d.amount);
                        (am.insert(tx.client, t.0), dm2, Ok(()))
                    },
                }
            }
        }
    }

    /// Applies this chargeback to a worker's ledger and deposit store.
    /// The lifecycle transition is the idempotency guard: a second
    /// chargeback of the same deposit is rejected by the state machine,
    /// never applied twice.
    pub fn process<S: DepositStore>(
        &self,
        accounts: &mut AccountMap,
        stored_deposits: &mut S,
    ) -> (r: Result<(), Error>)
        requires
            ChargebackTx::spec_fits(*self, old(accounts)@, old(stored_deposits).contents()),
        ensures
            final(accounts)@ == ChargebackTx::spec_process(
                *self,
                old(accounts)@,
                old(stored_deposits).contents(),
            ).0,
            final(stored_deposits).contents() == ChargebackTx::spec_process(
                *self,
                old(accounts)@,
                old(stored_deposits).contents(),
            ).1,
            r == ChargebackTx::spec_process(
                *self,
                old(accounts)@,
                old(stored_deposits).contents(),
            ).2,
            forall|c: u16|
                old(accounts)@.contains_key(c) && (#[trigger] old(accounts)@[c]).locked
                    ==> final(accounts)@.contains_key(c) && final(accounts)@[c].locked,
    {
        match stored_deposits.get(self.id()) {
            None => Err(Error::StoredDepositNotFound(self.id())),
            Some(dep) => {
                match dep.ensure_client_matches(self.id(), self.client()) {
                    Err(e) => Err(e),
                    Ok(()) => {
                        match accounts.get_mut(self.client()) {
                            Err(e) => Err(e),
                            Ok(mut account) => {
                                let mut dep2 = dep;
                                match dep2.set_chargedback() {
                                    Err(e) => Err(Error::DepositState(e)),
                                    Ok(()) => {
                                        stored_deposits.update(self.id(), dep2);
                                        let r = account.chargeback(dep2.amount());
                                        accounts.update(self.client(), account);
                                        r
                                    },
                                }
                            },
                        }
                    },
                }
            },
        }
    }
}

} // verus!
