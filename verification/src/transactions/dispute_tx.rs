//! A dispute: places the amount of an earlier deposit on hold while the
//! deposit is contested.

use vstd::prelude::*;

use crate::account::Account;
use crate::account::AccountMap;
use crate::deposit_store::DepositStatus;
use crate::deposit_store::DepositStore;
use crate::deposit_store::StoredDeposit;
use crate::error::Error;

verus! {

/// A dispute raised by `client` against the deposit with transaction id
/// `id`. The disputed amount is never carried by the dispute itself: it is
/// always the amount recorded when the deposit was applied.
#[derive(Clone, Copy, Debug, PartialEq, Eq, Structural)]
pub struct DisputeTx {
    pub client: u16,
    pub id: u32,
}

impl DisputeTx {
    pub fn new(client: u16, id: u32) -> (t: DisputeTx)
        ensures
            t == (DisputeTx { client, id }),
    {
        DisputeTx { client, id }
    }

    pub fn client(&self) -> (c: u16)
        ensures
            c == self.client,
    {
        self.client
    }

    pub fn id(&self) -> (id: u32)
        ensures
            id == self.id,
    {
        self.id
    }

    /// What `process` needs of the shard state: where the dispute will
    /// actually reach the account (record found, owner matches, the
    /// lifecycle table allows the dispute, account present), the recorded
    /// amount is non-negative and the balances have headroom for the hold.
    pub open spec fn spec_fits(
        tx: DisputeTx,
        am: Map<u16, Account>,
        dm: Map<u32, StoredDeposit>,
    ) -> bool {
        (dm.contains_key(tx.id) && dm[tx.id].client == tx.client
            && DepositStatus::spec_dispute(dm[tx.id].status) is Ok
            && am.contains_key(tx.client)) ==> {
            let d = dm[tx.id];
            let a = am[tx.client];
            &&& 0 <= d.amount
            &&& i128::MIN <= a.available - d.amount
            &&& a.held + d.amount <= i128::MAX
        }
    }

    /// The shard state and result that this dispute produces. Checks run
    /// in order: record lookup, owner match, lifecycle transition; only
    /// then is the account's balance touched, with the amount recorded at
    /// deposit time. The dispute is legal even on a locked account.
    pub open spec fn spec_process(
        tx: DisputeTx,
        am: Map<u16, Account>,
        dm: Map<u32, StoredDeposit>,
    ) -> (Map<u16, Account>, Map<u32, StoredDeposit>, Result<(), Error>) {
        if !dm.contains_key(tx.id) {
            (am, dm, Err(Error::StoredDepositNotFound(tx.id)))
        } else {
            let d = dm[tx.id];
            if tx.client != d.client {
                (am, dm, Err(Error::ClientMismatch {
                    tx_id: tx.id,
                    expected: d.client,
                    found: tx.client,
                }))
            } else {
                match DepositStatus::spec_dispute(d.status) {
                    Err(e) => (am, dm, Err(Error::DepositState(e))),
                    Ok(s2) => {
                        let dm2 = dm.insert(tx.id, StoredDeposit { status: s2, ..d });
                        if !am.contains_key(tx.client) {
                            (am, dm2, Err(Error::AccountNotFound(tx.client)))
                        } else {
                            let t = Account::spec_dispute(am[tx.client], d.amount);
                            (am.insert(tx.client, t.0), dm2, Ok(()))
                        }
                    },
                }
            }
        }
    }

    /// Applies this dispute to a worker's ledger and deposit store.
    pub fn process<S: DepositStore>(
        &self,
        accounts: &mut AccountMap,
        stored_deposits: &mut S,
    ) -> (r: Result<(), Error>)
        requires
            DisputeTx::spec_fits(*self, old(accounts)@, old(stored_deposits).contents()),
        ensures
            final(accounts)@ == DisputeTx::spec_process(
                *self,
                old(accounts)@,
                old(stored_deposits).contents(),
            ).0,
            final(stored_deposits).contents() == DisputeTx::spec_process(
                *self,
                old(accounts)@,
                old(stored_deposits).contents(),
            ).1,
            r == DisputeTx::spec_process(*self, old(accounts)@, old(stored_deposits).contents()).2,
            forall|c: u16|
                old(accounts)@.contains_key(c) && (#[trigger] old(accounts)@[c]).locked
                    ==> final(accounts)@.contains_key(c) && final(accounts)@[c].locked,
    {
        match stored_deposits.get(self.id()) {
            None => Err(Error::StoredDepositNotFound(self.id())),
            Some(dep) => {
                match dep.ensure_client_matches(self.id(), self.client()) {
                    Err(e) => Err(e),
                    Ok(()) => {
                        let mut dep2 = dep;
                        match dep2.set_disputed() {
                            Err(e) => Err(Error::DepositState(e)),
                            Ok(()) => {
                                stored_deposits.update(self.id(), dep2);
                                match accounts.get_mut(self.client()) {
                                    Err(e) => Err(e),
                                    Ok(mut account) => {
                                        let r = account.dispute(dep2.amount());
                                        accounts.update(self.client(), account);
                                        r
                                    },
                                }
                            },
                        }
                    },
                }
            },
        }
    }
}

} // verus!
