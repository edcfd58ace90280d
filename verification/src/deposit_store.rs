//! The deposit lifecycle store: one record per successfully applied
//! deposit, holding its owner, its amount and its lifecycle status.
//!
//! The status state machine is the sole idempotency guard for the
//! dispute family: reapplying a dispute, resolve or chargeback beyond its
//! first legal occurrence is rejected by the transition table, so a
//! balance effect can never be applied twice.

use vstd::prelude::*;

use crate::error::Error;
use crate::transactions::DepositTx;

verus! {

/// Where a deposit stands in its dispute lifecycle.
#[derive(Clone, Copy, Debug, PartialEq, Eq, Structural)]
pub enum DepositStatus {
    Clear,
    Disputed,
    Resolved,
    Chargedback,
}

/// An illegal lifecycle transition, named after the transition attempted
/// and the state that refused it.
#[derive(Clone, Copy, Debug, PartialEq, Eq, Structural)]
pub enum DepositStateError {
    AlreadyDisputed,
    CannotDisputeResolved,
    CannotDisputeChargedback,
    CannotResolveUndisputed,
    AlreadyResolved,
    CannotResolveChargedback,
    CannotChargebackUndisputed,
    CannotChargebackResolved,
    AlreadyChargedback,
}

impl DepositStatus {
    /// The transition table row for a dispute.
    pub open spec fn spec_dispute(s: DepositStatus) -> Result<DepositStatus, DepositStateError> {
        match s {
            DepositStatus::Clear => Ok(DepositStatus::Disputed),
            DepositStatus::Disputed => Err(DepositStateError::AlreadyDisputed),
            DepositStatus::Resolved => Err(DepositStateError::CannotDisputeResolved),
            DepositStatus::Chargedback => Err(DepositStateError::CannotDisputeChargedback),
        }
    }

    /// The transition table row for a resolve.
    pub open spec fn spec_resolve(s: DepositStatus) -> Result<DepositStatus, DepositStateError> {
        match s {
            DepositStatus::Disputed => Ok(DepositStatus::Resolved),
            DepositStatus::Clear => Err(DepositStateError::CannotResolveUndisputed),
            DepositStatus::Resolved => Err(DepositStateError::AlreadyResolved),
            DepositStatus::Chargedback => Err(DepositStateError::CannotResolveChargedback),
        }
    }

    /// The transition table row for a chargeback.
    pub open spec fn spec_chargeback(s: DepositStatus) -> Result<DepositStatus, DepositStateError> {
        match s {
            DepositStatus::Disputed => Ok(DepositStatus::Chargedback),
            DepositStatus::Clear => Err(DepositStateError::CannotChargebackUndisputed),
            DepositStatus::Resolved => Err(DepositStateError::CannotChargebackResolved),
            DepositStatus::Chargedback => Err(DepositStateError::AlreadyChargedback),
        }
    }

    /// Takes the dispute transition, or reports why it is illegal.
    pub fn dispute(&mut self) -> (r: Result<(), DepositStateError>)
        ensures
            DepositStatus::spec_dispute(*old(self)) is Ok ==> r is Ok
                && *final(self) == DepositStatus::spec_dispute(*old(self))->Ok_0,
            DepositStatus::spec_dispute(*old(self)) is Err ==> *final(self) == *old(self)
                && r == Err::<(), DepositStateError>(DepositStatus::spec_dispute(*old(self))->Err_0),
    {
        match self {
            DepositStatus::Clear => {
                *self = DepositStatus::Disputed;
                Ok(())
            },
            DepositStatus::Disputed => Err(DepositStateError::AlreadyDisputed),
            DepositStatus::Resolved => Err(DepositStateError::CannotDisputeResolved),
            DepositStatus::Chargedback => Err(DepositStateError::CannotDisputeChargedback),
        }
    }

    /// Takes the resolve transition, or reports why it is illegal.
    pub fn resolve(&mut self) -> (r: Result<(), DepositStateError>)
        ensures
            DepositStatus::spec_resolve(*old(self)) is Ok ==> r is Ok
                && *final(self) == DepositStatus::spec_resolve(*old(self))->Ok_0,
            DepositStatus::spec_resolve(*old(self)) is Err ==> *final(self) == *old(self)
                && r == Err::<(), DepositStateError>(DepositStatus::spec_resolve(*old(self))->Err_0),
    {
        match self {
            DepositStatus::Disputed => {
                *self = DepositStatus::Resolved;
                Ok(())
            },
            DepositStatus::Clear => Err(DepositStateError::CannotResolveUndisputed),
            DepositStatus::Resolved => Err(DepositStateError::AlreadyResolved),
            DepositStatus::Chargedback => Err(DepositStateError::CannotResolveChargedback),
        }
    }

    /// Takes the chargeback transition, or reports why it is illegal.
    pub fn chargeback(&mut self) -> (r: Result<(), DepositStateError>)
        ensures
            DepositStatus::spec_chargeback(*old(self)) is Ok ==> r is Ok
                && *final(self) == DepositStatus::spec_chargeback(*old(self))->Ok_0,
            DepositStatus::spec_chargeback(*old(self)) is Err ==> *final(self) == *old(self)
                && r == Err::<(), DepositStateError>(DepositStatus::spec_chargeback(*old(self))->Err_0),
    {
        match self {
            DepositStatus::Disputed => {
                *self = DepositStatus::Chargedback;
                Ok(())
            },
            DepositStatus::Clear => Err(DepositStateError::CannotChargebackUndisputed),
            DepositStatus::Resolved => Err(DepositStateError::CannotChargebackResolved),
            DepositStatus::Chargedback => Err(DepositStateError::AlreadyChargedback),
        }
    }
}

/// Law: each lifecycle transition can be taken at most once. After a
/// legal dispute, disputing again fails; after a legal resolve, resolving
/// again fails; after a legal chargeback, charging back again fails. The
/// state machine therefore never lets a balance effect double-apply.
pub proof fn lemma_lifecycle_no_reapply(s: DepositStatus)
    ensures
        DepositStatus::spec_dispute(s) is Ok ==> DepositStatus::spec_dispute(
            DepositStatus::spec_dispute(s)->Ok_0,
        ) == Err::<DepositStatus, DepositStateError>(DepositStateError::AlreadyDisputed),
        DepositStatus::spec_resolve(s) is Ok ==> DepositStatus::spec_resolve(
            DepositStatus::spec_resolve(s)->Ok_0,
        ) == Err::<DepositStatus, DepositStateError>(DepositStateError::AlreadyResolved),
        DepositStatus::spec_chargeback(s) is Ok ==> DepositStatus::spec_chargeback(
            DepositStatus::spec_chargeback(s)->Ok_0,
        ) == Err::<DepositStatus, DepositStateError>(DepositStateError::AlreadyChargedback),
{
}

/// Law: `Resolved` and `Chargedback` are terminal. A resolved deposit can
/// never be disputed again (so a dispute–resolve round trip permanently
/// bars re-dispute), and a charged-back deposit admits no transition at
/// all.
pub proof fn lemma_lifecycle_terminal(s: DepositStatus)
    ensures
        DepositStatus::spec_resolve(s) is Ok ==> DepositStatus::spec_dispute(
            DepositStatus::spec_resolve(s)->Ok_0,
        ) == Err::<DepositStatus, DepositStateError>(DepositStateError::CannotDisputeResolved),
        DepositStatus::spec_chargeback(s) is Ok ==> DepositStatus::spec_dispute(
            DepositStatus::spec_chargeback(s)->Ok_0,
        ) == Err::<DepositStatus, DepositStateError>(DepositStateError::CannotDisputeChargedback),
        DepositStatus::spec_chargeback(s) is Ok ==> DepositStatus::spec_resolve(
            DepositStatus::spec_chargeback(s)->Ok_0,
        ) == Err::<DepositStatus, DepositStateError>(DepositStateError::CannotResolveChargedback),
{
}

/// The record kept for one successfully applied deposit: its owner, its
/// amount (in ten-thousandths) and where it stands in the dispute
/// lifecycle. The recorded `client` is the source of truth when a
/// dispute-family transaction claims this deposit.
#[derive(Clone, Copy, Debug, PartialEq, Eq, Structural)]
pub struct StoredDeposit {
    pub client: u16,
    pub amount: i64,
    pub status: DepositStatus,
}

impl StoredDeposit {
    /// The record that a freshly applied deposit leaves behind.
    pub open spec fn spec_from(tx: DepositTx) -> StoredDeposit {
        StoredDeposit { client: tx.client, amount: tx.amount, status: DepositStatus::Clear }
    }

    pub fn from(tx: &DepositTx) -> (d: StoredDeposit)
        ensures
            d == StoredDeposit::spec_from(*tx),
    {
        StoredDeposit { client: tx.client, amount: tx.amount, status: DepositStatus::Clear }
    }

    pub fn client(&self) -> (c: u16)
        ensures
            c == self.client,
    {
        self.client
    }

    pub fn amount(&self) -> (a: i64)
        ensures
            a == self.amount,
    {
        self.amount
    }

    /// Marks the deposit disputed, if the lifecycle table allows it.
    pub fn set_disputed(&mut self) -> (r: Result<(), DepositStateError>)
        ensures
            final(self).client == old(self).client,
            final(self).amount == old(self).amount,
            DepositStatus::spec_dispute(old(self).status) is Ok ==> r is Ok
                && final(self).status == DepositStatus::spec_dispute(old(self).status)->Ok_0,
            DepositStatus::spec_dispute(old(self).status) is Err ==> *final(self) == *old(self)
                && r == Err::<(), DepositStateError>(DepositStatus::spec_dispute(old(self).status)->Err_0),
    {
        self.status.dispute()
    }

    /// Marks the deposit resolved, if the lifecycle table allows it.
    pub fn set_resolved(&mut self) -> (r: Result<(), DepositStateError>)
        ensures
            final(self).client == old(self).client,
            final(self).amount == old(self).amount,
            DepositStatus::spec_resolve(old(self).status) is Ok ==> r is Ok
                && final(self).status == DepositStatus::spec_resolve(old(self).status)->Ok_0,
            DepositStatus::spec_resolve(old(self).status) is Err ==> *final(self) == *old(self)
                && r == Err::<(), DepositStateError>(DepositStatus::spec_resolve(old(self).status)->Err_0),
    {
        self.status.resolve()
    }

    /// Marks the deposit charged back, if the lifecycle table allows it.
    pub fn set_chargedback(&mut self) -> (r: Result<(), DepositStateError>)
        ensures
            final(self).client == old(self).client,
            final(self).amount == old(self).amount,
            DepositStatus::spec_chargeback(old(self).status) is Ok ==> r is Ok
                && final(self).status == DepositStatus::spec_chargeback(old(self).status)->Ok_0,
            DepositStatus::spec_chargeback(old(self).status) is Err ==> *final(self) == *old(self)
                && r == Err::<(), DepositStateError>(DepositStatus::spec_chargeback(old(self).status)->Err_0),
    {
        self.status.chargeback()
    }

    /// Confirms that a dispute-family transaction comes from the deposit's
    /// recorded owner; refuses one client touching another's deposit.
    pub fn ensure_client_matches(&self, tx_id: u32, tx_client: u16) -> (r: Result<(), Error>)
        ensures
            r == if tx_client != self.client {
                Err::<(), Error>(Error::ClientMismatch {
                    tx_id,
                    expected: self.client,
                    found: tx_client,
                })
            } else {
                Ok::<(), Error>(())
            },
    {
        if tx_client != self.client {
            Err(Error::ClientMismatch { tx_id, expected: self.client, found: tx_client })
        } else {
            Ok(())
        }
    }
}

/// The capability a worker needs from its deposit record container. Any
/// container whose operations meet these contracts is substitutable; the
/// in-memory store below is the reference implementation.
pub trait DepositStore: Sized {
    /// The records currently stored, keyed by deposit transaction id.
    spec fn contents(&self) -> Map<u32, StoredDeposit>;

    /// Records a successfully applied deposit. A record already stored
    /// under the same id is replaced.
    fn insert(&mut self, tx: &DepositTx)
        ensures
            final(self).contents() == old(self).contents().insert(
                tx.id,
                StoredDeposit::spec_from(*tx),
            ),
    ;

    /// Looks up the record for a transaction id.
    fn get(&self, tx_id: u32) -> (r: Option<StoredDeposit>)
        ensures
            r == if self.contents().contains_key(tx_id) {
                Some(self.contents()[tx_id])
            } else {
                None::<StoredDeposit>
            },
    ;

    /// Replaces the record stored under an id that is already present.
    fn update(&mut self, tx_id: u32, d: StoredDeposit)
        requires
            old(self).contents().contains_key(tx_id),
        ensures
            final(self).contents() == old(self).contents().insert(tx_id, d),
    ;

    /// Removes and returns the record for a transaction id, if present.
    fn remove(&mut self, tx_id: u32) -> (r: Option<StoredDeposit>)
        ensures
            r == if old(self).contents().contains_key(tx_id) {
                Some(old(self).contents()[tx_id])
            } else {
                None::<StoredDeposit>
            },
            final(self).contents() == old(self).contents().remove(tx_id),
    ;
}

/// The id-to-record map that a sequence of `(id, record)` entries
/// represents; a later entry under the same id wins.
pub open spec fn entries_map(s: Seq<(u32, StoredDeposit)>) -> Map<u32, StoredDeposit>
    decreases s.len(),
{
    if s.len() == 0 {
        Map::empty()
    } else {
        entries_map(s.drop_last()).insert(s.last().0, s.last().1)
    }
}

/// No two entries carry the same id.
pub open spec fn entries_distinct(s: Seq<(u32, StoredDeposit)>) -> bool {
    forall|i: int, j: int|
        0 <= i < j < s.len() ==> (#[trigger] s[i]).0 != (#[trigger] s[j]).0
}

proof fn lemma_entries_map_contains(s: Seq<(u32, StoredDeposit)>, k: u32)
    ensures
        entries_map(s).contains_key(k) <==> (exists|i: int|
            0 <= i < s.len() && (#[trigger] s[i]).0 == k),
    decreases s.len(),
{
    if s.len() > 0 {
        lemma_entries_map_contains(s.drop_last(), k);
        if s.last().0 == k {
            assert(s[s.len() - 1].0 == k);
        } else if entries_map(s).contains_key(k) {
            let i = choose|i: int| 0 <= i < s.drop_last().len() && (#[trigger] s.drop_last()[i]).0 == k;
            assert(s[i].0 == k);
        } else {
            assert forall|i: int| 0 <= i < s.len() implies (#[trigger] s[i]).0 != k by {
                if i < s.len() - 1 {
                    assert(s.drop_last()[i].0 != k);
                }
            }
        }
    }
}

proof fn lemma_entries_map_index(s: Seq<(u32, StoredDeposit)>, i: int)
    requires
        entries_distinct(s),
        0 <= i < s.len(),
    ensures
        entries_map(s).contains_key(s[i].0),
        entries_map(s)[s[i].0] == s[i].1,
    decreases s.len(),
{
    if i < s.len() - 1 {
        assert(s.drop_last()[i] == s[i]);
        lemma_entries_map_index(s.drop_last(), i);
        assert(s[i].0 != s.last().0);
    }
}

proof fn lemma_entries_map_update(s: Seq<(u32, StoredDeposit)>, i: int, e: (u32, StoredDeposit))
    requires
        entries_distinct(s),
        0 <= i < s.len(),
        e.0 == s[i].0,
    ensures
        entries_map(s.update(i, e)) == entries_map(s).insert(e.0, e.1),
        entries_distinct(s.update(i, e)),
    decreases s.len(),
{
    let t = s.update(i, e);
    if i == s.len() - 1 {
        assert(t.drop_last() =~= s.drop_last());
        assert(t.last() == e);
        assert(entries_map(t) == entries_map(s.drop_last()).insert(e.0, e.1));
        assert(entries_map(s.drop_last()).insert(e.0, e.1) =~= entries_map(s).insert(e.0, e.1));
    } else {
        assert(t.drop_last() =~= s.drop_last().update(i, e));
        assert(t.last() == s.last());
        assert(s.drop_last()[i] == s[i]);
        lemma_entries_map_update(s.drop_last(), i, e);
        assert(e.0 != s.last().0);
        assert(entries_map(t) == entries_map(s.drop_last()).insert(e.0, e.1).insert(
            s.last().0,
            s.last().1,
        ));
        assert(entries_map(s.drop_last()).insert(e.0, e.1).insert(s.last().0, s.last().1)
            =~= entries_map(s).insert(e.0, e.1));
    }
}

proof fn lemma_entries_map_remove(s: Seq<(u32, StoredDeposit)>, i: int)
    requires
        entries_distinct(s),
        0 <= i < s.len(),
    ensures
        entries_map(s.remove(i)) == entries_map(s).remove(s[i].0),
        entries_distinct(s.remove(i)),
    decreases s.len(),
{
    let t = s.remove(i);
    if i == s.len() - 1 {
        assert(t =~= s.drop_last());
        lemma_entries_map_contains(s.drop_last(), s[i].0);
        assert forall|j: int| 0 <= j < s.drop_last().len() implies (#[trigger] s.drop_last()[j]).0
            != s[i].0 by {
            assert(s.drop_last()[j] == s[j]);
        }
        assert(!entries_map(s.drop_last()).contains_key(s[i].0));
        assert(entries_map(s.drop_last()) =~= entries_map(s).remove(s[i].0));
    } else {
        assert(t.drop_last() =~= s.drop_last().remove(i));
        assert(t.last() == s.last());
        assert(s.drop_last()[i] == s[i]);
        lemma_entries_map_remove(s.drop_last(), i);
        assert(entries_map(t) == entries_map(s.drop_last()).remove(s[i].0).insert(
            s.last().0,
            s.last().1,
        ));
        assert(s[i].0 != s.last().0);
        assert(entries_map(s.drop_last()).remove(s[i].0).insert(s.last().0, s.last().1)
            =~= entries_map(s).remove(s[i].0));
    }
}

/// The reference deposit store: an in-memory association list with
/// distinct ids. Memory grows with the number of successful deposits for
/// the run's lifetime — an accepted scaling limit of this batch design,
/// not a leak.
pub struct MemoryDepositStore {
    entries: Vec<(u32, StoredDeposit)>,
}

impl MemoryDepositStore {
    #[verifier::type_invariant]
    spec fn wf(self) -> bool {
        entries_distinct(self.entries@)
    }

    /// An empty store.
    pub fn new() -> (s: MemoryDepositStore)
        ensures
            s.contents() == Map::<u32, StoredDeposit>::empty(),
    {
        MemoryDepositStore { entries: Vec::new() }
    }

    /// The index holding `tx_id`, if any.
    fn find_index(&self, tx_id: u32) -> (r: Option<usize>)
        ensures
            match r {
                Some(i) => i < self.entries@.len() && self.entries@[i as int].0 == tx_id,
                None => forall|j: int|
                    0 <= j < self.entries@.len() ==> (#[trigger] self.entries@[j]).0 != tx_id,
            },
    {
        let n = self.entries.len();
        let mut i: usize = 0;
        while i < n
            invariant
                n == self.entries@.len(),
                i <= n,
                forall|j: int| 0 <= j < i ==> (#[trigger] self.entries@[j]).0 != tx_id,
            decreases n - i,
        {
            if self.entries[i].0 == tx_id {
                return Some(i);
            }
            i = i + 1;
        }
        None
    }
}

impl DepositStore for MemoryDepositStore {
    closed spec fn contents(&self) -> Map<u32, StoredDeposit> {
        entries_map(self.entries@)
    }

    fn insert(&mut self, tx: &DepositTx) {
        proof {
            use_type_invariant(&*self);
        }
        let d = StoredDeposit::from(tx);
        match self.find_index(tx.id()) {
            Some(i) => {
                proof {
                    lemma_entries_map_update(self.entries@, i as int, (tx.id, d));
                }
                let mut entries: Vec<(u32, StoredDeposit)> = Vec::new();
                core::mem::swap(&mut entries, &mut self.entries);
                entries.set(i, (tx.id(), d));
                self.entries = entries;
            },
            None => {
                proof {
                    assert(self.entries@.push((tx.id, d)).drop_last() =~= self.entries@);
                }
                let mut entries: Vec<(u32, StoredDeposit)> = Vec::new();
                core::mem::swap(&mut entries, &mut self.entries);
                entries.push((tx.id(), d));
                self.entries = entries;
            },
        }
    }

    fn get(&self, tx_id: u32) -> (r: Option<StoredDeposit>) {
        proof {
            use_type_invariant(&*self);
            lemma_entries_map_contains(self.entries@, tx_id);
        }
        match self.find_index(tx_id) {
            Some(i) => {
                proof {
                    lemma_entries_map_index(self.entries@, i as int);
                }
                Some(self.entries[i].1)
            },
            None => None,
        }
    }

    fn update(&mut self, tx_id: u32, d: StoredDeposit) {
        proof {
            use_type_invariant(&*self);
            lemma_entries_map_contains(self.entries@, tx_id);
        }
        match self.find_index(tx_id) {
            Some(i) => {
                proof {
                    lemma_entries_map_update(self.entries@, i as int, (tx_id, d));
                }
                let mut entries: Vec<(u32, StoredDeposit)> = Vec::new();
                core::mem::swap(&mut entries, &mut self.entries);
                entries.set(i, (tx_id, d));
                self.entries = entries;
            },
            None => {
                proof {
                    assert(false);
                }
                unreached()
            },
        }
    }

    fn remove(&mut self, tx_id: u32) -> (r: Option<StoredDeposit>) {
        proof {
            use_type_invariant(&*self);
            lemma_entries_map_contains(self.entries@, tx_id);
        }
        match self.find_index(tx_id) {
            Some(i) => {
                proof {
                    lemma_entries_map_index(self.entries@, i as int);
                    lemma_entries_map_remove(self.entries@, i as int);
                }
                let mut entries: Vec<(u32, StoredDeposit)> = Vec::new();
                core::mem::swap(&mut entries, &mut self.entries);
                let e = entries.remove(i);
                self.entries = entries;
                Some(e.1)
            },
            None => {
                proof {
                    assert(entries_map(self.entries@) =~= entries_map(self.entries@).remove(
                        tx_id,
                    ));
                }
                None
            },
        }
    }
}

} // verus!
