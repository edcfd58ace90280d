//! Per-client account state and the map of all accounts owned by one
//! worker shard.
//!
//! All balances are exact decimals with four fractional digits, stored as
//! integer counts of one ten-thousandth of a whole unit. Amounts of single
//! transactions are `i64`; running balances are `i128`, so a balance can
//! absorb far more transactions than a run can contain before any bound
//! is approached.

use vstd::prelude::*;

use crate::error::Error;

verus! {

/// Per-client balance state.
///
/// `available` may go negative: when a dispute reclaims funds that were
/// already withdrawn, the client owes the shortfall (clawback semantics).
/// `held` is the sum of amounts currently under dispute.
#[derive(Clone, Copy, Debug, PartialEq, Eq, Structural)]
pub struct Account {
    pub client: u16,
    pub available: i128,
    pub held: i128,
    pub locked: bool,
}

/// Balances `(available, held)` after a deposit of `amount`.
pub open spec fn deposit_balances(available: int, held: int, amount: int) -> (int, int) {
    (available + amount, held)
}

/// Balances `(available, held)` after a withdrawal of `amount`.
pub open spec fn withdraw_balances(available: int, held: int, amount: int) -> (int, int) {
    (available - amount, held)
}

/// Balances `(available, held)` after a dispute holding `amount`.
pub open spec fn dispute_balances(available: int, held: int, amount: int) -> (int, int) {
    (available - amount, held + amount)
}

/// Balances `(available, held)` after a resolve releasing `amount`.
pub open spec fn resolve_balances(available: int, held: int, amount: int) -> (int, int) {
    (available + amount, held - amount)
}

/// Balances `(available, held)` after a chargeback of `amount`.
pub open spec fn chargeback_balances(available: int, held: int, amount: int) -> (int, int) {
    (available, held - amount)
}

impl Account {
    /// A fresh account: zero balances, unlocked.
    pub open spec fn spec_new(client: u16) -> Account {
        Account { client, available: 0, held: 0, locked: false }
    }

    /// The account and result that a deposit of `amount` produces.
    pub open spec fn spec_deposit(a: Account, amount: i64) -> (Account, Result<(), Error>) {
        if a.locked {
            (a, Err(Error::AccountLocked(a.client)))
        } else {
            (Account { available: (a.available + amount) as i128, ..a }, Ok(()))
        }
    }

    /// The account and result that a withdrawal of `amount` produces.
    pub open spec fn spec_withdraw(a: Account, amount: i64) -> (Account, Result<(), Error>) {
        if a.locked {
            (a, Err(Error::AccountLocked(a.client)))
        } else if a.available < amount {
            (a, Err(Error::InsufficientFunds {
                client: a.client,
                available: a.available,
                requested: amount,
            }))
        } else {
            (Account { available: (a.available - amount) as i128, ..a }, Ok(()))
        }
    }

    /// The account and result that a dispute holding `amount` produces.
    /// Disputes are legal even on a locked account.
    pub open spec fn spec_dispute(a: Account, amount: i64) -> (Account, Result<(), Error>) {
        (Account {
            available: (a.available - amount) as i128,
            held: (a.held + amount) as i128,
            ..a
        }, Ok(()))
    }

    /// The account and result that a resolve releasing `amount` produces.
    pub open spec fn spec_resolve(a: Account, amount: i64) -> (Account, Result<(), Error>) {
        (Account {
            available: (a.available + amount) as i128,
            held: (a.held - amount) as i128,
            ..a
        }, Ok(()))
    }

    /// The account and result that a chargeback of `amount` produces:
    /// the held funds leave the account and the account locks permanently.
    pub open spec fn spec_chargeback(a: Account, amount: i64) -> (Account, Result<(), Error>) {
        (Account { held: (a.held - amount) as i128, locked: true, ..a }, Ok(()))
    }

    pub fn new(client: u16) -> (a: Account)
        ensures
            a == Account::spec_new(client),
    {
        Account { client, available: 0, held: 0, locked: false }
    }

    /// The account's total funds: available plus held, computed at call
    /// time, never stored.
    pub fn total(&self) -> (t: i128)
        requires
            i128::MIN <= self.available + self.held <= i128::MAX,
        ensures
            t == self.available + self.held,
    {
        self.available + self.held
    }

    pub fn available(&self) -> (v: i128)
        ensures
            v == self.available,
    {
        self.available
    }

    pub fn held(&self) -> (v: i128)
        ensures
            v == self.held,
    {
        self.held
    }

    /// Credits `amount` to `available`; rejected with `AccountLocked` on a
    /// locked account, which it leaves untouched.
    pub fn deposit(&mut self, amount: i64) -> (r: Result<(), Error>)
        requires
            0 <= amount,
            old(self).available + amount <= i128::MAX,
        ensures
            (*final(self), r) == Account::spec_deposit(*old(self), amount),
            final(self).client == old(self).client,
            final(self).locked == old(self).locked,
            old(self).locked ==> r == Err::<(), Error>(Error::AccountLocked(old(self).client))
                && *final(self) == *old(self),
            !old(self).locked ==> r == Ok::<(), Error>(())
                && (final(self).available as int, final(self).held as int)
                    == deposit_balances(old(self).available as int, old(self).held as int, amount as int),
    {
        self.throw_locked()?;
        self.available = self.available + amount as i128;
        Ok(())
    }

    /// Debits `amount` from `available`; rejected with `AccountLocked` on a
    /// locked account and with `InsufficientFunds` when `available` is less
    /// than `amount`; a rejected withdrawal leaves the account untouched.
    pub fn withdraw(&mut self, amount: i64) -> (r: Result<(), Error>)
        requires
            0 <= amount,
        ensures
            (*final(self), r) == Account::spec_withdraw(*old(self), amount),
            final(self).client == old(self).client,
            final(self).locked == old(self).locked,
            r is Err ==> *final(self) == *old(self),
            old(self).locked ==> r == Err::<(), Error>(Error::AccountLocked(old(self).client)),
            !old(self).locked && old(self).available < amount ==> r == Err::<(), Error>(
                Error::InsufficientFunds {
                    client: old(self).client,
                    available: old(self).available,
                    requested: amount,
                },
            ),
            !old(self).locked && old(self).available >= amount ==> r == Ok::<(), Error>(())
                && (final(self).available as int, final(self).held as int)
                    == withdraw_balances(old(self).available as int, old(self).held as int, amount as int),
    {
        self.throw_locked()?;
        if self.available < amount as i128 {
            return Err(Error::InsufficientFunds {
                client: self.client,
                available: self.available,
                requested: amount,
            });
        }
        self.available = self.available - amount as i128;
        Ok(())
    }

    /// Moves `amount` from `available` to `held`. Always legal, even on a
    /// locked account: disputes must stay actionable after a freeze. Can
    /// drive `available` negative (clawback).
    pub fn dispute(&mut self, amount: i64) -> (r: Result<(), Error>)
        requires
            0 <= amount,
            i128::MIN <= old(self).available - amount,
            old(self).held + amount <= i128::MAX,
        ensures
            (*final(self), r) == Account::spec_dispute(*old(self), amount),
            r == Ok::<(), Error>(()),
            final(self).client == old(self).client,
            final(self).locked == old(self).locked,
            (final(self).available as int, final(self).held as int)
                == dispute_balances(old(self).available as int, old(self).held as int, amount as int),
    {
        self.available = self.available - amount as i128;
        self.held = self.held + amount as i128;
        Ok(())
    }

    /// Reverses a dispute's hold: moves `amount` back from `held` to
    /// `available`.
    pub fn resolve(&mut self, amount: i64) -> (r: Result<(), Error>)
        requires
            0 <= amount,
            i128::MIN <= old(self).held - amount,
            old(self).available + amount <= i128::MAX,
        ensures
            (*final(self), r) == Account::spec_resolve(*old(self), amount),
            r == Ok::<(), Error>(()),
            final(self).client == old(self).client,
            final(self).locked == old(self).locked,
            (final(self).available as int, final(self).held as int)
                == resolve_balances(old(self).available as int, old(self).held as int, amount as int),
    {
        self.held = self.held - amount as i128;
        self.available = self.available + amount as i128;
        Ok(())
    }

    /// Removes `amount` from `held` and locks the account permanently.
    pub fn chargeback(&mut self, amount: i64) -> (r: Result<(), Error>)
        requires
            0 <= amount,
            i128::MIN <= old(self).held - amount,
        ensures
            (*final(self), r) == Account::spec_chargeback(*old(self), amount),
            r == Ok::<(), Error>(()),
            final(self).client == old(self).client,
            final(self).locked,
            final(self).available == old(self).available,
            (final(self).available as int, final(self).held as int)
                == chargeback_balances(old(self).available as int, old(self).held as int, amount as int),
    {
        self.held = self.held - amount as i128;
        self.locked = true;
        Ok(())
    }

    fn throw_locked(&self) -> (r: Result<(), Error>)
        ensures
            r == if self.locked {
                Err::<(), Error>(Error::AccountLocked(self.client))
            } else {
                Ok::<(), Error>(())
            },
    {
        if self.locked {
            Err(Error::AccountLocked(self.client))
        } else {
            Ok(())
        }
    }
}

/// The client-to-account map that a sequence of accounts represents,
/// keyed by each account's `client` field; a later entry under the same
/// client wins.
pub open spec fn accounts_map(s: Seq<Account>) -> Map<u16, Account>
    decreases s.len(),
{
    if s.len() == 0 {
        Map::empty()
    } else {
        accounts_map(s.drop_last()).insert(s.last().client, s.last())
    }
}

/// No two accounts in the sequence belong to the same client.
pub open spec fn accounts_distinct(s: Seq<Account>) -> bool {
    forall|i: int, j: int|
        0 <= i < j < s.len() ==> (#[trigger] s[i]).client != (#[trigger] s[j]).client
}

proof fn lemma_accounts_map_contains(s: Seq<Account>, c: u16)
    ensures
        accounts_map(s).contains_key(c) <==> (exists|i: int|
            0 <= i < s.len() && (#[trigger] s[i]).client == c),
    decreases s.len(),
{
    if s.len() > 0 {
        lemma_accounts_map_contains(s.drop_last(), c);
        if s.last().client == c {
            assert(s[s.len() - 1].client == c);
        } else if accounts_map(s).contains_key(c) {
            let i = choose|i: int|
                0 <= i < s.drop_last().len() && (#[trigger] s.drop_last()[i]).client == c;
            assert(s[i].client == c);
        } else {
            assert forall|i: int| 0 <= i < s.len() implies (#[trigger] s[i]).client != c by {
                if i < s.len() - 1 {
                    assert(s.drop_last()[i].client != c);
                }
            }
        }
    }
}

proof fn lemma_accounts_map_index(s: Seq<Account>, i: int)
    requires
        accounts_distinct(s),
        0 <= i < s.len(),
    ensures
        accounts_map(s).contains_key(s[i].client),
        accounts_map(s)[s[i].client] == s[i],
    decreases s.len(),
{
    if i < s.len() - 1 {
        assert(s.drop_last()[i] == s[i]);
        lemma_accounts_map_index(s.drop_last(), i);
        assert(s[i].client != s.last().client);
    }
}

proof fn lemma_accounts_map_update(s: Seq<Account>, i: int, a: Account)
    requires
        accounts_distinct(s),
        0 <= i < s.len(),
        a.client == s[i].client,
    ensures
        accounts_map(s.update(i, a)) == accounts_map(s).insert(a.client, a),
        accounts_distinct(s.update(i, a)),
    decreases s.len(),
{
    let t = s.update(i, a);
    if i == s.len() - 1 {
        assert(t.drop_last() =~= s.drop_last());
        assert(t.last() == a);
        assert(accounts_map(s.drop_last()).insert(a.client, a) =~= accounts_map(s).insert(
            a.client,
            a,
        ));
    } else {
        assert(t.drop_last() =~= s.drop_last().update(i, a));
        assert(t.last() == s.last());
        assert(s.drop_last()[i] == s[i]);
        lemma_accounts_map_update(s.drop_last(), i, a);
        assert(a.client != s.last().client);
        assert(accounts_map(s.drop_last()).insert(a.client, a).insert(s.last().client, s.last())
            =~= accounts_map(s).insert(a.client, a));
    }
}

proof fn lemma_accounts_map_len(s: Seq<Account>)
    requires
        accounts_distinct(s),
    ensures
        accounts_map(s).dom().finite(),
        accounts_map(s).len() == s.len(),
    decreases s.len(),
{
    if s.len() > 0 {
        assert(accounts_distinct(s.drop_last()));
        lemma_accounts_map_len(s.drop_last());
        lemma_accounts_map_contains(s.drop_last(), s.last().client);
        assert forall|i: int|
            0 <= i < s.drop_last().len() implies (#[trigger] s.drop_last()[i]).client
            != s.last().client by {
            assert(s.drop_last()[i] == s[i]);
        }
        assert(!accounts_map(s.drop_last()).contains_key(s.last().client));
    }
}

/// One worker shard's accounts: exactly one account per client id seen by
/// this shard, created lazily on the first deposit or withdrawal and never
/// destroyed for the run's duration.
pub struct AccountMap {
    accounts: Vec<Account>,
}

impl View for AccountMap {
    type V = Map<u16, Account>;

    closed spec fn view(&self) -> Map<u16, Account> {
        accounts_map(self.accounts@)
    }
}

impl AccountMap {
    #[verifier::type_invariant]
    spec fn wf(self) -> bool {
        accounts_distinct(self.accounts@)
    }

    /// An empty shard.
    pub fn new() -> (m: AccountMap)
        ensures
            m@ == Map::<u16, Account>::empty(),
    {
        AccountMap { accounts: Vec::new() }
    }

    /// How many accounts this shard holds.
    pub fn len(&self) -> (n: usize)
        ensures
            n == self@.len(),
    {
        proof {
            use_type_invariant(&*self);
            lemma_accounts_map_len(self.accounts@);
        }
        self.accounts.len()
    }

    pub fn is_empty(&self) -> (r: bool)
        ensures
            r == (self@.len() == 0),
    {
        proof {
            use_type_invariant(&*self);
            lemma_accounts_map_len(self.accounts@);
        }
        self.accounts.len() == 0
    }

    /// The index holding `client`, if any.
    fn find_index(&self, client: u16) -> (r: Option<usize>)
        ensures
            match r {
                Some(i) => i < self.accounts@.len() && self.accounts@[i as int].client == client,
                None => forall|j: int|
                    0 <= j < self.accounts@.len() ==> (#[trigger] self.accounts@[j]).client
                        != client,
            },
    {
        let n = self.accounts.len();
        let mut i: usize = 0;
        while i < n
            invariant
                n == self.accounts@.len(),
                i <= n,
                forall|j: int| 0 <= j < i ==> (#[trigger] self.accounts@[j]).client != client,
            decreases n - i,
        {
            if self.accounts[i].client == client {
                return Some(i);
            }
            i = i + 1;
        }
        None
    }

    /// Stores `a` under its client id, replacing any account already held
    /// for that client.
    fn put(&mut self, a: Account)
        ensures
            final(self)@ == old(self)@.insert(a.client, a),
    {
        proof {
            use_type_invariant(&*self);
        }
        match self.find_index(a.client) {
            Some(i) => {
                proof {
                    lemma_accounts_map_update(self.accounts@, i as int, a);
                }
                let mut accounts: Vec<Account> = Vec::new();
                core::mem::swap(&mut accounts, &mut self.accounts);
                accounts.set(i, a);
                self.accounts = accounts;
            },
            None => {
                proof {
                    assert(self.accounts@.push(a).drop_last() =~= self.accounts@);
                }
                let mut accounts: Vec<Account> = Vec::new();
                core::mem::swap(&mut accounts, &mut self.accounts);
                accounts.push(a);
                self.accounts = accounts;
            },
        }
    }

    /// The account for `client`, created fresh (zero balances, unlocked)
    /// if this shard has none yet. Returns a copy; write changes back with
    /// `update`.
    pub fn get_or_create(&mut self, client: u16) -> (a: Account)
        ensures
            a == if old(self)@.contains_key(client) {
                old(self)@[client]
            } else {
                Account::spec_new(client)
            },
            a.client == client,
            final(self)@ == old(self)@.insert(client, a),
    {
        proof {
            use_type_invariant(&*self);
            lemma_accounts_map_contains(self.accounts@, client);
        }
        match self.find_index(client) {
            Some(i) => {
                proof {
                    lemma_accounts_map_index(self.accounts@, i as int);
                    assert(self@.insert(client, self@[client]) =~= self@);
                }
                self.accounts[i]
            },
            None => {
                let a = Account::new(client);
                self.put(a);
                a
            },
        }
    }

    /// The account for `client`, or `AccountNotFound` if this shard has
    /// never seen that client. Returns a copy; write changes back with
    /// `update`.
    pub fn get_mut(&self, client: u16) -> (r: Result<Account, Error>)
        ensures
            r == if self@.contains_key(client) {
                Ok::<Account, Error>(self@[client])
            } else {
                Err::<Account, Error>(Error::AccountNotFound(client))
            },
            self@.contains_key(client) ==> self@[client].client == client,
    {
        proof {
            use_type_invariant(&*self);
            lemma_accounts_map_contains(self.accounts@, client);
        }
        match self.find_index(client) {
            Some(i) => {
                proof {
                    lemma_accounts_map_index(self.accounts@, i as int);
                }
                Ok(self.accounts[i])
            },
            None => Err(Error::AccountNotFound(client)),
        }
    }

    /// Writes back an account for a client this shard already holds.
    pub fn update(&mut self, client: u16, a: Account)
        requires
            old(self)@.contains_key(client),
            a.client == client,
        ensures
            final(self)@ == old(self)@.insert(client, a),
    {
        self.put(a);
    }

    /// Absorbs another shard's accounts; where both shards hold a client
    /// (which routing rules out), the other shard's account wins.
    pub fn merge(&mut self, other: AccountMap)
        ensures
            final(self)@ == old(self)@.union_prefer_right(other@),
    {
        proof {
            use_type_invariant(&other);
        }
        let n = other.accounts.len();
        let mut k: usize = 0;
        proof {
            assert(accounts_map(other.accounts@.take(0)) =~= Map::<u16, Account>::empty());
            assert(self@.union_prefer_right(accounts_map(other.accounts@.take(0))) =~= self@);
        }
        while k < n
            invariant
                n == other.accounts@.len(),
                k <= n,
                self@ == old(self)@.union_prefer_right(accounts_map(other.accounts@.take(k as int))),
            decreases n - k,
        {
            let a = other.accounts[k];
            proof {
                let t = other.accounts@.take(k as int);
                assert(other.accounts@.take(k + 1).drop_last() =~= t);
                assert(other.accounts@.take(k + 1).last() == a);
                assert(accounts_map(other.accounts@.take(k + 1)) == accounts_map(t).insert(
                    a.client,
                    a,
                ));
                assert(old(self)@.union_prefer_right(accounts_map(t)).insert(a.client, a)
                    =~= old(self)@.union_prefer_right(accounts_map(t).insert(a.client, a)));
            }
            self.put(a);
            k = k + 1;
        }
        proof {
            assert(other.accounts@.take(n as int) =~= other.accounts@);
        }
    }

    /// Consumes the shard and yields its accounts as a sequence strictly
    /// ascending by client id: exactly the accounts of the map, each
    /// appearing once.
    pub fn into_iter_sorted(self) -> (r: Vec<Account>)
        ensures
            r@.len() == self@.len(),
            forall|i: int, j: int|
                0 <= i < j < r@.len() ==> (#[trigger] r@[i]).client < (#[trigger] r@[j]).client,
            forall|i: int|
                0 <= i < r@.len() ==> self@.contains_key((#[trigger] r@[i]).client)
                    && self@[r@[i].client] == r@[i],
            forall|c: u16|
                self@.contains_key(c) ==> exists|i: int|
                    0 <= i < r@.len() && (#[trigger] r@[i]).client == c,
    {
        proof {
            use_type_invariant(&self);
            lemma_accounts_map_len(self.accounts@);
        }
        let n = self.accounts.len();
        let mut out: Vec<Account> = Vec::new();
        let mut k: usize = 0;
        proof {
            assert(out@ =~= self.accounts@.take(0));
        }
        while k < n
            invariant
                n == self.accounts@.len(),
                k <= n,
                accounts_distinct(self.accounts@),
                out@.len() == k,
                out@.to_multiset() == self.accounts@.take(k as int).to_multiset(),
                forall|i: int, j: int|
                    0 <= i < j < out@.len() ==> (#[trigger] out@[i]).client
                        <= (#[trigger] out@[j]).client,
            decreases n - k,
        {
            broadcast use vstd::seq_lib::group_to_multiset_ensures;

            let a = self.accounts[k];
            let m = out.len();
            let mut j: usize = 0;
            while j < m && out[j].client <= a.client
                invariant
                    m == out@.len(),
                    j <= m,
                    forall|p: int| 0 <= p < j ==> (#[trigger] out@[p]).client <= a.client,
                decreases m - j,
            {
                j = j + 1;
            }
            let ghost pre = out@;
            out.insert(j, a);
            proof {
                assert(out@.remove(j as int) =~= pre);
                assert(pre.to_multiset() =~= out@.to_multiset().remove(a));
                assert(out@.to_multiset().contains(a));
                assert(out@.to_multiset() =~= pre.to_multiset().insert(a));
                assert(self.accounts@.take(k + 1) =~= self.accounts@.take(k as int).push(a));
                assert(self.accounts@.take(k + 1).to_multiset() =~= self.accounts@.take(
                    k as int,
                ).to_multiset().insert(a));
                assert forall|p: int, q: int| 0 <= p < q < out@.len() implies (#[trigger] out@[p]).client
                    <= (#[trigger] out@[q]).client by {
                    if q < j {
                    } else if p < j && q == j {
                    } else if p == j {
                        assert(out@[q] == pre[q - 1]);
                        assert(pre[q - 1].client > a.client || q - 1 >= j);
                        if q - 1 >= j {
                            if j < m {
                                assert(pre[j as int].client > a.client);
                                assert(pre[j as int].client <= pre[q - 1].client);
                            }
                        }
                    } else if p < j {
                        assert(out@[p] == pre[p]);
                        assert(out@[q] == pre[q - 1]);
                    } else {
                        assert(out@[p] == pre[p - 1]);
                        assert(out@[q] == pre[q - 1]);
                    }
                }
            }
            k = k + 1;
        }
        proof {
            broadcast use vstd::seq_lib::group_to_multiset_ensures;

            assert(self.accounts@.take(n as int) =~= self.accounts@);
            let s = self.accounts@;
            assert(out@.to_multiset() == s.to_multiset());
            assert(out@.len() == out@.to_multiset().len());
            assert(out@.len() == s.len());
            assert forall|i: int| 0 <= i < out@.len() implies self@.contains_key(
                (#[trigger] out@[i]).client,
            ) && self@[out@[i].client] == out@[i] by {
                assert(out@.to_multiset().count(out@[i]) > 0);
                assert(s.contains(out@[i]));
                let w = choose|w: int| 0 <= w < s.len() && s[w] == out@[i];
                lemma_accounts_map_index(s, w);
            }
            assert forall|c: u16| self@.contains_key(c) implies exists|i: int|
                0 <= i < out@.len() && (#[trigger] out@[i]).client == c by {
                lemma_accounts_map_contains(s, c);
                let w = choose|w: int| 0 <= w < s.len() && (#[trigger] s[w]).client == c;
                assert(s.to_multiset().count(s[w]) > 0);
                assert(out@.contains(s[w]));
                let i = choose|i: int| 0 <= i < out@.len() && out@[i] == s[w];
                assert(out@[i].client == c);
            }
            assert forall|i: int, j: int| 0 <= i < j < out@.len() implies (#[trigger] out@[i]).client
                < (#[trigger] out@[j]).client by {
                assert(self@.contains_key(out@[i].client) && self@[out@[i].client] == out@[i]);
                assert(self@.contains_key(out@[j].client) && self@[out@[j].client] == out@[j]);
                if out@[i].client == out@[j].client {
                    assert(out@[i] == out@[j]);
                    assert(out@.to_multiset().count(out@[i]) >= 2) by {
                        assert(out@.remove(j).to_multiset() =~= out@.to_multiset().remove(
                            out@[j],
                        ));
                        assert(out@.remove(j)[i] == out@[i]);
                        assert(out@.remove(j).contains(out@[i]));
                        assert(out@.remove(j).to_multiset().count(out@[i]) > 0);
                    }
                    assert(s.to_multiset().count(out@[i]) >= 2);
                    let w = choose|w: int| 0 <= w < s.len() && s[w] == out@[i];
                    assert(s.remove(w).to_multiset() =~= s.to_multiset().remove(s[w]));
                    assert(s.remove(w).to_multiset().count(out@[i]) >= 1);
                    assert(s.remove(w).contains(out@[i]));
                    let w2 = choose|w2: int| 0 <= w2 < s.remove(w).len() && s.remove(w)[w2] == out@[i];
                    if w2 < w {
                        assert(s[w2] == out@[i]);
                        assert(s[w2].client == s[w].client);
                    } else {
                        assert(s[w2 + 1] == out@[i]);
                        assert(s[w2 + 1].client == s[w].client);
                    }
                    assert(false);
                }
            }
        }
        out
    }
}

/// Law: a dispute followed by a resolve of the same amount restores
/// `available` and `held` to their pre-dispute values — the pair is a net
/// no-op on balances.
pub proof fn lemma_dispute_resolve_round_trip(available: int, held: int, amount: int)
    ensures
        ({
            let (a1, h1) = dispute_balances(available, held, amount);
            resolve_balances(a1, h1, amount) == (available, held)
        }),
{
}

/// Law: a dispute followed by a resolve of the same amount returns the
/// whole account to its pre-dispute state — balances, lock flag and owner.
pub proof fn lemma_dispute_resolve_account(a: Account, amount: i64)
    requires
        0 <= amount,
        i128::MIN <= a.available - amount,
        a.held + amount <= i128::MAX,
    ensures
        Account::spec_resolve(Account::spec_dispute(a, amount).0, amount).0 == a,
{
}

/// Law: how each operation moves the account's total funds, where the
/// total is always `available + held`, computed, never stored. A dispute
/// or resolve only shifts funds between `available` and `held`, leaving
/// the total untouched; a deposit raises it by the amount, a withdrawal
/// and a chargeback lower it by the amount.
pub proof fn lemma_total_effects(available: int, held: int, amount: int)
    ensures
        ({
            let (a, h) = dispute_balances(available, held, amount);
            a + h == available + held
        }),
        ({
            let (a, h) = resolve_balances(available, held, amount);
            a + h == available + held
        }),
        ({
            let (a, h) = deposit_balances(available, held, amount);
            a + h == available + held + amount
        }),
        ({
            let (a, h) = withdraw_balances(available, held, amount);
            a + h == available + held - amount
        }),
        ({
            let (a, h) = chargeback_balances(available, held, amount);
            a + h == available + held - amount
        }),
{
}

/// Law: zero-amount deposits and withdrawals succeed as no-ops on the
/// balances of an unlocked account (a zero withdrawal needs a non-negative
/// available balance, as any withdrawal needs `available >= amount`).
pub proof fn lemma_zero_amount_noop(a: Account)
    requires
        !a.locked,
    ensures
        Account::spec_deposit(a, 0) == (a, Ok::<(), Error>(())),
        a.available >= 0 ==> Account::spec_withdraw(a, 0) == (a, Ok::<(), Error>(())),
{
}

/// Law: no account operation ever unlocks an account, and a chargeback
/// locks it: the lock flag is monotonic.
pub proof fn lemma_lock_monotonic(a: Account, amount: i64)
    ensures
        a.locked ==> Account::spec_deposit(a, amount).0.locked,
        a.locked ==> Account::spec_withdraw(a, amount).0.locked,
        a.locked ==> Account::spec_dispute(a, amount).0.locked,
        a.locked ==> Account::spec_resolve(a, amount).0.locked,
        Account::spec_chargeback(a, amount).0.locked,
{
}

/// Law: on a locked account a deposit or withdrawal never succeeds, and
/// leaves the account unchanged.
pub proof fn lemma_locked_rejects_transfers(a: Account, amount: i64)
    requires
        a.locked,
    ensures
        Account::spec_deposit(a, amount) == (a, Err::<(), Error>(Error::AccountLocked(a.client))),
        Account::spec_withdraw(a, amount) == (a, Err::<(), Error>(Error::AccountLocked(a.client))),
{
}

} // verus!
