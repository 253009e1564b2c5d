//! The concurrent account store.
//!
//! A single reader/writer lock guards the whole account map: reads run in
//! parallel, writers are exclusive. The lock's predicate keeps every stored
//! balance well-formed — in particular never negative — under every
//! interleaving of store operations. A `get`/`mutate`/`update` cycle is not
//! atomic across its two lock acquisitions; [`InMemory::mutate_balance`]
//! closes that gap by holding the exclusive lock for the whole
//! read-check-write sequence.

use vstd::prelude::*;

verus! {

use std::sync::Arc;
use vstd::rwlock::{RwLock, RwLockPredicate};
use crate::amount::Amount;
use crate::balance::{Balance, BalanceError};
use crate::ledger::Ledger;

/// Errors from the account store.
#[derive(Debug)]
pub enum StorageError {
    /// `insert` found the account already present.
    AccountAlreadyExists,
    /// `update` or `mutate_balance` found no such account.
    AccountNotExists,
}

/// The account map: account identifier to balance.
pub struct AccountMap {
    /// The stored accounts; keys are unique.
    pub entries: Vec<(String, Balance)>,
}

impl AccountMap {
    /// Keys are pairwise distinct and every stored balance is well-formed.
    pub open spec fn wf(self) -> bool {
        &&& forall|i: int, j: int|
            0 <= i < j < self.entries@.len() ==> (#[trigger] self.entries@[i]).0@ != (
            #[trigger] self.entries@[j]).0@
        &&& forall|i: int| 0 <= i < self.entries@.len() ==> (#[trigger] self.entries@[i]).1.wf()
    }
}

/// The lock predicate guarding the account map: whatever interleaving of
/// store operations runs, the map stays well-formed — so no stored balance
/// is ever negative.
pub struct StorePred;

impl RwLockPredicate<AccountMap> for StorePred {
    open spec fn inv(self, v: AccountMap) -> bool {
        v.wf()
    }
}

/// Relies on `Arc::clone`: the clone is a second handle to the same
/// allocation, so it carries the same value.
#[verifier::external_body]
fn share_lock(a: &Arc<RwLock<AccountMap, StorePred>>) -> (r: Arc<RwLock<AccountMap, StorePred>>)
    ensures
        r == *a,
{
    a.clone()
}

/// The concurrency-safe in-memory account store. Clones share one
/// underlying map behind one lock.
pub struct InMemory {
    /// The shared, lock-guarded account map.
    pub balances: Arc<RwLock<AccountMap, StorePred>>,
}

impl InMemory {
    /// The store's lock is governed by [`StorePred`].
    pub open spec fn wf(self) -> bool {
        (*self.balances).pred() == StorePred
    }
}

impl Clone for InMemory {
    /// The clone shares this store's map.
    fn clone(&self) -> (r: Self)
        ensures
            r.balances == self.balances,
            self.wf() ==> r.wf(),
    {
        InMemory { balances: share_lock(&self.balances) }
    }
}

/// Relies on `str` equality: `true` exactly when the two texts are equal.
#[verifier::external_body]
fn str_eq(a: &str, b: &str) -> (r: bool)
    ensures
        r == (a@ == b@),
{
    a == b
}

impl InMemory {
    /// An empty store.
    pub fn new() -> (r: Self)
        ensures
            r.wf(),
    {
        let map = AccountMap { entries: Vec::new() };
        let lock = RwLock::new(map, Ghost(StorePred));
        InMemory { balances: Arc::new(lock) }
    }

    /// Look up an account under a read lock and return a detached copy of
    /// its balance, or `None` where no such account exists at the moment of
    /// the read. Every balance handed out is well-formed, so in particular
    /// never negative.
    pub fn get(&self, account_id: &str) -> (r: Option<Balance>)
        requires
            self.wf(),
        ensures
            r matches Some(b) ==> b.wf(),
    {
        let read = self.balances.acquire_read();
        let map = read.borrow();
        let n = map.entries.len();
        let mut found: Option<Balance> = None;
        let mut i: usize = 0;
        while i < n
            invariant
                n == map.entries@.len(),
                map.wf(),
                found matches Some(b) ==> b.wf(),
            decreases n - i,
        {
            if str_eq(map.entries[i].0.as_str(), account_id) {
                found = Some(map.entries[i].1.clone());
            }
            i = i + 1;
        }
        read.release_read();
        found
    }

    /// Insert a new account under the exclusive lock. Fails with
    /// `AccountAlreadyExists` — leaving the map unchanged — where the key is
    /// present at the moment of the exclusive access.
    pub fn insert(&mut self, account_id: &str, balance: Balance) -> (r: Result<(), StorageError>)
        requires
            old(self).wf(),
            balance.wf(),
        ensures
            final(self).wf(),
            r matches Err(e) ==> e is AccountAlreadyExists,
    {
        let (mut map, write) = self.balances.acquire_write();
        let n = map.entries.len();
        let mut present = false;
        let mut i: usize = 0;
        while i < n
            invariant
                n == map.entries@.len(),
                map.wf(),
                !present ==> forall|k: int|
                    0 <= k < i ==> (#[trigger] map.entries@[k]).0@ != account_id@,
            decreases n - i,
        {
            if str_eq(map.entries[i].0.as_str(), account_id) {
                present = true;
            }
            i = i + 1;
        }
        if present {
            write.release_write(map);
            return Err(StorageError::AccountAlreadyExists);
        }
        map.entries.push((String::from_str(account_id), balance));
        write.release_write(map);
        Ok(())
    }

    /// Replace an account's balance wholesale under the exclusive lock.
    /// Fails with `AccountNotExists` — leaving the map unchanged — where the
    /// key is absent at the moment of the exclusive access.
    pub fn update(&mut self, account_id: &str, balance: Balance) -> (r: Result<(), StorageError>)
        requires
            old(self).wf(),
            balance.wf(),
        ensures
            final(self).wf(),
            r matches Err(e) ==> e is AccountNotExists,
    {
        let (mut map, write) = self.balances.acquire_write();
        let n = map.entries.len();
        let mut at: usize = n;
        let mut i: usize = 0;
        while i < n
            invariant
                n == map.entries@.len(),
                map.wf(),
                at == n || (at < n && map.entries@[at as int].0@ == account_id@),
            decreases n - i,
        {
            if str_eq(map.entries[i].0.as_str(), account_id) {
                at = i;
            }
            i = i + 1;
        }
        if at == n {
            write.release_write(map);
            return Err(StorageError::AccountNotExists);
        }
        let slot = vstd::std_specs::vec::vec_index_mut(&mut map.entries, at);
        slot.1 = balance;
        write.release_write(map);
        Ok(())
    }

    /// Read, check and write one account's balance in a single exclusive
    /// critical section: fetch the account's balance, apply the entry
    /// through [`Balance::mutate`], and store the result back before the
    /// lock is released. Unlike a `get`/`mutate`/`update` cycle, no other
    /// writer can interleave, so two concurrent withdrawals can never both
    /// be judged affordable against the same stale balance.
    pub fn mutate_balance(&self, account_id: &str, ledger: Ledger) -> (r: Result<
        Result<Amount, BalanceError>,
        StorageError,
    >)
        requires
            self.wf(),
            ledger.wf(),
        ensures
            r matches Err(e) ==> e is AccountNotExists,
            r matches Ok(m) ==> (m matches Ok(t) ==> t.wf() && t.units() >= 0),
    {
        let (mut map, write) = self.balances.acquire_write();
        let n = map.entries.len();
        let mut at: usize = n;
        let mut i: usize = 0;
        while i < n
            invariant
                n == map.entries@.len(),
                map.wf(),
                at == n || (at < n && map.entries@[at as int].0@ == account_id@),
            decreases n - i,
        {
            if str_eq(map.entries[i].0.as_str(), account_id) {
                at = i;
            }
            i = i + 1;
        }
        if at == n {
            write.release_write(map);
            return Err(StorageError::AccountNotExists);
        }
        let slot = vstd::std_specs::vec::vec_index_mut(&mut map.entries, at);
        let outcome = slot.1.mutate(ledger);
        write.release_write(map);
        Ok(outcome)
    }
}

} // verus!
