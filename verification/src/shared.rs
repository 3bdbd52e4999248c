//! Concurrent access to the order store: a readers-writer lock lets many
//! reads proceed together while a write excludes everything else, so
//! every operation observes one consistent, fully applied store state.

use vstd::prelude::*;
use vstd::rwlock::RwLock;
use vstd::rwlock::RwLockPredicate;

use crate::order::Order;
use crate::store::OrderStore;
use crate::validate::Field;
use crate::validate::order_valid;
use crate::validate::validate_order;
use crate::validate::violations;

verus! {

/// The lock's invariant: every store state it ever hands out is
/// well-formed.
pub struct StorePred;

impl RwLockPredicate<OrderStore> for StorePred {
    open spec fn inv(self, v: OrderStore) -> bool {
        v.wf()
    }
}

/// A store shared between request handlers. Reads run concurrently;
/// a write holds the exclusive lock only for the bounded in-memory
/// append, so a reader sees either the state before a write or the
/// state after it — never a partially applied one.
pub struct SharedStore {
    lock: RwLock<OrderStore, StorePred>,
}

impl SharedStore {
    /// A fresh shared store with no orders.
    pub fn new() -> (s: Self) {
        SharedStore { lock: RwLock::new(OrderStore::new(), Ghost(StorePred)) }
    }

    /// Files one validated order under the write lock.
    pub fn put(&self, order: Order)
        requires
            order_valid(order),
    {
        let (mut store, handle) = self.lock.acquire_write();
        store.put(order);
        handle.release_write(store);
    }

    /// Validates, then files the document. Validation is pure and runs
    /// outside the lock; only an accepted document takes the write lock.
    /// An invalid one is rejected with every violated field and changes
    /// no state.
    pub fn submit(&self, order: Order) -> (r: Result<(), Vec<Field>>)
        ensures
            r is Ok <==> order_valid(order),
            match r {
                Ok(()) => order_valid(order),
                Err(v) => v@ == violations(order) && v@.len() > 0,
            },
    {
        match validate_order(&order) {
            Ok(()) => {
                self.put(order);
                Ok(())
            },
            Err(v) => Err(v),
        }
    }

    /// The latest version under `uid`, decided atomically against one
    /// well-formed snapshot of the store: present exactly when the
    /// snapshot knows the key, and then equal to the last version of its
    /// history.
    pub fn get(&self, uid: &str) -> (r: Option<Order>)
        ensures
            exists|s: OrderStore|
                #[trigger] s.wf() && match r {
                    Some(o) => s@.contains_key(uid@) && o.equiv(s@[uid@].last()),
                    None => !s@.contains_key(uid@),
                },
    {
        let handle = self.lock.acquire_read();
        let store = handle.borrow();
        let r = match store.get(uid) {
            Some(o) => Some(o.clone()),
            None => None,
        };
        handle.release_read();
        r
    }

    /// A listing of one well-formed snapshot of the store: every key it
    /// held, each once, with its latest version.
    pub fn list(&self) -> (r: Vec<(String, Order)>)
        ensures
            exists|s: OrderStore| #[trigger] s.wf() && OrderStore::listing_of(s@, r@),
    {
        let handle = self.lock.acquire_read();
        let store = handle.borrow();
        let r = store.list();
        handle.release_read();
        r
    }
}

} // verus!
