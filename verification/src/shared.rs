//! The registry behind a verified reader-writer lock.
//!
//! Many request-handling tasks share one registry. Reads (get, list,
//! count) take a shared read lock; an insert takes the exclusive write
//! lock, so a writer excludes all readers and other writers and no reader
//! ever observes a partially-updated map. The lock's invariant keeps the
//! registry well formed in every state a task can observe, and each
//! operation holds the lock only for the one map access.

use crate::person::assembled;
use crate::person::NewPerson;
use crate::person::Person;
use crate::registry::Registry;
use vstd::prelude::*;
use vstd::rwlock::RwLock;

verus! {

/// The lock invariant: whatever is stored in the lock is a well-formed
/// registry.
pub open spec fn registry_inv() -> spec_fn(Registry) -> bool {
    |r: Registry| r.wf()
}

/// A person registry that many tasks may use at once, one writer or many
/// readers at a time.
pub struct SharedRegistry {
    lock: RwLock<Registry, spec_fn(Registry) -> bool>,
}

impl SharedRegistry {
    /// The lock of this registry carries the registry invariant.
    pub closed spec fn wf(&self) -> bool {
        self.lock.pred() == registry_inv()
    }

    /// A fresh shared registry over an empty store.
    pub fn new() -> (s: SharedRegistry)
        ensures
            s.wf(),
    {
        let registry = Registry::new();
        SharedRegistry { lock: RwLock::new(registry, Ghost(registry_inv())) }
    }

    /// Stores the record assembled from a validated payload under a fresh
    /// internally generated identifier, excluding every other reader and
    /// writer for the duration of the insertion. The returned record
    /// carries the payload's fields unchanged; on the (practically
    /// impossible) identifier clash nothing is stored.
    pub fn insert(&self, new_person: NewPerson) -> (r: Option<Person>)
        requires
            self.wf(),
            new_person@.wf(),
        ensures
            match r {
                Some(p) => p@ == assembled(p@.id, new_person@) && p@.wf(),
                None => true,
            },
    {
        let (mut registry, write_handle) = self.lock.acquire_write();
        let r = registry.insert(new_person);
        write_handle.release_write(registry);
        r
    }

    /// Looks an identifier up under a shared read lock. A returned record
    /// is well formed and carries the identifier asked for.
    pub fn get(&self, id: u128) -> (r: Option<Person>)
        requires
            self.wf(),
        ensures
            match r {
                Some(p) => p@.id == id && p@.wf(),
                None => true,
            },
    {
        let read_handle = self.lock.acquire_read();
        let r = read_handle.borrow().get(id);
        read_handle.release_read();
        r
    }

    /// Number of records at the moment of the read.
    pub fn count(&self) -> (n: usize)
        requires
            self.wf(),
    {
        let read_handle = self.lock.acquire_read();
        let n = read_handle.borrow().count();
        read_handle.release_read();
        n
    }

    /// A snapshot of every record stored at the moment of the read: each
    /// well formed, no identifier repeated.
    pub fn list(&self) -> (r: Vec<Person>)
        requires
            self.wf(),
        ensures
            forall|i: int| 0 <= i < r@.len() ==> (#[trigger] r@[i])@.wf(),
            forall|i: int, j: int| 0 <= i < j < r@.len() ==> r@[i]@.id != r@[j]@.id,
    {
        let read_handle = self.lock.acquire_read();
        let registry = read_handle.borrow();
        let r = registry.list();
        proof {
            registry.lemma_wf_records();
            assert forall|i: int| 0 <= i < r@.len() implies (#[trigger] r@[i])@.wf() by {
                assert(registry@.contains_key(r@[i]@.id));
            }
        }
        read_handle.release_read();
        r
    }
}

} // verus!
