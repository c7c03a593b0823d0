//! The repository contract and its concurrent in-memory implementation.
//!
//! `Repository` is the seam between callers and storage: any backend that
//! implements it can be swapped in without touching the callers.
//! `MemoryRepository` implements it with a single [`crate::store::Store`]
//! guarded by a reader/writer lock; every check-then-act sequence runs inside
//! one critical section, so two concurrent creates for the same identifier
//! can never both succeed, and a reader observes either the pre-update or the
//! fully post-update record, never a mix.

use vstd::prelude::*;
use vstd::rwlock::{RwLock, RwLockPredicate};

use crate::errors::RepositoryError;
use crate::model::{has_id, idx_of, lemma_lookup_unique, lookup};
use crate::store::Store;
use crate::user::{Timestamp, User, UserId};

verus! {

/// The current UTC wall-clock time, in microseconds since the Unix epoch.
///
/// Relies on chrono's `Utc::now` (the system clock) and
/// `DateTime::timestamp_micros` (that datetime as microseconds since the
/// epoch). The clock may read anything, so nothing is promised of the value.
#[verifier::external_body]
fn now() -> Timestamp {
    Timestamp { micros: chrono::Utc::now().timestamp_micros() }
}

/// The uniform storage contract: any backend returns the record named by the
/// call, classifies its failures by the shared taxonomy, and preserves the
/// identity and fields of what it is handed.
pub trait Repository: Send + Sync + Sized {
    /// Returns a copy of the record with the given identifier.
    fn get_user(&self, user_id: &UserId) -> (r: Result<User, RepositoryError>)
        ensures
            r matches Ok(u) ==> u.id == *user_id && u.created_at is Some,
            r matches Err(e) ==> e is InvalidId || e is DoesNotExist || e is LockError,
    ;

    /// Inserts a new record, stamping its creation time; fails when the
    /// identifier is already present.
    fn create_user(&self, user: &User) -> (r: Result<User, RepositoryError>)
        ensures
            r matches Ok(u) ==> u.id == user.id && u@.name == user@.name && u.birth_date
                == user.birth_date && u.custom_data == user.custom_data && u.created_at is Some
                && u.updated_at == user.updated_at,
            r matches Err(e) ==> e is AlreadyExist || e is LockError,
    ;

    /// Replaces the record with the same identifier, stamping a fresh update
    /// time; fails when the identifier is absent.
    fn update_user(&self, user: &User) -> (r: Result<User, RepositoryError>)
        ensures
            r matches Ok(u) ==> u.id == user.id && u@.name == user@.name && u.birth_date
                == user.birth_date && u.custom_data == user.custom_data && u.created_at is Some
                && u.updated_at is Some,
            r matches Err(e) ==> e is DoesNotExist || e is LockError,
    ;

    /// Removes any record with the given identifier and reports the
    /// identifier it removed.
    fn delete_user(&self, user_id: &UserId) -> (r: Result<UserId, RepositoryError>)
        ensures
            r matches Ok(i) ==> i == *user_id,
            r matches Err(e) ==> e is LockError,
    ;
}

/// The predicate the lock enforces on the shared store: every state any
/// caller can ever observe is well formed.
pub struct StoreInv {}

impl RwLockPredicate<Store> for StoreInv {
    open spec fn inv(self, s: Store) -> bool {
        s.wf()
    }
}

/// A thread-safe in-memory repository: one shared store behind a
/// reader/writer lock. Reads run under a shared lock, in parallel; each
/// mutation holds the exclusive lock for its whole check-then-act sequence.
pub struct MemoryRepository {
    users: RwLock<Store, StoreInv>,
}

impl MemoryRepository {
    /// What the lock guarantees of every store state it guards.
    pub closed spec fn lock_inv(&self, s: Store) -> bool {
        self.users.inv(s)
    }

    /// An empty repository whose lock enforces exactly the store invariant.
    pub fn new() -> (r: MemoryRepository)
        ensures
            forall|s: Store| r.lock_inv(s) == s.wf(),
    {
        MemoryRepository { users: RwLock::new(Store::new(), Ghost(StoreInv {})) }
    }
}

impl Default for MemoryRepository {
    /// An empty repository, as [`MemoryRepository::new`] builds it.
    fn default() -> (r: Self)
        ensures
            forall|s: Store| r.lock_inv(s) == s.wf(),
    {
        MemoryRepository::new()
    }
}

impl Repository for MemoryRepository {
    /// Takes the shared lock, scans for the identifier, and returns an
    /// independent copy of the match, or `InvalidId` when there is none.
    fn get_user(&self, user_id: &UserId) -> (r: Result<User, RepositoryError>)
        ensures
            r matches Err(e) ==> e is InvalidId,
    {
        let read_handle = self.users.acquire_read();
        let store = read_handle.borrow();
        let r = store.get(user_id);
        proof {
            if has_id(store@, *user_id) {
                let k = choose|k: int| 0 <= k < store@.len() && store@[k].id == *user_id;
                assert(store@[k].created_at is Some);
            }
        }
        read_handle.release_read();
        r
    }

    /// Takes the exclusive lock for the whole existence-check-and-insert
    /// sequence, so creation is exactly-once per identifier; fails with
    /// `AlreadyExist` when the identifier is present.
    fn create_user(&self, user: &User) -> (r: Result<User, RepositoryError>)
        ensures
            r matches Err(e) ==> e is AlreadyExist,
    {
        let t = now();
        let (mut store, write_handle) = self.users.acquire_write();
        let r = store.create(user, t);
        write_handle.release_write(store);
        r
    }

    /// Takes the exclusive lock for the whole existence-check-and-replace
    /// sequence, keeping the stored creation time and stamping a fresh
    /// update time; fails with `DoesNotExist` when the identifier is absent.
    fn update_user(&self, user: &User) -> (r: Result<User, RepositoryError>)
        ensures
            r matches Err(e) ==> e is DoesNotExist,
    {
        let t = now();
        let (mut store, write_handle) = self.users.acquire_write();
        let ghost prev = store@;
        let r = store.update(user, t);
        proof {
            if has_id(prev, user@.id) {
                let k = choose|k: int| 0 <= k < prev.len() && prev[k].id == user@.id;
                assert(0 <= k < prev.len() && prev[k].id == user@.id);
                if k != idx_of(prev, user@.id) {
                    lemma_lookup_unique(prev, user@.id, k);
                }
                assert(lookup(prev, user@.id).created_at is Some);
            }
        }
        write_handle.release_write(store);
        r
    }

    /// Takes the exclusive lock and removes any record with the identifier;
    /// an absent identifier is not an error, so deleting twice succeeds.
    fn delete_user(&self, user_id: &UserId) -> (r: Result<UserId, RepositoryError>)
        ensures
            r == Ok::<UserId, RepositoryError>(*user_id),
    {
        let (mut store, write_handle) = self.users.acquire_write();
        let r = store.delete(user_id);
        write_handle.release_write(store);
        r
    }
}

} // verus!
