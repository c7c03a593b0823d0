//! The sequential heart of the in-memory repository: an ordered collection
//! of user records with at most one record per identifier.
//!
//! Each operation is specified exactly against the model in [`crate::model`];
//! the concurrent wrapper in [`crate::repository`] runs these operations
//! inside one critical section each, so the check-then-act sequences here are
//! atomic for its callers.

use vstd::prelude::*;

use crate::errors::RepositoryError;
use crate::model::{
    create_state, delete_state, has_id, lemma_lookup_unique, lemma_push_inv, lemma_remove_inv,
    result_view, spec_create, spec_get, spec_update, store_inv, update_state, with_created,
    with_updated,
};
use crate::user::{Timestamp, User, UserId, UserView};

verus! {

/// An ordered collection of user records, in insertion order.
pub struct Store {
    users: Vec<User>,
}

impl View for Store {
    type V = Seq<UserView>;

    closed spec fn view(&self) -> Seq<UserView> {
        self.users@.map(|i: int, u: User| u@)
    }
}

impl Store {
    /// Whether the store satisfies its invariant: unique identifiers and a
    /// creation timestamp on every record.
    pub open spec fn wf(&self) -> bool {
        store_inv(self@)
    }

    /// An empty store.
    pub fn new() -> (r: Store)
        ensures
            r@ == Seq::<UserView>::empty(),
            r.wf(),
    {
        let r = Store { users: Vec::new() };
        proof {
            assert(r@ =~= Seq::<UserView>::empty());
        }
        r
    }

    /// The position of the record carrying `user_id`, if any record does.
    fn find_index(&self, user_id: &UserId) -> (r: Option<usize>)
        ensures
            r matches Some(i) ==> i < self@.len() && self@[i as int].id == *user_id,
            r is None ==> !has_id(self@, *user_id),
    {
        let mut i: usize = 0;
        while i < self.users.len()
            invariant
                i <= self.users.len(),
                self@.len() == self.users@.len(),
                forall|j: int| 0 <= j < i ==> self@[j].id != *user_id,
            decreases self.users.len() - i,
        {
            if self.users[i].id == *user_id {
                assert(self@[i as int] == self.users@[i as int]@);
                return Some(i);
            }
            assert(self@[i as int] == self.users@[i as int]@);
            i = i + 1;
        }
        proof {
            if has_id(self@, *user_id) {
                let k = choose|k: int| 0 <= k < self@.len() && self@[k].id == *user_id;
                assert(self@[k].id != *user_id);
            }
        }
        None
    }

    /// Returns a copy of the record carrying `user_id`, or `InvalidId` when
    /// no record does. The store is untouched.
    pub fn get(&self, user_id: &UserId) -> (r: Result<User, RepositoryError>)
        requires
            self.wf(),
        ensures
            result_view(r) == spec_get(self@, *user_id),
    {
        match self.find_index(user_id) {
            Some(i) => {
                proof {
                    lemma_lookup_unique(self@, *user_id, i as int);
                }
                Ok(self.users[i].duplicate())
            },
            None => Err(RepositoryError::InvalidId),
        }
    }

    /// Inserts `user` stamped with creation time `t`, or fails with
    /// `AlreadyExist` when a record already carries its identifier. The
    /// existence check and the insertion form one uninterrupted sequence.
    pub fn create(&mut self, user: &User, t: Timestamp) -> (r: Result<User, RepositoryError>)
        requires
            old(self).wf(),
        ensures
            final(self).wf(),
            result_view(r) == spec_create(old(self)@, user@, t),
            final(self)@ == create_state(old(self)@, user@, t),
    {
        match self.find_index(&user.id) {
            Some(i) => {
                proof {
                    assert(has_id(self@, user@.id)) by {
                        assert(self@[i as int].id == user@.id);
                    }
                }
                Err(RepositoryError::AlreadyExist)
            },
            None => {
                let mut stored = user.duplicate();
                stored.created_at = Some(t);
                let result = stored.duplicate();
                let ghost prev = self@;
                self.users.push(stored);
                proof {
                    assert(stored@ == with_created(user@, t));
                    assert forall|k: int| 0 <= k < self@.len() implies self@[k] == prev.push(
                        stored@,
                    )[k] by {
                        assert(self@[k] == self.users@[k]@);
                    }
                    assert(self@ =~= prev.push(stored@));
                    lemma_push_inv(prev, stored@);
                }
                Ok(result)
            },
        }
    }

    /// Replaces the record carrying `user`'s identifier with `user`'s fields,
    /// keeping the stored creation time and stamping update time `t`; fails
    /// with `DoesNotExist` when the identifier is absent. The existence check
    /// and the replacement form one uninterrupted sequence.
    pub fn update(&mut self, user: &User, t: Timestamp) -> (r: Result<User, RepositoryError>)
        requires
            old(self).wf(),
        ensures
            final(self).wf(),
            result_view(r) == spec_update(old(self)@, user@, t),
            final(self)@ == update_state(old(self)@, user@, t),
    {
        match self.find_index(&user.id) {
            None => Err(RepositoryError::DoesNotExist),
            Some(i) => {
                proof {
                    lemma_lookup_unique(self@, user@.id, i as int);
                }
                let created = self.users[i].created_at;
                let mut stored = user.duplicate();
                stored.created_at = created;
                stored.updated_at = Some(t);
                let result = stored.duplicate();
                let ghost prev = self@;
                self.users.remove(i);
                proof {
                    assert forall|k: int| 0 <= k < self@.len() implies self@[k] == prev.remove(
                        i as int,
                    )[k] by {
                        assert(self@[k] == self.users@[k]@);
                        if k < i {
                            assert(self.users@[k] == old(self).users@[k]);
                        } else {
                            assert(self.users@[k] == old(self).users@[k + 1]);
                        }
                    }
                    assert(self@ =~= prev.remove(i as int));
                    lemma_remove_inv(prev, i as int);
                }
                let ghost mid = self@;
                self.users.push(stored);
                proof {
                    assert(stored@ == with_updated(user@, prev[i as int].created_at, t));
                    assert forall|k: int| 0 <= k < self@.len() implies self@[k] == mid.push(
                        stored@,
                    )[k] by {
                        assert(self@[k] == self.users@[k]@);
                    }
                    assert(self@ =~= mid.push(stored@));
                    assert(prev[i as int].created_at is Some);
                    lemma_push_inv(mid, stored@);
                }
                Ok(result)
            },
        }
    }

    /// Removes any record carrying `user_id` and returns the identifier; an
    /// absent identifier is not an error, so deleting twice succeeds twice.
    pub fn delete(&mut self, user_id: &UserId) -> (r: Result<UserId, RepositoryError>)
        requires
            old(self).wf(),
        ensures
            final(self).wf(),
            r == Ok::<UserId, RepositoryError>(*user_id),
            final(self)@ == delete_state(old(self)@, *user_id),
            !has_id(final(self)@, *user_id),
    {
        match self.find_index(user_id) {
            Some(i) => {
                proof {
                    lemma_lookup_unique(self@, *user_id, i as int);
                }
                let ghost prev = self@;
                self.users.remove(i);
                proof {
                    assert forall|k: int| 0 <= k < self@.len() implies self@[k] == prev.remove(
                        i as int,
                    )[k] by {
                        assert(self@[k] == self.users@[k]@);
                        if k < i {
                            assert(self.users@[k] == old(self).users@[k]);
                        } else {
                            assert(self.users@[k] == old(self).users@[k + 1]);
                        }
                    }
                    assert(self@ =~= prev.remove(i as int));
                    lemma_remove_inv(prev, i as int);
                }
            },
            None => {
            },
        }
        Ok(*user_id)
    }

    /// How many records the store holds.
    pub fn len(&self) -> (n: usize)
        ensures
            n == self@.len(),
    {
        self.users.len()
    }
}

} // verus!
