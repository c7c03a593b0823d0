//! The mathematical model of the store: a sequence of record values in
//! insertion order, the invariant every reachable store state satisfies, and
//! the meaning of each of the four operations as a function of that sequence.

use vstd::prelude::*;

use crate::errors::RepositoryError;
use crate::user::{Timestamp, User, UserId, UserView};

verus! {

/// No two records of `s` carry the same identifier.
pub open spec fn ids_unique(s: Seq<UserView>) -> bool {
    forall|i: int, j: int| 0 <= i < j < s.len() ==> s[i].id != s[j].id
}

/// Every record of `s` carries a creation timestamp.
pub open spec fn all_created(s: Seq<UserView>) -> bool {
    forall|i: int| 0 <= i < s.len() ==> s[i].created_at is Some
}

/// The invariant of every reachable store state: at most one record per
/// identifier, and a creation timestamp on every record.
pub open spec fn store_inv(s: Seq<UserView>) -> bool {
    ids_unique(s) && all_created(s)
}

/// Whether some record of `s` carries the identifier `id`.
pub open spec fn has_id(s: Seq<UserView>, id: UserId) -> bool {
    exists|i: int| 0 <= i < s.len() && s[i].id == id
}

/// The position of the record carrying `id`; meaningful when `has_id` holds.
pub open spec fn idx_of(s: Seq<UserView>, id: UserId) -> int {
    choose|i: int| 0 <= i < s.len() && s[i].id == id
}

/// The record of `s` carrying `id`; meaningful when `has_id` holds.
pub open spec fn lookup(s: Seq<UserView>, id: UserId) -> UserView {
    s[idx_of(s, id)]
}

/// `u` with its creation timestamp set to `t`; every other field unchanged.
pub open spec fn with_created(u: UserView, t: Timestamp) -> UserView {
    UserView { created_at: Some(t), ..u }
}

/// `u` with the creation timestamp `created` taken over from the stored
/// record and a fresh update timestamp `t`; every other field from `u`.
pub open spec fn with_updated(u: UserView, created: Option<Timestamp>, t: Timestamp) -> UserView {
    UserView { created_at: created, updated_at: Some(t), ..u }
}

/// What `get` returns on state `s`: the record carrying `id`, or `InvalidId`
/// when no record carries it.
pub open spec fn spec_get(s: Seq<UserView>, id: UserId) -> Result<UserView, RepositoryError> {
    if has_id(s, id) {
        Ok(lookup(s, id))
    } else {
        Err(RepositoryError::InvalidId)
    }
}

/// What `create` returns on state `s` at time `t`: the argument stamped with
/// its creation time, or `AlreadyExist` when the identifier is taken.
pub open spec fn spec_create(s: Seq<UserView>, u: UserView, t: Timestamp) -> Result<
    UserView,
    RepositoryError,
> {
    if has_id(s, u.id) {
        Err(RepositoryError::AlreadyExist)
    } else {
        Ok(with_created(u, t))
    }
}

/// The state `create` leaves behind: unchanged on failure, the stamped
/// record appended on success.
pub open spec fn create_state(s: Seq<UserView>, u: UserView, t: Timestamp) -> Seq<UserView> {
    if has_id(s, u.id) {
        s
    } else {
        s.push(with_created(u, t))
    }
}

/// What `update` returns on state `s` at time `t`: the argument with the
/// stored creation time and a fresh update time, or `DoesNotExist` when the
/// identifier is absent.
pub open spec fn spec_update(s: Seq<UserView>, u: UserView, t: Timestamp) -> Result<
    UserView,
    RepositoryError,
> {
    if has_id(s, u.id) {
        Ok(with_updated(u, lookup(s, u.id).created_at, t))
    } else {
        Err(RepositoryError::DoesNotExist)
    }
}

/// The state `update` leaves behind: unchanged on failure; on success the
/// old record removed and the replacement appended.
pub open spec fn update_state(s: Seq<UserView>, u: UserView, t: Timestamp) -> Seq<UserView> {
    if has_id(s, u.id) {
        s.remove(idx_of(s, u.id)).push(with_updated(u, lookup(s, u.id).created_at, t))
    } else {
        s
    }
}

/// The state `delete` leaves behind: the record carrying `id` removed, or
/// the state unchanged when none does. `delete` itself always succeeds.
pub open spec fn delete_state(s: Seq<UserView>, id: UserId) -> Seq<UserView> {
    if has_id(s, id) {
        s.remove(idx_of(s, id))
    } else {
        s
    }
}

/// How many records of `s` carry the identifier `id`.
pub open spec fn count_id(s: Seq<UserView>, id: UserId) -> nat
    decreases s.len(),
{
    if s.len() == 0 {
        0
    } else {
        count_id(s.drop_last(), id) + (if s.last().id == id {
            1nat
        } else {
            0nat
        })
    }
}

/// When a record at position `i` carries `id` and identifiers are unique,
/// that position is the one `idx_of` names.
pub proof fn lemma_lookup_unique(s: Seq<UserView>, id: UserId, i: int)
    requires
        ids_unique(s),
        0 <= i < s.len(),
        s[i].id == id,
    ensures
        has_id(s, id),
        idx_of(s, id) == i,
        lookup(s, id) == s[i],
{
    assert(has_id(s, id));
    let j = idx_of(s, id);
    assert(0 <= j < s.len() && s[j].id == id);
    if i < j {
        assert(s[i].id != s[j].id);
    } else if j < i {
        assert(s[j].id != s[i].id);
    }
}

/// Appending a stamped record for a fresh identifier preserves the store
/// invariant, and the new record is the one a lookup then finds.
pub proof fn lemma_push_inv(s: Seq<UserView>, v: UserView)
    requires
        store_inv(s),
        !has_id(s, v.id),
        v.created_at is Some,
    ensures
        store_inv(s.push(v)),
        has_id(s.push(v), v.id),
        idx_of(s.push(v), v.id) == s.len(),
        lookup(s.push(v), v.id) == v,
{
    let t = s.push(v);
    assert forall|i: int, j: int| 0 <= i < j < t.len() implies t[i].id != t[j].id by {
        if j < s.len() {
            assert(s[i].id != s[j].id);
        } else {
            assert(t[j] == v);
            assert(t[i] == s[i]);
            if s[i].id == v.id {
                assert(has_id(s, v.id));
            }
        }
    }
    assert forall|i: int| 0 <= i < t.len() implies t[i].created_at is Some by {
        if i < s.len() {
            assert(t[i] == s[i]);
        } else {
            assert(t[i] == v);
        }
    }
    lemma_lookup_unique(t, v.id, s.len() as int);
}

/// Removing the record at position `i` preserves the store invariant and
/// leaves no record carrying that record's identifier.
pub proof fn lemma_remove_inv(s: Seq<UserView>, i: int)
    requires
        store_inv(s),
        0 <= i < s.len(),
    ensures
        store_inv(s.remove(i)),
        !has_id(s.remove(i), s[i].id),
{
    let t = s.remove(i);
    assert forall|k: int| 0 <= k < t.len() implies t[k].id != s[i].id && t[k].created_at is Some by {
        if k < i {
            assert(t[k] == s[k]);
            assert(s[k].id != s[i].id);
        } else {
            assert(t[k] == s[k + 1]);
            assert(s[i].id != s[k + 1].id);
        }
    }
    assert forall|p: int, q: int| 0 <= p < q < t.len() implies t[p].id != t[q].id by {
        if q < i {
            assert(t[p] == s[p] && t[q] == s[q]);
            assert(s[p].id != s[q].id);
        } else if p < i {
            assert(t[p] == s[p] && t[q] == s[q + 1]);
            assert(s[p].id != s[q + 1].id);
        } else {
            assert(t[p] == s[p + 1] && t[q] == s[q + 1]);
            assert(s[p + 1].id != s[q + 1].id);
        }
    }
    if has_id(t, s[i].id) {
        let k = choose|k: int| 0 <= k < t.len() && t[k].id == s[i].id;
        assert(t[k].id != s[i].id);
    }
}

/// Under unique identifiers, the number of records carrying `id` is one when
/// some record carries it and zero otherwise.
pub proof fn lemma_unique_count(s: Seq<UserView>, id: UserId)
    requires
        ids_unique(s),
    ensures
        count_id(s, id) == if has_id(s, id) {
            1nat
        } else {
            0nat
        },
    decreases s.len(),
{
    if s.len() == 0 {
        assert(!has_id(s, id));
    } else {
        let prefix = s.drop_last();
        let last = s.len() - 1;
        assert forall|i: int, j: int| 0 <= i < j < prefix.len() implies prefix[i].id
            != prefix[j].id by {
            assert(prefix[i] == s[i] && prefix[j] == s[j]);
            assert(s[i].id != s[j].id);
        }
        lemma_unique_count(prefix, id);
        if s[last].id == id {
            assert(has_id(s, id));
            if has_id(prefix, id) {
                let k = choose|k: int| 0 <= k < prefix.len() && prefix[k].id == id;
                assert(prefix[k] == s[k]);
                assert(s[k].id != s[last].id);
            }
            assert(!has_id(prefix, id));
        } else {
            if has_id(s, id) {
                let k = choose|k: int| 0 <= k < s.len() && s[k].id == id;
                assert(k != last);
                assert(prefix[k] == s[k]);
                assert(has_id(prefix, id));
            }
            if has_id(prefix, id) {
                let k = choose|k: int| 0 <= k < prefix.len() && prefix[k].id == id;
                assert(prefix[k] == s[k]);
                assert(has_id(s, id));
            }
        }
    }
}

/// The view of a result as the caller's contract speaks of it: the stored
/// record's value on success, the error unchanged on failure.
pub open spec fn result_view(r: Result<User, RepositoryError>) -> Result<
    UserView,
    RepositoryError,
> {
    match r {
        Ok(u) => Ok(u@),
        Err(e) => Err(e),
    }
}

} // verus!
