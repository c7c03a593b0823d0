//! The laws of the repository contract, proved once and for all over the
//! model that the operations' own contracts are stated against.
//!
//! Each law speaks of the spec-level meaning of the operations
//! ([`spec_get`], [`spec_create`], [`spec_update`] and the state functions
//! beside them), which the executable operations are proved to implement
//! exactly, so each law carries over to any sequence of calls.

use vstd::prelude::*;

use crate::errors::RepositoryError;
use crate::model::{
    count_id, create_state, delete_state, has_id, idx_of, lemma_push_inv, lemma_remove_inv,
    lemma_unique_count, lookup, spec_create, spec_get, spec_update, store_inv, update_state,
    with_created, with_updated,
};
use crate::user::{Timestamp, UserId, UserView};

verus! {

/// Uniqueness: once a create for an identifier has succeeded, any later
/// create with the same identifier — under the lock, "later" covers every
/// serialisation of concurrent calls — fails with `AlreadyExist` and leaves
/// the store unchanged; the store holds exactly one record with that
/// identifier, never a silently overwritten one.
pub proof fn law_create_unique(s: Seq<UserView>, u: UserView, t: Timestamp, u2: UserView, t2: Timestamp)
    requires
        store_inv(s),
        !has_id(s, u.id),
        u2.id == u.id,
    ensures
        spec_create(s, u, t) == Ok::<UserView, RepositoryError>(with_created(u, t)),
        spec_create(create_state(s, u, t), u2, t2) == Err::<UserView, RepositoryError>(
            RepositoryError::AlreadyExist,
        ),
        create_state(create_state(s, u, t), u2, t2) == create_state(s, u, t),
        count_id(create_state(s, u, t), u.id) == 1,
        store_inv(create_state(s, u, t)),
{
    lemma_push_inv(s, with_created(u, t));
    lemma_unique_count(create_state(s, u, t), u.id);
}

/// Round-trip: a get straight after a successful create returns exactly the
/// record create returned — every field of the argument, except the creation
/// timestamp, which is now set.
pub proof fn law_create_then_get(s: Seq<UserView>, u: UserView, t: Timestamp)
    requires
        store_inv(s),
        !has_id(s, u.id),
    ensures
        spec_get(create_state(s, u, t), u.id) == Ok::<UserView, RepositoryError>(
            with_created(u, t),
        ),
        with_created(u, t).id == u.id,
        with_created(u, t).name == u.name,
        with_created(u, t).birth_date == u.birth_date,
        with_created(u, t).custom_data == u.custom_data,
        with_created(u, t).updated_at == u.updated_at,
        with_created(u, t).created_at == Some(t),
{
    lemma_push_inv(s, with_created(u, t));
}

/// Update preserves identity: a successful update returns a record with the
/// argument's identifier and fields, except that the creation timestamp is
/// the stored one, unchanged, and the update timestamp is freshly set; a get
/// straight afterwards returns that same record.
pub proof fn law_update_preserves_identity(s: Seq<UserView>, u: UserView, t: Timestamp)
    requires
        store_inv(s),
        has_id(s, u.id),
    ensures
        spec_update(s, u, t) == Ok::<UserView, RepositoryError>(
            with_updated(u, lookup(s, u.id).created_at, t),
        ),
        with_updated(u, lookup(s, u.id).created_at, t).id == u.id,
        with_updated(u, lookup(s, u.id).created_at, t).name == u.name,
        with_updated(u, lookup(s, u.id).created_at, t).birth_date == u.birth_date,
        with_updated(u, lookup(s, u.id).created_at, t).custom_data == u.custom_data,
        with_updated(u, lookup(s, u.id).created_at, t).created_at == lookup(s, u.id).created_at,
        with_updated(u, lookup(s, u.id).created_at, t).updated_at == Some(t),
        spec_get(update_state(s, u, t), u.id) == spec_update(s, u, t),
        store_inv(update_state(s, u, t)),
{
    let i = idx_of(s, u.id);
    assert(0 <= i < s.len() && s[i].id == u.id);
    lemma_remove_inv(s, i);
    lemma_push_inv(s.remove(i), with_updated(u, lookup(s, u.id).created_at, t));
}

/// When the clock reads strictly later than the stored creation time, the
/// record a successful update returns carries an update timestamp strictly
/// later than its creation timestamp. (A clock stepped backwards between the
/// two calls is the one way this ordering can fail.)
pub proof fn law_update_time_ordering(s: Seq<UserView>, u: UserView, t: Timestamp)
    requires
        store_inv(s),
        has_id(s, u.id),
        lookup(s, u.id).created_at matches Some(c) && c.micros < t.micros,
    ensures
        spec_update(s, u, t) matches Ok(r) && r.created_at matches Some(c)
            && r.updated_at matches Some(m) && c.micros < m.micros,
{
}

/// Missing-target errors: on an identifier no record carries, get fails with
/// `InvalidId` and update fails with `DoesNotExist`, and neither changes the
/// store.
pub proof fn law_missing_target(s: Seq<UserView>, id: UserId, u: UserView, t: Timestamp)
    requires
        !has_id(s, id),
        u.id == id,
    ensures
        spec_get(s, id) == Err::<UserView, RepositoryError>(RepositoryError::InvalidId),
        spec_update(s, u, t) == Err::<UserView, RepositoryError>(RepositoryError::DoesNotExist),
        update_state(s, u, t) == s,
{
}

/// Idempotent delete: deleting leaves no record with the identifier, so
/// deleting again succeeds and changes nothing; deleting an absent
/// identifier changes nothing. Delete itself always succeeds and returns the
/// identifier, by its own contract.
pub proof fn law_delete_idempotent(s: Seq<UserView>, id: UserId)
    requires
        store_inv(s),
    ensures
        !has_id(delete_state(s, id), id),
        delete_state(delete_state(s, id), id) == delete_state(s, id),
        store_inv(delete_state(s, id)),
        !has_id(s, id) ==> delete_state(s, id) == s,
{
    if has_id(s, id) {
        let i = idx_of(s, id);
        assert(0 <= i < s.len() && s[i].id == id);
        lemma_remove_inv(s, i);
    }
}

/// The state left behind by a sequence of creates run in order, each
/// against the state the previous one left.
pub open spec fn run_creates(s: Seq<UserView>, ops: Seq<(UserView, Timestamp)>) -> Seq<UserView>
    decreases ops.len(),
{
    if ops.len() == 0 {
        s
    } else {
        run_creates(create_state(s, ops[0].0, ops[0].1), ops.drop_first())
    }
}

/// On a state that already holds a record with `id`, every create in a
/// sequence of creates for `id` fails with `AlreadyExist` and the state
/// never changes.
pub proof fn lemma_creates_all_fail(s: Seq<UserView>, id: UserId, ops: Seq<(UserView, Timestamp)>)
    requires
        has_id(s, id),
        forall|k: int| 0 <= k < ops.len() ==> (#[trigger] ops[k]).0.id == id,
    ensures
        run_creates(s, ops) == s,
        forall|k: int|
            0 <= k < ops.len() ==> spec_create(s, (#[trigger] ops[k]).0, ops[k].1) == Err::<
                UserView,
                RepositoryError,
            >(RepositoryError::AlreadyExist),
    decreases ops.len(),
{
    if ops.len() > 0 {
        assert(create_state(s, ops[0].0, ops[0].1) == s);
        lemma_creates_all_fail(s, id, ops.drop_first());
    }
}

/// Concurrency race, as the lock serialises it: of N creates with the same
/// identifier run against a store not yet holding it, the first to enter
/// the critical section succeeds and each of the N-1 later ones fails with
/// `AlreadyExist`, whatever record value and timestamp it carries; the
/// store ends with exactly one matching record.
pub proof fn law_create_race_single_winner(
    s: Seq<UserView>,
    winner: UserView,
    t: Timestamp,
    losers: Seq<(UserView, Timestamp)>,
)
    requires
        store_inv(s),
        !has_id(s, winner.id),
        forall|k: int| 0 <= k < losers.len() ==> (#[trigger] losers[k]).0.id == winner.id,
    ensures
        spec_create(s, winner, t) is Ok,
        forall|k: int|
            0 <= k < losers.len() ==> spec_create(
                create_state(s, winner, t),
                (#[trigger] losers[k]).0,
                losers[k].1,
            ) == Err::<UserView, RepositoryError>(RepositoryError::AlreadyExist),
        run_creates(create_state(s, winner, t), losers) == create_state(s, winner, t),
        count_id(run_creates(create_state(s, winner, t), losers), winner.id) == 1,
{
    lemma_push_inv(s, with_created(winner, t));
    lemma_creates_all_fail(create_state(s, winner, t), winner.id, losers);
    lemma_unique_count(create_state(s, winner, t), winner.id);
}

} // verus!
