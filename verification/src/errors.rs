//! The failure taxonomy shared by every storage backend.

use vstd::prelude::*;

verus! {

/// Why a repository operation failed.
///
/// `LockError` reports a failure of the concurrency primitive guarding the
/// store and carries a diagnostic message; the other variants are the
/// ordinary, recoverable outcomes of the contract.
#[derive(Debug)]
pub enum RepositoryError {
    /// The lock guarding the shared collection failed.
    LockError(String),
    /// `create` found a record with the same identifier already present.
    AlreadyExist,
    /// `update` found no record with the given identifier.
    DoesNotExist,
    /// `get` found no record with the given identifier.
    InvalidId,
}

} // verus!
