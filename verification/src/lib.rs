//! A small user-record library: a concurrent in-memory repository of user
//! records behind a uniform get/create/update/delete contract.
//!
//! The repository keeps at most one record per identifier, stamps each record
//! with its creation time exactly once, and serialises all mutation through a
//! reader/writer lock so that concurrent callers never observe a partially
//! updated record.

pub mod errors;
pub mod laws;
pub mod model;
pub mod repository;
pub mod store;
pub mod user;
