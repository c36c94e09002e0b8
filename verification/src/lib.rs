//! An in-memory store of user records, keyed by a numeric identifier.
//!
//! The store hands out identifiers itself (one more than the largest in use),
//! and answers five operations: create, get, list, update and delete. Every
//! operation takes the store by reference, so a caller that shares one store
//! among threads wraps it in a lock and each operation is a single step under
//! that lock.

pub mod model;
pub mod text;
pub mod user;
pub mod store;
pub mod service;
pub mod laws;
