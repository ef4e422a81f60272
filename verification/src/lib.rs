//! A task-tracking library built around a storage abstraction: a `Todo`
//! entity, field-level validation of incoming payloads, a repository
//! capability trait with five operations (create, find, list, update,
//! delete), a verified in-memory backend, and the decision rules that a
//! relational-store-backed backend must follow.

pub mod handlers;
pub mod laws;
pub mod memory;
pub mod persistence;
pub mod repositories;
