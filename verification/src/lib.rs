//! A per-user task-list store.
//!
//! Each caller is identified by an opaque identity value ([`owner::Owner`]);
//! tasks are scoped exclusively to their owning caller. The store keeps a
//! monotonically increasing identifier counter and the tasks of every owner,
//! and offers operations to create, query, toggle and delete tasks, each with
//! a verified contract. The hosting environment resolves the caller identity
//! and handles transport; the store works on plain values only.

pub mod filtering;
pub mod laws;
pub mod model;
pub mod owner;
pub mod store;
pub mod task;
