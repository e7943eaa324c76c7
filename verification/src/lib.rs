//! Object-store version accounting and purge engine.
//!
//! Given a bucket/prefix on a versioned blob store, this library classifies
//! storage into current objects, non-current versions of still-existing keys
//! and orphaned versions, aggregates size statistics per class, and plans
//! safe, batched bulk deletion of all versions and delete markers under a
//! prefix. Network calls against the store are made by a thin unverified
//! driver; everything the engine decides or computes is verified here.

pub mod classify;
pub mod error;
pub mod location;
pub mod purge;
pub mod records;
pub mod report;
pub mod stats;
pub mod walk;

pub use error::EngineError;
