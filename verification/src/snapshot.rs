//! Snapshots: point-in-time materializations of an aggregate, used to bound
//! replay cost; derived, disposable, never authoritative.
pub mod envelope;
pub mod store;
