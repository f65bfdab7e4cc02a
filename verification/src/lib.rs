//! Persistence and replay core of an event-sourcing library: envelopes with a
//! verified wire codec, aggregate reconstruction by folding events, event and
//! snapshot stores with optimistic concurrency, and the decision core of an
//! at-least-once stream consumer.
use vstd::prelude::*;

pub mod aggregate;
pub mod codec;
pub mod command_handler;
pub mod event;
pub mod projection;
pub mod snapshot;

verus! {

/// Closed error taxonomy of the library.
///
/// `Domain` marks a business-rule rejection by an aggregate or projection
/// fold; `VersionConflict` marks an optimistic-concurrency loss;
/// `NotFound` marks a missing latest snapshot; `Serialization` marks a
/// malformed or schema-incompatible payload; `Transient` marks a storage or
/// broker outage that is safe to retry; `ContentionExceeded` is surfaced by a
/// command handler whose bounded retries were all lost to version conflicts.
#[derive(Clone, Copy, Debug, PartialEq, Eq, Structural)]
pub enum Error {
    Domain,
    VersionConflict,
    NotFound,
    Serialization,
    Transient,
    ContentionExceeded,
}

impl Error {
    /// An error may be retried exactly when it is a version conflict (reload
    /// and reapply) or a transient infrastructure outage (delay and retry).
    pub fn retryable(&self) -> (r: bool)
        ensures
            r == (*self == Error::VersionConflict || *self == Error::Transient),
    {
        match self {
            Error::VersionConflict => true,
            Error::Transient => true,
            _ => false,
        }
    }
}

/// Relies on uuid::Uuid::new_v4 and Uuid::as_u128: a freshly generated
/// random (version 4) identifier, returned as its 128-bit value. The value
/// is random, so nothing is promised of it.
#[verifier::external_body]
pub(crate) fn fresh_envelope_id() -> u128 {
    uuid::Uuid::new_v4().as_u128()
}

/// Relies on chrono::Utc::now and DateTime::timestamp_millis: the current
/// UTC wall-clock time, in milliseconds since the Unix epoch. The value
/// depends on the clock, so nothing is promised of it.
#[verifier::external_body]
pub(crate) fn current_timestamp_millis() -> i64 {
    chrono::Utc::now().timestamp_millis()
}

} // verus!
