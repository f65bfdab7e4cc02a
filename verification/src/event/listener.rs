//! The listener contract: a long-running subscriber to a stream of published
//! event envelopes.
use vstd::prelude::*;

use crate::Error;

verus! {

/// A subscriber to a durable, partitioned, ordered log of published event
/// envelopes. `on_event` connects, consumes and applies messages until it is
/// cancelled or gives up; it surfaces only errors its retry policy does not
/// absorb.
pub trait EventListener {
    fn on_event(&self) -> Result<(), Error>;
}

} // verus!
