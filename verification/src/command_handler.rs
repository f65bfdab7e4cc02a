//! The command handler contract, and the bounded retry discipline it uses
//! when a persist loses the optimistic-concurrency race.
use vstd::prelude::*;

use crate::Error;

verus! {

/// Single entry point of the write path: load the aggregate's current state
/// through the event store (optionally bootstrapped from the latest
/// snapshot), validate the command against it, derive new events, and
/// persist them at the expected next version. On a version conflict the
/// whole load-validate-persist cycle is retried a bounded number of times —
/// `RetryBudget` keeps that bound — before the failure is surfaced through
/// `escalate_exhausted`.
pub trait CommandHandler<Command>: Sized {
    fn handle(&self, command: Command) -> Result<(), Error>;
}

/// A bounded budget of load-validate-persist attempts. Every attempt
/// consumes one unit; when the budget is spent no further attempt is made,
/// so a retry loop driven by it always terminates.
pub struct RetryBudget {
    /// Attempts left.
    pub remaining: u64,
}

impl RetryBudget {
    /// A budget of the given number of attempts.
    pub fn new(attempts: u64) -> (b: Self)
        ensures
            b.remaining == attempts,
    {
        RetryBudget { remaining: attempts }
    }

    /// Takes one attempt from the budget; answers whether one was left.
    /// The budget never grows, so a loop that consumes before each attempt
    /// makes at most the budgeted number of them.
    pub fn try_consume(&mut self) -> (r: bool)
        ensures
            r == (old(self).remaining > 0),
            r ==> final(self).remaining == old(self).remaining - 1,
            !r ==> final(self).remaining == old(self).remaining,
    {
        if self.remaining > 0 {
            self.remaining = self.remaining - 1;
            true
        } else {
            false
        }
    }
}

/// The failure a handler surfaces once its retry budget is spent: repeated
/// version conflicts become the distinct contention-exceeded failure, so a
/// caller can tell "rejected by business rules" from "too contended to
/// apply"; any other error is surfaced as itself.
pub fn escalate_exhausted(error: Error) -> (r: Error)
    ensures
        error == Error::VersionConflict ==> r == Error::ContentionExceeded,
        error != Error::VersionConflict ==> r == error,
{
    match error {
        Error::VersionConflict => Error::ContentionExceeded,
        other => other,
    }
}

} // verus!
