//! Projections: read-side views with the same optional-state fold shape as
//! aggregates, rebuilt by replaying the event history from nothing.
use vstd::prelude::*;

use crate::Error;

verus! {

/// A read-oriented derived view. It folds events exactly as an aggregate
/// does, but is not tied to one aggregate identity: a projection may span
/// many source aggregates. `replay` is the recovery path: discard whatever
/// state exists and re-derive it from the full relevant event history —
/// `rebuild_projection` is the canonical, verified fold for doing so.
pub trait Projection: Sized + Clone {
    type Event;

    /// What applying one event to an optional prior state yields.
    spec fn apply_spec(state: Option<Self>, event: Self::Event) -> Result<Self, Error>;

    /// Applies one event to the projection.
    fn apply(state: Option<Self>, event: Self::Event) -> (r: Result<Self, Error>)
        ensures
            r == Self::apply_spec(state, event),
    ;

    /// Rebuilds the projection by clearing its state and replaying all the
    /// events from the beginning.
    fn replay() -> Result<Self, Error>;
}

/// Left-to-right fold of `apply_spec` over the events, from the given
/// state, stopping at the first error.
pub open spec fn fold_project<P: Projection>(state: Option<P>, events: Seq<P::Event>) -> Result<
    Option<P>,
    Error,
>
    decreases events.len(),
{
    if events.len() == 0 {
        Ok(state)
    } else {
        match P::apply_spec(state, events[0]) {
            Ok(next) => fold_project(Some(next), events.skip(1)),
            Err(e) => Err(e),
        }
    }
}

/// Re-derives a projection from an event history, starting from nothing:
/// the canonical body of a `replay`. An empty history yields no state,
/// which is not an error for a read-side view.
pub fn rebuild_projection<P: Projection>(events: Vec<P::Event>) -> (r: Result<Option<P>, Error>)
    ensures
        r == fold_project::<P>(None, events@),
{
    let mut remaining = events;
    let mut state: Option<P> = None;
    while remaining.len() > 0
        invariant
            fold_project::<P>(None, events@) == fold_project::<P>(state, remaining@),
        decreases remaining.len(),
    {
        let ghost before = remaining@;
        let event = remaining.remove(0);
        proof {
            assert(before[0] == event);
            assert(remaining@ =~= before.skip(1));
        }
        match P::apply(state, event) {
            Ok(next) => {
                state = Some(next);
            },
            Err(e) => {
                return Err(e);
            },
        }
    }
    Ok(state)
}

} // verus!
