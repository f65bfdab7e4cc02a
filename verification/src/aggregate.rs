//! Aggregates: state machines whose current state is a pure function of
//! their ordered event history.
use vstd::prelude::*;

use crate::event::EventType;
use crate::Error;

verus! {

/// An aggregate is a cluster of associated events treated as a unit for data
/// changes. Its state is derived solely from its ordered event history by
/// folding `apply`; it does not exist until a first event is folded.
///
/// The aggregate also carries a text codec for its own state, so that
/// snapshots of it can be serialized without inspecting the state.
pub trait Aggregate: Sized + Clone {
    type AggregateID;

    type Event: EventType;

    /// What applying one event to an optional prior state yields: the next
    /// state, or the domain error that rejects the event.
    spec fn apply_spec(state: Option<Self>, event: Self::Event) -> Result<Self, Error>;

    /// The aggregate's identity, as a mathematical value.
    spec fn id_spec(&self) -> Self::AggregateID;

    /// The state's text encoding, as a mathematical value.
    spec fn encoded(self) -> Seq<char>;

    /// What a text decodes to, if anything.
    spec fn decoded(s: Seq<char>) -> Option<Self>;

    /// Decoding inverts encoding.
    proof fn lemma_codec_round_trip(self)
        ensures
            Self::decoded(self.encoded()) == Some(self),
    ;

    /// A copy of the state, equal to it.
    fn duplicate(&self) -> (c: Self)
        ensures
            c == *self,
    ;

    /// The identity of the aggregate.
    fn aggregate_id(&self) -> (id: &Self::AggregateID)
        ensures
            *id == self.id_spec(),
    ;

    /// Applies one event. With no prior state the event must establish the
    /// aggregate; with a prior state it must incorporate the event's effect.
    /// Unusual event content is reported as an error, never a panic.
    fn apply(state: Option<Self>, event: Self::Event) -> (r: Result<Self, Error>)
        ensures
            r == Self::apply_spec(state, event),
    ;

    /// Writes the state as text.
    fn encode(&self) -> (s: String)
        ensures
            s@ == self.encoded(),
    ;

    /// Reads a state back from text.
    fn decode(s: &str) -> (r: Option<Self>)
        ensures
            r == Self::decoded(s@),
    ;

    /// Folds `apply` left-to-right over the list, starting from no state,
    /// stopping at the first error. An empty list is rejected: an aggregate
    /// must be born from at least one event. `apply_all_events` is the
    /// canonical, verified implementation of this contract; an
    /// implementation is expected to delegate to it.
    fn apply_all(events: Vec<Self::Event>) -> Result<Self, Error>;
}

/// Folds `apply` left-to-right over the list, starting from no state,
/// stopping at the first error. An empty list is rejected with a domain
/// error: an aggregate must be born from at least one event. The result is
/// a function of the list alone, so replay is deterministic.
pub fn apply_all_events<A: Aggregate>(events: Vec<A::Event>) -> (r: Result<A, Error>)
    ensures
        r == apply_all_spec::<A>(events@),
        events@.len() == 0 ==> r == Err::<A, Error>(Error::Domain),
{
    let n = events.len();
    let mut state: Option<A> = None;
    let mut i: usize = 0;
    proof {
        assert(events@.skip(0) =~= events@);
    }
    while i < n
        invariant
            0 <= i <= n,
            n == events@.len(),
            fold_apply::<A>(None, events@) == fold_apply::<A>(state, events@.skip(i as int)),
        decreases n - i,
    {
        let ghost rest = events@.skip(i as int);
        let event = events[i];
        proof {
            assert(rest[0] == events@[i as int]);
            assert(rest.skip(1) =~= events@.skip(i as int + 1));
        }
        match A::apply(state, event) {
            Ok(next) => {
                state = Some(next);
            },
            Err(e) => {
                return Err(e);
            },
        }
        i = i + 1;
    }
    proof {
        assert(events@.skip(n as int) =~= Seq::<A::Event>::empty());
    }
    match state {
        Some(s) => Ok(s),
        None => Err(Error::Domain),
    }
}

/// Left-to-right fold of `apply_spec` over the events, from the given state,
/// stopping at the first error.
pub open spec fn fold_apply<A: Aggregate>(state: Option<A>, events: Seq<A::Event>) -> Result<
    Option<A>,
    Error,
>
    decreases events.len(),
{
    if events.len() == 0 {
        Ok(state)
    } else {
        match A::apply_spec(state, events[0]) {
            Ok(next) => fold_apply(Some(next), events.skip(1)),
            Err(e) => Err(e),
        }
    }
}

/// What `apply_all` yields: the fold from no state, with an empty list or a
/// fold that yields no state rejected as a domain error.
pub open spec fn apply_all_spec<A: Aggregate>(events: Seq<A::Event>) -> Result<A, Error> {
    match fold_apply::<A>(None, events) {
        Ok(None) => Err(Error::Domain),
        Ok(Some(state)) => Ok(state),
        Err(e) => Err(e),
    }
}

/// One step at the back: folding over `events.push(e)` is folding over
/// `events` and then applying `e`.
proof fn lemma_fold_apply_snoc<A: Aggregate>(state: Option<A>, events: Seq<A::Event>, e: A::Event)
    ensures
        fold_apply::<A>(state, events.push(e)) == (match fold_apply::<A>(state, events) {
            Ok(mid) => match A::apply_spec(mid, e) {
                Ok(next) => Ok::<Option<A>, Error>(Some(next)),
                Err(err) => Err(err),
            },
            Err(err) => Err(err),
        }),
    decreases events.len(),
{
    if events.len() == 0 {
        assert(events.push(e)[0] == e);
        assert(events.push(e).skip(1) =~= Seq::<A::Event>::empty());
        assert(fold_apply::<A>(state, events) == Ok::<Option<A>, Error>(state));
        match A::apply_spec(state, e) {
            Ok(next) => {
                assert(fold_apply::<A>(state, events.push(e)) == fold_apply::<A>(
                    Some(next),
                    events.push(e).skip(1),
                ));
                assert(fold_apply::<A>(Some(next), events.push(e).skip(1)) == Ok::<
                    Option<A>,
                    Error,
                >(Some(next)));
            },
            Err(err) => {
                assert(fold_apply::<A>(state, events.push(e)) == Err::<Option<A>, Error>(err));
            },
        }
    } else {
        assert(events.push(e)[0] == events[0]);
        assert(events.push(e).skip(1) =~= events.skip(1).push(e));
        match A::apply_spec(state, events[0]) {
            Ok(next) => {
                lemma_fold_apply_snoc(Some(next), events.skip(1), e);
            },
            Err(_) => {},
        }
    }
}

/// The fold behind `apply_all` is the canonical left fold of `apply_spec`
/// over the list, started from no state.
pub proof fn lemma_apply_all_is_left_fold<A: Aggregate>(events: Seq<A::Event>)
    ensures
        fold_apply::<A>(None, events) == events.fold_left(
            Ok::<Option<A>, Error>(None),
            |acc: Result<Option<A>, Error>, e: A::Event|
                match acc {
                    Ok(mid) => match A::apply_spec(mid, e) {
                        Ok(next) => Ok(Some(next)),
                        Err(err) => Err(err),
                    },
                    Err(err) => Err(err),
                },
        ),
    decreases events.len(),
{
    if events.len() > 0 {
        lemma_apply_all_is_left_fold::<A>(events.drop_last());
        lemma_fold_apply_snoc::<A>(None, events.drop_last(), events.last());
        assert(events.drop_last().push(events.last()) =~= events);
    }
}

} // verus!
