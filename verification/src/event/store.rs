//! The event store: append-only, per-aggregate streams with optimistic
//! concurrency, and a verified in-memory store.
use vstd::prelude::*;

use crate::event::envelope::{EventEnvelope, EventEnvelopeView};
use crate::event::EventType;
use crate::Error;

verus! {

/// The envelope views of a sequence of envelopes, in the same order.
pub open spec fn views_of<Event>(v: Seq<EventEnvelope<Event>>) -> Seq<EventEnvelopeView<Event>> {
    v.map_values(|e: EventEnvelope<Event>| e@)
}

/// The stream of one aggregate: the envelopes of the log that carry its
/// identity, in log order.
pub open spec fn stream_of<Event>(log: Seq<EventEnvelopeView<Event>>, id: Seq<char>) -> Seq<
    EventEnvelopeView<Event>,
>
    decreases log.len(),
{
    if log.len() == 0 {
        Seq::empty()
    } else {
        let rest = stream_of(log.drop_last(), id);
        if log.last().aggregate_id == id {
            rest.push(log.last())
        } else {
            rest
        }
    }
}

/// The part of one aggregate's stream at or after a version, in log order.
pub open spec fn stream_from_of<Event>(
    log: Seq<EventEnvelopeView<Event>>,
    id: Seq<char>,
    version: int,
) -> Seq<EventEnvelopeView<Event>>
    decreases log.len(),
{
    if log.len() == 0 {
        Seq::empty()
    } else {
        let rest = stream_from_of(log.drop_last(), id, version);
        if log.last().aggregate_id == id && log.last().version >= version {
            rest.push(log.last())
        } else {
            rest
        }
    }
}

/// A well-formed log: within every stream the versions are exactly
/// 0, 1, 2, ... in order — unique, strictly increasing, without gaps.
pub open spec fn wf_log<Event>(log: Seq<EventEnvelopeView<Event>>) -> bool {
    forall|id: Seq<char>, k: int|
        0 <= k < stream_of(log, id).len() ==> (#[trigger] stream_of(log, id)[k]).version == k
}

/// Appending one envelope extends exactly the stream it belongs to.
pub proof fn lemma_stream_push<Event>(
    log: Seq<EventEnvelopeView<Event>>,
    e: EventEnvelopeView<Event>,
    id: Seq<char>,
)
    ensures
        stream_of(log.push(e), id) == (if e.aggregate_id == id {
            stream_of(log, id).push(e)
        } else {
            stream_of(log, id)
        }),
        stream_from_of(log.push(e), id, e.version as int) == (if e.aggregate_id == id {
            stream_from_of(log, id, e.version as int).push(e)
        } else {
            stream_from_of(log, id, e.version as int)
        }),
{
    assert(log.push(e).drop_last() =~= log);
    assert(log.push(e).last() == e);
}

/// Appending one envelope extends each from-version reading the same way.
pub proof fn lemma_stream_from_push<Event>(
    log: Seq<EventEnvelopeView<Event>>,
    e: EventEnvelopeView<Event>,
    id: Seq<char>,
    version: int,
)
    ensures
        stream_from_of(log.push(e), id, version) == (if e.aggregate_id == id && e.version
            >= version {
            stream_from_of(log, id, version).push(e)
        } else {
            stream_from_of(log, id, version)
        }),
{
    assert(log.push(e).drop_last() =~= log);
    assert(log.push(e).last() == e);
}

/// A push whose version is the next position of its stream keeps the log
/// well-formed.
pub proof fn lemma_wf_push<Event>(log: Seq<EventEnvelopeView<Event>>, e: EventEnvelopeView<Event>)
    requires
        wf_log(log),
        e.version == stream_of(log, e.aggregate_id).len(),
    ensures
        wf_log(log.push(e)),
{
    assert forall|id: Seq<char>, k: int| 0 <= k < stream_of(log.push(e), id).len() implies (
    #[trigger] stream_of(log.push(e), id)[k]).version == k by {
        lemma_stream_push(log, e, id);
        if e.aggregate_id == id {
            if k < stream_of(log, id).len() {
                assert(stream_of(log.push(e), id)[k] == stream_of(log, id)[k]);
            } else {
                assert(stream_of(log.push(e), id)[k] == e);
            }
        } else {
            assert(stream_of(log.push(e), id)[k] == stream_of(log, id)[k]);
        }
    }
}

/// Dropping the last log entry keeps the log well-formed.
pub proof fn lemma_wf_drop_last<Event>(log: Seq<EventEnvelopeView<Event>>)
    requires
        wf_log(log),
        log.len() > 0,
    ensures
        wf_log(log.drop_last()),
{
    let dl = log.drop_last();
    assert forall|id: Seq<char>, k: int| 0 <= k < stream_of(dl, id).len() implies (
    #[trigger] stream_of(dl, id)[k]).version == k by {
        lemma_stream_push(dl, log.last(), id);
        assert(dl.push(log.last()) =~= log);
        assert(stream_of(log, id)[k] == stream_of(dl, id)[k]);
    }
}

/// The abstract event store contract: an append-only log of event envelopes,
/// read per aggregate stream, written under an optimistic-concurrency check.
///
/// `inv` is the store's own well-formedness; `log_view` is the appended
/// history it represents. A read returns the requested stream or fails with
/// a transient or serialization error; a persist appends exactly when the
/// envelope's version is the next position of its stream, reports a version
/// conflict when that position is taken, and never changes the history on
/// failure.
pub trait EventStore<Event: EventType>: Sized {
    spec fn inv(self) -> bool;

    spec fn log_view(self) -> Seq<EventEnvelopeView<Event>>;

    /// Full history of one aggregate from version 0; an empty list means the
    /// aggregate has not yet begun, and is not an error.
    fn read(&self, aggregate_id: &String) -> (r: Result<Vec<EventEnvelope<Event>>, Error>)
        requires
            self.inv(),
        ensures
            r matches Ok(v) ==> views_of(v@) == stream_of(self.log_view(), aggregate_id@),
            r matches Err(e) ==> (e == Error::Transient || e == Error::Serialization),
    ;

    /// History of one aggregate at and after the given version.
    fn read_from(&self, aggregate_id: &String, version: i64) -> (r: Result<
        Vec<EventEnvelope<Event>>,
        Error,
    >)
        requires
            self.inv(),
        ensures
            r matches Ok(v) ==> views_of(v@) == stream_from_of(
                self.log_view(),
                aggregate_id@,
                version as int,
            ),
            r matches Err(e) ==> (e == Error::Transient || e == Error::Serialization),
    ;

    /// Appends one envelope under the optimistic-concurrency check.
    fn persist(&mut self, event_envelope: EventEnvelope<Event>) -> (r: Result<(), Error>)
        requires
            old(self).inv(),
        ensures
            final(self).inv(),
            r matches Ok(_) ==> event_envelope@.version == stream_of(
                old(self).log_view(),
                event_envelope@.aggregate_id,
            ).len() && final(self).log_view() == old(self).log_view().push(event_envelope@),
            r == Err::<(), Error>(Error::VersionConflict) ==> event_envelope@.version != stream_of(
                old(self).log_view(),
                event_envelope@.aggregate_id,
            ).len() && final(self).log_view() == old(self).log_view(),
            r matches Err(e) ==> (e == Error::VersionConflict || e == Error::Transient || e
                == Error::Serialization) && final(self).log_view() == old(self).log_view(),
    ;
}

/// An event store held in memory: the reference implementation of the
/// store contract, with the optimistic-concurrency check made exact — a
/// persist succeeds if and only if the envelope's version is the next
/// position of its stream.
pub struct InMemoryEventStore<Event> {
    log: Vec<EventEnvelope<Event>>,
}

impl<Event: EventType> InMemoryEventStore<Event> {
    /// The whole appended history, in append order.
    pub closed spec fn history(self) -> Seq<EventEnvelopeView<Event>> {
        views_of(self.log@)
    }

    /// The stream of one aggregate.
    pub open spec fn stream(self, id: Seq<char>) -> Seq<EventEnvelopeView<Event>> {
        stream_of(self.history(), id)
    }

    /// Within every stream, versions are exactly 0, 1, 2, ...
    pub open spec fn wf(self) -> bool {
        wf_log(self.history())
    }

    /// An empty store.
    pub fn new() -> (s: Self)
        ensures
            s.wf(),
            s.history() == Seq::<EventEnvelopeView<Event>>::empty(),
    {
        let s = InMemoryEventStore { log: Vec::new() };
        proof {
            assert(s.history() =~= Seq::<EventEnvelopeView<Event>>::empty());
        }
        s
    }
}

impl<Event: EventType> EventStore<Event> for InMemoryEventStore<Event> {
    open spec fn inv(self) -> bool {
        self.wf()
    }

    open spec fn log_view(self) -> Seq<EventEnvelopeView<Event>> {
        self.history()
    }

    fn read(&self, aggregate_id: &String) -> (r: Result<Vec<EventEnvelope<Event>>, Error>)
        ensures
            r is Ok,
    {
        let n = self.log.len();
        let mut out: Vec<EventEnvelope<Event>> = Vec::new();
        let mut i: usize = 0;
        proof {
            assert(views_of(self.log@.subrange(0, 0)) =~= Seq::<EventEnvelopeView<Event>>::empty());
            assert(views_of(out@) =~= Seq::<EventEnvelopeView<Event>>::empty());
        }
        while i < n
            invariant
                0 <= i <= n,
                n == self.log@.len(),
                views_of(out@) == stream_of(views_of(self.log@.subrange(0, i as int)), aggregate_id@),
            decreases n - i,
        {
            let ghost prefix = views_of(self.log@.subrange(0, i as int));
            let e = &self.log[i];
            proof {
                assert(views_of(self.log@.subrange(0, i as int + 1)) =~= prefix.push(
                    self.log@[i as int]@,
                ));
                lemma_stream_push(prefix, self.log@[i as int]@, aggregate_id@);
            }
            if e.aggregate_id == *aggregate_id {
                let copy = e.duplicate();
                out.push(copy);
                proof {
                    assert(views_of(out@) =~= stream_of(
                        views_of(self.log@.subrange(0, i as int + 1)),
                        aggregate_id@,
                    ));
                }
            } else {
                proof {
                    assert(views_of(out@) =~= stream_of(
                        views_of(self.log@.subrange(0, i as int + 1)),
                        aggregate_id@,
                    ));
                }
            }
            i = i + 1;
        }
        proof {
            assert(self.log@.subrange(0, n as int) =~= self.log@);
        }
        Ok(out)
    }

    fn read_from(&self, aggregate_id: &String, version: i64) -> (r: Result<
        Vec<EventEnvelope<Event>>,
        Error,
    >)
        ensures
            r is Ok,
    {
        let n = self.log.len();
        let mut out: Vec<EventEnvelope<Event>> = Vec::new();
        let mut i: usize = 0;
        proof {
            assert(views_of(self.log@.subrange(0, 0)) =~= Seq::<EventEnvelopeView<Event>>::empty());
            assert(views_of(out@) =~= Seq::<EventEnvelopeView<Event>>::empty());
        }
        while i < n
            invariant
                0 <= i <= n,
                n == self.log@.len(),
                views_of(out@) == stream_from_of(
                    views_of(self.log@.subrange(0, i as int)),
                    aggregate_id@,
                    version as int,
                ),
            decreases n - i,
        {
            let ghost prefix = views_of(self.log@.subrange(0, i as int));
            let e = &self.log[i];
            proof {
                assert(views_of(self.log@.subrange(0, i as int + 1)) =~= prefix.push(
                    self.log@[i as int]@,
                ));
                lemma_stream_from_push(prefix, self.log@[i as int]@, aggregate_id@, version as int);
            }
            if e.aggregate_id == *aggregate_id && e.version >= version {
                let copy = e.duplicate();
                out.push(copy);
                proof {
                    assert(views_of(out@) =~= stream_from_of(
                        views_of(self.log@.subrange(0, i as int + 1)),
                        aggregate_id@,
                        version as int,
                    ));
                }
            } else {
                proof {
                    assert(views_of(out@) =~= stream_from_of(
                        views_of(self.log@.subrange(0, i as int + 1)),
                        aggregate_id@,
                        version as int,
                    ));
                }
            }
            i = i + 1;
        }
        proof {
            assert(self.log@.subrange(0, n as int) =~= self.log@);
        }
        Ok(out)
    }

    fn persist(&mut self, event_envelope: EventEnvelope<Event>) -> (r: Result<(), Error>)
        ensures
            event_envelope@.version == stream_of(
                old(self).log_view(),
                event_envelope@.aggregate_id,
            ).len() ==> r == Ok::<(), Error>(()),
            event_envelope@.version != stream_of(
                old(self).log_view(),
                event_envelope@.aggregate_id,
            ).len() ==> r == Err::<(), Error>(Error::VersionConflict),
    {
        let n = self.log.len();
        let mut count: usize = 0;
        let mut i: usize = 0;
        proof {
            assert(views_of(self.log@.subrange(0, 0)) =~= Seq::<EventEnvelopeView<Event>>::empty());
        }
        while i < n
            invariant
                0 <= i <= n,
                n == self.log@.len(),
                count <= i,
                count == stream_of(
                    views_of(self.log@.subrange(0, i as int)),
                    event_envelope@.aggregate_id,
                ).len(),
            decreases n - i,
        {
            let ghost prefix = views_of(self.log@.subrange(0, i as int));
            let e = &self.log[i];
            proof {
                assert(views_of(self.log@.subrange(0, i as int + 1)) =~= prefix.push(
                    self.log@[i as int]@,
                ));
                lemma_stream_push(prefix, self.log@[i as int]@, event_envelope@.aggregate_id);
            }
            if e.aggregate_id == event_envelope.aggregate_id {
                count = count + 1;
            }
            i = i + 1;
        }
        proof {
            assert(self.log@.subrange(0, n as int) =~= self.log@);
        }
        if event_envelope.version >= 0 && (event_envelope.version as u128) == (count as u128) {
            proof {
                lemma_wf_push(self.history(), event_envelope@);
            }
            let ghost prior = self.log@;
            self.log.push(event_envelope);
            proof {
                assert(views_of(self.log@) =~= views_of(prior).push(self.log@[prior.len() as int]@));
            }
            Ok(())
        } else {
            Err(Error::VersionConflict)
        }
    }
}

/// Two writers race to append at the same next version of one aggregate:
/// the store serializes them, the first append is accepted, and the second
/// then finds its position taken — its version no longer names the next
/// position, so the store answers it with a version conflict.
pub proof fn lemma_concurrent_persist_one_winner<Event: EventType>(
    log: Seq<EventEnvelopeView<Event>>,
    first: EventEnvelopeView<Event>,
    second: EventEnvelopeView<Event>,
)
    requires
        second.aggregate_id == first.aggregate_id,
        second.version == first.version,
        first.version == stream_of(log, first.aggregate_id).len(),
    ensures
        second.version != stream_of(log.push(first), second.aggregate_id).len(),
{
    lemma_stream_push(log, first, second.aggregate_id);
}

/// Reading from a version yields a suffix of the full stream: everything
/// from the first envelope whose version is at least the given one, in the
/// same order.
pub proof fn lemma_read_from_is_suffix<Event: EventType>(
    log: Seq<EventEnvelopeView<Event>>,
    id: Seq<char>,
    version: int,
)
    requires
        wf_log(log),
    ensures
        stream_from_of(log, id, version) == stream_of(log, id).skip(
            if version < 0 {
                0
            } else if version > stream_of(log, id).len() {
                stream_of(log, id).len() as int
            } else {
                version
            },
        ),
    decreases log.len(),
{
    let s = stream_of(log, id);
    let cut = if version < 0 {
        0
    } else if version > s.len() {
        s.len() as int
    } else {
        version
    };
    if log.len() == 0 {
        assert(stream_from_of(log, id, version) =~= s.skip(cut));
    } else {
        let dl = log.drop_last();
        let x = log.last();
        lemma_wf_drop_last(log);
        lemma_read_from_is_suffix(dl, id, version);
        lemma_stream_push(dl, x, id);
        lemma_stream_from_push(dl, x, id, version);
        assert(dl.push(x) =~= log);
        let s0 = stream_of(dl, id);
        let cut0 = if version < 0 {
            0
        } else if version > s0.len() {
            s0.len() as int
        } else {
            version
        };
        if x.aggregate_id == id {
            // x sits at position s0.len() of the stream, so its version is
            // s0.len() by well-formedness.
            assert(s == s0.push(x));
            assert(s[s0.len() as int] == x);
            assert(x.version == s0.len());
            if version <= s0.len() {
                assert(stream_from_of(log, id, version) == stream_from_of(dl, id, version).push(x));
                assert(cut == cut0);
                assert(s0.skip(cut0).push(x) =~= s.skip(cut));
            } else {
                assert(stream_from_of(log, id, version) == stream_from_of(dl, id, version));
                assert(cut0 == s0.len());
                assert(s0.skip(cut0) =~= Seq::<EventEnvelopeView<Event>>::empty());
                assert(cut == s.len());
                assert(s.skip(cut) =~= Seq::<EventEnvelopeView<Event>>::empty());
            }
        } else {
            assert(s == s0);
            assert(stream_from_of(log, id, version) == stream_from_of(dl, id, version));
        }
    }
}

} // verus!

