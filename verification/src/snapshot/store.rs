//! The snapshot store: keeps the latest snapshot per aggregate, and a
//! verified in-memory store that retains its history of snapshots.
use vstd::prelude::*;

use crate::aggregate::Aggregate;
use crate::snapshot::envelope::{SnapshotEnvelope, SnapshotEnvelopeView};
use crate::Error;

verus! {

/// The snapshot views of a sequence of snapshots, in the same order.
pub open spec fn snapshot_views_of<A>(v: Seq<SnapshotEnvelope<A>>) -> Seq<SnapshotEnvelopeView<A>> {
    v.map_values(|e: SnapshotEnvelope<A>| e@)
}

/// The most recently written snapshot of one aggregate, if any.
pub open spec fn latest_of<A>(snaps: Seq<SnapshotEnvelopeView<A>>, id: Seq<char>) -> Option<
    SnapshotEnvelopeView<A>,
>
    decreases snaps.len(),
{
    if snaps.len() == 0 {
        None
    } else if snaps.last().aggregate_id == id {
        Some(snaps.last())
    } else {
        latest_of(snaps.drop_last(), id)
    }
}

/// Writing one snapshot makes it the latest of its aggregate and changes no
/// other aggregate's latest.
pub proof fn lemma_latest_push<A>(
    snaps: Seq<SnapshotEnvelopeView<A>>,
    e: SnapshotEnvelopeView<A>,
    id: Seq<char>,
)
    ensures
        latest_of(snaps.push(e), id) == (if e.aggregate_id == id {
            Some(e)
        } else {
            latest_of(snaps, id)
        }),
{
    assert(snaps.push(e).drop_last() =~= snaps);
    assert(snaps.push(e).last() == e);
}

/// The abstract snapshot store contract: keeps, per aggregate, the latest
/// snapshot written for it. Reading finds that snapshot or reports that
/// none exists; writing replaces it. Snapshot writes are advisory: a failed
/// write leaves every aggregate's latest snapshot as it was, so losing one
/// costs replay time, never correctness.
pub trait SnapshotStore<A: Aggregate>: Sized {
    spec fn inv(self) -> bool;

    spec fn latest_view(self, id: Seq<char>) -> Option<SnapshotEnvelopeView<A>>;

    /// The latest snapshot of one aggregate; fails with `NotFound` when none
    /// exists, and the caller falls back to full event replay.
    fn read(&self, aggregate_id: &String) -> (r: Result<SnapshotEnvelope<A>, Error>)
        requires
            self.inv(),
        ensures
            r matches Ok(e) ==> self.latest_view(aggregate_id@) == Some(e@),
            r == Err::<SnapshotEnvelope<A>, Error>(Error::NotFound) ==> self.latest_view(
                aggregate_id@,
            ) is None,
            r matches Err(e) ==> (e == Error::NotFound || e == Error::Transient || e
                == Error::Serialization),
    ;

    /// Stores or replaces the latest snapshot for the aggregate.
    fn persist(&mut self, snapshot_envelope: SnapshotEnvelope<A>) -> (r: Result<(), Error>)
        requires
            old(self).inv(),
        ensures
            final(self).inv(),
            r matches Ok(_) ==> final(self).latest_view(snapshot_envelope@.aggregate_id) == Some(
                snapshot_envelope@,
            ) && (forall|id2: Seq<char>|
                id2 != snapshot_envelope@.aggregate_id ==> final(self).latest_view(id2) == old(
                    self,
                ).latest_view(id2)),
            r matches Err(e) ==> (e == Error::Transient || e == Error::Serialization) && (forall|
                id2: Seq<char>,
            |
                final(self).latest_view(id2) == old(self).latest_view(id2)),
    ;
}

/// A snapshot store held in memory. It retains every snapshot written, in
/// write order; the contract only ever speaks of the latest per aggregate.
pub struct InMemorySnapshotStore<A> {
    snaps: Vec<SnapshotEnvelope<A>>,
}

impl<A: Aggregate> InMemorySnapshotStore<A> {
    /// Every snapshot written so far, in write order.
    pub closed spec fn snapshots(self) -> Seq<SnapshotEnvelopeView<A>> {
        snapshot_views_of(self.snaps@)
    }

    /// The latest snapshot of one aggregate, if any.
    pub open spec fn latest(self, id: Seq<char>) -> Option<SnapshotEnvelopeView<A>> {
        latest_of(self.snapshots(), id)
    }

    /// An empty store.
    pub fn new() -> (s: Self)
        ensures
            s.snapshots() == Seq::<SnapshotEnvelopeView<A>>::empty(),
    {
        let s = InMemorySnapshotStore { snaps: Vec::new() };
        proof {
            assert(s.snapshots() =~= Seq::<SnapshotEnvelopeView<A>>::empty());
        }
        s
    }
}

impl<A: Aggregate> SnapshotStore<A> for InMemorySnapshotStore<A> {
    open spec fn inv(self) -> bool {
        true
    }

    open spec fn latest_view(self, id: Seq<char>) -> Option<SnapshotEnvelopeView<A>> {
        self.latest(id)
    }

    fn read(&self, aggregate_id: &String) -> (r: Result<SnapshotEnvelope<A>, Error>)
        ensures
            self.latest_view(aggregate_id@) is Some ==> r is Ok,
            self.latest_view(aggregate_id@) is None ==> r == Err::<SnapshotEnvelope<A>, Error>(
                Error::NotFound,
            ),
    {
        let n = self.snaps.len();
        let mut i: usize = n;
        proof {
            assert(self.snaps@.subrange(0, n as int) =~= self.snaps@);
        }
        while i > 0
            invariant
                0 <= i <= n,
                n == self.snaps@.len(),
                latest_of(self.snapshots(), aggregate_id@) == latest_of(
                    snapshot_views_of(self.snaps@.subrange(0, i as int)),
                    aggregate_id@,
                ),
            decreases i,
        {
            let ghost prefix = snapshot_views_of(self.snaps@.subrange(0, i as int));
            proof {
                assert(prefix.len() == i);
                assert(prefix.drop_last() =~= snapshot_views_of(
                    self.snaps@.subrange(0, i as int - 1),
                ));
                assert(prefix.last() == self.snaps@[i as int - 1]@);
            }
            let e = &self.snaps[i - 1];
            if e.aggregate_id == *aggregate_id {
                return Ok(e.duplicate());
            }
            i = i - 1;
        }
        proof {
            assert(snapshot_views_of(self.snaps@.subrange(0, 0)) =~= Seq::<
                SnapshotEnvelopeView<A>,
            >::empty());
        }
        Err(Error::NotFound)
    }

    fn persist(&mut self, snapshot_envelope: SnapshotEnvelope<A>) -> (r: Result<(), Error>)
        ensures
            r is Ok,
    {
        let ghost prior = self.snaps@;
        let ghost e = snapshot_envelope@;
        self.snaps.push(snapshot_envelope);
        proof {
            assert(snapshot_views_of(self.snaps@) =~= snapshot_views_of(prior).push(e));
            assert forall|id2: Seq<char>| true implies #[trigger] latest_of(
                snapshot_views_of(self.snaps@),
                id2,
            ) == (if e.aggregate_id == id2 {
                Some(e)
            } else {
                latest_of(snapshot_views_of(prior), id2)
            }) by {
                lemma_latest_push(snapshot_views_of(prior), e, id2);
            }
        }
        Ok(())
    }
}

} // verus!
