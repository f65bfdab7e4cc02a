use std::str::FromStr;

use event_sourcing::aggregate::{apply_all_events, Aggregate};
use event_sourcing::event::envelope::EventEnvelope;
use event_sourcing::event::store::{EventStore, InMemoryEventStore};
use event_sourcing::event::EventType;
use event_sourcing::snapshot::envelope::SnapshotEnvelope;
use event_sourcing::snapshot::store::{InMemorySnapshotStore, SnapshotStore};
use event_sourcing::Error;
use uuid::Uuid;
use vstd::seq::Seq;

#[derive(Debug, Clone, Copy, PartialEq)]
struct TestEvent {
    id: Uuid,
    amount: i64,
}

impl EventType for TestEvent {
    // ghost items of the trait; erased from verified code, never called here
    fn encoded(self) -> Seq<char> {
        panic!()
    }

    fn decoded(_s: Seq<char>) -> Option<Self> {
        panic!()
    }

    fn lemma_codec_round_trip(self) {}

    fn event_type(&self) -> String {
        String::from("TestEvent")
    }

    fn encode(&self) -> String {
        format!("{} {}", self.id, self.amount)
    }

    fn decode(s: &str) -> Option<Self> {
        let mut parts = s.split(' ');
        let id = Uuid::from_str(parts.next()?).ok()?;
        let amount: i64 = parts.next()?.parse().ok()?;
        Some(TestEvent { id, amount })
    }
}

#[derive(Debug, Clone, PartialEq)]
struct TestAggregate {
    id: Uuid,
    total: i64,
}

impl Aggregate for TestAggregate {
    type AggregateID = Uuid;
    type Event = TestEvent;

    // ghost items of the trait; erased from verified code, never called here
    fn apply_spec(_state: Option<Self>, _event: TestEvent) -> Result<Self, Error> {
        panic!()
    }

    fn id_spec(&self) -> Uuid {
        panic!()
    }

    fn encoded(self) -> Seq<char> {
        panic!()
    }

    fn decoded(_s: Seq<char>) -> Option<Self> {
        panic!()
    }

    fn lemma_codec_round_trip(self) {}

    fn duplicate(&self) -> Self {
        self.clone()
    }

    fn aggregate_id(&self) -> &Uuid {
        &self.id
    }

    fn apply(state: Option<Self>, event: TestEvent) -> Result<Self, Error> {
        match state {
            None => Ok(TestAggregate { id: event.id, total: event.amount }),
            Some(mut state) => {
                state.total = state.total + event.amount;
                Ok(state)
            },
        }
    }

    fn encode(&self) -> String {
        format!("{} {}", self.id, self.total)
    }

    fn decode(s: &str) -> Option<Self> {
        let mut parts = s.split(' ');
        let id = Uuid::from_str(parts.next()?).ok()?;
        let total: i64 = parts.next()?.parse().ok()?;
        Some(TestAggregate { id, total })
    }

    fn apply_all(events: Vec<TestEvent>) -> Result<Self, Error> {
        apply_all_events(events)
    }
}

fn envelope(aggregate_id: &str, amount: i64, version: i64) -> EventEnvelope<TestEvent> {
    let data = TestEvent {
        id: Uuid::from_str("2e996ba1-03a6-47af-8fd1-2039c6708dd4").expect("expected uuid"),
        amount,
    };
    EventEnvelope::new(
        String::from(aggregate_id),
        String::from("TestAggregate"),
        data,
        data.event_type(),
        version,
    )
}

#[test]
fn persist_enforces_optimistic_concurrency() {
    let mut store: InMemoryEventStore<TestEvent> = InMemoryEventStore::new();
    // a brand-new aggregate accepts version 0
    assert!(store.persist(envelope("order-1", 1, 0)).is_ok());
    // a second envelope at the taken position is a version conflict
    let r = store.persist(envelope("order-1", 9, 0));
    assert_eq!(r.unwrap_err(), Error::VersionConflict);
    // the loser re-reads and retries at the new expected version
    let history = store.read(&String::from("order-1")).expect("expected stream");
    assert_eq!(history.len(), 1);
    assert!(store.persist(envelope("order-1", 9, 1)).is_ok());
}

#[test]
fn concurrent_writers_of_one_version_have_one_winner() {
    let mut store: InMemoryEventStore<TestEvent> = InMemoryEventStore::new();
    assert!(store.persist(envelope("order-1", 1, 0)).is_ok());
    // two writers both observed version 1 as next; the store serializes them
    let first = store.persist(envelope("order-1", 2, 1));
    let second = store.persist(envelope("order-1", 3, 1));
    assert!(first.is_ok());
    assert_eq!(second.unwrap_err(), Error::VersionConflict);
    let history = store.read(&String::from("order-1")).expect("expected stream");
    assert_eq!(history.len(), 2);
    assert_eq!(history[1].data.amount, 2);
}

#[test]
fn persist_rejects_gaps_and_negative_versions() {
    let mut store: InMemoryEventStore<TestEvent> = InMemoryEventStore::new();
    assert_eq!(store.persist(envelope("order-1", 1, 3)).unwrap_err(), Error::VersionConflict);
    assert_eq!(store.persist(envelope("order-1", 1, -1)).unwrap_err(), Error::VersionConflict);
    assert!(store.read(&String::from("order-1")).expect("expected stream").is_empty());
}

#[test]
fn read_of_unknown_aggregate_is_empty_not_an_error() {
    let store: InMemoryEventStore<TestEvent> = InMemoryEventStore::new();
    let history = store.read(&String::from("nobody")).expect("expected stream");
    assert!(history.is_empty());
}

#[test]
fn read_from_returns_the_suffix_in_order() {
    let mut store: InMemoryEventStore<TestEvent> = InMemoryEventStore::new();
    for (i, amount) in [10, 20, 30].iter().enumerate() {
        store.persist(envelope("order-1", *amount, i as i64)).expect("expected persist");
    }
    store.persist(envelope("other", 99, 0)).expect("expected persist");
    let full = store.read(&String::from("order-1")).expect("expected stream");
    let suffix = store.read_from(&String::from("order-1"), 1).expect("expected stream");
    assert_eq!(full.len(), 3);
    assert_eq!(suffix.len(), 2);
    for (k, e) in suffix.iter().enumerate() {
        assert_eq!(e.version, full[k + 1].version);
        assert_eq!(e.data, full[k + 1].data);
        assert_eq!(e.id, full[k + 1].id);
    }
    // from a version past the stream's head: nothing
    assert!(store.read_from(&String::from("order-1"), 3).expect("expected stream").is_empty());
    // from a negative version: the whole stream
    assert_eq!(store.read_from(&String::from("order-1"), -5).expect("expected stream").len(), 3);
}

#[test]
fn snapshot_store_serves_the_latest_snapshot() {
    let mut store: InMemorySnapshotStore<TestAggregate> = InMemorySnapshotStore::new();
    let id = Uuid::from_str("2e996ba1-03a6-47af-8fd1-2039c6708dd4").expect("expected uuid");
    let missing = store.read(&String::from("order-1"));
    assert_eq!(missing.unwrap_err(), Error::NotFound);

    let older = SnapshotEnvelope::new(
        String::from("order-1"),
        String::from("TestAggregate"),
        TestAggregate { id, total: 1 },
        0,
    );
    let newer = SnapshotEnvelope::new(
        String::from("order-1"),
        String::from("TestAggregate"),
        TestAggregate { id, total: 6 },
        1,
    );
    store.persist(older).expect("expected persist");
    store.persist(newer).expect("expected persist");
    let latest = store.read(&String::from("order-1")).expect("expected snapshot");
    assert_eq!(latest.version, 1);
    assert_eq!(latest.data.total, 6);
    // another aggregate's latest is untouched
    assert_eq!(store.read(&String::from("order-2")).unwrap_err(), Error::NotFound);
}
