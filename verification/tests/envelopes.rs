use std::str::FromStr;

use event_sourcing::aggregate::{apply_all_events, Aggregate};
use event_sourcing::event::envelope::{deserialize, serialize, EventEnvelope};
use event_sourcing::event::EventType;
use event_sourcing::snapshot::envelope::SnapshotEnvelope;
use event_sourcing::Error;
use uuid::Uuid;
use vstd::seq::Seq;

#[derive(Debug, Clone, Copy, PartialEq)]
struct TestEvent {
    id: Uuid,
    amount: i64,
}

impl EventType for TestEvent {
    // ghost items of the trait; erased from verified code, never called here
    fn encoded(self) -> Seq<char> {
        panic!()
    }

    fn decoded(_s: Seq<char>) -> Option<Self> {
        panic!()
    }

    fn lemma_codec_round_trip(self) {}

    fn event_type(&self) -> String {
        String::from("TestEvent")
    }

    fn encode(&self) -> String {
        format!("{} {}", self.id, self.amount)
    }

    fn decode(s: &str) -> Option<Self> {
        let mut parts = s.split(' ');
        let id = Uuid::from_str(parts.next()?).ok()?;
        let amount: i64 = parts.next()?.parse().ok()?;
        if parts.next().is_some() {
            return None;
        }
        Some(TestEvent { id, amount })
    }
}

#[derive(Debug, Clone, PartialEq)]
struct TestAggregate {
    id: Uuid,
    total: i64,
}

impl Aggregate for TestAggregate {
    type AggregateID = Uuid;
    type Event = TestEvent;

    // ghost items of the trait; erased from verified code, never called here
    fn apply_spec(_state: Option<Self>, _event: TestEvent) -> Result<Self, Error> {
        panic!()
    }

    fn id_spec(&self) -> Uuid {
        panic!()
    }

    fn encoded(self) -> Seq<char> {
        panic!()
    }

    fn decoded(_s: Seq<char>) -> Option<Self> {
        panic!()
    }

    fn lemma_codec_round_trip(self) {}

    fn duplicate(&self) -> Self {
        self.clone()
    }

    fn aggregate_id(&self) -> &Uuid {
        &self.id
    }

    fn apply(state: Option<Self>, event: TestEvent) -> Result<Self, Error> {
        match state {
            None => Ok(TestAggregate { id: event.id, total: event.amount }),
            Some(mut state) => {
                state.total = state.total + event.amount;
                Ok(state)
            },
        }
    }

    fn encode(&self) -> String {
        format!("{} {}", self.id, self.total)
    }

    fn decode(s: &str) -> Option<Self> {
        let mut parts = s.split(' ');
        let id = Uuid::from_str(parts.next()?).ok()?;
        let total: i64 = parts.next()?.parse().ok()?;
        if parts.next().is_some() {
            return None;
        }
        Some(TestAggregate { id, total })
    }

    fn apply_all(events: Vec<TestEvent>) -> Result<Self, Error> {
        apply_all_events(events)
    }
}

#[test]
fn it_serializes_and_deserializes() {
    let test_event = TestEvent {
        id: Uuid::from_str("2e996ba1-03a6-47af-8fd1-2039c6708dd4").expect("expected uuid"),
        amount: 1,
    };
    let event_envelope: EventEnvelope<TestEvent> = EventEnvelope::new(
        String::from("aggregate_id"),
        String::from("TestAggregate"),
        test_event,
        test_event.event_type(),
        0,
    );
    let serialized_event_envelope: String =
        serialize(&event_envelope).expect("expected serialized struct");
    let event_envelope: EventEnvelope<TestEvent> =
        deserialize(serialized_event_envelope).expect("expected deserialized struct");
    assert_eq!(event_envelope.aggregate_id, String::from("aggregate_id"));
    assert_eq!(event_envelope.aggregate_type, String::from("TestAggregate"));
    assert_eq!(event_envelope.event_type, String::from("TestEvent"));
    assert_eq!(event_envelope.version, 0);
    assert_eq!(
        event_envelope.data,
        TestEvent {
            id: Uuid::from_str("2e996ba1-03a6-47af-8fd1-2039c6708dd4").expect("expected uuid"),
            amount: 1,
        }
    );
}

#[test]
fn envelope_it_serializes_and_deserializes() {
    let test_event = TestEvent {
        id: Uuid::from_str("2e996ba1-03a6-47af-8fd1-2039c6708dd4").expect("expected uuid"),
        amount: 1,
    };
    let test_aggregate = TestAggregate::apply_all(vec![test_event]).expect("expected aggregate");
    let event_envelope: SnapshotEnvelope<TestAggregate> = SnapshotEnvelope::new(
        String::from("aggregate_id"),
        String::from("TestAggregate"),
        test_aggregate,
        0,
    );
    let serialized_event_envelope: String =
        event_sourcing::snapshot::envelope::serialize(&event_envelope)
            .expect("expected serialized struct");
    let event_envelope: SnapshotEnvelope<TestAggregate> =
        event_sourcing::snapshot::envelope::deserialize(serialized_event_envelope)
            .expect("expected deserialized struct");
    assert_eq!(event_envelope.aggregate_id, String::from("aggregate_id"));
    assert_eq!(event_envelope.aggregate_type, String::from("TestAggregate"));
    assert_eq!(event_envelope.version, 0);
    assert_eq!(
        event_envelope.data.id,
        Uuid::from_str("2e996ba1-03a6-47af-8fd1-2039c6708dd4").expect("expected uuid")
    );
    assert_eq!(event_envelope.data.total, 1);
}

#[test]
fn round_trip_preserves_id_and_timestamp() {
    let test_event = TestEvent {
        id: Uuid::from_str("2e996ba1-03a6-47af-8fd1-2039c6708dd4").expect("expected uuid"),
        amount: -42,
    };
    let envelope: EventEnvelope<TestEvent> = EventEnvelope::new(
        String::from("stream with spaces and \"quotes\""),
        String::from("TestAggregate"),
        test_event,
        test_event.event_type(),
        7,
    );
    let envelope_id = envelope.id;
    let envelope_timestamp = envelope.timestamp;
    let text = serialize(&envelope).expect("expected serialized struct");
    let back: EventEnvelope<TestEvent> = deserialize(text).expect("expected deserialized struct");
    assert_eq!(back.id, envelope_id);
    assert_eq!(back.timestamp, envelope_timestamp);
    assert_eq!(back.aggregate_id, String::from("stream with spaces and \"quotes\""));
    assert_eq!(back.version, 7);
    assert_eq!(back.data, test_event);
}

#[test]
fn deserialize_rejects_malformed_text() {
    let r: Result<EventEnvelope<TestEvent>, Error> =
        deserialize(String::from("not an envelope at all"));
    assert_eq!(r.unwrap_err(), Error::Serialization);
    let r: Result<EventEnvelope<TestEvent>, Error> = deserialize(String::new());
    assert_eq!(r.unwrap_err(), Error::Serialization);
}

#[test]
fn deserialize_rejects_truncated_text() {
    let test_event = TestEvent {
        id: Uuid::from_str("2e996ba1-03a6-47af-8fd1-2039c6708dd4").expect("expected uuid"),
        amount: 1,
    };
    let envelope: EventEnvelope<TestEvent> = EventEnvelope::new(
        String::from("aggregate_id"),
        String::from("TestAggregate"),
        test_event,
        test_event.event_type(),
        0,
    );
    let mut text = serialize(&envelope).expect("expected serialized struct");
    text.truncate(text.len() - 1);
    let r: Result<EventEnvelope<TestEvent>, Error> = deserialize(text);
    assert_eq!(r.unwrap_err(), Error::Serialization);
}
