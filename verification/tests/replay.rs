use std::str::FromStr;

use event_sourcing::aggregate::{apply_all_events, Aggregate};
use event_sourcing::event::EventType;
use event_sourcing::projection::{rebuild_projection, Projection};
use event_sourcing::Error;
use uuid::Uuid;
use vstd::seq::Seq;

#[derive(Debug, Clone, Copy, PartialEq)]
struct TestEvent {
    id: Uuid,
    amount: i64,
}

impl EventType for TestEvent {
    // ghost items of the trait; erased from verified code, never called here
    fn encoded(self) -> Seq<char> {
        panic!()
    }

    fn decoded(_s: Seq<char>) -> Option<Self> {
        panic!()
    }

    fn lemma_codec_round_trip(self) {}

    fn event_type(&self) -> String {
        String::from("TestEvent")
    }

    fn encode(&self) -> String {
        format!("{} {}", self.id, self.amount)
    }

    fn decode(s: &str) -> Option<Self> {
        let mut parts = s.split(' ');
        let id = Uuid::from_str(parts.next()?).ok()?;
        let amount: i64 = parts.next()?.parse().ok()?;
        Some(TestEvent { id, amount })
    }
}

#[derive(Debug, Clone, PartialEq)]
struct TestAggregate {
    id: Uuid,
    total: i64,
}

impl Aggregate for TestAggregate {
    type AggregateID = Uuid;
    type Event = TestEvent;

    // ghost items of the trait; erased from verified code, never called here
    fn apply_spec(_state: Option<Self>, _event: TestEvent) -> Result<Self, Error> {
        panic!()
    }

    fn id_spec(&self) -> Uuid {
        panic!()
    }

    fn encoded(self) -> Seq<char> {
        panic!()
    }

    fn decoded(_s: Seq<char>) -> Option<Self> {
        panic!()
    }

    fn lemma_codec_round_trip(self) {}

    fn duplicate(&self) -> Self {
        self.clone()
    }

    fn aggregate_id(&self) -> &Uuid {
        &self.id
    }

    fn apply(state: Option<Self>, event: TestEvent) -> Result<Self, Error> {
        if event.amount == i64::MIN {
            // an out-of-range amount is a domain error, not a panic
            return Err(Error::Domain);
        }
        match state {
            None => Ok(TestAggregate { id: event.id, total: event.amount }),
            Some(mut state) => {
                state.total = state.total.saturating_add(event.amount);
                Ok(state)
            },
        }
    }

    fn encode(&self) -> String {
        format!("{} {}", self.id, self.total)
    }

    fn decode(s: &str) -> Option<Self> {
        let mut parts = s.split(' ');
        let id = Uuid::from_str(parts.next()?).ok()?;
        let total: i64 = parts.next()?.parse().ok()?;
        Some(TestAggregate { id, total })
    }

    fn apply_all(events: Vec<TestEvent>) -> Result<Self, Error> {
        apply_all_events(events)
    }
}

fn event(amount: i64) -> TestEvent {
    TestEvent {
        id: Uuid::from_str("2e996ba1-03a6-47af-8fd1-2039c6708dd4").expect("expected uuid"),
        amount,
    }
}

#[test]
fn aggregate_is_built_from_one_event() {
    let aggregate = TestAggregate::apply_all(vec![event(1)]).expect("expected aggregate");
    assert_eq!(
        aggregate.id,
        Uuid::from_str("2e996ba1-03a6-47af-8fd1-2039c6708dd4").expect("expected uuid")
    );
    assert_eq!(aggregate.total, 1);
    let again = TestAggregate::apply(Some(aggregate), event(5)).expect("expected aggregate");
    assert_eq!(again.total, 6);
}

#[test]
fn apply_all_equals_manual_left_fold() {
    let events = vec![event(1), event(5), event(-2)];
    let folded = {
        let mut state: Option<TestAggregate> = None;
        for e in events.clone() {
            state = Some(TestAggregate::apply(state, e).expect("expected state"));
        }
        state.expect("expected state")
    };
    let first = TestAggregate::apply_all(events.clone()).expect("expected aggregate");
    let second = TestAggregate::apply_all(events).expect("expected aggregate");
    assert_eq!(first, folded);
    assert_eq!(first, second);
}

#[test]
fn apply_all_of_empty_list_is_a_domain_error() {
    let r = TestAggregate::apply_all(vec![]);
    assert_eq!(r.unwrap_err(), Error::Domain);
}

#[test]
fn apply_all_short_circuits_on_first_error() {
    let r = TestAggregate::apply_all(vec![event(1), event(i64::MIN), event(5)]);
    assert_eq!(r.unwrap_err(), Error::Domain);
}

#[derive(Debug, Clone, PartialEq)]
struct TotalsProjection {
    total: i64,
}

impl Projection for TotalsProjection {
    type Event = TestEvent;

    // ghost item of the trait; erased from verified code, never called here
    fn apply_spec(_state: Option<Self>, _event: TestEvent) -> Result<Self, Error> {
        panic!()
    }

    fn apply(state: Option<Self>, event: TestEvent) -> Result<Self, Error> {
        let prior: i64 = match state {
            None => 0,
            Some(p) => p.total,
        };
        Ok(TotalsProjection { total: prior.saturating_add(event.amount) })
    }

    fn replay() -> Result<Self, Error> {
        match rebuild_projection::<TotalsProjection>(vec![])? {
            Some(p) => Ok(p),
            None => Ok(TotalsProjection { total: 0 }),
        }
    }
}

#[test]
fn projection_rebuilds_from_full_history() {
    let rebuilt = rebuild_projection::<TotalsProjection>(vec![event(1), event(5)])
        .expect("expected projection")
        .expect("expected state");
    assert_eq!(rebuilt.total, 6);
    let empty = rebuild_projection::<TotalsProjection>(vec![]).expect("expected projection");
    assert_eq!(empty, None);
}
