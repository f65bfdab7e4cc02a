use event_sourcing::command_handler::{escalate_exhausted, RetryBudget};
use event_sourcing::event::stream::{
    consumer_step, BatchApplication, ConsumerCursor, ConsumerPhase, CycleEvent, RetryPolicy,
};
use event_sourcing::Error;

#[test]
fn every_failure_restarts_the_cycle_at_connecting() {
    let polling = consumer_step(ConsumerPhase::Connecting, CycleEvent::Connected);
    assert_eq!(polling, ConsumerPhase::Polling);
    assert_eq!(consumer_step(polling, CycleEvent::BatchCommitted), ConsumerPhase::Polling);
    assert_eq!(consumer_step(polling, CycleEvent::PollFailed), ConsumerPhase::Connecting);
    assert_eq!(consumer_step(polling, CycleEvent::BatchFailed), ConsumerPhase::Connecting);
    assert_eq!(consumer_step(polling, CycleEvent::CommitFailed), ConsumerPhase::Connecting);
    assert_eq!(
        consumer_step(ConsumerPhase::Connecting, CycleEvent::ConnectFailed),
        ConsumerPhase::Connecting
    );
    // only cancellation stops the consumer, and a stopped one stays stopped
    let stopped = consumer_step(polling, CycleEvent::Cancelled);
    assert_eq!(stopped, ConsumerPhase::Stopped);
    assert_eq!(consumer_step(stopped, CycleEvent::Connected), ConsumerPhase::Stopped);
}

#[test]
fn failed_batch_commits_nothing_and_is_redelivered() {
    let log = vec!["a", "b", "c"];
    let mut cursor = ConsumerCursor::start();

    // first poll cycle: the batch is the whole pending suffix of the log
    let first_poll: Vec<&str> = log[cursor.committed as usize..].to_vec();
    assert_eq!(first_poll, vec!["a", "b", "c"]);

    // the 2nd of 3 messages fails to apply: the batch is abandoned
    let mut batch = BatchApplication::begin(first_poll.len());
    batch.record_applied();
    batch.record_failed();
    assert!(!batch.may_commit());

    // zero offsets are committed for the batch
    let committed = cursor.conclude_batch(&batch);
    assert!(!committed);
    assert_eq!(cursor.committed, 0);

    // the next poll cycle re-delivers all 3 messages
    let second_poll: Vec<&str> = log[cursor.committed as usize..].to_vec();
    assert_eq!(second_poll, vec!["a", "b", "c"]);
}

#[test]
fn fully_applied_batch_commits_exactly_its_offsets() {
    let log = vec!["a", "b", "c", "d"];
    let mut cursor = ConsumerCursor::start();
    let batch_messages: Vec<&str> = log[cursor.committed as usize..][..3].to_vec();
    let mut batch = BatchApplication::begin(batch_messages.len());
    for _message in batch_messages {
        batch.record_applied();
    }
    assert!(batch.may_commit());
    let committed = cursor.conclude_batch(&batch);
    assert!(committed);
    assert_eq!(cursor.committed, 3);
    let next_poll: Vec<&str> = log[cursor.committed as usize..].to_vec();
    assert_eq!(next_poll, vec!["d"]);
}

#[test]
fn retry_policy_bounds_reconnect_attempts() {
    let unbounded = RetryPolicy { delay_ms: 1000, max_attempts: None };
    assert!(unbounded.may_retry(0));
    assert!(unbounded.may_retry(1_000_000));

    let bounded = RetryPolicy { delay_ms: 1000, max_attempts: Some(3) };
    assert!(bounded.may_retry(0));
    assert!(bounded.may_retry(2));
    assert!(!bounded.may_retry(3));
}

#[test]
fn retry_budget_is_spent_once_per_attempt() {
    let mut budget = RetryBudget::new(2);
    assert!(budget.try_consume());
    assert!(budget.try_consume());
    assert!(!budget.try_consume());
    assert!(!budget.try_consume());
    assert_eq!(budget.remaining, 0);
}

#[test]
fn exhausted_version_conflicts_become_contention_exceeded() {
    assert_eq!(escalate_exhausted(Error::VersionConflict), Error::ContentionExceeded);
    assert_eq!(escalate_exhausted(Error::Domain), Error::Domain);
    assert_eq!(escalate_exhausted(Error::Transient), Error::Transient);
    assert_eq!(escalate_exhausted(Error::NotFound), Error::NotFound);
    assert_eq!(escalate_exhausted(Error::Serialization), Error::Serialization);
}

#[test]
fn retryability_follows_the_error_taxonomy() {
    assert!(Error::VersionConflict.retryable());
    assert!(Error::Transient.retryable());
    assert!(!Error::Domain.retryable());
    assert!(!Error::NotFound.retryable());
    assert!(!Error::Serialization.retryable());
    assert!(!Error::ContentionExceeded.retryable());
}
