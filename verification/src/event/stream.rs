//! The decision core of the at-least-once stream consumer: which messages of
//! a polled batch count as applied, when offsets may be committed, and what a
//! failed cycle does to the consumer's position.
//!
//! The loop around it — connecting to a broker, polling, sleeping between
//! attempts — performs I/O and lives outside this library; it feeds every
//! outcome back into these functions and obeys the decisions they return.
use vstd::prelude::*;

verus! {

/// Progress of applying one polled batch, message by message in the order
/// received. A single failure abandons the batch; offsets may be committed
/// only when every message of the batch has been applied.
pub struct BatchApplication {
    /// How many messages the poll returned.
    pub total: usize,
    /// How many messages have been applied, from the front of the batch.
    pub applied: usize,
    /// Whether a message failed to deserialize or to apply.
    pub failed: bool,
}

impl BatchApplication {
    /// Committing is allowed exactly when no message failed and every
    /// message was applied.
    pub open spec fn may_commit_spec(self) -> bool {
        !self.failed && self.applied == self.total
    }

    /// Starts on a freshly polled batch.
    pub fn begin(total: usize) -> (b: Self)
        ensures
            b.total == total,
            b.applied == 0,
            !b.failed,
    {
        BatchApplication { total, applied: 0, failed: false }
    }

    /// Records that the next message of the batch was applied.
    pub fn record_applied(&mut self)
        requires
            !old(self).failed,
            old(self).applied < old(self).total,
        ensures
            final(self).total == old(self).total,
            final(self).applied == old(self).applied + 1,
            !final(self).failed,
    {
        self.applied = self.applied + 1;
    }

    /// Records that a message failed to deserialize or to apply. The batch
    /// is abandoned: nothing of it may be committed.
    pub fn record_failed(&mut self)
        ensures
            final(self).total == old(self).total,
            final(self).applied == old(self).applied,
            final(self).failed,
    {
        self.failed = true;
    }

    /// Whether the batch's offsets may be committed.
    pub fn may_commit(&self) -> (r: bool)
        ensures
            r == self.may_commit_spec(),
    {
        !self.failed && self.applied == self.total
    }
}

/// Where the cursor stands after a batch is concluded: advanced past the
/// batch when it may be committed, unmoved otherwise.
pub open spec fn cursor_after_batch(committed: int, batch: BatchApplication) -> int {
    if batch.may_commit_spec() {
        committed + batch.total
    } else {
        committed
    }
}

/// The consumer's committed position in one partition: how many messages of
/// the partition's log it has consumed and acknowledged.
pub struct ConsumerCursor {
    /// Count of committed messages; the next poll starts here.
    pub committed: u64,
}

impl ConsumerCursor {
    /// A consumer that has committed nothing.
    pub fn start() -> (c: Self)
        ensures
            c.committed == 0,
    {
        ConsumerCursor { committed: 0 }
    }

    /// Concludes one batch: commits its offsets exactly when every message
    /// was applied, and commits nothing otherwise — apply fully, then
    /// commit. Returns whether a commit happened.
    pub fn conclude_batch(&mut self, batch: &BatchApplication) -> (committed: bool)
        requires
            old(self).committed + batch.total <= u64::MAX,
        ensures
            committed == batch.may_commit_spec(),
            final(self).committed == cursor_after_batch(old(self).committed as int, *batch),
    {
        if batch.may_commit() {
            self.committed = self.committed + (batch.total as u64);
            true
        } else {
            false
        }
    }
}

/// The messages a partition delivers to a consumer whose committed position
/// is `committed`: the log's suffix from that position, in publish order.
pub open spec fn pending<M>(log: Seq<M>, committed: int) -> Seq<M> {
    if 0 <= committed <= log.len() {
        log.skip(committed)
    } else {
        Seq::empty()
    }
}

/// A batch with any failure commits nothing: the cursor stands where it
/// stood, the next poll delivers exactly the same pending messages, and the
/// whole failed batch — every message of it, the applied ones included — is
/// delivered again. This is at-least-once delivery.
pub proof fn lemma_failed_batch_redelivered<M>(log: Seq<M>, committed: int, batch: BatchApplication)
    requires
        batch.failed || batch.applied != batch.total,
        0 <= committed,
        committed + batch.total <= log.len(),
    ensures
        cursor_after_batch(committed, batch) == committed,
        pending(log, cursor_after_batch(committed, batch)) == pending(log, committed),
{
}

/// A fully applied batch advances the cursor past exactly its own messages:
/// what remains pending afterwards is what was pending beyond the batch.
pub proof fn lemma_committed_batch_advances<M>(
    log: Seq<M>,
    committed: int,
    batch: BatchApplication,
)
    requires
        batch.may_commit_spec(),
        0 <= committed,
        committed + batch.total <= log.len(),
    ensures
        cursor_after_batch(committed, batch) == committed + batch.total,
        pending(log, cursor_after_batch(committed, batch)) == pending(log, committed).skip(
            batch.total as int,
        ),
{
    assert(log.skip(committed + batch.total) =~= log.skip(committed).skip(batch.total as int));
}

/// The consumer's control state: connecting to the broker, connected and
/// polling batches, or stopped by cancellation.
#[derive(Clone, Copy, Debug, PartialEq, Eq, Structural)]
pub enum ConsumerPhase {
    Connecting,
    Polling,
    Stopped,
}

/// What one cycle of the consumer loop reported.
#[derive(Clone, Copy, Debug, PartialEq, Eq, Structural)]
pub enum CycleEvent {
    Connected,
    BatchCommitted,
    ConnectFailed,
    PollFailed,
    BatchFailed,
    CommitFailed,
    Cancelled,
}

/// The transition relation of the consumer loop: a standing connection and
/// every committed batch lead back to polling; any failure — of the
/// connection, a poll, a batch or a commit — restarts the whole cycle at
/// connecting, a fresh connect included; cancellation takes effect at a
/// cycle boundary, never inside a batch, and stops the consumer for good.
/// There is no terminal success state.
pub open spec fn consumer_step_spec(phase: ConsumerPhase, event: CycleEvent) -> ConsumerPhase {
    match phase {
        ConsumerPhase::Stopped => ConsumerPhase::Stopped,
        _ => match event {
            CycleEvent::Cancelled => ConsumerPhase::Stopped,
            CycleEvent::Connected => ConsumerPhase::Polling,
            CycleEvent::BatchCommitted => ConsumerPhase::Polling,
            CycleEvent::ConnectFailed => ConsumerPhase::Connecting,
            CycleEvent::PollFailed => ConsumerPhase::Connecting,
            CycleEvent::BatchFailed => ConsumerPhase::Connecting,
            CycleEvent::CommitFailed => ConsumerPhase::Connecting,
        },
    }
}

/// Takes one step of the consumer loop.
pub fn consumer_step(phase: ConsumerPhase, event: CycleEvent) -> (next: ConsumerPhase)
    ensures
        next == consumer_step_spec(phase, event),
{
    match phase {
        ConsumerPhase::Stopped => ConsumerPhase::Stopped,
        _ => match event {
            CycleEvent::Cancelled => ConsumerPhase::Stopped,
            CycleEvent::Connected => ConsumerPhase::Polling,
            CycleEvent::BatchCommitted => ConsumerPhase::Polling,
            CycleEvent::ConnectFailed => ConsumerPhase::Connecting,
            CycleEvent::PollFailed => ConsumerPhase::Connecting,
            CycleEvent::BatchFailed => ConsumerPhase::Connecting,
            CycleEvent::CommitFailed => ConsumerPhase::Connecting,
        },
    }
}

/// The consumer stops only by cancellation: no cycle outcome is terminal,
/// and a stopped consumer stays stopped.
pub proof fn lemma_only_cancellation_stops(phase: ConsumerPhase, event: CycleEvent)
    ensures
        (consumer_step_spec(phase, event) == ConsumerPhase::Stopped) <==> (event
            == CycleEvent::Cancelled || phase == ConsumerPhase::Stopped),
{
}

/// The consumer's retry policy: a fixed delay between connect-and-consume
/// cycles, and an optional bound on failed attempts. With no bound the cycle
/// is retried indefinitely; with one, the consumer gives up when it is
/// spent. Either way retries are spaced by the delay, never a tight spin.
pub struct RetryPolicy {
    /// Fixed delay between attempts, in milliseconds.
    pub delay_ms: u64,
    /// Bound on failed attempts, if any.
    pub max_attempts: Option<u64>,
}

impl RetryPolicy {
    /// Whether one more cycle may be attempted after `attempts` failed ones.
    pub open spec fn may_retry_spec(self, attempts: u64) -> bool {
        match self.max_attempts {
            None => true,
            Some(m) => attempts < m,
        }
    }

    /// Decides, after a failed cycle, whether to connect again.
    pub fn may_retry(&self, attempts: u64) -> (r: bool)
        ensures
            r == self.may_retry_spec(attempts),
    {
        match self.max_attempts {
            None => true,
            Some(m) => attempts < m,
        }
    }
}

} // verus!
