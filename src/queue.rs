//! The decisions of the queue consumption loop: how a delivery-status
//! message updates the limiter, what is forwarded, and how the loop's state
//! moves on success and on failure. Polling, acknowledging and publishing
//! are done by the caller.
use vstd::prelude::*;

use crate::limiter::{BounceLimiter, Category, EventRecord};

verus! {

/// The sub-type of a bounce.
#[derive(Debug, Clone, Copy, PartialEq, Eq, Structural)]
pub enum BounceType {
    /// Permanent.
    Hard,
    /// Transient.
    Soft,
}

/// The declared type of a queue message.
#[derive(Debug, Clone, Copy, PartialEq, Eq, Structural)]
pub enum NotificationKind {
    Bounce(BounceType),
    Complaint,
    Delivery,
}

/// The limiter category that a message of this kind is recorded under.
pub open spec fn category_of(kind: NotificationKind) -> Category {
    match kind {
        NotificationKind::Bounce(BounceType::Hard) => Category::HardBounce,
        NotificationKind::Bounce(BounceType::Soft) => Category::SoftBounce,
        NotificationKind::Complaint => Category::Complaint,
        NotificationKind::Delivery => Category::Delivery,
    }
}

impl NotificationKind {
    /// The limiter category of this kind.
    pub fn category(&self) -> (r: Category)
        ensures
            r == category_of(*self),
    {
        match self {
            NotificationKind::Bounce(BounceType::Hard) => Category::HardBounce,
            NotificationKind::Bounce(BounceType::Soft) => Category::SoftBounce,
            NotificationKind::Complaint => Category::Complaint,
            NotificationKind::Delivery => Category::Delivery,
        }
    }
}

/// A parsed delivery-status message: its type, its timestamp in seconds,
/// the recipients it concerns and the payload as received.
pub struct QueueMessage {
    pub kind: NotificationKind,
    pub timestamp: u64,
    pub recipients: Vec<String>,
    pub payload: String,
}

/// The events a message yields: one per recipient, in order.
pub open spec fn message_records(m: QueueMessage) -> Seq<EventRecord> {
    m.recipients@.map_values(|a: String| (a@, category_of(m.kind), m.timestamp))
}

/// The events a batch yields, message after message.
pub open spec fn batch_records(ms: Seq<QueueMessage>) -> Seq<EventRecord>
    decreases ms.len(),
{
    if ms.len() == 0 {
        Seq::empty()
    } else {
        batch_records(ms.drop_last()) + message_records(ms.last())
    }
}

/// Records the events of one message in the limiter.
pub fn process_message(limiter: &mut BounceLimiter, message: &QueueMessage)
    ensures
        final(limiter).limits() == old(limiter).limits(),
        old(limiter).limits().enabled ==> final(limiter).events() == old(limiter).events()
            + message_records(*message),
        !old(limiter).limits().enabled ==> final(limiter).events() == old(limiter).events(),
{
    let category = message.kind.category();
    let ghost recs = message_records(*message);
    let n = message.recipients.len();
    let mut i: usize = 0;
    while i < n
        invariant
            n == message.recipients@.len(),
            0 <= i <= n,
            recs == message_records(*message),
            category == category_of(message.kind),
            limiter.limits() == old(limiter).limits(),
            old(limiter).limits().enabled ==> limiter.events() == old(limiter).events()
                + recs.subrange(0, i as int),
            !old(limiter).limits().enabled ==> limiter.events() == old(limiter).events(),
        decreases n - i,
    {
        limiter.record_event(message.recipients[i].as_str(), category, message.timestamp);
        assert(recs.subrange(0, i + 1) =~= recs.subrange(0, i as int).push(recs[i as int]));
        assert(old(limiter).events() + recs.subrange(0, i + 1) =~= (old(limiter).events()
            + recs.subrange(0, i as int)).push(recs[i as int]));
        i = i + 1;
    }
    assert(recs.subrange(0, n as int) =~= recs);
}

/// Applies a batch: records the events of every message, in order, and
/// returns the payloads to forward to the outgoing notification queue,
/// unchanged and in the same order.
pub fn process_batch(limiter: &mut BounceLimiter, messages: &Vec<QueueMessage>) -> (r: Vec<
    String,
>)
    ensures
        r@.len() == messages@.len(),
        forall|i: int| 0 <= i < messages@.len() ==> (#[trigger] r@[i])@ == messages@[i].payload@,
        final(limiter).limits() == old(limiter).limits(),
        old(limiter).limits().enabled ==> final(limiter).events() == old(limiter).events()
            + batch_records(messages@),
        !old(limiter).limits().enabled ==> final(limiter).events() == old(limiter).events(),
{
    let mut forward: Vec<String> = Vec::new();
    let n = messages.len();
    let mut i: usize = 0;
    while i < n
        invariant
            n == messages@.len(),
            0 <= i <= n,
            forward@.len() == i,
            forall|k: int| 0 <= k < i ==> (#[trigger] forward@[k])@ == messages@[k].payload@,
            limiter.limits() == old(limiter).limits(),
            old(limiter).limits().enabled ==> limiter.events() == old(limiter).events()
                + batch_records(messages@.subrange(0, i as int)),
            !old(limiter).limits().enabled ==> limiter.events() == old(limiter).events(),
        decreases n - i,
    {
        process_message(limiter, &messages[i]);
        assert(messages@.subrange(0, i + 1).drop_last() =~= messages@.subrange(0, i as int));
        assert(old(limiter).events() + batch_records(messages@.subrange(0, i + 1)) =~= (old(
            limiter,
        ).events() + batch_records(messages@.subrange(0, i as int))) + message_records(
            messages@[i as int],
        ));
        forward.push(messages[i].payload.clone());
        i = i + 1;
    }
    assert(messages@.subrange(0, n as int) =~= messages@);
    forward
}

/// The two states of the loop. Neither is terminal: every step ends back
/// in `Polling`.
#[derive(Debug, Clone, Copy, PartialEq, Eq, Structural)]
pub enum LoopPhase {
    /// Waiting on the queue service.
    Polling,
    /// Applying one batch.
    Processing,
}

/// What the caller does after a step. None of them ends the loop.
#[derive(Debug, Clone, Copy, PartialEq, Eq, Structural)]
pub enum LoopAction {
    /// Poll again.
    Poll,
    /// Log the batch's count and the running total, then poll again.
    LogProgress { processed: u64, total: u64 },
    /// Log the failure, then poll again.
    LogError,
}

/// The state of the loop: its phase and the number of messages processed
/// since the last failure.
pub struct QueueLoop {
    pub phase: LoopPhase,
    pub total: u64,
}

/// `a + b`, or the largest `u64` where the sum does not fit.
pub open spec fn saturating_sum(a: u64, b: u64) -> u64 {
    if a + b > u64::MAX {
        u64::MAX
    } else {
        (a + b) as u64
    }
}

impl QueueLoop {
    /// A loop about to poll for the first time.
    pub fn new() -> (r: QueueLoop)
        ensures
            r.phase == LoopPhase::Polling,
            r.total == 0,
    {
        QueueLoop { phase: LoopPhase::Polling, total: 0 }
    }

    /// A poll returned a batch: the loop applies it.
    pub fn on_received(&mut self)
        ensures
            final(self).phase == LoopPhase::Processing,
            final(self).total == old(self).total,
    {
        self.phase = LoopPhase::Processing;
    }

    /// A batch of `count` messages was applied: the total grows by `count`
    /// (saturating), progress is logged when `count` is not zero, and the
    /// loop polls again.
    pub fn on_processed(&mut self, count: u64) -> (r: LoopAction)
        ensures
            final(self).phase == LoopPhase::Polling,
            final(self).total == saturating_sum(old(self).total, count),
            count > 0 ==> r == (LoopAction::LogProgress {
                processed: count,
                total: final(self).total,
            }),
            count == 0 ==> r == LoopAction::Poll,
    {
        let total = if self.total > u64::MAX - count {
            u64::MAX
        } else {
            self.total + count
        };
        self.total = total;
        self.phase = LoopPhase::Polling;
        if count > 0 {
            LoopAction::LogProgress { processed: count, total }
        } else {
            LoopAction::Poll
        }
    }

    /// A poll or a batch failed: the failure is logged, the running total
    /// starts again from zero, and the loop polls again.
    pub fn on_error(&mut self) -> (r: LoopAction)
        ensures
            final(self).phase == LoopPhase::Polling,
            final(self).total == 0,
            r == LoopAction::LogError,
    {
        self.total = 0;
        self.phase = LoopPhase::Polling;
        LoopAction::LogError
    }
}

} // verus!
