//! Message data, delivery outcomes and engine verdicts.

use vstd::prelude::*;

use crate::errors::DeliveryError;

verus! {

/// A message as the correlation layer sees it: the data copied out of the
/// caller's buffers at submission time, plus the placement the engine
/// assigns on delivery. Before delivery, `partition` is the caller's request
/// (`-1` when the engine is to pick one) and `offset` is `-1`.
pub struct Message {
    /// The destination topic.
    pub topic: String,
    /// The partition: the caller's request until delivery, the assigned
    /// partition in a success outcome, `-1` when unassigned.
    pub partition: i32,
    /// The payload bytes, copied out of the caller's buffer.
    pub payload: Option<Vec<u8>>,
    /// The key bytes, copied out of the caller's buffer.
    pub key: Option<Vec<u8>>,
    /// The caller-supplied timestamp, if any.
    pub timestamp: Option<i64>,
    /// The offset assigned by the broker in a success outcome, `-1` before.
    pub offset: i64,
}

/// The outcome of one accepted submission, reported exactly once through
/// the delivery capability. Both variants carry the message back so the
/// capability can correlate or retry; a failure also names its error.
pub enum DeliveryOutcome {
    /// The broker acknowledged the message; the carried message holds the
    /// assigned partition and offset.
    Success(Message),
    /// Delivery failed after the message was accepted locally; the carried
    /// message is the original, with no placement assigned.
    Failure(DeliveryError, Message),
}

/// The engine's verdict on the oldest in-flight message: how its delivery
/// was finalized. The verdict is decided outside this layer (by broker and
/// network), so the correlation layer states what holds of every verdict.
pub enum DeliveryVerdict {
    /// The broker acknowledged the message at the given placement.
    Delivered {
        /// The partition the message was written to.
        partition: i32,
        /// The offset the message was written at.
        offset: i64,
    },
    /// Delivery failed with the given error.
    Failed(DeliveryError),
}

/// The outcome that reporting verdict `v` for message `m` produces.
pub open spec fn outcome_of(m: Message, v: DeliveryVerdict) -> DeliveryOutcome {
    match v {
        DeliveryVerdict::Delivered { partition, offset } => DeliveryOutcome::Success(
            Message { partition, offset, ..m },
        ),
        DeliveryVerdict::Failed(e) => DeliveryOutcome::Failure(e, m),
    }
}

/// Builds the outcome for message `m` under verdict `v`: a success outcome
/// takes the placement from the verdict, a failure outcome carries the
/// message unchanged beside the error.
pub fn apply_verdict(m: Message, v: DeliveryVerdict) -> (o: DeliveryOutcome)
    ensures
        o == outcome_of(m, v),
{
    match v {
        DeliveryVerdict::Delivered { partition, offset } => DeliveryOutcome::Success(
            Message { partition, offset, ..m },
        ),
        DeliveryVerdict::Failed(e) => DeliveryOutcome::Failure(e, m),
    }
}

impl DeliveryOutcome {
    /// The message carried by this outcome.
    pub open spec fn spec_message(self) -> Message {
        match self {
            DeliveryOutcome::Success(m) => m,
            DeliveryOutcome::Failure(_, m) => m,
        }
    }

    /// Whether this outcome reports a successful delivery.
    pub open spec fn spec_is_success(self) -> bool {
        self is Success
    }

    /// Reports whether this outcome is a successful delivery.
    pub fn is_success(&self) -> (b: bool)
        ensures
            b == self.spec_is_success(),
    {
        match self {
            DeliveryOutcome::Success(_) => true,
            DeliveryOutcome::Failure(_, _) => false,
        }
    }

    /// Borrows the message carried by this outcome.
    pub fn message(&self) -> (m: &Message)
        ensures
            *m == self.spec_message(),
    {
        match self {
            DeliveryOutcome::Success(m) => m,
            DeliveryOutcome::Failure(_, m) => m,
        }
    }
}

} // verus!
