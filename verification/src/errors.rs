//! Error types of the correlation layer.
//!
//! Errors come in two disjoint tiers. A submission-time error is raised
//! synchronously from `send_copy`; on that path the engine never took
//! ownership of the delivery token, so the error carries the token back to
//! the caller instead of dropping it. A delivery-time error is only ever
//! surfaced asynchronously, inside a `Failure` outcome handed to the
//! delivery capability; it is never returned from `send_copy`.

use vstd::prelude::*;

verus! {

/// The kind of a synchronous submission failure, without the token payload.
#[derive(Clone, Copy, Debug, PartialEq, Eq, Structural)]
pub enum SubmitErrorKind {
    /// The local queue of accepted-but-unresolved messages is at capacity.
    QueueFull,
    /// The topic name is empty or holds an interior NUL character, so the
    /// engine cannot accept it.
    InvalidTopic,
}

/// A synchronous submission failure. The engine never took ownership of the
/// message, so the delivery token travels back to the caller inside the
/// error and is never silently dropped.
pub enum SubmitError<T> {
    /// The local queue of accepted-but-unresolved messages is at capacity.
    QueueFull(T),
    /// The topic name is empty or holds an interior NUL character.
    InvalidTopic(T),
}

impl<T> SubmitError<T> {
    /// The token carried back by this error.
    pub open spec fn spec_token(self) -> T {
        match self {
            SubmitError::QueueFull(t) => t,
            SubmitError::InvalidTopic(t) => t,
        }
    }

    /// The kind of this error, with the token stripped.
    pub open spec fn spec_kind(self) -> SubmitErrorKind {
        match self {
            SubmitError::QueueFull(_) => SubmitErrorKind::QueueFull,
            SubmitError::InvalidTopic(_) => SubmitErrorKind::InvalidTopic,
        }
    }

    /// Recovers the delivery token from a rejected submission.
    pub fn into_token(self) -> (t: T)
        ensures
            t == self.spec_token(),
    {
        match self {
            SubmitError::QueueFull(t) => t,
            SubmitError::InvalidTopic(t) => t,
        }
    }

    /// Reports the kind of the failure without consuming the token.
    pub fn kind(&self) -> (k: SubmitErrorKind)
        ensures
            k == self.spec_kind(),
    {
        match self {
            SubmitError::QueueFull(_) => SubmitErrorKind::QueueFull,
            SubmitError::InvalidTopic(_) => SubmitErrorKind::InvalidTopic,
        }
    }
}

/// An asynchronous delivery failure, reported once per accepted message
/// through the delivery capability, never from `send_copy`.
#[derive(Clone, Copy, Debug, PartialEq, Eq, Structural)]
pub enum DeliveryError {
    /// The message timed out before the broker acknowledged it.
    TimedOut,
    /// The broker rejected the message after it was accepted locally.
    BrokerRejected,
    /// The connection failed after the message was accepted locally.
    NetworkFailure,
}

} // verus!
