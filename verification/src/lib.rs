//! A safe, verified facade over an asynchronous message-producer engine.
//!
//! The crate models the delivery-correlation subsystem of a broker-based
//! producer: a caller submits messages for a topic together with an opaque
//! delivery token, and later learns the outcome of each accepted submission
//! exactly once, through a delivery capability invoked while outcome events
//! are drained.
//!
//! The modules, leaves first:
//! - [`errors`]: synchronous submission errors and asynchronous delivery errors;
//! - [`message`]: message data, delivery outcomes and engine verdicts;
//! - [`codec`]: the opaque token codec, a correlation registry that encodes a
//!   token into an untyped handle and decodes it back at most once;
//! - [`producer`]: the core producer: submit, poll, flush, in-flight count,
//!   and the delivery trampoline that bridges drained events back into the
//!   caller's delivery capability;
//! - [`polling`]: the background-loop state machine and the idle-then-stop
//!   policy used by an auto-polling wrapper around the core producer.

pub mod codec;
pub mod errors;
pub mod message;
pub mod polling;
pub mod producer;
