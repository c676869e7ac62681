//! The background-loop state machine and the idle-then-stop policy.
//!
//! An auto-polling wrapper drives a core producer from a dedicated
//! background loop. The loop's lifecycle moves only forward, from
//! `NotStarted` through `Running` and `StopRequested` to `Stopped`; a
//! stopped loop is never resurrected. The loop honors a stop request only
//! after an idle drain (a poll that drained zero events), so a burst of
//! pending outcomes is fully drained before the loop exits.

use vstd::prelude::*;

use crate::producer::{BaseProducer, ProducerContext};

verus! {

/// The lifecycle of the background polling loop.
#[derive(Clone, Copy, Debug, PartialEq, Eq, Structural)]
pub enum LoopState {
    /// No background loop has been started yet.
    NotStarted,
    /// The background loop is draining outcomes on its cadence.
    Running,
    /// A stop was requested; the loop exits after its next idle drain.
    StopRequested,
    /// The loop has confirmed exit and been joined.
    Stopped,
}

impl LoopState {
    /// The position of this state along the one-way lifecycle.
    pub open spec fn phase(self) -> int {
        match self {
            LoopState::NotStarted => 0,
            LoopState::Running => 1,
            LoopState::StopRequested => 2,
            LoopState::Stopped => 3,
        }
    }

    /// The transition relation of the lifecycle: each state steps only to
    /// its immediate successor.
    pub open spec fn step_allowed(self, post: LoopState) -> bool {
        ||| (self is NotStarted && post is Running)
        ||| (self is Running && post is StopRequested)
        ||| (self is StopRequested && post is Stopped)
    }

    /// Records that the background loop was started.
    pub fn start(&mut self)
        requires
            *old(self) is NotStarted,
        ensures
            *final(self) is Running,
            old(self).step_allowed(*final(self)),
    {
        *self = LoopState::Running;
    }

    /// Records that a stop was requested of the running loop.
    pub fn request_stop(&mut self)
        requires
            *old(self) is Running,
        ensures
            *final(self) is StopRequested,
            old(self).step_allowed(*final(self)),
    {
        *self = LoopState::StopRequested;
    }

    /// Records that the loop observed the stop request after an idle drain,
    /// exited, and was joined.
    pub fn confirm_stopped(&mut self)
        requires
            *old(self) is StopRequested,
        ensures
            *final(self) is Stopped,
            old(self).step_allowed(*final(self)),
    {
        *self = LoopState::Stopped;
    }

    /// Reports whether the lifecycle has reached its terminal state.
    pub fn is_stopped(&self) -> (b: bool)
        ensures
            b == (*self is Stopped),
    {
        match self {
            LoopState::Stopped => true,
            _ => false,
        }
    }
}

/// The loop's exit decision, taken once per drain pass: exit only when the
/// pass drained zero events and a stop has been requested. A pass that
/// drained work keeps the loop alive even under a stop request, so queued
/// outcomes are never abandoned; without a stop request the loop always
/// continues.
pub fn poll_loop_should_exit(events_drained: i32, stop_requested: bool) -> (exit: bool)
    ensures
        exit == (events_drained == 0 && stop_requested),
{
    events_drained == 0 && stop_requested
}

/// One pass of the auto-polling loop: drains every outcome the engine has
/// finalized, then decides whether the loop may exit. The pass exits only
/// when it drained nothing while a stop was requested, so every outcome
/// that was finalized by the time of the stop request is handed to the
/// delivery capability before the loop exits, and after any pass nothing
/// finalized remains undrained.
pub fn poll_cycle<C: ProducerContext>(
    producer: &mut BaseProducer<C>,
    stop_requested: bool,
) -> (exit: bool)
    requires
        old(producer).wf(),
    ensures
        final(producer).wf(),
        final(producer).spec_ready().len() == 0,
        final(producer).spec_pending() == old(producer).spec_pending(),
        final(producer).spec_context() == old(producer).spec_context(),
        final(producer).spec_delivered() == old(producer).spec_delivered() + old(
            producer,
        ).ready_ids(),
        exit == (old(producer).spec_ready().len() == 0 && stop_requested),
        // an exiting pass found nothing to drain: the producer is idle
        exit ==> final(producer).spec_delivered() == old(producer).spec_delivered(),
{
    let drained = producer.poll(None);
    let exit = poll_loop_should_exit(drained, stop_requested);
    proof {
        if exit {
            assert(old(producer).ready_ids().len() == old(producer).spec_ready().len());
            assert(final(producer).spec_delivered() =~= old(producer).spec_delivered());
        }
    }
    exit
}

/// Law: the lifecycle only moves forward. Every allowed transition strictly
/// increases the phase, so no sequence of transitions revisits a state.
pub proof fn lemma_loop_state_forward_only(pre: LoopState, post: LoopState)
    requires
        pre.step_allowed(post),
    ensures
        post.phase() == pre.phase() + 1,
{
}

/// Law: `Stopped` is terminal. No transition leaves it, so a stopped loop
/// is never resurrected; a new loop requires a new wrapper.
pub proof fn lemma_stopped_is_terminal(post: LoopState)
    ensures
        !LoopState::Stopped.step_allowed(post),
{
}

} // verus!
