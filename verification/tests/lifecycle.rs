//! The background-loop lifecycle, the idle-then-stop policy, and the
//! opaque token codec.

use std::cell::RefCell;

use base_producer::codec::TokenRegistry;
use base_producer::message::{DeliveryOutcome, DeliveryVerdict};
use base_producer::polling::{poll_cycle, poll_loop_should_exit, LoopState};
use base_producer::producer::{BaseProducer, ProducerContext};

struct CountingContext {
    fired: RefCell<u32>,
}

impl ProducerContext for CountingContext {
    type DeliveryOpaque = u64;

    fn delivery(&self, _delivery_result: &DeliveryOutcome, _delivery_opaque: u64) {
        *self.fired.borrow_mut() += 1;
    }
}

#[test]
fn loop_state_moves_forward_only() {
    let mut state = LoopState::NotStarted;
    assert!(!state.is_stopped());
    state.start();
    assert_eq!(state, LoopState::Running);
    state.request_stop();
    assert_eq!(state, LoopState::StopRequested);
    state.confirm_stopped();
    assert_eq!(state, LoopState::Stopped);
    assert!(state.is_stopped());
}

#[test]
fn exit_decision_requires_idle_drain_after_stop_request() {
    // without a stop request the loop always continues
    assert!(!poll_loop_should_exit(0, false));
    assert!(!poll_loop_should_exit(5, false));
    // a pass that drained work keeps the loop alive even under a stop
    assert!(!poll_loop_should_exit(5, true));
    // only an idle pass after the stop request exits
    assert!(poll_loop_should_exit(0, true));
}

#[test]
fn poll_cycle_drains_pending_outcomes_before_exiting() {
    let mut p = BaseProducer::new(8, CountingContext { fired: RefCell::new(0) });
    assert!(p.send_copy("orders", None, None, None, 1, None).is_ok());
    assert!(p.send_copy("orders", None, None, None, 2, None).is_ok());
    assert!(p.complete_oldest(DeliveryVerdict::Delivered { partition: 0, offset: 0 }));
    assert!(p.complete_oldest(DeliveryVerdict::Delivered { partition: 0, offset: 1 }));
    // a stop is requested while two outcomes wait: the pass drains them
    // and must not exit
    assert!(!poll_cycle(&mut p, true));
    assert_eq!(*p.context().fired.borrow(), 2);
    // the next pass is idle, so the loop may exit; nothing fires after it
    assert!(poll_cycle(&mut p, true));
    assert_eq!(*p.context().fired.borrow(), 2);
}

#[test]
fn poll_cycle_without_stop_request_keeps_running() {
    let mut p = BaseProducer::new(8, CountingContext { fired: RefCell::new(0) });
    assert!(!poll_cycle(&mut p, false));
    assert!(p.send_copy("orders", None, None, None, 3, None).is_ok());
    assert!(p.complete_oldest(DeliveryVerdict::Delivered { partition: 0, offset: 0 }));
    assert!(!poll_cycle(&mut p, false));
    assert_eq!(*p.context().fired.borrow(), 1);
}

#[test]
fn codec_decodes_each_handle_at_most_once() {
    let mut registry: TokenRegistry<u64> = TokenRegistry::new();
    assert!(registry.can_encode());
    let a = registry.encode(99);
    let b = registry.encode(100);
    assert_ne!(a, b);
    assert_eq!(registry.decode(a), Some(99));
    // the second decode of the same handle finds nothing
    assert_eq!(registry.decode(a), None);
    assert_eq!(registry.decode(b), Some(100));
    assert_eq!(registry.decode(b), None);
    // a handle never issued decodes to nothing
    assert_eq!(registry.decode(12345), None);
}
