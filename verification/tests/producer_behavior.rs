//! Behavior of the core producer: submission, rejection, finalization,
//! draining, and the delivery capability.

use std::cell::RefCell;

use base_producer::errors::{DeliveryError, SubmitErrorKind};
use base_producer::message::{DeliveryOutcome, DeliveryVerdict};
use base_producer::producer::{BaseProducer, EmptyProducerContext, ProducerContext};

struct Recorded {
    token: u64,
    success: bool,
    topic: String,
    partition: i32,
    offset: i64,
    payload: Option<Vec<u8>>,
    error: Option<DeliveryError>,
}

struct RecordingContext {
    log: RefCell<Vec<Recorded>>,
}

impl RecordingContext {
    fn new() -> Self {
        RecordingContext { log: RefCell::new(Vec::new()) }
    }
}

impl ProducerContext for RecordingContext {
    type DeliveryOpaque = u64;

    fn delivery(&self, delivery_result: &DeliveryOutcome, delivery_opaque: u64) {
        let (success, error, m) = match delivery_result {
            DeliveryOutcome::Success(m) => (true, None, m),
            DeliveryOutcome::Failure(e, m) => (false, Some(*e), m),
        };
        self.log.borrow_mut().push(Recorded {
            token: delivery_opaque,
            success,
            topic: m.topic.clone(),
            partition: m.partition,
            offset: m.offset,
            payload: m.payload.clone(),
            error,
        });
    }
}

#[test]
fn submit_then_poll_delivers_success() {
    let mut p = BaseProducer::new(16, RecordingContext::new());
    let r = p.send_copy("orders", None, Some(&b"hello"[..]), None, 42, None);
    assert!(r.is_ok());
    assert_eq!(p.in_flight_count(), 1);
    assert!(p.complete_oldest(DeliveryVerdict::Delivered { partition: 3, offset: 12 }));
    let drained = p.poll(None);
    assert_eq!(drained, 1);
    assert_eq!(p.in_flight_count(), 0);
    let log = p.context().log.borrow();
    assert_eq!(log.len(), 1);
    assert_eq!(log[0].token, 42);
    assert!(log[0].success);
    assert_eq!(log[0].topic, "orders");
    assert_eq!(log[0].partition, 3);
    assert_eq!(log[0].offset, 12);
    assert_eq!(log[0].payload.as_deref(), Some(&b"hello"[..]));
    assert!(log[0].error.is_none());
}

#[test]
fn queue_full_returns_token() {
    let mut p = BaseProducer::new(2, RecordingContext::new());
    assert!(p.send_copy("orders", None, Some(&b"a"[..]), None, 1, None).is_ok());
    assert!(p.send_copy("orders", None, Some(&b"b"[..]), None, 2, None).is_ok());
    let r = p.send_copy("orders", None, Some(&b"c"[..]), None, 7, None);
    let e = r.err().expect("the full queue must reject the submission");
    assert_eq!(e.kind(), SubmitErrorKind::QueueFull);
    assert_eq!(e.into_token(), 7);
    assert_eq!(p.in_flight_count(), 2);
    // the rejected token never reaches the delivery capability
    assert!(p.complete_oldest(DeliveryVerdict::Delivered { partition: 0, offset: 0 }));
    assert!(p.complete_oldest(DeliveryVerdict::Delivered { partition: 0, offset: 1 }));
    assert_eq!(p.poll(None), 2);
    let log = p.context().log.borrow();
    let tokens: Vec<u64> = log.iter().map(|r| r.token).collect();
    assert_eq!(tokens, vec![1, 2]);
}

#[test]
fn rejected_submission_never_produces_callback() {
    let mut p = BaseProducer::new(4, RecordingContext::new());
    let r = p.send_copy("", None, Some(&b"x"[..]), None, 9, None);
    let e = r.err().expect("an empty topic must be rejected");
    assert_eq!(e.kind(), SubmitErrorKind::InvalidTopic);
    assert_eq!(e.into_token(), 9);
    assert_eq!(p.in_flight_count(), 0);
    assert!(!p.complete_oldest(DeliveryVerdict::Failed(DeliveryError::TimedOut)));
    assert_eq!(p.poll(None), 0);
    assert!(p.context().log.borrow().is_empty());
}

#[test]
fn topic_with_interior_nul_rejected() {
    let mut p = BaseProducer::new(4, RecordingContext::new());
    let r = p.send_copy("or\0ders", None, None, None, 5, None);
    let e = r.err().expect("an interior NUL must be rejected");
    assert_eq!(e.kind(), SubmitErrorKind::InvalidTopic);
    assert_eq!(e.into_token(), 5);
}

#[test]
fn flush_after_all_finalized_leaves_nothing_in_flight() {
    let mut p = BaseProducer::new(8, RecordingContext::new());
    for t in 0..3u64 {
        assert!(p.send_copy("orders", None, Some(&b"m"[..]), None, t, None).is_ok());
    }
    assert_eq!(p.in_flight_count(), 3);
    for off in 0..3i64 {
        assert!(p.complete_oldest(DeliveryVerdict::Delivered { partition: 0, offset: off }));
    }
    p.flush(None);
    assert_eq!(p.in_flight_count(), 0);
    assert_eq!(p.context().log.borrow().len(), 3);
}

#[test]
fn poll_decrements_in_flight_by_drained_count() {
    let mut p = BaseProducer::new(8, RecordingContext::new());
    assert!(p.send_copy("orders", None, None, None, 1, None).is_ok());
    assert!(p.send_copy("orders", None, None, None, 2, None).is_ok());
    assert!(p.complete_oldest(DeliveryVerdict::Delivered { partition: 0, offset: 0 }));
    assert_eq!(p.in_flight_count(), 2);
    assert_eq!(p.poll(None), 1);
    assert_eq!(p.in_flight_count(), 1);
}

#[test]
fn outcomes_drained_in_finalization_order() {
    let mut p = BaseProducer::new(8, RecordingContext::new());
    for t in [10u64, 11, 12] {
        assert!(p.send_copy("orders", None, None, None, t, None).is_ok());
    }
    for off in 0..3i64 {
        assert!(p.complete_oldest(DeliveryVerdict::Delivered { partition: 1, offset: off }));
    }
    assert_eq!(p.poll(None), 3);
    let log = p.context().log.borrow();
    let tokens: Vec<u64> = log.iter().map(|r| r.token).collect();
    assert_eq!(tokens, vec![10, 11, 12]);
}

#[test]
fn failure_outcome_carries_error_and_original_message() {
    let mut p = BaseProducer::new(4, RecordingContext::new());
    let r = p.send_copy("orders", Some(2), Some(&b"hello"[..]), Some(&b"k1"[..]), 8, Some(99));
    assert!(r.is_ok());
    assert!(p.complete_oldest(DeliveryVerdict::Failed(DeliveryError::BrokerRejected)));
    assert_eq!(p.poll(None), 1);
    let log = p.context().log.borrow();
    assert_eq!(log.len(), 1);
    assert_eq!(log[0].token, 8);
    assert!(!log[0].success);
    assert_eq!(log[0].error, Some(DeliveryError::BrokerRejected));
    assert_eq!(log[0].payload.as_deref(), Some(&b"hello"[..]));
    assert_eq!(log[0].partition, 2);
    assert_eq!(log[0].offset, -1);
}

#[test]
fn delivery_callback_fires_exactly_once() {
    let mut p = BaseProducer::new(4, RecordingContext::new());
    assert!(p.send_copy("orders", None, None, None, 77, None).is_ok());
    assert!(p.complete_oldest(DeliveryVerdict::Delivered { partition: 0, offset: 0 }));
    assert_eq!(p.poll(None), 1);
    // nothing is left to re-emit: a second drain and a second finalization
    // both find nothing
    assert_eq!(p.poll(None), 0);
    assert!(!p.complete_oldest(DeliveryVerdict::Delivered { partition: 0, offset: 1 }));
    assert_eq!(p.poll(None), 0);
    assert_eq!(p.context().log.borrow().len(), 1);
}

#[test]
fn empty_producer_context_accepts_unit_tokens() {
    let mut p = BaseProducer::new(4, EmptyProducerContext);
    assert!(p.send_copy("orders", None, Some(&b"payload"[..]), None, (), None).is_ok());
    assert!(p.complete_oldest(DeliveryVerdict::Delivered { partition: 0, offset: 0 }));
    assert_eq!(p.poll(None), 1);
    assert_eq!(p.in_flight_count(), 0);
}
