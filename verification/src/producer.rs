//! The core producer and the delivery trampoline.
//!
//! The producer models the caller-visible face of an asynchronous delivery
//! engine: `send_copy` copies a message into engine-owned buffers, encodes
//! the caller's delivery token through the opaque codec and queues the
//! message in flight; the engine finalizes in-flight messages in its own
//! time (reported here through `complete_oldest`); `poll` drains finalized
//! outcomes, and for each one the delivery trampoline decodes the token —
//! exactly once — and invokes the delivery capability registered at
//! construction. `flush` drains everything already finalized, and
//! `in_flight_count` reports the accepted-but-unresolved backlog.

use vstd::prelude::*;

use crate::codec::TokenRegistry;
use crate::errors::{SubmitError, SubmitErrorKind};
use crate::message::{apply_verdict, outcome_of, DeliveryOutcome, DeliveryVerdict, Message};
use vstd::pervasive::unreached;
use vstd::slice::slice_to_vec;
use vstd::string::StrSliceExecFns;

verus! {

/// A topic name the engine accepts: non-empty, with no interior NUL
/// character (the engine's native layer stores topic names as
/// NUL-terminated strings).
pub open spec fn valid_topic(t: Seq<char>) -> bool {
    &&& 0 < t.len()
    &&& forall|i: int| 0 <= i < t.len() ==> t[i] != '\0'
}

/// Whether `dst` holds a copy of the caller's buffer `src`: present exactly
/// when `src` is, with the same bytes.
pub open spec fn copied_bytes(src: Option<&[u8]>, dst: Option<Vec<u8>>) -> bool {
    match src {
        Some(s) => dst matches Some(d) && d@ == s@,
        None => dst is None,
    }
}

/// Whether `m` is the message that submitting the given arguments copies
/// into engine-owned buffers: the topic and buffers copied, the partition
/// as requested (`-1` when the engine is to pick), and no placement
/// assigned yet.
pub open spec fn submitted_message(
    m: Message,
    topic: Seq<char>,
    partition: Option<i32>,
    payload: Option<&[u8]>,
    key: Option<&[u8]>,
    timestamp: Option<i64>,
) -> bool {
    &&& m.topic@ == topic
    &&& m.partition == (match partition {
        Some(p) => p,
        None => -1i32,
    })
    &&& copied_bytes(payload, m.payload)
    &&& copied_bytes(key, m.key)
    &&& m.timestamp == timestamp
    &&& m.offset == -1i64
}

/// The contract a caller implements to receive delivery outcomes. The one
/// instance is supplied at construction, shared by every handle to the
/// producer, and invoked once per accepted message when its outcome is
/// drained.
pub trait ProducerContext: Sized {
    /// The caller-defined token carried alongside one submitted message and
    /// returned through `delivery` exactly once.
    type DeliveryOpaque;

    /// Called once per accepted message when its outcome is drained. The
    /// outcome borrows producer-owned data only for the duration of the
    /// call; the token is handed back by value.
    fn delivery(&self, delivery_result: &DeliveryOutcome, delivery_opaque: Self::DeliveryOpaque);
}

/// A delivery capability for callers who do not track deliveries: the token
/// is empty and the handler does nothing.
#[derive(Clone, Copy)]
pub struct EmptyProducerContext;

impl ProducerContext for EmptyProducerContext {
    type DeliveryOpaque = ();

    fn delivery(&self, _delivery_result: &DeliveryOutcome, _delivery_opaque: ()) {
    }
}

/// One accepted submission the engine has not finalized yet.
pub struct PendingEvent {
    /// The correlation handle of the submission's token.
    pub id: u64,
    /// The message, as copied at submission time.
    pub message: Message,
}

/// One finalized outcome waiting to be drained by `poll`.
pub struct ReadyEvent {
    /// The correlation handle of the submission's token.
    pub id: u64,
    /// The outcome to hand to the delivery capability.
    pub outcome: DeliveryOutcome,
}

/// The core producer: the correlation layer's model of one shared
/// transport handle. It holds the bounded in-flight queue, the queue of
/// finalized outcomes, the token registry and the delivery capability.
pub struct BaseProducer<C: ProducerContext> {
    capacity: usize,
    pending: Vec<PendingEvent>,
    ready: Vec<ReadyEvent>,
    registry: TokenRegistry<C::DeliveryOpaque>,
    context: C,
    accepted: Ghost<Seq<u64>>,
    delivered: Ghost<Seq<u64>>,
}

impl<C: ProducerContext> BaseProducer<C> {
    /// The capacity of the local queue: the most submissions that may be
    /// accepted but unresolved at once.
    pub closed spec fn spec_capacity(self) -> int {
        self.capacity as int
    }

    /// The accepted submissions the engine has not finalized yet, oldest
    /// first.
    pub closed spec fn spec_pending(self) -> Seq<PendingEvent> {
        self.pending@
    }

    /// The finalized outcomes not yet drained, in finalization order.
    pub closed spec fn spec_ready(self) -> Seq<ReadyEvent> {
        self.ready@
    }

    /// The live token registry: one entry per accepted, undelivered
    /// submission.
    pub closed spec fn spec_registry(self) -> Map<u64, C::DeliveryOpaque> {
        self.registry@
    }

    /// The delivery capability registered at construction.
    pub closed spec fn spec_context(self) -> C {
        self.context
    }

    /// The correlation handles of every submission ever accepted, in
    /// acceptance order.
    pub closed spec fn spec_accepted(self) -> Seq<u64> {
        self.accepted@
    }

    /// The correlation handles whose outcomes were handed to the delivery
    /// capability, in the order they were handed over.
    pub closed spec fn spec_delivered(self) -> Seq<u64> {
        self.delivered@
    }

    /// The handles of the pending submissions, oldest first.
    pub open spec fn pending_ids(self) -> Seq<u64> {
        self.spec_pending().map(|i: int, e: PendingEvent| e.id)
    }

    /// The handles of the finalized, undrained outcomes, in finalization
    /// order.
    pub open spec fn ready_ids(self) -> Seq<u64> {
        self.spec_ready().map(|i: int, e: ReadyEvent| e.id)
    }

    /// The accepted-but-unresolved backlog: messages in flight plus
    /// outcomes finalized but not yet drained.
    pub open spec fn in_flight(self) -> int {
        self.spec_pending().len() + self.spec_ready().len() as int
    }

    /// Whether the producer can still issue a fresh correlation handle;
    /// false only once the whole 64-bit handle space has been spent.
    pub open spec fn handles_available(self) -> bool {
        self.spec_next() < u64::MAX
    }

    /// Well-formedness of the correlation state. Every accepted submission
    /// is in exactly one phase — pending, ready, or delivered — and holds a
    /// live registry entry exactly while undelivered; handles never repeat;
    /// the backlog respects the capacity.
    pub closed spec fn wf(self) -> bool {
        &&& 1 <= self.capacity <= 0x7fff_ffff
        &&& self.pending@.len() + self.ready@.len() <= self.capacity
        &&& self.registry.wf()
        // handles never repeat within a phase
        &&& forall|i: int, j: int|
            0 <= i < j < self.pending_ids().len() ==> self.pending_ids()[i]
                != self.pending_ids()[j]
        &&& forall|i: int, j: int|
            0 <= i < j < self.ready_ids().len() ==> self.ready_ids()[i] != self.ready_ids()[j]
        &&& forall|i: int, j: int|
            0 <= i < j < self.delivered@.len() ==> self.delivered@[i] != self.delivered@[j]
        // the phases are disjoint
        &&& forall|k: u64|
            !(#[trigger] self.pending_ids().contains(k) && #[trigger] self.ready_ids().contains(
                k,
            ))
        &&& forall|k: u64|
            !(#[trigger] self.pending_ids().contains(k) && #[trigger] self.delivered@.contains(
                k,
            ))
        &&& forall|k: u64|
            !(#[trigger] self.ready_ids().contains(k) && #[trigger] self.delivered@.contains(k))
        // accepted is exactly the union of the phases
        &&& forall|k: u64|
            #[trigger] self.accepted@.contains(k) <==> (self.pending_ids().contains(k)
                || self.ready_ids().contains(k) || self.delivered@.contains(k))
        // a registry entry is live exactly while the submission is undelivered
        &&& forall|k: u64|
            #[trigger] self.registry@.contains_key(k) <==> (self.pending_ids().contains(k)
                || self.ready_ids().contains(k))
        // every handle ever accepted lies below the next fresh handle
        &&& forall|i: int|
            0 <= i < self.pending_ids().len() ==> self.pending_ids()[i]
                < self.registry.spec_next()
        &&& forall|i: int|
            0 <= i < self.ready_ids().len() ==> self.ready_ids()[i] < self.registry.spec_next()
        &&& forall|i: int|
            0 <= i < self.delivered@.len() ==> self.delivered@[i] < self.registry.spec_next()
    }

    /// Creates a producer over a fresh transport handle: an empty backlog,
    /// no live token, and `context` as the delivery capability shared by
    /// everything layered on this producer. The queue capacity bounds the
    /// accepted-but-unresolved backlog.
    pub fn new(queue_capacity: usize, context: C) -> (p: Self)
        requires
            1 <= queue_capacity <= 0x7fff_ffff,
        ensures
            p.wf(),
            p.spec_capacity() == queue_capacity,
            p.spec_pending() =~= Seq::<PendingEvent>::empty(),
            p.spec_ready() =~= Seq::<ReadyEvent>::empty(),
            p.spec_registry() =~= Map::<u64, C::DeliveryOpaque>::empty(),
            p.spec_context() == context,
            p.spec_accepted() =~= Seq::<u64>::empty(),
            p.spec_delivered() =~= Seq::<u64>::empty(),
            p.spec_next() == 0,
            p.handles_available(),
            p.in_flight() == 0,
    {
        BaseProducer {
            capacity: queue_capacity,
            pending: Vec::new(),
            ready: Vec::new(),
            registry: TokenRegistry::new(),
            context,
            accepted: Ghost(Seq::empty()),
            delivered: Ghost(Seq::empty()),
        }
    }

    /// Returns the number of messages accepted but unresolved: waiting to
    /// be sent, or sent but not yet acknowledged and drained.
    pub fn in_flight_count(&self) -> (n: i32)
        requires
            self.wf(),
        ensures
            n == self.in_flight(),
    {
        (self.pending.len() + self.ready.len()) as i32
    }

    /// Borrows the delivery capability registered at construction.
    pub fn context(&self) -> (c: &C)
        ensures
            *c == self.spec_context(),
    {
        &self.context
    }

    /// Reports whether a fresh correlation handle is still available.
    pub fn can_accept_token(&self) -> (b: bool)
        ensures
            b == self.handles_available(),
    {
        self.registry.can_encode()
    }

    /// The next correlation handle the producer will issue.
    pub closed spec fn spec_next(self) -> u64 {
        self.registry.spec_next()
    }

    /// Sends a copy of the given payload and key to the topic. The call
    /// returns immediately: success means *accepted for delivery*, not
    /// *delivered*. On acceptance the token is encoded under a fresh
    /// correlation handle and the message joins the in-flight queue. A
    /// rejection is synchronous — the topic is invalid, or the local queue
    /// is at capacity — and leaves the producer untouched; the engine never
    /// took ownership of the token, so the error carries it back to the
    /// caller.
    pub fn send_copy(
        &mut self,
        topic_name: &str,
        partition: Option<i32>,
        payload: Option<&[u8]>,
        key: Option<&[u8]>,
        delivery_opaque: C::DeliveryOpaque,
        timestamp: Option<i64>,
    ) -> (r: Result<(), SubmitError<C::DeliveryOpaque>>)
        requires
            old(self).wf(),
            old(self).handles_available(),
        ensures
            final(self).wf(),
            final(self).spec_capacity() == old(self).spec_capacity(),
            final(self).spec_context() == old(self).spec_context(),
            final(self).spec_ready() == old(self).spec_ready(),
            final(self).spec_delivered() == old(self).spec_delivered(),
            // rejection happens exactly on an invalid topic or a full queue
            r is Err <==> (!valid_topic(topic_name@) || old(self).in_flight()
                >= old(self).spec_capacity()),
            // a rejected submission changes nothing and returns the token
            r matches Err(e) ==> {
                &&& *final(self) == *old(self)
                &&& e.spec_token() == delivery_opaque
                &&& e.spec_kind() == (if !valid_topic(topic_name@) {
                    SubmitErrorKind::InvalidTopic
                } else {
                    SubmitErrorKind::QueueFull
                })
            },
            // an accepted submission queues the copied message under a
            // fresh handle and stores the token under that handle
            r is Ok ==> {
                &&& final(self).spec_pending() == old(self).spec_pending().push(
                    final(self).spec_pending().last(),
                )
                &&& final(self).spec_pending().last().id == old(self).spec_next()
                &&& submitted_message(
                    final(self).spec_pending().last().message,
                    topic_name@,
                    partition,
                    payload,
                    key,
                    timestamp,
                )
                &&& final(self).spec_registry() == old(self).spec_registry().insert(
                    old(self).spec_next(),
                    delivery_opaque,
                )
                &&& final(self).spec_accepted() == old(self).spec_accepted().push(
                    old(self).spec_next(),
                )
                &&& !old(self).spec_accepted().contains(old(self).spec_next())
                &&& final(self).spec_next() == old(self).spec_next() + 1
                &&& final(self).in_flight() == old(self).in_flight() + 1
            },
    {
        if !topic_is_valid(topic_name) {
            return Err(SubmitError::InvalidTopic(delivery_opaque));
        }
        if self.pending.len() + self.ready.len() >= self.capacity {
            return Err(SubmitError::QueueFull(delivery_opaque));
        }
        let ghost pre = *self;
        let message = Message {
            topic: topic_name.to_owned(),
            partition: match partition {
                Some(p) => p,
                None => -1,
            },
            payload: match payload {
                Some(p) => Some(slice_to_vec(p)),
                None => None,
            },
            key: match key {
                Some(k) => Some(slice_to_vec(k)),
                None => None,
            },
            timestamp,
            offset: -1,
        };
        let id = self.registry.encode(delivery_opaque);
        self.pending.push(PendingEvent { id, message });
        proof {
            self.accepted@ = self.accepted@.push(id);
        }
        proof {
            self.lemma_accept_preserves_wf(pre, id);
        }
        Ok(())
    }

    /// Reports the engine's verdict on the oldest in-flight message: the
    /// engine finalized its delivery, successfully or not. The message
    /// leaves the in-flight queue and its outcome joins the drain queue;
    /// nothing is handed to the delivery capability until `poll` drains
    /// it. Returns false, changing nothing, when nothing is in flight.
    /// The verdict is decided outside this layer, so the contract holds
    /// for every verdict.
    pub fn complete_oldest(&mut self, verdict: DeliveryVerdict) -> (finalized: bool)
        requires
            old(self).wf(),
        ensures
            final(self).wf(),
            final(self).spec_capacity() == old(self).spec_capacity(),
            final(self).spec_context() == old(self).spec_context(),
            final(self).spec_registry() == old(self).spec_registry(),
            final(self).spec_accepted() == old(self).spec_accepted(),
            final(self).spec_delivered() == old(self).spec_delivered(),
            final(self).spec_next() == old(self).spec_next(),
            finalized == (old(self).spec_pending().len() > 0),
            !finalized ==> *final(self) == *old(self),
            finalized ==> {
                &&& final(self).spec_pending() == old(self).spec_pending().drop_first()
                &&& final(self).spec_ready() == old(self).spec_ready().push(
                    ReadyEvent {
                        id: old(self).spec_pending()[0].id,
                        outcome: outcome_of(old(self).spec_pending()[0].message, verdict),
                    },
                )
                &&& final(self).in_flight() == old(self).in_flight()
            },
    {
        if self.pending.len() == 0 {
            return false;
        }
        let ghost pre = *self;
        let event = self.pending.remove(0);
        let outcome = apply_verdict(event.message, verdict);
        self.ready.push(ReadyEvent { id: event.id, outcome });
        proof {
            assert(pre.pending@.remove(0) =~= pre.pending@.drop_first());
            self.lemma_finalize_preserves_wf(pre);
        }
        true
    }

    /// Finalization preserves well-formedness: the oldest in-flight handle
    /// moves from the pending phase to the ready phase, leaving every
    /// other invariant untouched.
    proof fn lemma_finalize_preserves_wf(self, pre: Self)
        requires
            pre.wf(),
            pre.pending@.len() > 0,
            self.capacity == pre.capacity,
            self.context == pre.context,
            self.registry == pre.registry,
            self.accepted@ == pre.accepted@,
            self.delivered@ == pre.delivered@,
            self.pending@ == pre.pending@.drop_first(),
            self.ready@.len() == pre.ready@.len() + 1,
            self.ready@ == pre.ready@.push(self.ready@.last()),
            self.ready@.last().id == pre.pending@[0].id,
        ensures
            self.wf(),
    {
        let id0 = pre.pending_ids()[0];
        assert(self.pending_ids() =~= pre.pending_ids().drop_first());
        assert(self.ready_ids() =~= pre.ready_ids().push(id0));
        assert(pre.pending_ids().contains(id0));
        let pids = pre.pending_ids();
        let rids = pre.ready_ids();
        assert(!rids.contains(id0));
        assert(!pre.delivered@.contains(id0));
        // the shrunk pending queue: membership and distinctness
        assert forall|k: u64| #[trigger]
            self.pending_ids().contains(k) implies pids.contains(k) by {
            let i = choose|i: int|
                0 <= i < self.pending_ids().len() && self.pending_ids()[i] == k;
            assert(pids[i + 1] == k);
        }
        assert(!self.pending_ids().contains(id0)) by {
            if self.pending_ids().contains(id0) {
                let i = choose|i: int|
                    0 <= i < self.pending_ids().len() && self.pending_ids()[i] == id0;
                assert(pids[i + 1] == id0);
                assert(pids[0] == id0);
            }
        }
        assert forall|k: u64| pids.contains(k) && k != id0 implies #[trigger]
            self.pending_ids().contains(k) by {
            let i = choose|i: int| 0 <= i < pids.len() && pids[i] == k;
            assert(i != 0);
            assert(self.pending_ids()[i - 1] == k);
        }
        // the grown ready queue: membership
        assert forall|k: u64| #[trigger]
            self.ready_ids().contains(k) == (rids.contains(k) || k == id0) by {
            lemma_push_contains(rids, id0, k);
        }
        assert forall|i: int, j: int|
            0 <= i < j < self.ready_ids().len() implies self.ready_ids()[i]
            != self.ready_ids()[j] by {
            if j == self.ready_ids().len() - 1 {
                assert(rids.contains(rids[i]));
            }
        }
    }

    /// The delivery trampoline: invoked once per drained outcome while
    /// `poll` drains the ready queue. It decodes the delivery token from
    /// the outcome's correlation handle — exactly once: the decode removes
    /// the registry entry — and invokes the delivery capability with the
    /// outcome and the token, then records the handle as delivered.
    fn delivery_cb(&mut self, event: ReadyEvent)
        requires
            old(self).registry.wf(),
            old(self).spec_registry().contains_key(event.id),
        ensures
            final(self).registry.wf(),
            final(self).spec_registry() == old(self).spec_registry().remove(event.id),
            final(self).spec_next() == old(self).spec_next(),
            final(self).spec_delivered() == old(self).spec_delivered().push(event.id),
            final(self).spec_capacity() == old(self).spec_capacity(),
            final(self).spec_context() == old(self).spec_context(),
            final(self).spec_pending() == old(self).spec_pending(),
            final(self).spec_ready() == old(self).spec_ready(),
            final(self).spec_accepted() == old(self).spec_accepted(),
    {
        let token = match self.registry.decode(event.id) {
            Some(t) => t,
            None => unreached(),
        };
        self.context.delivery(&event.outcome, token);
        proof {
            self.delivered@ = self.delivered@.push(event.id);
        }
    }

    /// Polls the producer: drains every outcome the engine has finalized,
    /// invoking the delivery trampoline once per outcome, in finalization
    /// order, on the calling execution context. Returns the number of
    /// events processed. The model engine finalizes outcomes only through
    /// `complete_oldest`, never while the caller waits, so a wait bound
    /// would never be reached and the timeout goes unused.
    pub fn poll(&mut self, _timeout_ms: Option<u64>) -> (n: i32)
        requires
            old(self).wf(),
        ensures
            final(self).wf(),
            final(self).spec_capacity() == old(self).spec_capacity(),
            final(self).spec_context() == old(self).spec_context(),
            final(self).spec_pending() == old(self).spec_pending(),
            final(self).spec_accepted() == old(self).spec_accepted(),
            final(self).spec_next() == old(self).spec_next(),
            n == old(self).spec_ready().len(),
            final(self).spec_ready().len() == 0,
            // each drained outcome is recorded delivered, in order
            final(self).spec_delivered() == old(self).spec_delivered() + old(self).ready_ids(),
            // the tokens of drained outcomes leave the registry ...
            forall|k: u64|
                #[trigger] final(self).spec_registry().contains_key(k) <==> (old(
                    self,
                ).spec_registry().contains_key(k) && !old(self).ready_ids().contains(k)),
            // ... and every other token stays put
            forall|k: u64|
                #[trigger] final(self).spec_registry().contains_key(k)
                    ==> final(self).spec_registry()[k] == old(self).spec_registry()[k],
            final(self).in_flight() == old(self).in_flight() - n,
    {
        let ghost pre = *self;
        let mut n: usize = 0;
        while self.ready.len() > 0
            invariant
                pre.wf(),
                self.capacity == pre.capacity,
                self.context == pre.context,
                self.pending@ == pre.pending@,
                self.accepted@ == pre.accepted@,
                self.registry.wf(),
                self.registry.spec_next() == pre.registry.spec_next(),
                n <= pre.ready@.len(),
                self.ready@ == pre.ready@.subrange(n as int, pre.ready@.len() as int),
                self.delivered@ == pre.delivered@ + pre.ready_ids().subrange(0, n as int),
                forall|k: u64|
                    #[trigger] self.registry@.contains_key(k) <==> (pre.registry@.contains_key(
                        k,
                    ) && !pre.ready_ids().subrange(0, n as int).contains(k)),
                forall|k: u64|
                    #[trigger] self.registry@.contains_key(k) ==> self.registry@[k]
                        == pre.registry@[k],
            decreases self.ready@.len(),
        {
            let event = self.ready.remove(0);
            proof {
                let rids = pre.ready_ids();
                assert(event == pre.ready@[n as int]);
                assert(event.id == rids[n as int]);
                assert(self.ready@ =~= pre.ready@.subrange(n as int + 1, pre.ready@.len() as int));
                assert(rids.contains(event.id));
                assert(pre.registry@.contains_key(event.id));
                assert(!rids.subrange(0, n as int).contains(event.id)) by {
                    if rids.subrange(0, n as int).contains(event.id) {
                        let j = choose|j: int|
                            0 <= j < n && rids.subrange(0, n as int)[j] == event.id;
                        assert(rids[j] == rids[n as int]);
                    }
                }
            }
            self.delivery_cb(event);
            proof {
                let rids = pre.ready_ids();
                assert(rids.subrange(0, n as int + 1) =~= rids.subrange(0, n as int).push(
                    rids[n as int],
                ));
                assert(self.delivered@ =~= pre.delivered@ + rids.subrange(0, n as int + 1));
                assert forall|k: u64| #[trigger]
                    self.registry@.contains_key(k) == (pre.registry@.contains_key(k)
                        && !rids.subrange(0, n as int + 1).contains(k)) by {
                    lemma_push_contains(rids.subrange(0, n as int), rids[n as int], k);
                }
            }
            n = n + 1;
        }
        proof {
            assert(pre.ready_ids().subrange(0, n as int) =~= pre.ready_ids());
            assert(n == pre.ready@.len());
            self.lemma_drain_establishes_wf(pre);
        }
        n as i32
    }

    /// Flushes the producer: drains every outcome the engine has already
    /// finalized, so that after the call the backlog is exactly the
    /// messages the engine still holds in flight. When nothing was in
    /// flight — every accepted message had been finalized — the flush is
    /// complete and the in-flight count reaches zero. The model engine
    /// finalizes only through `complete_oldest`, never while the caller
    /// waits, so the timeout goes unused.
    pub fn flush(&mut self, _timeout_ms: Option<u64>)
        requires
            old(self).wf(),
        ensures
            final(self).wf(),
            final(self).spec_capacity() == old(self).spec_capacity(),
            final(self).spec_context() == old(self).spec_context(),
            final(self).spec_pending() == old(self).spec_pending(),
            final(self).spec_accepted() == old(self).spec_accepted(),
            final(self).spec_next() == old(self).spec_next(),
            final(self).spec_ready().len() == 0,
            final(self).spec_delivered() == old(self).spec_delivered() + old(self).ready_ids(),
            // after a flush the backlog is what is still truly in flight
            final(self).in_flight() == old(self).spec_pending().len(),
            // a successful flush leaves nothing unresolved
            old(self).spec_pending().len() == 0 ==> final(self).in_flight() == 0,
    {
        let _drained = self.poll(None);
    }

    /// Drain completion preserves well-formedness: once every finalized
    /// outcome has been handed over, the delivered history has absorbed
    /// the old ready queue, the registry holds tokens exactly for the
    /// still-pending submissions, and no handle repeats anywhere.
    proof fn lemma_drain_establishes_wf(self, pre: Self)
        requires
            pre.wf(),
            self.capacity == pre.capacity,
            self.context == pre.context,
            self.pending@ == pre.pending@,
            self.accepted@ == pre.accepted@,
            self.registry.wf(),
            self.registry.spec_next() == pre.registry.spec_next(),
            self.ready@.len() == 0,
            self.delivered@ == pre.delivered@ + pre.ready_ids(),
            forall|k: u64|
                #[trigger] self.registry@.contains_key(k) <==> (pre.registry@.contains_key(k)
                    && !pre.ready_ids().contains(k)),
        ensures
            self.wf(),
    {
        let rids = pre.ready_ids();
        let dl = pre.delivered@;
        assert(self.pending_ids() == pre.pending_ids());
        assert(self.ready_ids() =~= Seq::<u64>::empty());
        // the delivered history absorbed the ready queue: membership
        assert forall|k: u64| #[trigger]
            self.delivered@.contains(k) == (dl.contains(k) || rids.contains(k)) by {
            lemma_concat_contains(dl, rids, k);
        }
        // ... and distinctness, since the two parts were disjoint
        assert forall|i: int, j: int|
            0 <= i < j < self.delivered@.len() implies self.delivered@[i]
            != self.delivered@[j] by {
            if i < dl.len() && j < dl.len() {
                assert(self.delivered@[i] == dl[i]);
                assert(self.delivered@[j] == dl[j]);
            } else if i < dl.len() {
                assert(self.delivered@[i] == dl[i]);
                assert(self.delivered@[j] == rids[j - dl.len()]);
                assert(dl.contains(dl[i]));
                assert(rids.contains(rids[j - dl.len()]));
            } else {
                assert(self.delivered@[i] == rids[i - dl.len()]);
                assert(self.delivered@[j] == rids[j - dl.len()]);
            }
        }
        // the pending phase is disjoint from the grown delivered history
        assert forall|k: u64|
            !(#[trigger] self.pending_ids().contains(k) && #[trigger] self.delivered@.contains(
                k,
            )) by {
            if self.pending_ids().contains(k) {
                assert(pre.pending_ids().contains(k));
            }
        }
        // the registry now mirrors the pending phase alone
        assert forall|k: u64| #[trigger]
            self.registry@.contains_key(k) == (self.pending_ids().contains(k)
                || self.ready_ids().contains(k)) by {
            assert(pre.registry@.contains_key(k) <==> (pre.pending_ids().contains(k)
                || pre.ready_ids().contains(k)));
            if self.pending_ids().contains(k) {
                assert(pre.pending_ids().contains(k));
            }
        }
        // acceptance still matches the union of the phases
        assert forall|k: u64| #[trigger]
            self.accepted@.contains(k) == (self.pending_ids().contains(k)
                || self.ready_ids().contains(k) || self.delivered@.contains(k)) by {
            assert(pre.accepted@.contains(k) <==> (pre.pending_ids().contains(k)
                || pre.ready_ids().contains(k) || pre.delivered@.contains(k)));
        }
        // every handle still lies below the next fresh handle
        assert forall|i: int|
            0 <= i < self.delivered@.len() implies self.delivered@[i]
            < self.registry.spec_next() by {
            if i < dl.len() {
                assert(self.delivered@[i] == dl[i]);
            } else {
                assert(self.delivered@[i] == rids[i - dl.len()]);
            }
        }
    }

    /// Acceptance preserves well-formedness: pushing a fresh handle onto
    /// the in-flight queue, inserting its token, and recording it as
    /// accepted keeps every invariant, because the fresh handle lies above
    /// every handle any phase holds.
    proof fn lemma_accept_preserves_wf(self, pre: Self, id: u64)
        requires
            pre.wf(),
            id == pre.registry.spec_next(),
            self.capacity == pre.capacity,
            self.context == pre.context,
            self.ready@ == pre.ready@,
            self.delivered@ == pre.delivered@,
            self.pending@.len() == pre.pending@.len() + 1,
            self.pending@ == pre.pending@.push(self.pending@.last()),
            self.pending@.last().id == id,
            pre.pending@.len() + pre.ready@.len() < pre.capacity,
            self.registry.wf(),
            self.registry@ == pre.registry@.insert(id, self.registry@[id]),
            self.registry.spec_next() == pre.registry.spec_next() + 1,
            self.accepted@ == pre.accepted@.push(id),
        ensures
            self.wf(),
            !pre.accepted@.contains(id),
    {
        assert(self.pending_ids() =~= pre.pending_ids().push(id));
        assert(self.ready_ids() =~= pre.ready_ids());
        let pids = pre.pending_ids();
        let rids = pre.ready_ids();
        assert(!pids.contains(id)) by {
            if pids.contains(id) {
                let i = choose|i: int| 0 <= i < pids.len() && pids[i] == id;
                assert(pids[i] < pre.registry.spec_next());
            }
        }
        assert(!rids.contains(id)) by {
            if rids.contains(id) {
                let i = choose|i: int| 0 <= i < rids.len() && rids[i] == id;
                assert(rids[i] < pre.registry.spec_next());
            }
        }
        assert(!pre.delivered@.contains(id)) by {
            if pre.delivered@.contains(id) {
                let i = choose|i: int|
                    0 <= i < pre.delivered@.len() && pre.delivered@[i] == id;
                assert(pre.delivered@[i] < pre.registry.spec_next());
            }
        }
        assert(!pre.accepted@.contains(id));
        // distinctness of the grown in-flight queue
        assert forall|i: int, j: int|
            0 <= i < j < self.pending_ids().len() implies self.pending_ids()[i]
            != self.pending_ids()[j] by {
            if j == self.pending_ids().len() - 1 {
                assert(pids[i] < pre.registry.spec_next());
            }
        }
        // membership across the push
        assert forall|k: u64| #[trigger]
            self.pending_ids().contains(k) == (pids.contains(k) || k == id) by {
            lemma_push_contains(pids, id, k);
        }
        assert forall|k: u64| #[trigger]
            self.accepted@.contains(k) == (pre.accepted@.contains(k) || k == id) by {
            lemma_push_contains(pre.accepted@, id, k);
        }
    }
}

/// Law: an outcome, once emitted, is never re-emitted. The delivery
/// history of a well-formed producer repeats no handle — the delivery
/// capability is invoked at most once per accepted submission — and every
/// delivered handle belongs to an accepted submission: a submission that
/// was never accepted never reaches the capability.
pub proof fn lemma_delivered_at_most_once<C: ProducerContext>(p: BaseProducer<C>)
    requires
        p.wf(),
    ensures
        forall|i: int, j: int|
            0 <= i < j < p.spec_delivered().len() ==> p.spec_delivered()[i]
                != p.spec_delivered()[j],
        forall|k: u64| #[trigger] p.spec_delivered().contains(k) ==> p.spec_accepted().contains(k),
{
    assert forall|k: u64| #[trigger]
        p.spec_delivered().contains(k) implies p.spec_accepted().contains(k) by {
        assert(p.spec_accepted().contains(k) <==> (p.pending_ids().contains(k)
            || p.ready_ids().contains(k) || p.spec_delivered().contains(k)));
    }
}

/// Law: at quiescence the history is complete. When nothing is in flight
/// — as after a flush that found every accepted message finalized — the
/// delivered history holds exactly the accepted submissions: every
/// accepted token reached the delivery capability, and, the history
/// repeating no handle, each exactly once.
pub proof fn lemma_quiescent_history_complete<C: ProducerContext>(p: BaseProducer<C>)
    requires
        p.wf(),
        p.in_flight() == 0,
    ensures
        forall|k: u64|
            #[trigger] p.spec_accepted().contains(k) <==> p.spec_delivered().contains(k),
        forall|i: int, j: int|
            0 <= i < j < p.spec_delivered().len() ==> p.spec_delivered()[i]
                != p.spec_delivered()[j],
{
    assert(p.pending_ids().len() == 0);
    assert(p.ready_ids().len() == 0);
    assert forall|k: u64| #[trigger]
        p.spec_accepted().contains(k) <==> p.spec_delivered().contains(k) by {
        assert(p.spec_accepted().contains(k) <==> (p.pending_ids().contains(k)
            || p.ready_ids().contains(k) || p.spec_delivered().contains(k)));
    }
}

/// Law: tokens are conserved. In a well-formed producer, a handle is
/// accepted exactly when it is in exactly one of the three phases —
/// pending, finalized-but-undrained, or delivered — and its token is live
/// in the registry exactly while it is undelivered. A handle that was
/// never accepted is in no phase and holds no token, so no delivery
/// callback can ever fire for it.
pub proof fn lemma_token_conservation<C: ProducerContext>(p: BaseProducer<C>, k: u64)
    requires
        p.wf(),
    ensures
        p.spec_accepted().contains(k) <==> (p.pending_ids().contains(k)
            || p.ready_ids().contains(k) || p.spec_delivered().contains(k)),
        !(p.pending_ids().contains(k) && p.ready_ids().contains(k)),
        !(p.pending_ids().contains(k) && p.spec_delivered().contains(k)),
        !(p.ready_ids().contains(k) && p.spec_delivered().contains(k)),
        p.spec_registry().contains_key(k) <==> (p.pending_ids().contains(k)
            || p.ready_ids().contains(k)),
        !p.spec_accepted().contains(k) ==> !p.spec_delivered().contains(k)
            && !p.spec_registry().contains_key(k),
{
    assert(p.spec_accepted().contains(k) <==> (p.pending_ids().contains(k)
        || p.ready_ids().contains(k) || p.spec_delivered().contains(k)));
    assert(p.spec_registry().contains_key(k) <==> (p.pending_ids().contains(k)
        || p.ready_ids().contains(k)));
    assert(!(p.pending_ids().contains(k) && p.ready_ids().contains(k)));
    assert(!(p.pending_ids().contains(k) && p.spec_delivered().contains(k)));
    assert(!(p.ready_ids().contains(k) && p.spec_delivered().contains(k)));
}

/// Concatenation joins membership: an element is in `a + b` exactly when
/// it is in `a` or in `b`.
proof fn lemma_concat_contains<A>(a: Seq<A>, b: Seq<A>, y: A)
    ensures
        (a + b).contains(y) <==> (a.contains(y) || b.contains(y)),
{
    if (a + b).contains(y) {
        let i = choose|i: int| 0 <= i < (a + b).len() && (a + b)[i] == y;
        if i < a.len() {
            assert(a[i] == y);
        } else {
            assert(b[i - a.len()] == y);
        }
    }
    if a.contains(y) {
        let i = choose|i: int| 0 <= i < a.len() && a[i] == y;
        assert((a + b)[i] == y);
    }
    if b.contains(y) {
        let i = choose|i: int| 0 <= i < b.len() && b[i] == y;
        assert((a + b)[a.len() + i] == y);
    }
}

/// Pushing an element extends membership by exactly that element.
proof fn lemma_push_contains<A>(s: Seq<A>, x: A, y: A)
    ensures
        s.push(x).contains(y) <==> (s.contains(y) || y == x),
{
    if s.push(x).contains(y) {
        let i = choose|i: int| 0 <= i < s.push(x).len() && s.push(x)[i] == y;
        if i < s.len() {
            assert(s[i] == y);
        }
    }
    if s.contains(y) {
        let i = choose|i: int| 0 <= i < s.len() && s[i] == y;
        assert(s.push(x)[i] == y);
    }
    assert(s.push(x)[s.len() as int] == x);
}

/// Reports whether the engine accepts `topic_name`: non-empty, with no
/// interior NUL character.
fn topic_is_valid(topic_name: &str) -> (b: bool)
    ensures
        b == valid_topic(topic_name@),
{
    let n = topic_name.unicode_len();
    if n == 0 {
        return false;
    }
    let mut i: usize = 0;
    while i < n
        invariant
            n == topic_name@.len(),
            i <= n,
            forall|j: int| 0 <= j < i ==> topic_name@[j] != '\0',
        decreases n - i,
    {
        if topic_name.get_char(i) == '\0' {
            return false;
        }
        i = i + 1;
    }
    true
}

} // verus!
