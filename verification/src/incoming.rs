//! The incoming direction: from the socket to the queue.
//!
//! The worker receives one datagram into a fresh buffer, cuts the buffer
//! down to what was received, and offers the datagram to its queue until the
//! queue takes it. A failed receive is worth a warning and nothing more. The
//! worker ends when the queue has lost its consumer, and on nothing else.
//!
//! [`IncomingWorker`] is the worker, [`IncomingPath`] the worker and its queue
//! as one mathematical value, and the proof functions at the end say what
//! holds of every run of the two.
use vstd::prelude::*;
use crate::address::SocketAddress;
use crate::datagram::{Datagram, DatagramView};
use crate::queue::{BoundedQueue, Enqueue, QueueState};

verus! {

/// The size in bytes of the buffer that a datagram is received into.
pub const RECEIVE_BUFFER_SIZE: usize = 1500;

/// What the socket answered to one receive call.
#[derive(Clone, Copy, Debug, PartialEq, Eq)]
pub enum ReceiveOutcome {
    /// A datagram from `source` was written to the first `size` bytes of the
    /// buffer.
    Received { size: usize, source: SocketAddress },
    /// The call failed.
    Failed,
}

/// Where the incoming worker stands, and what it does next.
#[derive(Debug, PartialEq, Eq)]
pub enum IncomingWorker {
    /// Next it receives a datagram from the socket.
    Receiving,
    /// Next it offers this datagram to the queue.
    Forwarding(Datagram),
    /// It has ended.
    Terminated,
}

/// The state of the incoming worker as a mathematical value.
pub enum IncomingPhase {
    /// It waits for the socket.
    Receiving,
    /// It holds this datagram for the queue.
    Forwarding(DatagramView),
    /// It has ended.
    Terminated,
}

/// The first `size` bytes of `buffer`, or all of it where it has fewer.
pub open spec fn truncated(buffer: Seq<u8>, size: nat) -> Seq<u8> {
    if size <= buffer.len() {
        buffer.take(size as int)
    } else {
        buffer
    }
}

impl IncomingPhase {
    /// The datagram that the worker holds for the queue, if it holds one.
    pub open spec fn held(self) -> Seq<DatagramView> {
        match self {
            IncomingPhase::Forwarding(datagram) => seq![datagram],
            _ => Seq::empty(),
        }
    }

    /// The state after the socket answered a receiving worker with
    /// `outcome`, for a buffer that then holds `buffer`. On success the
    /// worker holds, for the queue, the datagram that came in: the buffer
    /// cut down to the size received, with the source's address. After a
    /// failure it receives again. A worker that is not receiving has made no
    /// call, and stays as it is.
    pub open spec fn after_receive(
        self,
        buffer: Seq<u8>,
        outcome: ReceiveOutcome,
    ) -> IncomingPhase {
        match (self, outcome) {
            (IncomingPhase::Receiving, ReceiveOutcome::Received { size, source }) => {
                IncomingPhase::Forwarding(
                    DatagramView { payload: truncated(buffer, size as nat), address: source },
                )
            },
            _ => self,
        }
    }

    /// The datagram that comes in when the socket answers with `outcome`, if
    /// one comes in: the one that a receiving worker then holds.
    pub open spec fn arrived(self, buffer: Seq<u8>, outcome: ReceiveOutcome) -> Seq<DatagramView> {
        if self is Receiving {
            self.after_receive(buffer, outcome).held()
        } else {
            Seq::empty()
        }
    }

    /// Whether the socket's answer is worth a warning: a failed receive.
    pub open spec fn warns(self, outcome: ReceiveOutcome) -> bool {
        self is Receiving && outcome is Failed
    }

    /// The state after the queue gave `answer` to a worker that offered it
    /// the datagram it holds. Where the queue took the datagram, the worker
    /// receives again; where the queue was full, it holds the datagram on;
    /// where the queue had lost its consumer, it ends. A worker that holds
    /// no datagram offers nothing, and stays as it is.
    pub open spec fn after_forward(self, answer: Enqueue<DatagramView>) -> IncomingPhase {
        match (self, answer) {
            (IncomingPhase::Forwarding(_), Enqueue::Accepted) => IncomingPhase::Receiving,
            (IncomingPhase::Forwarding(_), Enqueue::Closed(_)) => IncomingPhase::Terminated,
            _ => self,
        }
    }
}

impl View for IncomingWorker {
    type V = IncomingPhase;

    open spec fn view(&self) -> IncomingPhase {
        match *self {
            IncomingWorker::Receiving => IncomingPhase::Receiving,
            IncomingWorker::Forwarding(datagram) => IncomingPhase::Forwarding(datagram@),
            IncomingWorker::Terminated => IncomingPhase::Terminated,
        }
    }
}

/// A fresh buffer to receive one datagram into: `RECEIVE_BUFFER_SIZE` zero
/// bytes.
pub fn receive_buffer() -> (buffer: Vec<u8>)
    ensures
        buffer@ == Seq::new(RECEIVE_BUFFER_SIZE as nat, |i: int| 0u8),
{
    let buffer = vec![0u8; RECEIVE_BUFFER_SIZE];
    assert(buffer@ =~= Seq::new(RECEIVE_BUFFER_SIZE as nat, |i: int| 0u8));
    buffer
}

impl IncomingWorker {
    /// The state that a worker begins in.
    pub fn start() -> (state: IncomingWorker)
        ensures
            state@ == IncomingPhase::Receiving,
    {
        IncomingWorker::Receiving
    }

    /// Takes the socket's answer to a receive call into `buffer`. Where the
    /// call succeeded, the worker goes on to forward the first `size` bytes
    /// of the buffer with the source's address. Where it failed, the worker
    /// stays ready to receive, and the second part of the result asks for a
    /// warning. A worker that is not receiving stays as it is.
    pub fn on_receive(self, buffer: Vec<u8>, outcome: ReceiveOutcome) -> (step: (
        IncomingWorker,
        bool,
    ))
        ensures
            step.0@ == self@.after_receive(buffer@, outcome),
            step.1 == self@.warns(outcome),
    {
        match self {
            IncomingWorker::Receiving => match outcome {
                ReceiveOutcome::Received { size, source } => {
                    let mut payload = buffer;
                    payload.truncate(size);
                    (IncomingWorker::Forwarding(Datagram { payload, address: source }), false)
                },
                ReceiveOutcome::Failed => (IncomingWorker::Receiving, true),
            },
            other => (other, false),
        }
    }

    /// Offers the datagram that the worker holds to `queue`. Where the queue
    /// takes it, the worker goes back to receiving; where the queue is full,
    /// the worker keeps the datagram, to offer it again after a wait; where
    /// the queue has lost its consumer, the worker ends. A worker that holds
    /// no datagram stays as it is, and so does the queue.
    pub fn forward(self, queue: &mut BoundedQueue<Datagram>) -> (next: IncomingWorker)
        ensures
            (IncomingPath { worker: next@, queue: final(queue)@ }) == (IncomingPath {
                worker: self@,
                queue: old(queue)@,
            }).apply(IncomingStep::Forward),
            old(queue)@.wf() ==> final(queue)@.wf(),
    {
        match self {
            IncomingWorker::Forwarding(datagram) => match queue.try_enqueue(datagram) {
                Enqueue::Accepted => IncomingWorker::Receiving,
                Enqueue::Full(kept) => IncomingWorker::Forwarding(kept),
                Enqueue::Closed(_) => IncomingWorker::Terminated,
            },
            other => other,
        }
    }
}

/// One thing that happens in the incoming direction.
pub enum IncomingStep {
    /// The socket answers the worker's receive call with `outcome`, for a
    /// buffer that then holds `buffer`.
    Receive { buffer: Seq<u8>, outcome: ReceiveOutcome },
    /// The worker offers the datagram it holds to the queue.
    Forward,
    /// The consumer tries to take a datagram out of the queue.
    Take,
    /// The consumer goes.
    DropConsumer,
}

/// The incoming direction as one mathematical value: the worker and its
/// queue.
pub struct IncomingPath {
    /// The worker that fills the queue.
    pub worker: IncomingPhase,
    /// The queue that the consumer empties.
    pub queue: QueueState<DatagramView>,
}

impl IncomingPath {
    /// A receiving worker and an empty queue of `capacity`.
    pub open spec fn fresh(capacity: nat) -> IncomingPath {
        IncomingPath { worker: IncomingPhase::Receiving, queue: QueueState::fresh(capacity) }
    }

    /// The path after `step`, as `IncomingWorker::on_receive`,
    /// `IncomingWorker::forward` and the methods of `BoundedQueue` make it.
    pub open spec fn apply(self, step: IncomingStep) -> IncomingPath {
        match step {
            IncomingStep::Receive { buffer, outcome } => IncomingPath {
                worker: self.worker.after_receive(buffer, outcome),
                ..self
            },
            IncomingStep::Forward => match self.worker {
                IncomingPhase::Forwarding(datagram) => IncomingPath {
                    worker: self.worker.after_forward(self.queue.offer(datagram)),
                    queue: self.queue.after_offer(datagram),
                },
                _ => self,
            },
            IncomingStep::Take => IncomingPath { queue: self.queue.after_take(), ..self },
            IncomingStep::DropConsumer => IncomingPath {
                queue: self.queue.without_consumer(),
                ..self
            },
        }
    }

    /// The datagram that comes in from the socket by `step`, if one comes
    /// in.
    pub open spec fn come_in(self, step: IncomingStep) -> Seq<DatagramView> {
        match step {
            IncomingStep::Receive { buffer, outcome } => self.worker.arrived(buffer, outcome),
            _ => Seq::empty(),
        }
    }

    /// The datagram that the consumer gets by `step`, if it gets one.
    pub open spec fn handed_out(self, step: IncomingStep) -> Seq<DatagramView> {
        match step {
            IncomingStep::Take if self.queue.items.len() > 0 => seq![self.queue.items[0]],
            _ => Seq::empty(),
        }
    }

    /// The path after `steps`, one after the other.
    pub open spec fn run(self, steps: Seq<IncomingStep>) -> IncomingPath
        decreases steps.len(),
    {
        if steps.len() == 0 {
            self
        } else {
            self.apply(steps[0]).run(steps.drop_first())
        }
    }

    /// The datagrams that come in from the socket during `steps`, in that
    /// order.
    pub open spec fn received(self, steps: Seq<IncomingStep>) -> Seq<DatagramView>
        decreases steps.len(),
    {
        if steps.len() == 0 {
            Seq::empty()
        } else {
            self.come_in(steps[0]) + self.apply(steps[0]).received(steps.drop_first())
        }
    }

    /// The datagrams that the consumer gets during `steps`, in that order.
    pub open spec fn delivered(self, steps: Seq<IncomingStep>) -> Seq<DatagramView>
        decreases steps.len(),
    {
        if steps.len() == 0 {
            Seq::empty()
        } else {
            self.handed_out(steps[0]) + self.apply(steps[0]).delivered(steps.drop_first())
        }
    }

    /// How many times during `steps` the worker offers a datagram to the
    /// queue: the steps `Forward` that find it holding one.
    pub open spec fn forwards(self, steps: Seq<IncomingStep>) -> nat
        decreases steps.len(),
    {
        if steps.len() == 0 {
            0
        } else {
            let now: nat = if steps[0] is Forward && self.worker is Forwarding {
                1
            } else {
                0
            };
            now + self.apply(steps[0]).forwards(steps.drop_first())
        }
    }

    /// The datagrams that are on their way to the consumer, oldest first:
    /// those in the queue, then the one that the worker holds.
    pub open spec fn in_transit(self) -> Seq<DatagramView> {
        self.queue.items + self.worker.held()
    }
}

/// Whether the consumer stays during `steps`.
pub open spec fn consumer_stays(steps: Seq<IncomingStep>) -> bool {
    forall|i: int| 0 <= i < steps.len() ==> !(#[trigger] steps[i] is DropConsumer)
}

/// No step makes the queue hold more than its capacity.
pub proof fn lemma_step_keeps_validity(path: IncomingPath, step: IncomingStep)
    ensures
        path.queue.wf() ==> path.apply(step).queue.wf(),
{
}

/// Truncation. A datagram that comes in has exactly the bytes that were
/// received: as many as the socket said, from the front of the buffer, as
/// long as that is no more than the buffer has.
pub proof fn lemma_cut_to_size(buffer: Seq<u8>, size: usize, source: SocketAddress)
    requires
        size <= buffer.len(),
    ensures
        ({
            let outcome = ReceiveOutcome::Received { size, source };
            let next = IncomingPhase::Receiving.after_receive(buffer, outcome);
            &&& next matches IncomingPhase::Forwarding(datagram)
            &&& datagram.payload.len() == size
            &&& datagram.payload == buffer.take(size as int)
            &&& datagram.address == source
        }),
{
}

/// What one step does to the datagrams while the consumer stays: those on
/// their way before it and the one that comes in are the one that the
/// consumer gets and those on their way after it.
proof fn lemma_one_step_in_order(path: IncomingPath, step: IncomingStep)
    requires
        path.queue.consumer,
        !(step is DropConsumer),
    ensures
        path.in_transit() + path.come_in(step) == path.handed_out(step) + path.apply(
            step,
        ).in_transit(),
        path.apply(step).queue.consumer,
{
    assert(path.in_transit() + path.come_in(step) =~= path.handed_out(step) + path.apply(
        step,
    ).in_transit());
}

/// Order is kept. As long as the consumer stays, the datagrams reach it in
/// the order in which they came in from the socket, each once and as it came
/// in. Stated of every run: what was on its way at first followed by what
/// came in is what the consumer got followed by what is on its way in the
/// end.
pub proof fn lemma_order_is_kept(path: IncomingPath, steps: Seq<IncomingStep>)
    requires
        path.queue.consumer,
        consumer_stays(steps),
    ensures
        path.in_transit() + path.received(steps) == path.delivered(steps) + path.run(
            steps,
        ).in_transit(),
    decreases steps.len(),
{
    if steps.len() == 0 {
        assert(path.in_transit() + path.received(steps) =~= path.delivered(steps) + path.run(
            steps,
        ).in_transit());
    } else {
        let step = steps[0];
        let next = path.apply(step);
        let rest = steps.drop_first();
        assert forall|i: int| 0 <= i < rest.len() implies !(#[trigger] rest[i] is DropConsumer) by {
            assert(rest[i] == steps[i + 1]);
        }
        lemma_one_step_in_order(path, step);
        lemma_order_is_kept(next, rest);
        assert(path.in_transit() + path.received(steps) =~= (path.in_transit() + path.come_in(
            step,
        )) + next.received(rest));
        let out = path.handed_out(step);
        assert(path.delivered(steps) + path.run(steps).in_transit() =~= out + (next.delivered(rest)
            + next.run(rest).in_transit()));
        assert(out + (next.in_transit() + next.received(rest)) =~= (out + next.in_transit())
            + next.received(rest));
    }
}

/// Everything delivered, in order. On a path that began fresh, as long as
/// the consumer stays: whenever the queue is empty and the worker holds
/// nothing, the datagrams that the consumer has got are those that came in
/// from the socket, in the order in which they came in.
pub proof fn lemma_all_delivered_in_order(capacity: nat, steps: Seq<IncomingStep>)
    requires
        consumer_stays(steps),
        IncomingPath::fresh(capacity).run(steps).queue.items.len() == 0,
        !(IncomingPath::fresh(capacity).run(steps).worker is Forwarding),
    ensures
        IncomingPath::fresh(capacity).delivered(steps) == IncomingPath::fresh(capacity).received(
            steps,
        ),
{
    let path = IncomingPath::fresh(capacity);
    let end = path.run(steps);
    lemma_order_is_kept(path, steps);
    assert(path.in_transit() + path.received(steps) =~= path.received(steps));
    assert(path.delivered(steps) + end.in_transit() =~= path.delivered(steps));
}

/// The worker ends on closure and on nothing else. The one step that ends a
/// worker is its offering a datagram to a queue that has lost its consumer.
/// No answer of the socket ends it, a failure no more than a success. A
/// worker that has ended stays so.
pub proof fn lemma_ends_on_closure_only(path: IncomingPath, step: IncomingStep)
    ensures
        path.worker is Terminated ==> path.apply(step).worker is Terminated,
        !(path.worker is Terminated) && path.apply(step).worker is Terminated ==> {
            &&& step is Forward
            &&& path.worker is Forwarding
            &&& !path.queue.consumer
        },
{
}

/// A worker that has ended stays so, whatever comes.
proof fn lemma_ended_for_good(path: IncomingPath, steps: Seq<IncomingStep>)
    requires
        path.worker is Terminated,
    ensures
        path.run(steps).worker is Terminated,
    decreases steps.len(),
{
    if steps.len() > 0 {
        lemma_ended_for_good(path.apply(steps[0]), steps.drop_first());
    }
}

/// Clean shutdown. Once the consumer is gone, the worker is never held back
/// by a full queue: the first time it offers a datagram, it ends.
pub proof fn lemma_clean_shutdown(path: IncomingPath, steps: Seq<IncomingStep>)
    requires
        !path.queue.consumer,
        path.forwards(steps) > 0,
    ensures
        path.run(steps).worker is Terminated,
    decreases steps.len(),
{
    if steps.len() > 0 {
        let next = path.apply(steps[0]);
        let rest = steps.drop_first();
        if next.worker is Terminated {
            lemma_ended_for_good(next, rest);
        } else {
            lemma_clean_shutdown(next, rest);
        }
    }
}

} // verus!
