//! The outgoing direction: from the queue to the socket.
//!
//! The worker takes one datagram from its queue and hands the socket what is
//! unsent of it, again and again, until the socket has taken every byte or
//! fails once. After a failure the datagram is given up with a warning; it
//! is neither tried again nor put back. The worker ends when the queue is
//! empty and has lost every producer, and on nothing else.
//!
//! [`OutgoingWorker`] is the worker, [`OutgoingPath`] the worker and its queue
//! as one mathematical value, and the proof functions at the end say what
//! holds of every run of the two.
use vstd::prelude::*;
use vstd::slice::slice_subrange;
use crate::address::SocketAddress;
use crate::datagram::{Datagram, DatagramView, Octet, stream, lemma_stream_concat, lemma_stream_one};
use crate::queue::{BoundedQueue, Dequeue, QueueState};

verus! {

/// What the socket answered to one send call.
#[derive(Clone, Copy, Debug, PartialEq, Eq)]
pub enum SendOutcome {
    /// It took this many bytes from the front of what it was handed.
    Wrote(usize),
    /// The call failed.
    Failed,
}

/// The warning that a datagram was given up after a failed send call.
#[derive(Clone, Copy, Debug, PartialEq, Eq)]
pub struct ShortWrite {
    /// The length of the datagram's payload.
    pub length: usize,
    /// Where the datagram was to go.
    pub destination: SocketAddress,
    /// How many bytes of it the socket had taken before the failure.
    pub bytes_sent: usize,
}

/// A datagram on its way to the socket, with the number of its bytes that
/// the socket has taken so far. At least one byte is always left to send.
#[derive(Debug, PartialEq, Eq)]
pub struct Transmission {
    datagram: Datagram,
    bytes_sent: usize,
}

/// Where the outgoing worker stands, and what it does next.
#[derive(Debug, PartialEq, Eq)]
pub enum OutgoingWorker {
    /// Next it takes a datagram from the queue.
    Idle,
    /// Next it hands the socket what is unsent of this datagram.
    Sending(Transmission),
    /// It has ended.
    Terminated,
}

/// A transmission as a mathematical value.
pub struct TransmissionView {
    /// The datagram that is being sent.
    pub datagram: DatagramView,
    /// How many of its bytes the socket has taken.
    pub bytes_sent: nat,
}

/// The state of the outgoing worker as a mathematical value.
pub enum OutgoingPhase {
    /// It waits for a datagram.
    Idle,
    /// It is sending `datagram`, of which the socket has taken the first
    /// `bytes_sent` bytes.
    Sending { datagram: DatagramView, bytes_sent: nat },
    /// It has ended.
    Terminated,
}

impl OutgoingPhase {
    /// A datagram that is being sent has at least one byte left to send.
    pub open spec fn wf(self) -> bool {
        self matches OutgoingPhase::Sending { datagram, bytes_sent } ==> bytes_sent
            < datagram.payload.len()
    }

    /// The bytes that the socket is handed next: what is unsent of the
    /// datagram that is being sent, and nothing in any other state.
    pub open spec fn unsent(self) -> Seq<u8> {
        match self {
            OutgoingPhase::Sending { datagram, bytes_sent } => datagram.payload.skip(
                bytes_sent as int,
            ),
            _ => Seq::empty(),
        }
    }

    /// The unsent bytes, each with the datagram's destination.
    pub open spec fn pending(self) -> Seq<Octet> {
        match self {
            OutgoingPhase::Sending { datagram, bytes_sent } => datagram.octets().skip(
                bytes_sent as int,
            ),
            _ => Seq::empty(),
        }
    }

    /// The state after an idle worker got `answer` from its queue. It begins
    /// to send the datagram that was handed out, unless the payload is
    /// empty: then nothing is to send and it stays idle. It stays idle on an
    /// empty queue, and ends on a closed one. A worker that is not idle asks
    /// for nothing, and stays as it is.
    pub open spec fn after_poll(self, answer: Dequeue<DatagramView>) -> OutgoingPhase {
        match (self, answer) {
            (OutgoingPhase::Idle, Dequeue::Item(datagram)) => {
                if datagram.payload.len() == 0 {
                    OutgoingPhase::Idle
                } else {
                    OutgoingPhase::Sending { datagram, bytes_sent: 0 }
                }
            },
            (OutgoingPhase::Idle, Dequeue::Closed) => OutgoingPhase::Terminated,
            _ => self,
        }
    }

    /// Whether the socket can have answered the worker's send call with
    /// `outcome`: it takes no more bytes than it was handed.
    pub open spec fn admits(self, outcome: SendOutcome) -> bool {
        outcome matches SendOutcome::Wrote(count) ==> count <= self.unsent().len()
    }

    /// The state after the socket answered a sending worker with `outcome`.
    /// The bytes that the socket took count as sent, and the worker goes on
    /// with the same datagram until none is left; then it is idle. After a
    /// failure it is idle at once. A worker that is not sending has made no
    /// call, and stays as it is; so does one that is told of more bytes than
    /// it handed over.
    pub open spec fn after_write(self, outcome: SendOutcome) -> OutgoingPhase {
        match (self, outcome) {
            (OutgoingPhase::Sending { datagram, bytes_sent }, SendOutcome::Wrote(count)) => {
                if bytes_sent + count < datagram.payload.len() {
                    OutgoingPhase::Sending { datagram, bytes_sent: bytes_sent + count as nat }
                } else if bytes_sent + count == datagram.payload.len() {
                    OutgoingPhase::Idle
                } else {
                    self
                }
            },
            (OutgoingPhase::Sending { .. }, SendOutcome::Failed) => OutgoingPhase::Idle,
            _ => self,
        }
    }

    /// The bytes that have reached the socket when it answers with
    /// `outcome`, each with its destination: as many as it took, from the
    /// front of what was unsent.
    pub open spec fn written(self, outcome: SendOutcome) -> Seq<Octet> {
        match outcome {
            SendOutcome::Wrote(count) if count <= self.unsent().len() => self.pending().take(
                count as int,
            ),
            _ => Seq::empty(),
        }
    }

    /// The datagram that is being sent, if one is.
    pub open spec fn under_way(self) -> Seq<DatagramView> {
        match self {
            OutgoingPhase::Sending { datagram, .. } => seq![datagram],
            _ => Seq::empty(),
        }
    }

    /// The datagram of which the socket takes the last byte when it answers
    /// with `outcome`, if it is the last.
    pub open spec fn finished(self, outcome: SendOutcome) -> Seq<DatagramView> {
        match (self, outcome) {
            (OutgoingPhase::Sending { datagram, bytes_sent }, SendOutcome::Wrote(count)) => {
                if bytes_sent + count == datagram.payload.len() {
                    seq![datagram]
                } else {
                    Seq::empty()
                }
            },
            _ => Seq::empty(),
        }
    }

    /// The transmission that the worker gives up when the socket answers
    /// with `outcome`: the one under way, if the answer is a failure.
    pub open spec fn given_up(self, outcome: SendOutcome) -> Seq<TransmissionView> {
        match (self, outcome) {
            (OutgoingPhase::Sending { datagram, bytes_sent }, SendOutcome::Failed) => seq![
                TransmissionView { datagram, bytes_sent },
            ],
            _ => Seq::empty(),
        }
    }
}

impl ShortWrite {
    /// Whether this warning tells of `transmission`: the length of its
    /// datagram, its destination, and the bytes sent so far.
    pub open spec fn reports(self, transmission: TransmissionView) -> bool {
        &&& self.length == transmission.datagram.payload.len()
        &&& self.destination == transmission.datagram.address
        &&& self.bytes_sent == transmission.bytes_sent
    }
}

impl View for Transmission {
    type V = TransmissionView;

    closed spec fn view(&self) -> TransmissionView {
        TransmissionView { datagram: self.datagram@, bytes_sent: self.bytes_sent as nat }
    }
}

impl View for OutgoingWorker {
    type V = OutgoingPhase;

    open spec fn view(&self) -> OutgoingPhase {
        match *self {
            OutgoingWorker::Idle => OutgoingPhase::Idle,
            OutgoingWorker::Sending(transmission) => OutgoingPhase::Sending {
                datagram: transmission@.datagram,
                bytes_sent: transmission@.bytes_sent,
            },
            OutgoingWorker::Terminated => OutgoingPhase::Terminated,
        }
    }
}

impl Transmission {
    #[verifier::type_invariant]
    spec fn in_progress(self) -> bool {
        self.bytes_sent < self.datagram.payload@.len()
    }

    /// The datagram that is being sent.
    pub fn datagram(&self) -> (datagram: &Datagram)
        ensures
            datagram@ == self@.datagram,
    {
        &self.datagram
    }

    /// How many bytes of the datagram the socket has taken so far: fewer
    /// than the datagram has.
    pub fn bytes_sent(&self) -> (count: usize)
        ensures
            count == self@.bytes_sent,
            count < self@.datagram.payload.len(),
    {
        proof {
            use_type_invariant(self);
        }
        self.bytes_sent
    }
}

impl OutgoingWorker {
    /// The state that a worker begins in.
    pub fn start() -> (state: OutgoingWorker)
        ensures
            state@ == OutgoingPhase::Idle,
    {
        OutgoingWorker::Idle
    }

    /// What the socket is to be handed next and where it is to go: the
    /// unsent bytes of the datagram that is being sent, of which there is
    /// at least one, and its destination. Nothing in any other state.
    pub fn next_write(&self) -> (write: Option<(&[u8], SocketAddress)>)
        ensures
            self@.wf(),
            match write {
                Some((bytes, destination)) => {
                    &&& self@ matches OutgoingPhase::Sending { datagram, bytes_sent }
                    &&& bytes@ == self@.unsent()
                    &&& bytes@.len() > 0
                    &&& destination == datagram.address
                },
                None => !(self@ is Sending),
            },
    {
        match self {
            OutgoingWorker::Sending(transmission) => {
                proof {
                    use_type_invariant(transmission);
                }
                let payload = transmission.datagram.payload.as_slice();
                let bytes = slice_subrange(payload, transmission.bytes_sent, payload.len());
                Some((bytes, transmission.datagram.address))
            },
            _ => None,
        }
    }

    /// Lets an idle worker ask `queue` for the next datagram. Where the
    /// queue hands one out, the worker begins to send it, or stays idle if
    /// its payload is empty; where the queue is empty, the worker stays
    /// idle, to ask again after a wait; where the queue is closed, the
    /// worker ends. A worker that is not idle stays as it is, and so does
    /// the queue: no datagram is taken before the one before it is done
    /// with.
    pub fn poll(self, queue: &mut BoundedQueue<Datagram>) -> (next: OutgoingWorker)
        ensures
            (OutgoingPath { queue: final(queue)@, worker: next@ }) == (OutgoingPath {
                queue: old(queue)@,
                worker: self@,
            }).apply(OutgoingStep::Poll),
            next@.wf(),
            old(queue)@.wf() ==> final(queue)@.wf(),
    {
        match self {
            OutgoingWorker::Idle => match queue.try_dequeue() {
                Dequeue::Item(datagram) => {
                    if datagram.payload.len() == 0 {
                        OutgoingWorker::Idle
                    } else {
                        OutgoingWorker::Sending(Transmission { datagram, bytes_sent: 0 })
                    }
                },
                Dequeue::Empty => OutgoingWorker::Idle,
                Dequeue::Closed => OutgoingWorker::Terminated,
            },
            OutgoingWorker::Sending(transmission) => {
                proof {
                    use_type_invariant(&transmission);
                }
                OutgoingWorker::Sending(transmission)
            },
            OutgoingWorker::Terminated => OutgoingWorker::Terminated,
        }
    }

    /// Takes the socket's answer to the send call that `next_write` asked
    /// for. The bytes that the socket took count as sent; when none is left
    /// the worker is idle again. On a failure the worker is idle at once,
    /// and the second part of the result is the warning that tells of the
    /// transmission given up. A worker that is not sending stays as it is.
    ///
    /// The socket cannot have taken more bytes than it was handed.
    pub fn on_write(self, outcome: SendOutcome) -> (step: (OutgoingWorker, Option<ShortWrite>))
        requires
            self@.admits(outcome),
        ensures
            step.0@ == self@.after_write(outcome),
            step.0@.wf(),
            match step.1 {
                Some(warning) => self@.given_up(outcome).len() == 1 && warning.reports(
                    self@.given_up(outcome)[0],
                ),
                None => self@.given_up(outcome).len() == 0,
            },
    {
        match self {
            OutgoingWorker::Sending(transmission) => {
                proof {
                    use_type_invariant(&transmission);
                }
                let Transmission { datagram, bytes_sent } = transmission;
                let length: usize = datagram.payload.len();
                match outcome {
                    SendOutcome::Wrote(count) => {
                        let total: usize = bytes_sent + count;
                        if total < length {
                            let transmission = Transmission { datagram, bytes_sent: total };
                            (OutgoingWorker::Sending(transmission), None)
                        } else {
                            (OutgoingWorker::Idle, None)
                        }
                    },
                    SendOutcome::Failed => {
                        let warning = ShortWrite {
                            length,
                            destination: datagram.address,
                            bytes_sent,
                        };
                        (OutgoingWorker::Idle, Some(warning))
                    },
                }
            },
            other => (other, None),
        }
    }
}

/// One thing that happens in the outgoing direction.
pub enum OutgoingStep {
    /// A producer tries to put this datagram into the queue.
    Offer(DatagramView),
    /// The worker asks the queue for the next datagram.
    Poll,
    /// The socket answers the worker's send call.
    Write(SendOutcome),
    /// A producer more.
    AddProducer,
    /// A producer fewer.
    DropProducer,
}

/// The outgoing direction as one mathematical value: the queue and its
/// worker.
pub struct OutgoingPath {
    /// The queue that producers fill.
    pub queue: QueueState<DatagramView>,
    /// The worker that empties it.
    pub worker: OutgoingPhase,
}

impl OutgoingPath {
    /// An empty queue of `capacity` and an idle worker.
    pub open spec fn fresh(capacity: nat) -> OutgoingPath {
        OutgoingPath { queue: QueueState::fresh(capacity), worker: OutgoingPhase::Idle }
    }

    /// The path after `step`, as `BoundedQueue::try_enqueue`,
    /// `OutgoingWorker::poll`, `OutgoingWorker::on_write` and the other
    /// methods of `BoundedQueue` make it.
    pub open spec fn apply(self, step: OutgoingStep) -> OutgoingPath {
        match step {
            OutgoingStep::Offer(datagram) => OutgoingPath {
                queue: self.queue.after_offer(datagram),
                ..self
            },
            OutgoingStep::Poll => {
                if self.worker is Idle {
                    OutgoingPath {
                        queue: self.queue.after_take(),
                        worker: self.worker.after_poll(self.queue.take()),
                    }
                } else {
                    self
                }
            },
            OutgoingStep::Write(outcome) => OutgoingPath {
                worker: self.worker.after_write(outcome),
                ..self
            },
            OutgoingStep::AddProducer => OutgoingPath { queue: self.queue.with_producer(), ..self },
            OutgoingStep::DropProducer => OutgoingPath {
                queue: self.queue.without_producer(),
                ..self
            },
        }
    }

    /// The datagram that the queue takes in by `step`, if it takes one in.
    pub open spec fn taken_in(self, step: OutgoingStep) -> Seq<DatagramView> {
        match step {
            OutgoingStep::Offer(datagram) if self.queue.offer(datagram) is Accepted => seq![
                datagram,
            ],
            _ => Seq::empty(),
        }
    }

    /// The bytes that reach the socket by `step`.
    pub open spec fn put_out(self, step: OutgoingStep) -> Seq<Octet> {
        match step {
            OutgoingStep::Write(outcome) => self.worker.written(outcome),
            _ => Seq::empty(),
        }
    }

    /// The datagram that the worker is done with by `step`, every byte of it
    /// sent: the one of which the socket takes the last byte, or one without
    /// bytes that the worker takes from the queue, for which it makes no
    /// send call.
    pub open spec fn done_with(self, step: OutgoingStep) -> Seq<DatagramView> {
        match step {
            OutgoingStep::Poll => {
                if self.worker is Idle && self.queue.items.len() > 0
                    && self.queue.items[0].payload.len() == 0 {
                    seq![self.queue.items[0]]
                } else {
                    Seq::empty()
                }
            },
            OutgoingStep::Write(outcome) => self.worker.finished(outcome),
            _ => Seq::empty(),
        }
    }

    /// The transmission that the worker gives up by `step`, if it gives one
    /// up.
    pub open spec fn dropped(self, step: OutgoingStep) -> Seq<TransmissionView> {
        match step {
            OutgoingStep::Write(outcome) => self.worker.given_up(outcome),
            _ => Seq::empty(),
        }
    }

    /// The path after `steps`, one after the other.
    pub open spec fn run(self, steps: Seq<OutgoingStep>) -> OutgoingPath
        decreases steps.len(),
    {
        if steps.len() == 0 {
            self
        } else {
            self.apply(steps[0]).run(steps.drop_first())
        }
    }

    /// The datagrams that the queue takes in during `steps`, in that order.
    pub open spec fn accepted(self, steps: Seq<OutgoingStep>) -> Seq<DatagramView>
        decreases steps.len(),
    {
        if steps.len() == 0 {
            Seq::empty()
        } else {
            self.taken_in(steps[0]) + self.apply(steps[0]).accepted(steps.drop_first())
        }
    }

    /// The bytes that reach the socket during `steps`, in that order, each
    /// with its destination.
    pub open spec fn wire(self, steps: Seq<OutgoingStep>) -> Seq<Octet>
        decreases steps.len(),
    {
        if steps.len() == 0 {
            Seq::empty()
        } else {
            self.put_out(steps[0]) + self.apply(steps[0]).wire(steps.drop_first())
        }
    }

    /// The datagrams that the worker is done with during `steps`, every byte
    /// of them sent, in that order.
    pub open spec fn sent_whole(self, steps: Seq<OutgoingStep>) -> Seq<DatagramView>
        decreases steps.len(),
    {
        if steps.len() == 0 {
            Seq::empty()
        } else {
            self.done_with(steps[0]) + self.apply(steps[0]).sent_whole(steps.drop_first())
        }
    }

    /// The transmissions that the worker gives up during `steps`, in that
    /// order: one warning is due for each.
    pub open spec fn abandoned(self, steps: Seq<OutgoingStep>) -> Seq<TransmissionView>
        decreases steps.len(),
    {
        if steps.len() == 0 {
            Seq::empty()
        } else {
            self.dropped(steps[0]) + self.apply(steps[0]).abandoned(steps.drop_first())
        }
    }

    /// How many times during `steps` the worker asks the queue for a
    /// datagram: the steps `Poll` that find it idle.
    pub open spec fn polls(self, steps: Seq<OutgoingStep>) -> nat
        decreases steps.len(),
    {
        if steps.len() == 0 {
            0
        } else {
            let now: nat = if steps[0] is Poll && self.worker is Idle {
                1
            } else {
                0
            };
            now + self.apply(steps[0]).polls(steps.drop_first())
        }
    }

    /// The bytes that the path still has to send, in the order in which it
    /// will send them: those unsent of the datagram under way, then those of
    /// the datagrams in the queue.
    pub open spec fn owed(self) -> Seq<Octet> {
        self.worker.pending() + stream(self.queue.items)
    }

    /// The datagrams that the path is not done with, in the order in which
    /// it will be: the one under way, then those in the queue.
    pub open spec fn in_hand(self) -> Seq<DatagramView> {
        self.worker.under_way() + self.queue.items
    }
}

/// Whether no send call fails during `steps`.
pub open spec fn all_sends_succeed(steps: Seq<OutgoingStep>) -> bool {
    forall|i: int|
        0 <= i < steps.len() ==> #[trigger] steps[i] != OutgoingStep::Write(SendOutcome::Failed)
}

/// Whether nothing new can come into the queue during `steps`: no producer
/// offers a datagram, and none joins.
pub open spec fn nothing_offered(steps: Seq<OutgoingStep>) -> bool {
    forall|i: int|
        0 <= i < steps.len() ==> !(#[trigger] steps[i] is Offer) && !(steps[i] is AddProducer)
}

/// One send call for each of `counts`, answered with that many bytes taken.
pub open spec fn writes(counts: Seq<usize>) -> Seq<OutgoingStep> {
    Seq::new(counts.len(), |i: int| OutgoingStep::Write(SendOutcome::Wrote(counts[i])))
}

/// The sum of `counts`.
pub open spec fn total(counts: Seq<usize>) -> nat
    decreases counts.len(),
{
    if counts.len() == 0 {
        0
    } else {
        counts[0] as nat + total(counts.drop_first())
    }
}

/// No step makes the worker hold a datagram of which nothing is left to
/// send, and none makes the queue hold more than its capacity.
pub proof fn lemma_step_keeps_validity(path: OutgoingPath, step: OutgoingStep)
    ensures
        path.worker.wf() ==> path.apply(step).worker.wf(),
        path.queue.wf() ==> path.apply(step).queue.wf(),
{
}

/// What one step without a failed send call does to the bytes: those owed
/// before it and those it takes in are those it puts out and those owed
/// after it.
proof fn lemma_one_step_by_byte(path: OutgoingPath, step: OutgoingStep)
    requires
        path.worker.wf(),
        step != OutgoingStep::Write(SendOutcome::Failed),
    ensures
        path.owed() + stream(path.taken_in(step)) == path.put_out(step) + path.apply(step).owed(),
{
    let next = path.apply(step);
    let items = path.queue.items;
    assert(stream(Seq::<DatagramView>::empty()) =~= Seq::<Octet>::empty());
    match step {
        OutgoingStep::Offer(datagram) => {
            if path.queue.offer(datagram) is Accepted {
                lemma_stream_concat(items, seq![datagram]);
                lemma_stream_one(datagram);
                assert(items.push(datagram) =~= items + seq![datagram]);
                assert(path.owed() + stream(path.taken_in(step)) =~= path.put_out(step)
                    + next.owed());
            } else {
                assert(path.owed() + stream(path.taken_in(step)) =~= path.put_out(step)
                    + next.owed());
            }
        },
        OutgoingStep::Poll => {
            if path.worker is Idle && items.len() > 0 {
                assert(next.worker.pending() =~= items[0].octets());
                assert(stream(items) =~= items[0].octets() + stream(items.drop_first()));
            }
            assert(path.owed() + stream(path.taken_in(step)) =~= path.put_out(step) + next.owed());
        },
        OutgoingStep::Write(outcome) => {
            assert(path.worker.pending() =~= path.worker.written(outcome)
                + next.worker.pending());
            assert(path.owed() + stream(path.taken_in(step)) =~= path.put_out(step) + next.owed());
        },
        _ => {
            assert(path.owed() + stream(path.taken_in(step)) =~= path.put_out(step) + next.owed());
        },
    }
}

/// What one step without a failed send call does to the datagrams: those in
/// hand before it and the one it takes in are the one it sends whole and
/// those in hand after it.
proof fn lemma_one_step_by_datagram(path: OutgoingPath, step: OutgoingStep)
    requires
        path.worker.wf(),
        step != OutgoingStep::Write(SendOutcome::Failed),
    ensures
        path.in_hand() + path.taken_in(step) == path.done_with(step) + path.apply(step).in_hand(),
{
    assert(path.in_hand() + path.taken_in(step) =~= path.done_with(step) + path.apply(
        step,
    ).in_hand());
}

/// Order is kept, datagram for datagram. As long as no send call fails, the
/// worker is done with the datagrams in the order in which the queue took
/// them in, each sent whole, and no warning is due. Stated of every run:
/// what the path had in hand at first followed by what its queue took in is
/// what the worker sent whole followed by what the path has in hand in the
/// end.
pub proof fn lemma_datagrams_in_order(path: OutgoingPath, steps: Seq<OutgoingStep>)
    requires
        path.worker.wf(),
        all_sends_succeed(steps),
    ensures
        path.in_hand() + path.accepted(steps) == path.sent_whole(steps) + path.run(
            steps,
        ).in_hand(),
        path.abandoned(steps) == Seq::<TransmissionView>::empty(),
    decreases steps.len(),
{
    if steps.len() == 0 {
        assert(path.in_hand() + path.accepted(steps) =~= path.sent_whole(steps) + path.run(
            steps,
        ).in_hand());
    } else {
        let step = steps[0];
        let next = path.apply(step);
        let rest = steps.drop_first();
        assert forall|i: int| 0 <= i < rest.len() implies #[trigger] rest[i] != OutgoingStep::Write(
            SendOutcome::Failed,
        ) by {
            assert(rest[i] == steps[i + 1]);
        }
        lemma_step_keeps_validity(path, step);
        lemma_datagrams_in_order(next, rest);
        lemma_one_step_by_datagram(path, step);
        assert(path.in_hand() + path.accepted(steps) =~= (path.in_hand() + path.taken_in(step))
            + next.accepted(rest));
        let done = path.done_with(step);
        assert(path.sent_whole(steps) + path.run(steps).in_hand() =~= done + (next.sent_whole(rest)
            + next.run(rest).in_hand()));
        assert(done + (next.in_hand() + next.accepted(rest)) =~= (done + next.in_hand())
            + next.accepted(rest));
        assert(path.abandoned(steps) =~= Seq::<TransmissionView>::empty());
    }
}

/// Order is kept, byte for byte. As long as no send call fails, the bytes
/// that reach the socket are the bytes of the datagrams that the queue took
/// in: in the order of the datagrams, each datagram in its own order, each
/// byte once and to the datagram's destination. Stated of every run: what
/// the path owed at first followed by the bytes of what its queue took in is
/// what reached the socket followed by what the path owes in the end.
pub proof fn lemma_bytes_in_order(path: OutgoingPath, steps: Seq<OutgoingStep>)
    requires
        path.worker.wf(),
        all_sends_succeed(steps),
    ensures
        path.owed() + stream(path.accepted(steps)) == path.wire(steps) + path.run(steps).owed(),
    decreases steps.len(),
{
    if steps.len() == 0 {
        assert(stream(path.accepted(steps)) =~= Seq::<Octet>::empty());
        assert(path.owed() + stream(path.accepted(steps)) =~= path.wire(steps) + path.run(
            steps,
        ).owed());
    } else {
        let step = steps[0];
        let next = path.apply(step);
        let rest = steps.drop_first();
        assert forall|i: int| 0 <= i < rest.len() implies #[trigger] rest[i] != OutgoingStep::Write(
            SendOutcome::Failed,
        ) by {
            assert(rest[i] == steps[i + 1]);
        }
        lemma_step_keeps_validity(path, step);
        lemma_bytes_in_order(next, rest);
        lemma_one_step_by_byte(path, step);
        lemma_stream_concat(path.taken_in(step), next.accepted(rest));
        assert(path.owed() + stream(path.accepted(steps)) =~= (path.owed() + stream(
            path.taken_in(step),
        )) + stream(next.accepted(rest)));
        let out = path.put_out(step);
        assert(path.wire(steps) + path.run(steps).owed() =~= out + (next.wire(rest) + next.run(
            rest,
        ).owed()));
        assert(out + (next.owed() + stream(next.accepted(rest))) =~= (out + next.owed()) + stream(
            next.accepted(rest),
        ));
    }
}

/// Everything sent, in order. On a path that began fresh, as long as no send
/// call fails: whenever the queue is empty and the worker has nothing under
/// way, the datagrams that the worker has sent whole are those that the
/// queue took in, in the order in which it took them in, and what has
/// reached the socket is their bytes, byte for byte in the same order.
pub proof fn lemma_all_sent_in_order(capacity: nat, steps: Seq<OutgoingStep>)
    requires
        all_sends_succeed(steps),
        OutgoingPath::fresh(capacity).run(steps).queue.items.len() == 0,
        !(OutgoingPath::fresh(capacity).run(steps).worker is Sending),
    ensures
        OutgoingPath::fresh(capacity).sent_whole(steps) == OutgoingPath::fresh(capacity).accepted(
            steps,
        ),
        OutgoingPath::fresh(capacity).wire(steps) == stream(
            OutgoingPath::fresh(capacity).accepted(steps),
        ),
{
    let path = OutgoingPath::fresh(capacity);
    let end = path.run(steps);
    lemma_datagrams_in_order(path, steps);
    lemma_bytes_in_order(path, steps);
    assert(path.owed() =~= Seq::<Octet>::empty());
    assert(end.owed() =~= Seq::<Octet>::empty());
    assert(path.owed() + stream(path.accepted(steps)) =~= stream(path.accepted(steps)));
    assert(path.wire(steps) + end.owed() =~= path.wire(steps));
    assert(path.in_hand() + path.accepted(steps) =~= path.accepted(steps));
    assert(path.sent_whole(steps) + end.in_hand() =~= path.sent_whole(steps));
}

/// One datagram at a time. While a datagram is being sent the worker takes
/// nothing from the queue: asking changes neither of them.
pub proof fn lemma_one_datagram_at_a_time(path: OutgoingPath)
    requires
        path.worker is Sending,
    ensures
        path.apply(OutgoingStep::Poll) == path,
{
}

/// A worker that is not sending makes no send call: an answer of no bytes
/// changes nothing, and nothing reaches the socket.
proof fn lemma_nothing_under_way(path: OutgoingPath, counts: Seq<usize>)
    requires
        !(path.worker is Sending),
        total(counts) == 0,
    ensures
        path.run(writes(counts)) == path,
        path.wire(writes(counts)) == Seq::<Octet>::empty(),
        path.abandoned(writes(counts)) == Seq::<TransmissionView>::empty(),
        path.sent_whole(writes(counts)) == Seq::<DatagramView>::empty(),
    decreases counts.len(),
{
    let steps = writes(counts);
    if counts.len() > 0 {
        assert(steps.drop_first() =~= writes(counts.drop_first()));
        lemma_nothing_under_way(path, counts.drop_first());
        assert(path.apply(steps[0]) == path);
        assert(path.wire(steps) =~= Seq::<Octet>::empty());
        assert(path.abandoned(steps) =~= Seq::<TransmissionView>::empty());
        assert(path.sent_whole(steps) =~= Seq::<DatagramView>::empty());
    }
}

/// Partial writes complete. Let the socket take the unsent bytes of a
/// datagram in pieces of any lengths, `counts`, that do not exceed what is
/// unsent. Then the bytes that reach the socket are the unsent bytes from
/// the front, as many as the pieces sum to, each to the datagram's
/// destination. The queue is not touched and no warning is due. The worker
/// stays with the same datagram while a byte of it is unsent, and is idle,
/// free for the next datagram, exactly when the pieces sum to what was
/// unsent. If every piece has at least one byte, there are no more send
/// calls than bytes.
pub proof fn lemma_partial_writes_complete(path: OutgoingPath, counts: Seq<usize>)
    requires
        path.worker.wf(),
        path.worker is Sending,
        total(counts) <= path.worker.unsent().len(),
    ensures
        path.wire(writes(counts)) == path.worker.pending().take(total(counts) as int),
        path.run(writes(counts)).queue == path.queue,
        path.abandoned(writes(counts)) == Seq::<TransmissionView>::empty(),
        path.sent_whole(writes(counts)) == (if total(counts) == path.worker.unsent().len() {
            path.worker.under_way()
        } else {
            Seq::empty()
        }),
        path.run(writes(counts)).worker == (if total(counts) == path.worker.unsent().len() {
            OutgoingPhase::Idle
        } else {
            OutgoingPhase::Sending {
                datagram: path.worker->datagram,
                bytes_sent: path.worker->bytes_sent + total(counts),
            }
        }),
        (forall|i: int| 0 <= i < counts.len() ==> #[trigger] counts[i] > 0) ==> counts.len()
            <= total(counts),
    decreases counts.len(),
{
    let steps = writes(counts);
    if counts.len() == 0 {
        assert(path.wire(steps) =~= path.worker.pending().take(0));
    } else {
        let rest = counts.drop_first();
        let next = path.apply(steps[0]);
        assert(steps.drop_first() =~= writes(rest));
        assert forall|i: int| 0 <= i < rest.len() implies rest[i] == counts[i + 1] by {}
        if next.worker is Sending {
            lemma_partial_writes_complete(next, rest);
            assert(path.wire(steps) =~= path.worker.pending().take(total(counts) as int));
        } else {
            lemma_nothing_under_way(next, rest);
            assert(path.wire(steps) =~= path.worker.pending().take(total(counts) as int));
            lemma_total_bounds_length(rest);
        }
        assert(path.abandoned(steps) =~= Seq::<TransmissionView>::empty());
        assert(path.sent_whole(steps) =~= path.done_with(steps[0]) + next.sent_whole(
            writes(rest),
        ));
    }
}

/// Pieces of at least one byte each are no more than their bytes.
proof fn lemma_total_bounds_length(counts: Seq<usize>)
    ensures
        (forall|i: int| 0 <= i < counts.len() ==> #[trigger] counts[i] > 0) ==> counts.len()
            <= total(counts),
    decreases counts.len(),
{
    if counts.len() > 0 {
        let rest = counts.drop_first();
        assert forall|i: int| 0 <= i < rest.len() implies rest[i] == counts[i + 1] by {}
        lemma_total_bounds_length(rest);
    }
}

/// Given up on a failure. When a send call fails, the transmission under way
/// is given up as it stands, which is what the warning tells of, and nothing
/// reaches the socket by that call. From then on the path goes as from an
/// idle worker and the same queue: the bytes left of the datagram are never
/// handed to the socket again, and the datagrams after it go out as if there
/// had been no failure.
pub proof fn lemma_given_up_on_failure(path: OutgoingPath, rest: Seq<OutgoingStep>)
    requires
        path.worker is Sending,
    ensures
        ({
            let failure = OutgoingStep::Write(SendOutcome::Failed);
            let idle = OutgoingPath { worker: OutgoingPhase::Idle, ..path };
            let given_up = TransmissionView {
                datagram: path.worker->datagram,
                bytes_sent: path.worker->bytes_sent,
            };
            &&& path.apply(failure) == idle
            &&& path.run(seq![failure] + rest) == idle.run(rest)
            &&& path.wire(seq![failure] + rest) == idle.wire(rest)
            &&& path.accepted(seq![failure] + rest) == idle.accepted(rest)
            &&& path.sent_whole(seq![failure] + rest) == idle.sent_whole(rest)
            &&& path.abandoned(seq![failure] + rest) == seq![given_up] + idle.abandoned(rest)
        }),
{
    let failure = OutgoingStep::Write(SendOutcome::Failed);
    let steps = seq![failure] + rest;
    let idle = OutgoingPath { worker: OutgoingPhase::Idle, ..path };
    assert(steps.drop_first() =~= rest);
    assert(steps[0] == failure);
    assert(path.wire(steps) =~= idle.wire(rest));
    assert(path.accepted(steps) =~= idle.accepted(rest));
    assert(path.sent_whole(steps) =~= idle.sent_whole(rest));
}

/// The worker ends on closure and on nothing else. The one step that ends a
/// worker is its asking a queue that is empty and has no producer left. No
/// answer of the socket ends it, a failure no more than a success. A worker
/// that has ended stays so.
pub proof fn lemma_ends_on_closure_only(path: OutgoingPath, step: OutgoingStep)
    ensures
        path.worker is Terminated ==> path.apply(step).worker is Terminated,
        !(path.worker is Terminated) && path.apply(step).worker is Terminated ==> {
            &&& step is Poll
            &&& path.worker is Idle
            &&& path.queue.items.len() == 0
            &&& path.queue.producers == 0
        },
{
}

/// A worker that has ended stays so, whatever comes.
proof fn lemma_ended_for_good(path: OutgoingPath, steps: Seq<OutgoingStep>)
    requires
        path.worker is Terminated,
    ensures
        path.run(steps).worker is Terminated,
    decreases steps.len(),
{
    if steps.len() > 0 {
        lemma_ended_for_good(path.apply(steps[0]), steps.drop_first());
    }
}

/// Clean shutdown. Once every producer is gone and nothing more comes in,
/// the worker never finds the queue merely empty: each time it asks, it
/// gets one of the datagrams that are left, or it ends. So it has ended, at
/// the latest, when it has asked once more than the queue held datagrams at
/// the time the last producer went.
pub proof fn lemma_clean_shutdown(path: OutgoingPath, steps: Seq<OutgoingStep>)
    requires
        path.queue.producers == 0,
        nothing_offered(steps),
        path.polls(steps) > path.queue.items.len(),
    ensures
        path.run(steps).worker is Terminated,
    decreases steps.len(),
{
    if steps.len() > 0 {
        let next = path.apply(steps[0]);
        let rest = steps.drop_first();
        assert(nothing_offered(rest)) by {
            assert forall|i: int| 0 <= i < rest.len() implies !(#[trigger] rest[i] is Offer)
                && !(rest[i] is AddProducer) by {
                assert(rest[i] == steps[i + 1]);
            }
        }
        assert(!(steps[0] is Offer) && !(steps[0] is AddProducer));
        if next.worker is Terminated {
            lemma_ended_for_good(next, rest);
        } else {
            lemma_clean_shutdown(next, rest);
        }
    }
}

} // verus!
