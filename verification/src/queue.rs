//! The bounded first-in, first-out queue that joins a worker to the rest of
//! the program.
//!
//! The queue never waits. An attempt that would have to wait says so
//! ([`Enqueue::Full`], [`Dequeue::Empty`]) and changes nothing; the caller
//! waits and tries again. An attempt that can never succeed says that
//! instead ([`Enqueue::Closed`], [`Dequeue::Closed`]).
use vstd::prelude::*;
use std::collections::VecDeque;

verus! {

/// The number of datagrams that the outgoing queue holds by default.
pub const OUTGOING_MESSAGE_CAPACITY: usize = 10000;

/// The number of datagrams that the incoming queue holds by default.
pub const INCOMING_MESSAGE_CAPACITY: usize = 10000;

/// What became of an attempt to put an item into a queue.
#[derive(Debug, PartialEq, Eq)]
pub enum Enqueue<T> {
    /// The item is now the last in the queue.
    Accepted,
    /// The queue holds as many items as its capacity. The item comes back,
    /// to be offered again once an item has left.
    Full(T),
    /// The consumer is gone for good. The item comes back, and no later
    /// attempt can succeed.
    Closed(T),
}

/// What became of an attempt to take an item out of a queue.
#[derive(Debug, PartialEq, Eq)]
pub enum Dequeue<T> {
    /// The item that was first in the queue.
    Item(T),
    /// The queue holds nothing, but a producer is left that may still put
    /// something in.
    Empty,
    /// The queue holds nothing and every producer is gone for good.
    Closed,
}

/// A queue as a mathematical value.
pub struct QueueState<T> {
    /// What the queue holds, oldest first.
    pub items: Seq<T>,
    /// The most that it may hold.
    pub capacity: nat,
    /// How many producers may still put an item in.
    pub producers: nat,
    /// Whether the consumer may still take an item out.
    pub consumer: bool,
}

impl<T> QueueState<T> {
    /// No queue holds more than its capacity.
    pub open spec fn wf(self) -> bool {
        self.items.len() <= self.capacity
    }

    /// The empty queue of `capacity` with one producer and its consumer.
    pub open spec fn fresh(capacity: nat) -> Self {
        QueueState { items: Seq::empty(), capacity, producers: 1, consumer: true }
    }

    /// Whether the queue holds as many items as it may.
    pub open spec fn is_full(self) -> bool {
        self.items.len() >= self.capacity
    }

    /// What an attempt to put `item` in is answered with. Closure is told
    /// before fullness: a producer never waits on a queue without consumer.
    pub open spec fn offer(self, item: T) -> Enqueue<T> {
        if !self.consumer {
            Enqueue::Closed(item)
        } else if self.is_full() {
            Enqueue::Full(item)
        } else {
            Enqueue::Accepted
        }
    }

    /// The queue after an attempt to put `item` in: with `item` at the end
    /// where the attempt is accepted, else unchanged.
    pub open spec fn after_offer(self, item: T) -> Self {
        if self.consumer && !self.is_full() {
            QueueState { items: self.items.push(item), ..self }
        } else {
            self
        }
    }

    /// What an attempt to take an item out is answered with. What the queue
    /// holds is handed out to the last item, also after every producer has
    /// gone.
    pub open spec fn take(self) -> Dequeue<T> {
        if self.items.len() > 0 {
            Dequeue::Item(self.items[0])
        } else if self.producers == 0 {
            Dequeue::Closed
        } else {
            Dequeue::Empty
        }
    }

    /// The queue after an attempt to take an item out: without its first
    /// item where it had one, else unchanged.
    pub open spec fn after_take(self) -> Self {
        if self.items.len() > 0 {
            QueueState { items: self.items.drop_first(), ..self }
        } else {
            self
        }
    }

    /// Whether a producer has to wait: the consumer is left and the queue is
    /// full.
    pub open spec fn holds_producer_back(self) -> bool {
        self.consumer && self.is_full()
    }

    /// Whether the consumer has to wait: the queue is empty and a producer
    /// is left.
    pub open spec fn holds_consumer_back(self) -> bool {
        self.items.len() == 0 && self.producers > 0
    }

    /// The queue with one producer more.
    pub open spec fn with_producer(self) -> Self {
        QueueState { producers: self.producers + 1, ..self }
    }

    /// The queue with one producer fewer, as far as it had any.
    pub open spec fn without_producer(self) -> Self {
        if self.producers > 0 {
            QueueState { producers: (self.producers - 1) as nat, ..self }
        } else {
            self
        }
    }

    /// The queue without its consumer.
    pub open spec fn without_consumer(self) -> Self {
        QueueState { consumer: false, ..self }
    }
}

/// A first-in, first-out queue that holds at most a fixed number of items,
/// and knows how many producers and whether a consumer are left.
pub struct BoundedQueue<T> {
    items: VecDeque<T>,
    capacity: usize,
    producers: usize,
    consumer: bool,
}

impl<T: View> View for Enqueue<T> {
    type V = Enqueue<T::V>;

    open spec fn view(&self) -> Enqueue<T::V> {
        match *self {
            Enqueue::Accepted => Enqueue::Accepted,
            Enqueue::Full(item) => Enqueue::Full(item@),
            Enqueue::Closed(item) => Enqueue::Closed(item@),
        }
    }
}

impl<T: View> View for Dequeue<T> {
    type V = Dequeue<T::V>;

    open spec fn view(&self) -> Dequeue<T::V> {
        match *self {
            Dequeue::Item(item) => Dequeue::Item(item@),
            Dequeue::Empty => Dequeue::Empty,
            Dequeue::Closed => Dequeue::Closed,
        }
    }
}

impl<T: View> View for BoundedQueue<T> {
    type V = QueueState<T::V>;

    closed spec fn view(&self) -> QueueState<T::V> {
        QueueState {
            items: self.items@.map_values(|item: T| item@),
            capacity: self.capacity as nat,
            producers: self.producers as nat,
            consumer: self.consumer,
        }
    }
}

impl<T: View> BoundedQueue<T> {
    /// An empty queue for at most `capacity` items, with one producer and
    /// its consumer.
    pub fn new(capacity: usize) -> (queue: Self)
        ensures
            queue@ == QueueState::<T::V>::fresh(capacity as nat),
            queue@.wf(),
    {
        let queue =
            BoundedQueue { items: VecDeque::new(), capacity, producers: 1, consumer: true };
        assert(queue@.items =~= Seq::empty());
        queue
    }

    /// Puts `item` at the end of the queue if the consumer is left and the
    /// queue is not full. Otherwise the queue stays as it is and the item
    /// comes back in the answer.
    pub fn try_enqueue(&mut self, item: T) -> (outcome: Enqueue<T>)
        ensures
            outcome@ == old(self)@.offer(item@),
            final(self)@ == old(self)@.after_offer(item@),
            old(self)@.wf() ==> final(self)@.wf(),
    {
        if !self.consumer {
            Enqueue::Closed(item)
        } else if self.items.len() >= self.capacity {
            Enqueue::Full(item)
        } else {
            self.items.push_back(item);
            assert(self@.items =~= old(self)@.items.push(item@));
            Enqueue::Accepted
        }
    }

    /// Takes the first item out of the queue if there is one. An empty queue
    /// stays as it is, and the answer tells whether a producer is left.
    pub fn try_dequeue(&mut self) -> (outcome: Dequeue<T>)
        ensures
            outcome@ == old(self)@.take(),
            final(self)@ == old(self)@.after_take(),
            old(self)@.wf() ==> final(self)@.wf(),
    {
        match self.items.pop_front() {
            Some(item) => {
                assert(self@.items =~= old(self)@.items.drop_first());
                Dequeue::Item(item)
            },
            None => {
                if self.producers == 0 {
                    Dequeue::Closed
                } else {
                    Dequeue::Empty
                }
            },
        }
    }

    /// Counts one producer more.
    pub fn add_producer(&mut self)
        requires
            old(self)@.producers < usize::MAX,
        ensures
            final(self)@ == old(self)@.with_producer(),
            old(self)@.wf() ==> final(self)@.wf(),
    {
        self.producers = self.producers + 1;
    }

    /// Counts one producer fewer. With the last producer gone, the queue is
    /// closed for the consumer as soon as it is empty.
    pub fn drop_producer(&mut self)
        ensures
            final(self)@ == old(self)@.without_producer(),
            old(self)@.wf() ==> final(self)@.wf(),
    {
        if self.producers > 0 {
            self.producers = self.producers - 1;
        }
    }

    /// Notes that the consumer is gone. From now on the queue is closed for
    /// every producer.
    pub fn drop_consumer(&mut self)
        ensures
            final(self)@ == old(self)@.without_consumer(),
            old(self)@.wf() ==> final(self)@.wf(),
    {
        self.consumer = false;
    }

    /// The number of items that the queue holds.
    pub fn len(&self) -> (len: usize)
        ensures
            len == self@.items.len(),
    {
        self.items.len()
    }

    /// The most that the queue may hold.
    pub fn capacity(&self) -> (capacity: usize)
        ensures
            capacity == self@.capacity,
    {
        self.capacity
    }

    /// Whether the queue holds nothing.
    pub fn is_empty(&self) -> (empty: bool)
        ensures
            empty == (self@.items.len() == 0),
    {
        self.items.len() == 0
    }

    /// Whether the queue holds as many items as it may.
    pub fn is_full(&self) -> (full: bool)
        ensures
            full == self@.is_full(),
    {
        self.items.len() >= self.capacity
    }

    /// Whether a producer has to wait before the queue can take an item in:
    /// an attempt now would be answered with `Full`.
    pub fn holds_producer_back(&self) -> (wait: bool)
        ensures
            wait == self@.holds_producer_back(),
    {
        self.consumer && self.items.len() >= self.capacity
    }

    /// Whether the consumer has to wait before the queue can hand an item
    /// out: an attempt now would be answered with `Empty`.
    pub fn holds_consumer_back(&self) -> (wait: bool)
        ensures
            wait == self@.holds_consumer_back(),
    {
        self.items.len() == 0 && self.producers > 0
    }

    /// How many producers are left.
    pub fn producers(&self) -> (producers: usize)
        ensures
            producers == self@.producers,
    {
        self.producers
    }

    /// Whether the consumer is left.
    pub fn has_consumer(&self) -> (consumer: bool)
        ensures
            consumer == self@.consumer,
    {
        self.consumer
    }
}

/// One use of a queue by a producer or by the consumer.
pub enum QueueOp<T> {
    /// A producer tries to put this item in.
    Offer(T),
    /// The consumer tries to take an item out.
    Take,
    /// A producer more.
    AddProducer,
    /// A producer fewer.
    DropProducer,
    /// The consumer goes.
    DropConsumer,
}

impl<T> QueueState<T> {
    /// The queue after `op`.
    pub open spec fn apply(self, op: QueueOp<T>) -> Self {
        match op {
            QueueOp::Offer(item) => self.after_offer(item),
            QueueOp::Take => self.after_take(),
            QueueOp::AddProducer => self.with_producer(),
            QueueOp::DropProducer => self.without_producer(),
            QueueOp::DropConsumer => self.without_consumer(),
        }
    }

    /// The item that `op` puts in, if it puts one in.
    pub open spec fn taken_in(self, op: QueueOp<T>) -> Seq<T> {
        match op {
            QueueOp::Offer(item) if self.offer(item) is Accepted => seq![item],
            _ => Seq::empty(),
        }
    }

    /// The item that `op` hands out, if it hands one out.
    pub open spec fn handed_out(self, op: QueueOp<T>) -> Seq<T> {
        match op {
            QueueOp::Take if self.items.len() > 0 => seq![self.items[0]],
            _ => Seq::empty(),
        }
    }

    /// The queue after `ops`, one after the other.
    pub open spec fn run(self, ops: Seq<QueueOp<T>>) -> Self
        decreases ops.len(),
    {
        if ops.len() == 0 {
            self
        } else {
            self.apply(ops[0]).run(ops.drop_first())
        }
    }

    /// The items that the queue takes in during `ops`, in that order.
    pub open spec fn accepted(self, ops: Seq<QueueOp<T>>) -> Seq<T>
        decreases ops.len(),
    {
        if ops.len() == 0 {
            Seq::empty()
        } else {
            self.taken_in(ops[0]) + self.apply(ops[0]).accepted(ops.drop_first())
        }
    }

    /// The items that the queue hands out during `ops`, in that order.
    pub open spec fn delivered(self, ops: Seq<QueueOp<T>>) -> Seq<T>
        decreases ops.len(),
    {
        if ops.len() == 0 {
            Seq::empty()
        } else {
            self.handed_out(ops[0]) + self.apply(ops[0]).delivered(ops.drop_first())
        }
    }
}

/// One attempt to put in each of `items`, in their order.
pub open spec fn offers<T>(items: Seq<T>) -> Seq<QueueOp<T>> {
    Seq::new(items.len(), |i: int| QueueOp::Offer(items[i]))
}

/// `count` attempts to take an item out.
pub open spec fn takes<T>(count: nat) -> Seq<QueueOp<T>> {
    Seq::new(count, |i: int| QueueOp::Take)
}

/// No use of a queue makes it hold more than its capacity, and none changes
/// the capacity.
pub proof fn lemma_capacity_is_kept<T>(queue: QueueState<T>, ops: Seq<QueueOp<T>>)
    requires
        queue.wf(),
    ensures
        queue.run(ops).wf(),
        queue.run(ops).capacity == queue.capacity,
    decreases ops.len(),
{
    if ops.len() > 0 {
        lemma_capacity_is_kept(queue.apply(ops[0]), ops.drop_first());
    }
}

/// First in, first out. Whatever producers and the consumer do, in any
/// order: what the queue held at first followed by what it took in is what
/// it handed out followed by what it holds in the end. So the items leave
/// in the order in which they came, none is lost, none comes twice.
pub proof fn lemma_first_in_first_out<T>(queue: QueueState<T>, ops: Seq<QueueOp<T>>)
    ensures
        queue.items + queue.accepted(ops) == queue.delivered(ops) + queue.run(ops).items,
    decreases ops.len(),
{
    if ops.len() == 0 {
        assert(queue.items + queue.accepted(ops) =~= queue.delivered(ops) + queue.run(ops).items);
    } else {
        let next = queue.apply(ops[0]);
        let rest = ops.drop_first();
        lemma_first_in_first_out(next, rest);
        assert(queue.items + queue.taken_in(ops[0]) =~= queue.handed_out(ops[0]) + next.items);
        assert(queue.items + queue.accepted(ops) =~= (queue.items + queue.taken_in(ops[0]))
            + next.accepted(rest));
        let out = queue.handed_out(ops[0]);
        assert(queue.delivered(ops) + queue.run(ops).items =~= out + (next.delivered(rest)
            + next.run(rest).items));
    }
}

/// A queue with its consumer takes in every item for which it has room.
pub proof fn lemma_room_is_used<T>(queue: QueueState<T>, items: Seq<T>)
    requires
        queue.consumer,
        queue.items.len() + items.len() <= queue.capacity,
    ensures
        queue.accepted(offers(items)) == items,
        queue.delivered(offers(items)) == Seq::<T>::empty(),
        queue.run(offers(items)) == (QueueState { items: queue.items + items, ..queue }),
    decreases items.len(),
{
    let ops = offers(items);
    if items.len() == 0 {
        assert(queue.items + items =~= queue.items);
        assert(queue.accepted(ops) =~= items);
    } else {
        let next = queue.apply(ops[0]);
        assert(ops.drop_first() =~= offers(items.drop_first()));
        lemma_room_is_used(next, items.drop_first());
        assert(seq![items[0]] + items.drop_first() =~= items);
        assert(queue.items.push(items[0]) + items.drop_first() =~= queue.items + items);
        assert(queue.delivered(ops) =~= Seq::<T>::empty());
    }
}

/// Backpressure. A fresh queue of a given capacity takes in that many items
/// while nothing is taken out. It answers the attempt after those with
/// `Full` and stays as it is, however often the attempt is made. Once one
/// item has been taken out, the attempt is accepted.
pub proof fn lemma_backpressure<T>(capacity: nat, items: Seq<T>, extra: T)
    requires
        items.len() == capacity,
    ensures
        ({
            let full = QueueState::<T>::fresh(capacity).run(offers(items));
            &&& QueueState::<T>::fresh(capacity).accepted(offers(items)) == items
            &&& full.items == items
            &&& full.offer(extra) == Enqueue::Full(extra)
            &&& full.after_offer(extra) == full
            &&& capacity > 0 ==> full.after_take().offer(extra) == Enqueue::<T>::Accepted
        }),
{
    let fresh = QueueState::<T>::fresh(capacity);
    lemma_room_is_used(fresh, items);
    assert(fresh.items + items =~= items);
}

/// Closure on the producers' side. Once every producer is gone, the consumer
/// never finds the queue merely empty: the attempts to take an item out are
/// answered with what the queue holds, item by item in order, and from then
/// on with `Closed`.
pub proof fn lemma_drains_then_closes<T>(queue: QueueState<T>, count: nat)
    requires
        queue.producers == 0,
    ensures
        queue.run(takes(count)).producers == 0,
        count <= queue.items.len() ==> queue.delivered(takes(count)) == queue.items.take(
            count as int,
        ),
        count < queue.items.len() ==> queue.run(takes(count)).take() == Dequeue::Item(
            queue.items[count as int],
        ),
        count >= queue.items.len() ==> queue.run(takes(count)).take() == Dequeue::<T>::Closed,
    decreases count,
{
    let ops = takes::<T>(count);
    if count == 0 {
        assert(queue.delivered(ops) =~= queue.items.take(0));
    } else {
        let next = queue.after_take();
        assert(ops.drop_first() =~= takes::<T>((count - 1) as nat));
        lemma_drains_then_closes(next, (count - 1) as nat);
        if count <= queue.items.len() {
            assert(seq![queue.items[0]] + next.items.take(count - 1) =~= queue.items.take(
                count as int,
            ));
        }
    }
}

/// Closure on the consumer's side. Once the consumer is gone, a producer is
/// never held back by a full queue: every attempt to put an item in is
/// answered with `Closed`, and the queue stays as it is.
pub proof fn lemma_closed_before_full<T>(queue: QueueState<T>, item: T)
    requires
        !queue.consumer,
    ensures
        queue.offer(item) == Enqueue::Closed(item),
        queue.after_offer(item) == queue,
{
}

} // verus!
