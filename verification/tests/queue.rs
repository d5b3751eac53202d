//! The bounded queue on its own.
use udp_bridge::queue::{
    BoundedQueue, Dequeue, Enqueue, INCOMING_MESSAGE_CAPACITY, OUTGOING_MESSAGE_CAPACITY,
};

#[test]
fn default_capacities_are_ten_thousand() {
    assert_eq!(OUTGOING_MESSAGE_CAPACITY, 10000);
    assert_eq!(INCOMING_MESSAGE_CAPACITY, 10000);
}

#[test]
fn new_queue_is_empty_with_one_producer_and_its_consumer() {
    let queue: BoundedQueue<u8> = BoundedQueue::new(7);
    assert_eq!(queue.len(), 0);
    assert_eq!(queue.capacity(), 7);
    assert!(queue.is_empty());
    assert!(!queue.is_full());
    assert_eq!(queue.producers(), 1);
    assert!(queue.has_consumer());
    assert!(!queue.holds_producer_back());
    assert!(queue.holds_consumer_back());
}

#[test]
fn items_leave_in_the_order_in_which_they_came() {
    let mut queue = BoundedQueue::new(4);
    let mut taken = Vec::new();
    for item in [10u32, 20, 30] {
        assert_eq!(queue.try_enqueue(item), Enqueue::Accepted);
    }
    if let Dequeue::Item(item) = queue.try_dequeue() {
        taken.push(item);
    }
    for item in [40u32, 50] {
        assert_eq!(queue.try_enqueue(item), Enqueue::Accepted);
    }
    while let Dequeue::Item(item) = queue.try_dequeue() {
        taken.push(item);
    }
    assert_eq!(taken, vec![10, 20, 30, 40, 50]);
    assert!(queue.is_empty());
}

#[test]
fn enqueue_after_capacity_items_is_full_until_one_is_dequeued() {
    let capacity = 3;
    let mut queue = BoundedQueue::new(capacity);
    for item in 0..capacity {
        assert_eq!(queue.try_enqueue(item), Enqueue::Accepted);
    }
    assert!(queue.is_full());
    assert_eq!(queue.len(), capacity);

    for _ in 0..5 {
        assert_eq!(queue.try_enqueue(99), Enqueue::Full(99));
        assert_eq!(queue.len(), capacity);
    }

    assert_eq!(queue.try_dequeue(), Dequeue::Item(0));
    assert_eq!(queue.try_enqueue(99), Enqueue::Accepted);
    assert_eq!(queue.try_enqueue(100), Enqueue::Full(100));

    assert_eq!(queue.try_dequeue(), Dequeue::Item(1));
    assert_eq!(queue.try_dequeue(), Dequeue::Item(2));
    assert_eq!(queue.try_dequeue(), Dequeue::Item(99));
    assert_eq!(queue.try_dequeue(), Dequeue::Empty);
}

#[test]
fn queue_of_capacity_zero_is_always_full() {
    let mut queue = BoundedQueue::new(0);
    assert!(queue.is_full());
    assert!(queue.is_empty());
    assert_eq!(queue.try_enqueue(1u8), Enqueue::Full(1));
    assert_eq!(queue.try_dequeue(), Dequeue::Empty);
    assert_eq!(queue.try_enqueue(1u8), Enqueue::Full(1));
    assert_eq!(queue.len(), 0);
}

#[test]
fn empty_queue_with_a_producer_left_is_empty_not_closed() {
    let mut queue: BoundedQueue<u8> = BoundedQueue::new(2);
    assert!(queue.holds_consumer_back());
    assert_eq!(queue.try_dequeue(), Dequeue::Empty);
    assert_eq!(queue.len(), 0);
    assert_eq!(queue.producers(), 1);
}

#[test]
fn queue_without_producers_is_drained_in_order_and_then_closed() {
    let mut queue = BoundedQueue::new(5);
    assert_eq!(queue.try_enqueue('a'), Enqueue::Accepted);
    assert_eq!(queue.try_enqueue('b'), Enqueue::Accepted);
    queue.drop_producer();
    assert_eq!(queue.producers(), 0);
    assert!(!queue.holds_consumer_back());

    assert_eq!(queue.try_dequeue(), Dequeue::Item('a'));
    assert_eq!(queue.try_dequeue(), Dequeue::Item('b'));
    assert!(!queue.holds_consumer_back());
    assert_eq!(queue.try_dequeue(), Dequeue::Closed);
    assert_eq!(queue.try_dequeue(), Dequeue::Closed);
}

#[test]
fn queue_is_closed_for_the_consumer_only_when_the_last_producer_has_gone() {
    let mut queue: BoundedQueue<u8> = BoundedQueue::new(5);
    queue.add_producer();
    queue.add_producer();
    assert_eq!(queue.producers(), 3);

    queue.drop_producer();
    queue.drop_producer();
    assert_eq!(queue.producers(), 1);
    assert_eq!(queue.try_dequeue(), Dequeue::Empty);

    queue.drop_producer();
    assert_eq!(queue.producers(), 0);
    assert_eq!(queue.try_dequeue(), Dequeue::Closed);
}

#[test]
fn dropping_a_producer_that_is_not_there_changes_nothing() {
    let mut queue: BoundedQueue<u8> = BoundedQueue::new(1);
    queue.drop_producer();
    queue.drop_producer();
    assert_eq!(queue.producers(), 0);
    assert_eq!(queue.capacity(), 1);
    assert!(queue.has_consumer());
}

#[test]
fn queue_without_consumer_hands_every_item_back_as_closed() {
    let mut queue = BoundedQueue::new(2);
    assert_eq!(queue.try_enqueue(1u8), Enqueue::Accepted);
    queue.drop_consumer();
    assert!(!queue.has_consumer());
    assert_eq!(queue.try_enqueue(2u8), Enqueue::Closed(2));
    assert_eq!(queue.len(), 1);
}

#[test]
fn closed_is_told_before_full() {
    let mut queue = BoundedQueue::new(1);
    assert_eq!(queue.try_enqueue(1u8), Enqueue::Accepted);
    assert!(queue.holds_producer_back());
    assert_eq!(queue.try_enqueue(2u8), Enqueue::Full(2));

    queue.drop_consumer();
    assert!(queue.is_full());
    assert!(!queue.holds_producer_back());
    assert_eq!(queue.try_enqueue(2u8), Enqueue::Closed(2));
}

#[test]
fn long_run_of_mixed_uses_keeps_order_and_capacity() {
    let capacity = 5;
    let mut queue = BoundedQueue::new(capacity);
    let mut offered = 0u32;
    let mut accepted = Vec::new();
    let mut delivered = Vec::new();
    let mut seed = 0x2545_f491u32;

    for _ in 0..2000 {
        seed = seed.wrapping_mul(1_664_525).wrapping_add(1_013_904_223);
        if (seed >> 16) % 3 != 0 {
            let before = queue.len();
            match queue.try_enqueue(offered) {
                Enqueue::Accepted => {
                    assert!(before < capacity);
                    accepted.push(offered);
                }
                Enqueue::Full(back) => {
                    assert_eq!(back, offered);
                    assert_eq!(before, capacity);
                }
                Enqueue::Closed(_) => panic!("the consumer is there"),
            }
            offered += 1;
        } else {
            let before = queue.len();
            match queue.try_dequeue() {
                Dequeue::Item(item) => delivered.push(item),
                Dequeue::Empty => assert_eq!(before, 0),
                Dequeue::Closed => panic!("a producer is there"),
            }
        }
        assert!(queue.len() <= capacity);
        assert_eq!(queue.len(), accepted.len() - delivered.len());
    }

    while let Dequeue::Item(item) = queue.try_dequeue() {
        delivered.push(item);
    }
    assert!(accepted.len() > capacity);
    assert_eq!(delivered, accepted);
}
