//! The outgoing worker against a queue and a scripted socket.
use udp_bridge::address::SocketAddress;
use udp_bridge::datagram::Datagram;
use udp_bridge::outgoing::{OutgoingWorker, SendOutcome, ShortWrite};
use udp_bridge::queue::{BoundedQueue, Enqueue};

fn peer(last: u8) -> SocketAddress {
    SocketAddress::v4([192, 168, 0, last], 4000 + last as u16)
}

/// Runs a worker on `queue` until it is idle on an empty queue or has
/// ended. The socket takes `chunk` bytes at a time, or all that is offered
/// where that is less. Returns every send call as the bytes that the socket
/// took and the destination, the warnings, and the state at the end.
fn drive(
    queue: &mut BoundedQueue<Datagram>,
    chunk: usize,
) -> (Vec<(Vec<u8>, SocketAddress)>, Vec<ShortWrite>, OutgoingWorker) {
    let mut calls = Vec::new();
    let mut warnings = Vec::new();
    let mut state = OutgoingWorker::start();
    loop {
        state = match state {
            OutgoingWorker::Idle => {
                if queue.holds_consumer_back() {
                    return (calls, warnings, state);
                }
                state.poll(queue)
            }
            OutgoingWorker::Sending(_) => {
                let (bytes, destination) = state.next_write().expect("bytes to send");
                let count = chunk.min(bytes.len());
                calls.push((bytes[..count].to_vec(), destination));
                let (next, warning) = state.on_write(SendOutcome::Wrote(count));
                warnings.extend(warning);
                next
            }
            OutgoingWorker::Terminated => return (calls, warnings, state),
        };
    }
}

#[test]
fn worker_starts_idle_with_nothing_to_write() {
    let state = OutgoingWorker::start();
    assert_eq!(state, OutgoingWorker::Idle);
    assert_eq!(state.next_write(), None);
}

#[test]
fn socket_sees_the_datagrams_in_the_order_in_which_they_were_enqueued() {
    let mut queue = BoundedQueue::new(8);
    let payloads: [&[u8]; 4] = [b"first", b"2nd", b"the third one", b"4"];
    for (index, payload) in payloads.iter().enumerate() {
        let datagram = Datagram::new(payload.to_vec(), peer(index as u8));
        assert_eq!(queue.try_enqueue(datagram), Enqueue::Accepted);
    }

    let (calls, warnings, state) = drive(&mut queue, usize::MAX);
    assert_eq!(state, OutgoingWorker::Idle);
    assert!(warnings.is_empty());
    assert_eq!(
        calls,
        vec![
            (b"first".to_vec(), peer(0)),
            (b"2nd".to_vec(), peer(1)),
            (b"the third one".to_vec(), peer(2)),
            (b"4".to_vec(), peer(3)),
        ]
    );
}

#[test]
fn datagram_is_sent_whole_in_pieces_before_the_next_begins() {
    let mut queue = BoundedQueue::new(8);
    assert_eq!(
        queue.try_enqueue(Datagram::new(b"abcdefg".to_vec(), peer(1))),
        Enqueue::Accepted
    );
    assert_eq!(queue.try_enqueue(Datagram::new(b"xyz".to_vec(), peer(2))), Enqueue::Accepted);

    let (calls, warnings, state) = drive(&mut queue, 3);
    assert_eq!(state, OutgoingWorker::Idle);
    assert!(warnings.is_empty());
    assert_eq!(
        calls,
        vec![
            (b"abc".to_vec(), peer(1)),
            (b"def".to_vec(), peer(1)),
            (b"g".to_vec(), peer(1)),
            (b"xyz".to_vec(), peer(2)),
        ]
    );
    let sent: usize = calls.iter().take(3).map(|(bytes, _)| bytes.len()).sum();
    assert_eq!(sent, 7);
}

#[test]
fn pieces_of_uneven_lengths_sum_to_the_length_of_the_datagram() {
    let mut queue = BoundedQueue::new(1);
    let payload: Vec<u8> = (0..10).collect();
    assert_eq!(queue.try_enqueue(Datagram::new(payload.clone(), peer(9))), Enqueue::Accepted);

    let mut state = OutgoingWorker::start().poll(&mut queue);
    let mut seen = Vec::new();
    for count in [1usize, 4, 2, 3] {
        let (bytes, destination) = state.next_write().expect("bytes to send");
        assert_eq!(bytes, &payload[seen.len()..]);
        assert_eq!(destination, peer(9));
        seen.extend_from_slice(&bytes[..count]);
        let (next, warning) = state.on_write(SendOutcome::Wrote(count));
        assert_eq!(warning, None);
        state = next;
    }
    assert_eq!(seen, payload);
    assert_eq!(state, OutgoingWorker::Idle);
}

#[test]
fn worker_takes_nothing_from_the_queue_while_it_is_sending() {
    let mut queue = BoundedQueue::new(4);
    assert_eq!(queue.try_enqueue(Datagram::new(b"one".to_vec(), peer(1))), Enqueue::Accepted);
    assert_eq!(queue.try_enqueue(Datagram::new(b"two".to_vec(), peer(2))), Enqueue::Accepted);

    let state = OutgoingWorker::start().poll(&mut queue);
    assert_eq!(queue.len(), 1);
    let (state, _) = state.on_write(SendOutcome::Wrote(1));

    let state = state.poll(&mut queue);
    assert_eq!(queue.len(), 1);
    let (bytes, destination) = state.next_write().expect("still the first datagram");
    assert_eq!(bytes, &b"ne"[..]);
    assert_eq!(destination, peer(1));
}

#[test]
fn transmission_tells_its_datagram_and_the_bytes_sent() {
    let mut queue = BoundedQueue::new(1);
    let datagram = Datagram::new(b"hello".to_vec(), peer(7));
    assert_eq!(queue.try_enqueue(datagram.clone()), Enqueue::Accepted);

    let state = OutgoingWorker::start().poll(&mut queue);
    match &state {
        OutgoingWorker::Sending(transmission) => {
            assert_eq!(transmission.datagram(), &datagram);
            assert_eq!(transmission.bytes_sent(), 0);
        }
        other => panic!("expected a transmission, got {:?}", other),
    }
    let (state, _) = state.on_write(SendOutcome::Wrote(4));
    match &state {
        OutgoingWorker::Sending(transmission) => {
            assert_eq!(transmission.datagram(), &datagram);
            assert_eq!(transmission.bytes_sent(), 4);
        }
        other => panic!("expected a transmission, got {:?}", other),
    }
}

#[test]
fn write_of_no_bytes_leaves_the_transmission_where_it_was() {
    let mut queue = BoundedQueue::new(1);
    assert_eq!(queue.try_enqueue(Datagram::new(b"abc".to_vec(), peer(1))), Enqueue::Accepted);

    let state = OutgoingWorker::start().poll(&mut queue);
    let (state, warning) = state.on_write(SendOutcome::Wrote(0));
    assert_eq!(warning, None);
    let (bytes, _) = state.next_write().expect("bytes to send");
    assert_eq!(bytes, &b"abc"[..]);
}

#[test]
fn failed_datagram_is_given_up_and_the_next_goes_out_whole() {
    let mut queue = BoundedQueue::new(4);
    assert_eq!(
        queue.try_enqueue(Datagram::new(b"doomed".to_vec(), peer(1))),
        Enqueue::Accepted
    );
    assert_eq!(queue.try_enqueue(Datagram::new(b"fine".to_vec(), peer(2))), Enqueue::Accepted);

    let state = OutgoingWorker::start().poll(&mut queue);
    let (state, warning) = state.on_write(SendOutcome::Wrote(4));
    assert_eq!(warning, None);
    let (state, warning) = state.on_write(SendOutcome::Failed);
    assert_eq!(warning, Some(ShortWrite { length: 6, destination: peer(1), bytes_sent: 4 }));
    assert_eq!(state, OutgoingWorker::Idle);
    assert_eq!(state.next_write(), None);
    assert_eq!(queue.len(), 1);

    let state = state.poll(&mut queue);
    let (bytes, destination) = state.next_write().expect("the next datagram");
    assert_eq!(bytes, &b"fine"[..]);
    assert_eq!(destination, peer(2));
    let (state, warning) = state.on_write(SendOutcome::Wrote(4));
    assert_eq!(warning, None);
    assert_eq!(state, OutgoingWorker::Idle);
    assert!(queue.is_empty());
}

#[test]
fn failure_on_the_first_call_warns_of_no_bytes_sent() {
    let mut queue = BoundedQueue::new(1);
    let destination = SocketAddress::v6([0x2001, 0xdb8, 0, 0, 0, 0, 0, 1], 6881);
    assert_eq!(
        queue.try_enqueue(Datagram::new(vec![0u8; 1200], destination)),
        Enqueue::Accepted
    );

    let state = OutgoingWorker::start().poll(&mut queue);
    let (state, warning) = state.on_write(SendOutcome::Failed);
    assert_eq!(warning, Some(ShortWrite { length: 1200, destination, bytes_sent: 0 }));
    assert_eq!(state, OutgoingWorker::Idle);
}

#[test]
fn datagram_without_bytes_is_taken_and_nothing_is_written() {
    let mut queue = BoundedQueue::new(2);
    assert_eq!(queue.try_enqueue(Datagram::new(Vec::new(), peer(1))), Enqueue::Accepted);
    assert_eq!(queue.try_enqueue(Datagram::new(b"x".to_vec(), peer(2))), Enqueue::Accepted);

    let state = OutgoingWorker::start().poll(&mut queue);
    assert_eq!(state, OutgoingWorker::Idle);
    assert_eq!(state.next_write(), None);
    assert_eq!(queue.len(), 1);

    let (calls, warnings, _) = drive(&mut queue, usize::MAX);
    assert_eq!(calls, vec![(b"x".to_vec(), peer(2))]);
    assert!(warnings.is_empty());
}

#[test]
fn idle_worker_stays_idle_on_an_empty_queue() {
    let mut queue: BoundedQueue<Datagram> = BoundedQueue::new(2);
    let state = OutgoingWorker::start().poll(&mut queue);
    assert_eq!(state, OutgoingWorker::Idle);
}

#[test]
fn answer_of_the_socket_changes_nothing_while_nothing_is_being_sent() {
    let (state, warning) = OutgoingWorker::start().on_write(SendOutcome::Failed);
    assert_eq!(state, OutgoingWorker::Idle);
    assert_eq!(warning, None);
    let (state, warning) = state.on_write(SendOutcome::Wrote(0));
    assert_eq!(state, OutgoingWorker::Idle);
    assert_eq!(warning, None);
}

#[test]
fn worker_sends_what_is_left_and_ends_when_the_last_producer_has_gone() {
    let mut queue = BoundedQueue::new(4);
    assert_eq!(queue.try_enqueue(Datagram::new(b"a".to_vec(), peer(1))), Enqueue::Accepted);
    assert_eq!(queue.try_enqueue(Datagram::new(b"b".to_vec(), peer(2))), Enqueue::Accepted);
    queue.drop_producer();

    let (calls, warnings, state) = drive(&mut queue, usize::MAX);
    assert_eq!(state, OutgoingWorker::Terminated);
    assert!(warnings.is_empty());
    assert_eq!(calls, vec![(b"a".to_vec(), peer(1)), (b"b".to_vec(), peer(2))]);
}

#[test]
fn worker_ends_at_once_on_an_empty_queue_without_producers() {
    let mut queue: BoundedQueue<Datagram> = BoundedQueue::new(4);
    queue.drop_producer();
    let state = OutgoingWorker::start().poll(&mut queue);
    assert_eq!(state, OutgoingWorker::Terminated);
    assert_eq!(state.next_write(), None);
}

#[test]
fn ended_worker_stays_ended() {
    let mut queue = BoundedQueue::new(4);
    queue.drop_producer();
    let state = OutgoingWorker::start().poll(&mut queue);
    assert_eq!(state, OutgoingWorker::Terminated);

    queue.add_producer();
    assert_eq!(queue.try_enqueue(Datagram::new(b"late".to_vec(), peer(1))), Enqueue::Accepted);
    let state = state.poll(&mut queue);
    assert_eq!(state, OutgoingWorker::Terminated);
    assert_eq!(queue.len(), 1);
    let (state, warning) = state.on_write(SendOutcome::Failed);
    assert_eq!(state, OutgoingWorker::Terminated);
    assert_eq!(warning, None);
}

#[test]
fn send_failure_does_not_end_the_worker() {
    let mut queue = BoundedQueue::new(4);
    for last in 1..=3 {
        let datagram = Datagram::new(vec![last; 5], peer(last));
        assert_eq!(queue.try_enqueue(datagram), Enqueue::Accepted);
    }
    let mut state = OutgoingWorker::start();
    let mut warnings = Vec::new();
    for _ in 0..3 {
        state = state.poll(&mut queue);
        let (next, warning) = state.on_write(SendOutcome::Failed);
        warnings.extend(warning);
        state = next;
        assert_eq!(state, OutgoingWorker::Idle);
    }
    assert_eq!(
        warnings,
        vec![
            ShortWrite { length: 5, destination: peer(1), bytes_sent: 0 },
            ShortWrite { length: 5, destination: peer(2), bytes_sent: 0 },
            ShortWrite { length: 5, destination: peer(3), bytes_sent: 0 },
        ]
    );
}

#[test]
fn pieces_of_any_lengths_put_every_byte_on_the_wire_once_and_in_order() {
    let mut queue = BoundedQueue::new(64);
    let mut expected = Vec::new();
    let mut seed = 0x9e37_79b9u32;
    for index in 0..40u8 {
        seed = seed.wrapping_mul(1_664_525).wrapping_add(1_013_904_223);
        let length = (seed >> 20) as usize % 50;
        let payload: Vec<u8> = (0..length).map(|offset| index.wrapping_add(offset as u8)).collect();
        expected.extend(payload.iter().map(|byte| (*byte, peer(index))));
        assert_eq!(queue.try_enqueue(Datagram::new(payload, peer(index))), Enqueue::Accepted);
    }
    queue.drop_producer();

    let mut wire = Vec::new();
    let mut calls = 0;
    let mut state = OutgoingWorker::start();
    while state != OutgoingWorker::Terminated {
        state = match state.next_write() {
            Some((bytes, destination)) => {
                seed = seed.wrapping_mul(1_664_525).wrapping_add(1_013_904_223);
                let count = (seed >> 20) as usize % (bytes.len() + 1);
                wire.extend(bytes[..count].iter().map(|byte| (*byte, destination)));
                calls += 1;
                let (next, warning) = state.on_write(SendOutcome::Wrote(count));
                assert_eq!(warning, None);
                next
            }
            None => state.poll(&mut queue),
        };
    }
    assert!(calls > 40);
    assert_eq!(wire, expected);
    assert!(queue.is_empty());
}
