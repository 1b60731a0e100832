//! The ring buffer.

use bytes::Bytes;
use polku_gateway::buffer::RingBuffer;
use polku_gateway::message::Message;

fn make_message(id: &str) -> Message {
    Message::with_id(id, 0, "test", "test", Bytes::new())
}

fn make_messages(n: usize) -> Vec<Message> {
    (0..n).map(|i| make_message(&format!("msg-{i}"))).collect()
}

#[test]
fn test_push_and_drain() {
    let mut buffer = RingBuffer::new(10);

    // Push 5 messages
    let dropped = buffer.push(make_messages(5));

    assert_eq!(dropped, 0);
    assert_eq!(buffer.len(), 5);

    // Drain 3 messages
    let drained = buffer.drain(3);
    assert_eq!(drained.len(), 3);
    assert_eq!(drained[0].id, "msg-0");
    assert_eq!(drained[2].id, "msg-2");
    assert_eq!(buffer.len(), 2);
}

#[test]
fn test_overflow_drops_oldest() {
    let mut buffer = RingBuffer::new(3);

    // Push 5 messages into a buffer of size 3
    let dropped = buffer.push(make_messages(5));

    assert_eq!(dropped, 2); // 2 messages dropped
    assert_eq!(buffer.len(), 3);

    // Should have messages 2, 3, 4 (oldest 0, 1 dropped)
    let drained = buffer.drain(3);
    assert_eq!(drained[0].id, "msg-2");
    assert_eq!(drained[1].id, "msg-3");
    assert_eq!(drained[2].id, "msg-4");
}

#[test]
fn test_metrics() {
    let mut buffer = RingBuffer::new(5);

    // Push 10 messages (5 will be dropped)
    buffer.push(make_messages(10));

    assert_eq!(buffer.total_dropped(), 5);

    // Drain all
    buffer.drain(5);
    assert_eq!(buffer.total_drained(), 5);
}

#[test]
fn pushed_messages_are_counted() {
    let mut buffer = RingBuffer::new(4);
    buffer.push(make_messages(3));
    buffer.push(make_messages(3));
    assert_eq!(buffer.total_pushed(), 6);
    assert_eq!(buffer.total_dropped(), 2);
    let drained = buffer.drain(1);
    assert_eq!(drained[0].id, "msg-2");
    assert_eq!(
        buffer.total_pushed(),
        buffer.total_dropped() + buffer.total_drained() + buffer.len() as u64
    );
}

#[test]
fn full_and_empty_are_told() {
    let mut buffer = RingBuffer::new(2);
    assert!(buffer.is_empty());
    assert!(!buffer.is_full());
    assert_eq!(buffer.capacity(), 2);
    buffer.push(make_messages(2));
    assert!(buffer.is_full());
    assert!(!buffer.is_empty());
}

#[test]
fn drains_in_two_steps_are_one_drain() {
    let mut a = RingBuffer::new(10);
    let mut b = RingBuffer::new(10);
    a.push(make_messages(7));
    b.push(make_messages(7));
    let mut ids: Vec<String> = a.drain(2).into_iter().map(|m| m.id).collect();
    ids.extend(a.drain(3).into_iter().map(|m| m.id));
    let whole: Vec<String> = b.drain(5).into_iter().map(|m| m.id).collect();
    assert_eq!(ids, whole);
    assert_eq!(a.len(), b.len());
}

#[test]
fn drain_of_more_than_is_there() {
    let mut buffer = RingBuffer::new(10);
    buffer.push(make_messages(2));
    assert_eq!(buffer.drain(100).len(), 2);
    assert!(buffer.drain(100).is_empty());
    assert_eq!(buffer.total_drained(), 2);
}

#[test]
fn capacity_zero_keeps_the_last_message() {
    let mut buffer = RingBuffer::new(0);
    let dropped = buffer.push(make_messages(3));
    assert_eq!(dropped, 3);
    assert_eq!(buffer.len(), 1);
    assert!(buffer.is_full());
    assert_eq!(buffer.drain(5)[0].id, "msg-2");
}
