//! Ring buffer for messages.

use crate::message::Message;
use crate::ring::{Ring, RingState};
use vstd::prelude::*;

pub use crate::ring::BufferMetrics;

verus! {

/// Ring buffer for messages.
///
/// When it is full, the oldest messages are dropped. It counts what passes
/// through it. A buffer of capacity zero still holds the message that came last.
pub struct RingBuffer {
    ring: Ring<Message>,
}

impl View for RingBuffer {
    type V = RingState<Message>;

    closed spec fn view(&self) -> RingState<Message> {
        self.ring@
    }
}

impl RingBuffer {
    /// Creates a buffer with the given capacity.
    pub fn new(capacity: usize) -> (r: Self)
        ensures
            r@ == RingState::<Message>::empty(capacity as nat),
    {
        RingBuffer { ring: Ring::new(capacity) }
    }

    /// Pushes messages, in order. Returns how many were dropped for want of room.
    pub fn push(&mut self, messages: Vec<Message>) -> (dropped: usize)
        ensures
            final(self)@ == old(self)@.after_push(messages@),
            dropped == old(self)@.drops(messages@.len()),
            final(self)@.within_limit(),
    {
        self.ring.push(messages)
    }

    /// Drains up to `n` messages. Returns them in the order in which they came.
    pub fn drain(&mut self, n: usize) -> (r: Vec<Message>)
        ensures
            r@ == old(self)@.oldest(n as nat),
            final(self)@ == old(self)@.after_drain(n as nat),
            final(self)@.within_limit(),
    {
        self.ring.drain(n)
    }

    /// The number of messages held.
    pub fn len(&self) -> (r: usize)
        ensures
            r == self@.items.len(),
    {
        self.ring.len()
    }

    /// Whether no message is held.
    pub fn is_empty(&self) -> (r: bool)
        ensures
            r == (self@.items.len() == 0),
    {
        self.ring.len() == 0
    }

    /// Whether the buffer is at capacity.
    pub fn is_full(&self) -> (r: bool)
        ensures
            r == (self@.items.len() >= self@.capacity),
    {
        self.ring.len() >= self.ring.capacity()
    }

    /// The capacity.
    pub fn capacity(&self) -> (r: usize)
        ensures
            r == self@.capacity,
    {
        self.ring.capacity()
    }

    /// Messages pushed so far.
    pub fn total_pushed(&self) -> (r: u64)
        ensures
            r == self@.pushed,
    {
        self.ring.metrics().pushed
    }

    /// Messages dropped so far.
    pub fn total_dropped(&self) -> (r: u64)
        ensures
            r == self@.dropped,
    {
        self.ring.metrics().dropped
    }

    /// Messages drained so far.
    pub fn total_drained(&self) -> (r: u64)
        ensures
            r == self@.drained,
    {
        self.ring.metrics().drained
    }
}

} // verus!
