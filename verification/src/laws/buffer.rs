//! Laws of the bounded queues.

use crate::buffer::RingBuffer;
use crate::emit::resilience::failure_buffer;
use crate::emit::resilience::{FailedEvent, FailureBuffer};
use crate::message::Message;
use crate::ring::{count, Ring};
use vstd::prelude::*;

verus! {

/// A queue does not hold more than its capacity, and one of capacity zero at most one item.
pub open spec fn fits(held: nat, capacity: nat) -> bool {
    held <= capacity || held <= 1
}

/// `after` are the newest of the items in `before` and `added`: with a capacity above
/// zero as many as there is room for, and otherwise the one that came last.
pub open spec fn keeps_the_newest<T>(
    before: Seq<T>,
    added: Seq<T>,
    after: Seq<T>,
    capacity: nat,
) -> bool {
    let total = before.len() + added.len();
    &&& capacity > 0 && total <= capacity ==> after.len() == total
    &&& capacity > 0 && total > capacity ==> after.len() == capacity
    &&& capacity == 0 && total > 0 ==> after.len() == 1
    &&& total == 0 ==> after.len() == 0
    &&& forall|i: int|
        0 <= i < after.len() ==> #[trigger] after[i] == {
            let k = total - after.len() + i;
            if k < before.len() {
                before[k]
            } else {
                added[k - before.len()]
            }
        }
}

/// A push drops no more than it has to: what stays are the newest items, as many as
/// there is room for, and what exceeds the capacity is dropped and counted.
pub proof fn pushing_drops_only_the_excess<T>(ring: &mut Ring<T>, items: Vec<T>, dropped: usize)
    requires
        call_ensures(Ring::<T>::push, (ring, items), dropped),
        fits(old(ring)@.items.len(), old(ring)@.capacity),
    ensures
        ({
            let all = old(ring)@.items + items@;
            let capacity = old(ring)@.capacity;
            &&& 0 < capacity && all.len() <= capacity ==> final(ring)@.items == all && dropped == 0
            &&& 0 < capacity < all.len() ==> {
                &&& final(ring)@.items.len() == capacity
                &&& final(ring)@.items == all.subrange(all.len() - capacity, all.len() as int)
                &&& dropped == all.len() - capacity
            }
            &&& capacity == 0 && items@.len() > 0 ==> final(ring)@.items == seq![items@.last()]
            &&& capacity == 0 ==> dropped == items@.len()
            &&& items@.len() == 0 ==> final(ring)@.items == old(ring)@.items && dropped == 0
        }),
        final(ring)@.capacity == old(ring)@.capacity,
        final(ring)@.drained == old(ring)@.drained,
        (final(ring)@.pushed - old(ring)@.pushed - items@.len()) % 0x1_0000_0000_0000_0000 == 0,
        (final(ring)@.dropped - old(ring)@.dropped - dropped) % 0x1_0000_0000_0000_0000 == 0,
{
    wraps(old(ring)@.pushed, items@.len());
    wraps(old(ring)@.dropped, dropped as nat);
    let all = old(ring)@.items + items@;
    let capacity = old(ring)@.capacity;
    if 0 < capacity && all.len() <= capacity {
        assert(final(ring)@.items =~= all);
    }
    if 0 < capacity < all.len() {
        assert(final(ring)@.items =~= all.subrange(all.len() - capacity, all.len() as int));
    }
    if capacity == 0 && items@.len() > 0 {
        assert(final(ring)@.items =~= seq![items@.last()]);
    }
    if items@.len() == 0 {
        assert(final(ring)@.items =~= old(ring)@.items);
    }
}

/// A counter that wraps around differs from the sum by a multiple of its range.
pub proof fn wraps(counter: u64, n: nat)
    ensures
        ((counter + n) % 0x1_0000_0000_0000_0000 - counter - n) % 0x1_0000_0000_0000_0000 == 0,
{
    let m: int = 0x1_0000_0000_0000_0000;
    let sum = counter + n;
    vstd::arithmetic::div_mod::lemma_fundamental_div_mod(sum, m);
    let q = sum / m;
    assert(sum % m - sum == (-q) * m) by (nonlinear_arith)
        requires
            sum == m * q + sum % m,
    ;
    vstd::arithmetic::div_mod::lemma_mod_multiples_basic(-q, m);
}

/// Draining hands out the oldest items in the order in which they came, as many as are
/// asked for or there are, and keeps and counts the rest as it should.
pub proof fn draining_hands_out_the_oldest<T>(ring: &mut Ring<T>, n: usize, out: Vec<T>)
    requires
        call_ensures(Ring::<T>::drain, (ring, n), out),
    ensures
        out@.len() == n || out@.len() < n && final(ring)@.items.len() == 0,
        out@ + final(ring)@.items == old(ring)@.items,
        final(ring)@.capacity == old(ring)@.capacity,
        final(ring)@.pushed == old(ring)@.pushed,
        final(ring)@.dropped == old(ring)@.dropped,
        (final(ring)@.drained - old(ring)@.drained - out@.len()) % 0x1_0000_0000_0000_0000 == 0,
{
    wraps(old(ring)@.drained, out@.len());
    assert(out@ + final(ring)@.items =~= old(ring)@.items);
}

/// The buffer of messages drops no more than it has to.
pub proof fn buffering_drops_only_the_excess(
    buffer: &mut RingBuffer,
    messages: Vec<Message>,
    dropped: usize,
)
    requires
        call_ensures(RingBuffer::push, (buffer, messages), dropped),
        fits(old(buffer)@.items.len(), old(buffer)@.capacity),
    ensures
        ({
            let all = old(buffer)@.items + messages@;
            let capacity = old(buffer)@.capacity;
            &&& 0 < capacity && all.len() <= capacity ==> final(buffer)@.items == all && dropped
                == 0
            &&& 0 < capacity < all.len() ==> {
                &&& final(buffer)@.items.len() == capacity
                &&& final(buffer)@.items == all.subrange(all.len() - capacity, all.len() as int)
                &&& dropped == all.len() - capacity
            }
            &&& capacity == 0 && messages@.len() > 0 ==> final(buffer)@.items == seq![
                messages@.last(),
            ]
            &&& capacity == 0 ==> dropped == messages@.len()
            &&& messages@.len() == 0 ==> final(buffer)@.items == old(buffer)@.items && dropped == 0
        }),
        final(buffer)@.capacity == old(buffer)@.capacity,
        final(buffer)@.drained == old(buffer)@.drained,
        (final(buffer)@.pushed - old(buffer)@.pushed - messages@.len())
            % 0x1_0000_0000_0000_0000 == 0,
        (final(buffer)@.dropped - old(buffer)@.dropped - dropped) % 0x1_0000_0000_0000_0000 == 0,
{
    wraps(old(buffer)@.pushed, messages@.len());
    wraps(old(buffer)@.dropped, dropped as nat);
    let all = old(buffer)@.items + messages@;
    let capacity = old(buffer)@.capacity;
    if 0 < capacity && all.len() <= capacity {
        assert(final(buffer)@.items =~= all);
    }
    if 0 < capacity < all.len() {
        assert(final(buffer)@.items =~= all.subrange(all.len() - capacity, all.len() as int));
    }
    if capacity == 0 && messages@.len() > 0 {
        assert(final(buffer)@.items =~= seq![messages@.last()]);
    }
    if messages@.len() == 0 {
        assert(final(buffer)@.items =~= old(buffer)@.items);
    }
}

/// The buffer of messages is first in, first out.
pub proof fn buffered_messages_leave_in_order(
    buffer: &mut RingBuffer,
    n: usize,
    out: Vec<Message>,
)
    requires
        call_ensures(RingBuffer::drain, (buffer, n), out),
    ensures
        out@.len() == n || out@.len() < n && final(buffer)@.items.len() == 0,
        out@ + final(buffer)@.items == old(buffer)@.items,
        final(buffer)@.capacity == old(buffer)@.capacity,
        final(buffer)@.pushed == old(buffer)@.pushed,
        final(buffer)@.dropped == old(buffer)@.dropped,
        (final(buffer)@.drained - old(buffer)@.drained - out@.len()) % 0x1_0000_0000_0000_0000
            == 0,
{
    wraps(old(buffer)@.drained, out@.len());
    assert(out@ + final(buffer)@.items =~= old(buffer)@.items);
}

/// What goes into a new buffer comes out of it: the newest messages that fit, in order.
pub proof fn what_goes_in_comes_out(
    capacity: usize,
    fresh: RingBuffer,
    filled: &mut RingBuffer,
    messages: Vec<Message>,
    dropped: usize,
    emptied: &mut RingBuffer,
    n: usize,
    out: Vec<Message>,
)
    requires
        capacity > 0,
        call_ensures(RingBuffer::new, (capacity,), fresh),
        *old(filled) == fresh,
        call_ensures(RingBuffer::push, (filled, messages), dropped),
        *old(emptied) == *final(filled),
        call_ensures(RingBuffer::drain, (emptied, n), out),
    ensures
        messages@.len() <= capacity ==> dropped == 0,
        messages@.len() > capacity ==> dropped == messages@.len() - capacity,
        out@.len() == n || out@.len() < n && out@.len() == messages@.len() - dropped,
        out@.len() <= messages@.len() - dropped,
        forall|i: int| 0 <= i < out@.len() ==> #[trigger] out@[i] == messages@[dropped + i],
{
}

/// A new buffer is empty, and what it tells of itself follows from what it holds.
pub proof fn buffers_tell_what_they_hold(
    capacity: usize,
    fresh: RingBuffer,
    buffer: RingBuffer,
    len: usize,
    empty: bool,
    full: bool,
    told: usize,
    pushed: u64,
    dropped: u64,
    drained: u64,
)
    requires
        call_ensures(RingBuffer::new, (capacity,), fresh),
        call_ensures(RingBuffer::len, (&buffer,), len),
        call_ensures(RingBuffer::is_empty, (&buffer,), empty),
        call_ensures(RingBuffer::is_full, (&buffer,), full),
        call_ensures(RingBuffer::capacity, (&buffer,), told),
        call_ensures(RingBuffer::total_pushed, (&buffer,), pushed),
        call_ensures(RingBuffer::total_dropped, (&buffer,), dropped),
        call_ensures(RingBuffer::total_drained, (&buffer,), drained),
    ensures
        fresh@.items.len() == 0,
        fresh@.capacity == capacity,
        fresh@.pushed == 0,
        fresh@.dropped == 0,
        fresh@.drained == 0,
        len == buffer@.items.len(),
        told == buffer@.capacity,
        pushed == buffer@.pushed,
        dropped == buffer@.dropped,
        drained == buffer@.drained,
        empty <==> len == 0,
        full <==> len >= told,
        buffer == fresh ==> empty && told == capacity && pushed == 0,
{
}

/// The buffer of failed events drops no more than it has to, and hands out the oldest.
pub proof fn failures_are_kept_and_handed_out(
    fill: &mut FailureBuffer,
    events: Vec<FailedEvent>,
    drain: &mut FailureBuffer,
    n: usize,
    out: Vec<FailedEvent>,
)
    requires
        call_ensures(FailureBuffer::push, (fill, events), ()),
        fits(old(fill)@.items.len(), old(fill)@.capacity),
        call_ensures(FailureBuffer::drain, (drain, n), out),
    ensures
        keeps_the_newest(old(fill)@.items, events@, final(fill)@.items, old(fill)@.capacity),
        final(fill)@.capacity == old(fill)@.capacity,
        (final(fill)@.pushed - old(fill)@.pushed - events@.len()) % 0x1_0000_0000_0000_0000 == 0,
        out@ + final(drain)@.items == old(drain)@.items,
        out@.len() == n || out@.len() < n && final(drain)@.items.len() == 0,
        final(drain)@.capacity == old(drain)@.capacity,
{
    wraps(old(fill)@.pushed, events@.len());
    assert(out@ + final(drain)@.items =~= old(drain)@.items);
}

/// Looking at failed events copies the oldest ones, in order, and in every part.
pub proof fn peeking_copies_the_oldest(buffer: FailureBuffer, n: usize, out: Vec<FailedEvent>)
    requires
        call_ensures(FailureBuffer::peek, (&buffer, n), out),
    ensures
        out@.len() <= n,
        out@.len() <= buffer@.items.len(),
        out@.len() == n || out@.len() == buffer@.items.len(),
        forall|i: int|
            0 <= i < out@.len() ==> {
                let copy = #[trigger] out@[i];
                let kept = buffer@.items[i];
                &&& copy.event.id@ == kept.event.id@
                &&& copy.event.payload@ == kept.event.payload@
                &&& copy.event.source@ == kept.event.source@
                &&& copy.event.event_type@ == kept.event.event_type@
                &&& copy.event.timestamp_unix_ns == kept.event.timestamp_unix_ns
                &&& copy.error@ == kept.error@
                &&& copy.emitter_name@ == kept.emitter_name@
                &&& copy.failed_at == kept.failed_at
                &&& copy.attempts == kept.attempts
            },
{
    let views = failure_buffer::failed_views(out@);
    let kept = failure_buffer::failed_views(buffer@.oldest(n as nat));
    assert(views.len() == out@.len());
    assert forall|i: int| 0 <= i < out@.len() implies (#[trigger] out@[i])@
        == buffer@.items[i]@ by {
        assert(views[i] == out@[i]@);
        assert(kept[i] == buffer@.items[i]@);
    }
}

/// A new buffer of failed events is empty, and tells what it holds and what passed.
pub proof fn failure_buffers_tell_what_they_hold(
    capacity: usize,
    fresh: FailureBuffer,
    buffer: FailureBuffer,
    len: usize,
    empty: bool,
    captured: u64,
    dropped: u64,
)
    requires
        call_ensures(FailureBuffer::new, (capacity,), fresh),
        call_ensures(FailureBuffer::len, (&buffer,), len),
        call_ensures(FailureBuffer::is_empty, (&buffer,), empty),
        call_ensures(FailureBuffer::total_captured, (&buffer,), captured),
        call_ensures(FailureBuffer::total_dropped, (&buffer,), dropped),
    ensures
        fresh@.items.len() == 0,
        fresh@.capacity == capacity,
        fresh@.pushed == 0 && fresh@.dropped == 0,
        len == buffer@.items.len(),
        empty <==> len == 0,
        captured == buffer@.pushed,
        dropped == buffer@.dropped,
{
}

/// A counter goes up by what is counted, as long as it can hold it, and wraps around once.
pub proof fn counters_go_up(counter: u64, n: usize, r: u64)
    requires
        call_ensures(count, (counter, n), r),
    ensures
        counter + n <= u64::MAX ==> r == counter + n,
        counter + n > u64::MAX ==> r == counter + n - 0x1_0000_0000_0000_0000,
{
}

/// Clearing removes what is held and nothing else.
pub proof fn clearing_only_removes(buffer: &mut FailureBuffer)
    requires
        call_ensures(FailureBuffer::clear, (buffer,), ()),
    ensures
        final(buffer)@.items.len() == 0,
        final(buffer)@.capacity == old(buffer)@.capacity,
        final(buffer)@.pushed == old(buffer)@.pushed,
        final(buffer)@.dropped == old(buffer)@.dropped,
{
}

} // verus!
