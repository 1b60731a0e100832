//! A bounded queue: when it is full, the oldest items make room for new ones.

use std::collections::VecDeque;
use vstd::prelude::*;

verus! {

/// A bounded queue that counts what passes through it.
///
/// One of capacity zero still holds the item that came last.
pub struct Ring<T> {
    items: VecDeque<T>,
    capacity: usize,
    metrics: BufferMetrics,
}

/// Counters of a queue; they wrap around.
#[derive(Debug)]
pub struct BufferMetrics {
    /// Items pushed.
    pub pushed: u64,
    /// Items dropped because the queue was full.
    pub dropped: u64,
    /// Items drained.
    pub drained: u64,
}

impl Default for BufferMetrics {
    fn default() -> (r: Self)
        ensures
            r.pushed == 0,
            r.dropped == 0,
            r.drained == 0,
    {
        BufferMetrics { pushed: 0, dropped: 0, drained: 0 }
    }
}

/// The sum of a counter and a number, wrapped around at 64 bits.
pub open spec fn counted(counter: u64, n: nat) -> u64 {
    ((counter + n) % 0x1_0000_0000_0000_0000) as u64
}

/// Adds `n` to a counter, which wraps around.
pub fn count(counter: u64, n: usize) -> (r: u64)
    ensures
        r == counted(counter, n as nat),
{
    counter.wrapping_add(n as u64)
}

/// The smaller of two numbers.
pub open spec fn at_most(n: nat, len: nat) -> nat {
    if n < len {
        n
    } else {
        len
    }
}

/// The mathematical state of a [`Ring`].
#[verifier::ext_equal]
pub struct RingState<T> {
    /// The items held, the oldest first.
    pub items: Seq<T>,
    /// The capacity.
    pub capacity: nat,
    /// Items pushed.
    pub pushed: u64,
    /// Items dropped.
    pub dropped: u64,
    /// Items drained.
    pub drained: u64,
}

impl<T> RingState<T> {
    /// A queue that nothing has passed through.
    pub open spec fn empty(capacity: nat) -> RingState<T> {
        RingState { items: Seq::empty(), capacity, pushed: 0, dropped: 0, drained: 0 }
    }

    /// The most items that the queue ever holds.
    pub open spec fn limit(self) -> nat {
        if self.capacity == 0 {
            1
        } else {
            self.capacity
        }
    }

    /// The queue holds no more than it may.
    pub open spec fn within_limit(self) -> bool {
        self.items.len() <= self.limit()
    }

    /// How many drops are reported when `added` items are pushed: one for each
    /// item that finds the queue full.
    pub open spec fn drops(self, added: nat) -> nat {
        let total = self.items.len() + added;
        if self.capacity == 0 {
            added
        } else if total > self.capacity {
            (total - self.capacity) as nat
        } else {
            0
        }
    }

    /// The queue after a push: the newest items stay.
    pub open spec fn after_push(self, added: Seq<T>) -> RingState<T> {
        let all = self.items + added;
        RingState {
            items: all.skip(all.len() - at_most(all.len(), self.limit())),
            pushed: counted(self.pushed, added.len()),
            dropped: counted(self.dropped, self.drops(added.len())),
            ..self
        }
    }

    /// The items that draining up to `n` hands out: the oldest ones, in order.
    pub open spec fn oldest(self, n: nat) -> Seq<T> {
        self.items.take(at_most(n, self.items.len()) as int)
    }

    /// The queue after draining up to `n` items.
    pub open spec fn after_drain(self, n: nat) -> RingState<T> {
        let k = at_most(n, self.items.len());
        RingState {
            items: self.items.skip(k as int),
            drained: counted(self.drained, k),
            ..self
        }
    }

    /// Every item pushed is held, or counted as dropped or drained.
    pub open spec fn balanced(self) -> bool {
        self.pushed == (self.dropped + self.drained + self.items.len())
            % 0x1_0000_0000_0000_0000
    }
}

impl<T> View for Ring<T> {
    type V = RingState<T>;

    closed spec fn view(&self) -> RingState<T> {
        RingState {
            items: self.items@,
            capacity: self.capacity as nat,
            pushed: self.metrics.pushed,
            dropped: self.metrics.dropped,
            drained: self.metrics.drained,
        }
    }
}

impl<T> Ring<T> {
    #[verifier::type_invariant]
    spec fn well_formed(self) -> bool {
        self@.within_limit()
    }

    /// Creates a queue with the given capacity.
    pub fn new(capacity: usize) -> (r: Self)
        ensures
            r@ == RingState::<T>::empty(capacity as nat),
    {
        Ring { items: VecDeque::new(), capacity, metrics: BufferMetrics::default() }
    }

    /// Pushes items, in order. Returns how many were dropped for want of room.
    pub fn push(&mut self, items: Vec<T>) -> (dropped: usize)
        ensures
            final(self)@ == old(self)@.after_push(items@),
            dropped == old(self)@.drops(items@.len()),
            final(self)@.within_limit(),
    {
        proof {
            use_type_invariant(&*self);
        }
        let added: usize = items.len();
        let capacity: usize = self.capacity;
        let mut queue: VecDeque<T> = VecDeque::new();
        std::mem::swap(&mut queue, &mut self.items);
        let mut dropped: usize = 0;
        let ghost start = RingState { items: queue@, ..self@ };
        let ghost before = queue@;
        let ghost news = items@;
        assert(start.after_push(Seq::empty()).items =~= before) by {
            assert(before + Seq::<T>::empty() =~= before);
            assert(before.skip(0) =~= before);
        }
        for item in it: items
            invariant
                it.seq() == news,
                added == news.len(),
                capacity == start.capacity,
                start.items == before,
                start.within_limit(),
                queue@ == start.after_push(news.take(it.index())).items,
                dropped == start.drops(it.index() as nat),
                dropped <= it.index(),
        {
            let ghost held = queue@;
            let ghost now = news.take(it.index());
            let ghost all = before + now;
            if queue.len() >= capacity {
                queue.pop_front();
                dropped += 1;
            }
            queue.push_back(item);
            proof {
                let next = news.take(it.index() + 1);
                assert(before + next =~= all.push(item));
                assert(queue@ =~= start.after_push(next).items);
            }
        }
        assert(news.take(news.len() as int) =~= news);
        self.items = queue;
        self.metrics.pushed = count(self.metrics.pushed, added);
        self.metrics.dropped = count(self.metrics.dropped, dropped);
        dropped
    }

    /// Drains up to `n` items. Returns them in the order in which they came.
    pub fn drain(&mut self, n: usize) -> (r: Vec<T>)
        ensures
            r@ == old(self)@.oldest(n as nat),
            final(self)@ == old(self)@.after_drain(n as nat),
            final(self)@.within_limit(),
    {
        proof {
            use_type_invariant(&*self);
        }
        let mut queue: VecDeque<T> = VecDeque::new();
        std::mem::swap(&mut queue, &mut self.items);
        let ghost before = queue@;
        let mut r: Vec<T> = Vec::new();
        while r.len() < n && queue.len() > 0
            invariant
                r@.len() <= n,
                r@.len() <= before.len(),
                r@ == before.take(r@.len() as int),
                queue@ == before.skip(r@.len() as int),
            decreases queue@.len(),
        {
            match queue.pop_front() {
                Some(item) => {
                    r.push(item);
                    assert(r@ =~= before.take(r@.len() as int));
                    assert(queue@ =~= before.skip(r@.len() as int));
                },
                None => {},
            }
        }
        self.items = queue;
        self.metrics.drained = count(self.metrics.drained, r.len());
        r
    }

    /// The number of items held.
    pub fn len(&self) -> (r: usize)
        ensures
            r == self@.items.len(),
    {
        self.items.len()
    }

    /// The capacity.
    pub fn capacity(&self) -> (r: usize)
        ensures
            r == self@.capacity,
    {
        self.capacity
    }

    /// The counters.
    pub fn metrics(&self) -> (r: &BufferMetrics)
        ensures
            r.pushed == self@.pushed,
            r.dropped == self@.dropped,
            r.drained == self@.drained,
    {
        &self.metrics
    }

    /// The item at a place; the oldest comes first.
    pub fn item_at(&self, i: usize) -> (r: &T)
        requires
            i < self@.items.len(),
        ensures
            *r == self@.items[i as int],
    {
        &self.items[i]
    }

    /// Removes all items, without counting them.
    pub fn clear(&mut self)
        ensures
            final(self)@ == (RingState { items: Seq::empty(), ..old(self)@ }),
    {
        let mut none: VecDeque<T> = VecDeque::new();
        std::mem::swap(&mut none, &mut self.items);
    }
}

/// A queue never holds more than its limit, whatever is pushed and drained.
pub proof fn limit_is_kept<T>(s: RingState<T>, added: Seq<T>, n: nat)
    requires
        s.within_limit(),
    ensures
        s.after_push(added).within_limit(),
        s.after_drain(n).within_limit(),
        RingState::<T>::empty(s.capacity).within_limit(),
{
}

/// What leaves and what stays together are what was held, in order: draining is
/// first in, first out.
pub proof fn drain_is_fifo<T>(s: RingState<T>, n: nat)
    ensures
        s.oldest(n) + s.after_drain(n).items == s.items,
{
    assert(s.oldest(n) + s.after_drain(n).items =~= s.items);
}

/// Draining twice is draining the sum once.
pub proof fn drains_add_up<T>(s: RingState<T>, a: nat, b: nat)
    ensures
        s.oldest(a) + s.after_drain(a).oldest(b) == s.oldest(a + b),
        s.after_drain(a).after_drain(b) == s.after_drain(a + b),
{
    assert(s.oldest(a) + s.after_drain(a).oldest(b) =~= s.oldest(a + b));
    assert(s.after_drain(a).after_drain(b).items =~= s.after_drain(a + b).items);
    let first = at_most(a, s.items.len());
    let second = at_most(b, s.after_drain(a).items.len());
    wrapped_sum(s.drained + first, second as int);
}

/// A push evicts from the front only: what it leaves are the newest of the old and
/// new items, and the new item that came last is always among them.
pub proof fn push_keeps_the_newest<T>(s: RingState<T>, added: Seq<T>)
    requires
        s.within_limit(),
    ensures
        s.after_push(added).items.is_suffix_of(s.items + added),
        added.len() > 0 ==> s.after_push(added).items.last() == added.last(),
        (s.items + added).len() <= s.capacity ==> {
            &&& s.after_push(added).items == s.items + added
            &&& s.drops(added.len()) == 0
        },
{
    let all = s.items + added;
    let held = s.after_push(added).items;
    assert(held =~= all.subrange(all.len() - held.len(), all.len() as int));
    if all.len() <= s.capacity {
        assert(held =~= all);
    }
}

/// Items are accounted for: from the start and through every push and drain, each
/// item pushed is held, or counted as dropped or as drained.
pub proof fn items_are_accounted_for<T>(s: RingState<T>, added: Seq<T>, n: nat)
    requires
        s.within_limit(),
        s.capacity > 0,
    ensures
        RingState::<T>::empty(s.capacity).balanced(),
        s.balanced() ==> s.after_push(added).balanced(),
        s.balanced() ==> s.after_drain(n).balanced(),
{
    let held = s.items.len() as int;
    if s.balanced() {
        let p = s.after_push(added);
        let dropped = s.drops(added.len()) as int;
        assert(p.items.len() == held + added.len() - dropped);
        wrapped_sum(s.dropped + s.drained + held, added.len() as int);
        wrapped_sum(s.dropped + dropped, s.drained + held + added.len() - dropped);
        assert(p.balanced());
        let d = s.after_drain(n);
        let drained = at_most(n, s.items.len()) as int;
        assert(d.items.len() == held - drained);
        wrapped_sum(s.drained + drained, s.dropped + held - drained);
        assert(d.balanced());
    }
}

proof fn wrapped_sum(a: int, b: int)
    ensures
        (a + b) % 0x1_0000_0000_0000_0000 == ((a % 0x1_0000_0000_0000_0000) + b)
            % 0x1_0000_0000_0000_0000,
{
    let m: int = 0x1_0000_0000_0000_0000;
    vstd::arithmetic::div_mod::lemma_add_mod_noop(a, b, m);
    vstd::arithmetic::div_mod::lemma_add_mod_noop(a % m, b, m);
    vstd::arithmetic::div_mod::lemma_mod_twice(a, m);
}

} // verus!
