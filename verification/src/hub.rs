//! The hub: the central pipeline.
//!
//! Messages pass through the middleware into the buffer, and from there to the outputs.

use crate::buffer::RingBuffer;
use crate::emit::Emitter;
use crate::message;
use crate::message::{Message, MessageView};
use crate::middleware;
use crate::middleware::{Middleware, MiddlewareChain};
use crate::output;
use crate::output::{events_for, Delivery, DeliveryView, Output};
use crate::proto;
use crate::proto::{Event, EventView};
use crate::ring;
use crate::ring::RingState;
use std::sync::Arc;
use vstd::prelude::*;

verus! {

/// How many messages the buffer holds unless said otherwise.
pub const DEFAULT_BUFFER_CAPACITY: usize = 10_000;

/// How many messages a flush takes from the buffer at most.
pub const BATCH_SIZE: usize = 100;

/// The time between two flushes, in milliseconds.
pub const FLUSH_INTERVAL_MS: u64 = 10;

/// How many messages can wait to enter the pipeline.
pub const CHANNEL_CAPACITY: usize = 1024;

/// Builds a pipeline.
pub struct Hub<M: Middleware, O: Output + ?Sized> {
    buffer_capacity: usize,
    middleware: MiddlewareChain<M>,
    outputs: Vec<Arc<O>>,
}

impl<M: Middleware, O: Output + ?Sized> Hub<M, O> {
    /// How many messages the buffer will hold.
    pub closed spec fn capacity(self) -> usize {
        self.buffer_capacity
    }

    /// The stages of the middleware.
    pub closed spec fn stages(self) -> Seq<M> {
        self.middleware@
    }

    /// The outputs.
    pub closed spec fn outputs(self) -> Seq<Arc<O>> {
        self.outputs@
    }

    /// A hub without middleware and outputs.
    pub fn new() -> (r: Self)
        ensures
            r.capacity() == DEFAULT_BUFFER_CAPACITY,
            r.stages() == Seq::<M>::empty(),
            r.outputs() == Seq::<Arc<O>>::empty(),
    {
        Hub {
            buffer_capacity: DEFAULT_BUFFER_CAPACITY,
            middleware: MiddlewareChain::new(),
            outputs: Vec::new(),
        }
    }

    /// Sets how many messages the buffer holds.
    pub fn buffer_capacity(self, capacity: usize) -> (r: Self)
        ensures
            r.capacity() == capacity,
            r.stages() == self.stages(),
            r.outputs() == self.outputs(),
    {
        let mut hub = self;
        hub.buffer_capacity = capacity;
        hub
    }

    /// Adds a stage to the middleware, behind the others.
    pub fn middleware(self, mw: M) -> (r: Self)
        ensures
            r.capacity() == self.capacity(),
            r.stages() == self.stages().push(mw),
            r.outputs() == self.outputs(),
    {
        let mut hub = self;
        hub.middleware.add(mw);
        hub
    }

    /// Adds an output that is shared.
    pub fn output_arc(self, output: Arc<O>) -> (r: Self)
        ensures
            r.capacity() == self.capacity(),
            r.stages() == self.stages(),
            r.outputs() == self.outputs().push(output),
    {
        let mut hub = self;
        hub.outputs.push(output);
        hub
    }

    /// Makes the pipeline.
    pub fn build(self) -> (r: HubRunner<M, O>)
        ensures
            r.buffered() == RingState::<Message>::empty(self.capacity() as nat),
            r.stages() == self.stages(),
            r.outputs() == self.outputs(),
    {
        HubRunner {
            buffer: RingBuffer::new(self.buffer_capacity),
            middleware: self.middleware,
            outputs: self.outputs,
        }
    }
}

impl<M: Middleware, O: Output> Hub<M, O> {
    /// Adds an output.
    pub fn output(self, output: O) -> (r: Self)
        ensures
            r.capacity() == self.capacity(),
            r.stages() == self.stages(),
            r.outputs() == self.outputs().push(Arc::new(output)),
    {
        self.output_arc(Arc::new(output))
    }
}

/// An emitter as an output of a hub.
pub struct EmitterOutput<E: Emitter + ?Sized> {
    emitter: Arc<E>,
}

impl<E: Emitter + ?Sized> EmitterOutput<E> {
    /// The emitter.
    pub closed spec fn inner(self) -> Arc<E> {
        self.emitter
    }

    /// Makes an emitter an output.
    pub fn new(emitter: Arc<E>) -> (r: Self)
        ensures
            r.inner() == emitter,
            r.spec_name() == emitter.spec_name(),
    {
        EmitterOutput { emitter }
    }

    /// The emitter.
    pub fn emitter(&self) -> (r: &Arc<E>)
        ensures
            *r == self.inner(),
    {
        &self.emitter
    }
}

impl<E: Emitter + ?Sized> Output for EmitterOutput<E> {
    closed spec fn spec_name(&self) -> Seq<char> {
        self.emitter.spec_name()
    }

    fn name(&self) -> (r: &'static str) {
        self.emitter.name()
    }
}

impl<M: Middleware, E: Emitter + ?Sized> Hub<M, EmitterOutput<E>> {
    /// Adds an emitter that is shared, as an output of the same name.
    pub fn emitter_arc(self, emitter: Arc<E>) -> (r: Self)
        ensures
            r.capacity() == self.capacity(),
            r.stages() == self.stages(),
            r.outputs().len() == self.outputs().len() + 1,
            r.outputs().drop_last() == self.outputs(),
            r.outputs().last().inner() == emitter,
            r.outputs().last().spec_name() == emitter.spec_name(),
    {
        let hub = self.output(EmitterOutput::new(emitter));
        assert(hub.outputs().drop_last() =~= self.outputs());
        hub
    }
}

impl<M: Middleware, E: Emitter> Hub<M, EmitterOutput<E>> {
    /// Adds an emitter, as an output of the same name.
    pub fn emitter(self, emitter: E) -> (r: Self)
        ensures
            r.capacity() == self.capacity(),
            r.stages() == self.stages(),
            r.outputs().len() == self.outputs().len() + 1,
            r.outputs().drop_last() == self.outputs(),
            r.outputs().last().inner() == Arc::new(emitter),
            r.outputs().last().spec_name() == emitter.spec_name(),
    {
        self.emitter_arc(Arc::new(emitter))
    }
}

impl<M: Middleware, O: Output + ?Sized> Default for Hub<M, O> {
    fn default() -> (r: Self)
        ensures
            r.capacity() == DEFAULT_BUFFER_CAPACITY,
            r.stages() == Seq::<M>::empty(),
            r.outputs() == Seq::<Arc<O>>::empty(),
    {
        Self::new()
    }
}

/// The deliveries of a flush: to every output what is meant for it, if that is anything.
pub open spec fn fan_out(names: Seq<Seq<char>>, events: Seq<EventView>) -> Seq<DeliveryView>
    decreases names.len(),
{
    if names.len() == 0 {
        Seq::empty()
    } else {
        let before = fan_out(names.drop_last(), events);
        let mine = output::meant_for(events, names.last());
        if mine.len() > 0 {
            before.push(DeliveryView { output: (names.len() - 1) as nat, events: mine })
        } else {
            before
        }
    }
}

/// The deliveries of flushing until nothing is buffered.
pub open spec fn flushed_out(
    names: Seq<Seq<char>>,
    state: RingState<Message>,
) -> Seq<DeliveryView>
    decreases state.items.len(),
{
    if state.items.len() == 0 {
        Seq::empty()
    } else {
        let batch = events_of(message::message_views(state.oldest(BATCH_SIZE as nat)));
        fan_out(names, batch) + flushed_out(names, state.after_drain(BATCH_SIZE as nat))
    }
}

/// The events that stand for messages.
pub open spec fn events_of(messages: Seq<MessageView>) -> Seq<EventView> {
    Seq::new(messages.len(), |i: int| messages[i].to_event())
}

/// The events that stand for messages.
fn to_events(messages: Vec<Message>) -> (r: Vec<Event>)
    ensures
        proto::event_views(r@) == events_of(message::message_views(messages@)),
{
    let ghost all = messages@;
    let ghost wanted = events_of(message::message_views(all));
    let mut r: Vec<Event> = Vec::new();
    for msg in it: messages
        invariant
            it.seq() == all,
            wanted == events_of(message::message_views(all)),
            proto::event_views(r@) == wanted.take(it.index()),
    {
        let ghost before = r@;
        let ghost k = it.index();
        let event = Event::from(msg);
        r.push(event);
        assert(proto::event_views(r@) =~= proto::event_views(before).push(event@));
        assert(proto::event_views(r@) =~= wanted.take(k + 1));
    }
    assert(wanted.take(wanted.len() as int) =~= wanted);
    r
}

/// A pipeline that runs.
pub struct HubRunner<M: Middleware, O: Output + ?Sized> {
    buffer: RingBuffer,
    middleware: MiddlewareChain<M>,
    outputs: Vec<Arc<O>>,
}

impl<M: Middleware, O: Output + ?Sized> HubRunner<M, O> {
    /// The state of the buffer.
    pub closed spec fn buffered(self) -> RingState<Message> {
        self.buffer@
    }

    /// The stages of the middleware.
    pub closed spec fn stages(self) -> Seq<M> {
        self.middleware@
    }

    /// The outputs.
    pub closed spec fn outputs(self) -> Seq<Arc<O>> {
        self.outputs@
    }

    /// The names of the outputs.
    pub open spec fn output_names(self) -> Seq<Seq<char>> {
        Seq::new(self.outputs().len(), |i: int| self.outputs()[i].spec_name())
    }

    /// Takes in a message: the middleware processes it, and what it hands on is
    /// buffered. Tells how many messages were dropped for want of room, or nothing
    /// where the middleware dropped the message.
    pub fn accept(&mut self, msg: Message) -> (r: Option<usize>)
        ensures
            final(self).outputs() == old(self).outputs(),
            exists|path: Seq<Message>, out: Option<Message>|
                {
                    &&& #[trigger] middleware::is_way(old(self).stages(), path, out)
                    &&& path[0] == msg
                    &&& middleware::stages_moved(old(self).stages(), path, final(self).stages())
                    &&& match out {
                        Some(passed) => {
                            &&& r == Some(old(self).buffered().drops(1) as usize)
                            &&& final(self).buffered() == old(self).buffered().after_push(
                                seq![passed],
                            )
                        },
                        None => r is None && final(self).buffered() == old(self).buffered(),
                    }
                },
    {
        let ghost stages = self.stages();
        let out = self.middleware.process(msg);
        let ghost path = choose|path: Seq<Message>|
            {
                &&& #[trigger] middleware::is_way(stages, path, out)
                &&& path[0] == msg
                &&& middleware::stages_moved(stages, path, self.stages())
            };
        assert(middleware::is_way(old(self).stages(), path, out));
        match out {
            Some(passed) => {
                let mut messages: Vec<Message> = Vec::new();
                messages.push(passed);
                assert(messages@ =~= seq![passed]);
                Some(self.buffer.push(messages))
            },
            None => None,
        }
    }

    /// Takes a batch from the buffer and tells what each output gets of it.
    pub fn flush(&mut self) -> (r: Vec<Delivery>)
        ensures
            final(self).outputs() == old(self).outputs(),
            final(self).stages() == old(self).stages(),
            final(self).buffered() == old(self).buffered().after_drain(BATCH_SIZE as nat),
            output::delivery_views(r@) == fan_out(
                old(self).output_names(),
                events_of(message::message_views(old(self).buffered().oldest(BATCH_SIZE as nat))),
            ),
    {
        let messages = self.buffer.drain(BATCH_SIZE);
        let events = to_events(messages);
        let ghost views = proto::event_views(events@);
        let ghost names = self.output_names();
        assert(names == old(self).output_names());
        let mut r: Vec<Delivery> = Vec::new();
        let mut i: usize = 0;
        assert(names.take(0) =~= Seq::<Seq<char>>::empty());
        assert(output::delivery_views(r@) =~= Seq::<DeliveryView>::empty());
        while i < self.outputs.len()
            invariant
                i <= self.outputs@.len(),
                views == proto::event_views(events@),
                names == self.output_names(),
                output::delivery_views(r@) == fan_out(names.take(i as int), views),
            decreases self.outputs@.len() - i,
        {
            let mine = events_for(&events, self.outputs[i].name());
            proof {
                let head = names.take(i + 1);
                assert(head.drop_last() =~= names.take(i as int));
                assert(head.last() == self.outputs()[i as int].spec_name());
            }
            if mine.len() > 0 {
                let delivery = Delivery { output: i, events: mine };
                let ghost before = r@;
                r.push(delivery);
                assert(output::delivery_views(r@) =~= output::delivery_views(before).push(
                    delivery@,
                ));
            }
            i += 1;
        }
        assert(names.take(i as int) =~= names);
        r
    }

    /// Takes all that is buffered, batch by batch, and tells what each output gets of it:
    /// what is meant for it, in the order in which it came.
    pub fn finish(&mut self) -> (r: Vec<Delivery>)
        ensures
            final(self).outputs() == old(self).outputs(),
            final(self).stages() == old(self).stages(),
            final(self).buffered().items.len() == 0,
            final(self).buffered() == old(self).buffered().after_drain(
                old(self).buffered().items.len(),
            ),
            output::delivery_views(r@) == flushed_out(
                old(self).output_names(),
                old(self).buffered(),
            ),
            forall|i: nat|
                i < old(self).outputs().len() ==> #[trigger] output::received(
                    output::delivery_views(r@),
                    i,
                ) == output::meant_for(
                    events_of(message::message_views(old(self).buffered().items)),
                    old(self).output_names()[i as int],
                ),
    {
        let ghost names = self.output_names();
        let ghost start = self.buffered();
        let mut r: Vec<Delivery> = Vec::new();
        proof {
            assert(output::delivery_views(r@) + flushed_out(names, start) =~= flushed_out(
                names,
                start,
            ));
        }
        while self.buffer.len() > 0
            invariant
                self.outputs() == old(self).outputs(),
                self.stages() == old(self).stages(),
                names == self.output_names(),
                self.buffered().after_drain(self.buffered().items.len()) == start.after_drain(
                    start.items.len(),
                ),
                output::delivery_views(r@) + flushed_out(names, self.buffered()) == flushed_out(
                    names,
                    start,
                ),
            decreases self.buffered().items.len(),
        {
            let ghost held = self.buffered();
            let ghost before = r@;
            let mut batch = self.flush();
            let ghost made = batch@;
            r.append(&mut batch);
            proof {
                let rest = self.buffered();
                assert(r@ =~= before + made);
                assert(output::delivery_views(r@) =~= output::delivery_views(before)
                    + output::delivery_views(made));
                assert(output::delivery_views(r@) + flushed_out(names, rest)
                    =~= output::delivery_views(before) + flushed_out(names, held));
                ring::drains_add_up(held, BATCH_SIZE as nat, rest.items.len());
            }
        }
        proof {
            assert(self.buffered().after_drain(0) =~= self.buffered());
            assert(output::delivery_views(r@) =~= flushed_out(names, start));
            assert forall|i: nat| i < old(self).outputs().len() implies #[trigger] output::received(
                output::delivery_views(r@),
                i,
            ) == output::meant_for(
                events_of(message::message_views(start.items)),
                names[i as int],
            ) by {
                all_that_is_buffered_is_delivered(names, start, i);
            }
        }
        r
    }

    /// The buffer, for monitoring.
    pub fn buffer(&self) -> (r: &RingBuffer)
        ensures
            r@ == self.buffered(),
    {
        &self.buffer
    }

    /// The output at a place.
    pub fn output_at(&self, i: usize) -> (r: &Arc<O>)
        requires
            i < self.outputs().len(),
        ensures
            *r == self.outputs()[i as int],
    {
        &self.outputs[i]
    }
}

/// A flush gives every output the events that are meant for it, in order, and nothing else.
pub proof fn outputs_get_what_is_meant_for_them(
    names: Seq<Seq<char>>,
    events: Seq<EventView>,
    i: nat,
)
    ensures
        output::received(fan_out(names, events), i) == if i < names.len() {
            output::meant_for(events, names[i as int])
        } else {
            Seq::empty()
        },
    decreases names.len(),
{
    if names.len() > 0 {
        let rest = names.drop_last();
        let mine = output::meant_for(events, names.last());
        outputs_get_what_is_meant_for_them(rest, events, i);
        if mine.len() > 0 {
            assert(fan_out(names, events).drop_last() =~= fan_out(rest, events));
            assert(Seq::<EventView>::empty() + mine =~= mine);
        } else {
            assert(mine =~= Seq::<EventView>::empty());
        }
    }
}

/// Every delivery of a flush carries something and goes to an output that there is.
pub proof fn deliveries_are_sound(names: Seq<Seq<char>>, events: Seq<EventView>, k: int)
    requires
        0 <= k < fan_out(names, events).len(),
    ensures
        fan_out(names, events)[k].output < names.len(),
        fan_out(names, events)[k].events.len() > 0,
    decreases names.len(),
{
    if names.len() > 0 {
        let rest = fan_out(names.drop_last(), events);
        if k < rest.len() {
            deliveries_are_sound(names.drop_last(), events, k);
        }
    }
}

/// What outputs receive in two flushes is what they would receive if the events of both
/// were flushed at once.
pub proof fn flushes_add_up(
    names: Seq<Seq<char>>,
    first: Seq<EventView>,
    second: Seq<EventView>,
    i: nat,
)
    requires
        i < names.len(),
    ensures
        output::received(fan_out(names, first) + fan_out(names, second), i) == output::meant_for(
            first + second,
            names[i as int],
        ),
{
    output::received_in_rounds(fan_out(names, first), fan_out(names, second), i);
    outputs_get_what_is_meant_for_them(names, first, i);
    outputs_get_what_is_meant_for_them(names, second, i);
    output::meant_in_rounds(first, second, names[i as int]);
}

/// Flushing until nothing is buffered gives every output all that is meant for it, in
/// the order in which it came, however many batches that takes.
pub proof fn all_that_is_buffered_is_delivered(
    names: Seq<Seq<char>>,
    state: RingState<Message>,
    i: nat,
)
    requires
        i < names.len(),
    ensures
        output::received(flushed_out(names, state), i) == output::meant_for(
            events_of(message::message_views(state.items)),
            names[i as int],
        ),
    decreases state.items.len(),
{
    if state.items.len() > 0 {
        let n = BATCH_SIZE as nat;
        let rest = state.after_drain(n);
        let batch = events_of(message::message_views(state.oldest(n)));
        let later = events_of(message::message_views(rest.items));
        all_that_is_buffered_is_delivered(names, rest, i);
        ring::drain_is_fifo(state, n);
        assert(events_of(message::message_views(state.items)) =~= batch + later);
        output::received_in_rounds(fan_out(names, batch), flushed_out(names, rest), i);
        outputs_get_what_is_meant_for_them(names, batch, i);
        output::meant_in_rounds(batch, later, names[i as int]);
    }
}

/// Messages that are buffered reach their outputs: where there is room for them, flushing
/// until nothing is buffered gives every output those that are meant for it, after what
/// was there before, in the order in which they came.
pub proof fn buffered_messages_reach_their_outputs(
    names: Seq<Seq<char>>,
    state: RingState<Message>,
    added: Seq<Message>,
    i: nat,
)
    requires
        state.items.len() + added.len() <= state.capacity,
        i < names.len(),
    ensures
        output::received(flushed_out(names, state.after_push(added)), i) == output::meant_for(
            events_of(message::message_views(state.items)),
            names[i as int],
        ) + output::meant_for(events_of(message::message_views(added)), names[i as int]),
{
    let all = state.items + added;
    assert(state.after_push(added).items =~= all);
    let before = events_of(message::message_views(state.items));
    let new = events_of(message::message_views(added));
    assert(events_of(message::message_views(all)) =~= before + new);
    all_that_is_buffered_is_delivered(names, state.after_push(added), i);
    output::meant_in_rounds(before, new, names[i as int]);
}

} // verus!
