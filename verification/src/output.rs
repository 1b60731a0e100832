//! Outputs: the destinations of events, and what each of them gets.

pub mod stdout;

use crate::message;
use crate::message::is_routed_to;
use crate::proto;
use crate::proto::{Event, EventView};
use vstd::prelude::*;

pub use stdout::StdoutOutput;

verus! {

/// A destination of events.
pub trait Output: Send + Sync {
    /// The name of the output; every implementation says what it is.
    open spec fn spec_name(&self) -> Seq<char> {
        arbitrary()
    }

    /// The name of the output, by which events are routed to it.
    fn name(&self) -> (r: &'static str)
        ensures
            r@ == self.spec_name(),
    ;
}

/// Events to be sent to one output.
pub struct Delivery {
    /// The place of the output among the registered ones.
    pub output: usize,
    /// What it gets.
    pub events: Vec<Event>,
}

/// The mathematical value of a [`Delivery`].
#[verifier::ext_equal]
pub struct DeliveryView {
    pub output: nat,
    pub events: Seq<EventView>,
}

impl View for Delivery {
    type V = DeliveryView;

    open spec fn view(&self) -> DeliveryView {
        DeliveryView { output: self.output as nat, events: proto::event_views(self.events@) }
    }
}

/// The values of a list of deliveries.
pub open spec fn delivery_views(deliveries: Seq<Delivery>) -> Seq<DeliveryView> {
    Seq::new(deliveries.len(), |i: int| deliveries[i]@)
}

/// What an output receives when the deliveries are made in order.
pub open spec fn received(deliveries: Seq<DeliveryView>, output: nat) -> Seq<EventView>
    decreases deliveries.len(),
{
    if deliveries.len() == 0 {
        Seq::empty()
    } else {
        let before = received(deliveries.drop_last(), output);
        if deliveries.last().output == output {
            before + deliveries.last().events
        } else {
            before
        }
    }
}

/// What an output receives of deliveries made in two rounds.
pub proof fn received_in_rounds(a: Seq<DeliveryView>, b: Seq<DeliveryView>, output: nat)
    ensures
        received(a + b, output) == received(a, output) + received(b, output),
    decreases b.len(),
{
    if b.len() == 0 {
        assert(a + b =~= a);
        assert(received(a, output) + received(b, output) =~= received(a, output));
    } else {
        assert((a + b).drop_last() =~= a + b.drop_last());
        assert((a + b).last() == b.last());
        received_in_rounds(a, b.drop_last(), output);
        assert(received(a + b, output) =~= received(a, output) + received(b, output));
    }
}

/// The events that are meant for an output: those without routes, and those whose
/// routes name it.
pub open spec fn meant_for(events: Seq<EventView>, name: Seq<char>) -> Seq<EventView>
    decreases events.len(),
{
    if events.len() == 0 {
        Seq::empty()
    } else {
        let before = meant_for(events.drop_last(), name);
        if message::routes_to(events.last().route_to, name) {
            before.push(events.last())
        } else {
            before
        }
    }
}

/// An output is meant to get an event exactly when the event has no routes or one of
/// them names it.
pub proof fn meant_events_are_routed(events: Seq<EventView>, name: Seq<char>, event: EventView)
    ensures
        meant_for(events, name).contains(event) <==> events.contains(event)
            && message::routes_to(event.route_to, name),
    decreases events.len(),
{
    if events.len() > 0 {
        let rest = events.drop_last();
        let before = meant_for(rest, name);
        let now = meant_for(events, name);
        meant_events_are_routed(rest, name, event);
        if events.contains(event) && event != events.last() {
            let i = choose|i: int| 0 <= i < events.len() && events[i] == event;
            assert(rest[i] == event);
        }
        if rest.contains(event) {
            let i = choose|i: int| 0 <= i < rest.len() && rest[i] == event;
            assert(events[i] == event);
        }
        assert(events.contains(events.last())) by {
            assert(events[events.len() - 1] == events.last());
        }
        if before.contains(event) {
            let i = choose|i: int| 0 <= i < before.len() && before[i] == event;
            assert(now[i] == event);
        }
        if message::routes_to(events.last().route_to, name) {
            assert(now[now.len() - 1] == events.last());
            if now.contains(event) && event != events.last() {
                let i = choose|i: int| 0 <= i < now.len() && now[i] == event;
                assert(before[i] == event);
            }
        }
    }
}

/// What is meant for an output of events that come in two rounds.
pub proof fn meant_in_rounds(a: Seq<EventView>, b: Seq<EventView>, name: Seq<char>)
    ensures
        meant_for(a + b, name) == meant_for(a, name) + meant_for(b, name),
    decreases b.len(),
{
    if b.len() == 0 {
        assert(a + b =~= a);
        assert(meant_for(a, name) + meant_for(b, name) =~= meant_for(a, name));
    } else {
        assert((a + b).drop_last() =~= a + b.drop_last());
        assert((a + b).last() == b.last());
        meant_in_rounds(a, b.drop_last(), name);
        assert(meant_for(a + b, name) =~= meant_for(a, name) + meant_for(b, name));
    }
}

/// Copies of the events that are meant for an output.
pub fn events_for(events: &Vec<Event>, name: &str) -> (r: Vec<Event>)
    ensures
        proto::event_views(r@) == meant_for(proto::event_views(events@), name@),
{
    let ghost views = proto::event_views(events@);
    let mut r: Vec<Event> = Vec::new();
    let mut i: usize = 0;
    assert(proto::event_views(r@) =~= Seq::<EventView>::empty());
    while i < events.len()
        invariant
            i <= events@.len(),
            views == proto::event_views(events@),
            proto::event_views(r@) == meant_for(views.take(i as int), name@),
        decreases events@.len() - i,
    {
        proof {
            let head = views.take(i + 1);
            assert(head.drop_last() =~= views.take(i as int));
            assert(head.last() == events@[i as int]@);
        }
        if is_routed_to(&events[i].route_to, name) {
            let event = events[i].clone();
            let ghost before = r@;
            r.push(event);
            assert(proto::event_views(r@) =~= proto::event_views(before).push(event@));
        }
        i += 1;
    }
    assert(views.take(i as int) =~= views);
    r
}

} // verus!
