//! Plugin registry: the inputs by source, and the outputs in the order in which they
//! were registered.

use crate::error::{PluginError, PluginErrorView};
use crate::input::{Input, InputContext};
use crate::message;
use crate::output;
use crate::output::{Delivery, DeliveryView, Output};
use crate::proto;
use crate::proto::{clone_events, Event, EventView};
use crate::string_map::StringMap;
use crate::text;
use crate::text::{join3, same_text};
use std::sync::Arc;
use vstd::prelude::*;

verus! {

/// Holds the inputs and the outputs of a gateway.
pub struct PluginRegistry {
    inputs: StringMap<Arc<dyn Input>>,
    outputs: Vec<Arc<dyn Output>>,
}

/// The error of a transformation for a source without an input.
pub open spec fn no_input(source: Seq<char>) -> PluginErrorView {
    PluginErrorView::Transform("No input registered for source '"@ + source + "'"@)
}

/// The events without routes, which every output gets.
pub open spec fn unrouted(events: Seq<EventView>) -> Seq<EventView>
    decreases events.len(),
{
    if events.len() == 0 {
        Seq::empty()
    } else {
        let before = unrouted(events.drop_last());
        if events.last().route_to.len() == 0 {
            before.push(events.last())
        } else {
            before
        }
    }
}

/// The event once for every time that its routes name an output.
pub open spec fn copies(event: EventView, routes: Seq<Seq<char>>, name: Seq<char>) -> Seq<EventView>
    decreases routes.len(),
{
    if routes.len() == 0 {
        Seq::empty()
    } else {
        let before = copies(event, routes.drop_last(), name);
        if routes.last() == name {
            before.push(event)
        } else {
            before
        }
    }
}

/// The events whose routes name an output.
pub open spec fn routed(events: Seq<EventView>, name: Seq<char>) -> Seq<EventView>
    decreases events.len(),
{
    if events.len() == 0 {
        Seq::empty()
    } else {
        routed(events.drop_last(), name) + copies(events.last(), events.last().route_to, name)
    }
}

/// The events for each of the first `n` outputs.
pub open spec fn broadcast_plan(n: nat, events: Seq<EventView>) -> Seq<DeliveryView> {
    Seq::new(n, |i: int| DeliveryView { output: i as nat, events })
}

/// The events that routes name outputs for, output by output.
pub open spec fn named_plan(names: Seq<Seq<char>>, events: Seq<EventView>) -> Seq<DeliveryView>
    decreases names.len(),
{
    if names.len() == 0 {
        Seq::empty()
    } else {
        let before = named_plan(names.drop_last(), events);
        let mine = routed(events, names.last());
        if mine.len() > 0 {
            before.push(DeliveryView { output: (names.len() - 1) as nat, events: mine })
        } else {
            before
        }
    }
}

/// The deliveries of events with routing hints: first the events without routes to all
/// outputs, then the others to the outputs that their routes name.
pub open spec fn routing_plan(names: Seq<Seq<char>>, events: Seq<EventView>) -> Seq<DeliveryView> {
    let all = unrouted(events);
    if all.len() > 0 {
        broadcast_plan(names.len(), all) + named_plan(names, events)
    } else {
        named_plan(names, events)
    }
}

/// How many deliveries succeeded.
pub open spec fn successes(results: Seq<bool>) -> nat
    decreases results.len(),
{
    if results.len() == 0 {
        0
    } else {
        successes(results.drop_last()) + if results.last() {
            1nat
        } else {
            0nat
        }
    }
}

/// The health of outputs by name; of outputs with one name the later one counts.
pub open spec fn health_by_name(names: Seq<Seq<char>>, healthy: Seq<bool>) -> Map<Seq<char>, bool>
    decreases names.len(),
{
    if names.len() == 0 {
        Map::empty()
    } else {
        health_by_name(names.drop_last(), healthy).insert(
            names.last(),
            healthy[names.len() - 1],
        )
    }
}

impl PluginRegistry {
    /// The inputs by source.
    pub closed spec fn inputs(self) -> Map<Seq<char>, Arc<dyn Input>> {
        self.inputs@
    }

    /// The outputs.
    pub closed spec fn outputs(self) -> Seq<Arc<dyn Output>> {
        self.outputs@
    }

    /// The names of the outputs.
    pub open spec fn output_names(self) -> Seq<Seq<char>> {
        Seq::new(self.outputs().len(), |i: int| self.outputs()[i].spec_name())
    }

    /// Transforming bytes may end in `r`: in what the input of the source makes of
    /// them, or in an error where it has none.
    pub open spec fn transforms(
        self,
        ctx: InputContext,
        data: Seq<u8>,
        r: Result<Vec<Event>, PluginError>,
    ) -> bool {
        if self.inputs().contains_key(ctx.source@) {
            self.inputs()[ctx.source@].yields(ctx, data, r)
        } else {
            r matches Err(e) && e@ == no_input(ctx.source@)
        }
    }

    /// A registry without inputs and outputs.
    pub fn new() -> (r: Self)
        ensures
            r.inputs() == Map::<Seq<char>, Arc<dyn Input>>::empty(),
            r.outputs() == Seq::<Arc<dyn Output>>::empty(),
    {
        PluginRegistry { inputs: StringMap::new(), outputs: Vec::new() }
    }

    /// Registers the input of a source, in place of the one it had.
    pub fn register_input(&mut self, source: &str, input: Arc<dyn Input>)
        ensures
            final(self).inputs().contains_key(source@),
            final(self).inputs()[source@] == input,
            final(self).inputs().remove(source@) == old(self).inputs().remove(source@),
            final(self).inputs().dom().finite(),
            final(self).inputs().len() == if old(self).inputs().contains_key(source@) {
                old(self).inputs().len()
            } else {
                old(self).inputs().len() + 1
            },
            final(self).outputs() == old(self).outputs(),
    {
        put(input, source, &mut self.inputs);
    }

    /// Registers an output behind the others.
    pub fn register_output(&mut self, output: Arc<dyn Output>)
        ensures
            final(self).outputs().len() == old(self).outputs().len() + 1,
            final(self).outputs().drop_last() == old(self).outputs(),
            final(self).outputs().last() == output,
            final(self).inputs() == old(self).inputs(),
    {
        append(output, &mut self.outputs);
    }

    /// Whether a source has an input.
    pub fn has_input(&self, source: &str) -> (r: bool)
        ensures
            r == self.inputs().contains_key(source@),
    {
        self.inputs.contains_key(source)
    }

    /// The number of inputs.
    pub fn input_count(&self) -> (r: usize)
        ensures
            r == self.inputs().len(),
            self.inputs().dom().finite(),
    {
        self.inputs.len()
    }

    /// The number of outputs.
    pub fn output_count(&self) -> (r: usize)
        ensures
            r == self.outputs().len(),
    {
        self.outputs.len()
    }

    /// Transforms raw bytes with the input of the source.
    pub fn transform(&self, ctx: &InputContext, data: &[u8]) -> (r: Result<
        Vec<Event>,
        PluginError,
    >)
        ensures
            self.transforms(*ctx, data@, r),
    {
        match self.inputs.get(ctx.source) {
            Some(input) => input.transform(ctx, data),
            None => Err(
                PluginError::Transform(
                    join3("No input registered for source '", ctx.source, "'"),
                ),
            ),
        }
    }

    /// Plans to send events to all outputs.
    pub fn plan_for_all(&self, events: &[Event]) -> (r: Vec<Delivery>)
        ensures
            output::delivery_views(r@) == broadcast_plan(
                self.outputs().len(),
                proto::event_views(events@),
            ),
    {
        let ghost views = proto::event_views(events@);
        let mut r: Vec<Delivery> = Vec::new();
        let mut i: usize = 0;
        assert(output::delivery_views(r@) =~= broadcast_plan(0, views));
        while i < self.outputs.len()
            invariant
                i <= self.outputs@.len(),
                views == proto::event_views(events@),
                output::delivery_views(r@) == broadcast_plan(i as nat, views),
            decreases self.outputs@.len() - i,
        {
            let delivery = Delivery { output: i, events: clone_events(events) };
            let ghost before = r@;
            r.push(delivery);
            assert(output::delivery_views(r@) =~= output::delivery_views(before).push(delivery@));
            i += 1;
            assert(output::delivery_views(r@) =~= broadcast_plan(i as nat, views));
        }
        r
    }

    /// Plans to send events with routing hints: events without routes to all outputs,
    /// the others to the outputs that their routes name.
    pub fn plan_with_routing(&self, events: &[Event]) -> (r: Vec<Delivery>)
        ensures
            output::delivery_views(r@) == routing_plan(
                self.output_names(),
                proto::event_views(events@),
            ),
    {
        let ghost views = proto::event_views(events@);
        let ghost names = self.output_names();
        let all = events_without_routes(events);
        let mut r: Vec<Delivery> = Vec::new();
        if all.len() > 0 {
            r = self.plan_for_all(all.as_slice());
        }
        let ghost first = output::delivery_views(r@);
        let mut i: usize = 0;
        assert(names.take(0) =~= Seq::<Seq<char>>::empty());
        assert(first + named_plan(names.take(0), views) =~= first);
        while i < self.outputs.len()
            invariant
                i <= self.outputs@.len(),
                views == proto::event_views(events@),
                names == self.output_names(),
                output::delivery_views(r@) == first + named_plan(names.take(i as int), views),
            decreases self.outputs@.len() - i,
        {
            let mine = events_naming(events, self.outputs[i].name());
            proof {
                let head = names.take(i + 1);
                assert(head.drop_last() =~= names.take(i as int));
                assert(head.last() == self.outputs()[i as int].spec_name());
            }
            if mine.len() > 0 {
                let delivery = Delivery { output: i, events: mine };
                let ghost before = r@;
                r.push(delivery);
                proof {
                    assert(output::delivery_views(r@) =~= output::delivery_views(before).push(
                        delivery@,
                    ));
                    assert(output::delivery_views(r@) =~= first + named_plan(
                        names.take(i + 1),
                        views,
                    ));
                }
            }
            i += 1;
        }
        assert(names.take(i as int) =~= names);
        assert(all@.len() == 0 ==> first + named_plan(names, views) =~= named_plan(names, views));
        r
    }

    /// The health of the outputs by name, given the health of each.
    pub fn health_of_outputs(&self, healthy: &Vec<bool>) -> (r: StringMap<bool>)
        requires
            healthy@.len() == self.outputs().len(),
        ensures
            r@ == health_by_name(self.output_names(), healthy@),
    {
        let ghost names = self.output_names();
        let mut r: StringMap<bool> = StringMap::new();
        let mut i: usize = 0;
        assert(names.take(0) =~= Seq::<Seq<char>>::empty());
        while i < self.outputs.len()
            invariant
                i <= self.outputs@.len(),
                healthy@.len() == self.outputs@.len(),
                names == self.output_names(),
                r@ == health_by_name(names.take(i as int), healthy@),
            decreases self.outputs@.len() - i,
        {
            r.insert(self.outputs[i].name().to_string(), healthy[i]);
            proof {
                let head = names.take(i + 1);
                assert(head.drop_last() =~= names.take(i as int));
                assert(head.last() == self.outputs()[i as int].spec_name());
            }
            i += 1;
        }
        assert(names.take(i as int) =~= names);
        r
    }
}

impl Default for PluginRegistry {
    fn default() -> (r: Self)
        ensures
            r.inputs() == Map::<Seq<char>, Arc<dyn Input>>::empty(),
            r.outputs() == Seq::<Arc<dyn Output>>::empty(),
    {
        Self::new()
    }
}

/// Appends an item to a list.
fn append<T>(item: T, list: &mut Vec<T>)
    ensures
        final(list)@ == old(list)@.push(item),
{
    list.push(item);
}

/// Gives a key of a map a value.
fn put<T>(value: T, key: &str, map: &mut StringMap<T>)
    ensures
        final(map)@ == old(map)@.insert(key@, value),
        final(map)@.dom().finite(),
        final(map)@.len() == if old(map)@.contains_key(key@) {
            old(map)@.len()
        } else {
            old(map)@.len() + 1
        },
{
    map.insert(key.to_string(), value);
}

/// Copies of the events without routes.
fn events_without_routes(events: &[Event]) -> (r: Vec<Event>)
    ensures
        proto::event_views(r@) == unrouted(proto::event_views(events@)),
{
    let ghost views = proto::event_views(events@);
    let mut r: Vec<Event> = Vec::new();
    let mut i: usize = 0;
    assert(proto::event_views(r@) =~= Seq::<EventView>::empty());
    while i < events.len()
        invariant
            i <= events@.len(),
            views == proto::event_views(events@),
            proto::event_views(r@) == unrouted(views.take(i as int)),
        decreases events@.len() - i,
    {
        proof {
            let head = views.take(i + 1);
            assert(head.drop_last() =~= views.take(i as int));
            assert(head.last() == events@[i as int]@);
        }
        if events[i].route_to.len() == 0 {
            let event = events[i].clone();
            let ghost before = r@;
            r.push(event);
            assert(proto::event_views(r@) =~= proto::event_views(before).push(event@));
        }
        i += 1;
    }
    assert(views.take(i as int) =~= views);
    r
}

/// Copies of the events whose routes name an output.
fn events_naming(events: &[Event], name: &str) -> (r: Vec<Event>)
    ensures
        proto::event_views(r@) == routed(proto::event_views(events@), name@),
{
    let ghost views = proto::event_views(events@);
    let mut r: Vec<Event> = Vec::new();
    let mut i: usize = 0;
    assert(proto::event_views(r@) =~= Seq::<EventView>::empty());
    while i < events.len()
        invariant
            i <= events@.len(),
            views == proto::event_views(events@),
            proto::event_views(r@) == routed(views.take(i as int), name@),
        decreases events@.len() - i,
    {
        let routes: &Vec<String> = &events[i].route_to;
        let ghost event = events@[i as int]@;
        let ghost hints = text::texts(routes@);
        let ghost so_far = proto::event_views(r@);
        let mut k: usize = 0;
        assert(so_far + copies(event, hints.take(0), name@) =~= so_far);
        while k < routes.len()
            invariant
                i < events@.len(),
                k <= routes@.len(),
                event == events@[i as int]@,
                hints == text::texts(routes@),
                proto::event_views(r@) == so_far + copies(event, hints.take(k as int), name@),
            decreases routes@.len() - k,
        {
            proof {
                let head = hints.take(k + 1);
                assert(head.drop_last() =~= hints.take(k as int));
                assert(head.last() == routes@[k as int]@);
            }
            if same_text(routes[k].as_str(), name) {
                let copy = events[i].clone();
                let ghost before = r@;
                r.push(copy);
                proof {
                    assert(proto::event_views(r@) =~= proto::event_views(before).push(copy@));
                    assert(proto::event_views(r@) =~= so_far + copies(
                        event,
                        hints.take(k + 1),
                        name@,
                    ));
                }
            }
            k += 1;
        }
        proof {
            assert(hints.take(k as int) =~= hints);
            let head = views.take(i + 1);
            assert(head.drop_last() =~= views.take(i as int));
            assert(head.last() == event);
        }
        i += 1;
    }
    assert(views.take(i as int) =~= views);
    r
}

/// Counts the deliveries that succeeded.
pub fn count_successes(results: &Vec<bool>) -> (r: usize)
    ensures
        r == successes(results@),
{
    let mut n: usize = 0;
    let mut i: usize = 0;
    while i < results.len()
        invariant
            n <= i <= results@.len(),
            n == successes(results@.take(i as int)),
        decreases results@.len() - i,
    {
        assert(results@.take(i + 1).drop_last() =~= results@.take(i as int));
        if results[i] {
            n += 1;
        }
        i += 1;
    }
    assert(results@.take(i as int) =~= results@);
    n
}

/// Registering an input decides what becomes of the bytes of its source and of nothing
/// else: the source has an input then, its bytes are transformed by that input, and
/// bytes of other sources as before. There is one input more if the source had none, and
/// as many as before otherwise. The outputs stay.
pub proof fn inputs_are_registered_by_source(
    before: PluginRegistry,
    after: PluginRegistry,
    source: Seq<char>,
    ctx: InputContext,
    data: Seq<u8>,
    r: Result<Vec<Event>, PluginError>,
)
    requires
        before.inputs().dom().finite(),
        after.inputs().contains_key(source),
        after.inputs().remove(source) == before.inputs().remove(source),
        after.outputs() == before.outputs(),
    ensures
        ctx.source@ == source ==> after.transforms(ctx, data, r) == after.inputs()[source].yields(
            ctx,
            data,
            r,
        ),
        ctx.source@ != source ==> after.transforms(ctx, data, r) == before.transforms(ctx, data, r),
        ctx.source@ != source ==> after.inputs().contains_key(ctx.source@)
            == before.inputs().contains_key(ctx.source@),
        after.inputs().len() == if before.inputs().contains_key(source) {
            before.inputs().len()
        } else {
            before.inputs().len() + 1
        },
        after.output_names() == before.output_names(),
{
    let rest = before.inputs().remove(source);
    let other = ctx.source@;
    if other != source {
        let kept = after.inputs().remove(source);
        assert(kept.contains_key(other) == rest.contains_key(other));
        if rest.contains_key(other) {
            assert(kept[other] == after.inputs()[other]);
            assert(rest[other] == before.inputs()[other]);
        }
    }
    assert(rest.dom() =~= before.inputs().dom().remove(source));
    assert(after.inputs().dom() =~= rest.dom().insert(source)) by {
        assert(after.inputs().remove(source).dom() =~= after.inputs().dom().remove(source));
    }
}

/// No more deliveries succeed than are made.
pub proof fn successes_are_bounded(results: Seq<bool>)
    ensures
        successes(results) <= results.len(),
    decreases results.len(),
{
    if results.len() > 0 {
        successes_are_bounded(results.drop_last());
    }
}

/// Sending to all outputs gives each of them all events, in order.
pub proof fn all_outputs_get_all_events(n: nat, events: Seq<EventView>, i: nat)
    ensures
        output::received(broadcast_plan(n, events), i) == if i < n {
            events
        } else {
            Seq::empty()
        },
    decreases n,
{
    if n > 0 {
        let plan = broadcast_plan(n, events);
        let m = (n - 1) as nat;
        assert(plan.drop_last() =~= broadcast_plan(m, events));
        all_outputs_get_all_events(m, events, i);
        assert(Seq::<EventView>::empty() + events =~= events);
    }
}

proof fn named_outputs_get_their_events(
    names: Seq<Seq<char>>,
    events: Seq<EventView>,
    i: nat,
)
    ensures
        output::received(named_plan(names, events), i) == if i < names.len() {
            routed(events, names[i as int])
        } else {
            Seq::empty()
        },
    decreases names.len(),
{
    if names.len() > 0 {
        let rest = names.drop_last();
        let before = named_plan(rest, events);
        let mine = routed(events, names.last());
        named_outputs_get_their_events(rest, events, i);
        if mine.len() > 0 {
            assert(named_plan(names, events).drop_last() =~= before);
            assert(Seq::<EventView>::empty() + mine =~= mine);
        } else {
            assert(mine =~= Seq::<EventView>::empty());
        }
    }
}

/// With routing, an output receives the events without routes, and after them those
/// whose routes name it.
pub proof fn outputs_get_what_is_routed(names: Seq<Seq<char>>, events: Seq<EventView>, i: nat)
    requires
        i < names.len(),
    ensures
        output::received(routing_plan(names, events), i) == unrouted(events) + routed(
            events,
            names[i as int],
        ),
{
    let all = unrouted(events);
    named_outputs_get_their_events(names, events, i);
    if all.len() > 0 {
        let first = broadcast_plan(names.len(), all);
        all_outputs_get_all_events(names.len(), all, i);
        output::received_in_rounds(first, named_plan(names, events), i);
    } else {
        assert(all + routed(events, names[i as int]) =~= routed(events, names[i as int]));
    }
}

proof fn unrouted_events(events: Seq<EventView>, event: EventView)
    ensures
        unrouted(events).contains(event) <==> events.contains(event) && event.route_to.len() == 0,
    decreases events.len(),
{
    if events.len() > 0 {
        let rest = events.drop_last();
        unrouted_events(rest, event);
        contained_in_push(rest, events.last(), event);
        assert(rest.push(events.last()) =~= events);
        contained_in_push(unrouted(rest), events.last(), event);
    }
}

proof fn contained_in_push(s: Seq<EventView>, last: EventView, event: EventView)
    ensures
        s.push(last).contains(event) <==> s.contains(event) || event == last,
{
    let t = s.push(last);
    if s.contains(event) {
        let i = choose|i: int| 0 <= i < s.len() && s[i] == event;
        assert(t[i] == event);
    }
    if event == last {
        assert(t[s.len() as int] == event);
    }
    if t.contains(event) && event != last {
        let i = choose|i: int| 0 <= i < t.len() && t[i] == event;
        assert(s[i] == event);
    }
}

proof fn copies_of_event(
    event: EventView,
    routes: Seq<Seq<char>>,
    name: Seq<char>,
    other: EventView,
)
    ensures
        copies(event, routes, name).contains(other) <==> other == event && routes.contains(name),
    decreases routes.len(),
{
    if routes.len() > 0 {
        let rest = routes.drop_last();
        copies_of_event(event, rest, name, other);
        contained_in_push(copies(event, rest, name), event, other);
        if rest.contains(name) {
            let i = choose|i: int| 0 <= i < rest.len() && rest[i] == name;
            assert(routes[i] == name);
        }
        if routes.last() == name {
            assert(routes[routes.len() - 1] == name);
        } else if routes.contains(name) {
            let i = choose|i: int| 0 <= i < routes.len() && routes[i] == name;
            assert(rest[i] == name);
        }
    }
}

proof fn contained_in_sum(a: Seq<EventView>, b: Seq<EventView>, event: EventView)
    ensures
        (a + b).contains(event) <==> a.contains(event) || b.contains(event),
{
    let s = a + b;
    if a.contains(event) {
        let i = choose|i: int| 0 <= i < a.len() && a[i] == event;
        assert(s[i] == event);
    }
    if b.contains(event) {
        let i = choose|i: int| 0 <= i < b.len() && b[i] == event;
        assert(s[a.len() + i] == event);
    }
    if s.contains(event) {
        let i = choose|i: int| 0 <= i < s.len() && s[i] == event;
        if i < a.len() {
            assert(a[i] == event);
        } else {
            assert(b[i - a.len()] == event);
        }
    }
}

proof fn routed_events(events: Seq<EventView>, name: Seq<char>, event: EventView)
    ensures
        routed(events, name).contains(event) <==> events.contains(event)
            && event.route_to.contains(name),
    decreases events.len(),
{
    if events.len() > 0 {
        let rest = events.drop_last();
        let last = events.last();
        routed_events(rest, name, event);
        contained_in_push(rest, last, event);
        assert(rest.push(last) =~= events);
        copies_of_event(last, last.route_to, name, event);
        contained_in_sum(routed(rest, name), copies(last, last.route_to, name), event);
    }
}

/// With routing, an output receives an event exactly when the event has no routes or
/// one of them names the output.
pub proof fn routing_respects_hints(
    names: Seq<Seq<char>>,
    events: Seq<EventView>,
    i: nat,
    event: EventView,
)
    requires
        i < names.len(),
    ensures
        output::received(routing_plan(names, events), i).contains(event) <==> events.contains(event)
            && message::routes_to(event.route_to, names[i as int]),
{
    outputs_get_what_is_routed(names, events, i);
    unrouted_events(events, event);
    routed_events(events, names[i as int], event);
    contained_in_sum(unrouted(events), routed(events, names[i as int]), event);
}

} // verus!
