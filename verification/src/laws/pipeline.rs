//! Laws of the pipeline: what is taken in, buffered, planned and delivered.

use crate::error::PluginError;
use crate::hub;
use crate::emit::Emitter;
use crate::hub::{EmitterOutput, Hub, HubRunner};
use crate::input::InputContext;
use crate::laws::buffer;
use crate::laws::service;
use crate::laws::stages;
use crate::message;
use crate::message::Message;
use crate::middleware;
use crate::middleware::Middleware;
use crate::output;
use crate::output::{Delivery, Output};
use crate::payload;
use crate::proto;
use crate::proto::{Event, EventView};
use crate::registry;
use crate::registry::PluginRegistry;
use crate::string_map::StringMap;
use crate::text;
use std::sync::Arc;
use vstd::prelude::*;

verus! {

/// Routes mean a destination: there are none, or one of them is its name.
pub open spec fn means(routes: Seq<Seq<char>>, name: Seq<char>) -> bool {
    routes.len() == 0 || exists|i: int| 0 <= i < routes.len() && #[trigger] routes[i] == name
}

/// A message is meant for a destination exactly when its routes mean it.
pub proof fn routes_decide(msg: Message, name: &str, r: bool)
    requires
        call_ensures(Message::should_route_to, (&msg, name), r),
    ensures
        r <==> means(text::texts(msg.route_to@), name@),
{
}

/// `chosen` are the events that are meant for a destination: `places` tells where they
/// stand among all, in order, and no other is meant for it.
pub open spec fn is_share(
    all: Seq<EventView>,
    chosen: Seq<EventView>,
    name: Seq<char>,
    places: Seq<int>,
) -> bool {
    &&& places.len() == chosen.len()
    &&& forall|i: int|
        0 <= i < places.len() ==> 0 <= #[trigger] places[i] < all.len() && chosen[i]
            == all[places[i]] && means(all[places[i]].route_to, name)
    &&& forall|i: int, j: int|
        0 <= i < j < places.len() ==> #[trigger] places[i] < #[trigger] places[j]
    &&& forall|k: int|
        0 <= k < all.len() && means((#[trigger] all[k]).route_to, name) ==> places.contains(k)
}

proof fn shares(all: Seq<EventView>, name: Seq<char>) -> (places: Seq<int>)
    ensures
        is_share(all, output::meant_for(all, name), name, places),
    decreases all.len(),
{
    if all.len() == 0 {
        Seq::empty()
    } else {
        let rest = all.drop_last();
        let before = output::meant_for(rest, name);
        let known = shares(rest, name);
        let last = all.last();
        assert(means(last.route_to, name) <==> message::routes_to(last.route_to, name));
        let places = if message::routes_to(last.route_to, name) {
            known.push(all.len() - 1)
        } else {
            known
        };
        let chosen = output::meant_for(all, name);
        assert forall|i: int| 0 <= i < places.len() implies 0 <= #[trigger] places[i] < all.len()
            && chosen[i] == all[places[i]] && means(all[places[i]].route_to, name) by {
            if i < known.len() {
                assert(known[i] == places[i]);
                assert(rest[known[i]] == all[known[i]]);
            }
        }
        assert forall|i: int, j: int| 0 <= i < j < places.len() implies #[trigger] places[i]
            < #[trigger] places[j] by {
            assert(known[i] == places[i]);
            if j < known.len() {
                assert(known[j] == places[j]);
            }
        }
        assert forall|k: int|
            0 <= k < all.len() && means((#[trigger] all[k]).route_to, name) implies places.contains(
            k,
        ) by {
            if k < rest.len() {
                assert(rest[k] == all[k]);
                assert(known.contains(k));
                let i = choose|i: int| 0 <= i < known.len() && known[i] == k;
                assert(places[i] == k);
            } else {
                assert(places[places.len() - 1] == k);
            }
        }
        places
    }
}

/// An output gets copies of exactly the events that are meant for it, in order.
pub proof fn outputs_get_their_share(events: &Vec<Event>, name: &str, r: Vec<Event>)
    requires
        call_ensures(output::events_for, (events, name), r),
    ensures
        exists|places: Seq<int>| #[trigger]
            is_share(proto::event_views(events@), proto::event_views(r@), name@, places),
{
    let places = shares(proto::event_views(events@), name@);
    assert(is_share(proto::event_views(events@), proto::event_views(r@), name@, places));
}

/// A message that is taken in passes through the middleware. What comes out is buffered
/// behind what was there, and the drops for want of room are told; where nothing comes
/// out, the buffer stays as it was.
pub proof fn what_passes_is_buffered<M: Middleware, O: Output + ?Sized>(
    runner: &mut HubRunner<M, O>,
    msg: Message,
    r: Option<usize>,
)
    requires
        call_ensures(HubRunner::<M, O>::accept, (runner, msg), r),
        buffer::fits(old(runner).buffered().items.len(), old(runner).buffered().capacity),
    ensures
        final(runner).outputs() == old(runner).outputs(),
        final(runner).buffered().capacity == old(runner).buffered().capacity,
        exists|passed: Seq<Option<Message>>|
            {
                &&& #[trigger] stages::passes_through(
                    old(runner).stages(),
                    final(runner).stages(),
                    passed,
                )
                &&& passed[0] == Some(msg)
                &&& match passed.last() {
                    Some(out) => {
                        let before = old(runner).buffered();
                        let after = final(runner).buffered();
                        &&& buffer::keeps_the_newest(
                            before.items,
                            seq![out],
                            after.items,
                            before.capacity,
                        )
                        &&& before.items.len() < before.capacity ==> r == Some(0usize)
                        &&& before.items.len() >= before.capacity ==> r == Some(1usize)
                    },
                    None => r is None && final(runner).buffered() == old(runner).buffered(),
                }
            },
{
    let before = old(runner).stages();
    let after = final(runner).stages();
    let (path, out) = choose|path: Seq<Message>, out: Option<Message>|
        {
            &&& #[trigger] middleware::is_way(before, path, out)
            &&& path[0] == msg
            &&& middleware::stages_moved(before, path, after)
            &&& match out {
                Some(passed) => {
                    &&& r == Some(old(runner).buffered().drops(1) as usize)
                    &&& final(runner).buffered() == old(runner).buffered().after_push(
                        seq![passed],
                    )
                },
                None => r is None && final(runner).buffered() == old(runner).buffered(),
            }
        };
    let passed = Seq::new(
        before.len() + 1,
        |j: int|
            if j < path.len() {
                Some(path[j])
            } else {
                None::<Message>
            },
    );
    assert forall|j: int| 0 <= j < before.len() implies match #[trigger] passed[j] {
        Some(m) => before[j].outcome(m, passed[j + 1]) && before[j].moves_to(
            m,
            passed[j + 1],
            after[j].stage_state(),
        ),
        None => passed[j + 1] is None && after[j] == before[j],
    } by {
        if j < path.len() {
            assert(before[j].moves_to(
                path[j],
                middleware::handed_on(path, j),
                after[j].stage_state(),
            ));
            assert(passed[j + 1] == middleware::handed_on(path, j));
            if j + 1 < path.len() {
                assert(before[j].outcome(path[j], Some(path[j + 1])));
            }
        } else {
            assert(after[j] == before[j]);
        }
    }
    assert(stages::passes_through(before, after, passed));
}

/// Every delivery is the share of one output of the events, none is empty, and they come in
/// the order of the outputs, at most one for each. An output without a delivery has no share.
pub open spec fn is_fan_out(
    names: Seq<Seq<char>>,
    all: Seq<EventView>,
    deliveries: Seq<Delivery>,
) -> bool {
    &&& forall|k: int|
        0 <= k < deliveries.len() ==> {
            let d = #[trigger] deliveries[k];
            &&& d.output < names.len()
            &&& d.events@.len() > 0
            &&& exists|places: Seq<int>| #[trigger]
                is_share(all, proto::event_views(d.events@), names[d.output as int], places)
        }
    &&& forall|j: int, k: int|
        0 <= j < k < deliveries.len() ==> (#[trigger] deliveries[j]).output < (
        #[trigger] deliveries[k]).output
    &&& forall|i: int|
        0 <= i < names.len() ==> {
            ||| exists|k: int| 0 <= k < deliveries.len() && (#[trigger] deliveries[k]).output == i
            ||| forall|e: int|
                0 <= e < all.len() ==> !means((#[trigger] all[e]).route_to, #[trigger] names[i])
        }
}

proof fn fan_outs(names: Seq<Seq<char>>, all: Seq<EventView>, deliveries: Seq<Delivery>)
    requires
        output::delivery_views(deliveries) == hub::fan_out(names, all),
    ensures
        is_fan_out(names, all, deliveries),
    decreases names.len(),
{
    let views = output::delivery_views(deliveries);
    assert(views.len() == deliveries.len());
    if names.len() > 0 {
        let fewer = names.drop_last();
        let last = names.last();
        let mine = output::meant_for(all, last);
        let places = shares(all, last);
        let before = hub::fan_out(fewer, all);
        let n = names.len() - 1;
        let head = if mine.len() > 0 {
            deliveries.drop_last()
        } else {
            deliveries
        };
        assert(output::delivery_views(head) =~= before) by {
            assert forall|k: int| 0 <= k < head.len() implies (#[trigger] head[k])@
                == before[k] by {
                assert(views[k] == deliveries[k]@);
            }
        }
        fan_outs(fewer, all, head);
        if mine.len() > 0 {
            let d = deliveries.last();
            assert(views.last() == d@);
            assert(d.output == n);
            assert(proto::event_views(d.events@).len() == d.events@.len());
            assert(is_share(all, proto::event_views(d.events@), last, places));
        }
        assert forall|k: int| 0 <= k < deliveries.len() implies {
            let d = #[trigger] deliveries[k];
            &&& d.output < names.len()
            &&& d.events@.len() > 0
            &&& exists|places: Seq<int>| #[trigger]
                is_share(all, proto::event_views(d.events@), names[d.output as int], places)
        } by {
            if k < head.len() {
                assert(head[k] == deliveries[k]);
                assert(fewer[head[k].output as int] == names[head[k].output as int]);
            }
        }
        assert forall|j: int, k: int| 0 <= j < k < deliveries.len() implies (
        #[trigger] deliveries[j]).output < (#[trigger] deliveries[k]).output by {
            assert(head[j] == deliveries[j]);
            if k < head.len() {
                assert(head[k] == deliveries[k]);
            }
        }
        assert forall|i: int| 0 <= i < names.len() implies {
            ||| exists|k: int| 0 <= k < deliveries.len() && (#[trigger] deliveries[k]).output == i
            ||| forall|e: int|
                0 <= e < all.len() ==> !means((#[trigger] all[e]).route_to, #[trigger] names[i])
        } by {
            if i < n {
                assert(fewer[i] == names[i]);
                if exists|k: int| 0 <= k < head.len() && (#[trigger] head[k]).output == i {
                    let k = choose|k: int|
                        0 <= k < head.len() && (#[trigger] head[k]).output == i;
                    assert(deliveries[k].output == i);
                }
            } else if mine.len() > 0 {
                assert(deliveries[deliveries.len() - 1].output == i);
            } else {
                assert forall|e: int| 0 <= e < all.len() implies !means(
                    (#[trigger] all[e]).route_to,
                    names[i],
                ) by {
                    if means(all[e].route_to, last) {
                        assert(places.contains(e));
                    }
                }
            }
        }
    }
}

/// The events of messages say what the messages say, one for each and in order.
pub open spec fn are_events_of(all: Seq<EventView>, messages: Seq<Message>) -> bool {
    &&& all.len() == messages.len()
    &&& forall|i: int|
        0 <= i < all.len() ==> {
            let e = #[trigger] all[i];
            let m = messages[i];
            &&& e.id == m.id@
            &&& e.timestamp_unix_ns == m.timestamp
            &&& e.source == m.source@
            &&& e.event_type == m.message_type@
            &&& e.metadata == m.metadata.texts()
            &&& e.payload == payload::contents(m.payload)
            &&& e.route_to == text::texts(m.route_to@)
        }
}

/// A flush takes the oldest messages from the buffer, a hundred unless there are fewer, and
/// gives each output its share of them.
pub proof fn flushes_give_outputs_their_share<M: Middleware, O: Output + ?Sized>(
    runner: &mut HubRunner<M, O>,
    r: Vec<Delivery>,
)
    requires
        call_ensures(HubRunner::<M, O>::flush, (runner,), r),
    ensures
        final(runner).outputs() == old(runner).outputs(),
        final(runner).stages() == old(runner).stages(),
        final(runner).buffered().capacity == old(runner).buffered().capacity,
        ({
            let held = old(runner).buffered().items;
            let kept = final(runner).buffered().items;
            let taken = held.len() - kept.len();
            &&& taken == 100 || taken < 100 && kept.len() == 0
            &&& kept == held.skip(taken)
            &&& exists|all: Seq<EventView>|
                are_events_of(all, held.take(taken)) && #[trigger] is_fan_out(
                    old(runner).output_names(),
                    all,
                    r@,
                )
        }),
{
    let held = old(runner).buffered().items;
    let kept = final(runner).buffered().items;
    let taken = held.len() - kept.len();
    let batch = held.take(taken);
    assert(old(runner).buffered().oldest(100) =~= batch);
    let all = hub::events_of(message::message_views(batch));
    assert(are_events_of(all, batch));
    fan_outs(old(runner).output_names(), all, r@);
}

/// Finishing takes everything from the buffer.
pub proof fn nothing_stays_when_the_hub_finishes<M: Middleware, O: Output + ?Sized>(
    runner: &mut HubRunner<M, O>,
    r: Vec<Delivery>,
    i: nat,
)
    requires
        call_ensures(HubRunner::<M, O>::finish, (runner,), r),
        i < old(runner).outputs().len(),
    ensures
        final(runner).buffered().items.len() == 0,
        final(runner).outputs() == old(runner).outputs(),
        final(runner).stages() == old(runner).stages(),
        exists|all: Seq<EventView>, places: Seq<int>|
            are_events_of(all, old(runner).buffered().items) && #[trigger] is_share(
                all,
                output::received(output::delivery_views(r@), i),
                old(runner).output_names()[i as int],
                places,
            ),
{
    let held = old(runner).buffered().items;
    let all = hub::events_of(message::message_views(held));
    assert(are_events_of(all, held));
    let name = old(runner).output_names()[i as int];
    let places = shares(all, name);
    let got = output::received(output::delivery_views(r@), i);
    assert(is_share(all, got, name, places));
}

/// What an output receives when deliveries are made: those to it, one after another, and
/// nothing else.
pub proof fn deliveries_are_received_in_order(deliveries: Seq<Delivery>, last: Delivery, i: nat)
    ensures
        output::received(output::delivery_views(Seq::<Delivery>::empty()), i) == Seq::<
            EventView,
        >::empty(),
        output::received(output::delivery_views(deliveries.push(last)), i) == if last.output == i {
            output::received(output::delivery_views(deliveries), i) + proto::event_views(
                last.events@,
            )
        } else {
            output::received(output::delivery_views(deliveries), i)
        },
{
    let all = output::delivery_views(deliveries.push(last));
    assert(all.drop_last() =~= output::delivery_views(deliveries));
    assert(all.last() == last@);
}

/// A hub is built of what it was given: ten thousand messages fit unless told otherwise, and
/// nothing is buffered at first.
pub proof fn hubs_are_built_as_asked<M: Middleware, O: Output>(
    fresh: Hub<M, O>,
    capacity: usize,
    a: Hub<M, O>,
    stage: M,
    b: Hub<M, O>,
    out: O,
    c: Hub<M, O>,
    runner: HubRunner<M, O>,
)
    requires
        call_ensures(Hub::<M, O>::new, (), fresh),
        call_ensures(Hub::<M, O>::buffer_capacity, (fresh, capacity), a),
        call_ensures(Hub::<M, O>::middleware, (a, stage), b),
        call_ensures(Hub::<M, O>::output, (b, out), c),
        call_ensures(Hub::<M, O>::build, (c,), runner),
    ensures
        fresh.capacity() == 10_000,
        runner.buffered().capacity == capacity,
        runner.buffered().items.len() == 0,
        runner.stages() == seq![stage],
        runner.outputs() == seq![Arc::new(out)],
        runner.output_names() == seq![out.spec_name()],
{
    assert(runner.stages() =~= seq![stage]);
    assert(runner.outputs() =~= seq![Arc::new(out)]);
    assert(runner.output_names() =~= seq![out.spec_name()]);
}

/// An emitter can be an output of a hub, under its own name.
pub proof fn emitters_are_outputs_of_the_same_name<M: Middleware, E: Emitter + ?Sized>(
    hub: Hub<M, EmitterOutput<E>>,
    emitter: Arc<E>,
    r: Hub<M, EmitterOutput<E>>,
)
    requires
        call_ensures(Hub::<M, EmitterOutput<E>>::emitter_arc, (hub, emitter), r),
    ensures
        r.outputs().len() == hub.outputs().len() + 1,
        r.outputs().drop_last() == hub.outputs(),
        r.outputs().last().inner() == emitter,
        r.outputs().last().spec_name() == emitter.spec_name(),
        r.stages() == hub.stages(),
        r.capacity() == hub.capacity(),
{
}

/// Sending to all outputs plans one delivery for each, in order, with all events.
pub proof fn all_outputs_are_planned_for(
    registry: PluginRegistry,
    events: &[Event],
    r: Vec<Delivery>,
)
    requires
        call_ensures(PluginRegistry::plan_for_all, (&registry, events), r),
    ensures
        r@.len() == registry.outputs().len(),
        forall|k: int|
            0 <= k < r@.len() ==> (#[trigger] r@[k]).output == k && r@[k].events@.len()
                == events@.len(),
        forall|k: int, i: int|
            0 <= k < r@.len() && 0 <= i < events@.len() ==> service::same_event(
                #[trigger] r@[k].events@[i],
                events@[i],
            ),
{
    let views = output::delivery_views(r@);
    assert(views.len() == r@.len());
    assert forall|k: int| 0 <= k < r@.len() implies (#[trigger] r@[k]).output == k
        && proto::event_views(r@[k].events@) == proto::event_views(events@) && r@[k].events@.len()
        == events@.len() by {
        assert(views[k] == r@[k]@);
        assert(proto::event_views(r@[k].events@).len() == r@[k].events@.len());
    }
    assert forall|k: int, i: int|
        0 <= k < r@.len() && 0 <= i < events@.len() implies service::same_event(
        #[trigger] r@[k].events@[i],
        events@[i],
    ) by {
        assert(proto::event_views(r@[k].events@)[i] == r@[k].events@[i]@);
        assert(proto::event_views(events@)[i] == events@[i]@);
    }
}

/// With routing, an output receives an event exactly when the event is among those to be
/// sent and its routes mean the output.
pub proof fn routing_reaches_who_is_meant(
    registry: PluginRegistry,
    events: &[Event],
    r: Vec<Delivery>,
    i: nat,
    event: EventView,
)
    requires
        call_ensures(PluginRegistry::plan_with_routing, (&registry, events), r),
        i < registry.outputs().len(),
    ensures
        output::received(output::delivery_views(r@), i).contains(event) <==> (exists|k: int|
            0 <= k < events@.len() && (#[trigger] events@[k])@ == event) && means(
            event.route_to,
            registry.output_names()[i as int],
        ),
{
    let views = proto::event_views(events@);
    registry::routing_respects_hints(registry.output_names(), views, i, event);
    if views.contains(event) {
        let k = choose|k: int| 0 <= k < views.len() && views[k] == event;
        assert(events@[k]@ == event);
    }
    if exists|k: int| 0 <= k < events@.len() && (#[trigger] events@[k])@ == event {
        let k = choose|k: int| 0 <= k < events@.len() && (#[trigger] events@[k])@ == event;
        assert(views[k] == event);
    }
}

/// With routing, an output receives first the events without routes, in order and once
/// each, and then those that name it, in order and once for each time that they do.
pub proof fn routing_keeps_the_order(
    registry: PluginRegistry,
    events: &[Event],
    r: Vec<Delivery>,
    before: &[Event],
    fewer: Vec<Delivery>,
    last: Event,
    i: nat,
)
    requires
        call_ensures(PluginRegistry::plan_with_routing, (&registry, events), r),
        call_ensures(PluginRegistry::plan_with_routing, (&registry, before), fewer),
        events@ == before@.push(last),
        i < registry.outputs().len(),
    ensures
        ({
            let got = output::received(output::delivery_views(r@), i);
            let earlier = output::received(output::delivery_views(fewer@), i);
            let name = registry.output_names()[i as int];
            let routes = text::texts(last.route_to@);
            &&& routes.len() == 0 ==> exists|k: int|
                {
                    &&& 0 <= k <= earlier.len()
                    &&& got == #[trigger] earlier.insert(k, last@)
                    &&& forall|j: int| 0 <= j < k ==> (#[trigger] earlier[j]).route_to.len() == 0
                    &&& forall|j: int|
                        k <= j < earlier.len() ==> (#[trigger] earlier[j]).route_to.len() > 0
                }
            &&& routes.len() > 0 && !routes.contains(name) ==> got == earlier
            &&& routes == seq![name] ==> got == earlier.push(last@)
            &&& routes.len() > 0 ==> got == earlier + Seq::new(
                routes.to_multiset().count(name),
                |j: int| last@,
            )
        }),
{
    let name = registry.output_names()[i as int];
    let views = proto::event_views(events@);
    let fewer_views = proto::event_views(before@);
    assert(views.drop_last() =~= fewer_views);
    assert(views.last() == last@);
    registry::outputs_get_what_is_routed(registry.output_names(), views, i);
    registry::outputs_get_what_is_routed(registry.output_names(), fewer_views, i);
    let routes = text::texts(last.route_to@);
    copies_of_the_unnamed(last@, routes, name);
    let a = registry::unrouted(fewer_views);
    let b = registry::routed(fewer_views, name);
    if routes.len() > 0 {
        copies_are_counted(last@, routes, name);
        let more = registry::copies(last@, routes, name);
        assert(a + (b + more) =~= (a + b) + more);
    }
    if routes.len() == 0 {
        assert(registry::copies(last@, routes, name) =~= Seq::<EventView>::empty());
        only_unrouted(fewer_views);
        only_routed(fewer_views, name);
        let earlier = a + b;
        let k = a.len() as int;
        assert(a.push(last@) + (b + registry::copies(last@, routes, name)) =~= earlier.insert(
            k,
            last@,
        ));
        assert forall|j: int| 0 <= j < k implies (#[trigger] earlier[j]).route_to.len() == 0 by {
            assert(earlier[j] == a[j]);
        }
        assert forall|j: int| k <= j < earlier.len() implies (#[trigger] earlier[j]).route_to.len()
            > 0 by {
            assert(earlier[j] == b[j - k]);
        }
    } else if !routes.contains(name) {
        assert(b + registry::copies(last@, routes, name) =~= b);
    }
    if routes == seq![name] {
        assert(routes.drop_last() =~= Seq::<Seq<char>>::empty());
        assert(registry::copies(last@, routes.drop_last(), name) =~= Seq::<EventView>::empty());
        assert(registry::copies(last@, routes, name) =~= seq![last@]);
        assert(a + (b + seq![last@]) =~= (a + b).push(last@));
    }
}

proof fn copies_are_counted(event: EventView, routes: Seq<Seq<char>>, name: Seq<char>)
    ensures
        registry::copies(event, routes, name) == Seq::new(
            routes.to_multiset().count(name),
            |j: int| event,
        ),
    decreases routes.len(),
{
    broadcast use vstd::seq_lib::group_to_multiset_ensures;

    if routes.len() == 0 {
        assert(routes =~= Seq::<Seq<char>>::empty());
        assert(routes.to_multiset().count(name) == 0);
        assert(registry::copies(event, routes, name) =~= Seq::new(0, |j: int| event));
    } else {
        let rest = routes.drop_last();
        copies_are_counted(event, rest, name);
        assert(routes =~= rest.push(routes.last()));
        assert(registry::copies(event, routes, name) =~= Seq::new(
            routes.to_multiset().count(name),
            |j: int| event,
        ));
    }
}

proof fn only_unrouted(events: Seq<EventView>)
    ensures
        forall|j: int|
            0 <= j < registry::unrouted(events).len() ==> (#[trigger] registry::unrouted(
                events,
            )[j]).route_to.len() == 0,
    decreases events.len(),
{
    if events.len() > 0 {
        only_unrouted(events.drop_last());
        let before = registry::unrouted(events.drop_last());
        let now = registry::unrouted(events);
        assert forall|j: int| 0 <= j < now.len() implies (#[trigger] now[j]).route_to.len()
            == 0 by {
            if j < before.len() {
                assert(now[j] == before[j]);
            }
        }
    }
}

proof fn only_copies(event: EventView, routes: Seq<Seq<char>>, name: Seq<char>)
    ensures
        forall|j: int|
            0 <= j < registry::copies(event, routes, name).len() ==> #[trigger] registry::copies(
                event,
                routes,
                name,
            )[j] == event,
    decreases routes.len(),
{
    if routes.len() > 0 {
        only_copies(event, routes.drop_last(), name);
        let before = registry::copies(event, routes.drop_last(), name);
        let now = registry::copies(event, routes, name);
        assert forall|j: int| 0 <= j < now.len() implies #[trigger] now[j] == event by {
            if j < before.len() {
                assert(now[j] == before[j]);
            }
        }
    }
}

proof fn only_routed(events: Seq<EventView>, name: Seq<char>)
    ensures
        forall|j: int|
            0 <= j < registry::routed(events, name).len() ==> (#[trigger] registry::routed(
                events,
                name,
            )[j]).route_to.len() > 0,
    decreases events.len(),
{
    if events.len() > 0 {
        let last = events.last();
        only_routed(events.drop_last(), name);
        only_copies(last, last.route_to, name);
        let before = registry::routed(events.drop_last(), name);
        let now = registry::routed(events, name);
        let more = registry::copies(last, last.route_to, name);
        assert forall|j: int| 0 <= j < now.len() implies (#[trigger] now[j]).route_to.len() > 0 by {
            if j < before.len() {
                assert(now[j] == before[j]);
            } else {
                assert(now[j] == more[j - before.len()]);
            }
        }
    }
}

proof fn copies_of_the_unnamed(event: EventView, routes: Seq<Seq<char>>, name: Seq<char>)
    ensures
        !routes.contains(name) ==> registry::copies(event, routes, name).len() == 0,
    decreases routes.len(),
{
    if routes.len() > 0 && !routes.contains(name) {
        let rest = routes.drop_last();
        assert(routes[routes.len() - 1] == routes.last());
        if rest.contains(name) {
            let i = choose|i: int| 0 <= i < rest.len() && rest[i] == name;
            assert(routes[i] == name);
        }
        copies_of_the_unnamed(event, rest, name);
    }
}

/// As many deliveries succeeded as are told to have: the count goes up by one for each
/// that did, and not for the others.
pub proof fn successes_are_counted(
    results: &Vec<bool>,
    n: usize,
    before: &Vec<bool>,
    m: usize,
    last: bool,
)
    requires
        call_ensures(registry::count_successes, (results,), n),
        call_ensures(registry::count_successes, (before,), m),
        results@ == before@.push(last),
    ensures
        last ==> n == m + 1,
        !last ==> n == m,
        before@.len() == 0 ==> m == 0,
{
    assert(results@.drop_last() =~= before@);
}

/// The health of every output is told under its name; of outputs with one name the last
/// counts, and nothing else is told.
pub proof fn output_health_is_told_by_name(
    registry: PluginRegistry,
    healthy: &Vec<bool>,
    r: StringMap<bool>,
    i: int,
    name: Seq<char>,
)
    requires
        healthy@.len() == registry.outputs().len(),
        call_ensures(PluginRegistry::health_of_outputs, (&registry, healthy), r),
        0 <= i < registry.outputs().len(),
        forall|j: int|
            i < j < registry.outputs().len() ==> #[trigger] registry.output_names()[j]
                != registry.output_names()[i],
    ensures
        r@.contains_key(registry.output_names()[i]),
        r@[registry.output_names()[i]] == healthy@[i],
        r@.contains_key(name) ==> registry.output_names().contains(name),
{
    told_by_name(registry.output_names(), healthy@, i, name);
}

proof fn told_by_name(names: Seq<Seq<char>>, healthy: Seq<bool>, i: int, name: Seq<char>)
    requires
        0 <= i < names.len(),
        forall|j: int| i < j < names.len() ==> #[trigger] names[j] != names[i],
    ensures
        registry::health_by_name(names, healthy).contains_key(names[i]),
        registry::health_by_name(names, healthy)[names[i]] == healthy[i],
        registry::health_by_name(names, healthy).contains_key(name) ==> names.contains(name),
    decreases names.len(),
{
    let rest = names.drop_last();
    only_names_are_told(names, healthy, name);
    if i < rest.len() {
        assert(names[names.len() - 1] != names[i]);
        assert forall|j: int| i < j < rest.len() implies #[trigger] rest[j] != rest[i] by {
            assert(names[j] != names[i]);
        }
        told_by_name(rest, healthy, i, name);
        assert(rest[i] == names[i]);
    }
}

proof fn only_names_are_told(names: Seq<Seq<char>>, healthy: Seq<bool>, name: Seq<char>)
    ensures
        registry::health_by_name(names, healthy).contains_key(name) ==> names.contains(name),
    decreases names.len(),
{
    if names.len() > 0 {
        let rest = names.drop_last();
        only_names_are_told(rest, healthy, name);
        assert(names[names.len() - 1] == names.last());
        if rest.contains(name) {
            let i = choose|i: int| 0 <= i < rest.len() && rest[i] == name;
            assert(names[i] == name);
        }
    }
}

/// Bytes are transformed by the input of their source, and refused where it has none.
pub proof fn bytes_are_transformed_by_their_input(
    registry: PluginRegistry,
    ctx: InputContext,
    data: &[u8],
    r: Result<Vec<Event>, PluginError>,
    known: bool,
)
    requires
        call_ensures(PluginRegistry::transform, (&registry, &ctx, data), r),
        call_ensures(PluginRegistry::has_input, (&registry, ctx.source), known),
    ensures
        known ==> registry.inputs()[ctx.source@].yields(ctx, data@, r),
        !known ==> (r matches Err(PluginError::Transform(m)) && m@
            == "No input registered for source '"@ + ctx.source@ + "'"@),
{
}

/// A new registry is empty, and a registry counts what is registered.
pub proof fn registries_count_their_plugins(
    fresh: PluginRegistry,
    registry: PluginRegistry,
    inputs: usize,
    outputs: usize,
)
    requires
        call_ensures(PluginRegistry::new, (), fresh),
        call_ensures(PluginRegistry::input_count, (&registry,), inputs),
        call_ensures(PluginRegistry::output_count, (&registry,), outputs),
    ensures
        fresh.inputs().dom() == Set::<Seq<char>>::empty(),
        fresh.outputs().len() == 0,
        inputs == registry.inputs().dom().len(),
        outputs == registry.outputs().len(),
        registry == fresh ==> inputs == 0 && outputs == 0,
{
    assert(fresh.inputs().dom() =~= Set::<Seq<char>>::empty());
}

} // verus!
