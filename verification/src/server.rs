//! The gateway service: what answers the requests of clients.
//!
//! Events that come ready are passed through; raw bytes are transformed by the input
//! of their source.

use crate::buffer::RingBuffer;
use crate::error::{Code, PluginError, Status, StatusView};
use crate::input::InputContext;
use crate::message;
use crate::message::Message;
use crate::number;
use crate::number::decimal_text;
use crate::proto;
use crate::proto::ingest_batch;
use crate::proto::ingest_event;
use crate::proto::{
    clone_events, Ack, ComponentHealth, Event, EventView, HealthResponse, IngestBatch, IngestEvent,
};
use crate::registry::PluginRegistry;
use crate::ring;
use crate::ring::{count, RingState};
use crate::stamp;
use crate::stamp::seconds_since;
use crate::string_map::StringMap;
use crate::text;
use crate::text::{join2, join4};
use std::sync::Arc;
use std::time::Instant;
use vstd::prelude::*;

verus! {

/// The status of a request whose bytes could not be transformed.
pub open spec fn transform_failed(source: Seq<char>, reason: Seq<char>) -> StatusView {
    StatusView {
        code: Code::Unimplemented,
        message: "Transform failed for source '"@ + source + "': "@ + reason,
    }
}

/// The answer to a request of one event, given what transforming its bytes gave.
pub open spec fn answers_one(
    source: Seq<char>,
    outcome: Result<Vec<Event>, PluginError>,
    r: Result<Event, Status>,
) -> bool {
    match outcome {
        Ok(events) => if events@.len() == 0 {
            r matches Err(status) && status@ == (StatusView {
                code: Code::InvalidArgument,
                message: "Transform produced no events"@,
            })
        } else {
            r == Ok::<Event, Status>(events@[0])
        },
        Err(e) => r matches Err(status) && status@ == transform_failed(source, e@.text()),
    }
}

/// The answer to a request of many events, given what transforming its bytes gave.
pub open spec fn answers_many(
    source: Seq<char>,
    outcome: Result<Vec<Event>, PluginError>,
    r: Result<Vec<Event>, Status>,
) -> bool {
    match outcome {
        Ok(events) => r == Ok::<Vec<Event>, Status>(events),
        Err(e) => r matches Err(status) && status@ == transform_failed(source, e@.text()),
    }
}

/// The first of the events that a transformation gave, or the status of its failure.
pub fn first_event(source: &str, outcome: Result<Vec<Event>, PluginError>) -> (r: Result<
    Event,
    Status,
>)
    ensures
        answers_one(source@, outcome, r),
{
    match outcome {
        Ok(events) => {
            let mut events = events;
            if events.len() == 0 {
                Err(
                    Status::new(
                        Code::InvalidArgument,
                        "Transform produced no events".to_string(),
                    ),
                )
            } else {
                Ok(events.remove(0))
            }
        },
        Err(e) => Err(failure(source, &e)),
    }
}

/// The events that a transformation gave, or the status of its failure.
pub fn all_events(source: &str, outcome: Result<Vec<Event>, PluginError>) -> (r: Result<
    Vec<Event>,
    Status,
>)
    ensures
        answers_many(source@, outcome, r),
{
    match outcome {
        Ok(events) => Ok(events),
        Err(e) => Err(failure(source, &e)),
    }
}

/// The status of a transformation that failed.
fn failure(source: &str, e: &PluginError) -> (r: Status)
    ensures
        r@ == transform_failed(source@, e@.text()),
{
    Status::new(
        Code::Unimplemented,
        join4("Transform failed for source '", source, "': ", e.to_text().as_str()),
    )
}

/// The event of a request may be `r`.
pub open spec fn ingests_one(
    registry: PluginRegistry,
    ingest: IngestEvent,
    r: Result<Event, Status>,
) -> bool {
    match ingest.payload {
        Some(ingest_event::Payload::Event(event)) => r matches Ok(e) && e@ == event@,
        Some(ingest_event::Payload::Raw(data)) => exists|
            ctx: InputContext,
            outcome: Result<Vec<Event>, PluginError>,
        |
            {
                &&& #[trigger] registry.transforms(ctx, data@, outcome)
                &&& ctx.source@ == ingest.source@
                &&& ctx.cluster@ == ingest.cluster@
                &&& ctx.format@ == ingest.format@
                &&& answers_one(ingest.source@, outcome, r)
            },
        None => r matches Err(status) && status@ == (StatusView {
            code: Code::InvalidArgument,
            message: "Event payload is empty"@,
        }),
    }
}

/// The events of a batch may be `r`.
pub open spec fn ingests_batch(
    registry: PluginRegistry,
    batch: IngestBatch,
    r: Result<Vec<Event>, Status>,
) -> bool {
    match batch.payload {
        Some(ingest_batch::Payload::Events(payload)) => r matches Ok(events) && proto::event_views(
            events@,
        ) == proto::event_views(payload.events@),
        Some(ingest_batch::Payload::Raw(payload)) => exists|
            ctx: InputContext,
            outcome: Result<Vec<Event>, PluginError>,
        |
            {
                &&& #[trigger] registry.transforms(ctx, payload.data@, outcome)
                &&& ctx.source@ == batch.source@
                &&& ctx.cluster@ == batch.cluster@
                &&& ctx.format@ == payload.format@
                &&& answers_many(batch.source@, outcome, r)
            },
        None => r matches Ok(events) && events@.len() == 0,
    }
}

/// The events of a batch: those it carries, or what its bytes are transformed into.
pub fn process_batch_with_registry(batch: &IngestBatch, registry: &PluginRegistry) -> (r: Result<
    Vec<Event>,
    Status,
>)
    ensures
        ingests_batch(*registry, *batch, r),
{
    match &batch.payload {
        Some(ingest_batch::Payload::Events(payload)) => Ok(
            clone_events(payload.events.as_slice()),
        ),
        Some(ingest_batch::Payload::Raw(payload)) => {
            let ctx = InputContext {
                source: batch.source.as_str(),
                cluster: batch.cluster.as_str(),
                format: payload.format.as_str(),
            };
            let outcome = registry.transform(&ctx, payload.data.as_slice());
            assert(registry.transforms(ctx, payload.data@, outcome));
            all_events(batch.source.as_str(), outcome)
        },
        None => Ok(Vec::new()),
    }
}

/// `held` are the messages that stand for events.
pub open spec fn stand_for(held: Seq<Message>, events: Seq<EventView>) -> bool {
    message::message_views(held) == Seq::new(events.len(), |i: int| events[i].to_message())
}

/// The messages that stand for events.
fn to_messages(events: Vec<Event>) -> (r: Vec<Message>)
    ensures
        stand_for(r@, proto::event_views(events@)),
{
    let ghost views = proto::event_views(events@);
    let ghost wanted = Seq::new(views.len(), |i: int| views[i].to_message());
    let ghost all = events@;
    let mut r: Vec<Message> = Vec::new();
    for event in it: events
        invariant
            it.seq() == all,
            views == proto::event_views(all),
            wanted == Seq::new(views.len(), |i: int| views[i].to_message()),
            message::message_views(r@) == wanted.take(it.index()),
    {
        let ghost before = r@;
        let ghost k = it.index();
        assert(views[k] == event@);
        let msg = Message::from(event);
        r.push(msg);
        assert(message::message_views(r@) =~= message::message_views(before).push(msg@));
        assert(message::message_views(r@) =~= wanted.take(k + 1));
    }
    assert(wanted.take(wanted.len() as int) =~= wanted);
    r
}

/// Copies of the identifiers of events.
fn ids_of(events: &Vec<Event>) -> (r: Vec<String>)
    ensures
        text::texts(r@) == proto::event_ids(proto::event_views(events@)),
{
    let ghost ids = proto::event_ids(proto::event_views(events@));
    let mut r: Vec<String> = Vec::new();
    let mut i: usize = 0;
    while i < events.len()
        invariant
            i <= events@.len(),
            ids == proto::event_ids(proto::event_views(events@)),
            text::texts(r@) == ids.take(i as int),
        decreases events@.len() - i,
    {
        let id = events[i].id.clone();
        let ghost before = r@;
        r.push(id);
        assert(text::texts(r@) =~= text::texts(before).push(id@));
        i += 1;
        assert(text::texts(r@) =~= ids.take(i as int));
    }
    assert(ids.take(i as int) =~= ids);
    r
}

/// An answer that names accepted events and tells the state of the buffer.
pub open spec fn acknowledges(ack: Ack, ids: Seq<Seq<char>>, buffer: RingState<Message>) -> bool {
    &&& text::texts(ack.event_ids@) == ids
    &&& ack.errors@.len() == 0
    &&& ack.buffer_size == buffer.items.len() as i64
    &&& ack.buffer_capacity == buffer.capacity as i64
}

/// The mathematical state of a [`GatewayService`].
#[verifier::ext_equal]
pub struct ServiceState {
    /// The buffer.
    pub buffer: RingState<Message>,
    /// How many events were accepted; the counter wraps around.
    pub processed: u64,
    /// When the service started.
    pub start_time: Instant,
}

/// `held` stands for an event.
pub open spec fn stands_for(held: Message, event: EventView) -> bool {
    held@ == event.to_message()
}

/// Taking in one event may end in `r` and in the state `after`. The event is buffered;
/// it is counted and acknowledged if there was room for it.
pub open spec fn accepts(
    before: ServiceState,
    event: EventView,
    r: Result<Ack, Status>,
    after: ServiceState,
) -> bool {
    &&& after.start_time == before.start_time
    &&& exists|held: Message| #[trigger]
        stands_for(held, event) && after.buffer == before.buffer.after_push(seq![held])
    &&& match r {
        Ok(ack) => {
            &&& before.buffer.items.len() < before.buffer.capacity
            &&& after.processed == ring::counted(before.processed, 1)
            &&& acknowledges(ack, seq![event.id], after.buffer)
        },
        Err(status) => {
            &&& before.buffer.items.len() >= before.buffer.capacity
            &&& after.processed == before.processed
            &&& status@ == (StatusView {
                code: Code::ResourceExhausted,
                message: "Buffer full, event dropped"@,
            })
        },
    }
}

/// Taking in the events of a batch may end in the state `after`: all of them are
/// buffered and counted.
pub open spec fn accepts_batch(
    before: ServiceState,
    events: Seq<EventView>,
    after: ServiceState,
) -> bool {
    &&& after.start_time == before.start_time
    &&& after.processed == ring::counted(before.processed, events.len())
    &&& if events.len() == 0 {
        after.buffer == before.buffer
    } else {
        exists|held: Seq<Message>| #[trigger]
            stand_for(held, events) && after.buffer == before.buffer.after_push(held)
    }
}

/// The gateway service.
pub struct GatewayService {
    buffer: RingBuffer,
    registry: Arc<PluginRegistry>,
    start_time: Instant,
    events_processed: u64,
}

impl View for GatewayService {
    type V = ServiceState;

    closed spec fn view(&self) -> ServiceState {
        ServiceState {
            buffer: self.buffer@,
            processed: self.events_processed,
            start_time: self.start_time,
        }
    }
}

/// The health of the buffer.
pub open spec fn is_buffer_health(health: ComponentHealth, buffer: RingState<Message>) -> bool {
    &&& health.healthy == (buffer.items.len() < buffer.capacity)
    &&& health.message@ == "Buffer: "@ + number::decimal(buffer.items.len()) + "/"@
        + number::decimal(buffer.capacity)
}

/// The health of an output.
pub open spec fn is_output_health(health: ComponentHealth, healthy: bool) -> bool {
    &&& health.healthy == healthy
    &&& health.message@ == if healthy {
        "OK"@
    } else {
        "Unhealthy"@
    }
}

/// The name of an output among the components of a gateway.
pub open spec fn output_component(name: Seq<char>) -> Seq<char> {
    "output:"@ + name
}

/// The answer to a health request: the buffer and every output, each by its name.
pub open spec fn tells_health(
    response: HealthResponse,
    state: ServiceState,
    outputs: Map<Seq<char>, bool>,
) -> bool {
    &&& response.healthy
    &&& response.events_processed == state.processed
    &&& response.components@.contains_key("buffer"@)
    &&& is_buffer_health(response.components@["buffer"@], state.buffer)
    &&& forall|name: Seq<char>| #[trigger]
        outputs.contains_key(name) ==> {
            &&& response.components@.contains_key(output_component(name))
            &&& is_output_health(response.components@[output_component(name)], outputs[name])
        }
    &&& forall|component: Seq<char>| #[trigger]
        response.components@.contains_key(component) ==> component == "buffer"@ || exists|
            name: Seq<char>,
        | #[trigger]
            outputs.contains_key(name) && component == output_component(name)
}

impl GatewayService {
    /// The plugins.
    pub closed spec fn registry(self) -> PluginRegistry {
        *self.registry
    }

    /// A service without plugins.
    pub fn new(buffer: RingBuffer) -> (r: Self)
        ensures
            r@ == (ServiceState { buffer: buffer@, processed: 0, start_time: r@.start_time }),
            r.registry().inputs().len() == 0,
            r.registry().outputs().len() == 0,
    {
        Self::with_registry(buffer, Arc::new(PluginRegistry::new()))
    }

    /// A service with plugins.
    pub fn with_registry(buffer: RingBuffer, registry: Arc<PluginRegistry>) -> (r: Self)
        ensures
            r@ == (ServiceState { buffer: buffer@, processed: 0, start_time: r@.start_time }),
            r.registry() == *registry,
    {
        GatewayService { buffer, registry, start_time: Instant::now(), events_processed: 0 }
    }

    /// The event of a request: the one it carries, or the first one that its bytes are
    /// transformed into.
    pub fn process_event(&self, ingest: &IngestEvent) -> (r: Result<Event, Status>)
        ensures
            ingests_one(self.registry(), *ingest, r),
    {
        match &ingest.payload {
            Some(ingest_event::Payload::Event(event)) => Ok(event.clone()),
            Some(ingest_event::Payload::Raw(data)) => {
                let ctx = InputContext {
                    source: ingest.source.as_str(),
                    cluster: ingest.cluster.as_str(),
                    format: ingest.format.as_str(),
                };
                let outcome = self.registry.transform(&ctx, data.as_slice());
                assert(self.registry().transforms(ctx, data@, outcome));
                first_event(ingest.source.as_str(), outcome)
            },
            None => Err(
                Status::new(Code::InvalidArgument, "Event payload is empty".to_string()),
            ),
        }
    }

    /// The answer that names accepted events.
    fn ack(&self, event_ids: Vec<String>) -> (r: Ack)
        ensures
            acknowledges(r, text::texts(event_ids@), self@.buffer),
    {
        Ack {
            event_ids,
            errors: Vec::new(),
            buffer_size: self.buffer.len() as i64,
            buffer_capacity: self.buffer.capacity() as i64,
        }
    }

    /// Takes in the events of a batch and answers it.
    pub fn accept_batch(&mut self, events: Vec<Event>) -> (r: Ack)
        ensures
            final(self).registry() == old(self).registry(),
            accepts_batch(old(self)@, proto::event_views(events@), final(self)@),
            acknowledges(
                r,
                proto::event_ids(proto::event_views(events@)),
                final(self)@.buffer,
            ),
    {
        let event_ids = ids_of(&events);
        let n: usize = events.len();
        let messages = to_messages(events);
        if n > 0 {
            self.buffer.push(messages);
            self.events_processed = count(self.events_processed, n);
        }
        self.ack(event_ids)
    }

    /// Answers a batch of a stream: transforms it if need be and takes in its events.
    pub fn handle_batch(&mut self, batch: &IngestBatch) -> (r: Result<Ack, Status>)
        ensures
            final(self).registry() == old(self).registry(),
            exists|outcome: Result<Vec<Event>, Status>|
                {
                    &&& #[trigger] ingests_batch(old(self).registry(), *batch, outcome)
                    &&& match outcome {
                        Ok(events) => {
                            &&& r matches Ok(ack) && acknowledges(
                                ack,
                                proto::event_ids(proto::event_views(events@)),
                                final(self)@.buffer,
                            )
                            &&& accepts_batch(
                                old(self)@,
                                proto::event_views(events@),
                                final(self)@,
                            )
                        },
                        Err(status) => r == Err::<Ack, Status>(status) && final(self)@ == old(
                            self,
                        )@,
                    }
                },
    {
        let outcome = process_batch_with_registry(batch, &self.registry);
        assert(ingests_batch(old(self).registry(), *batch, outcome));
        match outcome {
            Ok(events) => Ok(self.accept_batch(events)),
            Err(status) => Err(status),
        }
    }

    /// Takes in one event and answers it. Where the buffer is full, the oldest message
    /// makes room and the request fails.
    pub fn accept_event(&mut self, event: Event) -> (r: Result<Ack, Status>)
        ensures
            final(self).registry() == old(self).registry(),
            accepts(old(self)@, event@, r, final(self)@),
    {
        let event_id = event.id.clone();
        let msg = Message::from(event);
        assert(stands_for(msg, event@));
        let mut messages: Vec<Message> = Vec::new();
        messages.push(msg);
        assert(messages@ =~= seq![msg]);
        let dropped: usize = self.buffer.push(messages);
        if dropped > 0 {
            return Err(
                Status::new(
                    Code::ResourceExhausted,
                    "Buffer full, event dropped".to_string(),
                ),
            );
        }
        self.events_processed = count(self.events_processed, 1);
        let mut ids: Vec<String> = Vec::new();
        ids.push(event_id);
        assert(text::texts(ids@) =~= seq![event_id@]);
        Ok(self.ack(ids))
    }

    /// Answers a request of one event: transforms it if need be and takes it in.
    pub fn send_event(&mut self, ingest: &IngestEvent) -> (r: Result<Ack, Status>)
        ensures
            final(self).registry() == old(self).registry(),
            exists|outcome: Result<Event, Status>|
                {
                    &&& #[trigger] ingests_one(old(self).registry(), *ingest, outcome)
                    &&& match outcome {
                        Ok(event) => accepts(old(self)@, event@, r, final(self)@),
                        Err(status) => r == Err::<Ack, Status>(status) && final(self)@ == old(
                            self,
                        )@,
                    }
                },
    {
        let outcome = self.process_event(ingest);
        assert(ingests_one(old(self).registry(), *ingest, outcome));
        match outcome {
            Ok(event) => self.accept_event(event),
            Err(status) => Err(status),
        }
    }

    /// Answers a health request, given the health of the outputs and the time since
    /// the start.
    pub fn health_at(&self, outputs: &StringMap<bool>, uptime_seconds: i64) -> (r: HealthResponse)
        ensures
            tells_health(r, self@, outputs@),
            r.uptime_seconds == uptime_seconds,
    {
        let buffer_health = ComponentHealth {
            healthy: !self.buffer.is_full(),
            message: join4(
                "Buffer: ",
                decimal_text(self.buffer.len() as u64).as_str(),
                "/",
                decimal_text(self.buffer.capacity() as u64).as_str(),
            ),
        };
        let mut components: StringMap<ComponentHealth> = StringMap::new();
        components.insert("buffer".to_string(), buffer_health);
        let n: usize = outputs.len();
        let ghost all = outputs.entries();
        let mut i: usize = 0;
        while i < n
            invariant
                i <= n == all.len(),
                all == outputs.entries(),
                forall|p: int, q: int|
                    0 <= p < q < all.len() ==> (#[trigger] all[p]).0 != (#[trigger] all[q]).0,
                components@.contains_key("buffer"@),
                is_buffer_health(components@["buffer"@], self@.buffer),
                forall|j: int|
                    0 <= j < i ==> components@.contains_key(
                        output_component((#[trigger] all[j]).0),
                    ) && is_output_health(
                        components@[output_component(all[j].0)],
                        all[j].1,
                    ),
                forall|component: Seq<char>| #[trigger]
                    components@.contains_key(component) ==> component == "buffer"@ || exists|j: int|
                        0 <= j < i && component == output_component((#[trigger] all[j]).0),
            decreases n - i,
        {
            let healthy = *outputs.value_at(i);
            let name = outputs.key_at(i);
            let component = join2("output:", name.as_str());
            let ghost before = components@;
            components.insert(
                component,
                ComponentHealth {
                    healthy,
                    message: if healthy {
                        "OK".to_string()
                    } else {
                        "Unhealthy".to_string()
                    },
                },
            );
            proof {
                buffer_is_no_output(all[i as int].0);
                assert forall|j: int| 0 <= j < i + 1 implies components@.contains_key(
                    output_component((#[trigger] all[j]).0),
                ) && is_output_health(
                    components@[output_component(all[j].0)],
                    all[j].1,
                ) by {
                    if j < i {
                        output_components_differ(all[j].0, all[i as int].0);
                    }
                }
                assert forall|c: Seq<char>| #[trigger] components@.contains_key(c) implies c
                    == "buffer"@ || exists|j: int|
                    0 <= j < i + 1 && c == output_component((#[trigger] all[j]).0) by {
                    if c == output_component(all[i as int].0) {
                    } else {
                        assert(before.contains_key(c));
                    }
                }
            }
            i += 1;
        }
        proof {
            assert forall|name: Seq<char>| #[trigger] outputs@.contains_key(name) implies {
                &&& components@.contains_key(output_component(name))
                &&& is_output_health(components@[output_component(name)], outputs@[name])
            } by {
                let j = choose|j: int| 0 <= j < all.len() && (#[trigger] all[j]).0 == name;
                assert(all[j].1 == outputs@[name]);
            }
            assert forall|c: Seq<char>| #[trigger] components@.contains_key(c) implies c
                == "buffer"@ || exists|name: Seq<char>| #[trigger]
                outputs@.contains_key(name) && c == output_component(name) by {
                if c != "buffer"@ {
                    let j = choose|j: int|
                        0 <= j < n && c == output_component((#[trigger] all[j]).0);
                    assert(outputs@.contains_key(all[j].0));
                }
            }
        }
        HealthResponse {
            healthy: true,
            components,
            uptime_seconds,
            events_processed: self.events_processed,
        }
    }

    /// Answers a health request, given the health of the outputs.
    pub fn health(&self, outputs: &StringMap<bool>) -> (r: HealthResponse)
        ensures
            tells_health(r, self@, outputs@),
            exists|span: std::time::Duration| #[trigger]
                stamp::may_elapse(self@.start_time, span) && r.uptime_seconds
                    == stamp::whole_seconds(stamp::span_nanos(span)),
    {
        let uptime_seconds: i64 = seconds_since(&self.start_time);
        assert(self@.start_time == self.start_time);
        self.health_at(outputs, uptime_seconds)
    }
}

/// No output is listed under the name of the buffer.
proof fn buffer_is_no_output(name: Seq<char>)
    ensures
        output_component(name) != "buffer"@,
{
    reveal_strlit("buffer");
    reveal_strlit("output:");
    assert(output_component(name)[0] == 'o');
}

/// Outputs with different names are listed under different names.
proof fn output_components_differ(a: Seq<char>, b: Seq<char>)
    requires
        a != b,
    ensures
        output_component(a) != output_component(b),
{
    if output_component(a) == output_component(b) {
        let n = "output:"@.len() as int;
        assert(output_component(a).skip(n) =~= a);
        assert(output_component(b).skip(n) =~= b);
    }
}

/// An event that is taken in is the newest in the buffer, and leaves it as it came,
/// whether or not its request succeeded.
pub proof fn accepted_event_is_buffered(
    before: ServiceState,
    event: EventView,
    r: Result<Ack, Status>,
    after: ServiceState,
)
    requires
        accepts(before, event, r, after),
    ensures
        after.buffer.items.len() > 0,
        after.buffer.items.last()@.to_event() == event,
{
    let held = choose|held: Message| #[trigger]
        stands_for(held, event) && after.buffer == before.buffer.after_push(seq![held]);
    let all = before.buffer.items + seq![held];
    assert(after.buffer.items.last() == all.last());
}

/// The events of a batch that fits follow what was buffered, in order.
pub proof fn accepted_batch_is_buffered(
    before: ServiceState,
    events: Seq<EventView>,
    after: ServiceState,
)
    requires
        accepts_batch(before, events, after),
        before.buffer.items.len() + events.len() <= before.buffer.capacity,
    ensures
        message::message_views(after.buffer.items) == message::message_views(
            before.buffer.items,
        ) + Seq::new(events.len(), |i: int| events[i].to_message()),
{
    let added = Seq::new(events.len(), |i: int| events[i].to_message());
    let old_views = message::message_views(before.buffer.items);
    if events.len() == 0 {
        assert(old_views + added =~= old_views);
    } else {
        let held = choose|held: Seq<Message>| #[trigger]
            stand_for(held, events) && after.buffer == before.buffer.after_push(held);
        assert(message::message_views(held).len() == held.len());
        let all = before.buffer.items + held;
        assert(after.buffer.items =~= all);
        assert(message::message_views(all) =~= old_views + message::message_views(held));
    }
}

} // verus!
