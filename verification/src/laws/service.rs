//! Laws of the gateway service.

use crate::buffer::RingBuffer;
use crate::error::{Code, PluginError, Status};
use crate::input::InputContext;
use crate::laws::buffer;
use crate::message;
use crate::message::Message;
use crate::number;
use crate::proto::ingest_batch;
use crate::proto::ingest_event;
use crate::proto::{Ack, Event, EventPayload, HealthResponse, IngestBatch, IngestEvent, RawPayload};
use crate::payload;
use crate::proto;
use crate::registry::PluginRegistry;
use crate::server;
use crate::stamp;
use crate::server::GatewayService;
use crate::string_map::StringMap;
use crate::text;
use std::sync::Arc;
use vstd::prelude::*;

verus! {

/// Two events say the same in every part.
pub open spec fn same_event(a: Event, b: Event) -> bool {
    &&& a.id@ == b.id@
    &&& a.timestamp_unix_ns == b.timestamp_unix_ns
    &&& a.source@ == b.source@
    &&& a.event_type@ == b.event_type@
    &&& a.metadata.texts() == b.metadata.texts()
    &&& a.payload@ == b.payload@
    &&& text::texts(a.route_to@) == text::texts(b.route_to@)
}

/// A message says what an event says, in every part.
pub open spec fn carries(msg: Message, event: Event) -> bool {
    &&& msg.id@ == event.id@
    &&& msg.timestamp == event.timestamp_unix_ns
    &&& msg.source@ == event.source@
    &&& msg.message_type@ == event.event_type@
    &&& msg.metadata.texts() == event.metadata.texts()
    &&& payload::contents(msg.payload) == event.payload@
    &&& text::texts(msg.route_to@) == text::texts(event.route_to@)
}

/// A request is refused with a code, and a message that begins with a text.
pub open spec fn refused<T>(r: Result<T, Status>, code: Code, head: Seq<char>) -> bool {
    r matches Err(status) && status.code == code && head.is_prefix_of(status.message@)
}

/// A ready event passes as it came.
pub proof fn ready_events_pass_as_they_came(
    service: GatewayService,
    ingest: IngestEvent,
    event: Event,
    r: Result<Event, Status>,
)
    requires
        call_ensures(GatewayService::process_event, (&service, &ingest), r),
        ingest.payload == Some(ingest_event::Payload::Event(event)),
    ensures
        r matches Ok(passed) && same_event(passed, event),
{
}

/// A request without content is refused as an invalid argument.
pub proof fn empty_requests_are_refused(
    service: GatewayService,
    ingest: IngestEvent,
    r: Result<Event, Status>,
)
    requires
        call_ensures(GatewayService::process_event, (&service, &ingest), r),
        ingest.payload is None,
    ensures
        r matches Err(status) && status.code == Code::InvalidArgument && status.message@
            == "Event payload is empty"@,
{
}

/// Bytes of a source that no input is registered for are refused as unimplemented.
pub proof fn unknown_sources_are_refused(
    service: GatewayService,
    ingest: IngestEvent,
    r: Result<Event, Status>,
)
    requires
        call_ensures(GatewayService::process_event, (&service, &ingest), r),
        ingest.payload matches Some(ingest_event::Payload::Raw(_)),
        !service.registry().inputs().contains_key(ingest.source@),
    ensures
        refused(
            r,
            Code::Unimplemented,
            "Transform failed for source '"@ + ingest.source@ + "': "@,
        ),
{
    let status = r->Err_0;
    let head = "Transform failed for source '"@ + ingest.source@ + "': "@;
    assert(status.message@.subrange(0, head.len() as int) =~= head);
}

/// Raw bytes are handed to the input of their source, with the source, the cluster and the
/// format that the request tells; the first event that it makes of them is taken.
pub proof fn raw_bytes_go_to_their_input(
    service: GatewayService,
    ingest: IngestEvent,
    data: Vec<u8>,
    r: Result<Event, Status>,
)
    requires
        call_ensures(GatewayService::process_event, (&service, &ingest), r),
        ingest.payload == Some(ingest_event::Payload::Raw(data)),
        service.registry().inputs().contains_key(ingest.source@),
    ensures
        exists|ctx: InputContext, outcome: Result<Vec<Event>, PluginError>|
            {
                &&& ctx.source@ == ingest.source@
                &&& ctx.cluster@ == ingest.cluster@
                &&& ctx.format@ == ingest.format@
                &&& #[trigger] service.registry().inputs()[ingest.source@].yields(
                    ctx,
                    data@,
                    outcome,
                )
                &&& match outcome {
                    Ok(events) => if events@.len() > 0 {
                        r == Ok::<Event, Status>(events@[0])
                    } else {
                        refused(r, Code::InvalidArgument, "Transform produced no events"@)
                    },
                    Err(e) => refused(
                        r,
                        Code::Unimplemented,
                        "Transform failed for source '"@ + ingest.source@ + "': "@,
                    ),
                }
            },
{
    let (ctx, outcome) = choose|ctx: InputContext, outcome: Result<Vec<Event>, PluginError>|
        {
            &&& #[trigger] service.registry().transforms(ctx, data@, outcome)
            &&& ctx.source@ == ingest.source@
            &&& ctx.cluster@ == ingest.cluster@
            &&& ctx.format@ == ingest.format@
            &&& server::answers_one(ingest.source@, outcome, r)
        };
    assert(service.registry().inputs()[ingest.source@].yields(ctx, data@, outcome));
    if r is Err {
        let told = r->Err_0.message@;
        let head = "Transform failed for source '"@ + ingest.source@ + "': "@;
        if outcome is Err {
            assert(told.subrange(0, head.len() as int) =~= head);
        } else {
            assert(told.subrange(0, told.len() as int) =~= told);
        }
    }
}

/// The raw bytes of a batch are handed to the input of their source, with the source and
/// the cluster that the batch tells and the format of the bytes; all events that it makes
/// of them are taken.
pub proof fn raw_batches_go_to_their_input(
    batch: IngestBatch,
    registry: PluginRegistry,
    raw: RawPayload,
    r: Result<Vec<Event>, Status>,
)
    requires
        call_ensures(server::process_batch_with_registry, (&batch, &registry), r),
        batch.payload == Some(ingest_batch::Payload::Raw(raw)),
        registry.inputs().contains_key(batch.source@),
    ensures
        exists|ctx: InputContext, outcome: Result<Vec<Event>, PluginError>|
            {
                &&& ctx.source@ == batch.source@
                &&& ctx.cluster@ == batch.cluster@
                &&& ctx.format@ == raw.format@
                &&& #[trigger] registry.inputs()[batch.source@].yields(ctx, raw.data@, outcome)
                &&& match outcome {
                    Ok(events) => r == Ok::<Vec<Event>, Status>(events),
                    Err(e) => refused(
                        r,
                        Code::Unimplemented,
                        "Transform failed for source '"@ + batch.source@ + "': "@,
                    ),
                }
            },
{
    let (ctx, outcome) = choose|ctx: InputContext, outcome: Result<Vec<Event>, PluginError>|
        {
            &&& #[trigger] registry.transforms(ctx, raw.data@, outcome)
            &&& ctx.source@ == batch.source@
            &&& ctx.cluster@ == batch.cluster@
            &&& ctx.format@ == raw.format@
            &&& server::answers_many(batch.source@, outcome, r)
        };
    assert(registry.inputs()[batch.source@].yields(ctx, raw.data@, outcome));
    if r is Err {
        let told = r->Err_0.message@;
        let head = "Transform failed for source '"@ + batch.source@ + "': "@;
        assert(told.subrange(0, head.len() as int) =~= head);
    }
}

/// What a request of one event ends in is what its event ends in: a request whose event
/// cannot be had is answered with that status and changes nothing, and any other is
/// answered as the event would be that is taken in.
pub proof fn requests_end_as_their_events(
    service: &mut GatewayService,
    ingest: IngestEvent,
    r: Result<Ack, Status>,
)
    requires
        call_ensures(GatewayService::send_event, (service, &ingest), r),
        ingest.payload is None || (ingest.payload matches Some(ingest_event::Payload::Raw(_))
            && !old(service).registry().inputs().contains_key(ingest.source@)),
    ensures
        r is Err,
        final(service)@ == old(service)@,
        final(service).registry() == old(service).registry(),
        ingest.payload is None ==> refused(r, Code::InvalidArgument, "Event payload is empty"@),
        ingest.payload is Some ==> refused(
            r,
            Code::Unimplemented,
            "Transform failed for source '"@ + ingest.source@ + "': "@,
        ),
{
    let told = r->Err_0.message@;
    let head = "Transform failed for source '"@ + ingest.source@ + "': "@;
    if ingest.payload is None {
        assert(told.subrange(0, told.len() as int) =~= told);
    } else {
        assert(told.subrange(0, head.len() as int) =~= head);
    }
}

/// Raw bytes of one event that an input is there for are handed to it, and the first event
/// that it makes of them is buffered whole.
pub proof fn transformed_events_are_buffered_whole(
    service: &mut GatewayService,
    ingest: IngestEvent,
    data: Vec<u8>,
    ack: Ack,
)
    requires
        call_ensures(GatewayService::send_event, (service, &ingest), Ok(ack)),
        ingest.payload == Some(ingest_event::Payload::Raw(data)),
        old(service).registry().inputs().contains_key(ingest.source@),
    ensures
        exists|ctx: InputContext, events: Vec<Event>|
            {
                &&& ctx.source@ == ingest.source@
                &&& ctx.cluster@ == ingest.cluster@
                &&& ctx.format@ == ingest.format@
                &&& #[trigger] old(service).registry().inputs()[ingest.source@].yields(
                    ctx,
                    data@,
                    Ok(events),
                )
                &&& events@.len() > 0
                &&& final(service)@.buffer.items.len() > 0
                &&& carries(final(service)@.buffer.items.last(), events@[0])
                &&& ack.event_ids@.len() == 1
                &&& ack.event_ids@[0]@ == events@[0].id@
            },
{
    let registry = old(service).registry();
    let before = old(service)@.buffer;
    let after = final(service)@.buffer;
    let r = Ok::<Ack, Status>(ack);
    let outcome = choose|outcome: Result<Event, Status>|
        {
            &&& #[trigger] server::ingests_one(registry, ingest, outcome)
            &&& match outcome {
                Ok(passed) => server::accepts(old(service)@, passed@, r, final(service)@),
                Err(status) => r == Err::<Ack, Status>(status) && final(service)@ == old(service)@,
            }
        };
    let passed = outcome->Ok_0;
    let (ctx, made) = choose|ctx: InputContext, made: Result<Vec<Event>, PluginError>|
        {
            &&& #[trigger] registry.transforms(ctx, data@, made)
            &&& ctx.source@ == ingest.source@
            &&& ctx.cluster@ == ingest.cluster@
            &&& ctx.format@ == ingest.format@
            &&& server::answers_one(ingest.source@, made, outcome)
        };
    let events = made->Ok_0;
    assert(registry.inputs()[ingest.source@].yields(ctx, data@, Ok(events)));
    let held = choose|held: Message| #[trigger]
        server::stands_for(held, passed@) && after == before.after_push(seq![held]);
    let all = before.items + seq![held];
    assert(after.items.last() == all.last());
    assert(text::texts(ack.event_ids@).len() == ack.event_ids@.len());
    assert(text::texts(ack.event_ids@)[0] == ack.event_ids@[0]@);
}

/// Of what a transformation gives, the first event is taken; that there is none, or that it
/// failed, is told.
pub proof fn transformed_bytes_give_the_first_event(
    source: &str,
    outcome: Result<Vec<Event>, PluginError>,
    r: Result<Event, Status>,
)
    requires
        call_ensures(server::first_event, (source, outcome), r),
    ensures
        outcome matches Ok(events) ==> events@.len() > 0 ==> r == Ok::<Event, Status>(events@[0]),
        outcome matches Ok(events) ==> events@.len() == 0 ==> refused(
            r,
            Code::InvalidArgument,
            "Transform produced no events"@,
        ),
        outcome is Err ==> refused(
            r,
            Code::Unimplemented,
            "Transform failed for source '"@ + source@ + "': "@,
        ),
{
    if let Ok(events) = outcome {
        if events@.len() == 0 {
            let told = r->Err_0.message@;
            assert(told.subrange(0, told.len() as int) =~= told);
        }
    }
    if outcome is Err {
        let status = r->Err_0;
        let head = "Transform failed for source '"@ + source@ + "': "@;
        assert(status.message@.subrange(0, head.len() as int) =~= head);
    }
}

/// Of what a transformation gives, all events are taken; that it failed is told.
pub proof fn transformed_bytes_give_all_events(
    source: &str,
    outcome: Result<Vec<Event>, PluginError>,
    r: Result<Vec<Event>, Status>,
)
    requires
        call_ensures(server::all_events, (source, outcome), r),
    ensures
        outcome matches Ok(events) ==> r == Ok::<Vec<Event>, Status>(events),
        outcome is Err ==> refused(
            r,
            Code::Unimplemented,
            "Transform failed for source '"@ + source@ + "': "@,
        ),
{
    if outcome is Err {
        let status = r->Err_0;
        let head = "Transform failed for source '"@ + source@ + "': "@;
        assert(status.message@.subrange(0, head.len() as int) =~= head);
    }
}

/// The status of a transformation that failed tells the source and the whole reason.
pub proof fn failed_transformations_tell_why(
    source: &str,
    e: PluginError,
    reason: String,
    one: Result<Event, Status>,
    many: Result<Vec<Event>, Status>,
)
    requires
        call_ensures(server::first_event, (source, Err(e)), one),
        call_ensures(server::all_events, (source, Err(e)), many),
        call_ensures(PluginError::to_text, (&e,), reason),
    ensures
        one matches Err(status) && status.message@ == "Transform failed for source '"@ + source@
            + "': "@ + reason@,
        many matches Err(status) && status.message@ == "Transform failed for source '"@ + source@
            + "': "@ + reason@,
{
}

/// The ready events of a batch pass as they came, all of them and in order; a batch
/// without content has none.
pub proof fn ready_batches_pass_as_they_came(
    batch: IngestBatch,
    registry: PluginRegistry,
    r: Result<Vec<Event>, Status>,
)
    requires
        call_ensures(server::process_batch_with_registry, (&batch, &registry), r),
    ensures
        batch.payload matches Some(ingest_batch::Payload::Events(ready)) ==> (r matches Ok(events)
            && events@.len() == ready.events@.len() && forall|i: int|
            0 <= i < events@.len() ==> same_event(#[trigger] events@[i], ready.events@[i])),
        batch.payload is None ==> (r matches Ok(events) && events@.len() == 0),
        batch.payload matches Some(ingest_batch::Payload::Raw(_))
            ==> !registry.inputs().contains_key(batch.source@) ==> refused(
            r,
            Code::Unimplemented,
            "Transform failed for source '"@ + batch.source@ + "': "@,
        ),
{
    if let Some(ingest_batch::Payload::Events(ready)) = batch.payload {
        let events = r->Ok_0@;
        assert(proto::event_views(events).len() == events.len());
        assert forall|i: int| 0 <= i < events.len() implies same_event(
            #[trigger] events[i],
            ready.events@[i],
        ) by {
            assert(proto::event_views(events)[i] == events[i]@);
            assert(proto::event_views(ready.events@)[i] == ready.events@[i]@);
        }
    }
    if r is Err {
        let status = r->Err_0;
        let head = "Transform failed for source '"@ + batch.source@ + "': "@;
        assert(status.message@.subrange(0, head.len() as int) =~= head);
    }
}

/// What the answer to an accepted request says of the buffer. A buffer whose size does not
/// fit in the answer cannot be had.
pub open spec fn tells_buffer(ack: Ack, service: GatewayService) -> bool {
    &&& ack.errors@.len() == 0
    &&& service@.buffer.items.len() <= i64::MAX ==> ack.buffer_size
        == service@.buffer.items.len()
    &&& service@.buffer.capacity <= i64::MAX ==> ack.buffer_capacity == service@.buffer.capacity
}

/// An event that is taken in is the newest in the buffer, in every part, behind what was
/// there. It is acknowledged by its identifier and counted exactly when there was room.
pub proof fn accepted_events_are_buffered_whole(
    service: &mut GatewayService,
    event: Event,
    r: Result<Ack, Status>,
)
    requires
        call_ensures(GatewayService::accept_event, (service, event), r),
    ensures
        final(service)@.buffer.items.len() > 0,
        carries(final(service)@.buffer.items.last(), event),
        old(service)@.buffer.items.len() < old(service)@.buffer.capacity ==> {
            &&& r is Ok
            &&& final(service)@.buffer.items.drop_last() == old(service)@.buffer.items
        },
        old(service)@.buffer.items.len() >= old(service)@.buffer.capacity ==> r is Err,
        buffer::fits(old(service)@.buffer.items.len(), old(service)@.buffer.capacity)
            ==> buffer::keeps_the_newest(
            old(service)@.buffer.items,
            seq![final(service)@.buffer.items.last()],
            final(service)@.buffer.items,
            old(service)@.buffer.capacity,
        ),
        r matches Ok(ack) ==> {
            &&& ack.event_ids@.len() == 1
            &&& ack.event_ids@[0]@ == event.id@
            &&& tells_buffer(ack, *final(service))
            &&& final(service)@.processed == if old(service)@.processed == u64::MAX {
                0
            } else {
                old(service)@.processed + 1
            }
        },
        r matches Err(status) ==> status.code == Code::ResourceExhausted
            && final(service)@.processed == old(service)@.processed,
        final(service)@.start_time == old(service)@.start_time,
        final(service)@.buffer.capacity == old(service)@.buffer.capacity,
        final(service).registry() == old(service).registry(),
{
    let before = old(service)@.buffer;
    let after = final(service)@.buffer;
    let held = choose|held: Message| #[trigger]
        server::stands_for(held, event@) && after == before.after_push(seq![held]);
    let all = before.items + seq![held];
    assert(after.items.last() == all.last());
    if before.items.len() < before.capacity {
        assert(after.items.drop_last() =~= before.items);
    }
    if let Ok(ack) = r {
        assert(text::texts(ack.event_ids@).len() == ack.event_ids@.len());
        assert(text::texts(ack.event_ids@)[0] == ack.event_ids@[0]@);
    }
}

/// A request of one ready event that is acknowledged leaves that event in the buffer, as
/// the newest and in every part.
pub proof fn sent_events_are_buffered_whole(
    service: &mut GatewayService,
    ingest: IngestEvent,
    event: Event,
    r: Result<Ack, Status>,
)
    requires
        call_ensures(GatewayService::send_event, (service, &ingest), r),
        ingest.payload == Some(ingest_event::Payload::Event(event)),
    ensures
        final(service)@.buffer.items.len() > 0,
        carries(final(service)@.buffer.items.last(), event),
        r is Ok <==> old(service)@.buffer.items.len() < old(service)@.buffer.capacity,
        r matches Ok(ack) ==> {
            &&& ack.event_ids@.len() == 1
            &&& ack.event_ids@[0]@ == event.id@
            &&& tells_buffer(ack, *final(service))
            &&& final(service)@.buffer.items.drop_last() == old(service)@.buffer.items
        },
        r matches Err(status) ==> status.code == Code::ResourceExhausted,
        final(service)@.start_time == old(service)@.start_time,
        final(service).registry() == old(service).registry(),
{
    let before = old(service)@.buffer;
    let after = final(service)@.buffer;
    let outcome = choose|outcome: Result<Event, Status>|
        {
            &&& #[trigger] server::ingests_one(old(service).registry(), ingest, outcome)
            &&& match outcome {
                Ok(passed) => server::accepts(old(service)@, passed@, r, final(service)@),
                Err(status) => r == Err::<Ack, Status>(status) && final(service)@ == old(service)@,
            }
        };
    let passed = outcome->Ok_0;
    let held = choose|held: Message| #[trigger]
        server::stands_for(held, passed@) && after == before.after_push(seq![held]);
    let all = before.items + seq![held];
    assert(after.items.last() == all.last());
    if before.items.len() < before.capacity {
        assert(after.items.drop_last() =~= before.items);
    }
    if let Ok(ack) = r {
        assert(text::texts(ack.event_ids@).len() == ack.event_ids@.len());
        assert(text::texts(ack.event_ids@)[0] == ack.event_ids@[0]@);
    }
}

/// What a request of one ready event leaves in the buffer, turned back into an event, is that
/// event in every part.
pub proof fn sent_events_come_back(
    service: &mut GatewayService,
    ingest: IngestEvent,
    event: Event,
    r: Result<Ack, Status>,
    back: Event,
)
    requires
        call_ensures(GatewayService::send_event, (service, &ingest), r),
        ingest.payload == Some(ingest_event::Payload::Event(event)),
        call_ensures(
            <Event as From<Message>>::from,
            (final(service)@.buffer.items.last(),),
            back,
        ),
    ensures
        back.id@ == event.id@,
        back.timestamp_unix_ns == event.timestamp_unix_ns,
        back.source@ == event.source@,
        back.event_type@ == event.event_type@,
        back.metadata.texts() == event.metadata.texts(),
        back.payload@ == event.payload@,
        text::texts(back.route_to@) == text::texts(event.route_to@),
{
    sent_events_are_buffered_whole(service, ingest, event, r);
}

/// The uptime that a service tells is that since it was made, in whole seconds.
pub proof fn uptime_counts_from_the_start(
    service: GatewayService,
    outputs: StringMap<bool>,
    r: HealthResponse,
)
    requires
        call_ensures(GatewayService::health, (&service, &outputs), r),
    ensures
        r.events_processed == service@.processed,
        exists|span: std::time::Duration| #[trigger]
            stamp::may_elapse(service@.start_time, span) && (stamp::span_nanos(span) <= u64::MAX
                ==> r.uptime_seconds * 1_000_000_000 <= stamp::span_nanos(span) < (
            r.uptime_seconds + 1) * 1_000_000_000),
{
}

/// The events of a batch are buffered whole and in order, counted and acknowledged by
/// their identifiers. Where there is room they follow what was there.
pub proof fn accepted_batches_are_buffered_whole(
    service: &mut GatewayService,
    events: Vec<Event>,
    ack: Ack,
)
    requires
        call_ensures(GatewayService::accept_batch, (service, events), ack),
    ensures
        ack.event_ids@.len() == events@.len(),
        forall|i: int|
            0 <= i < events@.len() ==> (#[trigger] ack.event_ids@[i])@ == events@[i].id@,
        tells_buffer(ack, *final(service)),
        (final(service)@.processed - old(service)@.processed - events@.len())
            % 0x1_0000_0000_0000_0000 == 0,
        old(service)@.buffer.items.len() + events@.len() <= old(service)@.buffer.capacity ==> {
            let before = old(service)@.buffer.items;
            let after = final(service)@.buffer.items;
            &&& after.len() == before.len() + events@.len()
            &&& after.take(before.len() as int) == before
            &&& forall|i: int|
                0 <= i < events@.len() ==> carries(#[trigger] after[before.len() + i], events@[i])
        },
        final(service)@.start_time == old(service)@.start_time,
        final(service)@.buffer.capacity == old(service)@.buffer.capacity,
        final(service).registry() == old(service).registry(),
{
    let ids = text::texts(ack.event_ids@);
    assert(ids.len() == ack.event_ids@.len());
    assert(proto::event_ids(proto::event_views(events@)).len() == events@.len());
    assert forall|i: int| 0 <= i < events@.len() implies (#[trigger] ack.event_ids@[i])@
        == events@[i].id@ by {
        assert(ids[i] == ack.event_ids@[i]@);
        assert(proto::event_ids(proto::event_views(events@))[i] == events@[i]@.id);
    }
    buffer::wraps(old(service)@.processed, events@.len());
    let before = old(service)@.buffer;
    let after = final(service)@.buffer;
    if before.items.len() + events@.len() <= before.capacity {
        if events@.len() == 0 {
            assert(after.items.take(before.items.len() as int) =~= before.items);
        } else {
            let views = proto::event_views(events@);
            let held = choose|held: Seq<Message>| #[trigger]
                server::stand_for(held, views) && after == before.after_push(held);
            assert(message::message_views(held).len() == held.len());
            assert(after.items =~= before.items + held);
            assert(after.items.take(before.items.len() as int) =~= before.items);
            assert forall|i: int| 0 <= i < events@.len() implies carries(
                #[trigger] after.items[before.items.len() + i],
                events@[i],
            ) by {
                assert(message::message_views(held)[i] == held[i]@);
                assert(views[i] == events@[i]@);
            }
        }
    }
}

/// `held` are messages that carry events, one for each and in order.
pub open spec fn carry_all(held: Seq<Message>, events: Seq<Event>) -> bool {
    &&& held.len() == events.len()
    &&& forall|i: int| 0 <= i < held.len() ==> carries(#[trigger] held[i], events[i])
}

/// Where there is not room for all events of a batch, the newest of what is there and what
/// comes are kept, whole and in order.
pub proof fn batches_push_out_the_oldest(
    service: &mut GatewayService,
    events: Vec<Event>,
    ack: Ack,
)
    requires
        call_ensures(GatewayService::accept_batch, (service, events), ack),
        buffer::fits(old(service)@.buffer.items.len(), old(service)@.buffer.capacity),
    ensures
        exists|held: Seq<Message>| #[trigger]
            carry_all(held, events@) && buffer::keeps_the_newest(
                old(service)@.buffer.items,
                held,
                final(service)@.buffer.items,
                old(service)@.buffer.capacity,
            ),
{
    let before = old(service)@.buffer;
    let after = final(service)@.buffer;
    let views = proto::event_views(events@);
    if events@.len() == 0 {
        assert(carry_all(Seq::<Message>::empty(), events@));
    } else {
        let held = choose|held: Seq<Message>| #[trigger]
            server::stand_for(held, views) && after == before.after_push(held);
        assert(message::message_views(held).len() == held.len());
        assert forall|i: int| 0 <= i < held.len() implies carries(#[trigger] held[i], events@[i]) by {
            assert(message::message_views(held)[i] == held[i]@);
            assert(views[i] == events@[i]@);
        }
        assert(carry_all(held, events@));
    }
}

/// The same holds of a batch of ready events that is sent.
pub proof fn sent_batches_push_out_the_oldest(
    service: &mut GatewayService,
    batch: IngestBatch,
    ready: EventPayload,
    r: Result<Ack, Status>,
)
    requires
        call_ensures(GatewayService::handle_batch, (service, &batch), r),
        batch.payload == Some(ingest_batch::Payload::Events(ready)),
        buffer::fits(old(service)@.buffer.items.len(), old(service)@.buffer.capacity),
    ensures
        exists|held: Seq<Message>| #[trigger]
            carry_all(held, ready.events@) && buffer::keeps_the_newest(
                old(service)@.buffer.items,
                held,
                final(service)@.buffer.items,
                old(service)@.buffer.capacity,
            ),
        (final(service)@.processed - old(service)@.processed - ready.events@.len())
            % 0x1_0000_0000_0000_0000 == 0,
{
    let before = old(service)@.buffer;
    let after = final(service)@.buffer;
    let views = proto::event_views(ready.events@);
    assert(views.len() == ready.events@.len());
    buffer::wraps(old(service)@.processed, ready.events@.len());
    if ready.events@.len() == 0 {
        assert(carry_all(Seq::<Message>::empty(), ready.events@));
    } else {
        let held = choose|held: Seq<Message>| #[trigger]
            server::stand_for(held, views) && after == before.after_push(held);
        assert(message::message_views(held).len() == held.len());
        assert forall|i: int| 0 <= i < held.len() implies carries(
            #[trigger] held[i],
            ready.events@[i],
        ) by {
            assert(message::message_views(held)[i] == held[i]@);
            assert(views[i] == ready.events@[i]@);
        }
        assert(carry_all(held, ready.events@));
    }
}

/// A batch whose bytes no input is there for is refused, and changes nothing; one without
/// content is acknowledged, and changes nothing either.
pub proof fn batches_without_events_change_nothing(
    service: &mut GatewayService,
    batch: IngestBatch,
    r: Result<Ack, Status>,
)
    requires
        call_ensures(GatewayService::handle_batch, (service, &batch), r),
        batch.payload is None || (batch.payload matches Some(ingest_batch::Payload::Raw(_))
            && !old(service).registry().inputs().contains_key(batch.source@)),
    ensures
        final(service)@ == old(service)@,
        final(service).registry() == old(service).registry(),
        batch.payload is None ==> (r matches Ok(ack) && ack.event_ids@.len() == 0),
        batch.payload is Some ==> refused(
            r,
            Code::Unimplemented,
            "Transform failed for source '"@ + batch.source@ + "': "@,
        ),
{
    if r is Err {
        let told = r->Err_0.message@;
        let head = "Transform failed for source '"@ + batch.source@ + "': "@;
        assert(told.subrange(0, head.len() as int) =~= head);
    } else {
        let ack = r->Ok_0;
        assert(text::texts(ack.event_ids@).len() == ack.event_ids@.len());
    }
}

/// A batch of ready events is acknowledged event by event, and buffered whole.
pub proof fn sent_batches_are_buffered_whole(
    service: &mut GatewayService,
    batch: IngestBatch,
    r: Result<Ack, Status>,
)
    requires
        call_ensures(GatewayService::handle_batch, (service, &batch), r),
        batch.payload matches Some(ingest_batch::Payload::Events(_)),
    ensures
        ({
            let ready = batch.payload->0->Events_0.events@;
            let before = old(service)@.buffer.items;
            let after = final(service)@.buffer.items;
            &&& r matches Ok(ack) && ack.event_ids@.len() == ready.len() && tells_buffer(
                ack,
                *final(service),
            ) && forall|i: int|
                0 <= i < ready.len() ==> (#[trigger] ack.event_ids@[i])@ == ready[i].id@
            &&& before.len() + ready.len() <= old(service)@.buffer.capacity ==> {
                &&& after.len() == before.len() + ready.len()
                &&& after.take(before.len() as int) == before
                &&& forall|i: int|
                    0 <= i < ready.len() ==> carries(#[trigger] after[before.len() + i], ready[i])
            }
        }),
        final(service)@.start_time == old(service)@.start_time,
        final(service).registry() == old(service).registry(),
{
    let ready = batch.payload->0->Events_0.events@;
    let views = proto::event_views(ready);
    assert(views.len() == ready.len());
    let ack = r->Ok_0;
    let ids = text::texts(ack.event_ids@);
    assert(ids.len() == ack.event_ids@.len());
    assert(proto::event_ids(views).len() == ready.len());
    assert forall|i: int| 0 <= i < ready.len() implies (#[trigger] ack.event_ids@[i])@
        == ready[i].id@ by {
        assert(ids[i] == ack.event_ids@[i]@);
        assert(proto::event_ids(views)[i] == ready[i]@.id);
    }
    let before = old(service)@.buffer;
    let after = final(service)@.buffer;
    if before.items.len() + ready.len() <= before.capacity {
        if ready.len() == 0 {
            assert(after.items.take(before.items.len() as int) =~= before.items);
        } else {
            let held = choose|held: Seq<Message>| #[trigger]
                server::stand_for(held, views) && after == before.after_push(held);
            assert(message::message_views(held).len() == held.len());
            assert(after.items =~= before.items + held);
            assert(after.items.take(before.items.len() as int) =~= before.items);
            assert forall|i: int| 0 <= i < ready.len() implies carries(
                #[trigger] after.items[before.items.len() + i],
                ready[i],
            ) by {
                assert(message::message_views(held)[i] == held[i]@);
                assert(views[i] == ready[i]@);
            }
        }
    }
}

/// A service that is given no plugins has none, and has processed nothing.
pub proof fn services_start_empty(buffer: RingBuffer, service: GatewayService)
    requires
        call_ensures(GatewayService::new, (buffer,), service),
    ensures
        service@.buffer == buffer@,
        service@.processed == 0,
        service.registry().outputs().len() == 0,
{
}

/// A service starts with the buffer and the plugins that it is given, and has processed
/// nothing.
pub proof fn services_start_with_what_they_are_given(
    buffer: RingBuffer,
    registry: Arc<PluginRegistry>,
    service: GatewayService,
)
    requires
        call_ensures(GatewayService::with_registry, (buffer, registry), service),
    ensures
        service@.buffer == buffer@,
        service@.processed == 0,
        service.registry() == *registry,
{
}

/// The answer to a health request tells the time and the count that there are, that the
/// buffer is healthy exactly when there is room, how full it is, and the health of every
/// output under its name.
pub proof fn health_is_told_as_it_is(
    service: GatewayService,
    outputs: StringMap<bool>,
    uptime: i64,
    r: HealthResponse,
    name: Seq<char>,
)
    requires
        call_ensures(GatewayService::health_at, (&service, &outputs, uptime), r),
    ensures
        r.healthy,
        r.uptime_seconds == uptime,
        r.events_processed == service@.processed,
        r.components@.contains_key("buffer"@),
        r.components@["buffer"@].healthy <==> service@.buffer.items.len()
            < service@.buffer.capacity,
        r.components@["buffer"@].message@ == "Buffer: "@ + number::decimal(
            service@.buffer.items.len(),
        ) + "/"@ + number::decimal(service@.buffer.capacity),
        outputs@.contains_key(name) ==> {
            &&& r.components@.contains_key("output:"@ + name)
            &&& r.components@["output:"@ + name].healthy == outputs@[name]
            &&& outputs@[name] ==> r.components@["output:"@ + name].message@ == "OK"@
            &&& !outputs@[name] ==> r.components@["output:"@ + name].message@ == "Unhealthy"@
        },
        r.components@.contains_key(name) && name != "buffer"@ ==> exists|output: Seq<char>|
            #[trigger] outputs@.contains_key(output) && name == "output:"@ + output,
{
    if outputs@.contains_key(name) {
        assert(server::output_component(name) == "output:"@ + name);
    }
}

} // verus!
