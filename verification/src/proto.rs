//! The messages of the gateway protocol.

pub mod ingest_batch;
pub mod ingest_event;

use crate::payload::copy_bytes;
use crate::string_map::{Metadata, StringMap};
use crate::text;
use crate::text::clone_strings;
use vstd::prelude::*;

verus! {

/// An event as it travels to and from the gateway.
#[derive(Debug)]
pub struct Event {
    /// Unique identifier.
    pub id: String,
    /// Unix timestamp in nanoseconds.
    pub timestamp_unix_ns: i64,
    /// Origin identifier.
    pub source: String,
    /// User-defined event type.
    pub event_type: String,
    /// Headers and context.
    pub metadata: Metadata,
    /// Opaque payload.
    pub payload: Vec<u8>,
    /// Routing hints; none means every destination.
    pub route_to: Vec<String>,
}

/// The mathematical value of an [`Event`].
#[verifier::ext_equal]
pub struct EventView {
    pub id: Seq<char>,
    pub timestamp_unix_ns: i64,
    pub source: Seq<char>,
    pub event_type: Seq<char>,
    pub metadata: Map<Seq<char>, Seq<char>>,
    pub payload: Seq<u8>,
    pub route_to: Seq<Seq<char>>,
}

impl View for Event {
    type V = EventView;

    open spec fn view(&self) -> EventView {
        EventView {
            id: self.id@,
            timestamp_unix_ns: self.timestamp_unix_ns,
            source: self.source@,
            event_type: self.event_type@,
            metadata: self.metadata.texts(),
            payload: self.payload@,
            route_to: text::texts(self.route_to@),
        }
    }
}

/// The values of a sequence of events.
pub open spec fn event_views(events: Seq<Event>) -> Seq<EventView> {
    Seq::new(events.len(), |i: int| events[i]@)
}

/// The identifiers of a sequence of events.
pub open spec fn event_ids(events: Seq<EventView>) -> Seq<Seq<char>> {
    Seq::new(events.len(), |i: int| events[i].id)
}

impl Clone for Event {
    fn clone(&self) -> (r: Self)
        ensures
            r@ == self@,
    {
        Event {
            id: self.id.clone(),
            timestamp_unix_ns: self.timestamp_unix_ns,
            source: self.source.clone(),
            event_type: self.event_type.clone(),
            metadata: self.metadata.clone(),
            payload: copy_bytes(self.payload.as_slice()),
            route_to: clone_strings(&self.route_to),
        }
    }
}

/// A copy of a list of events.
pub fn clone_events(events: &[Event]) -> (r: Vec<Event>)
    ensures
        event_views(r@) == event_views(events@),
{
    let mut r: Vec<Event> = Vec::new();
    let mut i: usize = 0;
    while i < events.len()
        invariant
            i <= events@.len(),
            event_views(r@) == event_views(events@).take(i as int),
        decreases events@.len() - i,
    {
        let event = events[i].clone();
        let ghost r0 = r@;
        r.push(event);
        assert(event_views(r@) =~= event_views(r0).push(event@));
        i += 1;
        assert(event_views(r@) =~= event_views(events@).take(i as int));
    }
    assert(event_views(events@).take(i as int) =~= event_views(events@));
    r
}

/// A request to ingest one event.
#[derive(Debug)]
pub struct IngestEvent {
    /// Source identifier.
    pub source: String,
    /// Cluster or environment identifier.
    pub cluster: String,
    /// Format of raw bytes.
    pub format: String,
    /// The content.
    pub payload: Option<ingest_event::Payload>,
}

/// Ready events.
#[derive(Debug)]
pub struct EventPayload {
    /// The events.
    pub events: Vec<Event>,
}

/// Bytes in the format of the source.
#[derive(Debug)]
pub struct RawPayload {
    /// Format of the bytes.
    pub format: String,
    /// The bytes.
    pub data: Vec<u8>,
}

/// A request to ingest a batch of events.
#[derive(Debug)]
pub struct IngestBatch {
    /// Source identifier.
    pub source: String,
    /// Cluster or environment identifier.
    pub cluster: String,
    /// The content.
    pub payload: Option<ingest_batch::Payload>,
}

/// The answer to an ingest request.
#[derive(Debug)]
pub struct Ack {
    /// Identifiers of the accepted events.
    pub event_ids: Vec<String>,
    /// Errors of single events.
    pub errors: Vec<String>,
    /// Messages in the buffer.
    pub buffer_size: i64,
    /// Capacity of the buffer.
    pub buffer_capacity: i64,
}

/// The health of a part of the gateway.
#[derive(Debug)]
pub struct ComponentHealth {
    /// Whether the part works.
    pub healthy: bool,
    /// What there is to say about it.
    pub message: String,
}

/// The answer to a health request.
#[derive(Debug)]
pub struct HealthResponse {
    /// Whether the gateway works.
    pub healthy: bool,
    /// The health of the parts.
    pub components: StringMap<ComponentHealth>,
    /// Seconds since the start.
    pub uptime_seconds: i64,
    /// Events processed since the start.
    pub events_processed: u64,
}

} // verus!
