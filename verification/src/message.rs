//! The message envelope that flows through the pipeline.
//!
//! A message is protocol-agnostic. Its payload is shared: a copy of a message
//! refers to the same bytes.

use crate::payload;
use crate::payload::{as_slice, from_vec, to_vec};
use crate::proto::{Event, EventView};
use crate::stamp;
use crate::stamp::{new_id, new_timestamp};
use crate::string_map;
use crate::string_map::{Metadata, StringMap};
use crate::text;
use crate::text::{clone_strings, lists, utf8_text};
use bytes::Bytes;
use vstd::prelude::*;
use vstd::utf8::*;

verus! {

/// The universal message envelope.
#[derive(Debug)]
pub struct Message {
    /// Unique identifier.
    pub id: String,
    /// Unix timestamp in nanoseconds.
    pub timestamp: i64,
    /// Origin identifier, such as a service name or an agent.
    pub source: String,
    /// User-defined type, such as "user.created".
    pub message_type: String,
    /// Headers and context.
    pub metadata: Metadata,
    /// Opaque payload.
    pub payload: Bytes,
    /// Routing hints: the destinations of the message; none means all of them.
    pub route_to: Vec<String>,
}

/// The mathematical value of a [`Message`].
#[verifier::ext_equal]
pub struct MessageView {
    pub id: Seq<char>,
    pub timestamp: i64,
    pub source: Seq<char>,
    pub message_type: Seq<char>,
    pub metadata: Map<Seq<char>, Seq<char>>,
    pub payload: Seq<u8>,
    pub route_to: Seq<Seq<char>>,
}

impl View for Message {
    type V = MessageView;

    open spec fn view(&self) -> MessageView {
        MessageView {
            id: self.id@,
            timestamp: self.timestamp,
            source: self.source@,
            message_type: self.message_type@,
            metadata: self.metadata.texts(),
            payload: payload::contents(self.payload),
            route_to: text::texts(self.route_to@),
        }
    }
}

/// The values of a sequence of messages.
pub open spec fn message_views(messages: Seq<Message>) -> Seq<MessageView> {
    Seq::new(messages.len(), |i: int| messages[i]@)
}

/// A destination is meant by a list of routes: the list is empty or names it.
pub open spec fn routes_to(route_to: Seq<Seq<char>>, name: Seq<char>) -> bool {
    route_to.len() == 0 || route_to.contains(name)
}

impl MessageView {
    /// A message without metadata and routes.
    pub open spec fn plain(
        id: Seq<char>,
        timestamp: i64,
        source: Seq<char>,
        message_type: Seq<char>,
        payload: Seq<u8>,
    ) -> MessageView {
        MessageView {
            id,
            timestamp,
            source,
            message_type,
            metadata: Map::empty(),
            payload,
            route_to: Seq::empty(),
        }
    }

    /// The message with one more metadata entry.
    pub open spec fn tagged(self, key: Seq<char>, value: Seq<char>) -> MessageView {
        MessageView { metadata: self.metadata.insert(key, value), ..self }
    }

    /// The event that stands for the message.
    pub open spec fn to_event(self) -> EventView {
        EventView {
            id: self.id,
            timestamp_unix_ns: self.timestamp,
            source: self.source,
            event_type: self.message_type,
            metadata: self.metadata,
            payload: self.payload,
            route_to: self.route_to,
        }
    }
}

impl EventView {
    /// The message that stands for the event.
    pub open spec fn to_message(self) -> MessageView {
        MessageView {
            id: self.id,
            timestamp: self.timestamp_unix_ns,
            source: self.source,
            message_type: self.event_type,
            metadata: self.metadata,
            payload: self.payload,
            route_to: self.route_to,
        }
    }
}

impl Message {
    /// Creates a message with a new identifier and the current time.
    pub fn new(source: &str, message_type: &str, payload: Bytes) -> (r: Self)
        ensures
            stamp::is_fresh(r.id@, r.timestamp),
            r@ == MessageView::plain(
                r.id@,
                r.timestamp,
                source@,
                message_type@,
                payload::contents(payload),
            ),
    {
        let id = new_id();
        let timestamp: i64 = new_timestamp();
        assert(call_ensures(new_id, (), id));
        Message::with_id(id.as_str(), timestamp, source, message_type, payload)
    }

    /// Creates a message with all fields given, without metadata and routes.
    pub fn with_id(
        id: &str,
        timestamp: i64,
        source: &str,
        message_type: &str,
        payload: Bytes,
    ) -> (r: Self)
        ensures
            r@ == MessageView::plain(
                id@,
                timestamp,
                source@,
                message_type@,
                payload::contents(payload),
            ),
    {
        broadcast use string_map::group_texts;

        let r = Message {
            id: id.to_string(),
            timestamp,
            source: source.to_string(),
            message_type: message_type.to_string(),
            metadata: StringMap::new(),
            payload,
            route_to: Vec::new(),
        };
        assert(text::texts(r.route_to@) =~= Seq::<Seq<char>>::empty());
        r
    }

    /// Adds a metadata entry, in place of one with the same key.
    pub fn with_metadata(self, key: &str, value: &str) -> (r: Self)
        ensures
            r@ == self@.tagged(key@, value@),
    {
        let mut msg = self;
        msg.add_metadata(key, value);
        msg
    }

    /// Adds a metadata entry, in place of one with the same key.
    pub fn add_metadata(&mut self, key: &str, value: &str)
        ensures
            final(self)@ == old(self)@.tagged(key@, value@),
    {
        broadcast use string_map::group_texts;

        self.metadata.insert(key.to_string(), value.to_string());
    }

    /// Sets the routing hints.
    pub fn with_routes(self, routes: Vec<String>) -> (r: Self)
        ensures
            r@ == (MessageView { route_to: text::texts(routes@), ..self@ }),
    {
        let mut msg = self;
        msg.route_to = routes;
        msg
    }

    /// Whether the message is meant for a destination: it has no routing hints,
    /// or they name the destination.
    pub fn should_route_to(&self, output_name: &str) -> (r: bool)
        ensures
            r == routes_to(self@.route_to, output_name@),
    {
        is_routed_to(&self.route_to, output_name)
    }

    /// The payload as text, if it is well-formed UTF-8.
    pub fn payload_str(&self) -> (r: Option<&str>)
        ensures
            r is Some <==> valid_utf8(self@.payload),
            r matches Some(s) ==> s@ == decode_utf8(self@.payload),
    {
        broadcast use encode_utf8_decode_utf8;

        utf8_text(as_slice(&self.payload))
    }

    /// The length of the payload in bytes.
    pub fn payload_len(&self) -> (r: usize)
        ensures
            r == self@.payload.len(),
    {
        as_slice(&self.payload).len()
    }
}

/// Whether a destination is meant by a list of routes.
pub fn is_routed_to(route_to: &Vec<String>, name: &str) -> (r: bool)
    ensures
        r == routes_to(text::texts(route_to@), name@),
{
    route_to.len() == 0 || lists(route_to, name)
}

impl Clone for Message {
    fn clone(&self) -> (r: Self)
        ensures
            r@ == self@,
    {
        Message {
            id: self.id.clone(),
            timestamp: self.timestamp,
            source: self.source.clone(),
            message_type: self.message_type.clone(),
            metadata: self.metadata.clone(),
            payload: self.payload.clone(),
            route_to: clone_strings(&self.route_to),
        }
    }
}

impl vstd::std_specs::convert::FromSpecImpl<Event> for Message {
    open spec fn obeys_from_spec() -> bool {
        false
    }

    open spec fn from_spec(event: Event) -> Message {
        arbitrary()
    }
}

impl From<Event> for Message {
    fn from(event: Event) -> (r: Message)
        ensures
            r@ == event@.to_message(),
    {
        Message {
            id: event.id,
            timestamp: event.timestamp_unix_ns,
            source: event.source,
            message_type: event.event_type,
            metadata: event.metadata,
            payload: from_vec(event.payload),
            route_to: event.route_to,
        }
    }
}

impl vstd::std_specs::convert::FromSpecImpl<Message> for Event {
    open spec fn obeys_from_spec() -> bool {
        false
    }

    open spec fn from_spec(msg: Message) -> Event {
        arbitrary()
    }
}

impl From<Message> for Event {
    fn from(msg: Message) -> (r: Event)
        ensures
            r@ == msg@.to_event(),
    {
        Event {
            id: msg.id,
            timestamp_unix_ns: msg.timestamp,
            source: msg.source,
            event_type: msg.message_type,
            metadata: msg.metadata,
            payload: to_vec(&msg.payload),
            route_to: msg.route_to,
        }
    }
}

/// A message turned into an event and back is the message that it was.
pub proof fn message_survives_conversion(m: MessageView)
    ensures
        m.to_event().to_message() == m,
{
}

/// An event turned into a message and back is the event that it was.
pub proof fn event_survives_conversion(e: EventView)
    ensures
        e.to_message().to_event() == e,
{
}

} // verus!
