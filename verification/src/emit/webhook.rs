//! Webhook emitter: posts events as JSON to an HTTP endpoint.

use crate::emit::Emitter;
use crate::error::{PluginError, PluginErrorView};
use crate::json;
use crate::json::encode_base64;
use crate::proto::{Event, EventView};
use crate::string_map;
use crate::string_map::{Metadata, StringMap};
use crate::text;
use crate::text::{clone_strings, join2, join4};
use vstd::prelude::*;

verus! {

/// How long a request may take, in seconds.
pub const DEFAULT_TIMEOUT_SECS: u64 = 30;

/// How long connecting may take, in seconds.
pub const DEFAULT_CONNECT_TIMEOUT_SECS: u64 = 10;

/// An event as it is written to JSON.
pub struct EventJson {
    /// Unique identifier.
    pub id: String,
    /// Unix timestamp in nanoseconds.
    pub timestamp_unix_ns: i64,
    /// Origin identifier.
    pub source: String,
    /// User-defined event type.
    pub event_type: String,
    /// Headers and context.
    pub metadata: Metadata,
    /// The payload in base64.
    pub payload: String,
    /// Routing hints.
    pub route_to: Vec<String>,
}

/// The mathematical value of an [`EventJson`].
#[verifier::ext_equal]
pub struct EventJsonView {
    pub id: Seq<char>,
    pub timestamp_unix_ns: i64,
    pub source: Seq<char>,
    pub event_type: Seq<char>,
    pub metadata: Map<Seq<char>, Seq<char>>,
    pub payload: Seq<char>,
    pub route_to: Seq<Seq<char>>,
}

impl View for EventJson {
    type V = EventJsonView;

    open spec fn view(&self) -> EventJsonView {
        EventJsonView {
            id: self.id@,
            timestamp_unix_ns: self.timestamp_unix_ns,
            source: self.source@,
            event_type: self.event_type@,
            metadata: self.metadata.texts(),
            payload: self.payload@,
            route_to: text::texts(self.route_to@),
        }
    }
}

/// What is written for an event, given its payload in base64.
pub open spec fn written_as(event: EventView, payload: Seq<char>) -> EventJsonView {
    EventJsonView {
        id: event.id,
        timestamp_unix_ns: event.timestamp_unix_ns,
        source: event.source,
        event_type: event.event_type,
        metadata: event.metadata,
        payload,
        route_to: event.route_to,
    }
}

/// The body of a request.
pub struct WebhookPayload {
    /// The events.
    pub events: Vec<EventJson>,
}

/// What is written for an event, given its payload in base64.
pub fn event_json(event: &Event, payload: String) -> (r: EventJson)
    ensures
        r@ == written_as(event@, payload@),
{
    EventJson {
        id: event.id.clone(),
        timestamp_unix_ns: event.timestamp_unix_ns,
        source: event.source.clone(),
        event_type: event.event_type.clone(),
        metadata: event.metadata.clone(),
        payload,
        route_to: clone_strings(&event.route_to),
    }
}

/// What an HTTP request ended in.
#[derive(Debug)]
pub enum WebhookReply {
    /// The server answered.
    Answered {
        /// The status code.
        status: u16,
        /// The status code with its reason, as it is shown.
        status_text: String,
        /// The body of the answer.
        body: String,
    },
    /// The request could not be made.
    Failed(String),
}

/// A status code of success.
pub open spec fn is_success(status: u16) -> bool {
    200 <= status < 300
}

/// A status code that shows that the server can be reached: any but a server error.
pub open spec fn is_reachable(status: u16) -> bool {
    200 <= status < 500
}

/// Posts events to an HTTP endpoint.
pub struct WebhookEmitter {
    url: String,
    health_url: Option<String>,
    headers: StringMap<String>,
}

impl WebhookEmitter {
    /// The address that events are posted to.
    pub closed spec fn url(self) -> Seq<char> {
        self.url@
    }

    /// The address that health checks ask.
    pub closed spec fn health_target(self) -> Seq<char> {
        match self.health_url {
            Some(url) => url@,
            None => self.url@,
        }
    }

    /// The headers of every request.
    pub closed spec fn headers(self) -> Map<Seq<char>, Seq<char>> {
        self.headers.texts()
    }

    /// An emitter for an address.
    pub fn new(url: &str) -> (r: Self)
        ensures
            r.url() == url@,
            r.health_target() == url@,
            r.headers() == Map::<Seq<char>, Seq<char>>::empty(),
    {
        broadcast use string_map::group_texts;

        WebhookEmitter { url: url.to_string(), health_url: None, headers: StringMap::new() }
    }

    /// The error of an HTTP client that could not be made.
    pub fn client_failed(reason: &str) -> (r: PluginError)
        ensures
            r@ == PluginErrorView::Init("Failed to build HTTP client: "@ + reason@),
    {
        PluginError::Init(join2("Failed to build HTTP client: ", reason))
    }

    /// Sets the address that health checks ask.
    pub fn health_url(self, url: &str) -> (r: Self)
        ensures
            r.url() == self.url(),
            r.health_target() == url@,
            r.headers() == self.headers(),
    {
        let mut emitter = self;
        emitter.health_url = Some(url.to_string());
        emitter
    }

    /// Adds a header to every request.
    pub fn header(self, name: &str, value: &str) -> (r: Self)
        ensures
            r.url() == self.url(),
            r.health_target() == self.health_target(),
            r.headers() == self.headers().insert(name@, value@),
    {
        broadcast use string_map::group_texts;

        let mut emitter = self;
        emitter.headers.insert(name.to_string(), value.to_string());
        emitter
    }

    /// The address that events are posted to.
    pub fn target(&self) -> (r: &str)
        ensures
            r@ == self.url(),
    {
        self.url.as_str()
    }

    /// The address that health checks ask: the one set for them, or else the one that
    /// events are posted to.
    pub fn health_check_target(&self) -> (r: &str)
        ensures
            r@ == self.health_target(),
    {
        match &self.health_url {
            Some(url) => url.as_str(),
            None => self.url.as_str(),
        }
    }

    /// The headers of every request.
    pub fn request_headers(&self) -> (r: &StringMap<String>)
        ensures
            r.texts() == self.headers(),
    {
        &self.headers
    }

    /// The body of the request that posts events; none is made where there are none.
    pub fn payload(&self, events: &[Event]) -> (r: Option<WebhookPayload>)
        requires
            forall|i: int|
                0 <= i < events@.len() ==> json::base64_fits(
                    (#[trigger] events@[i]).payload@.len(),
                ),
        ensures
            match r {
                Some(body) => {
                    &&& events@.len() > 0
                    &&& body.events@.len() == events@.len()
                    &&& forall|i: int|
                        0 <= i < events@.len() ==> (#[trigger] body.events@[i])@ == written_as(
                            events@[i]@,
                            json::base64_text(events@[i].payload@),
                        )
                },
                None => events@.len() == 0,
            },
    {
        if events.len() == 0 {
            return None;
        }
        let mut list: Vec<EventJson> = Vec::new();
        let mut i: usize = 0;
        while i < events.len()
            invariant
                i <= events@.len(),
                list@.len() == i,
                forall|j: int|
                    0 <= j < events@.len() ==> json::base64_fits(
                        (#[trigger] events@[j]).payload@.len(),
                    ),
                forall|j: int|
                    0 <= j < i ==> (#[trigger] list@[j])@ == written_as(
                        events@[j]@,
                        json::base64_text(events@[j].payload@),
                    ),
            decreases events@.len() - i,
        {
            let event = &events[i];
            assert(json::base64_fits(events@[i as int].payload@.len()));
            list.push(event_json(event, encode_base64(event.payload.as_slice())));
            i += 1;
        }
        Some(WebhookPayload { events: list })
    }

    /// What posting events ends in, given what the request ended in.
    pub fn outcome(&self, reply: WebhookReply) -> (r: Result<(), PluginError>)
        ensures
            match reply {
                WebhookReply::Answered { status, status_text, body } => match r {
                    Ok(()) => is_success(status),
                    Err(e) => !is_success(status) && e@ == PluginErrorView::Send(
                        "Webhook returned "@ + status_text@ + ": "@ + body@,
                    ),
                },
                WebhookReply::Failed(reason) => r matches Err(e) && e@
                    == PluginErrorView::Connection(
                    "Failed to connect to "@ + self.url() + ": "@ + reason@,
                ),
            },
    {
        match reply {
            WebhookReply::Answered { status, status_text, body } => {
                if 200 <= status && status < 300 {
                    Ok(())
                } else {
                    Err(
                        PluginError::Send(
                            join4("Webhook returned ", status_text.as_str(), ": ", body.as_str()),
                        ),
                    )
                }
            },
            WebhookReply::Failed(reason) => Err(
                PluginError::Connection(
                    join4("Failed to connect to ", self.url.as_str(), ": ", reason.as_str()),
                ),
            ),
        }
    }

    /// Whether the server can be reached, given the status code of its answer.
    pub fn is_healthy(&self, answer: Option<u16>) -> (r: bool)
        ensures
            r == (answer matches Some(status) && is_reachable(status)),
    {
        match answer {
            Some(status) => 200 <= status && status < 500,
            None => false,
        }
    }
}

impl Emitter for WebhookEmitter {
    open spec fn spec_name(&self) -> Seq<char> {
        "webhook"@
    }

    fn name(&self) -> (r: &'static str) {
        "webhook"
    }
}

} // verus!
