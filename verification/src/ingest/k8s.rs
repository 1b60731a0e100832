//! Kubernetes ingestor: the events of a cluster as messages.

use crate::error::{PluginError, PluginErrorView};
use crate::message::{Message, MessageView};
use crate::payload::{copy_bytes, from_vec};
use crate::stamp;
use crate::stamp::{new_id, new_timestamp};
use crate::text;
use crate::text::{join2, join4, to_lowercase};
use bytes::Bytes;
use vstd::prelude::*;
use vstd::utf8::*;

verus! {

/// Configuration of a Kubernetes ingestor.
#[derive(Debug)]
pub struct K8sIngestorConfig {
    /// The namespace that is watched; none means all of them.
    pub namespace: Option<String>,
    /// Which labels are watched.
    pub label_selector: Option<String>,
    /// Which fields are watched.
    pub field_selector: Option<String>,
}

impl Default for K8sIngestorConfig {
    fn default() -> (r: Self)
        ensures
            r.namespace is None,
            r.label_selector is None,
            r.field_selector is None,
    {
        K8sIngestorConfig { namespace: None, label_selector: None, field_selector: None }
    }
}

impl Clone for K8sIngestorConfig {
    fn clone(&self) -> (r: Self)
        ensures
            r == *self,
    {
        K8sIngestorConfig {
            namespace: self.namespace.clone(),
            label_selector: self.label_selector.clone(),
            field_selector: self.field_selector.clone(),
        }
    }
}

impl K8sIngestorConfig {
    /// Watches one namespace.
    pub fn namespace(self, ns: &str) -> (r: Self)
        ensures
            r.namespace matches Some(s) && s@ == ns@,
            r.label_selector == self.label_selector,
            r.field_selector == self.field_selector,
    {
        let mut config = self;
        config.namespace = Some(ns.to_string());
        config
    }

    /// Watches certain labels.
    pub fn labels(self, selector: &str) -> (r: Self)
        ensures
            r.namespace == self.namespace,
            r.label_selector matches Some(s) && s@ == selector@,
            r.field_selector == self.field_selector,
    {
        let mut config = self;
        config.label_selector = Some(selector.to_string());
        config
    }
}

/// What is known about an event of a cluster.
#[derive(Debug)]
pub struct K8sEvent {
    /// The name of the event.
    pub name: Option<String>,
    /// Its namespace.
    pub namespace: Option<String>,
    /// Its type.
    pub event_type: Option<String>,
    /// Why it happened.
    pub reason: Option<String>,
    /// What there is to say about it.
    pub message: Option<String>,
    /// The name of the object that it is about.
    pub involved_name: Option<String>,
    /// The kind of that object.
    pub involved_kind: Option<String>,
}

/// A text, or another where there is none.
pub open spec fn or_else(value: Option<String>, other: Seq<char>) -> Seq<char> {
    match value {
        Some(s) => s@,
        None => other,
    }
}

/// Metadata with one more entry, if there is a value for it.
pub open spec fn with_entry(
    metadata: Map<Seq<char>, Seq<char>>,
    key: Seq<char>,
    value: Option<String>,
) -> Map<Seq<char>, Seq<char>> {
    match value {
        Some(s) => metadata.insert(key, s@),
        None => metadata,
    }
}

/// The metadata of the message that stands for an event.
pub open spec fn event_metadata(event: K8sEvent, name: Seq<char>) -> Map<Seq<char>, Seq<char>> {
    let base = Map::<Seq<char>, Seq<char>>::empty().insert(
        "k8s.namespace"@,
        or_else(event.namespace, "default"@),
    ).insert("k8s.name"@, name);
    let a = with_entry(base, "k8s.involved_object"@, event.involved_name);
    let b = with_entry(a, "k8s.kind"@, event.involved_kind);
    let c = with_entry(b, "k8s.message"@, event.message);
    with_entry(c, "k8s.reason"@, event.reason)
}

/// The message that stands for an event with a name, given its type in lower case.
pub open spec fn event_message(
    event: K8sEvent,
    name: Seq<char>,
    lowered_type: Seq<char>,
    id: Seq<char>,
    timestamp: i64,
) -> MessageView {
    MessageView {
        id,
        timestamp,
        source: "k8s/"@ + or_else(event.namespace, "default"@) + "/"@ + name,
        message_type: "k8s."@ + lowered_type + "."@ + or_else(event.reason, "Unknown"@),
        metadata: event_metadata(event, name),
        payload: match event.message {
            Some(s) => encode_utf8(s@),
            None => Seq::empty(),
        },
        route_to: Seq::empty(),
    }
}

/// `out` is the message for an event: there is one where the event has a name.
pub open spec fn converts(event: K8sEvent, out: Option<Message>) -> bool {
    match event.name {
        Some(name) => out matches Some(msg) && stamp::is_fresh(msg@.id, msg@.timestamp)
            && msg@ == event_message(
            event,
            name@,
            text::lowercase(or_else(event.event_type, "Normal"@)),
            msg@.id,
            msg@.timestamp,
        ),
        None => out is None,
    }
}

/// A change that a watch reports.
#[derive(Debug)]
pub enum WatchEvent {
    /// An event is there or has changed.
    Applied(K8sEvent),
    /// An event is gone.
    Deleted(K8sEvent),
    /// The watch begins or has caught up.
    Started,
    /// The watch failed; it ends.
    Failed,
}

/// What a watch does next.
#[derive(Debug)]
pub enum WatchStep {
    /// Sends a message and goes on; where it cannot be sent, the watch ends.
    Send(Message),
    /// Goes on.
    Skip,
    /// Ends.
    Stop,
}

/// `out` is the message for a change; that of a deletion says that it is one.
pub open spec fn reacts(change: WatchEvent, out: Option<Message>) -> bool {
    match change {
        WatchEvent::Applied(event) => converts(event, out),
        WatchEvent::Deleted(event) => exists|msg: Option<Message>|
            {
                &&& #[trigger] converts(event, msg)
                &&& match msg {
                    Some(m) => out matches Some(o) && o@ == m@.tagged("k8s.deleted"@, "true"@),
                    None => out is None,
                }
            },
        WatchEvent::Started => out is None,
        WatchEvent::Failed => out is None,
    }
}

/// A watch may take this step for a change: it sends the message for it, if there is
/// one, and ends where the watch failed.
pub open spec fn takes_step(change: WatchEvent, step: WatchStep) -> bool {
    match step {
        WatchStep::Send(msg) => !(change is Failed) && reacts(change, Some(msg)),
        WatchStep::Skip => !(change is Failed) && reacts(change, None),
        WatchStep::Stop => change is Failed,
    }
}

/// `sent` are the messages of a watch that these changes are reported to.
pub open spec fn watch_sends(changes: Seq<WatchEvent>, sent: Seq<Message>) -> bool
    decreases changes.len(),
{
    if changes.len() == 0 {
        sent.len() == 0
    } else {
        exists|step: WatchStep|
            {
                &&& #[trigger] takes_step(changes[0], step)
                &&& match step {
                    WatchStep::Send(msg) => sent.len() > 0 && sent[0] == msg && watch_sends(
                        changes.drop_first(),
                        sent.drop_first(),
                    ),
                    WatchStep::Skip => watch_sends(changes.drop_first(), sent),
                    WatchStep::Stop => sent.len() == 0,
                }
            }
    }
}

/// A watch ends where it fails: what it would be told later makes no difference to what
/// it sends.
pub proof fn watches_end_at_a_failure(
    before: Seq<WatchEvent>,
    later: Seq<WatchEvent>,
    sent: Seq<Message>,
)
    ensures
        watch_sends(before.push(WatchEvent::Failed) + later, sent) == watch_sends(
            before.push(WatchEvent::Failed),
            sent,
        ),
    decreases before.len(),
{
    let short = before.push(WatchEvent::Failed);
    let long = short + later;
    assert(long[0] == short[0]);
    if before.len() > 0 {
        let rest = before.drop_first();
        assert(short.drop_first() =~= rest.push(WatchEvent::Failed));
        assert(long.drop_first() =~= rest.push(WatchEvent::Failed) + later);
        watches_end_at_a_failure(rest, later, sent);
        if sent.len() > 0 {
            watches_end_at_a_failure(rest, later, sent.drop_first());
        }
    }
}

/// A text, or another where there is none.
fn text_or<'a>(value: &'a Option<String>, other: &'a str) -> (r: &'a str)
    ensures
        r@ == or_else(*value, other@),
{
    match value {
        Some(s) => s.as_str(),
        None => other,
    }
}

/// Adds a metadata entry, if there is a value for it.
fn add_entry(msg: &mut Message, key: &str, value: &Option<String>)
    ensures
        final(msg)@ == (MessageView {
            metadata: with_entry(old(msg)@.metadata, key@, *value),
            ..old(msg)@
        }),
{
    if let Some(s) = value {
        msg.add_metadata(key, s.as_str());
    }
}

/// Turns the events of a cluster into messages.
pub struct K8sIngestor {
    config: K8sIngestorConfig,
}

impl K8sIngestor {
    /// The configuration.
    pub closed spec fn config(self) -> K8sIngestorConfig {
        self.config
    }

    /// An ingestor with a configuration.
    pub fn with_config(config: K8sIngestorConfig) -> (r: Self)
        ensures
            r.config() == config,
    {
        K8sIngestor { config }
    }

    /// What is watched.
    pub fn watched(&self) -> (r: &K8sIngestorConfig)
        ensures
            *r == self.config(),
    {
        &self.config
    }

    /// The error of a client that could not be made.
    pub fn client_failed(reason: &str) -> (r: PluginError)
        ensures
            r@ == PluginErrorView::Connection("K8s client: "@ + reason@),
    {
        PluginError::Connection(join2("K8s client: ", reason))
    }

    /// The message for an event, given its type in lower case, and the identifier and
    /// time of the message.
    pub fn message_with(
        &self,
        event: &K8sEvent,
        lowered_type: &str,
        id: &str,
        timestamp: i64,
    ) -> (r: Option<Message>)
        ensures
            match event.name {
                Some(name) => r matches Some(msg) && msg@ == event_message(
                    *event,
                    name@,
                    lowered_type@,
                    id@,
                    timestamp,
                ),
                None => r is None,
            },
    {
        let name = match &event.name {
            Some(name) => name.as_str(),
            None => return None,
        };
        let namespace = text_or(&event.namespace, "default");
        let message_type = join4("k8s.", lowered_type, ".", text_or(&event.reason, "Unknown"));
        let source = join4("k8s/", namespace, "/", name);
        let payload = match &event.message {
            Some(s) => from_vec(copy_bytes(s.as_str().as_bytes())),
            None => Bytes::new(),
        };
        let mut msg = Message::with_id(
            id,
            timestamp,
            source.as_str(),
            message_type.as_str(),
            payload,
        );
        msg.add_metadata("k8s.namespace", namespace);
        msg.add_metadata("k8s.name", name);
        add_entry(&mut msg, "k8s.involved_object", &event.involved_name);
        add_entry(&mut msg, "k8s.kind", &event.involved_kind);
        add_entry(&mut msg, "k8s.message", &event.message);
        add_entry(&mut msg, "k8s.reason", &event.reason);
        Some(msg)
    }

    /// The message for an event; there is none for an event without a name.
    pub fn k8s_event_to_message(&self, event: &K8sEvent) -> (r: Option<Message>)
        ensures
            converts(*event, r),
    {
        let lowered = to_lowercase(text_or(&event.event_type, "Normal"));
        let id = new_id();
        let timestamp: i64 = new_timestamp();
        assert(call_ensures(new_id, (), id));
        self.message_with(event, lowered.as_str(), id.as_str(), timestamp)
    }

    /// The message for a change, if there is one to be sent.
    pub fn react(&self, change: &WatchEvent) -> (r: Option<Message>)
        ensures
            reacts(*change, r),
    {
        match change {
            WatchEvent::Applied(event) => self.k8s_event_to_message(event),
            WatchEvent::Deleted(event) => {
                let converted = self.k8s_event_to_message(event);
                assert(converts(*event, converted));
                match converted {
                    Some(msg) => Some(msg.with_metadata("k8s.deleted", "true")),
                    None => None,
                }
            },
            WatchEvent::Started => None,
            WatchEvent::Failed => None,
        }
    }

    /// What a watch does about a change: it sends the message for it, if there is one,
    /// and ends where the watch failed.
    pub fn step(&self, change: &WatchEvent) -> (r: WatchStep)
        ensures
            takes_step(*change, r),
    {
        match change {
            WatchEvent::Failed => WatchStep::Stop,
            _ => match self.react(change) {
                Some(msg) => WatchStep::Send(msg),
                None => WatchStep::Skip,
            },
        }
    }
}

} // verus!
