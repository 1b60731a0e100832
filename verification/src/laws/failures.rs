//! Laws of what is done about failures, and of the events of a cluster.

use crate::emit::resilience::config::Layer;
use crate::emit::resilience::failure_buffer;
use crate::emit::resilience::{
    FailedEvent, FailureBuffer, FailureCaptureConfig, FailureCaptureEmitter, ResilientEmitter,
};
use crate::emit::Emitter;
use crate::error::PluginError;
use crate::ingest::k8s::{
    K8sEvent, K8sIngestor, K8sIngestorConfig, WatchEvent, WatchStep,
};
use crate::laws::buffer;
use crate::laws::service;
use crate::message::Message;
use crate::number;
use crate::payload;
use crate::proto;
use crate::proto::Event;
use crate::stamp;
use crate::text;
use std::sync::Arc;
use vstd::prelude::*;
use vstd::utf8::*;

verus! {

/// `kept` is what is kept of a batch that an emitter failed on: all events, each with the
/// error, or the first one with the error and how many there were.
pub open spec fn is_kept_of(
    kept: Seq<FailedEvent>,
    events: Seq<Event>,
    error: Seq<char>,
    emitter_name: Seq<char>,
    all: bool,
) -> bool {
    &&& all ==> kept.len() == events.len()
    &&& !all && events.len() > 0 ==> kept.len() == 1
    &&& events.len() == 0 ==> kept.len() == 0
    &&& forall|i: int|
        0 <= i < kept.len() ==> {
            let f = #[trigger] kept[i];
            &&& service::same_event(f.event, events[i])
            &&& f.emitter_name@ == emitter_name
            &&& f.attempts == 1
            &&& all ==> f.error@ == error
            &&& !all ==> f.error@ == error + " (batch of "@ + number::decimal(events.len()) + ")"@
        }
}

/// What emitting ended in is handed on. A failure is kept in the buffer behind what is there,
/// and nothing is kept of a success.
pub proof fn failures_are_captured<E: Emitter + ?Sized>(
    emitter: FailureCaptureEmitter<E>,
    buffer: &mut FailureBuffer,
    events: &[Event],
    result: Result<(), PluginError>,
    r: Result<(), PluginError>,
    error: String,
)
    requires
        call_ensures(
            FailureCaptureEmitter::<E>::settle,
            (&emitter, buffer, events, result),
            r,
        ),
        result matches Err(e) ==> call_ensures(PluginError::to_text, (&e,), error),
        buffer::fits(old(buffer)@.items.len(), old(buffer)@.capacity),
    ensures
        r == result,
        result is Ok ==> final(buffer)@ == old(buffer)@,
        result is Err ==> exists|kept: Seq<FailedEvent>|
            {
                &&& #[trigger] is_kept_of(
                    kept,
                    events@,
                    error@,
                    emitter.inner().spec_name(),
                    emitter.config().store_full_batch,
                )
                &&& buffer::keeps_the_newest(
                    old(buffer)@.items,
                    kept,
                    final(buffer)@.items,
                    old(buffer)@.capacity,
                )
            },
{
    if let Err(e) = result {
        let views = proto::event_views(events@);
        let kept = choose|kept: Seq<FailedEvent>|
            {
                &&& #[trigger] failure_buffer::failed_views(kept) == failure_buffer::captured(
                    views,
                    e@.text(),
                    emitter.inner().spec_name(),
                    emitter.config().store_full_batch,
                    failure_buffer::failure_times(kept),
                )
                &&& final(buffer)@ == old(buffer)@.after_push(kept)
            };
        let seen = failure_buffer::failed_views(kept);
        assert(seen.len() == kept.len());
        assert forall|i: int| 0 <= i < kept.len() implies {
            let f = #[trigger] kept[i];
            &&& service::same_event(f.event, events@[i])
            &&& f.emitter_name@ == emitter.inner().spec_name()
            &&& f.attempts == 1
            &&& emitter.config().store_full_batch ==> f.error@ == error@
            &&& !emitter.config().store_full_batch ==> f.error@ == error@ + " (batch of "@
                + number::decimal(events@.len()) + ")"@
        } by {
            assert(seen[i] == kept[i]@);
            assert(views[i] == events@[i]@);
        }
        assert(is_kept_of(
            kept,
            events@,
            error@,
            emitter.inner().spec_name(),
            emitter.config().store_full_batch,
        ));
    }
}

/// The capture of failures is made as asked; by default a thousand events are kept, and
/// whole batches.
pub proof fn captures_are_made_as_asked<E: Emitter + ?Sized>(
    inner: Arc<E>,
    config: FailureCaptureConfig,
    a: FailureCaptureEmitter<E>,
    b: FailureCaptureEmitter<E>,
)
    requires
        call_ensures(FailureCaptureEmitter::<E>::new, (inner, config), a),
        call_ensures(FailureCaptureEmitter::<E>::with_defaults, (inner,), b),
    ensures
        a.inner() == inner,
        a.config() == config,
        b.inner() == inner,
        b.config().capacity == 1000,
        b.config().store_full_batch,
{
}

/// A copy of a failed event is the same in every part, and the capture of failures is known
/// by its name.
pub proof fn copied_failures_are_the_same<E: Emitter + ?Sized>(
    a: FailedEvent,
    b: FailedEvent,
    capture: FailureCaptureEmitter<E>,
)
    requires
        call_ensures(<FailedEvent as Clone>::clone, (&a,), b),
    ensures
        service::same_event(b.event, a.event),
        b.error@ == a.error@,
        b.emitter_name@ == a.emitter_name@,
        b.failed_at == a.failed_at,
        b.attempts == a.attempts,
        capture.spec_name() == "failure_capture"@,
{
}

/// Layers stand round an emitter from the inside out, retries, circuit breaker and the capture
/// of failures, each of them exactly where it was asked for.
pub proof fn layers_stand_in_their_order<E: Emitter + ?Sized, R, C, B>(
    builder: ResilientEmitter<E, R, C, B>,
    r: (Arc<E>, Vec<Layer<R, C, B>>),
    i: int,
    j: int,
)
    requires
        call_ensures(ResilientEmitter::<E, R, C, B>::build, (builder,), r),
    ensures
        r.0 == builder.inner(),
        builder.retry() matches Some(config) ==> r.1@.contains(Layer::Retry(config)),
        builder.circuit_breaker() matches Some(config) ==> r.1@.contains(
            Layer::CircuitBreaker(config),
        ),
        builder.failure_capture() matches Some((buffer, config)) ==> r.1@.contains(
            Layer::FailureCapture(buffer, config),
        ),
        0 <= i < r.1@.len() ==> match r.1@[i] {
            Layer::Retry(config) => builder.retry() == Some(config),
            Layer::CircuitBreaker(config) => builder.circuit_breaker() == Some(config),
            Layer::FailureCapture(buffer, config) => builder.failure_capture() == Some(
                (buffer, config),
            ),
        },
        0 <= i < j < r.1@.len() ==> {
            ||| r.1@[i] is Retry && (r.1@[j] is CircuitBreaker || r.1@[j] is FailureCapture)
            ||| r.1@[i] is CircuitBreaker && r.1@[j] is FailureCapture
        },
{
    let first: int = if builder.retry() is Some {
        1
    } else {
        0
    };
    let second: int = if builder.circuit_breaker() is Some {
        first + 1
    } else {
        first
    };
    if builder.retry() is Some {
        assert(r.1@[0] is Retry);
    }
    if builder.circuit_breaker() is Some {
        assert(r.1@[first] is CircuitBreaker);
    }
    if builder.failure_capture() is Some {
        assert(r.1@[second] is FailureCapture);
    }
}

/// Layers are asked for one at a time, and there are none at first.
pub proof fn layers_are_asked_for_one_at_a_time<E: Emitter + ?Sized, R, C, B>(
    emitter: Arc<E>,
    fresh: ResilientEmitter<E, R, C, B>,
    retry: R,
    a: ResilientEmitter<E, R, C, B>,
    breaker: C,
    b: ResilientEmitter<E, R, C, B>,
    buffer: B,
    config: FailureCaptureConfig,
    c: ResilientEmitter<E, R, C, B>,
)
    requires
        call_ensures(ResilientEmitter::<E, R, C, B>::wrap_arc, (emitter,), fresh),
        call_ensures(ResilientEmitter::<E, R, C, B>::with_retry, (fresh, retry), a),
        call_ensures(ResilientEmitter::<E, R, C, B>::with_circuit_breaker, (a, breaker), b),
        call_ensures(
            ResilientEmitter::<E, R, C, B>::with_failure_capture,
            (b, buffer, config),
            c,
        ),
    ensures
        fresh.retry() is None && fresh.circuit_breaker() is None && fresh.failure_capture() is None,
        a.retry() == Some(retry) && a.circuit_breaker() is None && a.failure_capture() is None,
        b.retry() == Some(retry) && b.circuit_breaker() == Some(breaker)
            && b.failure_capture() is None,
        c.inner() == emitter,
        c.retry() == Some(retry),
        c.circuit_breaker() == Some(breaker),
        c.failure_capture() == Some((buffer, config)),
{
}

/// An ingestor watches what it is told to.
pub proof fn ingestors_watch_what_they_are_told(
    fresh: K8sIngestorConfig,
    ns: &str,
    a: K8sIngestorConfig,
    selector: &str,
    b: K8sIngestorConfig,
    ingestor: K8sIngestor,
    watched: &K8sIngestorConfig,
    reason: &str,
    e: PluginError,
)
    requires
        call_ensures(<K8sIngestorConfig as Default>::default, (), fresh),
        call_ensures(K8sIngestorConfig::namespace, (fresh, ns), a),
        call_ensures(K8sIngestorConfig::labels, (a, selector), b),
        call_ensures(K8sIngestor::with_config, (b,), ingestor),
        call_ensures(K8sIngestor::watched, (&ingestor,), watched),
        call_ensures(K8sIngestor::client_failed, (reason,), e),
    ensures
        fresh.namespace is None && fresh.label_selector is None && fresh.field_selector is None,
        watched.namespace is Some && watched.namespace->0@ == ns@,
        watched.label_selector is Some && watched.label_selector->0@ == selector@,
        watched.field_selector is None,
        e matches PluginError::Connection(m) && m@ == "K8s client: "@ + reason@,
{
}

/// A part of an event of a cluster is in the metadata of its message under a key exactly
/// when it is known.
pub open spec fn is_noted(
    metadata: Map<Seq<char>, Seq<char>>,
    key: Seq<char>,
    value: Option<String>,
) -> bool {
    match value {
        Some(s) => metadata.contains_key(key) && metadata[key] == s@,
        None => !metadata.contains_key(key),
    }
}

/// A message stands for an event of a cluster with a name: what it says is in its source,
/// type, metadata and payload. What is not known of it is filled in or left out.
pub open spec fn reports(
    msg: Message,
    event: K8sEvent,
    name: Seq<char>,
    lowered_type: Seq<char>,
) -> bool {
    let namespace = match event.namespace {
        Some(s) => s@,
        None => "default"@,
    };
    let reason = match event.reason {
        Some(s) => s@,
        None => "Unknown"@,
    };
    let metadata = msg.metadata.texts();
    &&& msg.source@ == "k8s/"@ + namespace + "/"@ + name
    &&& msg.message_type@ == "k8s."@ + lowered_type + "."@ + reason
    &&& metadata.contains_key("k8s.namespace"@)
    &&& metadata["k8s.namespace"@] == namespace
    &&& metadata.contains_key("k8s.name"@)
    &&& metadata["k8s.name"@] == name
    &&& is_noted(metadata, "k8s.involved_object"@, event.involved_name)
    &&& is_noted(metadata, "k8s.kind"@, event.involved_kind)
    &&& is_noted(metadata, "k8s.message"@, event.message)
    &&& is_noted(metadata, "k8s.reason"@, event.reason)
    &&& payload::contents(msg.payload) == match event.message {
        Some(s) => encode_utf8(s@),
        None => Seq::empty(),
    }
    &&& msg.route_to@.len() == 0
}

proof fn cluster_keys_differ()
    ensures
        "k8s.namespace"@.len() == 13,
        "k8s.name"@.len() == 8,
        "k8s.involved_object"@.len() == 19,
        "k8s.kind"@.len() == 8,
        "k8s.message"@.len() == 11,
        "k8s.reason"@.len() == 10,
        "k8s.deleted"@.len() == 11,
        "k8s.name"@[4] != "k8s.kind"@[4],
        "k8s.message"@[4] != "k8s.deleted"@[4],
{
    reveal_strlit("k8s.namespace");
    reveal_strlit("k8s.name");
    reveal_strlit("k8s.involved_object");
    reveal_strlit("k8s.kind");
    reveal_strlit("k8s.message");
    reveal_strlit("k8s.reason");
    reveal_strlit("k8s.deleted");
}

/// An event of a cluster is reported by a message exactly when it has a name.
pub proof fn named_events_are_reported(
    ingestor: K8sIngestor,
    event: K8sEvent,
    lowered_type: &str,
    id: &str,
    timestamp: i64,
    r: Option<Message>,
)
    requires
        call_ensures(
            K8sIngestor::message_with,
            (&ingestor, &event, lowered_type, id, timestamp),
            r,
        ),
    ensures
        r is Some <==> event.name is Some,
        r matches Some(msg) ==> reports(msg, event, event.name->0@, lowered_type@),
        r matches Some(msg) ==> msg.id@ == id@ && msg.timestamp == timestamp,
{
    cluster_keys_differ();
    if let Some(msg) = r {
        assert(text::texts(msg.route_to@).len() == msg.route_to@.len());
    }
}

/// The type of an event is told in lower case, and is `normal` in lower case where it has none.
pub proof fn events_are_reported_with_their_type(
    ingestor: K8sIngestor,
    event: K8sEvent,
    r: Option<Message>,
)
    requires
        call_ensures(K8sIngestor::k8s_event_to_message, (&ingestor, &event), r),
    ensures
        r is Some <==> event.name is Some,
        r matches Some(msg) ==> reports(
            msg,
            event,
            event.name->0@,
            text::lowercase(
                match event.event_type {
                    Some(s) => s@,
                    None => "Normal"@,
                },
            ),
        ),
        r matches Some(msg) ==> stamp::is_ulid(msg.id@) && msg.timestamp >= 0,
{
    cluster_keys_differ();
    if let Some(msg) = r {
        assert(text::texts(msg.route_to@).len() == msg.route_to@.len());
    }
}

/// A watch reports what is there and what is gone, the latter marked as deleted, goes on
/// otherwise, and ends where it failed.
pub proof fn watches_report_changes(
    ingestor: K8sIngestor,
    change: WatchEvent,
    r: WatchStep,
)
    requires
        call_ensures(K8sIngestor::step, (&ingestor, &change), r),
    ensures
        r is Stop <==> change is Failed,
        change is Started ==> r is Skip,
        change matches WatchEvent::Applied(event) ==> match r {
            WatchStep::Send(msg) => event.name is Some && msg.source@.len() > 0
                && !msg.metadata.texts().contains_key("k8s.deleted"@),
            WatchStep::Skip => event.name is None,
            WatchStep::Stop => false,
        },
        change matches WatchEvent::Deleted(event) ==> match r {
            WatchStep::Send(msg) => event.name is Some && msg.metadata.texts().contains_key(
                "k8s.deleted"@,
            ) && msg.metadata.texts()["k8s.deleted"@] == "true"@,
            WatchStep::Skip => event.name is None,
            WatchStep::Stop => false,
        },
{
    cluster_keys_differ();
    reveal_strlit("k8s/");
}

/// The message about a change says what the event says.
pub proof fn changes_are_reported_whole(ingestor: K8sIngestor, change: WatchEvent, r: WatchStep)
    requires
        call_ensures(K8sIngestor::step, (&ingestor, &change), r),
        r is Send,
    ensures
        change is Applied || change is Deleted,
        ({
            let event = if change is Applied {
                change->Applied_0
            } else {
                change->Deleted_0
            };
            reports(
                r->Send_0,
                event,
                event.name->0@,
                text::lowercase(
                    match event.event_type {
                        Some(s) => s@,
                        None => "Normal"@,
                    },
                ),
            )
        }),
{
    cluster_keys_differ();
    let msg = r->Send_0;
    assert(text::texts(msg.route_to@).len() == msg.route_to@.len());
}

} // verus!
