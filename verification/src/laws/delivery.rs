//! Laws of the emitters: what is sent, and what the answers mean.

use crate::emit::grpc;
use crate::emit::grpc::{Forwarded, GrpcEmitter};
use crate::emit::k8s::{ConfigMap, K8sEmitter, K8sEmitterConfig};
use crate::emit::k8s;
use crate::emit::webhook;
use crate::emit::webhook::{EventJson, WebhookEmitter, WebhookPayload, WebhookReply};
use crate::emit::Emitter;
use crate::emit::stdout::StdoutEmitter;
use crate::error::PluginError;
use crate::json;
use crate::laws::service;
use crate::number;
use crate::output::stdout::StdoutOutput;
use crate::output::Output;
use crate::proto::ingest_event;
use crate::proto::{Event, IngestEvent};
use crate::render;
use crate::text;
use vstd::prelude::*;

verus! {

/// What is written for an event says what the event says.
pub proof fn written_events_say_the_same(event: Event, payload: String, r: EventJson)
    requires
        call_ensures(webhook::event_json, (&event, payload), r),
    ensures
        r.id@ == event.id@,
        r.timestamp_unix_ns == event.timestamp_unix_ns,
        r.source@ == event.source@,
        r.event_type@ == event.event_type@,
        r.metadata.texts() == event.metadata.texts(),
        text::texts(r.route_to@) == text::texts(event.route_to@),
        r.payload@ == payload@,
{
}

/// The body of a webhook request has every event at its place, saying what that event
/// says, with its payload in base64. There is none where there are no events.
pub proof fn webhook_bodies_say_what_the_events_say(
    emitter: WebhookEmitter,
    events: &[Event],
    r: Option<WebhookPayload>,
)
    requires
        forall|i: int|
            0 <= i < events@.len() ==> json::base64_fits((#[trigger] events@[i]).payload@.len()),
        call_ensures(WebhookEmitter::payload, (&emitter, events), r),
    ensures
        r is None <==> events@.len() == 0,
        r matches Some(body) ==> body.events@.len() == events@.len(),
        r matches Some(body) ==> forall|i: int|
            0 <= i < events@.len() ==> {
                let written = #[trigger] body.events@[i];
                &&& written.id@ == events@[i].id@
                &&& written.timestamp_unix_ns == events@[i].timestamp_unix_ns
                &&& written.source@ == events@[i].source@
                &&& written.event_type@ == events@[i].event_type@
                &&& written.metadata.texts() == events@[i].metadata.texts()
                &&& text::texts(written.route_to@) == text::texts(events@[i].route_to@)
                &&& written.payload@ == json::base64_text(events@[i].payload@)
            },
{
    if let Some(body) = r {
        assert forall|i: int| 0 <= i < events@.len() implies (#[trigger] body.events@[i])@.source
            == events@[i]@.source by {}
    }
}

/// A text holds another one, at a place.
pub open spec fn tells(text: Seq<char>, at: int, part: Seq<char>) -> bool {
    &&& 0 <= at
    &&& at + part.len() <= text.len()
    &&& text.subrange(at, at + part.len()) == part
}

/// Posting succeeds exactly when the server answers with a status of success. An answer
/// of another status is a failure to send that quotes it, and no answer is a failure to
/// connect that names the address.
pub proof fn webhook_answers_decide(
    emitter: WebhookEmitter,
    reply: WebhookReply,
    r: Result<(), PluginError>,
)
    requires
        call_ensures(WebhookEmitter::outcome, (&emitter, reply), r),
    ensures
        match reply {
            WebhookReply::Answered { status, status_text, body } => {
                &&& 200 <= status <= 299 <==> r is Ok
                &&& r matches Err(e) ==> (e matches PluginError::Send(m) && m@
                    == "Webhook returned "@ + status_text@ + ": "@ + body@)
            },
            WebhookReply::Failed(reason) => r matches Err(PluginError::Connection(m)) && m@
                == "Failed to connect to "@ + emitter.url() + ": "@ + reason@,
        },
{
}

/// A webhook is healthy exactly when the server answers, and not with an error of its own.
pub proof fn webhook_health_is_reachability(
    emitter: WebhookEmitter,
    answer: Option<u16>,
    r: bool,
)
    requires
        call_ensures(WebhookEmitter::is_healthy, (&emitter, answer), r),
    ensures
        r <==> answer is Some && 200 <= answer->0 && answer->0 <= 499,
{
}

/// A webhook emitter posts to its address with the headers that were added; health checks
/// ask the same address unless another was set for them.
pub proof fn webhooks_are_made_as_asked(
    url: &str,
    fresh: WebhookEmitter,
    name: &str,
    value: &str,
    with_header: WebhookEmitter,
    other: &str,
    with_health: WebhookEmitter,
    target: &str,
    asked: &str,
)
    requires
        call_ensures(WebhookEmitter::new, (url,), fresh),
        call_ensures(WebhookEmitter::header, (fresh, name, value), with_header),
        call_ensures(WebhookEmitter::health_url, (with_header, other), with_health),
        call_ensures(WebhookEmitter::target, (&with_health,), target),
        call_ensures(WebhookEmitter::health_check_target, (&with_health,), asked),
    ensures
        fresh.url() == url@,
        fresh.health_target() == url@,
        with_header.headers().dom() == set![name@],
        with_header.headers()[name@] == value@,
        with_header.health_target() == url@,
        with_health.headers() == with_header.headers(),
        target@ == url@,
        asked@ == other@,
{
    assert(with_header.headers().dom() =~= set![name@]);
}

/// Every event is forwarded in a request of its own, whole and in order, under its source.
pub proof fn events_are_forwarded_whole(
    emitter: GrpcEmitter,
    events: &[Event],
    r: Vec<IngestEvent>,
)
    requires
        call_ensures(GrpcEmitter::requests, (&emitter, events), r),
    ensures
        r@.len() == events@.len(),
        forall|i: int|
            0 <= i < r@.len() ==> {
                let request = #[trigger] r@[i];
                &&& request.source@ == events@[i].source@
                &&& request.cluster@.len() == 0
                &&& request.format@.len() == 0
                &&& request.payload matches Some(ingest_event::Payload::Event(carried))
                    && service::same_event(carried, events@[i])
            },
{
}

/// Forwarding succeeds exactly when every request does. Otherwise the first failure is told,
/// as a failure to send, with its reason, and with the event if the request itself failed.
pub proof fn the_first_failure_is_told(
    emitter: GrpcEmitter,
    events: &[Event],
    results: Vec<Forwarded>,
    r: Result<(), PluginError>,
    k: int,
)
    requires
        results@.len() == events@.len(),
        call_ensures(GrpcEmitter::outcome, (&emitter, events, results), r),
    ensures
        r is Ok <==> forall|i: int| 0 <= i < results@.len() ==> #[trigger] results@[i] is Acked,
        0 <= k < results@.len() && !(results@[k] is Acked) && (forall|i: int|
            0 <= i < k ==> #[trigger] results@[i] is Acked) ==> (r matches Err(
            PluginError::Send(m),
        ) && match results@[k] {
            Forwarded::Acked => false,
            Forwarded::Failed(reason) => m@ == "Failed to forward event "@ + events@[k].id@ + ": "@
                + reason@,
            Forwarded::Lost(reason) => m@ == "Failed to join send_event task: "@ + reason@,
        }),
{
    let first = choose|first: int|
        {
            &&& #[trigger] grpc::first_failure(events@, results@, first)
            &&& match r {
                Ok(()) => first == results@.len(),
                Err(e) => first < results@.len() && grpc::failure_of(
                    events@[first]@,
                    results@[first],
                ) == Some(e@),
            }
        };
    if r is Err {
        assert(!(results@[first] is Acked));
    } else {
        assert forall|i: int| 0 <= i < results@.len() implies #[trigger] results@[i] is Acked by {
            assert(grpc::failure_of(events@[i]@, results@[i]) is None);
        }
    }
    if 0 <= k < results@.len() && !(results@[k] is Acked) && (forall|i: int|
        0 <= i < k ==> #[trigger] results@[i] is Acked) {
        if first < k {
            assert(results@[first] is Acked);
        }
        if k < first {
            assert(grpc::failure_of(events@[k]@, results@[k]) is None);
        }
    }
}

/// What stands for a character in the name of a resource: small letters and digits stand
/// for themselves, capital letters for small ones, and a dash stands for all else.
pub open spec fn named_as(c: char, n: char) -> bool {
    if 'a' <= c <= 'z' || '0' <= c <= '9' {
        n == c
    } else if 'A' <= c <= 'Z' {
        n as u32 == c as u32 + 32
    } else {
        n == '-'
    }
}

/// A character that no letter or digit stands for.
pub open spec fn is_dashed(c: char) -> bool {
    !('a' <= c <= 'z' || 'A' <= c <= 'Z' || '0' <= c <= '9')
}

proof fn leading(s: Seq<char>)
    ensures
        ({
            let t = k8s::without_leading_dashes(s);
            &&& t.len() <= s.len()
            &&& t == s.skip(s.len() - t.len())
            &&& t.len() > 0 ==> t[0] != '-'
            &&& forall|i: int| 0 <= i < s.len() - t.len() ==> #[trigger] s[i] == '-'
        }),
    decreases s.len(),
{
    let t = k8s::without_leading_dashes(s);
    if s.len() > 0 && s[0] == '-' {
        let rest = s.drop_first();
        leading(rest);
        assert(rest.skip(rest.len() - t.len()) =~= s.skip(s.len() - t.len()));
        assert forall|i: int| 0 <= i < s.len() - t.len() implies #[trigger] s[i] == '-' by {
            if i > 0 {
                assert(rest[i - 1] == '-');
            }
        }
    } else {
        assert(s.skip(0) =~= s);
    }
}

proof fn trailing(s: Seq<char>)
    ensures
        ({
            let t = k8s::without_trailing_dashes(s);
            &&& t.len() <= s.len()
            &&& t == s.take(t.len() as int)
            &&& t.len() > 0 ==> t.last() != '-'
            &&& forall|i: int| t.len() <= i < s.len() ==> #[trigger] s[i] == '-'
        }),
    decreases s.len(),
{
    let t = k8s::without_trailing_dashes(s);
    if s.len() > 0 && s.last() == '-' {
        let rest = s.drop_last();
        trailing(rest);
        assert(rest.take(t.len() as int) =~= s.take(t.len() as int));
        assert forall|i: int| t.len() <= i < s.len() implies #[trigger] s[i] == '-' by {
            if i < rest.len() {
                assert(rest[i] == '-');
            }
        }
    } else {
        assert(s.take(s.len() as int) =~= s);
    }
}

/// A name is made of a text: it stands for a piece of the text, character by character, of
/// which nothing is left out but what only dashes stand for at its start, and at its end or
/// beyond 253 characters.
pub open spec fn is_name_of(name: Seq<char>, raw: Seq<char>, from: int) -> bool {
    &&& 0 <= from
    &&& from + name.len() <= raw.len()
    &&& forall|i: int| 0 <= i < name.len() ==> named_as(raw[from + i], #[trigger] name[i])
    &&& forall|i: int| 0 <= i < from ==> is_dashed(#[trigger] raw[i])
    &&& forall|i: int| from + name.len() <= i < raw.len() && i < from + 253 ==> is_dashed(
        #[trigger] raw[i],
    )
}

/// The name of a resource is made of the text, unless there is nothing in it to make one
/// of; then it is `event`. It is a name that a resource can have.
pub proof fn names_are_made_of_their_texts(raw: &str, r: String)
    requires
        call_ensures(K8sEmitter::sanitize_name, (raw,), r),
    ensures
        1 <= r@.len() <= 253,
        r@[0] != '-',
        r@.last() != '-',
        forall|i: int|
            0 <= i < r@.len() ==> 'a' <= #[trigger] r@[i] <= 'z' || '0' <= r@[i] <= '9' || r@[i]
                == '-',
        (forall|i: int| 0 <= i < raw@.len() ==> is_dashed(#[trigger] raw@[i])) ==> r@
            == "event"@,
        (exists|i: int| 0 <= i < raw@.len() && !is_dashed(#[trigger] raw@[i])) ==> exists|
            from: int,
        | #[trigger] is_name_of(r@, raw@, from),
{
    let all = k8s::cleaned_text(raw@);
    let kept = k8s::without_leading_dashes(all);
    let name = k8s::without_trailing_dashes(kept);
    let from = all.len() - kept.len();
    leading(all);
    trailing(kept);
    assert forall|i: int| 0 <= i < all.len() implies named_as(raw@[i], #[trigger] all[i]) && (
    all[i] == '-' <==> is_dashed(raw@[i])) by {
        let c = raw@[i];
        if 'A' <= c <= 'Z' {
            assert((c as u8 + 32) as char as u32 == c as u32 + 32);
        }
    }
    if forall|i: int| 0 <= i < raw@.len() ==> is_dashed(#[trigger] raw@[i]) {
        if kept.len() > 0 {
            assert(all[from] == kept[0]);
            assert(is_dashed(raw@[from]));
        }
    }
    if exists|i: int| 0 <= i < raw@.len() && !is_dashed(#[trigger] raw@[i]) {
        let k = choose|k: int| 0 <= k < raw@.len() && !is_dashed(#[trigger] raw@[k]);
        assert(all[k] != '-');
        assert(kept[k - from] == all[k]);
        let head = name.take(253);
        trailing(head);
        assert forall|i: int| 0 <= i < r@.len() implies named_as(
            raw@[from + i],
            #[trigger] r@[i],
        ) by {
            assert(r@[i] == name[i]);
            assert(name[i] == kept[i]);
            assert(kept[i] == all[from + i]);
        }
        assert forall|i: int| 0 <= i < from implies is_dashed(#[trigger] raw@[i]) by {
            assert(all[i] == '-');
        }
        assert forall|i: int| from + r@.len() <= i < raw@.len() && i < from + 253 implies is_dashed(
            #[trigger] raw@[i],
        ) by {
            assert(kept[i - from] == all[i]);
            if i - from < name.len() {
                assert(name[i - from] == kept[i - from]);
                assert(head[i - from] == name[i - from]);
            }
        }
        assert(is_name_of(r@, raw@, from));
    }
}

/// A resource holds its event: its identifier, source, type and time, and its metadata and
/// payload where there are any. It is named after the event and belongs where the
/// configuration says.
pub proof fn resources_hold_their_events(
    emitter: K8sEmitter,
    event: Event,
    metadata: Option<String>,
    payload: Option<String>,
    r: ConfigMap,
    raw: &str,
    name: String,
)
    requires
        call_ensures(K8sEmitter::configmap_with, (&emitter, &event, metadata, payload), r),
        raw@ == emitter.config().name_prefix@ + "-"@ + event.id@,
        call_ensures(K8sEmitter::sanitize_name, (raw,), name),
    ensures
        r.name@ == name@,
        r.namespace@ == emitter.config().namespace@,
        r.labels.texts() == emitter.config().labels.texts(),
        r.data.texts().contains_key("event_id"@),
        r.data.texts()["event_id"@] == event.id@,
        r.data.texts().contains_key("source"@),
        r.data.texts()["source"@] == event.source@,
        r.data.texts().contains_key("event_type"@),
        r.data.texts()["event_type"@] == event.event_type@,
        r.data.texts().contains_key("timestamp"@),
        r.data.texts()["timestamp"@] == number::signed_decimal(event.timestamp_unix_ns as int),
        metadata is Some <==> r.data.texts().contains_key("metadata"@),
        metadata matches Some(s) ==> r.data.texts()["metadata"@] == s@,
        payload is Some <==> r.data.texts().contains_key("payload"@),
        payload matches Some(s) ==> r.data.texts()["payload"@] == s@,
        r.data.texts().dom().subset_of(
            set![
                "event_id"@,
                "source"@,
                "event_type"@,
                "timestamp"@,
                "metadata"@,
                "payload"@,
            ],
        ),
{
    keys_differ();
}

proof fn keys_differ()
    ensures
        "event_id"@.len() == 8,
        "source"@.len() == 6,
        "event_type"@.len() == 10,
        "timestamp"@.len() == 9,
        "metadata"@.len() == 8,
        "payload"@.len() == 7,
        "event_id"@[0] != "metadata"@[0],
{
    reveal_strlit("event_id");
    reveal_strlit("source");
    reveal_strlit("event_type");
    reveal_strlit("timestamp");
    reveal_strlit("metadata");
    reveal_strlit("payload");
}

/// The resource of an event has its payload in base64 and its metadata as JSON exactly
/// where there are any, and else what [`resources_hold_their_events`] says.
pub proof fn resources_are_made_of_events(
    emitter: K8sEmitter,
    event: Event,
    r: ConfigMap,
    metadata: Option<String>,
    payload: Option<String>,
    same: ConfigMap,
)
    requires
        json::base64_fits(event.payload@.len()),
        call_ensures(K8sEmitter::event_to_configmap, (&emitter, &event), r),
        call_ensures(K8sEmitter::configmap_with, (&emitter, &event, metadata, payload), same),
        match payload {
            Some(s) => event.payload@.len() > 0 && s@ == json::base64_text(event.payload@),
            None => event.payload@.len() == 0,
        },
        match metadata {
            Some(s) => event.metadata.texts().len() > 0 && json::json_object(
                event.metadata.texts(),
            ) == Some(s@),
            None => event.metadata.texts().len() == 0 || json::json_object(
                event.metadata.texts(),
            ) is None,
        },
    ensures
        r.name@ == same.name@,
        r.namespace@ == same.namespace@,
        r.labels.texts() == same.labels.texts(),
        r.data.texts() == same.data.texts(),
{
}

/// An emitter has the configuration that it is given; a new one says that the resources
/// are managed by the gateway.
pub proof fn resources_are_configured_as_asked(
    fresh: K8sEmitterConfig,
    ns: &str,
    a: K8sEmitterConfig,
    prefix: &str,
    b: K8sEmitterConfig,
    key: &str,
    value: &str,
    c: K8sEmitterConfig,
)
    requires
        call_ensures(<K8sEmitterConfig as Default>::default, (), fresh),
        call_ensures(K8sEmitterConfig::namespace, (fresh, ns), a),
        call_ensures(K8sEmitterConfig::prefix, (a, prefix), b),
        call_ensures(K8sEmitterConfig::label, (b, key, value), c),
    ensures
        fresh.namespace@ == "default"@,
        fresh.name_prefix@ == "polku-event"@,
        fresh.labels.texts().dom() == set!["app.kubernetes.io/managed-by"@],
        fresh.labels.texts()["app.kubernetes.io/managed-by"@] == "polku"@,
        a.namespace@ == ns@,
        a.labels.texts() == fresh.labels.texts(),
        b.namespace@ == ns@,
        b.name_prefix@ == prefix@,
        c.namespace@ == ns@,
        c.name_prefix@ == prefix@,
        c.labels.texts().contains_key(key@),
        c.labels.texts()[key@] == value@,
        forall|other: Seq<char>|
            other != key@ ==> (#[trigger] c.labels.texts().contains_key(other)
                == b.labels.texts().contains_key(other)),
{
    assert(fresh.labels.texts().dom() =~= set!["app.kubernetes.io/managed-by"@]);
}

/// A line about an event begins with its source in brackets and tells its type, its
/// identifier and the size of its payload.
pub proof fn lines_tell_of_the_event(event: Event, r: String)
    requires
        call_ensures(render::compact_text, (&event,), r),
    ensures
        r@[0] == '[',
        tells(r@, 1, event.source@),
        r@[1int + event.source@.len()] == ']',
        tells(r@, 3int + event.source@.len(), event.event_type@),
        tells(r@, 4int + event.source@.len() + event.event_type@.len(), event.id@),
        tells(
            r@,
            6int + event.source@.len() + event.event_type@.len() + event.id@.len(),
            number::decimal(event.payload@.len()),
        ),
        r@.last() == '\n',
{
    reveal_strlit("[");
    reveal_strlit("] ");
    reveal_strlit(":");
    reveal_strlit(" (");
    reveal_strlit(" bytes)\n");
    let a = event.source@.len() as int;
    let b = event.event_type@.len() as int;
    let c = event.id@.len() as int;
    let d = number::decimal(event.payload@.len());
    assert(r@.subrange(1, 1 + a) =~= event.source@);
    assert(r@.subrange(3 + a, 3 + a + b) =~= event.event_type@);
    assert(r@.subrange(4 + a + b, 4 + a + b + c) =~= event.id@);
    assert(r@.subrange(6 + a + b + c, 6 + a + b + c + d.len()) =~= d);
}

/// A text holds another one, somewhere.
pub open spec fn mentions(text: Seq<char>, part: Seq<char>) -> bool {
    exists|at: int| #[trigger] tells(text, at, part)
}

proof fn beginnings_begin(whole: Seq<char>, long: Seq<char>, short: Seq<char>, more: Seq<char>)
    requires
        long.len() <= whole.len(),
        whole.take(long.len() as int) == long,
        long == short + more,
    ensures
        short.len() <= whole.len(),
        whole.take(short.len() as int) == short,
        mentions(whole, more),
{
    let n = short.len() as int;
    assert(whole.take(n) =~= long.take(n));
    assert(long.take(n) =~= short);
    assert(whole.subrange(n, n + more.len()) =~= more) by {
        assert(whole.subrange(n, n + more.len()) =~= long.subrange(n, n + more.len()));
        assert(long.subrange(n, n + more.len()) =~= more);
    }
    assert(tells(whole, n, more));
}

/// A box about an event has a line for each of its parts, headed by what it is: the
/// identifier, the source, the type, the time and the size of the payload, and the metadata
/// and the routes where there are any.
pub proof fn boxes_tell_of_the_event(event: Event, metadata: &str, routes: &str, r: String)
    requires
        call_ensures(render::boxed_text, (&event, metadata, routes), r),
    ensures
        mentions(r@, "│ ID:        "@ + event.id@ + "\n"@),
        mentions(r@, "│ Source:    "@ + event.source@ + "\n"@),
        mentions(r@, "│ Type:      "@ + event.event_type@ + "\n"@),
        mentions(
            r@,
            "│ Timestamp: "@ + number::signed_decimal(event.timestamp_unix_ns as int) + " ns\n"@,
        ),
        mentions(r@, "│ Payload:   "@ + number::decimal(event.payload@.len()) + " bytes\n"@),
        event.metadata.texts().len() > 0 ==> mentions(r@, "│ Metadata:  "@ + metadata@ + "\n"@),
        event.route_to@.len() > 0 ==> mentions(r@, "│ Route to:  "@ + routes@ + "\n"@),
{
    let id = "│ ID:        "@ + event.id@ + "\n"@;
    let source = "│ Source:    "@ + event.source@ + "\n"@;
    let kind = "│ Type:      "@ + event.event_type@ + "\n"@;
    let time = "│ Timestamp: "@ + number::signed_decimal(event.timestamp_unix_ns as int)
        + " ns\n"@;
    let meta = "│ Metadata:  "@ + metadata@ + "\n"@;
    let size = "│ Payload:   "@ + number::decimal(event.payload@.len()) + " bytes\n"@;
    let route = "│ Route to:  "@ + routes@ + "\n"@;
    let top = "┌─ Event ─────────────────────────────────────────────\n"@;
    let bottom = "└─────────────────────────────────────────────────────\n"@;
    let a = top + id;
    let b = a + source;
    let c = b + kind;
    let d = c + time;
    let e = if event.metadata.texts().len() > 0 {
        d + meta
    } else {
        d
    };
    let f = e + size;
    let g = if event.route_to@.len() > 0 {
        f + route
    } else {
        f
    };
    assert(text::texts(event.route_to@).len() == event.route_to@.len());
    box_is_made_of_lines(event, metadata@, routes@);
    let whole = g + bottom;
    assert(r@ == whole);
    assert(whole.take(whole.len() as int) =~= whole);
    beginnings_begin(r@, whole, g, bottom);
    if event.route_to@.len() > 0 {
        beginnings_begin(r@, g, f, route);
    }
    beginnings_begin(r@, f, e, size);
    if event.metadata.texts().len() > 0 {
        beginnings_begin(r@, e, d, meta);
    }
    beginnings_begin(r@, d, c, time);
    beginnings_begin(r@, c, b, kind);
    beginnings_begin(r@, b, a, source);
    beginnings_begin(r@, a, top, id);
}

/// The form of an event in a box, line by line.
proof fn box_is_made_of_lines(event: Event, metadata: Seq<char>, routes: Seq<char>)
    ensures
        render::boxed_form(event@, metadata, routes) == ({
            let d = "┌─ Event ─────────────────────────────────────────────\n"@ + (
            "│ ID:        "@ + event.id@ + "\n"@) + ("│ Source:    "@ + event.source@ + "\n"@) + (
            "│ Type:      "@ + event.event_type@ + "\n"@) + ("│ Timestamp: "@
                + number::signed_decimal(event.timestamp_unix_ns as int) + " ns\n"@);
            let e = if event.metadata.texts().len() > 0 {
                d + ("│ Metadata:  "@ + metadata + "\n"@)
            } else {
                d
            };
            let f = e + ("│ Payload:   "@ + number::decimal(event.payload@.len()) + " bytes\n"@);
            let g = if event@.route_to.len() > 0 {
                f + ("│ Route to:  "@ + routes + "\n"@)
            } else {
                f
            };
            g + "└─────────────────────────────────────────────────────\n"@
        }),
{
    let top = "┌─ Event ─────────────────────────────────────────────\n"@;
    let time = number::signed_decimal(event.timestamp_unix_ns as int);
    let size = number::decimal(event.payload@.len());
    let a = top + ("│ ID:        "@ + event.id@ + "\n"@);
    lines_add_up(top, "│ ID:        "@, event.id@, "\n"@);
    let b = a + ("│ Source:    "@ + event.source@ + "\n"@);
    lines_add_up(a, "│ Source:    "@, event.source@, "\n"@);
    let c = b + ("│ Type:      "@ + event.event_type@ + "\n"@);
    lines_add_up(b, "│ Type:      "@, event.event_type@, "\n"@);
    let d = c + ("│ Timestamp: "@ + time + " ns\n"@);
    lines_add_up(c, "│ Timestamp: "@, time, " ns\n"@);
    let e = if event.metadata.texts().len() > 0 {
        d + ("│ Metadata:  "@ + metadata + "\n"@)
    } else {
        d
    };
    lines_add_up(d, "│ Metadata:  "@, metadata, "\n"@);
    let f = e + ("│ Payload:   "@ + size + " bytes\n"@);
    lines_add_up(e, "│ Payload:   "@, size, " bytes\n"@);
    lines_add_up(f, "│ Route to:  "@, routes, "\n"@);
}

proof fn lines_add_up(a: Seq<char>, b: Seq<char>, c: Seq<char>, d: Seq<char>)
    ensures
        a + (b + c + d) == a + b + c + d,
{
    assert(a + (b + c + d) =~= a + b + c + d);
}

/// Events are written one after another, nothing is left out and nothing comes between:
/// the text of events is that of the first ones followed by that of the last.
pub proof fn events_are_written_in_order(
    events: &[Event],
    pretty: bool,
    r: String,
    before: &[Event],
    first: String,
    last: Event,
    end: String,
)
    requires
        call_ensures(render::render_events, (events, pretty), r),
        call_ensures(render::render_events, (before, pretty), first),
        call_ensures(render::render_event, (&last, pretty), end),
        events@ == before@.push(last),
    ensures
        r@ == first@ + end@,
        before@.len() == 0 ==> r@ == end@,
{
    assert(events@.drop_last() =~= before@);
    if before@.len() == 0 {
        assert(r@ =~= end@);
    }
}

/// Events are written on lines, or in boxes where that is asked for.
pub proof fn the_form_is_the_one_asked_for(
    event: Event,
    plain: String,
    line: String,
)
    requires
        call_ensures(render::render_event, (&event, false), plain),
        call_ensures(render::compact_text, (&event,), line),
    ensures
        plain@ == line@,
{
}

/// The stdout emitter writes what the form it was made for says, and counts every event.
pub proof fn emitted_events_are_written_and_counted(
    emitter: &mut StdoutEmitter,
    events: &[Event],
    r: String,
    text: String,
    before: u64,
    after: u64,
)
    requires
        call_ensures(StdoutEmitter::emitted_count, (old(emitter),), before),
        call_ensures(StdoutEmitter::emit, (emitter, events), r),
        call_ensures(StdoutEmitter::emitted_count, (final(emitter),), after),
        call_ensures(render::render_events, (events, old(emitter).is_pretty()), text),
    ensures
        r@ == text@,
        before + events@.len() <= u64::MAX ==> after == before + events@.len(),
        final(emitter).is_pretty() == old(emitter).is_pretty(),
{
}

/// The stdout output writes what the form it was made for says, and counts every event.
pub proof fn sent_events_are_written_and_counted(
    output: &mut StdoutOutput,
    events: &[Event],
    r: String,
    text: String,
    before: u64,
    after: u64,
)
    requires
        call_ensures(StdoutOutput::sent_count, (old(output),), before),
        call_ensures(StdoutOutput::send, (output, events), r),
        call_ensures(StdoutOutput::sent_count, (final(output),), after),
        call_ensures(render::render_events, (events, old(output).is_pretty()), text),
    ensures
        r@ == text@,
        before + events@.len() <= u64::MAX ==> after == before + events@.len(),
        final(output).is_pretty() == old(output).is_pretty(),
{
}

/// Lists and maps are written in their brackets, with a comma and a space between two items.
pub proof fn items_are_separated_by_commas(
    items: &Vec<String>,
    list: String,
    map: String,
    before: &Vec<String>,
    shorter: String,
    smaller: String,
    last: String,
)
    requires
        call_ensures(render::list_text, (items,), list),
        call_ensures(render::map_text, (items,), map),
        call_ensures(render::list_text, (before,), shorter),
        call_ensures(render::map_text, (before,), smaller),
        items@ == before@.push(last),
    ensures
        before@.len() == 0 ==> shorter@ == "[]"@ && smaller@ == "{}"@,
        before@.len() == 0 ==> list@ == "["@ + last@ + "]"@ && map@ == "{"@ + last@ + "}"@,
        before@.len() > 0 ==> list@ == shorter@.drop_last() + ", "@ + last@ + "]"@ && map@
            == smaller@.drop_last() + ", "@ + last@ + "}"@,
{
    reveal_strlit("[");
    reveal_strlit("]");
    reveal_strlit("{");
    reveal_strlit("}");
    reveal_strlit("[]");
    reveal_strlit("{}");
    let all = text::texts(items@);
    let some = text::texts(before@);
    assert(all.drop_last() =~= some);
    assert(all.last() == last@);
    if before@.len() == 0 {
        assert(render::comma_separated(some) =~= Seq::<char>::empty());
        assert(shorter@ =~= "[]"@);
        assert(smaller@ =~= "{}"@);
        assert(all[0] == last@);
        assert(list@ =~= "["@ + last@ + "]"@);
        assert(map@ =~= "{"@ + last@ + "}"@);
    } else {
        assert(shorter@.drop_last() =~= "["@ + render::comma_separated(some));
        assert(smaller@.drop_last() =~= "{"@ + render::comma_separated(some));
        assert(list@ =~= shorter@.drop_last() + ", "@ + last@ + "]"@);
        assert(map@ =~= smaller@.drop_last() + ", "@ + last@ + "}"@);
    }
}

/// In a box, metadata is written as a map of quoted keys and values and routes as a list of
/// quoted names, all of them and in order.
pub proof fn boxes_quote_metadata_and_routes(
    event: Event,
    r: String,
    entries: &Vec<String>,
    metadata: String,
    names: &Vec<String>,
    routes: String,
    shown: &str,
    listed: &str,
    same: String,
)
    requires
        call_ensures(render::render_event, (&event, true), r),
        entries@.len() == event.metadata.entries().len(),
        forall|i: int|
            0 <= i < entries@.len() ==> (#[trigger] entries@[i])@ == render::quoted_text(
                event.metadata.entries()[i].0,
            ) + ": "@ + render::quoted_text(event.metadata.entries()[i].1@),
        names@.len() == event.route_to@.len(),
        forall|i: int|
            0 <= i < names@.len() ==> (#[trigger] names@[i])@ == render::quoted_text(
                event.route_to@[i]@,
            ),
        call_ensures(render::map_text, (entries,), metadata),
        call_ensures(render::list_text, (names,), routes),
        shown@ == metadata@,
        listed@ == routes@,
        call_ensures(render::boxed_text, (&event, shown, listed), same),
    ensures
        r@ == same@,
{
    assert(text::texts(entries@) =~= render::quoted_entries(event.metadata.entries())) by {
        assert forall|i: int| 0 <= i < entries@.len() implies text::texts(entries@)[i]
            == render::quoted_entries(event.metadata.entries())[i] by {
            assert(entries@[i]@ == text::texts(entries@)[i]);
        }
    }
    assert(text::texts(names@) =~= render::quoted_items(text::texts(event.route_to@))) by {
        assert forall|i: int| 0 <= i < names@.len() implies text::texts(names@)[i]
            == render::quoted_items(text::texts(event.route_to@))[i] by {
            assert(names@[i]@ == text::texts(names@)[i]);
        }
    }
}

/// A box has a line for each part that there is, headed by what it is, between two lines
/// of its frame; what there is none of is left out.
pub proof fn boxes_are_made_of_lines(
    event: Event,
    metadata: &str,
    routes: &str,
    r: String,
    bare: Event,
    short: String,
)
    requires
        call_ensures(render::boxed_text, (&event, metadata, routes), r),
        call_ensures(render::boxed_text, (&bare, metadata, routes), short),
        event.metadata.texts().len() > 0,
        bare.metadata.texts().len() == 0,
        bare.route_to@.len() == 0,
        event.route_to@.len() > 0,
        bare.id@ == event.id@,
        bare.source@ == event.source@,
        bare.event_type@ == event.event_type@,
        bare.timestamp_unix_ns == event.timestamp_unix_ns,
        bare.payload@.len() == event.payload@.len(),
    ensures
        r@.len() == short@.len() + ("│ Metadata:  "@ + metadata@ + "\n"@).len() + (
        "│ Route to:  "@ + routes@ + "\n"@).len(),
{
    assert(text::texts(event.route_to@).len() == event.route_to@.len());
    assert(text::texts(bare.route_to@).len() == bare.route_to@.len());
}

/// Stdout emitters and outputs write lines, or boxes where they are made to, have written
/// nothing at first, and are always healthy.
pub proof fn stdout_is_made_as_asked(
    a: StdoutEmitter,
    b: StdoutEmitter,
    c: StdoutOutput,
    d: StdoutOutput,
    fine: bool,
    well: bool,
)
    requires
        call_ensures(StdoutEmitter::new, (), a),
        call_ensures(StdoutEmitter::pretty, (), b),
        call_ensures(StdoutOutput::new, (), c),
        call_ensures(StdoutOutput::pretty, (), d),
        call_ensures(StdoutEmitter::health, (&a,), fine),
        call_ensures(StdoutOutput::health, (&c,), well),
    ensures
        !a.is_pretty() && b.is_pretty() && !c.is_pretty() && d.is_pretty(),
        a.emitted() == 0 && b.emitted() == 0 && c.sent() == 0 && d.sent() == 0,
        fine && well,
{
}

/// The errors of emitters say what could not be done, with what, and why.
pub proof fn emitter_errors_say_what_failed(
    reason: &str,
    name: &str,
    event_id: &str,
    emitter: GrpcEmitter,
    a: PluginError,
    b: PluginError,
    c: PluginError,
    d: PluginError,
    e: PluginError,
)
    requires
        call_ensures(WebhookEmitter::client_failed, (reason,), a),
        call_ensures(GrpcEmitter::invalid_endpoint, (reason,), b),
        call_ensures(GrpcEmitter::connect_failed, (&emitter, reason), c),
        call_ensures(K8sEmitter::create_failed, (name, event_id, reason), d),
        call_ensures(K8sEmitter::client_failed, (reason,), e),
    ensures
        a matches PluginError::Init(m) && m@ == "Failed to build HTTP client: "@ + reason@,
        b matches PluginError::Init(m) && m@ == "Invalid endpoint URL: "@ + reason@,
        c matches PluginError::Connection(m) && m@ == "Failed to connect to "@
            + emitter.endpoint() + ": "@ + reason@,
        d matches PluginError::Send(m) && m@ == "K8s create "@ + name@ + " for event "@ + event_id@
            + ": "@ + reason@,
        e matches PluginError::Connection(m) && m@ == "K8s client: "@ + reason@,
{
    if let PluginError::Send(m) = d {
        assert(m@ =~= "K8s create "@ + name@ + " for event "@ + event_id@ + ": "@ + reason@);
    }
}

/// Emitters are known by their names.
pub proof fn emitters_have_their_names(
    a: WebhookEmitter,
    b: GrpcEmitter,
    c: K8sEmitter,
    d: StdoutEmitter,
    e: StdoutOutput,
)
    ensures
        e.spec_name() == "stdout"@,
        a.spec_name() == "webhook"@,
        b.spec_name() == "grpc"@,
        c.spec_name() == "k8s"@,
        d.spec_name() == "stdout"@,
{
}

/// An emitter has the address or the configuration that it is given.
pub proof fn emitters_are_made_as_asked(
    endpoint: &str,
    a: GrpcEmitter,
    config: K8sEmitterConfig,
    b: K8sEmitter,
    ns: &str,
)
    requires
        call_ensures(GrpcEmitter::new, (endpoint,), a),
        call_ensures(K8sEmitter::with_config, (config,), b),
        call_ensures(K8sEmitter::namespace, (&b,), ns),
    ensures
        a.endpoint() == endpoint@,
        b.config() == config,
        ns@ == config.namespace@,
{
}

} // verus!
