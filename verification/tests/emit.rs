//! Emitters.

use polku_gateway::emit::grpc::Forwarded;
use polku_gateway::emit::k8s::{K8sEmitter, K8sEmitterConfig, ResourceKind};
use polku_gateway::emit::webhook::WebhookReply;
use polku_gateway::emit::{Emitter, GrpcEmitter, StdoutEmitter, WebhookEmitter};
use polku_gateway::error::PluginError;
use polku_gateway::output::{Output, StdoutOutput};
use polku_gateway::proto::{ingest_event, Event};
use polku_gateway::render::{boxed_text, list_text, map_text, render_event};
use polku_gateway::server::GatewayService;

fn make_event(id: &str) -> Event {
    Event {
        id: id.to_string(),
        timestamp_unix_ns: 1234567890,
        source: "test-source".to_string(),
        event_type: "test".to_string(),
        metadata: Default::default(),
        payload: vec![1, 2, 3],
        route_to: vec![],
    }
}

#[test]
fn test_emit_events() {
    let mut emitter = StdoutEmitter::new();
    let events = vec![make_event("e1"), make_event("e2")];

    let text = emitter.emit(&events);

    assert_eq!(emitter.emitted_count(), 2);
    assert_eq!(
        text,
        "[test-source] test:e1 (3 bytes)\n[test-source] test:e2 (3 bytes)\n"
    );
    assert_eq!(emitter.name(), "stdout");
}

#[test]
fn stdout_test_health() {
    let emitter = StdoutEmitter::default();
    assert!(emitter.health());
}

#[test]
fn test_send_events() {
    let mut output = StdoutOutput::new();
    let events = vec![make_event("e1"), make_event("e2")];

    output.send(&events);

    assert_eq!(output.sent_count(), 2);
    assert_eq!(output.name(), "stdout");
}

#[test]
fn test_health() {
    let output = StdoutOutput::default();
    assert!(output.health());
}

#[test]
fn pretty_events_stand_in_a_box() {
    let mut event = make_event("e1");
    event.timestamp_unix_ns = -7;
    let plain = "\
┌─ Event ─────────────────────────────────────────────
│ ID:        e1
│ Source:    test-source
│ Type:      test
│ Timestamp: -7 ns
│ Payload:   3 bytes
└─────────────────────────────────────────────────────
";
    assert_eq!(StdoutEmitter::pretty().emit(&[event.clone()]), plain);

    event.metadata.insert("k\"".to_string(), "v\n".to_string());
    event.route_to = vec!["a".to_string(), "b".to_string()];
    let full = "\
┌─ Event ─────────────────────────────────────────────
│ ID:        e1
│ Source:    test-source
│ Type:      test
│ Timestamp: -7 ns
│ Metadata:  {\"k\\\"\": \"v\\n\"}
│ Payload:   3 bytes
│ Route to:  [\"a\", \"b\"]
└─────────────────────────────────────────────────────
";
    assert_eq!(StdoutOutput::pretty().send(&[event.clone()]), full);
    assert_eq!(render_event(&event, true), full);
}

#[test]
fn forms_of_lists_and_maps() {
    assert_eq!(list_text(&vec![]), "[]");
    assert_eq!(list_text(&vec!["1".into()]), "[1]");
    assert_eq!(list_text(&vec!["1".into(), "2".into(), "3".into()]), "[1, 2, 3]");
    assert_eq!(map_text(&vec!["a: 1".into(), "b: 2".into()]), "{a: 1, b: 2}");
    let mut event = make_event("x");
    event.route_to = vec!["r".into()];
    assert!(boxed_text(&event, "META", "ROUTES").contains("│ Route to:  ROUTES\n"));
    assert!(!boxed_text(&event, "META", "ROUTES").contains("META"));
}

#[test]
fn grpc_requests_carry_the_events() {
    let emitter = GrpcEmitter::new("http://downstream:50051");
    assert_eq!(emitter.name(), "grpc");
    let requests = emitter.requests(&[make_event("e1"), make_event("e2")]);
    assert_eq!(requests.len(), 2);
    assert_eq!(requests[1].source, "test-source");
    assert_eq!(requests[1].cluster, "");
    assert_eq!(requests[1].format, "");
    match &requests[1].payload {
        Some(ingest_event::Payload::Event(event)) => assert_eq!(event.id, "e2"),
        other => panic!("unexpected {other:?}"),
    }
}

#[test]
fn test_grpc_emitter_handles_empty_events() {
    let emitter = GrpcEmitter::new("http://downstream:50051");
    assert!(emitter.requests(&[]).is_empty());
    let result = emitter.outcome(&[], vec![]);
    assert!(result.is_ok(), "Should handle empty event slice");
}

#[test]
fn test_grpc_emitter_emits_events() {
    let mut service = GatewayService::new(polku_gateway::buffer::RingBuffer::new(100));
    let emitter = GrpcEmitter::new("http://downstream:50051");

    let events = vec![make_event("e1"), make_event("e2")];
    let mut results = Vec::new();
    let mut received = 0;
    for request in emitter.requests(&events) {
        let ack = service.send_event(&request).unwrap();
        received = ack.buffer_size;
        results.push(Forwarded::Acked);
    }
    let result = emitter.outcome(&events, results);
    assert!(result.is_ok(), "Should emit events successfully");
    assert_eq!(received, 2, "Server should have received 2 events");
}

#[test]
fn the_first_grpc_failure_is_reported() {
    let emitter = GrpcEmitter::new("http://downstream:50051");
    let events = vec![make_event("e1"), make_event("e2"), make_event("e3")];
    let failed = emitter.outcome(
        &events,
        vec![
            Forwarded::Acked,
            Forwarded::Failed("down".into()),
            Forwarded::Lost("panicked".into()),
        ],
    );
    assert_eq!(
        failed.unwrap_err().to_text(),
        "send failed: Failed to forward event e2: down"
    );
    let lost = emitter.outcome(&events[..1], vec![Forwarded::Lost("panicked".into())]);
    assert_eq!(
        lost.unwrap_err().to_text(),
        "send failed: Failed to join send_event task: panicked"
    );
}

#[test]
fn grpc_connection_errors() {
    let emitter = GrpcEmitter::new("http://x");
    assert_eq!(
        emitter.connect_failed("refused").to_text(),
        "connection error: Failed to connect to http://x: refused"
    );
    assert_eq!(
        GrpcEmitter::invalid_endpoint("empty").to_text(),
        "initialization failed: Invalid endpoint URL: empty"
    );
}

#[test]
fn test_webhook_emitter_creates() {
    let emitter = WebhookEmitter::new("http://localhost:8080/events");
    assert_eq!(emitter.name(), "webhook");
}

#[test]
fn test_webhook_emitter_handles_empty_events() {
    let emitter = WebhookEmitter::new("http://localhost:8080/events");

    // No request should have been made
    assert!(emitter.payload(&[]).is_none());
}

#[test]
fn test_webhook_emitter_with_custom_headers() {
    let emitter = WebhookEmitter::new("http://localhost:8080/events")
        .header("Authorization", "Bearer test-token")
        .header("X-Custom", "value");

    // Should create successfully with headers
    assert_eq!(emitter.name(), "webhook");
    assert_eq!(
        emitter.request_headers().get("Authorization"),
        Some(&"Bearer test-token".to_string())
    );
    assert_eq!(emitter.request_headers().len(), 2);
}

#[test]
fn test_webhook_emitter_custom_health_url() {
    let emitter = WebhookEmitter::new("http://h/events").health_url("http://h/health");
    assert_eq!(emitter.health_check_target(), "http://h/health");
    assert_eq!(emitter.target(), "http://h/events");
    assert_eq!(
        WebhookEmitter::new("http://h/events").health_check_target(),
        "http://h/events"
    );
}

#[test]
fn webhook_bodies_hold_base64() {
    let emitter = WebhookEmitter::new("http://h/events");
    let mut event = make_event("e1");
    event.payload = b"hello?>".to_vec();
    event.metadata.insert("a".into(), "b".into());
    let body = emitter.payload(&[event, make_event("e2")]).unwrap();
    assert_eq!(body.events.len(), 2);
    assert_eq!(body.events[0].id, "e1");
    assert_eq!(body.events[0].payload, "aGVsbG8/Pg==");
    assert_eq!(body.events[0].timestamp_unix_ns, 1234567890);
    assert_eq!(body.events[0].metadata.get("a"), Some(&"b".to_string()));
    assert_eq!(body.events[1].payload, "AQID");
}

fn answered(status: u16) -> WebhookReply {
    WebhookReply::Answered {
        status,
        status_text: format!("{status} Text"),
        body: "body".into(),
    }
}

#[test]
fn webhook_replies_decide() {
    let emitter = WebhookEmitter::new("http://h/events");
    assert!(emitter.outcome(answered(200)).is_ok());
    assert!(emitter.outcome(answered(299)).is_ok());
    for status in [199, 300, 404, 500] {
        assert_eq!(
            emitter.outcome(answered(status)).unwrap_err().to_text(),
            format!("send failed: Webhook returned {status} Text: body")
        );
    }
    let failed = emitter.outcome(WebhookReply::Failed("refused".into()));
    assert!(matches!(failed, Err(PluginError::Connection(_))));
    assert_eq!(
        failed.unwrap_err().to_text(),
        "connection error: Failed to connect to http://h/events: refused"
    );
    assert_eq!(
        WebhookEmitter::client_failed("tls").to_text(),
        "initialization failed: Failed to build HTTP client: tls"
    );
}

#[test]
fn webhook_health() {
    let emitter = WebhookEmitter::new("http://h/events");
    for status in [200, 204, 301, 404, 499] {
        assert!(emitter.is_healthy(Some(status)));
    }
    for status in [100, 500, 503] {
        assert!(!emitter.is_healthy(Some(status)));
    }
    assert!(!emitter.is_healthy(None));
}

#[test]
fn emitter_test_config_builder() {
    let config = K8sEmitterConfig::default()
        .namespace("my-ns")
        .prefix("my-prefix")
        .label("env", "test");

    assert_eq!(config.namespace, "my-ns");
    assert_eq!(config.name_prefix, "my-prefix");
    assert_eq!(config.labels.get("env"), Some(&"test".to_string()));
}

#[test]
fn test_config_default_labels() {
    let config = K8sEmitterConfig::default();
    assert_eq!(
        config.labels.get("app.kubernetes.io/managed-by"),
        Some(&"polku".to_string())
    );
}

#[test]
fn test_resource_kind_default() {
    let kind = ResourceKind::default();
    assert!(matches!(kind, ResourceKind::ConfigMap));
}

#[test]
fn test_sanitize_name() {
    // Basic case
    assert_eq!(
        K8sEmitter::sanitize_name("polku-event-abc123"),
        "polku-event-abc123"
    );

    // Uppercase → lowercase
    assert_eq!(
        K8sEmitter::sanitize_name("Polku-Event-ABC"),
        "polku-event-abc"
    );

    // Invalid chars → dash
    assert_eq!(K8sEmitter::sanitize_name("event_id@123"), "event-id-123");

    // Trim leading/trailing dashes
    assert_eq!(K8sEmitter::sanitize_name("---event---"), "event");

    // Empty → fallback
    assert_eq!(K8sEmitter::sanitize_name("___"), "event");

    // Long name truncated
    let long_name = "a".repeat(300);
    assert!(K8sEmitter::sanitize_name(&long_name).len() <= 253);
}

#[test]
fn sanitized_names_are_valid_and_stay() {
    let long = format!("{}-----{}", "a".repeat(250), "b".repeat(100));
    for raw in ["", "-", "ÄÖ x", "a.b.c", "UPPER", long.as_str()] {
        let name = K8sEmitter::sanitize_name(raw);
        assert!(!name.is_empty() && name.len() <= 253);
        assert!(name
            .chars()
            .all(|c| c.is_ascii_lowercase() || c.is_ascii_digit() || c == '-'));
        assert!(!name.starts_with('-') && !name.ends_with('-'));
        assert_eq!(K8sEmitter::sanitize_name(&name), name);
    }
    assert_eq!(K8sEmitter::sanitize_name(&long), "a".repeat(250));
}

#[test]
fn events_become_configmaps() {
    let config = K8sEmitterConfig::default().namespace("ns").prefix("Pre");
    let emitter = K8sEmitter::with_config(config.clone());
    assert_eq!(emitter.name(), "k8s");
    assert_eq!(emitter.namespace(), "ns");
    let mut event = make_event("ID_1");
    event.metadata.insert("b".into(), "2".into());
    event.metadata.insert("a".into(), "1".into());
    let cm = emitter.event_to_configmap(&event);
    assert_eq!(cm.name, "pre-id-1");
    assert_eq!(cm.namespace, "ns");
    assert_eq!(
        cm.labels.get("app.kubernetes.io/managed-by"),
        Some(&"polku".to_string())
    );
    assert_eq!(cm.data.get("event_id"), Some(&"ID_1".to_string()));
    assert_eq!(cm.data.get("source"), Some(&"test-source".to_string()));
    assert_eq!(cm.data.get("event_type"), Some(&"test".to_string()));
    assert_eq!(cm.data.get("timestamp"), Some(&"1234567890".to_string()));
    assert_eq!(
        cm.data.get("metadata"),
        Some(&r#"{"a":"1","b":"2"}"#.to_string())
    );
    assert_eq!(cm.data.get("payload"), Some(&"AQID".to_string()));

    event.payload = vec![];
    event.metadata = Default::default();
    let bare = emitter.event_to_configmap(&event);
    assert_eq!(bare.data.len(), 4);

    let given = emitter.configmap_with(&event, Some("M".into()), Some("P".into()));
    assert_eq!(given.data.get("metadata"), Some(&"M".to_string()));
    assert_eq!(given.data.get("payload"), Some(&"P".to_string()));
}

#[test]
fn k8s_errors() {
    assert_eq!(
        K8sEmitter::create_failed("n", "e1", "conflict").to_text(),
        "send failed: K8s create n for event e1: conflict"
    );
    assert_eq!(
        K8sEmitter::client_failed("no config").to_text(),
        "connection error: K8s client: no config"
    );
}
