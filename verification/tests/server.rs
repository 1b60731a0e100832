//! The gateway service.

use polku_gateway::buffer::RingBuffer;
use polku_gateway::error::{Code, PluginError, Status};
use polku_gateway::input::{Input, InputContext};
use polku_gateway::proto::{
    ingest_batch, ingest_event, Event, EventPayload, IngestBatch, IngestEvent, RawPayload,
};
use polku_gateway::registry::PluginRegistry;
use polku_gateway::server::{
    all_events, first_event, process_batch_with_registry, GatewayService,
};
use polku_gateway::string_map::StringMap;
use std::sync::Arc;

fn make_service() -> GatewayService {
    GatewayService::new(RingBuffer::new(100))
}

fn event(id: &str) -> Event {
    Event {
        id: id.into(),
        timestamp_unix_ns: 123,
        source: "test".into(),
        event_type: "test.event".into(),
        metadata: Default::default(),
        payload: vec![1, 2, 3],
        route_to: vec![],
    }
}

fn single(payload: Option<ingest_event::Payload>) -> IngestEvent {
    IngestEvent {
        source: "client".into(),
        cluster: "prod".into(),
        format: String::new(),
        payload,
    }
}

fn batch(payload: Option<ingest_batch::Payload>) -> IngestBatch {
    IngestBatch {
        source: "client".into(),
        cluster: "prod".into(),
        payload,
    }
}

/// Makes an event of every byte; fails on an empty format.
struct Splitter;

impl Input for Splitter {
    fn name(&self) -> &'static str {
        "splitter"
    }

    fn transform(&self, ctx: &InputContext, data: &[u8]) -> Result<Vec<Event>, PluginError> {
        if ctx.format.is_empty() {
            return Err(PluginError::Transform("no format".into()));
        }
        Ok(data.iter().map(|b| event(&format!("{}-{}", ctx.cluster, b))).collect())
    }
}

fn splitting_service() -> GatewayService {
    let mut registry = PluginRegistry::new();
    registry.register_input("client", Arc::new(Splitter));
    GatewayService::with_registry(RingBuffer::new(3), Arc::new(registry))
}

fn failure<T>(r: Result<T, Status>) -> (Code, String) {
    match r {
        Ok(_) => panic!("succeeded"),
        Err(status) => (status.code, status.message),
    }
}

#[test]
fn test_process_event_passthrough() {
    let svc = make_service();

    let ingest = single(Some(ingest_event::Payload::Event(event("test-id"))));

    let result = svc.process_event(&ingest);
    assert!(result.is_ok());
    assert_eq!(result.unwrap().id, "test-id");
}

#[test]
fn test_process_event_empty_payload() {
    let svc = make_service();

    let ingest = single(None);

    let result = svc.process_event(&ingest);
    assert!(result.is_err());
    assert_eq!(
        failure(result),
        (Code::InvalidArgument, "Event payload is empty".to_string())
    );
}

#[test]
fn test_process_batch_passthrough() {
    let registry = PluginRegistry::new();

    let batch = batch(Some(ingest_batch::Payload::Events(EventPayload {
        events: vec![event("e1"), event("e2")],
    })));

    let result = process_batch_with_registry(&batch, &registry);
    assert!(result.is_ok());
    assert_eq!(result.unwrap().len(), 2);
}

#[test]
fn test_process_batch_empty() {
    let registry = PluginRegistry::new();

    let result = process_batch_with_registry(&batch(None), &registry);
    assert!(result.is_ok());
    assert!(result.unwrap().is_empty());
}

#[test]
fn test_process_batch_raw_no_plugin() {
    let registry = PluginRegistry::new();

    let batch = IngestBatch {
        source: "unknown-source".into(),
        cluster: "prod".into(),
        payload: Some(ingest_batch::Payload::Raw(RawPayload {
            format: "json".into(),
            data: b"{}".to_vec(),
        })),
    };

    let result = process_batch_with_registry(&batch, &registry);
    assert!(result.is_err()); // No plugin registered
    assert_eq!(
        failure(result),
        (
            Code::Unimplemented,
            "Transform failed for source 'unknown-source': transform failed: \
             No input registered for source 'unknown-source'"
                .to_string()
        )
    );
}

#[test]
fn raw_events_are_transformed() {
    let svc = splitting_service();
    let mut ingest = single(Some(ingest_event::Payload::Raw(vec![7, 8])));
    ingest.format = "bytes".into();
    assert_eq!(svc.process_event(&ingest).unwrap().id, "prod-7");

    ingest.payload = Some(ingest_event::Payload::Raw(vec![]));
    assert_eq!(
        failure(svc.process_event(&ingest)),
        (
            Code::InvalidArgument,
            "Transform produced no events".to_string()
        )
    );

    ingest.format = String::new();
    assert_eq!(
        failure(svc.process_event(&ingest)),
        (
            Code::Unimplemented,
            "Transform failed for source 'client': transform failed: no format".to_string()
        )
    );
}

#[test]
fn outcomes_of_a_transformation() {
    assert_eq!(
        first_event("s", Ok(vec![event("a"), event("b")])).unwrap().id,
        "a"
    );
    assert_eq!(
        all_events("s", Ok(vec![event("a"), event("b")])).unwrap().len(),
        2
    );
    assert!(all_events("s", Ok(vec![])).unwrap().is_empty());
    assert_eq!(
        failure(all_events("s", Err(PluginError::NotReady))),
        (
            Code::Unimplemented,
            "Transform failed for source 's': plugin not ready".to_string()
        )
    );
}

#[test]
fn events_are_acknowledged_until_the_buffer_is_full() {
    let mut svc = GatewayService::new(RingBuffer::new(2));
    for (i, id) in ["a", "b"].iter().enumerate() {
        let ack = svc
            .send_event(&single(Some(ingest_event::Payload::Event(event(id)))))
            .unwrap();
        assert_eq!(ack.event_ids, vec![id.to_string()]);
        assert!(ack.errors.is_empty());
        assert_eq!(ack.buffer_size, i as i64 + 1);
        assert_eq!(ack.buffer_capacity, 2);
    }
    let refused = svc.send_event(&single(Some(ingest_event::Payload::Event(event("c")))));
    assert_eq!(
        failure(refused),
        (
            Code::ResourceExhausted,
            "Buffer full, event dropped".to_string()
        )
    );
    let health = svc.health_at(&StringMap::new(), 5);
    assert_eq!(health.events_processed, 2);
}

#[test]
fn batches_are_acknowledged() {
    let mut svc = splitting_service();
    let raw = |data: Vec<u8>| {
        batch(Some(ingest_batch::Payload::Raw(RawPayload {
            format: "bytes".into(),
            data,
        })))
    };
    let ack = svc.handle_batch(&raw(vec![1, 2])).unwrap();
    assert_eq!(ack.event_ids, vec!["prod-1", "prod-2"]);
    assert_eq!(ack.buffer_size, 2);

    // Overflow is no error for a batch: the newest events stay.
    let ack = svc.handle_batch(&raw(vec![3, 4])).unwrap();
    assert_eq!(ack.event_ids, vec!["prod-3", "prod-4"]);
    assert_eq!(ack.buffer_size, 3);
    assert_eq!(ack.buffer_capacity, 3);

    let ack = svc.handle_batch(&batch(None)).unwrap();
    assert!(ack.event_ids.is_empty());
    assert_eq!(ack.buffer_size, 3);
    assert_eq!(svc.health(&StringMap::new()).events_processed, 4);
}

#[test]
fn health_names_every_component() {
    let mut svc = GatewayService::new(RingBuffer::new(1));
    let mut outputs = StringMap::new();
    outputs.insert("stdout".to_string(), true);
    outputs.insert("webhook".to_string(), false);

    let health = svc.health_at(&outputs, 42);
    assert!(health.healthy);
    assert_eq!(health.uptime_seconds, 42);
    assert_eq!(health.components.len(), 3);
    let buffer = health.components.get("buffer").unwrap();
    assert!(buffer.healthy);
    assert_eq!(buffer.message, "Buffer: 0/1");
    let stdout = health.components.get("output:stdout").unwrap();
    assert!(stdout.healthy);
    assert_eq!(stdout.message, "OK");
    let webhook = health.components.get("output:webhook").unwrap();
    assert!(!webhook.healthy);
    assert_eq!(webhook.message, "Unhealthy");

    svc.accept_event(event("a")).unwrap();
    let full = svc.health_at(&outputs, 42);
    assert!(!full.components.get("buffer").unwrap().healthy);
    assert_eq!(full.components.get("buffer").unwrap().message, "Buffer: 1/1");
    assert!(full.healthy);
}
