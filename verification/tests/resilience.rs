//! Failure capture and the layers round an emitter.

use polku_gateway::emit::resilience::config::Layer;
use polku_gateway::emit::resilience::{
    FailedEvent, FailureBuffer, FailureCaptureConfig, FailureCaptureEmitter, ResilientEmitter,
};
use polku_gateway::emit::Emitter;
use polku_gateway::error::PluginError;
use polku_gateway::proto::Event;
use std::sync::Arc;
use std::time::Instant;

struct AlwaysFailingEmitter;

impl Emitter for AlwaysFailingEmitter {
    fn name(&self) -> &'static str {
        "always_failing"
    }
}

fn failure() -> Result<(), PluginError> {
    Err(PluginError::Connection("always fails".into()))
}

fn make_test_event(id: &str) -> Event {
    Event {
        id: id.to_string(),
        timestamp_unix_ns: 0,
        source: "test".to_string(),
        event_type: "test".to_string(),
        metadata: Default::default(),
        payload: vec![],
        route_to: vec![],
    }
}

fn failed(id: &str) -> FailedEvent {
    FailedEvent {
        event: make_test_event(id),
        error: "test".into(),
        emitter_name: "test".into(),
        failed_at: Instant::now(),
        attempts: 1,
    }
}

#[test]
fn test_buffer_push_and_len() {
    let mut buffer = FailureBuffer::new(100);

    buffer.push(vec![failed("e1")]);

    assert_eq!(buffer.len(), 1);
    assert!(!buffer.is_empty());
}

#[test]
fn test_buffer_capacity_limit() {
    let mut buffer = FailureBuffer::new(3);

    // Push 5 events
    for i in 0..5 {
        buffer.push(vec![failed(&format!("evt-{i}"))]);
    }

    // Should only have last 3
    assert_eq!(buffer.len(), 3);
    assert_eq!(buffer.total_captured(), 5);
    assert_eq!(buffer.total_dropped(), 2);

    let events = buffer.drain(10);
    assert_eq!(events.len(), 3);
    assert_eq!(events[0].event.id, "evt-2");
    assert_eq!(events[1].event.id, "evt-3");
    assert_eq!(events[2].event.id, "evt-4");
}

#[test]
fn test_buffer_drain() {
    let mut buffer = FailureBuffer::new(100);

    for i in 0..5 {
        buffer.push(vec![failed(&format!("evt-{i}"))]);
    }

    // Drain 3
    let drained = buffer.drain(3);
    assert_eq!(drained.len(), 3);
    assert_eq!(buffer.len(), 2);

    // Drain remaining
    let drained = buffer.drain(10);
    assert_eq!(drained.len(), 2);
    assert!(buffer.is_empty());
}

#[test]
fn test_buffer_peek() {
    let mut buffer = FailureBuffer::new(100);

    for i in 0..3 {
        buffer.push(vec![failed(&format!("evt-{i}"))]);
    }

    // Peek doesn't remove
    let peeked = buffer.peek(2);
    assert_eq!(peeked.len(), 2);
    assert_eq!(buffer.len(), 3); // Still 3 in queue
    assert_eq!(peeked[0].event.id, "evt-0");
    assert_eq!(peeked[1].event.id, "evt-1");
    assert_eq!(buffer.peek(9).len(), 3);
}

#[test]
fn copies_keep_the_time_of_the_failure() {
    let mut buffer = FailureBuffer::new(2);
    let failures = [failed("a"), failed("b")];
    let times = [failures[0].failed_at, failures[1].failed_at];
    buffer.push(failures.into_iter().collect());
    let peeked = buffer.peek(2);
    assert_eq!([peeked[0].failed_at, peeked[1].failed_at], times);
}

#[test]
fn test_buffer_clear() {
    let mut buffer = FailureBuffer::new(100);

    buffer.push(vec![failed("e1")]);

    assert_eq!(buffer.len(), 1);
    buffer.clear();
    assert!(buffer.is_empty());
    assert_eq!(buffer.total_captured(), 1);
}

#[test]
fn test_buffer_emitter_captures_failures() {
    let inner = Arc::new(AlwaysFailingEmitter);
    let mut buffer = FailureBuffer::new(100);
    let emitter = FailureCaptureEmitter::with_defaults(inner);

    let events = vec![make_test_event("e1"), make_test_event("e2")];
    let result = emitter.settle(&mut buffer, &events, failure());

    assert!(result.is_err());
    assert_eq!(buffer.len(), 2);

    let failed = buffer.drain(10);
    assert_eq!(failed.len(), 2);
    assert_eq!(failed[0].emitter_name, "always_failing");
    assert_eq!(failed[0].event.id, "e1");
    assert_eq!(failed[1].event.id, "e2");
    assert_eq!(failed[1].error, "connection error: always fails");
    assert_eq!(failed[1].attempts, 1);
    assert_eq!(emitter.name(), "failure_capture");
    assert_eq!(emitter.wrapped().name(), "always_failing");
}

#[test]
fn test_buffer_emitter_passthrough_success() {
    let mut buffer = FailureBuffer::new(100);
    let emitter = FailureCaptureEmitter::with_defaults(Arc::new(AlwaysFailingEmitter));

    let result = emitter.settle(&mut buffer, &[make_test_event("e1")], Ok(()));

    assert!(result.is_ok());
    assert!(buffer.is_empty()); // Nothing captured on success
}

#[test]
fn test_buffer_emitter_sample_mode() {
    let mut buffer = FailureBuffer::new(100);
    let emitter = FailureCaptureEmitter::new(
        Arc::new(AlwaysFailingEmitter),
        FailureCaptureConfig {
            capacity: 100,
            store_full_batch: false, // Only store first event
        },
    );

    let events = vec![
        make_test_event("e1"),
        make_test_event("e2"),
        make_test_event("e3"),
    ];
    let _ = emitter.settle(&mut buffer, &events, failure());

    // Only first event stored
    assert_eq!(buffer.len(), 1);
    let failed = buffer.drain(10);
    assert_eq!(failed[0].event.id, "e1");
    assert!(failed[0].error.contains("batch of 3"));
    assert_eq!(
        failed[0].error,
        "connection error: always fails (batch of 3)"
    );

    let _ = emitter.settle(&mut buffer, &[], failure());
    assert!(buffer.is_empty());
}

#[test]
fn failure_capture_defaults() {
    let config = FailureCaptureConfig::default();
    assert_eq!(config.capacity, 1000);
    assert!(config.store_full_batch);
}

#[derive(Debug, PartialEq, Default)]
struct Retries(u32);

#[derive(Debug, PartialEq, Default)]
struct Breaker(u32);

fn names(layers: &[Layer<Retries, Breaker, &'static str>]) -> Vec<&'static str> {
    layers
        .iter()
        .map(|l| match l {
            Layer::Retry(_) => "retry",
            Layer::CircuitBreaker(_) => "circuit_breaker",
            Layer::FailureCapture(_, _) => "failure_capture",
        })
        .collect()
}

#[test]
fn layers_stand_from_the_inside_out() {
    let (inner, layers) = ResilientEmitter::wrap(AlwaysFailingEmitter)
        .with_default_failure_capture("buffer")
        .with_circuit_breaker(Breaker(5))
        .with_retry(Retries(3))
        .build();
    assert_eq!(inner.name(), "always_failing");
    assert_eq!(
        names(&layers),
        vec!["retry", "circuit_breaker", "failure_capture"]
    );
    match &layers[0] {
        Layer::Retry(config) => assert_eq!(*config, Retries(3)),
        _ => panic!("wrong layer"),
    }
    match &layers[2] {
        Layer::FailureCapture(buffer, config) => {
            assert_eq!(*buffer, "buffer");
            assert_eq!(config.capacity, 1000);
        }
        _ => panic!("wrong layer"),
    }
}

#[test]
fn layers_are_left_out() {
    let inner: Arc<dyn Emitter> = Arc::new(AlwaysFailingEmitter);
    let (_, layers) = ResilientEmitter::<dyn Emitter, Retries, Breaker, &'static str>::wrap_arc(
        Arc::clone(&inner),
    )
    .build();
    assert!(layers.is_empty());
    let (_, layers) = ResilientEmitter::wrap_arc(inner)
        .with_default_retry()
        .with_default_circuit_breaker()
        .build();
    assert_eq!(names(&layers), vec!["retry", "circuit_breaker"]);
}
