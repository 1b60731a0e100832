//! The pipeline.

use bytes::Bytes;
use polku_gateway::emit::{Emitter, StdoutEmitter};
use polku_gateway::hub::{Hub, BATCH_SIZE};
use polku_gateway::message::Message;
use polku_gateway::middleware::{Aggregator, Filter, Middleware, PassThrough, Transform};
use polku_gateway::output::{Output, StdoutOutput};
use std::sync::atomic::{AtomicUsize, Ordering};
use std::sync::Arc;

fn message(message_type: &str) -> Message {
    Message::new("test", message_type, Bytes::new())
}

struct Named(&'static str);

impl Output for Named {
    fn name(&self) -> &'static str {
        self.0
    }
}

#[test]
fn test_hub_builder() {
    let hub = Hub::new()
        .buffer_capacity(1000)
        .middleware(Transform::new(|msg| msg))
        .output(StdoutOutput::new());

    let runner = hub.build();
    assert_eq!(runner.buffer().capacity(), 1000);
    assert_eq!(runner.output_at(0).name(), "stdout");
}

#[test]
fn test_hub_build() {
    let hub = Hub::<PassThrough, _>::new().output(StdoutOutput::new());

    let runner = hub.build();

    // Runner should have buffer
    assert_eq!(runner.buffer().capacity(), 10_000);
}

#[test]
fn test_hub_with_middleware() {
    // Track how many messages pass through
    struct CountingMiddleware(Arc<AtomicUsize>);

    impl Middleware for CountingMiddleware {
        fn name(&self) -> &'static str {
            "counter"
        }

        fn process(&mut self, msg: Message) -> Option<Message> {
            self.0.fetch_add(1, Ordering::Relaxed);
            Some(msg)
        }
    }

    let counter = Arc::new(AtomicUsize::new(0));
    let mut runner = Hub::<_, Named>::new()
        .middleware(CountingMiddleware(Arc::clone(&counter)))
        .build();

    for i in 0..5 {
        runner.accept(message(&format!("evt-{i}")));
    }

    // All 5 messages should have been processed
    assert_eq!(counter.load(Ordering::Relaxed), 5);
}

#[test]
fn test_hub_filter() {
    let mut runner = Hub::<_, Named>::new()
        // Only allow messages with type "keep"
        .middleware(Filter::new(|msg: &Message| msg.message_type == "keep"))
        .build();

    assert_eq!(runner.accept(message("keep")), Some(0));
    assert_eq!(runner.accept(message("drop")), None);
    assert_eq!(runner.accept(message("keep")), Some(0));

    // Only 2 messages should be in buffer (the "keep" ones)
    assert_eq!(runner.buffer().len(), 2);
}

#[test]
fn overflow_is_told() {
    let mut runner = Hub::<PassThrough, Named>::default()
        .buffer_capacity(1)
        .build();
    assert_eq!(runner.accept(message("a")), Some(0));
    assert_eq!(runner.accept(message("b")), Some(1));
    assert_eq!(runner.buffer().len(), 1);
}

#[test]
fn flushes_take_batches_in_order() {
    let mut runner = Hub::<PassThrough, Named>::new().output(Named("out")).build();
    for i in 0..BATCH_SIZE + 5 {
        runner.accept(message(&format!("{i}")));
    }
    let first = runner.flush();
    assert_eq!(first.len(), 1);
    assert_eq!(first[0].events.len(), 100);
    assert_eq!(first[0].events[0].event_type, "0");
    assert_eq!(first[0].events[99].event_type, "99");
    assert_eq!(runner.buffer().len(), 5);
    let second = runner.flush();
    assert_eq!(second[0].events.len(), 5);
    assert_eq!(second[0].events[0].event_type, "100");
    assert!(runner.flush().is_empty());
}

#[test]
fn outputs_get_what_is_meant_for_them() {
    let mut runner = Hub::<PassThrough, dyn Output>::new()
        .output_arc(Arc::new(Named("a")))
        .output_arc(Arc::new(Named("b")))
        .output_arc(Arc::new(Named("c")))
        .build();
    runner.accept(message("all"));
    runner.accept(message("only-b").with_routes(vec!["b".into(), "b".into()]));
    runner.accept(message("nowhere").with_routes(vec!["x".into()]));
    let plan: Vec<(usize, Vec<String>)> = runner
        .flush()
        .into_iter()
        .map(|d| (d.output, d.events.into_iter().map(|e| e.event_type).collect()))
        .collect();
    assert_eq!(
        plan,
        vec![
            (0, vec!["all".to_string()]),
            (1, vec!["all".to_string(), "only-b".to_string()]),
            (2, vec!["all".to_string()]),
        ]
    );
}

#[test]
fn outputs_without_events_get_no_delivery() {
    let mut runner = Hub::<PassThrough, Named>::new()
        .output(Named("a"))
        .output(Named("b"))
        .build();
    runner.accept(message("m").with_routes(vec!["b".into()]));
    let plan = runner.flush();
    assert_eq!(plan.len(), 1);
    assert_eq!(plan[0].output, 1);
}

#[test]
fn without_outputs_a_flush_empties_the_buffer() {
    let mut runner = Hub::<PassThrough, Named>::new().build();
    runner.accept(message("m"));
    assert!(runner.flush().is_empty());
    assert!(runner.buffer().is_empty());
}

#[test]
fn emitters_are_outputs_of_the_same_name() {
    let mut runner = Hub::<PassThrough, _>::new()
        .emitter(StdoutEmitter::new())
        .emitter_arc(Arc::new(StdoutEmitter::pretty()))
        .build();
    assert_eq!(runner.output_at(1).name(), "stdout");
    assert_eq!(runner.output_at(1).emitter().name(), "stdout");
    runner.accept(message("m").with_routes(vec!["stdout".into()]));
    let plan = runner.flush();
    assert_eq!(plan.len(), 2);
    assert_eq!(plan[1].events[0].event_type, "m");
}

#[test]
fn finishing_delivers_all_that_is_buffered() {
    let mut runner = Hub::<PassThrough, Named>::new()
        .output(Named("a"))
        .output(Named("b"))
        .build();
    let total = 2 * BATCH_SIZE + 7;
    for i in 0..total {
        let msg = message(&format!("{i}"));
        if i % 2 == 0 {
            runner.accept(msg);
        } else {
            runner.accept(msg.with_routes(vec!["b".into()]));
        }
    }
    let mut received = [Vec::new(), Vec::new()];
    for delivery in runner.finish() {
        for event in delivery.events {
            received[delivery.output].push(event.event_type);
        }
    }
    let all: Vec<String> = (0..total).map(|i| format!("{i}")).collect();
    let even: Vec<String> = (0..total).step_by(2).map(|i| format!("{i}")).collect();
    assert_eq!(received, [even, all]);
    assert!(runner.buffer().is_empty());
    assert!(runner.finish().is_empty());
}

#[test]
fn ten_messages_are_delivered() {
    let mut runner = Hub::<PassThrough, Named>::new().output(Named("counter")).build();
    for i in 0..10 {
        runner.accept(message(&format!("{i}")));
    }
    let delivered: usize = runner.finish().iter().map(|d| d.events.len()).sum();
    assert_eq!(delivered, 10);
    assert_eq!(runner.buffer().total_drained(), 10);
}

#[test]
fn stages_keep_their_state_between_messages() {
    let mut runner = Hub::<Aggregator, Named>::new()
        .middleware(Aggregator::new(3))
        .output(Named("out"))
        .build();
    for i in 0..7 {
        let accepted = runner.accept(message(&format!("{i}")));
        assert_eq!(accepted.is_some(), i % 3 == 2);
    }
    assert_eq!(runner.buffer().len(), 2);
}
