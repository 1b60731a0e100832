//! The aggregator.

use bytes::Bytes;
use polku_gateway::message::Message;
use polku_gateway::middleware::aggregator::{array_payload, combine_with, json_or_text};
use polku_gateway::middleware::{AggregateStrategy, Aggregator, Middleware};

fn message(payload: &'static str) -> Message {
    Message::new("test", "evt", Bytes::from(payload))
}

fn pair(strategy: AggregateStrategy, a: Message, b: Message) -> Message {
    let mut aggregator = Aggregator::new(2).strategy(strategy);
    assert!(aggregator.process(a).is_none());
    aggregator.process(b).unwrap()
}

#[test]
fn test_aggregator_holds_until_batch_complete() {
    let mut aggregator = Aggregator::new(3);

    // First two messages are held
    assert!(aggregator.process(message("a")).is_none());
    assert_eq!(aggregator.pending(), 1);

    assert!(aggregator.process(message("b")).is_none());
    assert_eq!(aggregator.pending(), 2);

    // Third message triggers emission
    let result = aggregator.process(message("c"));
    assert!(result.is_some());
    assert_eq!(aggregator.pending(), 0);
    assert_eq!(aggregator.name(), "aggregator");
}

#[test]
fn test_aggregator_json_array_strategy() {
    let result = pair(
        AggregateStrategy::JsonArray,
        message(r#"{"a":1}"#),
        message(r#"{"b":2}"#),
    );

    let payload: serde_json::Value = serde_json::from_slice(&result.payload).unwrap();
    assert!(payload.is_array());
    assert_eq!(payload.as_array().unwrap().len(), 2);
}

#[test]
fn test_aggregator_concat_strategy() {
    let result = pair(AggregateStrategy::Concat, message("line1"), message("line2"));

    assert_eq!(result.payload_str(), Some("line1\nline2\n"));
}

#[test]
fn test_aggregator_last_strategy() {
    let result = pair(AggregateStrategy::Last, message("first"), message("last"));

    assert_eq!(result.payload_str(), Some("last"));
}

#[test]
fn test_aggregator_first_strategy() {
    let result = pair(AggregateStrategy::First, message("first"), message("last"));

    assert_eq!(result.payload_str(), Some("first"));
}

#[test]
fn test_aggregator_metadata_merged() {
    let result = pair(
        AggregateStrategy::default(),
        message("a").with_metadata("key1", "val1"),
        message("b").with_metadata("key2", "val2"),
    );

    assert_eq!(result.metadata.get("key1"), Some(&"val1".to_string()));
    assert_eq!(result.metadata.get("key2"), Some(&"val2".to_string()));
    assert_eq!(
        result.metadata.get("polku.aggregator.count"),
        Some(&"2".to_string())
    );
}

#[test]
fn test_aggregator_same_source_preserved() {
    let result = pair(
        AggregateStrategy::default(),
        Message::new("source-a", "evt", Bytes::from("a")),
        Message::new("source-a", "evt", Bytes::from("b")),
    );

    assert_eq!(result.source, "source-a");
}

#[test]
fn test_aggregator_different_sources_become_aggregated() {
    let result = pair(
        AggregateStrategy::default(),
        Message::new("source-a", "evt", Bytes::from("a")),
        Message::new("source-b", "evt", Bytes::from("b")),
    );

    assert_eq!(result.source, "aggregated");
}

#[test]
fn test_aggregator_message_type() {
    let result = pair(
        AggregateStrategy::default(),
        Message::new("test", "order.created", Bytes::from("a")),
        Message::new("test", "order.created", Bytes::from("b")),
    );

    assert_eq!(result.message_type, "order.created.aggregate");
}

#[test]
fn test_aggregator_flush() {
    let mut aggregator = Aggregator::new(5);

    // Add 3 messages (less than batch size)
    for i in 0..3 {
        let msg = Message::new("test", "evt", Bytes::from(format!("{}", i)));
        aggregator.process(msg);
    }

    assert_eq!(aggregator.pending(), 3);

    // Flush should return combined message
    let result = aggregator.flush().unwrap();
    assert_eq!(
        result.metadata.get("polku.aggregator.count"),
        Some(&"3".to_string())
    );
    assert_eq!(aggregator.pending(), 0);
}

#[test]
fn test_aggregator_flush_empty() {
    let mut aggregator = Aggregator::new(5);

    // Flush with no pending messages
    assert!(aggregator.flush().is_none());
}

#[test]
fn test_aggregator_routes_merged() {
    let result = pair(
        AggregateStrategy::default(),
        message("a").with_routes(vec!["output-a".to_string()]),
        message("b").with_routes(vec!["output-b".to_string()]),
    );

    assert!(result.route_to.contains(&"output-a".to_string()));
    assert!(result.route_to.contains(&"output-b".to_string()));
}

#[test]
fn later_metadata_wins() {
    let result = pair(
        AggregateStrategy::default(),
        message("a").with_metadata("k", "first"),
        message("b").with_metadata("k", "second"),
    );
    assert_eq!(result.metadata.get("k"), Some(&"second".to_string()));
}

#[test]
fn routes_are_ascending_without_repetition() {
    let result = pair(
        AggregateStrategy::default(),
        message("a").with_routes(vec!["z".into(), "b".into(), "b".into()]),
        message("b").with_routes(vec!["a".into(), "z".into(), "Z".into()]),
    );
    assert_eq!(result.route_to, vec!["Z", "a", "b", "z"]);
}

#[test]
fn payloads_that_are_no_json_become_texts() {
    let result = pair(
        AggregateStrategy::JsonArray,
        message("plain"),
        Message::new("test", "evt", Bytes::from(vec![0xFF, 0xFE])),
    );
    assert_eq!(result.payload_str(), Some(r#"["plain",""]"#));
}

#[test]
fn json_payloads_are_written_out() {
    let result = pair(
        AggregateStrategy::JsonArray,
        message(r#"{ "a" : 1 }"#),
        message("[true, null]"),
    );
    assert_eq!(result.payload_str(), Some(r#"[{"a":1},[true,null]]"#));
}

#[test]
fn parts_of_the_array() {
    let msg = message("text");
    assert_eq!(
        json_or_text(Ok(serde_json::Value::Bool(true)), &msg),
        serde_json::Value::Bool(true)
    );
    assert_eq!(
        json_or_text(Err("no".into()), &msg),
        serde_json::Value::String("text".into())
    );
    assert_eq!(array_payload(Some(vec![1, 2])), Bytes::from(vec![1, 2]));
    assert!(array_payload(None).is_empty());
}

#[test]
fn combined_messages_have_the_given_identity() {
    let messages = vec![
        Message::with_id("1", 1, "s", "t", Bytes::from("a")),
        Message::with_id("2", 2, "s", "u", Bytes::from("b")),
    ];
    let out = combine_with(&messages, Bytes::from("p"), "new".into(), 99);
    assert_eq!(out.id, "new");
    assert_eq!(out.timestamp, 99);
    assert_eq!(out.source, "s");
    assert_eq!(out.message_type, "t.aggregate");
    assert_eq!(out.payload_str(), Some("p"));
    assert_eq!(out.metadata.len(), 1);
}

#[test]
fn batches_are_full() {
    let mut aggregator = Aggregator::new(4);
    let mut batches = 0;
    for _ in 0..10 {
        if let Some(batch) = aggregator.process(message("x")) {
            batches += 1;
            assert_eq!(
                batch.metadata.get("polku.aggregator.count"),
                Some(&"4".to_string())
            );
        }
    }
    assert_eq!(batches, 2);
    assert_eq!(aggregator.pending(), 2);
}
