//! Messages and their conversion to and from events.

use bytes::Bytes;
use polku_gateway::message::Message;
use polku_gateway::proto::Event;

#[test]
fn test_message_creation() {
    let payload = Bytes::from(r#"{"user_id": 123}"#);
    let msg = Message::new("user-service", "user.created", payload.clone());

    assert!(!msg.id.is_empty());
    assert!(msg.timestamp > 0);
    assert_eq!(msg.source, "user-service");
    assert_eq!(msg.message_type, "user.created");
    assert_eq!(msg.payload, payload);
    assert!(msg.route_to.is_empty());
}

#[test]
fn test_message_with_metadata() {
    let msg = Message::new("svc", "evt", Bytes::new())
        .with_metadata("trace_id", "abc-123")
        .with_metadata("tenant", "acme");

    assert_eq!(msg.metadata.get("trace_id"), Some(&"abc-123".to_string()));
    assert_eq!(msg.metadata.get("tenant"), Some(&"acme".to_string()));
}

#[test]
fn test_message_routing() {
    // Empty routes = broadcast to all
    let broadcast = Message::new("svc", "evt", Bytes::new());
    assert!(broadcast.should_route_to("any-output"));
    assert!(broadcast.should_route_to("another"));

    // Specific routes
    let targeted = Message::new("svc", "evt", Bytes::new())
        .with_routes(vec!["kafka".into(), "metrics".into()]);
    assert!(targeted.should_route_to("kafka"));
    assert!(targeted.should_route_to("metrics"));
    assert!(!targeted.should_route_to("stdout"));
}

#[test]
fn test_zero_copy_clone() {
    let original = Bytes::from(vec![0u8; 10000]); // 10KB payload
    let msg = Message::new("svc", "evt", original.clone());

    // Clone the message
    let cloned = msg.clone();

    // Both should point to the same underlying data
    // (Bytes uses Arc internally, so this is a reference count increment)
    assert_eq!(msg.payload.as_ptr(), cloned.payload.as_ptr());
    assert_eq!(msg.payload.len(), cloned.payload.len());
}

#[test]
fn test_payload_str() {
    let json = Message::new("svc", "evt", Bytes::from(r#"{"valid": "json"}"#));
    assert_eq!(json.payload_str(), Some(r#"{"valid": "json"}"#));

    let binary = Message::new("svc", "evt", Bytes::from(vec![0xFF, 0xFE]));
    assert!(binary.payload_str().is_none());
}

#[test]
fn test_proto_conversion() {
    let msg = Message::new("svc", "user.created", Bytes::from("test"))
        .with_metadata("key", "value")
        .with_routes(vec!["out1".into()]);

    // Convert to proto
    let proto: Event = msg.clone().into();
    assert_eq!(proto.id, msg.id);
    assert_eq!(proto.source, "svc");
    assert_eq!(proto.event_type, "user.created");
    assert_eq!(proto.metadata.get("key"), Some(&"value".to_string()));

    // Convert back
    let back: Message = proto.into();
    assert_eq!(back.id, msg.id);
    assert_eq!(back.source, msg.source);
    assert_eq!(back.message_type, msg.message_type);
}

#[test]
fn conversion_keeps_every_field() {
    let msg = Message::with_id("id-1", -5, "svc", "t", Bytes::from("payload"))
        .with_metadata("a", "1")
        .with_routes(vec!["x".into(), "y".into()]);
    let event = Event::from(msg);
    assert_eq!(event.id, "id-1");
    assert_eq!(event.timestamp_unix_ns, -5);
    assert_eq!(event.payload, b"payload".to_vec());
    let back = Message::from(event);
    assert_eq!(back.id, "id-1");
    assert_eq!(back.timestamp, -5);
    assert_eq!(back.source, "svc");
    assert_eq!(back.message_type, "t");
    assert_eq!(back.payload, Bytes::from("payload"));
    assert_eq!(back.route_to, vec!["x".to_string(), "y".to_string()]);
    assert_eq!(back.metadata.get("a"), Some(&"1".to_string()));
    assert_eq!(back.metadata.len(), 1);
}

#[test]
fn identifiers_have_their_form_and_differ() {
    let a = Message::new("s", "t", Bytes::new());
    let b = Message::new("s", "t", Bytes::new());
    assert_eq!(a.id.len(), 26);
    assert!(a
        .id
        .chars()
        .all(|c| c.is_ascii_digit() || (c.is_ascii_uppercase() && !"ILOU".contains(c))));
    assert_ne!(a.id, b.id);
}

#[test]
fn metadata_is_replaced() {
    let mut msg = Message::new("s", "t", Bytes::new()).with_metadata("k", "old");
    msg.add_metadata("k", "new");
    assert_eq!(msg.metadata.get("k"), Some(&"new".to_string()));
    assert_eq!(msg.metadata.len(), 1);
}

#[test]
fn payload_length_is_told() {
    let msg = Message::new("s", "t", Bytes::from("four"));
    assert_eq!(msg.payload_len(), 4);
    let text = Message::new("s", "t", Bytes::from("żółw"));
    assert_eq!(text.payload_len(), 7);
    assert_eq!(text.payload_str(), Some("żółw"));
}

#[test]
fn new_messages_differ_and_follow_the_clock() {
    let first = Message::new("s", "t", Bytes::new());
    let second = Message::new("s", "t", Bytes::new());
    assert_ne!(first.id, second.id);
    // 2020-01-01, in nanoseconds.
    assert!(first.timestamp > 1_577_836_800_000_000_000);
}
