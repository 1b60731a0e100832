//! Stages, chains, routers, validators and enrichers.

use bytes::Bytes;
use polku_gateway::message::Message;
use polku_gateway::middleware::enricher::enrich;
use polku_gateway::middleware::validator::{act_on, judge_json};
use polku_gateway::middleware::{
    Aggregator, Enricher, Filter, InvalidAction, Middleware, MiddlewareChain, PassThrough, Router,
    Throttle, Transform, ValidationResult, Validator,
};
use polku_gateway::string_map::Metadata;

type Rule = fn(&Message) -> bool;
type Check = fn(&Message) -> ValidationResult;
type Enrichment = fn(&Message) -> Metadata;

fn message(source: &str, message_type: &str) -> Message {
    Message::new(source, message_type, Bytes::new())
}

fn with_payload(payload: &'static str) -> Message {
    Message::new("test", "evt", Bytes::from(payload))
}

#[test]
fn test_passthrough() {
    let mut mw = PassThrough;
    let msg = message("test", "evt");
    let id = msg.id.clone();

    let result = mw.process(msg);
    assert!(result.is_some());
    assert_eq!(result.expect("should have message").id, id);
    assert_eq!(mw.name(), "passthrough");
}

#[test]
fn test_filter_keep() {
    let mut filter = Filter::new(|msg: &Message| msg.message_type == "keep");
    let msg = message("test", "keep");

    let result = filter.process(msg);
    assert!(result.is_some());
    assert_eq!(filter.name(), "filter");
}

#[test]
fn test_filter_drop() {
    let mut filter = Filter::new(|msg: &Message| msg.message_type == "keep");
    let msg = message("test", "drop_me");

    let result = filter.process(msg);
    assert!(result.is_none());
}

#[test]
fn mod_test_transform() {
    let mut transform = Transform::new(|mut msg: Message| {
        msg.metadata.insert("transformed".into(), "yes".into());
        msg
    });

    let msg = message("test", "evt");
    let result = transform.process(msg);

    assert!(result.is_some());
    let msg = result.expect("should have message");
    assert_eq!(msg.metadata.get("transformed"), Some(&"yes".to_string()));
    assert_eq!(transform.name(), "transform");
}

#[test]
fn test_middleware_chain() {
    let mut chain: MiddlewareChain<Box<dyn Middleware>> = MiddlewareChain::new();

    // First: add metadata
    chain.add(Box::new(Transform::new(|mut msg: Message| {
        msg.metadata.insert("step1".into(), "done".into());
        msg
    })));

    // Second: filter (keep all)
    chain.add(Box::new(Filter::new(|_: &Message| true)));

    // Third: add more metadata
    chain.add(Box::new(Transform::new(|mut msg: Message| {
        msg.metadata.insert("step2".into(), "done".into());
        msg
    })));

    let msg = message("test", "evt");
    let result = chain.process(msg);

    assert!(result.is_some());
    let msg = result.expect("should have message");
    assert_eq!(msg.metadata.get("step1"), Some(&"done".to_string()));
    assert_eq!(msg.metadata.get("step2"), Some(&"done".to_string()));
    assert_eq!(chain.len(), 3);
}

#[test]
fn test_middleware_chain_filter() {
    let mut chain: MiddlewareChain<Box<dyn Middleware>> = MiddlewareChain::new();

    // First: add metadata
    chain.add(Box::new(Transform::new(|mut msg: Message| {
        msg.metadata.insert("step1".into(), "done".into());
        msg
    })));

    // Second: filter (drop all)
    chain.add(Box::new(Filter::new(|_: &Message| false)));

    // Third: should never run
    chain.add(Box::new(Transform::new(|mut msg: Message| {
        msg.metadata.insert("step2".into(), "done".into());
        msg
    })));

    let msg = message("test", "evt");
    let result = chain.process(msg);

    assert!(result.is_none());
}

#[test]
fn empty_chain_passes_everything() {
    let mut chain: MiddlewareChain<PassThrough> = MiddlewareChain::default();
    assert!(chain.is_empty());
    let msg = message("a", "b");
    let id = msg.id.clone();
    assert_eq!(chain.process(msg).unwrap().id, id);
}

#[test]
fn stages_run_in_order() {
    let mut chain: MiddlewareChain<Box<dyn Middleware>> = MiddlewareChain::new();
    for step in ["a", "b", "c"] {
        chain.add(Box::new(Transform::new(move |mut msg: Message| {
            msg.message_type.push_str(step);
            msg
        })));
    }
    let out = chain.process(message("s", "")).unwrap();
    assert_eq!(out.message_type, "abc");
}

#[test]
fn stages_behind_a_drop_do_not_move() {
    let mut chain: MiddlewareChain<Box<dyn Middleware>> = MiddlewareChain::new();
    chain.add(Box::new(Aggregator::new(2)));
    chain.add(Box::new(Aggregator::new(2)));
    let passed: Vec<bool> = (0..8)
        .map(|_| chain.process(message("s", "t")).is_some())
        .collect();
    assert_eq!(passed, [false, false, false, true, false, false, false, true]);
}

#[test]
fn each_stage_moves_once_per_message() {
    let mut chain: MiddlewareChain<Throttle> = MiddlewareChain::new();
    chain.add(Throttle::new(0, 3));
    chain.add(Throttle::new(0, 2));
    let passed: Vec<bool> = (0..4)
        .map(|_| chain.process(message("s", "t")).is_some())
        .collect();
    assert_eq!(passed, [true, true, false, false]);
}

#[test]
fn test_router_no_rules_passthrough() {
    let mut router = Router::<Rule>::new();
    let msg = message("src", "evt");
    let original_routes = msg.route_to.clone();

    let result = router.process(msg);
    assert!(result.is_some());
    assert_eq!(result.unwrap().route_to, original_routes);
    assert_eq!(router.name(), "router");
}

#[test]
fn test_router_first_match_wins() {
    let mut router = Router::<Rule>::new()
        .rule(|_| true, vec!["first".into()])
        .rule(|_| true, vec!["second".into()]);

    let msg = message("src", "evt");
    let result = router.process(msg).unwrap();

    assert_eq!(result.route_to, vec!["first".to_string()]);
}

#[test]
fn test_router_by_type_prefix() {
    let mut router = Router::<Rule>::new()
        .route_type_prefix("error.", vec!["alerts".into()])
        .route_type_prefix("metric.", vec!["metrics".into()])
        .default_route(vec!["default".into()]);

    // Error goes to alerts
    let msg = message("src", "error.critical");
    let result = router.process(msg).unwrap();
    assert_eq!(result.route_to, vec!["alerts".to_string()]);

    // Metric goes to metrics
    let msg = message("src", "metric.cpu");
    let result = router.process(msg).unwrap();
    assert_eq!(result.route_to, vec!["metrics".to_string()]);

    // Unknown goes to default
    let msg = message("src", "other.event");
    let result = router.process(msg).unwrap();
    assert_eq!(result.route_to, vec!["default".to_string()]);
}

#[test]
fn test_router_by_source() {
    let mut router = Router::<Rule>::new()
        .route_source("tapio", vec!["ebpf-sink".into()])
        .route_source("elava", vec!["aws-sink".into()]);

    let msg = message("tapio", "evt");
    let result = router.process(msg).unwrap();
    assert_eq!(result.route_to, vec!["ebpf-sink".to_string()]);

    let msg = message("elava", "evt");
    let result = router.process(msg).unwrap();
    assert_eq!(result.route_to, vec!["aws-sink".to_string()]);
}

#[test]
fn test_router_custom_rule() {
    let mut router = Router::<Rule>::new().rule(
        |msg| msg.metadata.get("priority") == Some(&"high".to_string()),
        vec!["priority-queue".into()],
    );

    // Without priority - no match
    let msg = message("src", "evt");
    let result = router.process(msg).unwrap();
    assert!(result.route_to.is_empty());

    // With priority - matches
    let msg = message("src", "evt").with_metadata("priority", "high");
    let result = router.process(msg).unwrap();
    assert_eq!(result.route_to, vec!["priority-queue".to_string()]);
}

#[test]
fn unmatched_messages_keep_their_routes() {
    let mut router = Router::<Rule>::default().route_source("a", vec!["x".into()]);
    let msg = message("b", "evt").with_routes(vec!["kept".into()]);
    assert_eq!(router.process(msg).unwrap().route_to, vec!["kept".to_string()]);
}

#[test]
fn a_prefix_longer_than_the_type_does_not_match() {
    let mut router = Router::<Rule>::new().route_type_prefix("error.", vec!["x".into()]);
    assert!(router.process(message("a", "err")).unwrap().route_to.is_empty());
}

#[test]
fn test_validator_passes_valid() {
    let mut validator = Validator::<Check>::new(|_| ValidationResult::Valid);

    let result = validator.process(with_payload("data"));

    assert!(result.is_some());
    assert_eq!(validator.name(), "validator");
}

#[test]
fn test_validator_drops_invalid() {
    let mut validator = Validator::<Check>::new(|_| ValidationResult::Invalid("bad".to_string()));

    let result = validator.process(with_payload("data"));

    assert!(result.is_none());
}

#[test]
fn test_validator_tags_invalid() {
    let mut validator =
        Validator::<Check>::new(|_| ValidationResult::Invalid("bad data".to_string()))
            .on_invalid(InvalidAction::Tag);

    let result = validator.process(with_payload("data")).unwrap();

    assert_eq!(
        result.metadata.get("polku.validator.error"),
        Some(&"bad data".to_string())
    );
    assert_eq!(
        result.metadata.get("polku.validator.valid"),
        Some(&"false".to_string())
    );
}

#[test]
fn test_validator_json_valid() {
    let mut validator = Validator::<Check>::json();

    let result = validator.process(with_payload(r#"{"key": "value"}"#));

    assert!(result.is_some());
}

#[test]
fn test_validator_json_invalid() {
    let mut validator = Validator::<Check>::json();

    let result = validator.process(with_payload("not json"));

    assert!(result.is_none());
}

#[test]
fn test_validator_json_empty() {
    let mut validator = Validator::<Check>::json();

    let result = validator.process(message("test", "evt"));

    assert!(result.is_none());
}

#[test]
fn test_validator_non_empty_valid() {
    let mut validator = Validator::<Check>::non_empty();

    let result = validator.process(with_payload("data"));

    assert!(result.is_some());
}

#[test]
fn test_validator_non_empty_invalid() {
    let mut validator = Validator::<Check>::non_empty();

    let result = validator.process(message("test", "evt"));

    assert!(result.is_none());
}

#[test]
fn test_validator_max_size_valid() {
    let mut validator = Validator::<Check>::max_size(100);

    let result = validator.process(with_payload("small"));

    assert!(result.is_some());
}

#[test]
fn test_validator_max_size_invalid() {
    let mut validator = Validator::<Check>::max_size(5);

    let result = validator.process(with_payload("too long"));

    assert!(result.is_none());
}

#[test]
fn test_validator_custom_logic() {
    // Only accept messages with "valid" in metadata
    let mut validator = Validator::<Check>::new(|msg| {
        if msg.metadata.contains_key("valid") {
            ValidationResult::Valid
        } else {
            ValidationResult::Invalid("missing 'valid' metadata".to_string())
        }
    });

    let msg_invalid = message("test", "evt");
    assert!(validator.process(msg_invalid).is_none());

    let msg_valid = message("test", "evt").with_metadata("valid", "yes");
    assert!(validator.process(msg_valid).is_some());
}

fn reason(validator: Validator<Check>, msg: Message) -> String {
    let mut validator = validator.on_invalid(InvalidAction::Tag);
    let out = validator.process(msg).unwrap();
    out.metadata.get("polku.validator.error").unwrap().clone()
}

#[test]
fn reasons_are_told() {
    assert_eq!(
        reason(Validator::json(), message("a", "b")),
        "empty payload"
    );
    assert_eq!(
        reason(Validator::json(), with_payload("not json")),
        "invalid JSON: expected ident at line 1 column 2"
    );
    assert_eq!(
        reason(Validator::non_empty(), message("a", "b")),
        "empty payload"
    );
    assert_eq!(
        reason(Validator::max_size(5), with_payload("too long")),
        "payload too large: 8 > 5 bytes"
    );
    assert!(Validator::<Check>::max_size(5)
        .process(with_payload("12345"))
        .is_some());
}

#[test]
fn json_is_judged_by_what_parsing_gave() {
    let msg = with_payload("anything");
    assert!(matches!(
        judge_json(&msg, Ok(serde_json::Value::Null)),
        ValidationResult::Valid
    ));
    match judge_json(&msg, Err("oops".into())) {
        ValidationResult::Invalid(reason) => assert_eq!(reason, "invalid JSON: oops"),
        ValidationResult::Valid => panic!("accepted"),
    }
}

#[test]
fn verdicts_are_acted_on() {
    let bad = || ValidationResult::Invalid("r".into());
    assert!(act_on(message("a", "b"), bad(), InvalidAction::Drop).is_none());
    let tagged = act_on(with_payload("p"), bad(), InvalidAction::Tag).unwrap();
    assert_eq!(tagged.payload_str(), Some("p"));
    assert_eq!(tagged.metadata.len(), 2);
    let kept = act_on(message("a", "b"), ValidationResult::Valid, InvalidAction::Drop).unwrap();
    assert!(kept.metadata.is_empty());
    assert_eq!(InvalidAction::default(), InvalidAction::Drop);
}

fn entry(key: &str, value: &str) -> Metadata {
    let mut meta = Metadata::new();
    meta.insert(key.to_string(), value.to_string());
    meta
}

#[test]
fn test_enricher_adds_metadata() {
    let mut enricher = Enricher::<Enrichment>::new(|_msg| entry("enriched", "true"));

    let result = enricher.process(message("test", "evt")).unwrap();

    assert_eq!(result.metadata.get("enriched"), Some(&"true".to_string()));
    assert_eq!(enricher.name(), "enricher");
}

#[test]
fn test_enricher_with_static_metadata() {
    let mut static_meta = Metadata::new();
    static_meta.insert("env".to_string(), "production".to_string());
    static_meta.insert("version".to_string(), "1.0".to_string());

    let mut enricher = Enricher::<Enrichment>::with_static(static_meta);

    let result = enricher.process(message("test", "evt")).unwrap();

    assert_eq!(result.metadata.get("env"), Some(&"production".to_string()));
    assert_eq!(result.metadata.get("version"), Some(&"1.0".to_string()));
}

#[test]
fn test_enricher_uses_message_context() {
    let mut enricher =
        Enricher::<Enrichment>::new(|msg| entry("source_upper", &msg.source.to_uppercase()));

    let result = enricher.process(message("my-service", "evt")).unwrap();

    assert_eq!(
        result.metadata.get("source_upper"),
        Some(&"MY-SERVICE".to_string())
    );
}

#[test]
fn test_enricher_preserves_existing_metadata() {
    let mut enricher = Enricher::<Enrichment>::new(|_| entry("new_key", "new_value"));

    let msg = message("test", "evt").with_metadata("existing", "value");

    let result = enricher.process(msg).unwrap();

    assert_eq!(result.metadata.get("existing"), Some(&"value".to_string()));
    assert_eq!(
        result.metadata.get("new_key"),
        Some(&"new_value".to_string())
    );
}

#[test]
fn test_enricher_overwrites_on_conflict() {
    let mut enricher = Enricher::<Enrichment>::new(|_| entry("key", "new"));

    let msg = message("test", "evt").with_metadata("key", "old");

    let result = enricher.process(msg).unwrap();

    // New value overwrites old
    assert_eq!(result.metadata.get("key"), Some(&"new".to_string()));
}

#[test]
fn enriching_keeps_the_message() {
    let msg = with_payload("p").with_metadata("a", "1");
    let out = enrich(msg, entry("b", "2"));
    assert_eq!(out.payload_str(), Some("p"));
    assert_eq!(out.metadata.len(), 2);
    assert_eq!(out.metadata.get("a"), Some(&"1".to_string()));
}

#[test]
fn a_boxed_stage_keeps_its_name() {
    let boxed: Box<dyn Middleware> = Box::new(Filter::new(|_: &Message| true));
    assert_eq!(Middleware::name(&boxed), "filter");
}
