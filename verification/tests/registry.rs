//! The plugin registry.

use polku_gateway::error::PluginError;
use polku_gateway::input::{Input, InputContext};
use polku_gateway::output::Output;
use polku_gateway::proto::Event;
use polku_gateway::registry::{count_successes, PluginRegistry};
use std::sync::Arc;

struct MockInput {
    name: &'static str,
}

impl Input for MockInput {
    fn name(&self) -> &'static str {
        self.name
    }

    fn transform(&self, ctx: &InputContext, data: &[u8]) -> Result<Vec<Event>, PluginError> {
        Ok(vec![Event {
            id: format!("{}:{}", ctx.source, data.len()),
            timestamp_unix_ns: 0,
            source: ctx.source.to_string(),
            event_type: "test".to_string(),
            metadata: Default::default(),
            payload: data.to_vec(),
            route_to: vec![],
        }])
    }
}

struct MockOutput {
    name: &'static str,
}

impl Output for MockOutput {
    fn name(&self) -> &'static str {
        self.name
    }
}

fn event(id: &str, routes: &[&str]) -> Event {
    Event {
        id: id.to_string(),
        timestamp_unix_ns: 0,
        source: "test".to_string(),
        event_type: "test".to_string(),
        metadata: Default::default(),
        payload: vec![],
        route_to: routes.iter().map(|r| r.to_string()).collect(),
    }
}

fn with_outputs(names: &[&'static str]) -> PluginRegistry {
    let mut registry = PluginRegistry::new();
    for name in names {
        registry.register_output(Arc::new(MockOutput { name }));
    }
    registry
}

#[test]
fn test_register_input() {
    let mut registry = PluginRegistry::new();
    let plugin = Arc::new(MockInput { name: "test-input" });

    registry.register_input("test-source", plugin);

    assert!(registry.has_input("test-source"));
    assert!(!registry.has_input("unknown"));
    assert_eq!(registry.input_count(), 1);
}

#[test]
fn test_register_output() {
    let mut registry = PluginRegistry::new();
    let plugin = Arc::new(MockOutput {
        name: "test-output",
    });

    registry.register_output(plugin);

    assert_eq!(registry.output_count(), 1);
}

#[test]
fn registry_test_transform() {
    let mut registry = PluginRegistry::new();
    let plugin = Arc::new(MockInput { name: "test-input" });
    registry.register_input("test-source", plugin);

    let ctx = InputContext {
        source: "test-source",
        cluster: "test-cluster",
        format: "protobuf",
    };

    let events = registry.transform(&ctx, b"hello").unwrap();
    assert_eq!(events.len(), 1);
    assert_eq!(events[0].id, "test-source:5");
}

#[test]
fn test_transform_unknown_source() {
    let registry = PluginRegistry::new();

    let ctx = InputContext {
        source: "unknown",
        cluster: "test-cluster",
        format: "protobuf",
    };

    let result = registry.transform(&ctx, b"hello");
    assert!(result.is_err());
    assert_eq!(
        result.unwrap_err().to_text(),
        "transform failed: No input registered for source 'unknown'"
    );
}

#[test]
fn test_send_to_outputs() {
    let registry = with_outputs(&["output1", "output2"]);

    let events = vec![event("test", &[])];

    let deliveries = registry.plan_for_all(&events);
    let results: Vec<bool> = deliveries.iter().map(|d| d.events[0].id == "test").collect();
    assert_eq!(count_successes(&results), 2);
    assert_eq!(deliveries[0].output, 0);
    assert_eq!(deliveries[1].output, 1);
}

#[test]
fn test_output_health() {
    let registry = with_outputs(&["output1"]);

    let health = registry.health_of_outputs(&vec![true]);
    assert_eq!(health.get("output1"), Some(&true));
}

#[test]
fn an_input_is_replaced() {
    let mut registry = PluginRegistry::default();
    registry.register_input("s", Arc::new(MockInput { name: "a" }));
    registry.register_input("s", Arc::new(MockInput { name: "b" }));
    assert_eq!(registry.input_count(), 1);
}

struct Signed(&'static str);

impl Input for Signed {
    fn name(&self) -> &'static str {
        self.0
    }

    fn transform(&self, _ctx: &InputContext, _data: &[u8]) -> Result<Vec<Event>, PluginError> {
        Ok(vec![event(self.0, &[])])
    }
}

#[test]
fn inputs_are_registered_by_source() {
    let mut registry = with_outputs(&["out"]);
    let id = |registry: &PluginRegistry, source: &'static str| {
        let ctx = InputContext { source, cluster: "", format: "" };
        registry.transform(&ctx, b"x").ok().map(|events| events[0].id.clone())
    };
    registry.register_input("a", Arc::new(Signed("first")));
    registry.register_input("b", Arc::new(Signed("other")));
    assert_eq!(registry.input_count(), 2);
    registry.register_input("a", Arc::new(Signed("second")));
    assert_eq!(registry.input_count(), 2);
    assert!(registry.has_input("a"));
    assert_eq!(id(&registry, "a"), Some("second".to_string()));
    assert_eq!(id(&registry, "b"), Some("other".to_string()));
    assert_eq!(id(&registry, "c"), None);
    assert_eq!(registry.output_count(), 1);
}

#[test]
fn without_outputs_nothing_is_planned() {
    let registry = PluginRegistry::new();
    assert!(registry.plan_for_all(&[event("e", &[])]).is_empty());
    assert!(registry.plan_with_routing(&[event("e", &["x"])]).is_empty());
    assert_eq!(count_successes(&vec![]), 0);
}

#[test]
fn routed_events_follow_the_others() {
    let registry = with_outputs(&["a", "b", "c"]);
    let events = vec![
        event("1", &["b"]),
        event("2", &[]),
        event("3", &["b", "a"]),
        event("4", &["elsewhere"]),
    ];
    let plan: Vec<(usize, Vec<String>)> = registry
        .plan_with_routing(&events)
        .into_iter()
        .map(|d| (d.output, d.events.into_iter().map(|e| e.id).collect()))
        .collect();
    assert_eq!(
        plan,
        vec![
            (0, vec!["2".to_string()]),
            (1, vec!["2".to_string()]),
            (2, vec!["2".to_string()]),
            (0, vec!["3".to_string()]),
            (1, vec!["1".to_string(), "3".to_string()]),
        ]
    );
}

#[test]
fn only_routed_events_reach_only_their_outputs() {
    let registry = with_outputs(&["a", "b"]);
    let plan = registry.plan_with_routing(&[event("1", &["b"])]);
    assert_eq!(plan.len(), 1);
    assert_eq!(plan[0].output, 1);
}

#[test]
fn a_route_named_twice_delivers_twice() {
    let registry = with_outputs(&["a"]);
    let plan = registry.plan_with_routing(&[event("1", &["a", "a"])]);
    assert_eq!(plan.len(), 1);
    assert_eq!(plan[0].events.len(), 2);
}

#[test]
fn failures_are_not_counted() {
    assert_eq!(count_successes(&vec![true, false, true, false]), 2);
}

#[test]
fn of_outputs_with_one_name_the_later_counts() {
    let registry = with_outputs(&["a", "b", "a"]);
    let health = registry.health_of_outputs(&vec![true, true, false]);
    assert_eq!(health.len(), 2);
    assert_eq!(health.get("a"), Some(&false));
    assert_eq!(health.get("b"), Some(&true));
}
