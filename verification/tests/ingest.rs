//! Kubernetes events as messages.

use polku_gateway::ingest::k8s::{K8sEvent, K8sIngestor, K8sIngestorConfig, WatchEvent, WatchStep};

fn bare() -> K8sEvent {
    K8sEvent {
        name: None,
        namespace: None,
        event_type: None,
        reason: None,
        message: None,
        involved_name: None,
        involved_kind: None,
    }
}

fn full() -> K8sEvent {
    K8sEvent {
        name: Some("pod.17".into()),
        namespace: Some("prod".into()),
        event_type: Some("Warning".into()),
        reason: Some("BackOff".into()),
        message: Some("restarting żółw".into()),
        involved_name: Some("pod".into()),
        involved_kind: Some("Pod".into()),
    }
}

fn ingestor() -> K8sIngestor {
    K8sIngestor::with_config(K8sIngestorConfig::default())
}

#[test]
fn k8s_test_config_builder() {
    let config = K8sIngestorConfig::default()
        .namespace("my-ns")
        .labels("app=myapp");

    assert_eq!(config.namespace, Some("my-ns".into()));
    assert_eq!(config.label_selector, Some("app=myapp".into()));
    assert_eq!(config.clone().namespace, Some("my-ns".into()));
}

#[test]
fn test_config_default() {
    let config = K8sIngestorConfig::default();
    assert!(config.namespace.is_none());
    assert!(config.label_selector.is_none());
}

#[test]
fn events_become_messages() {
    let msg = ingestor().k8s_event_to_message(&full()).unwrap();
    assert_eq!(msg.id.len(), 26);
    assert!(msg.timestamp > 0);
    assert_eq!(msg.source, "k8s/prod/pod.17");
    assert_eq!(msg.message_type, "k8s.warning.BackOff");
    assert_eq!(msg.payload_str(), Some("restarting żółw"));
    assert!(msg.route_to.is_empty());
    let expected = [
        ("k8s.namespace", "prod"),
        ("k8s.name", "pod.17"),
        ("k8s.involved_object", "pod"),
        ("k8s.kind", "Pod"),
        ("k8s.message", "restarting żółw"),
        ("k8s.reason", "BackOff"),
    ];
    assert_eq!(msg.metadata.len(), expected.len());
    for (key, value) in expected {
        assert_eq!(msg.metadata.get(key), Some(&value.to_string()));
    }
}

#[test]
fn what_is_missing_is_filled_in() {
    let mut event = bare();
    assert!(ingestor().k8s_event_to_message(&event).is_none());
    event.name = Some("n".into());
    let msg = ingestor().k8s_event_to_message(&event).unwrap();
    assert_eq!(msg.source, "k8s/default/n");
    assert_eq!(msg.message_type, "k8s.normal.Unknown");
    assert_eq!(msg.payload_len(), 0);
    assert_eq!(msg.metadata.len(), 2);
}

#[test]
fn messages_have_what_they_are_given() {
    let msg = ingestor().message_with(&full(), "odd", "id", 3).unwrap();
    assert_eq!(msg.id, "id");
    assert_eq!(msg.timestamp, 3);
    assert_eq!(msg.message_type, "k8s.odd.BackOff");
}

#[test]
fn changes_are_reacted_to() {
    let ingestor = ingestor();
    let applied = ingestor.react(&WatchEvent::Applied(full())).unwrap();
    assert!(!applied.metadata.contains_key("k8s.deleted"));
    let deleted = ingestor.react(&WatchEvent::Deleted(full())).unwrap();
    assert_eq!(deleted.metadata.get("k8s.deleted"), Some(&"true".to_string()));
    assert!(ingestor.react(&WatchEvent::Deleted(bare())).is_none());
    assert!(ingestor.react(&WatchEvent::Started).is_none());
    assert!(ingestor.react(&WatchEvent::Failed).is_none());
    assert_eq!(
        K8sIngestor::client_failed("x").to_text(),
        "connection error: K8s client: x"
    );
    assert!(ingestor.watched().namespace.is_none());
}

#[test]
fn a_watch_ends_where_it_fails() {
    let ingestor = ingestor();
    let later = K8sEvent {
        name: Some("later".into()),
        ..bare()
    };
    let changes = [
        WatchEvent::Started,
        WatchEvent::Applied(full()),
        WatchEvent::Applied(bare()),
        WatchEvent::Failed,
        WatchEvent::Applied(later),
    ];
    let mut sent = Vec::new();
    let mut seen = 0;
    for change in &changes {
        seen += 1;
        match ingestor.step(change) {
            WatchStep::Send(msg) => sent.push(msg),
            WatchStep::Skip => {}
            WatchStep::Stop => break,
        }
    }
    assert_eq!(seen, 4);
    assert_eq!(sent.len(), 1);
    let expected = ingestor.react(&WatchEvent::Applied(full())).unwrap();
    assert_eq!(sent[0].source, expected.source);
    assert_eq!(sent[0].message_type, expected.message_type);
}

#[test]
fn deletions_are_sent_too() {
    match ingestor().step(&WatchEvent::Deleted(full())) {
        WatchStep::Send(msg) => {
            assert_eq!(msg.metadata.get("k8s.deleted"), Some(&"true".to_string()));
        }
        _ => panic!("nothing is sent"),
    }
    assert!(matches!(ingestor().step(&WatchEvent::Deleted(bare())), WatchStep::Skip));
}
