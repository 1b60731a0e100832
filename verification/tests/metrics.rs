//! What is measured.

use polku_gateway::error::PolkuError;
use polku_gateway::metrics::{Metric, MetricKind};

#[test]
fn metrics_are_published_under_their_names() {
    let names: Vec<&str> = Metric::all().iter().map(|m| m.name()).collect();
    assert_eq!(
        names,
        vec![
            "polku_events_received_total",
            "polku_events_forwarded_total",
            "polku_events_dropped_total",
            "polku_buffer_size",
            "polku_buffer_capacity",
            "polku_processing_latency_seconds",
            "polku_active_streams",
            "polku_plugin_health",
        ]
    );
}

#[test]
fn labels_and_kinds() {
    assert_eq!(Metric::EventsReceived.labels(), vec!["source", "type"]);
    assert_eq!(Metric::EventsForwarded.labels(), vec!["output", "type"]);
    assert_eq!(Metric::EventsDropped.labels(), vec!["reason"]);
    assert_eq!(Metric::ProcessingLatency.labels(), vec!["source"]);
    assert!(Metric::BufferSize.labels().is_empty());
    assert_eq!(Metric::EventsReceived.kind(), MetricKind::Counter);
    assert_eq!(Metric::PluginHealth.kind(), MetricKind::Gauge);
    assert_eq!(Metric::ProcessingLatency.kind(), MetricKind::Histogram);
    assert_eq!(Metric::BufferSize.help(), "Current number of events in buffer");
}

#[test]
fn buckets_go_up() {
    let bounds = Metric::ProcessingLatency.buckets_micros();
    assert_eq!(
        bounds,
        vec![100, 500, 1000, 5000, 10000, 50000, 100000, 500000, 1000000]
    );
    assert!(bounds.windows(2).all(|w| w[0] < w[1]));
    assert!(Metric::ActiveStreams.buckets_micros().is_empty());
}

#[test]
fn failures_name_the_metric() {
    match Metric::EventsReceived.registration_failed("Duplicate metrics") {
        PolkuError::Metrics(m) => assert_eq!(m, "events_received: Duplicate metrics"),
        other => panic!("unexpected {other:?}"),
    }
}
