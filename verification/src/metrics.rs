//! The metrics of the gateway: what is measured and under which names.

use crate::error::PolkuError;
use crate::text::join3;
use vstd::prelude::*;

verus! {

/// The kind of a metric.
#[derive(Debug, Clone, Copy, PartialEq, Eq, Structural)]
pub enum MetricKind {
    /// A number that only grows.
    Counter,
    /// A number that goes up and down.
    Gauge,
    /// Numbers sorted into buckets.
    Histogram,
}

/// The metrics.
#[derive(Debug, Clone, Copy, PartialEq, Eq, Structural)]
pub enum Metric {
    EventsReceived,
    EventsForwarded,
    EventsDropped,
    BufferSize,
    BufferCapacity,
    ProcessingLatency,
    ActiveStreams,
    PluginHealth,
}

impl Metric {
    /// The short name, used in errors.
    pub open spec fn key_text(self) -> Seq<char> {
        match self {
            Metric::EventsReceived => "events_received"@,
            Metric::EventsForwarded => "events_forwarded"@,
            Metric::EventsDropped => "events_dropped"@,
            Metric::BufferSize => "buffer_size"@,
            Metric::BufferCapacity => "buffer_capacity"@,
            Metric::ProcessingLatency => "processing_latency"@,
            Metric::ActiveStreams => "active_streams"@,
            Metric::PluginHealth => "plugin_health"@,
        }
    }

    /// The name under which the metric is published.
    pub open spec fn name_text(self) -> Seq<char> {
        match self {
            Metric::EventsReceived => "polku_events_received_total"@,
            Metric::EventsForwarded => "polku_events_forwarded_total"@,
            Metric::EventsDropped => "polku_events_dropped_total"@,
            Metric::BufferSize => "polku_buffer_size"@,
            Metric::BufferCapacity => "polku_buffer_capacity"@,
            Metric::ProcessingLatency => "polku_processing_latency_seconds"@,
            Metric::ActiveStreams => "polku_active_streams"@,
            Metric::PluginHealth => "polku_plugin_health"@,
        }
    }

    /// What the metric says.
    pub open spec fn help_text(self) -> Seq<char> {
        match self {
            Metric::EventsReceived => "Total events received"@,
            Metric::EventsForwarded => "Total events forwarded to outputs"@,
            Metric::EventsDropped => "Total events dropped"@,
            Metric::BufferSize => "Current number of events in buffer"@,
            Metric::BufferCapacity => "Maximum buffer capacity"@,
            Metric::ProcessingLatency => "Event processing latency"@,
            Metric::ActiveStreams => "Number of active gRPC streams"@,
            Metric::PluginHealth => "Plugin health status (1 = healthy, 0 = unhealthy)"@,
        }
    }

    /// The kind of the metric.
    pub open spec fn spec_kind(self) -> MetricKind {
        match self {
            Metric::EventsReceived => MetricKind::Counter,
            Metric::EventsForwarded => MetricKind::Counter,
            Metric::EventsDropped => MetricKind::Counter,
            Metric::ProcessingLatency => MetricKind::Histogram,
            _ => MetricKind::Gauge,
        }
    }

    /// The labels by which the metric is split up.
    pub open spec fn label_texts(self) -> Seq<Seq<char>> {
        match self {
            Metric::EventsReceived => seq!["source"@, "type"@],
            Metric::EventsForwarded => seq!["output"@, "type"@],
            Metric::EventsDropped => seq!["reason"@],
            Metric::ProcessingLatency => seq!["source"@],
            _ => Seq::empty(),
        }
    }

    /// The upper ends of the buckets, in microseconds.
    pub open spec fn bucket_bounds(self) -> Seq<u64> {
        match self {
            Metric::ProcessingLatency => seq![
                100u64,
                500u64,
                1_000u64,
                5_000u64,
                10_000u64,
                50_000u64,
                100_000u64,
                500_000u64,
                1_000_000u64,
            ],
            _ => Seq::empty(),
        }
    }

    /// All metrics, in the order in which they are registered.
    pub fn all() -> (r: Vec<Metric>)
        ensures
            r@ == seq![
                Metric::EventsReceived,
                Metric::EventsForwarded,
                Metric::EventsDropped,
                Metric::BufferSize,
                Metric::BufferCapacity,
                Metric::ProcessingLatency,
                Metric::ActiveStreams,
                Metric::PluginHealth,
            ],
    {
        vec![
            Metric::EventsReceived,
            Metric::EventsForwarded,
            Metric::EventsDropped,
            Metric::BufferSize,
            Metric::BufferCapacity,
            Metric::ProcessingLatency,
            Metric::ActiveStreams,
            Metric::PluginHealth,
        ]
    }

    /// The short name, used in errors.
    pub fn key(&self) -> (r: &'static str)
        ensures
            r@ == self.key_text(),
    {
        match self {
            Metric::EventsReceived => "events_received",
            Metric::EventsForwarded => "events_forwarded",
            Metric::EventsDropped => "events_dropped",
            Metric::BufferSize => "buffer_size",
            Metric::BufferCapacity => "buffer_capacity",
            Metric::ProcessingLatency => "processing_latency",
            Metric::ActiveStreams => "active_streams",
            Metric::PluginHealth => "plugin_health",
        }
    }

    /// The name under which the metric is published.
    pub fn name(&self) -> (r: &'static str)
        ensures
            r@ == self.name_text(),
    {
        match self {
            Metric::EventsReceived => "polku_events_received_total",
            Metric::EventsForwarded => "polku_events_forwarded_total",
            Metric::EventsDropped => "polku_events_dropped_total",
            Metric::BufferSize => "polku_buffer_size",
            Metric::BufferCapacity => "polku_buffer_capacity",
            Metric::ProcessingLatency => "polku_processing_latency_seconds",
            Metric::ActiveStreams => "polku_active_streams",
            Metric::PluginHealth => "polku_plugin_health",
        }
    }

    /// What the metric says.
    pub fn help(&self) -> (r: &'static str)
        ensures
            r@ == self.help_text(),
    {
        match self {
            Metric::EventsReceived => "Total events received",
            Metric::EventsForwarded => "Total events forwarded to outputs",
            Metric::EventsDropped => "Total events dropped",
            Metric::BufferSize => "Current number of events in buffer",
            Metric::BufferCapacity => "Maximum buffer capacity",
            Metric::ProcessingLatency => "Event processing latency",
            Metric::ActiveStreams => "Number of active gRPC streams",
            Metric::PluginHealth => "Plugin health status (1 = healthy, 0 = unhealthy)",
        }
    }

    /// The kind of the metric.
    pub fn kind(&self) -> (r: MetricKind)
        ensures
            r == self.spec_kind(),
    {
        match self {
            Metric::EventsReceived => MetricKind::Counter,
            Metric::EventsForwarded => MetricKind::Counter,
            Metric::EventsDropped => MetricKind::Counter,
            Metric::ProcessingLatency => MetricKind::Histogram,
            _ => MetricKind::Gauge,
        }
    }

    /// The labels by which the metric is split up.
    pub fn labels(&self) -> (r: Vec<&'static str>)
        ensures
            r@.len() == self.label_texts().len(),
            forall|i: int| 0 <= i < r@.len() ==> (#[trigger] r@[i])@ == self.label_texts()[i],
    {
        match self {
            Metric::EventsReceived => vec!["source", "type"],
            Metric::EventsForwarded => vec!["output", "type"],
            Metric::EventsDropped => vec!["reason"],
            Metric::ProcessingLatency => vec!["source"],
            _ => Vec::new(),
        }
    }

    /// The upper ends of the buckets, in microseconds.
    pub fn buckets_micros(&self) -> (r: Vec<u64>)
        ensures
            r@ == self.bucket_bounds(),
    {
        match self {
            Metric::ProcessingLatency => vec![
                100u64,
                500u64,
                1_000u64,
                5_000u64,
                10_000u64,
                50_000u64,
                100_000u64,
                500_000u64,
                1_000_000u64,
            ],
            _ => Vec::new(),
        }
    }

    /// The error of a metric that could not be registered.
    pub fn registration_failed(&self, reason: &str) -> (r: PolkuError)
        ensures
            r matches PolkuError::Metrics(m) && m@ == self.key_text() + ": "@ + reason@,
    {
        PolkuError::Metrics(join3(self.key(), ": ", reason))
    }
}

/// The bounds of the buckets go up, as a histogram needs them.
pub proof fn buckets_ascend(metric: Metric, i: int, j: int)
    requires
        0 <= i < j < metric.bucket_bounds().len(),
    ensures
        metric.bucket_bounds()[i] < metric.bucket_bounds()[j],
{
}

/// A metric has buckets exactly when it is a histogram.
pub proof fn only_histograms_have_buckets(metric: Metric)
    ensures
        metric.bucket_bounds().len() > 0 <==> metric.spec_kind() == MetricKind::Histogram,
{
}

} // verus!
