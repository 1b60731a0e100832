//! Laws of the configuration, the resources that run the gateway, and its metrics.

use crate::config;
use crate::config::{Config, LogFormat, Settings};
use crate::deploy::{
    Container, Deployment, DeploymentPlan, ObjectMeta, PolkuDeployment, PolkuResources, Service,
};
use crate::emit::grpc;
use crate::emit::webhook;
use crate::error::PolkuError;
use crate::hub;
use crate::metrics::{Metric, MetricKind};
use crate::number;
use crate::number::NumberError;
use crate::string_map::StringMap;
use crate::text;
use vstd::prelude::*;

verus! {

/// A number comes from a setting: it is the one that the text says, or the default.
pub open spec fn comes_from(n: nat, setting: Option<String>, default: nat, max: nat) -> bool {
    match setting {
        None => n == default,
        Some(s) => number::number_value(s@, max) == Ok::<nat, NumberError>(n),
    }
}

/// Every part of a configuration comes from the setting for it, and is the default where that
/// is not set.
pub proof fn every_part_comes_from_its_setting(s: Settings, c: Config)
    requires
        call_ensures(Config::from_settings, (s,), Ok(c)),
    ensures
        match s.grpc_addr {
            None => c.grpc_addr@ == "0.0.0.0:50051"@,
            Some(Ok(addr)) => c.grpc_addr@ == addr@,
            Some(Err(_)) => false,
        },
        match s.metrics_addr {
            None => c.metrics_addr@ == "127.0.0.1:9090"@,
            Some(Ok(addr)) => c.metrics_addr@ == addr@,
            Some(Err(_)) => false,
        },
        comes_from(c.buffer_capacity as nat, s.buffer_capacity, 100_000, usize::MAX as nat),
        comes_from(c.batch_size as nat, s.batch_size, 1000, usize::MAX as nat),
        comes_from(c.flush_interval_ms as nat, s.flush_interval_ms, 100, u64::MAX as nat),
        match s.log_level {
            None => c.log_level@ == "info"@,
            Some(level) => c.log_level@ == level@,
        },
        match s.log_format {
            None => c.log_format == LogFormat::Pretty,
            Some(f) => {
                let lowered = text::lowercase(f@);
                &&& lowered == "json"@ && c.log_format == LogFormat::Json || lowered == "pretty"@
                    && c.log_format == LogFormat::Pretty
            },
        },
{
}

/// A number is not one that a setting can have.
pub open spec fn is_refused(setting: Option<String>, max: nat) -> bool {
    setting matches Some(s) && number::number_value(s@, max) is Err
}

/// Settings are refused exactly when one of them cannot be had. The error names the first.
pub proof fn the_first_bad_setting_is_named(s: Settings, r: Result<Config, PolkuError>)
    requires
        call_ensures(Config::from_settings, (s,), r),
    ensures
        ({
            let a = s.grpc_addr matches Some(Err(_));
            let b = s.metrics_addr matches Some(Err(_));
            let c = is_refused(s.buffer_capacity, usize::MAX as nat);
            let d = is_refused(s.batch_size, usize::MAX as nat);
            let e = is_refused(s.flush_interval_ms, u64::MAX as nat);
            let f = s.log_format matches Some(t) && text::lowercase(t@) != "json"@
                && text::lowercase(t@) != "pretty"@;
            &&& r is Err <==> a || b || c || d || e || f
            &&& a ==> blames(r, "POLKU_GRPC_ADDR"@)
            &&& !a && b ==> blames(r, "POLKU_METRICS_ADDR"@)
            &&& !a && !b && c ==> blames(r, "POLKU_BUFFER_CAPACITY"@)
            &&& !a && !b && !c && d ==> blames(r, "POLKU_BATCH_SIZE"@)
            &&& !a && !b && !c && !d && e ==> blames(r, "POLKU_FLUSH_INTERVAL_MS"@)
            &&& !a && !b && !c && !d && !e && f ==> blames(r, "POLKU_LOG_FORMAT"@)
        }),
{
    let m = if let Err(PolkuError::Config(m)) = r {
        m@
    } else {
        Seq::empty()
    };
    assert forall|name: Seq<char>, reason: Seq<char>|
        m == #[trigger] config::invalid(name, reason) implies ("invalid "@ + name
        + ": "@).is_prefix_of(m) by {
        let head = "invalid "@ + name + ": "@;
        assert(m.subrange(0, head.len() as int) =~= head);
    }
}

/// The error about a setting tells why it cannot be had: what is wrong with the address, or
/// what is wrong with the number.
pub proof fn bad_settings_are_explained(
    s: Settings,
    e: PolkuError,
    wrong: NumberError,
    reason: String,
)
    requires
        call_ensures(Config::from_settings, (s,), Err(e)),
        call_ensures(NumberError::to_text, (&wrong,), reason),
    ensures
        e matches PolkuError::Config(m) && {
            &&& s.grpc_addr matches Some(Err(why)) ==> m@ == "invalid "@ + "POLKU_GRPC_ADDR"@
                + ": "@ + why@
            &&& !(s.grpc_addr matches Some(Err(_))) ==> (s.metrics_addr matches Some(Err(why))
                ==> m@ == "invalid "@ + "POLKU_METRICS_ADDR"@ + ": "@ + why@)
            &&& !(s.grpc_addr matches Some(Err(_))) && !(s.metrics_addr matches Some(Err(_)))
                ==> (s.buffer_capacity matches Some(t) ==> (number::number_value(
                t@,
                usize::MAX as nat,
            ) == Err::<nat, NumberError>(wrong) ==> m@ == "invalid "@ + "POLKU_BUFFER_CAPACITY"@
                + ": "@ + reason@))
        },
{
}

/// An error is one of the configuration, and its message names a setting.
pub open spec fn blames(r: Result<Config, PolkuError>, name: Seq<char>) -> bool {
    r matches Err(PolkuError::Config(m)) && ("invalid "@ + name + ": "@).is_prefix_of(m@)
}

/// The defaults are what the documentation of the gateway promises.
pub proof fn defaults_are_as_documented(c: Config)
    requires
        call_ensures(<Config as Default>::default, (), c),
    ensures
        c.grpc_addr@ == "0.0.0.0:50051"@,
        c.metrics_addr@ == "127.0.0.1:9090"@,
        c.buffer_capacity == 100_000,
        c.batch_size == 1000,
        c.flush_interval_ms == 100,
        c.log_level@ == "info"@,
        c.log_format == LogFormat::Pretty,
{
}

/// A log format is named by its name in lower case, and by nothing else.
pub proof fn log_formats_are_named(name: &str, r: Result<LogFormat, PolkuError>)
    requires
        call_ensures(config::named_format, (name,), r),
    ensures
        r == Ok::<LogFormat, PolkuError>(LogFormat::Json) <==> name@ == "json"@,
        r == Ok::<LogFormat, PolkuError>(LogFormat::Pretty) <==> name@ == "pretty"@,
        r is Err <==> name@ != "json"@ && name@ != "pretty"@,
        r matches Err(e) ==> (e matches PolkuError::Config(m) && m@
            == "invalid POLKU_LOG_FORMAT: "@ + name@ + " (expected 'json' or 'pretty')"@),
{
    reveal_strlit("json");
    reveal_strlit("pretty");
    reveal_strlit("invalid ");
    reveal_strlit("POLKU_LOG_FORMAT");
    reveal_strlit(": ");
    reveal_strlit("invalid POLKU_LOG_FORMAT: ");
    assert("json"@.len() != "pretty"@.len());
    assert("invalid "@ + "POLKU_LOG_FORMAT"@ + ": "@ =~= "invalid POLKU_LOG_FORMAT: "@);
    if let Err(PolkuError::Config(m)) = r {
        assert(m@ =~= "invalid POLKU_LOG_FORMAT: "@ + name@ + " (expected 'json' or 'pretty')"@);
    }
}

/// A resource is known by the name, namespace and labels of its plan.
pub open spec fn is_known_by(meta: ObjectMeta, plan: DeploymentPlan) -> bool {
    &&& meta.name is Some && meta.name->0@ == plan.name
    &&& meta.namespace is Some && meta.namespace->0@ == plan.namespace
    &&& meta.labels is Some && meta.labels->0.texts() == plan.labels
}

/// Labels that select by the name of the gateway, and by nothing else.
pub open spec fn selects(labels: Option<StringMap<String>>, name: Seq<char>) -> bool {
    &&& labels is Some
    &&& labels->0.texts().dom() == set!["app"@]
    &&& labels->0.texts()["app"@] == name
}

/// A container runs the image of the plan, listens at its port, and has its environment
/// variables, all of them and in order.
pub open spec fn runs_the_gateway(c: Container, plan: DeploymentPlan) -> bool {
    &&& c.name@ == "polku"@
    &&& c.image is Some && c.image->0@ == plan.image
    &&& c.ports is Some && c.ports->0@.len() == 1
    &&& c.ports->0@[0].container_port == plan.grpc_port
    &&& c.ports->0@[0].protocol is Some && c.ports->0@[0].protocol->0@ == "TCP"@
    &&& c.ports->0@[0].name is Some && c.ports->0@[0].name->0@ == "grpc"@
    &&& plan.env.len() == 0 <==> c.env is None
    &&& c.env is Some ==> {
        &&& c.env->0@.len() == plan.env.len()
        &&& forall|i: int|
            0 <= i < plan.env.len() ==> {
                let v = #[trigger] c.env->0@[i];
                &&& v.name@ == plan.env[i].0
                &&& v.value is Some && v.value->0@ == plan.env[i].1
            }
    }
}

/// A deployment runs as many pods as planned, and each of them one gateway; it finds them by
/// its name, and they have the labels of the plan.
pub proof fn deployments_follow_their_plan(plan: PolkuDeployment, d: Deployment)
    requires
        call_ensures(PolkuDeployment::build_deployment, (&plan,), d),
    ensures
        is_known_by(d.metadata, plan@),
        d.spec is Some,
        d.spec->0.replicas == Some(plan@.replicas),
        selects(d.spec->0.selector.match_labels, plan@.name),
        d.spec->0.template.metadata is Some,
        d.spec->0.template.metadata->0.labels is Some,
        d.spec->0.template.metadata->0.labels->0.texts() == plan@.labels,
        d.spec->0.template.spec is Some,
        d.spec->0.template.spec->0.containers@.len() == 1,
        runs_the_gateway(d.spec->0.template.spec->0.containers@[0], plan@),
{
    let labels = d.spec->0.selector.match_labels;
    assert(labels->0.texts().dom() =~= set!["app"@]);
}

/// A service leads to the pods of the gateway, at its port, from within the cluster.
pub proof fn services_follow_their_plan(plan: PolkuDeployment, s: Service)
    requires
        call_ensures(PolkuDeployment::build_service, (&plan,), s),
    ensures
        is_known_by(s.metadata, plan@),
        s.spec is Some,
        selects(s.spec->0.selector, plan@.name),
        s.spec->0.type_ is Some && s.spec->0.type_->0@ == "ClusterIP"@,
        s.spec->0.ports is Some,
        s.spec->0.ports->0@.len() == 1,
        s.spec->0.ports->0@[0].port == plan@.grpc_port,
        s.spec->0.ports->0@[0].target_port == Some(plan@.grpc_port),
        s.spec->0.ports->0@[0].protocol is Some && s.spec->0.ports->0@[0].protocol->0@ == "TCP"@,
        s.spec->0.ports->0@[0].name is Some && s.spec->0.ports->0@[0].name->0@ == "grpc"@,
{
    let labels = s.spec->0.selector;
    assert(labels->0.texts().dom() =~= set!["app"@]);
}

/// Building makes both resources, as each would be made alone.
pub proof fn both_resources_are_built(plan: PolkuDeployment, r: PolkuResources)
    requires
        call_ensures(PolkuDeployment::build, (plan,), r),
    ensures
        is_known_by(r.deployment.metadata, plan@),
        is_known_by(r.service.metadata, plan@),
        r.deployment.spec is Some,
        r.deployment.spec->0.replicas == Some(plan@.replicas),
        selects(r.deployment.spec->0.selector.match_labels, plan@.name),
        r.service.spec is Some,
        selects(r.service.spec->0.selector, plan@.name),
        r.deployment.spec->0.template.spec is Some,
        r.deployment.spec->0.template.spec->0.containers@.len() == 1,
        runs_the_gateway(r.deployment.spec->0.template.spec->0.containers@[0], plan@),
{
    assert(r.deployment.spec->0.selector.match_labels->0.texts().dom() =~= set!["app"@]);
    assert(r.service.spec->0.selector->0.texts().dom() =~= set!["app"@]);
}

/// A plan starts with one pod of the latest image at the usual port, in the default
/// namespace, without environment variables, and labelled with its name.
pub proof fn plans_start_small(name: &str, plan: PolkuDeployment)
    requires
        call_ensures(PolkuDeployment::new, (name,), plan),
    ensures
        plan@.name == name@,
        plan@.namespace == "default"@,
        plan@.image == "polku-gateway:latest"@,
        plan@.replicas == 1,
        plan@.grpc_port == 50051,
        plan@.env.len() == 0,
        plan@.labels.dom() == set![
            "app"@,
            "app.kubernetes.io/name"@,
            "app.kubernetes.io/component"@,
        ],
        plan@.labels["app"@] == name@,
        plan@.labels["app.kubernetes.io/name"@] == "polku"@,
        plan@.labels["app.kubernetes.io/component"@] == "gateway"@,
{
    reveal_strlit("app");
    reveal_strlit("app.kubernetes.io/name");
    reveal_strlit("app.kubernetes.io/component");
    assert("app"@.len() == 3);
    assert("app.kubernetes.io/name"@.len() == 22);
    assert("app.kubernetes.io/component"@.len() == 27);
    assert(plan@.labels.dom() =~= set![
        "app"@,
        "app.kubernetes.io/name"@,
        "app.kubernetes.io/component"@,
    ]);
}

/// Every step of a plan changes the part that it is for and no other.
pub proof fn plans_change_one_part_at_a_time(
    plan: PolkuDeployment,
    ns: &str,
    a: PolkuDeployment,
    image: &str,
    b: PolkuDeployment,
    n: i32,
    c: PolkuDeployment,
    port: i32,
    d: PolkuDeployment,
    key: &str,
    value: &str,
    e: PolkuDeployment,
    f: PolkuDeployment,
)
    requires
        call_ensures(PolkuDeployment::namespace, (plan, ns), a),
        call_ensures(PolkuDeployment::image, (plan, image), b),
        call_ensures(PolkuDeployment::replicas, (plan, n), c),
        call_ensures(PolkuDeployment::grpc_port, (plan, port), d),
        call_ensures(PolkuDeployment::env, (plan, key, value), e),
        call_ensures(PolkuDeployment::label, (plan, key, value), f),
    ensures
        a@.namespace == ns@,
        a@ == (DeploymentPlan { namespace: a@.namespace, ..plan@ }),
        b@.image == image@,
        b@ == (DeploymentPlan { image: b@.image, ..plan@ }),
        c@.replicas == n,
        c@ == (DeploymentPlan { replicas: c@.replicas, ..plan@ }),
        d@.grpc_port == port,
        d@ == (DeploymentPlan { grpc_port: d@.grpc_port, ..plan@ }),
        e@.env.len() == plan@.env.len() + 1,
        e@.env.last() == (key@, value@),
        e@.env.drop_last() == plan@.env,
        e@ == (DeploymentPlan { env: e@.env, ..plan@ }),
        f@.labels.contains_key(key@),
        f@.labels[key@] == value@,
        f@.labels.remove(key@) == plan@.labels.remove(key@),
        f@ == (DeploymentPlan { labels: f@.labels, ..plan@ }),
{
    assert(e@.env.drop_last() =~= plan@.env);
    assert(f@.labels.remove(key@) =~= plan@.labels.remove(key@));
}

/// A metric is published under the name of the gateway and its own, followed by what it
/// counts in: `total` for counters and `seconds` for histograms.
pub proof fn metrics_are_named_after_what_they_measure(
    metric: Metric,
    key: &'static str,
    name: &'static str,
    kind: MetricKind,
)
    requires
        call_ensures(Metric::key, (&metric,), key),
        call_ensures(Metric::name, (&metric,), name),
        call_ensures(Metric::kind, (&metric,), kind),
    ensures
        name@ == "polku_"@ + key@ + match kind {
            MetricKind::Counter => "_total"@,
            MetricKind::Gauge => ""@,
            MetricKind::Histogram => "_seconds"@,
        },
{
    reveal_strlit("polku_");
    reveal_strlit("_total");
    reveal_strlit("_seconds");
    reveal_strlit("");
    reveal_strlit("events_received");
    reveal_strlit("events_forwarded");
    reveal_strlit("events_dropped");
    reveal_strlit("buffer_size");
    reveal_strlit("buffer_capacity");
    reveal_strlit("processing_latency");
    reveal_strlit("active_streams");
    reveal_strlit("plugin_health");
    reveal_strlit("polku_events_received_total");
    reveal_strlit("polku_events_forwarded_total");
    reveal_strlit("polku_events_dropped_total");
    reveal_strlit("polku_buffer_size");
    reveal_strlit("polku_buffer_capacity");
    reveal_strlit("polku_processing_latency_seconds");
    reveal_strlit("polku_active_streams");
    reveal_strlit("polku_plugin_health");
    assert(name@ =~= "polku_"@ + key@ + match kind {
        MetricKind::Counter => "_total"@,
        MetricKind::Gauge => ""@,
        MetricKind::Histogram => "_seconds"@,
    });
}

/// What is counted and timed is split up by labels, and nothing else is: where it came from
/// or went and of what type, or why it was dropped. Only a latency has buckets.
pub proof fn counts_are_split_up_by_labels(
    metric: Metric,
    kind: MetricKind,
    labels: Vec<&'static str>,
    buckets: Vec<u64>,
)
    requires
        call_ensures(Metric::kind, (&metric,), kind),
        call_ensures(Metric::labels, (&metric,), labels),
        call_ensures(Metric::buckets_micros, (&metric,), buckets),
    ensures
        labels@.len() == 0 <==> kind == MetricKind::Gauge,
        kind == MetricKind::Counter <==> metric is EventsReceived || metric is EventsForwarded
            || metric is EventsDropped,
        kind == MetricKind::Histogram <==> metric is ProcessingLatency,
        metric is EventsReceived ==> labels@.len() == 2 && labels@[0]@ == "source"@
            && labels@[1]@ == "type"@,
        metric is EventsForwarded ==> labels@.len() == 2 && labels@[0]@ == "output"@
            && labels@[1]@ == "type"@,
        metric is EventsDropped ==> labels@.len() == 1 && labels@[0]@ == "reason"@,
        metric is ProcessingLatency ==> labels@.len() == 1 && labels@[0]@ == "source"@,
        buckets@.len() > 0 <==> kind == MetricKind::Histogram,
        forall|i: int, j: int|
            0 <= i < j < buckets@.len() ==> #[trigger] buckets@[i] < #[trigger] buckets@[j],
        buckets@.len() > 0 ==> buckets@[0] == 100 && buckets@.last() == 1_000_000,
        forall|i: int|
            0 <= i < buckets@.len() - 1 ==> buckets@[i + 1] == 2 * #[trigger] buckets@[i]
                || buckets@[i + 1] == 5 * buckets@[i],
{
}

/// What a metric says speaks of what it measures.
pub proof fn metrics_say_what_they_measure(metric: Metric, help: &'static str)
    requires
        call_ensures(Metric::help, (&metric,), help),
    ensures
        match metric {
            Metric::EventsReceived => help@ == "Total events received"@,
            Metric::EventsForwarded => help@ == "Total events forwarded to outputs"@,
            Metric::EventsDropped => help@ == "Total events dropped"@,
            Metric::BufferSize => help@ == "Current number of events in buffer"@,
            Metric::BufferCapacity => help@ == "Maximum buffer capacity"@,
            Metric::ProcessingLatency => help@ == "Event processing latency"@,
            Metric::ActiveStreams => help@ == "Number of active gRPC streams"@,
            Metric::PluginHealth => help@ == "Plugin health status (1 = healthy, 0 = unhealthy)"@,
        },
{
}

/// The limits and times of the gateway are those that its documentation promises.
pub proof fn limits_are_as_documented()
    ensures
        hub::DEFAULT_BUFFER_CAPACITY == 10_000,
        hub::BATCH_SIZE == 100,
        hub::FLUSH_INTERVAL_MS == 10,
        hub::CHANNEL_CAPACITY == 1024,
        webhook::DEFAULT_TIMEOUT_SECS == 30,
        webhook::DEFAULT_CONNECT_TIMEOUT_SECS == 10,
        grpc::DEFAULT_CONNECT_TIMEOUT_SECS == 10,
        grpc::DEFAULT_REQUEST_TIMEOUT_SECS == 30,
{
}

/// Copies of configurations and plans are the same in every part.
pub proof fn copied_configurations_are_the_same(
    c: Config,
    d: Config,
    plan: PolkuDeployment,
    same: PolkuDeployment,
    unset: Settings,
)
    requires
        call_ensures(<Config as Clone>::clone, (&c,), d),
        call_ensures(<PolkuDeployment as Clone>::clone, (&plan,), same),
        call_ensures(<Settings as Default>::default, (), unset),
    ensures
        d.grpc_addr@ == c.grpc_addr@,
        d.metrics_addr@ == c.metrics_addr@,
        d.buffer_capacity == c.buffer_capacity,
        d.batch_size == c.batch_size,
        d.flush_interval_ms == c.flush_interval_ms,
        d.log_level@ == c.log_level@,
        d.log_format == c.log_format,
        same@ == plan@,
        unset.grpc_addr is None && unset.metrics_addr is None && unset.buffer_capacity is None,
        unset.batch_size is None && unset.flush_interval_ms is None && unset.log_level is None
            && unset.log_format is None,
{
}

/// All metrics are registered, each once.
pub proof fn all_metrics_are_registered(all: Vec<Metric>, metric: Metric, i: int, j: int)
    requires
        call_ensures(Metric::all, (), all),
        0 <= i < j < all@.len(),
    ensures
        exists|k: int| 0 <= k < all@.len() && #[trigger] all@[k] == metric,
        all@[i] != all@[j],
{
    let k: int = match metric {
        Metric::EventsReceived => 0,
        Metric::EventsForwarded => 1,
        Metric::EventsDropped => 2,
        Metric::BufferSize => 3,
        Metric::BufferCapacity => 4,
        Metric::ProcessingLatency => 5,
        Metric::ActiveStreams => 6,
        Metric::PluginHealth => 7,
    };
    assert(all@[k] == metric);
}

/// A metric that could not be registered is named in the error.
pub proof fn failed_metrics_are_named(
    metric: Metric,
    reason: &str,
    key: &'static str,
    r: PolkuError,
)
    requires
        call_ensures(Metric::key, (&metric,), key),
        call_ensures(Metric::registration_failed, (&metric, reason), r),
    ensures
        r matches PolkuError::Metrics(m) && m@ == key@ + ": "@ + reason@,
{
}

} // verus!
