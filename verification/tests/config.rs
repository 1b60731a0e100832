//! Configuration.

use polku_gateway::config::{named_format, Config, LogFormat, Settings};
use polku_gateway::error::PolkuError;

#[test]
fn test_default_config() {
    let config = Config::default();
    assert_eq!(config.buffer_capacity, 100_000);
    assert_eq!(config.batch_size, 1000);
    assert_eq!(config.flush_interval_ms, 100);
}

#[test]
fn test_config_from_env() {
    // This test uses default values since env vars aren't set
    let config = Config::from_settings(Settings::default()).unwrap();
    assert!(config.buffer_capacity > 0);
}

#[test]
fn defaults_hold_where_nothing_is_set() {
    let config = Config::from_settings(Settings::default()).unwrap();
    assert_eq!(config.grpc_addr, "0.0.0.0:50051");
    assert_eq!(config.metrics_addr, "127.0.0.1:9090");
    assert_eq!(config.log_level, "info");
    assert_eq!(config.log_format, LogFormat::Pretty);
}

#[test]
fn settings_are_taken_over() {
    let config = Config::from_settings(Settings {
        grpc_addr: Some(Ok("127.0.0.1:1".into())),
        metrics_addr: Some(Ok("127.0.0.1:2".into())),
        buffer_capacity: Some("42".into()),
        batch_size: Some("+7".into()),
        flush_interval_ms: Some("18446744073709551615".into()),
        log_level: Some("debug".into()),
        log_format: Some("JSON".into()),
    })
    .unwrap();
    assert_eq!(config.grpc_addr, "127.0.0.1:1");
    assert_eq!(config.metrics_addr, "127.0.0.1:2");
    assert_eq!(config.buffer_capacity, 42);
    assert_eq!(config.batch_size, 7);
    assert_eq!(config.flush_interval_ms, u64::MAX);
    assert_eq!(config.log_level, "debug");
    assert_eq!(config.log_format, LogFormat::Json);
}

fn failure(settings: Settings) -> String {
    match Config::from_settings(settings) {
        Err(PolkuError::Config(message)) => message,
        other => panic!("unexpected {other:?}"),
    }
}

#[test]
fn every_setting_can_be_rejected() {
    assert_eq!(
        failure(Settings {
            grpc_addr: Some(Err("invalid socket address syntax".into())),
            ..Settings::default()
        }),
        "invalid POLKU_GRPC_ADDR: invalid socket address syntax"
    );
    assert_eq!(
        failure(Settings {
            metrics_addr: Some(Err("no".into())),
            ..Settings::default()
        }),
        "invalid POLKU_METRICS_ADDR: no"
    );
    assert_eq!(
        failure(Settings {
            buffer_capacity: Some("many".into()),
            ..Settings::default()
        }),
        "invalid POLKU_BUFFER_CAPACITY: invalid digit found in string"
    );
    assert_eq!(
        failure(Settings {
            batch_size: Some("".into()),
            ..Settings::default()
        }),
        "invalid POLKU_BATCH_SIZE: cannot parse integer from empty string"
    );
    assert_eq!(
        failure(Settings {
            flush_interval_ms: Some("18446744073709551616".into()),
            ..Settings::default()
        }),
        "invalid POLKU_FLUSH_INTERVAL_MS: number too large to fit in target type"
    );
    assert_eq!(
        failure(Settings {
            log_format: Some("XML".into()),
            ..Settings::default()
        }),
        "invalid POLKU_LOG_FORMAT: xml (expected 'json' or 'pretty')"
    );
}

#[test]
fn the_first_rejected_setting_is_reported() {
    assert_eq!(
        failure(Settings {
            batch_size: Some("x".into()),
            buffer_capacity: Some("y".into()),
            log_format: Some("z".into()),
            ..Settings::default()
        }),
        "invalid POLKU_BUFFER_CAPACITY: invalid digit found in string"
    );
}

#[test]
fn log_formats_are_named_in_lower_case() {
    assert_eq!(named_format("json").unwrap(), LogFormat::Json);
    assert_eq!(named_format("pretty").unwrap(), LogFormat::Pretty);
    assert!(named_format("Json").is_err());
}
