//! Errors and statuses.

use polku_gateway::error::{Code, PluginError, PolkuError, Status};

#[test]
fn test_plugin_error_to_polku_error() {
    let plugin_err = PluginError::Init("failed to connect".to_string());
    let polku_err: PolkuError = plugin_err.into();
    assert!(matches!(polku_err, PolkuError::Plugin { .. }));
}

#[test]
fn test_polku_error_to_grpc_status() {
    let err = PolkuError::BufferFull { count: 100 };
    let status: Status = err.into();
    assert_eq!(status.code, Code::ResourceExhausted);
}

fn status(err: PolkuError) -> (Code, String) {
    let s = Status::from(err);
    (s.code, s.message)
}

#[test]
fn every_error_has_its_status() {
    assert_eq!(
        status(PolkuError::Config("bad".into())),
        (Code::InvalidArgument, "bad".to_string())
    );
    assert_eq!(
        status(PolkuError::Transport("down".into())),
        (Code::Unavailable, "down".to_string())
    );
    assert_eq!(
        status(PolkuError::Grpc(Status::new(Code::NotFound, "no".into()))),
        (Code::NotFound, "no".to_string())
    );
    assert_eq!(
        status(PolkuError::Plugin {
            plugin: "p".into(),
            message: "m".into()
        }),
        (Code::Internal, "plugin 'p': m".to_string())
    );
    assert_eq!(
        status(PolkuError::BufferFull { count: 100 }),
        (
            Code::ResourceExhausted,
            "buffer full, dropped 100 events".to_string()
        )
    );
    assert_eq!(
        status(PolkuError::Io("disk".into())),
        (Code::Internal, "disk".to_string())
    );
    assert_eq!(
        status(PolkuError::Serialization("json".into())),
        (Code::InvalidArgument, "json".to_string())
    );
    assert_eq!(
        status(PolkuError::Metrics("name".into())),
        (Code::Internal, "metrics: name".to_string())
    );
    assert_eq!(
        status(PolkuError::Shutdown),
        (Code::Unavailable, "shutting down".to_string())
    );
}

#[test]
fn plugin_errors_have_their_messages() {
    let cases = vec![
        (PluginError::Init("a".into()), "initialization failed: a"),
        (PluginError::Transform("b".into()), "transform failed: b"),
        (PluginError::Send("c".into()), "send failed: c"),
        (PluginError::Connection("d".into()), "connection error: d"),
        (PluginError::NotReady, "plugin not ready"),
        (PluginError::Shutdown("e".into()), "shutdown error: e"),
    ];
    for (err, text) in cases {
        assert_eq!(err.to_text(), text);
        match PolkuError::from(err) {
            PolkuError::Plugin { plugin, message } => {
                assert_eq!(plugin, "unknown");
                assert_eq!(message, text);
            }
            other => panic!("unexpected {other:?}"),
        }
    }
}
