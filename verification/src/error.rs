//! Errors of the gateway and of its plugins.

use crate::number;
use crate::number::decimal_text;
use crate::text::{join2, join3, join4};
use vstd::prelude::*;

verus! {

/// The codes of a gRPC status.
#[derive(Debug, Clone, Copy, PartialEq, Eq, Structural)]
pub enum Code {
    Success,
    Cancelled,
    Unknown,
    InvalidArgument,
    DeadlineExceeded,
    NotFound,
    AlreadyExists,
    PermissionDenied,
    ResourceExhausted,
    FailedPrecondition,
    Aborted,
    OutOfRange,
    Unimplemented,
    Internal,
    Unavailable,
    DataLoss,
    Unauthenticated,
}

/// The answer to a request that failed.
#[derive(Debug)]
pub struct Status {
    /// The kind of failure.
    pub code: Code,
    /// What there is to say about it.
    pub message: String,
}

/// The mathematical value of a [`Status`].
pub struct StatusView {
    pub code: Code,
    pub message: Seq<char>,
}

impl View for Status {
    type V = StatusView;

    open spec fn view(&self) -> StatusView {
        StatusView { code: self.code, message: self.message@ }
    }
}

impl Status {
    /// A status with a code and a message.
    pub fn new(code: Code, message: String) -> (r: Self)
        ensures
            r@ == (StatusView { code, message: message@ }),
    {
        Status { code, message }
    }
}

/// Main error type.
#[derive(Debug)]
pub enum PolkuError {
    /// Configuration error.
    Config(String),
    /// gRPC transport error.
    Transport(String),
    /// gRPC status error.
    Grpc(Status),
    /// Plugin error.
    Plugin {
        /// The name of the plugin.
        plugin: String,
        /// Its error.
        message: String,
    },
    /// The buffer is full and events were dropped.
    BufferFull {
        /// How many.
        count: usize,
    },
    /// Input or output error.
    Io(String),
    /// Serialization error.
    Serialization(String),
    /// Metrics error.
    Metrics(String),
    /// Shutdown requested.
    Shutdown,
}

/// Error of a plugin operation.
#[derive(Debug)]
pub enum PluginError {
    /// Initialization failed.
    Init(String),
    /// Transform failed.
    Transform(String),
    /// Send failed.
    Send(String),
    /// Connection error.
    Connection(String),
    /// Not ready.
    NotReady,
    /// Shutdown error.
    Shutdown(String),
}

/// The mathematical value of a [`PluginError`].
pub enum PluginErrorView {
    Init(Seq<char>),
    Transform(Seq<char>),
    Send(Seq<char>),
    Connection(Seq<char>),
    NotReady,
    Shutdown(Seq<char>),
}

impl View for PluginError {
    type V = PluginErrorView;

    open spec fn view(&self) -> PluginErrorView {
        match self {
            PluginError::Init(m) => PluginErrorView::Init(m@),
            PluginError::Transform(m) => PluginErrorView::Transform(m@),
            PluginError::Send(m) => PluginErrorView::Send(m@),
            PluginError::Connection(m) => PluginErrorView::Connection(m@),
            PluginError::NotReady => PluginErrorView::NotReady,
            PluginError::Shutdown(m) => PluginErrorView::Shutdown(m@),
        }
    }
}

impl PluginErrorView {
    /// The message of the error.
    pub open spec fn text(self) -> Seq<char> {
        match self {
            PluginErrorView::Init(m) => "initialization failed: "@ + m,
            PluginErrorView::Transform(m) => "transform failed: "@ + m,
            PluginErrorView::Send(m) => "send failed: "@ + m,
            PluginErrorView::Connection(m) => "connection error: "@ + m,
            PluginErrorView::NotReady => "plugin not ready"@,
            PluginErrorView::Shutdown(m) => "shutdown error: "@ + m,
        }
    }
}

impl PluginError {
    /// The message of the error.
    pub fn to_text(&self) -> (r: String)
        ensures
            r@ == self@.text(),
    {
        match self {
            PluginError::Init(m) => join2("initialization failed: ", m.as_str()),
            PluginError::Transform(m) => join2("transform failed: ", m.as_str()),
            PluginError::Send(m) => join2("send failed: ", m.as_str()),
            PluginError::Connection(m) => join2("connection error: ", m.as_str()),
            PluginError::NotReady => "plugin not ready".to_string(),
            PluginError::Shutdown(m) => join2("shutdown error: ", m.as_str()),
        }
    }
}

impl vstd::std_specs::convert::FromSpecImpl<PluginError> for PolkuError {
    open spec fn obeys_from_spec() -> bool {
        false
    }

    open spec fn from_spec(err: PluginError) -> PolkuError {
        arbitrary()
    }
}

impl From<PluginError> for PolkuError {
    fn from(err: PluginError) -> (r: PolkuError)
        ensures
            r matches PolkuError::Plugin { plugin, message } && plugin@ == "unknown"@ && message@
                == err@.text(),
    {
        PolkuError::Plugin { plugin: "unknown".to_string(), message: err.to_text() }
    }
}

/// The status that answers a request that ended in an error.
pub open spec fn status_of(err: PolkuError) -> StatusView {
    match err {
        PolkuError::Config(m) => StatusView { code: Code::InvalidArgument, message: m@ },
        PolkuError::Transport(m) => StatusView { code: Code::Unavailable, message: m@ },
        PolkuError::Grpc(status) => status@,
        PolkuError::Plugin { plugin, message } => StatusView {
            code: Code::Internal,
            message: "plugin '"@ + plugin@ + "': "@ + message@,
        },
        PolkuError::BufferFull { count } => StatusView {
            code: Code::ResourceExhausted,
            message: "buffer full, dropped "@ + number::decimal(count as nat) + " events"@,
        },
        PolkuError::Io(m) => StatusView { code: Code::Internal, message: m@ },
        PolkuError::Serialization(m) => StatusView { code: Code::InvalidArgument, message: m@ },
        PolkuError::Metrics(m) => StatusView {
            code: Code::Internal,
            message: "metrics: "@ + m@,
        },
        PolkuError::Shutdown => StatusView {
            code: Code::Unavailable,
            message: "shutting down"@,
        },
    }
}

impl vstd::std_specs::convert::FromSpecImpl<PolkuError> for Status {
    open spec fn obeys_from_spec() -> bool {
        false
    }

    open spec fn from_spec(err: PolkuError) -> Status {
        arbitrary()
    }
}

impl From<PolkuError> for Status {
    fn from(err: PolkuError) -> (r: Status)
        ensures
            r@ == status_of(err),
    {
        match err {
            PolkuError::Config(m) => Status::new(Code::InvalidArgument, m),
            PolkuError::Transport(m) => Status::new(Code::Unavailable, m),
            PolkuError::Grpc(status) => status,
            PolkuError::Plugin { plugin, message } => Status::new(
                Code::Internal,
                join4("plugin '", plugin.as_str(), "': ", message.as_str()),
            ),
            PolkuError::BufferFull { count } => Status::new(
                Code::ResourceExhausted,
                join3("buffer full, dropped ", decimal_text(count as u64).as_str(), " events"),
            ),
            PolkuError::Io(m) => Status::new(Code::Internal, m),
            PolkuError::Serialization(m) => Status::new(Code::InvalidArgument, m),
            PolkuError::Metrics(m) => Status::new(Code::Internal, join2("metrics: ", m.as_str())),
            PolkuError::Shutdown => Status::new(Code::Unavailable, "shutting down".to_string()),
        }
    }
}

} // verus!
