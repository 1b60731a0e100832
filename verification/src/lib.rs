//! A programmatic protocol hub for internal service communication.
//!
//! Messages enter through ingestors and inputs, pass through middleware into a ring
//! buffer, and leave through emitters and outputs. This library decides what becomes
//! of every message; reading from and writing to the outside world is left to the
//! program that uses it.

pub mod buffer;
pub mod config;
pub mod deploy;
pub mod emit;
pub mod error;
pub mod hub;
pub mod ingest;
pub mod input;
pub mod json;
pub mod laws;
pub mod message;
pub mod metrics;
pub mod middleware;
pub mod number;
pub mod order;
pub mod output;
pub mod payload;
pub mod proto;
pub mod registry;
pub mod render;
pub mod ring;
pub mod server;
pub mod stamp;
pub mod string_map;
pub mod text;

pub use config::Config;
pub use deploy::{PolkuDeployment, PolkuResources};
pub use emit::k8s::{K8sEmitter, K8sEmitterConfig, ResourceKind};
pub use emit::resilience::{FailedEvent, ResilientEmitter};
pub use emit::{Emitter, GrpcEmitter, StdoutEmitter, WebhookEmitter};
pub use error::{PluginError, PolkuError};
pub use hub::{Hub, HubRunner};
pub use ingest::k8s::{K8sIngestor, K8sIngestorConfig};
pub use ingest::{IngestContext, Ingestor};
pub use message::Message;
pub use middleware::{Filter, Middleware, MiddlewareChain, PassThrough, Transform};
pub use proto::Event;
pub use registry::PluginRegistry;
