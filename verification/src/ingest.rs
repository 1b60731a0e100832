//! Ingestors: they decode the bytes of a protocol into events.

pub mod k8s;

use crate::error::PluginError;
use crate::proto::Event;
use vstd::prelude::*;

verus! {

/// What is known about the bytes.
#[derive(Debug, Clone, Copy)]
pub struct IngestContext<'a> {
    /// Source identifier.
    pub source: &'a str,
    /// Cluster or environment identifier.
    pub cluster: &'a str,
    /// Format hint.
    pub format: &'a str,
}

/// Decodes bytes into events.
pub trait Ingestor: Send + Sync {
    /// The name of the ingestor.
    fn name(&self) -> &'static str;

    /// Decodes bytes into events.
    fn ingest(&self, ctx: &IngestContext, data: &[u8]) -> Result<Vec<Event>, PluginError>;
}

} // verus!
