//! Inputs: they turn raw bytes of a source into events.

use crate::error::PluginError;
use crate::proto::Event;
use vstd::prelude::*;

verus! {

/// What is known about raw bytes.
#[derive(Debug, Clone, Copy)]
pub struct InputContext<'a> {
    /// Source identifier.
    pub source: &'a str,
    /// Cluster or environment identifier.
    pub cluster: &'a str,
    /// Format hint.
    pub format: &'a str,
}

/// Turns raw bytes into events.
///
/// Each input knows the format of a source.
pub trait Input: Send + Sync {
    /// Transforming `data` may end in `r`; unless an implementation says more, in
    /// anything.
    open spec fn yields(
        &self,
        ctx: InputContext,
        data: Seq<u8>,
        r: Result<Vec<Event>, PluginError>,
    ) -> bool {
        true
    }

    /// The name of the input.
    fn name(&self) -> &'static str;

    /// Transforms raw bytes into events.
    fn transform(&self, ctx: &InputContext, data: &[u8]) -> (r: Result<Vec<Event>, PluginError>)
        ensures
            self.yields(*ctx, data@, r),
    ;
}

} // verus!
