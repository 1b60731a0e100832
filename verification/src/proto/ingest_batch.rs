//! What a batch ingest request carries.

use crate::proto::{EventPayload, RawPayload};
use vstd::prelude::*;

verus! {

/// The content of a batch ingest request.
#[derive(Debug)]
pub enum Payload {
    /// Ready events.
    Events(EventPayload),
    /// Bytes in the format of the source.
    Raw(RawPayload),
}

} // verus!
