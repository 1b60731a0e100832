//! What a single ingest request carries.

use crate::proto::Event;
use vstd::prelude::*;

verus! {

/// The content of a single ingest request.
#[derive(Debug)]
pub enum Payload {
    /// A ready event.
    Event(Event),
    /// Bytes in the format of the source.
    Raw(Vec<u8>),
}

} // verus!
