//! Laws: what the operations of the gateway promise, stated of their calls.
//!
//! Each law speaks of what goes into calls and what comes out of them: `call_ensures`
//! says that a call with some arguments may have ended in some result.

pub mod aggregation;
pub mod buffer;
pub mod delivery;
pub mod failures;
pub mod pipeline;
pub mod service;
pub mod setup;
pub mod stages;
pub mod throttle;
pub mod values;
