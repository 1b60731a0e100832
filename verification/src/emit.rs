//! Emitters: the destinations of events, and what is sent to them.

pub mod grpc;
pub mod k8s;
pub mod resilience;
pub mod stdout;
pub mod webhook;

use vstd::prelude::*;

pub use grpc::GrpcEmitter;
pub use stdout::StdoutEmitter;
pub use webhook::WebhookEmitter;

verus! {

/// A destination of events.
pub trait Emitter: Send + Sync {
    /// The name of the emitter; every implementation says what it is.
    open spec fn spec_name(&self) -> Seq<char> {
        arbitrary()
    }

    /// The name of the emitter.
    fn name(&self) -> (r: &'static str)
        ensures
            r@ == self.spec_name(),
    ;
}

} // verus!
