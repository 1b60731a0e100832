//! What makes emitters withstand failures.

pub mod config;
pub mod failure_buffer;

pub use config::{Layer, ResilientEmitter};
pub use failure_buffer::{
    FailedEvent, FailureBuffer, FailureCaptureConfig, FailureCaptureEmitter,
};
