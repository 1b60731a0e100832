//! A builder that puts resilience layers round an emitter.

use crate::emit::resilience::failure_buffer::FailureCaptureConfig;
use crate::emit::Emitter;
use std::sync::Arc;
use vstd::prelude::*;

verus! {

/// A layer round an emitter.
pub enum Layer<R, C, B> {
    /// Failures are retried.
    Retry(R),
    /// Requests fail fast while the destination is down.
    CircuitBreaker(C),
    /// Failed events are kept in a buffer.
    FailureCapture(B, FailureCaptureConfig),
}

/// Builds a stack of layers round an emitter.
///
/// `R` configures retries, `C` the circuit breaker, and `B` refers to the buffer of
/// failed events.
pub struct ResilientEmitter<E: Emitter + ?Sized, R, C, B> {
    inner: Arc<E>,
    retry_config: Option<R>,
    circuit_breaker_config: Option<C>,
    failure_capture: Option<(B, FailureCaptureConfig)>,
}

/// The layers from the inside out: retries first, so that the circuit breaker counts
/// what they could not mend, and the capture of failures last.
pub open spec fn layers_of<R, C, B>(
    retry: Option<R>,
    circuit_breaker: Option<C>,
    failure_capture: Option<(B, FailureCaptureConfig)>,
) -> Seq<Layer<R, C, B>> {
    let none = Seq::<Layer<R, C, B>>::empty();
    let first = match retry {
        Some(config) => none.push(Layer::Retry(config)),
        None => none,
    };
    let second = match circuit_breaker {
        Some(config) => first.push(Layer::CircuitBreaker(config)),
        None => first,
    };
    match failure_capture {
        Some((buffer, config)) => second.push(Layer::FailureCapture(buffer, config)),
        None => second,
    }
}

impl<E: Emitter + ?Sized, R, C, B> ResilientEmitter<E, R, C, B> {
    /// The emitter in the middle.
    pub closed spec fn inner(self) -> Arc<E> {
        self.inner
    }

    /// How failures are retried.
    pub closed spec fn retry(self) -> Option<R> {
        self.retry_config
    }

    /// How the circuit breaker works.
    pub closed spec fn circuit_breaker(self) -> Option<C> {
        self.circuit_breaker_config
    }

    /// Where failed events are kept.
    pub closed spec fn failure_capture(self) -> Option<(B, FailureCaptureConfig)> {
        self.failure_capture
    }

    /// Starts with an emitter that is shared.
    pub fn wrap_arc(emitter: Arc<E>) -> (r: Self)
        ensures
            r.inner() == emitter,
            r.retry() is None,
            r.circuit_breaker() is None,
            r.failure_capture() is None,
    {
        ResilientEmitter {
            inner: emitter,
            retry_config: None,
            circuit_breaker_config: None,
            failure_capture: None,
        }
    }

    /// Adds retries.
    pub fn with_retry(self, config: R) -> (r: Self)
        ensures
            r.inner() == self.inner(),
            r.retry() == Some(config),
            r.circuit_breaker() == self.circuit_breaker(),
            r.failure_capture() == self.failure_capture(),
    {
        let mut builder = self;
        builder.retry_config = Some(config);
        builder
    }

    /// Adds a circuit breaker.
    pub fn with_circuit_breaker(self, config: C) -> (r: Self)
        ensures
            r.inner() == self.inner(),
            r.retry() == self.retry(),
            r.circuit_breaker() == Some(config),
            r.failure_capture() == self.failure_capture(),
    {
        let mut builder = self;
        builder.circuit_breaker_config = Some(config);
        builder
    }

    /// Adds the capture of failures.
    pub fn with_failure_capture(self, buffer: B, config: FailureCaptureConfig) -> (r: Self)
        ensures
            r.inner() == self.inner(),
            r.retry() == self.retry(),
            r.circuit_breaker() == self.circuit_breaker(),
            r.failure_capture() == Some((buffer, config)),
    {
        let mut builder = self;
        builder.failure_capture = Some((buffer, config));
        builder
    }

    /// Adds the capture of failures, with the default configuration.
    pub fn with_default_failure_capture(self, buffer: B) -> (r: Self)
        ensures
            r.inner() == self.inner(),
            r.retry() == self.retry(),
            r.circuit_breaker() == self.circuit_breaker(),
            r.failure_capture() == Some(
                (buffer, (FailureCaptureConfig { capacity: 1000, store_full_batch: true })),
            ),
    {
        self.with_failure_capture(buffer, FailureCaptureConfig::default())
    }

    /// The emitter and the layers round it, from the inside out.
    pub fn build(self) -> (r: (Arc<E>, Vec<Layer<R, C, B>>))
        ensures
            r.0 == self.inner(),
            r.1@ == layers_of(self.retry(), self.circuit_breaker(), self.failure_capture()),
    {
        let mut layers: Vec<Layer<R, C, B>> = Vec::new();
        if let Some(config) = self.retry_config {
            layers.push(Layer::Retry(config));
        }
        if let Some(config) = self.circuit_breaker_config {
            layers.push(Layer::CircuitBreaker(config));
        }
        if let Some((buffer, config)) = self.failure_capture {
            layers.push(Layer::FailureCapture(buffer, config));
        }
        (self.inner, layers)
    }
}

impl<E: Emitter, R, C, B> ResilientEmitter<E, R, C, B> {
    /// Starts with an emitter.
    pub fn wrap(emitter: E) -> (r: Self)
        ensures
            r.inner() == Arc::new(emitter),
            r.retry() is None,
            r.circuit_breaker() is None,
            r.failure_capture() is None,
    {
        Self::wrap_arc(Arc::new(emitter))
    }
}

impl<E: Emitter + ?Sized, R: Default, C, B> ResilientEmitter<E, R, C, B> {
    /// Adds retries, with the default configuration.
    pub fn with_default_retry(self) -> (r: Self)
        ensures
            r.inner() == self.inner(),
            r.retry() matches Some(config) && call_ensures(R::default, (), config),
            r.circuit_breaker() == self.circuit_breaker(),
            r.failure_capture() == self.failure_capture(),
    {
        self.with_retry(R::default())
    }
}

impl<E: Emitter + ?Sized, R, C: Default, B> ResilientEmitter<E, R, C, B> {
    /// Adds a circuit breaker, with the default configuration.
    pub fn with_default_circuit_breaker(self) -> (r: Self)
        ensures
            r.inner() == self.inner(),
            r.retry() == self.retry(),
            r.circuit_breaker() matches Some(config) && call_ensures(C::default, (), config),
            r.failure_capture() == self.failure_capture(),
    {
        self.with_circuit_breaker(C::default())
    }
}

/// Failures are captured outside the other layers: the capture of failures is the last
/// layer wherever it is asked for.
pub proof fn capture_is_outermost<R, C, B>(
    retry: Option<R>,
    circuit_breaker: Option<C>,
    buffer: B,
    config: FailureCaptureConfig,
)
    ensures
        layers_of(retry, circuit_breaker, Some((buffer, config))).last()
            == Layer::<R, C, B>::FailureCapture(buffer, config),
        layers_of(retry, circuit_breaker, Some((buffer, config))).drop_last() == layers_of(
            retry,
            circuit_breaker,
            None::<(B, FailureCaptureConfig)>,
        ),
{
    assert(layers_of(retry, circuit_breaker, Some((buffer, config))).drop_last() =~= layers_of(
        retry,
        circuit_breaker,
        None::<(B, FailureCaptureConfig)>,
    ));
}

} // verus!
