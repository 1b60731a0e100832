//! Failure buffer: failed events, kept in memory for inspection.
//!
//! The events are lost when the process ends.

use crate::emit::Emitter;
use crate::error::PluginError;
use crate::number;
use crate::number::decimal_text;
use crate::proto;
use crate::proto::{Event, EventView};
use crate::ring::{Ring, RingState};
use crate::text::join4;
use std::sync::Arc;
use std::time::Instant;
use vstd::prelude::*;

verus! {

/// An event that could not be emitted.
#[derive(Debug)]
pub struct FailedEvent {
    /// The event.
    pub event: Event,
    /// The message of the error.
    pub error: String,
    /// The emitter that failed.
    pub emitter_name: String,
    /// When it failed.
    pub failed_at: Instant,
    /// How often delivery was attempted.
    pub attempts: u32,
}

/// The mathematical value of a [`FailedEvent`].
#[verifier::ext_equal]
pub struct FailedEventView {
    pub event: EventView,
    pub error: Seq<char>,
    pub emitter_name: Seq<char>,
    pub failed_at: Instant,
    pub attempts: u32,
}

impl View for FailedEvent {
    type V = FailedEventView;

    open spec fn view(&self) -> FailedEventView {
        FailedEventView {
            event: self.event@,
            error: self.error@,
            emitter_name: self.emitter_name@,
            failed_at: self.failed_at,
            attempts: self.attempts,
        }
    }
}

/// The values of a list of failed events.
pub open spec fn failed_views(events: Seq<FailedEvent>) -> Seq<FailedEventView> {
    Seq::new(events.len(), |i: int| events[i]@)
}

/// When the events of a list failed.
pub open spec fn failure_times(events: Seq<FailedEvent>) -> Seq<Instant> {
    Seq::new(events.len(), |i: int| events[i].failed_at)
}

impl Clone for FailedEvent {
    fn clone(&self) -> (r: Self)
        ensures
            r@ == self@,
    {
        FailedEvent {
            event: self.event.clone(),
            error: self.error.clone(),
            emitter_name: self.emitter_name.clone(),
            failed_at: self.failed_at,
            attempts: self.attempts,
        }
    }
}

/// How failures are captured.
#[derive(Debug, Clone, Copy)]
pub struct FailureCaptureConfig {
    /// How many failed events are kept.
    pub capacity: usize,
    /// Whether all events of a batch are kept, or only the first as a sample.
    pub store_full_batch: bool,
}

impl Default for FailureCaptureConfig {
    fn default() -> (r: Self)
        ensures
            r.capacity == 1000,
            r.store_full_batch,
    {
        FailureCaptureConfig { capacity: 1000, store_full_batch: true }
    }
}

/// Keeps failed events. When it is full, the oldest ones are dropped.
pub struct FailureBuffer {
    ring: Ring<FailedEvent>,
}

impl View for FailureBuffer {
    type V = RingState<FailedEvent>;

    closed spec fn view(&self) -> RingState<FailedEvent> {
        self.ring@
    }
}

impl FailureBuffer {
    /// A buffer with the given capacity.
    pub fn new(capacity: usize) -> (r: Self)
        ensures
            r@ == RingState::<FailedEvent>::empty(capacity as nat),
    {
        FailureBuffer { ring: Ring::new(capacity) }
    }

    /// Adds failed events.
    pub fn push(&mut self, events: Vec<FailedEvent>)
        ensures
            final(self)@ == old(self)@.after_push(events@),
            final(self)@.within_limit(),
    {
        self.ring.push(events);
    }

    /// Drains up to `n` events, the oldest first.
    pub fn drain(&mut self, n: usize) -> (r: Vec<FailedEvent>)
        ensures
            r@ == old(self)@.oldest(n as nat),
            final(self)@ == old(self)@.after_drain(n as nat),
    {
        self.ring.drain(n)
    }

    /// Copies of up to `n` events, the oldest first; they stay in the buffer.
    pub fn peek(&self, n: usize) -> (r: Vec<FailedEvent>)
        ensures
            failed_views(r@) == failed_views(self@.oldest(n as nat)),
    {
        let ghost wanted = failed_views(self@.oldest(n as nat));
        let mut r: Vec<FailedEvent> = Vec::new();
        let mut i: usize = 0;
        while i < n && i < self.ring.len()
            invariant
                i <= n,
                i <= self@.items.len(),
                wanted == failed_views(self@.oldest(n as nat)),
                failed_views(r@) == wanted.take(i as int),
            decreases self@.items.len() - i,
        {
            let copy = self.ring.item_at(i).clone();
            let ghost before = r@;
            r.push(copy);
            assert(failed_views(r@) =~= failed_views(before).push(copy@));
            i += 1;
            assert(failed_views(r@) =~= wanted.take(i as int));
        }
        assert(wanted.take(i as int) =~= wanted);
        r
    }

    /// The number of events held.
    pub fn len(&self) -> (r: usize)
        ensures
            r == self@.items.len(),
    {
        self.ring.len()
    }

    /// Whether no event is held.
    pub fn is_empty(&self) -> (r: bool)
        ensures
            r == (self@.items.len() == 0),
    {
        self.ring.len() == 0
    }

    /// Events captured so far.
    pub fn total_captured(&self) -> (r: u64)
        ensures
            r == self@.pushed,
    {
        self.ring.metrics().pushed
    }

    /// Events dropped so far.
    pub fn total_dropped(&self) -> (r: u64)
        ensures
            r == self@.dropped,
    {
        self.ring.metrics().dropped
    }

    /// Removes all events.
    pub fn clear(&mut self)
        ensures
            final(self)@ == (RingState { items: Seq::empty(), ..old(self)@ }),
    {
        self.ring.clear();
    }
}

/// What is kept of a batch that failed: every event with the error, or the first one
/// with the error and the size of the batch. `times` are the times of the captures.
pub open spec fn captured(
    events: Seq<EventView>,
    error: Seq<char>,
    emitter_name: Seq<char>,
    store_full_batch: bool,
    times: Seq<Instant>,
) -> Seq<FailedEventView> {
    if store_full_batch {
        Seq::new(
            events.len(),
            |i: int|
                FailedEventView {
                    event: events[i],
                    error,
                    emitter_name,
                    failed_at: times[i],
                    attempts: 1,
                },
        )
    } else if events.len() == 0 {
        Seq::empty()
    } else {
        seq![
            FailedEventView {
                event: events[0],
                error: error + " (batch of "@ + number::decimal(events.len()) + ")"@,
                emitter_name,
                failed_at: times[0],
                attempts: 1,
            },
        ]
    }
}

/// Keeps what another emitter failed to emit.
pub struct FailureCaptureEmitter<E: Emitter + ?Sized> {
    inner: Arc<E>,
    config: FailureCaptureConfig,
}

impl<E: Emitter + ?Sized> FailureCaptureEmitter<E> {
    /// The other emitter.
    pub closed spec fn inner(self) -> Arc<E> {
        self.inner
    }

    /// The configuration.
    pub closed spec fn config(self) -> FailureCaptureConfig {
        self.config
    }

    /// Wraps an emitter.
    pub fn new(inner: Arc<E>, config: FailureCaptureConfig) -> (r: Self)
        ensures
            r.inner() == inner,
            r.config() == config,
    {
        FailureCaptureEmitter { inner, config }
    }

    /// Wraps an emitter, with the default configuration.
    pub fn with_defaults(inner: Arc<E>) -> (r: Self)
        ensures
            r.inner() == inner,
            r.config().capacity == 1000,
            r.config().store_full_batch,
    {
        Self::new(inner, FailureCaptureConfig::default())
    }

    /// The other emitter.
    pub fn wrapped(&self) -> (r: &Arc<E>)
        ensures
            *r == self.inner(),
    {
        &self.inner
    }

    /// What is kept of a batch that failed.
    fn capture(&self, events: &[Event], error: &PluginError) -> (r: Vec<FailedEvent>)
        ensures
            failed_views(r@) == captured(
                proto::event_views(events@),
                error@.text(),
                self.inner().spec_name(),
                self.config().store_full_batch,
                failure_times(r@),
            ),
    {
        let ghost views = proto::event_views(events@);
        let ghost name = self.inner().spec_name();
        let mut r: Vec<FailedEvent> = Vec::new();
        if self.config.store_full_batch {
            let mut i: usize = 0;
            while i < events.len()
                invariant
                    i <= events@.len(),
                    views == proto::event_views(events@),
                    name == self.inner().spec_name(),
                    r@.len() == i,
                    failed_views(r@) == captured(
                        views.take(i as int),
                        error@.text(),
                        name,
                        true,
                        failure_times(r@),
                    ),
                decreases events@.len() - i,
            {
                let failed = FailedEvent {
                    event: events[i].clone(),
                    error: error.to_text(),
                    emitter_name: self.inner.name().to_string(),
                    failed_at: Instant::now(),
                    attempts: 1,
                };
                let ghost before = r@;
                r.push(failed);
                assert(failed_views(r@) =~= failed_views(before).push(failed@));
                proof {
                    let earlier = captured(
                        views.take(i as int),
                        error@.text(),
                        name,
                        true,
                        failure_times(before),
                    );
                    assert forall|k: int| 0 <= k < i implies failed_views(before)[k]
                        == #[trigger] earlier[k] by {}
                    assert(failed_views(r@) =~= captured(
                        views.take(i + 1),
                        error@.text(),
                        name,
                        true,
                        failure_times(r@),
                    ));
                }
                i += 1;
            }
            assert(views.take(i as int) =~= views);
        } else if events.len() > 0 {
            r.push(
                FailedEvent {
                    event: events[0].clone(),
                    error: join4(
                        error.to_text().as_str(),
                        " (batch of ",
                        decimal_text(events.len() as u64).as_str(),
                        ")",
                    ),
                    emitter_name: self.inner.name().to_string(),
                    failed_at: Instant::now(),
                    attempts: 1,
                },
            );
            assert(failed_views(r@) =~= captured(
                views,
                error@.text(),
                name,
                false,
                failure_times(r@),
            ));
        } else {
            assert(failed_views(r@) =~= captured(
                views,
                error@.text(),
                name,
                false,
                failure_times(r@),
            ));
        }
        r
    }

    /// Hands on what emitting events ended in; a failure is kept in the buffer first.
    pub fn settle(
        &self,
        buffer: &mut FailureBuffer,
        events: &[Event],
        result: Result<(), PluginError>,
    ) -> (r: Result<(), PluginError>)
        ensures
            r == result,
            match result {
                Ok(()) => final(buffer)@ == old(buffer)@,
                Err(e) => exists|failed: Seq<FailedEvent>|
                    {
                        &&& #[trigger] failed_views(failed) == captured(
                            proto::event_views(events@),
                            e@.text(),
                            self.inner().spec_name(),
                            self.config().store_full_batch,
                            failure_times(failed),
                        )
                        &&& final(buffer)@ == old(buffer)@.after_push(failed)
                    },
            },
    {
        if let Err(e) = &result {
            let failed = self.capture(events, e);
            buffer.push(failed);
        }
        result
    }
}

impl<E: Emitter + ?Sized> Emitter for FailureCaptureEmitter<E> {
    open spec fn spec_name(&self) -> Seq<char> {
        "failure_capture"@
    }

    fn name(&self) -> (r: &'static str) {
        "failure_capture"
    }
}

/// A full capture keeps every event of the batch; a sample at most one.
pub proof fn captures_are_bounded(
    events: Seq<EventView>,
    error: Seq<char>,
    emitter_name: Seq<char>,
    times: Seq<Instant>,
)
    ensures
        captured(events, error, emitter_name, true, times).len() == events.len(),
        captured(events, error, emitter_name, false, times).len() <= 1,
        events.len() > 0 ==> captured(events, error, emitter_name, false, times).len() == 1,
{
}

} // verus!
