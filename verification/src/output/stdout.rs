//! Stdout output: events as text, for debugging.

use crate::output::Output;
use crate::proto::Event;
use crate::render;
use crate::render::render_events;
use crate::ring;
use crate::ring::count;
use vstd::prelude::*;

verus! {

/// Writes events as text and counts them.
pub struct StdoutOutput {
    pretty: bool,
    sent_count: u64,
}

impl StdoutOutput {
    /// Whether events are written in boxes.
    pub closed spec fn is_pretty(self) -> bool {
        self.pretty
    }

    /// The events written so far; the counter wraps around.
    pub closed spec fn sent(self) -> u64 {
        self.sent_count
    }

    /// An output that writes every event on a line.
    pub fn new() -> (r: Self)
        ensures
            !r.is_pretty(),
            r.sent() == 0,
    {
        StdoutOutput { pretty: false, sent_count: 0 }
    }

    /// An output that writes every event in a box.
    pub fn pretty() -> (r: Self)
        ensures
            r.is_pretty(),
            r.sent() == 0,
    {
        StdoutOutput { pretty: true, sent_count: 0 }
    }

    /// The events written so far.
    pub fn sent_count(&self) -> (r: u64)
        ensures
            r == self.sent(),
    {
        self.sent_count
    }

    /// The text to be printed for events, which are counted.
    pub fn send(&mut self, events: &[Event]) -> (r: String)
        ensures
            r@ == render::events_text(events@, old(self).is_pretty()),
            final(self).sent() == ring::counted(old(self).sent(), events@.len()),
            final(self).is_pretty() == old(self).is_pretty(),
    {
        self.sent_count = count(self.sent_count, events.len());
        render_events(events, self.pretty)
    }

    /// Whether events can be written: they always can.
    pub fn health(&self) -> (r: bool)
        ensures
            r,
    {
        true
    }
}

impl Default for StdoutOutput {
    fn default() -> (r: Self)
        ensures
            !r.is_pretty(),
            r.sent() == 0,
    {
        Self::new()
    }
}

impl Output for StdoutOutput {
    open spec fn spec_name(&self) -> Seq<char> {
        "stdout"@
    }

    fn name(&self) -> (r: &'static str) {
        "stdout"
    }
}

} // verus!
