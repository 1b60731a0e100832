//! Stdout emitter: events as text, for debugging.

use crate::emit::Emitter;
use crate::proto::Event;
use crate::render;
use crate::render::render_events;
use crate::ring;
use crate::ring::count;
use vstd::prelude::*;

verus! {

/// Writes events as text and counts them.
pub struct StdoutEmitter {
    pretty: bool,
    emitted_count: u64,
}

impl StdoutEmitter {
    /// Whether events are written in boxes.
    pub closed spec fn is_pretty(self) -> bool {
        self.pretty
    }

    /// The events written so far; the counter wraps around.
    pub closed spec fn emitted(self) -> u64 {
        self.emitted_count
    }

    /// An emitter that writes every event on a line.
    pub fn new() -> (r: Self)
        ensures
            !r.is_pretty(),
            r.emitted() == 0,
    {
        StdoutEmitter { pretty: false, emitted_count: 0 }
    }

    /// An emitter that writes every event in a box.
    pub fn pretty() -> (r: Self)
        ensures
            r.is_pretty(),
            r.emitted() == 0,
    {
        StdoutEmitter { pretty: true, emitted_count: 0 }
    }

    /// The events written so far.
    pub fn emitted_count(&self) -> (r: u64)
        ensures
            r == self.emitted(),
    {
        self.emitted_count
    }

    /// The text to be printed for events, which are counted.
    pub fn emit(&mut self, events: &[Event]) -> (r: String)
        ensures
            r@ == render::events_text(events@, old(self).is_pretty()),
            final(self).emitted() == ring::counted(old(self).emitted(), events@.len()),
            final(self).is_pretty() == old(self).is_pretty(),
    {
        self.emitted_count = count(self.emitted_count, events.len());
        render_events(events, self.pretty)
    }

    /// Whether events can be written: they always can.
    pub fn health(&self) -> (r: bool)
        ensures
            r,
    {
        true
    }
}

impl Default for StdoutEmitter {
    fn default() -> (r: Self)
        ensures
            !r.is_pretty(),
            r.emitted() == 0,
    {
        Self::new()
    }
}

impl Emitter for StdoutEmitter {
    open spec fn spec_name(&self) -> Seq<char> {
        "stdout"@
    }

    fn name(&self) -> (r: &'static str) {
        "stdout"
    }
}

} // verus!
