//! Sampler: passes a share of the messages.
//!
//! A message passes where the next number of a xorshift generator is not above a
//! threshold. Threshold and seed fix which messages pass.

use crate::message::Message;
use crate::middleware::{Middleware, StageState};
use vstd::prelude::*;

verus! {

/// The state that follows `x` in a xorshift generator of 64 bits.
pub open spec fn xorshift(x: u64) -> u64 {
    let a = x ^ (x << 13u64);
    let b = a ^ (a >> 7u64);
    b ^ (b << 17u64)
}

/// Passes messages at random.
pub struct Sampler {
    threshold: u64,
    state: u64,
}

impl Sampler {
    #[verifier::type_invariant]
    spec fn well_formed(self) -> bool {
        self.state != 0
    }

    /// The largest number that lets a message pass.
    pub closed spec fn threshold(self) -> u64 {
        self.threshold
    }

    /// The state of the generator.
    pub closed spec fn state(self) -> u64 {
        self.state
    }

    /// Creates a sampler. A threshold of zero drops every message, the largest one
    /// keeps them all.
    pub fn with_threshold(threshold: u64, seed: u64) -> (r: Self)
        ensures
            r.threshold() == threshold,
            r.state() == seed | 1,
            r.state() != 0,
    {
        assert(seed | 1 != 0) by (bit_vector);
        Sampler { threshold, state: seed | 1 }
    }

    /// The next random number.
    fn next_random(&mut self) -> (r: u64)
        ensures
            r == xorshift(old(self).state()),
            r != 0,
            final(self).state() == r,
            final(self).threshold() == old(self).threshold(),
    {
        proof {
            use_type_invariant(&*self);
            generator_never_stops(self.state);
        }
        let mut x: u64 = self.state;
        x = x ^ (x << 13u64);
        x = x ^ (x >> 7u64);
        x = x ^ (x << 17u64);
        self.state = x;
        x
    }

    /// Whether the next message is kept.
    pub fn should_sample(&mut self) -> (r: bool)
        ensures
            r == (xorshift(old(self).state()) <= old(self).threshold()),
            final(self).state() == xorshift(old(self).state()),
            final(self).state() != 0,
            final(self).threshold() == old(self).threshold(),
    {
        let next: u64 = self.next_random();
        next <= self.threshold
    }
}

impl Middleware for Sampler {
    open spec fn outcome(&self, msg: Message, out: Option<Message>) -> bool {
        out == if xorshift(self.state()) <= self.threshold() {
            Some(msg)
        } else {
            None
        }
    }

    open spec fn stage_state(&self) -> StageState {
        StageState::Sampler { threshold: self.threshold(), generator: self.state() }
    }

    open spec fn moves_to(&self, msg: Message, out: Option<Message>, next: StageState) -> bool {
        &&& self.outcome(msg, out)
        &&& next == StageState::Sampler {
            threshold: self.threshold(),
            generator: xorshift(self.state()),
        }
    }

    open spec fn spec_name(&self) -> Seq<char> {
        "sampler"@
    }

    fn name(&self) -> (r: &'static str)
        ensures
            r@ == "sampler"@,
    {
        "sampler"
    }

    fn process(&mut self, msg: Message) -> (r: Option<Message>)
        ensures
            final(self).state() == xorshift(old(self).state()),
            final(self).state() != 0,
            final(self).threshold() == old(self).threshold(),
    {
        if self.should_sample() {
            Some(msg)
        } else {
            None
        }
    }
}

/// The generator never reaches zero, where it would stay.
pub proof fn generator_never_stops(x: u64)
    requires
        x != 0,
    ensures
        xorshift(x) != 0,
{
    assert(({
        let a = x ^ (x << 13u64);
        let b = a ^ (a >> 7u64);
        b ^ (b << 17u64)
    }) != 0) by (bit_vector)
        requires
            x != 0,
    ;
}

/// Different states have different successors.
pub proof fn states_do_not_merge(x: u64, y: u64)
    requires
        x != y,
    ensures
        xorshift(x) != xorshift(y),
{
    let z = x ^ y;
    assert(z != 0) by (bit_vector)
        requires
            x != y,
            z == x ^ y,
    ;
    generator_never_stops(z);
    assert(({
        let a = x ^ (x << 13u64);
        let b = a ^ (a >> 7u64);
        b ^ (b << 17u64)
    }) ^ ({
        let a = y ^ (y << 13u64);
        let b = a ^ (a >> 7u64);
        b ^ (b << 17u64)
    }) == ({
        let a = z ^ (z << 13u64);
        let b = a ^ (a >> 7u64);
        b ^ (b << 17u64)
    })) by (bit_vector)
        requires
            z == x ^ y,
    ;
    let p = xorshift(x);
    assert(p ^ p == 0) by (bit_vector);
}

/// The smallest threshold drops every message, the largest one keeps every message. The
/// state of a sampler is never zero.
pub proof fn extreme_thresholds(sampler: Sampler, msg: Message, out: Option<Message>)
    requires
        sampler.state() != 0,
        sampler.outcome(msg, out),
    ensures
        sampler.threshold() == 0 ==> out is None,
        sampler.threshold() == u64::MAX ==> out == Some(msg),
{
    generator_never_stops(sampler.state());
}

} // verus!
