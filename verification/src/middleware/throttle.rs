//! Per-source throttle.
//!
//! Each source has a token bucket of its own. To bound the memory that short-lived
//! sources take, the least recently used bucket is evicted when the limit on the
//! number of sources is reached.

use crate::message::Message;
use crate::middleware::{Middleware, StageState};
use crate::ring;
use crate::stamp;
use crate::stamp::nanos_since;
use crate::string_map;
use crate::string_map::StringMap;
use std::time::{Duration, Instant};
use vstd::prelude::*;

verus! {

/// Tokens are counted in thousandths: what one message costs and one interval yields.
pub const TOKEN: u64 = 1000;

/// Nanoseconds in a second.
pub const SECOND: u64 = 1_000_000_000;

/// How many sources are tracked unless said otherwise.
pub const DEFAULT_MAX_SOURCES: usize = 10_000;

/// A token bucket.
#[derive(Debug, Clone, Copy)]
pub struct TokenBucket {
    /// The most tokens it holds, in thousandths.
    pub capacity: u64,
    /// The time in which a token is added, in nanoseconds.
    pub refill_nanos: u64,
    /// The tokens it holds, in thousandths.
    pub tokens: u64,
    /// The time up to which tokens were added.
    pub last_refill: u64,
}

/// The time in which a token is added, at a rate per second: at least a nanosecond.
pub open spec fn refill_interval(rate: u64) -> u64 {
    if rate == 0 {
        u64::MAX
    } else if rate > SECOND {
        1
    } else {
        SECOND / rate
    }
}

/// The interval is never zero, whatever the rate.
pub proof fn intervals_take_time(rate: u64)
    ensures
        refill_interval(rate) > 0,
{
    if 0 < rate <= SECOND {
        vstd::arithmetic::div_mod::lemma_div_non_zero(SECOND as int, rate as int);
    }
}

/// The tokens of a burst, as many as a counter holds.
pub open spec fn burst_tokens(burst: u64) -> u64 {
    ring::at_most((burst * TOKEN) as nat, u64::MAX as nat) as u64
}

impl TokenBucket {
    /// The bucket holds no more than it may, and is refilled now and then.
    pub open spec fn well_formed(self) -> bool {
        &&& self.tokens <= self.capacity
        &&& self.refill_nanos > 0
    }

    /// A full bucket.
    pub open spec fn full(rate: u64, burst: u64, now: u64) -> TokenBucket {
        TokenBucket {
            capacity: burst_tokens(burst),
            refill_nanos: refill_interval(rate),
            tokens: burst_tokens(burst),
            last_refill: now,
        }
    }

    /// The whole refill intervals that have gone by.
    pub open spec fn intervals(self, now: u64) -> nat {
        if now <= self.last_refill {
            0
        } else {
            ((now - self.last_refill) / self.refill_nanos as int) as nat
        }
    }

    /// The bucket with a token for every whole interval that has gone by, up to its capacity.
    pub open spec fn refilled(self, now: u64) -> TokenBucket {
        TokenBucket {
            tokens: ring::at_most(
                self.tokens as nat + self.intervals(now) * TOKEN as nat,
                self.capacity as nat,
            ) as u64,
            last_refill: (self.last_refill + self.intervals(now) * self.refill_nanos) as u64,
            ..self
        }
    }

    /// A token can be taken now.
    pub open spec fn grants(self, now: u64) -> bool {
        self.refilled(now).tokens >= TOKEN
    }

    /// The bucket after a request for a token.
    pub open spec fn acquired(self, now: u64) -> TokenBucket {
        let filled = self.refilled(now);
        if filled.tokens >= TOKEN {
            TokenBucket { tokens: (filled.tokens - TOKEN) as u64, ..filled }
        } else {
            filled
        }
    }

    /// Makes a full bucket.
    pub fn new(rate: u64, burst: u64, now: u64) -> (r: Self)
        ensures
            r == TokenBucket::full(rate, burst, now),
            r.well_formed(),
    {
        let refill_nanos: u64 = if rate == 0 {
            u64::MAX
        } else if rate > SECOND {
            1
        } else {
            SECOND / rate
        };
        let tokens: u64 = match burst.checked_mul(TOKEN) {
            Some(n) => n,
            None => u64::MAX,
        };
        proof {
            intervals_take_time(rate);
        }
        TokenBucket { capacity: tokens, refill_nanos, tokens, last_refill: now }
    }

    /// Adds a token for every whole interval that has gone by.
    pub fn refill(&mut self, now: u64)
        requires
            old(self).well_formed(),
        ensures
            *final(self) == old(self).refilled(now),
            final(self).well_formed(),
    {
        if now <= self.last_refill {
            assert(0 * self.refill_nanos == 0);
            return;
        }
        let elapsed: u64 = now - self.last_refill;
        let intervals: u64 = elapsed / self.refill_nanos;
        proof {
            vstd::arithmetic::div_mod::lemma_fundamental_div_mod(
                elapsed as int,
                self.refill_nanos as int,
            );
            assert(self.refill_nanos * intervals == intervals * self.refill_nanos)
                by (nonlinear_arith);
            assert(intervals * self.refill_nanos <= elapsed);
        }
        self.last_refill = self.last_refill + intervals * self.refill_nanos;
        let added: u64 = match intervals.checked_mul(TOKEN) {
            Some(n) => n,
            None => u64::MAX,
        };
        let tokens: u64 = self.tokens.saturating_add(added);
        self.tokens = if tokens < self.capacity {
            tokens
        } else {
            self.capacity
        };
    }

    /// Takes a token, if there is one.
    pub fn try_acquire(&mut self, now: u64) -> (r: bool)
        requires
            old(self).well_formed(),
        ensures
            r == old(self).grants(now),
            *final(self) == old(self).acquired(now),
            final(self).well_formed(),
    {
        self.refill(now);
        if self.tokens < TOKEN {
            return false;
        }
        self.tokens = self.tokens - TOKEN;
        true
    }
}

/// A token bucket with the time of its last use.
#[derive(Debug, Clone, Copy)]
pub struct TrackedBucket {
    /// The bucket.
    pub bucket: TokenBucket,
    /// When it was last used.
    pub last_access: u64,
}

/// The mathematical state of a [`Throttle`].
#[verifier::ext_equal]
pub struct ThrottleState {
    /// Messages per second of each source.
    pub rate: u64,
    /// Messages that a source may send at once.
    pub burst: u64,
    /// How many sources are tracked.
    pub max_sources: nat,
    /// The buckets of the sources.
    pub buckets: Map<Seq<char>, TrackedBucket>,
    /// The time from which the clock counts.
    pub start: Instant,
}

/// `victim` is a least recently used bucket.
pub open spec fn least_recent(
    buckets: Map<Seq<char>, TrackedBucket>,
    victim: Seq<char>,
) -> bool {
    &&& buckets.contains_key(victim)
    &&& forall|other: Seq<char>| #[trigger]
        buckets.contains_key(other) ==> buckets[victim].last_access <= buckets[other].last_access
}

impl ThrottleState {
    /// Every bucket is as it should be.
    pub open spec fn well_formed(self) -> bool {
        &&& self.buckets.dom().finite()
        &&& forall|source: Seq<char>| #[trigger]
            self.buckets.contains_key(source) ==> self.buckets[source].bucket.well_formed()
    }

    /// The bucket that answers for a source: the one it has, or a full one.
    pub open spec fn bucket_of(self, source: Seq<char>, now: u64) -> TokenBucket {
        if self.buckets.contains_key(source) {
            self.buckets[source].bucket
        } else {
            TokenBucket::full(self.rate, self.burst, now)
        }
    }

    /// A message of the source may pass now.
    pub open spec fn grants(self, source: Seq<char>, now: u64) -> bool {
        self.bucket_of(source, now).grants(now)
    }

    /// `kept` are the buckets that stay when room is made for another source: all of
    /// them below the limit, and else all but a least recently used one.
    pub open spec fn room_made(self, kept: Map<Seq<char>, TrackedBucket>) -> bool {
        if self.buckets.len() < self.max_sources || self.buckets.len() == 0 {
            kept == self.buckets
        } else {
            exists|victim: Seq<char>| #[trigger]
                least_recent(self.buckets, victim) && kept == self.buckets.remove(victim)
        }
    }

    /// `after` are the buckets after a message of the source asked to pass.
    pub open spec fn moves_to(
        self,
        source: Seq<char>,
        now: u64,
        after: Map<Seq<char>, TrackedBucket>,
    ) -> bool {
        let used = TrackedBucket {
            bucket: self.bucket_of(source, now).acquired(now),
            last_access: now,
        };
        if self.buckets.contains_key(source) {
            after == self.buckets.insert(source, used)
        } else {
            exists|kept: Map<Seq<char>, TrackedBucket>| #[trigger]
                self.room_made(kept) && after == kept.insert(source, used)
        }
    }

    /// `out` is the answer to a message, and `after` the state that it leaves, for the
    /// span that has gone by since the start, whatever it is. Only the buckets change.
    pub open spec fn answers(
        self,
        msg: Message,
        out: Option<Message>,
        after: ThrottleState,
    ) -> bool {
        &&& after == ThrottleState { buckets: after.buckets, ..self }
        &&& exists|span: Duration|
            {
                let now = stamp::low_nanos(stamp::span_nanos(span));
                &&& #[trigger] stamp::may_elapse(self.start, span)
                &&& out == if self.grants(msg.source@, now) {
                    Some(msg)
                } else {
                    None
                }
                &&& self.moves_to(msg.source@, now, after.buckets)
            }
    }
}

/// Limits the rate of each source.
pub struct Throttle {
    rate: u64,
    burst: u64,
    max_sources: usize,
    buckets: StringMap<TrackedBucket>,
    start: Instant,
}

impl View for Throttle {
    type V = ThrottleState;

    closed spec fn view(&self) -> ThrottleState {
        ThrottleState {
            rate: self.rate,
            burst: self.burst,
            max_sources: self.max_sources as nat,
            buckets: self.buckets@,
            start: self.start,
        }
    }
}

impl Throttle {
    #[verifier::type_invariant]
    spec fn well_formed(self) -> bool {
        self@.well_formed()
    }

    /// Creates a throttle: each source may send `rate` messages per second and
    /// `burst` at once.
    pub fn new(rate: u64, burst: u64) -> (r: Self)
        ensures
            r@ == (ThrottleState {
                rate,
                burst,
                max_sources: DEFAULT_MAX_SOURCES as nat,
                buckets: Map::empty(),
                start: r@.start,
            }),
    {
        Throttle {
            rate,
            burst,
            max_sources: DEFAULT_MAX_SOURCES,
            buckets: StringMap::new(),
            start: Instant::now(),
        }
    }

    /// Sets how many sources are tracked.
    pub fn max_sources(self, max: usize) -> (r: Self)
        ensures
            r@ == (ThrottleState { max_sources: max as nat, ..self@ }),
    {
        proof {
            use_type_invariant(&self);
        }
        let mut throttle = self;
        throttle.max_sources = max;
        throttle
    }

    /// Takes a token for the source at the time `now`. A source that is not tracked
    /// yet gets a full bucket, and a least recently used one goes where there is no room.
    pub fn get_or_create_bucket(&mut self, source: &str, now: u64) -> (r: bool)
        ensures
            r == old(self)@.grants(source@, now),
            old(self)@.moves_to(source@, now, final(self)@.buckets),
            final(self)@ == (ThrottleState { buckets: final(self)@.buckets, ..old(self)@ }),
            final(self)@.well_formed(),
    {
        proof {
            use_type_invariant(&*self);
        }
        let ghost start = self@;
        let mut buckets: StringMap<TrackedBucket> = StringMap::new();
        std::mem::swap(&mut buckets, &mut self.buckets);
        let mut bucket: TokenBucket = match buckets.get(source) {
            Some(entry) => entry.bucket,
            None => {
                if buckets.len() >= self.max_sources {
                    evict_lru(&mut buckets);
                }
                assert(start.room_made(buckets@));
                TokenBucket::new(self.rate, self.burst, now)
            },
        };
        let r = bucket.try_acquire(now);
        buckets.insert(source.to_string(), TrackedBucket { bucket, last_access: now });
        self.buckets = buckets;
        r
    }

    /// How many sources are tracked.
    pub fn source_count(&self) -> (r: usize)
        ensures
            r == self@.buckets.len(),
    {
        self.buckets.len()
    }

    /// How many sources are tracked at most.
    pub fn max_sources_limit(&self) -> (r: usize)
        ensures
            r == self@.max_sources,
    {
        self.max_sources
    }
}

/// Removes a least recently used bucket, if there is any.
fn evict_lru(buckets: &mut StringMap<TrackedBucket>)
    ensures
        if old(buckets)@.len() == 0 {
            final(buckets)@ == old(buckets)@
        } else {
            exists|victim: Seq<char>| #[trigger]
                least_recent(old(buckets)@, victim) && final(buckets)@ == old(buckets)@.remove(
                    victim,
                )
        },
{
    let n: usize = buckets.len();
    if n == 0 {
        return;
    }
    let ghost all = buckets.entries();
    let mut oldest: usize = 0;
    let mut i: usize = 1;
    while i < n
        invariant
            n == all.len(),
            all == buckets.entries(),
            oldest < i <= n,
            forall|j: int|
                0 <= j < i ==> all[oldest as int].1.last_access <= (#[trigger] all[j]).1.last_access,
        decreases n - i,
    {
        if buckets.value_at(i).last_access < buckets.value_at(oldest).last_access {
            oldest = i;
        }
        i += 1;
    }
    let victim = buckets.key_at(oldest).clone();
    proof {
        assert(string_map::enumerates(all, buckets@));
        assert forall|other: Seq<char>| #[trigger]
            buckets@.contains_key(other) implies buckets@[victim@].last_access
            <= buckets@[other].last_access by {
            let j = choose|j: int| 0 <= j < all.len() && (#[trigger] all[j]).0 == other;
            assert(all[oldest as int].1.last_access <= all[j].1.last_access);
        }
        assert(least_recent(buckets@, victim@));
    }
    buckets.remove(victim.as_str());
}

impl Middleware for Throttle {
    open spec fn outcome(&self, msg: Message, out: Option<Message>) -> bool {
        exists|span: Duration|
            {
                let now = stamp::low_nanos(stamp::span_nanos(span));
                &&& #[trigger] stamp::may_elapse(self@.start, span)
                &&& out == if self@.grants(msg.source@, now) {
                    Some(msg)
                } else {
                    None
                }
            }
    }

    open spec fn stage_state(&self) -> StageState {
        StageState::Throttle(self@)
    }

    open spec fn moves_to(&self, msg: Message, out: Option<Message>, next: StageState) -> bool {
        next matches StageState::Throttle(after) && self@.answers(msg, out, after)
    }

    open spec fn spec_name(&self) -> Seq<char> {
        "throttle"@
    }

    fn name(&self) -> (r: &'static str)
        ensures
            r@ == "throttle"@,
    {
        "throttle"
    }

    fn process(&mut self, msg: Message) -> (r: Option<Message>)
        ensures
            old(self)@.answers(msg, r, final(self)@),
            final(self)@.well_formed(),
    {
        let now: u64 = nanos_since(&self.start);
        if self.get_or_create_bucket(msg.source.as_str(), now) {
            Some(msg)
        } else {
            None
        }
    }
}

/// How many of the requests at the given times a bucket grants.
pub open spec fn granted(bucket: TokenBucket, times: Seq<u64>) -> nat
    decreases times.len(),
{
    if times.len() == 0 {
        0
    } else {
        let rest = granted(bucket.acquired(times[0]), times.drop_first());
        if bucket.grants(times[0]) {
            1 + rest
        } else {
            rest
        }
    }
}

/// The intervals up to a time are those up to a refill before it and those after it.
proof fn intervals_add_up(bucket: TokenBucket, now: u64, later: u64)
    requires
        bucket.well_formed(),
        now <= later,
    ensures
        bucket.intervals(later) == bucket.intervals(now) + bucket.refilled(now).intervals(later),
        bucket.last_refill + bucket.intervals(now) * bucket.refill_nanos <= if now
            < bucket.last_refill {
            bucket.last_refill
        } else {
            now
        },
{
    let r = bucket.refill_nanos as int;
    let k = bucket.intervals(now) as int;
    if now > bucket.last_refill {
        let elapsed = now - bucket.last_refill;
        vstd::arithmetic::div_mod::lemma_fundamental_div_mod(elapsed, r);
        assert(r * k == k * r) by (nonlinear_arith);
        vstd::arithmetic::div_mod::lemma_hoist_over_denominator(
            later - bucket.last_refill,
            -k,
            r as nat,
        );
        assert((-k) * r == -(k * r)) by (nonlinear_arith);
        if later == bucket.last_refill + k * r {
            vstd::arithmetic::div_mod::lemma_div_by_self(r);
            assert(0int / r == 0) by (nonlinear_arith)
                requires
                    r > 0,
            ;
        }
    } else {
        assert(0 * r == 0);
    }
}

/// Refilling on the way makes no difference: a bucket that is refilled now and later
/// is as one that is refilled later only.
pub proof fn refills_add_up(bucket: TokenBucket, now: u64, later: u64)
    requires
        bucket.well_formed(),
        now <= later,
    ensures
        bucket.refilled(now).refilled(later) == bucket.refilled(later),
{
    intervals_add_up(bucket, now, later);
    intervals_add_up(bucket, later, later);
    intervals_add_up(bucket.refilled(now), later, later);
    let r = bucket.refill_nanos as int;
    let a = bucket.intervals(now) as int;
    let b = bucket.refilled(now).intervals(later) as int;
    assert((a + b) * r == a * r + b * r) by (nonlinear_arith);
}

/// A bucket never grants more than it holds and what is added meanwhile: of requests
/// made in order, up to the time `end`, at most as many are granted as there are
/// tokens at the start and intervals until `end`.
pub proof fn rate_is_limited(bucket: TokenBucket, times: Seq<u64>, end: u64)
    requires
        bucket.well_formed(),
        forall|i: int, j: int|
            0 <= i <= j < times.len() ==> #[trigger] times[i] <= #[trigger] times[j],
        forall|i: int| 0 <= i < times.len() ==> #[trigger] times[i] <= end,
    ensures
        granted(bucket, times) * TOKEN <= bucket.tokens + bucket.intervals(end) * TOKEN,
    decreases times.len(),
{
    if times.len() > 0 {
        let now = times[0];
        let rest = times.drop_first();
        let next = bucket.acquired(now);
        assert forall|i: int, j: int| 0 <= i <= j < rest.len() implies #[trigger] rest[i]
            <= #[trigger] rest[j] by {
            assert(times[i + 1] <= times[j + 1]);
        }
        assert forall|i: int| 0 <= i < rest.len() implies #[trigger] rest[i] <= end by {
            assert(times[i + 1] <= end);
        }
        rate_is_limited(next, rest, end);
        intervals_add_up(bucket, now, end);
    }
}

/// Requests at one moment are granted as long as there are tokens.
pub proof fn burst_is_granted(bucket: TokenBucket, n: nat, now: u64)
    requires
        bucket.well_formed(),
        now <= bucket.last_refill,
    ensures
        granted(bucket, Seq::new(n, |i: int| now)) == ring::at_most(
            n,
            (bucket.tokens / TOKEN) as nat,
        ),
    decreases n,
{
    if n > 0 {
        let times = Seq::new(n, |i: int| now);
        assert(times.drop_first() =~= Seq::new((n - 1) as nat, |i: int| now));
        burst_is_granted(bucket.acquired(now), (n - 1) as nat, now);
    }
}

/// A new source may send its burst at once, and no more.
pub proof fn new_sources_get_their_burst(rate: u64, burst: u64, n: nat, now: u64)
    requires
        burst * TOKEN <= u64::MAX,
    ensures
        granted(TokenBucket::full(rate, burst, now), Seq::new(n, |i: int| now))
            == ring::at_most(n, burst as nat),
{
    intervals_take_time(rate);
    burst_is_granted(TokenBucket::full(rate, burst, now), n, now);
}

/// A message of one source leaves the buckets of the others as they are; one of them
/// may be evicted.
pub proof fn sources_are_independent(
    state: ThrottleState,
    source: Seq<char>,
    now: u64,
    after: Map<Seq<char>, TrackedBucket>,
    other: Seq<char>,
)
    requires
        state.moves_to(source, now, after),
        other != source,
        after.contains_key(other),
    ensures
        state.buckets.contains_key(other),
        after[other] == state.buckets[other],
{
}

/// The number of sources never grows beyond the limit, or one where the limit is zero.
pub proof fn sources_are_bounded(
    state: ThrottleState,
    source: Seq<char>,
    now: u64,
    after: Map<Seq<char>, TrackedBucket>,
)
    requires
        state.well_formed(),
        state.moves_to(source, now, after),
    ensures
        after.len() <= state.buckets.len() || after.len() <= state.max_sources || after.len() == 1,
{
}

/// A bucket that goes was used no later than any that stays.
pub proof fn the_least_recent_goes(
    state: ThrottleState,
    source: Seq<char>,
    now: u64,
    after: Map<Seq<char>, TrackedBucket>,
    gone: Seq<char>,
    other: Seq<char>,
)
    requires
        state.moves_to(source, now, after),
        state.buckets.contains_key(gone),
        !after.contains_key(gone),
        state.buckets.contains_key(other),
    ensures
        state.buckets[gone].last_access <= state.buckets[other].last_access,
        !state.buckets.contains_key(source),
        state.buckets.len() >= state.max_sources,
{
}

/// `states` are those that a throttle goes through, from the first one on, when messages
/// ask to pass: each call is a source and the time of asking.
pub open spec fn goes_through(
    states: Seq<ThrottleState>,
    calls: Seq<(Seq<char>, u64)>,
) -> bool {
    &&& states.len() == calls.len() + 1
    &&& forall|k: int|
        0 <= k < calls.len() ==> (#[trigger] states[k]).moves_to(
            calls[k].0,
            calls[k].1,
            states[k + 1].buckets,
        )
}

/// When a source asked to pass.
pub open spec fn times_of(calls: Seq<(Seq<char>, u64)>, source: Seq<char>) -> Seq<u64>
    decreases calls.len(),
{
    if calls.len() == 0 {
        Seq::empty()
    } else {
        let later = times_of(calls.drop_first(), source);
        if calls[0].0 == source {
            seq![calls[0].1] + later
        } else {
            later
        }
    }
}

/// How many messages of a source passed.
pub open spec fn grants_of(
    states: Seq<ThrottleState>,
    calls: Seq<(Seq<char>, u64)>,
    source: Seq<char>,
) -> nat
    decreases calls.len(),
{
    if calls.len() == 0 {
        0
    } else {
        let later = grants_of(states.drop_first(), calls.drop_first(), source);
        if calls[0].0 == source && states[0].grants(source, calls[0].1) {
            1 + later
        } else {
            later
        }
    }
}

/// What a source is granted over a run of calls rests on its own calls alone, as long as
/// it stays tracked: on the bucket that answers for it at the start, and on the times at
/// which it asks. It is tracked from the start, or the first call is its own.
pub proof fn sources_are_granted_by_their_own_calls(
    states: Seq<ThrottleState>,
    calls: Seq<(Seq<char>, u64)>,
    source: Seq<char>,
)
    requires
        goes_through(states, calls),
        calls.len() > 0,
        states[0].buckets.contains_key(source) || calls[0].0 == source,
        forall|k: int|
            0 < k < states.len() ==> (#[trigger] states[k]).buckets.contains_key(source),
    ensures
        grants_of(states, calls, source) == granted(
            states[0].bucket_of(source, calls[0].1),
            times_of(calls, source),
        ),
    decreases calls.len(),
{
    let later = calls.drop_first();
    let next = states.drop_first();
    let times = times_of(calls, source);
    let rest = times_of(later, source);
    assert(states[0].moves_to(calls[0].0, calls[0].1, states[1].buckets));
    assert(states[1].buckets.contains_key(source));
    if calls[0].0 == source {
        assert(times.drop_first() =~= rest);
        assert(states[1].buckets[source].bucket == states[0].bucket_of(
            source,
            calls[0].1,
        ).acquired(calls[0].1));
    } else {
        sources_are_independent(states[0], calls[0].0, calls[0].1, states[1].buckets, source);
    }
    if later.len() > 0 {
        assert forall|k: int| 0 <= k < later.len() implies (#[trigger] next[k]).moves_to(
            later[k].0,
            later[k].1,
            next[k + 1].buckets,
        ) by {
            assert(states[k + 1].moves_to(calls[k + 1].0, calls[k + 1].1, states[k + 2].buckets));
        }
        assert forall|k: int| 0 < k < next.len() implies (#[trigger] next[k]).buckets.contains_key(
            source,
        ) by {
            assert(states[k + 1].buckets.contains_key(source));
        }
        sources_are_granted_by_their_own_calls(next, later, source);
        assert(next[0] == states[1]);
    }
    let kept = states[1].buckets[source].bucket;
    assert(grants_of(next, later, source) == granted(kept, rest));
    if calls[0].0 == source {
        assert(times[0] == calls[0].1);
    }
}

/// A source that stays tracked passes no more messages than its bucket holds at the start
/// and gains until `end`, whatever the other sources do.
pub proof fn sources_are_limited(
    states: Seq<ThrottleState>,
    calls: Seq<(Seq<char>, u64)>,
    source: Seq<char>,
    end: u64,
)
    requires
        goes_through(states, calls),
        calls.len() > 0,
        states[0].buckets.contains_key(source) || calls[0].0 == source,
        states[0].well_formed(),
        forall|k: int|
            0 < k < states.len() ==> (#[trigger] states[k]).buckets.contains_key(source),
        forall|i: int, j: int|
            0 <= i <= j < calls.len() ==> (#[trigger] calls[i]).1 <= (#[trigger] calls[j]).1,
        forall|i: int| 0 <= i < calls.len() ==> (#[trigger] calls[i]).1 <= end,
    ensures
        ({
            let bucket = states[0].bucket_of(source, calls[0].1);
            grants_of(states, calls, source) * TOKEN <= bucket.tokens + bucket.intervals(end)
                * TOKEN
        }),
{
    let bucket = states[0].bucket_of(source, calls[0].1);
    intervals_take_time(states[0].rate);
    sources_are_granted_by_their_own_calls(states, calls, source);
    times_stay_in_order(calls, source);
    let times = times_of(calls, source);
    assert forall|i: int| 0 <= i < times.len() implies #[trigger] times[i] <= end by {
        let k = choose|k: int| 0 <= k < calls.len() && (#[trigger] calls[k]).1 == times[i];
        assert(calls[k].1 <= end);
    }
    rate_is_limited(bucket, times, end);
}

/// The times at which a source asks come in the order of the calls.
proof fn times_stay_in_order(calls: Seq<(Seq<char>, u64)>, source: Seq<char>)
    requires
        forall|i: int, j: int|
            0 <= i <= j < calls.len() ==> (#[trigger] calls[i]).1 <= (#[trigger] calls[j]).1,
    ensures
        forall|i: int, j: int|
            0 <= i <= j < times_of(calls, source).len() ==> #[trigger] times_of(calls, source)[i]
                <= #[trigger] times_of(calls, source)[j],
        forall|i: int|
            0 <= i < times_of(calls, source).len() ==> exists|k: int|
                0 <= k < calls.len() && (#[trigger] calls[k]).1 == #[trigger] times_of(
                    calls,
                    source,
                )[i],
    decreases calls.len(),
{
    if calls.len() > 0 {
        let later = calls.drop_first();
        let rest = times_of(later, source);
        let times = times_of(calls, source);
        let own: int = if calls[0].0 == source {
            1
        } else {
            0
        };
        assert forall|i: int, j: int| 0 <= i <= j < later.len() implies (#[trigger] later[i]).1
            <= (#[trigger] later[j]).1 by {
            assert(calls[i + 1].1 <= calls[j + 1].1);
        }
        times_stay_in_order(later, source);
        assert forall|i: int| 0 <= i < times.len() implies exists|k: int|
            0 <= k < calls.len() && (#[trigger] calls[k]).1 == #[trigger] times[i] by {
            if i < own {
                assert(calls[0].1 == times[i]);
            } else {
                assert(times[i] == rest[i - own]);
                let k = choose|k: int|
                    0 <= k < later.len() && (#[trigger] later[k]).1 == rest[i - own];
                assert(calls[k + 1].1 == times[i]);
            }
        }
        assert forall|i: int, j: int| 0 <= i <= j < times.len() implies #[trigger] times[i]
            <= #[trigger] times[j] by {
            if i < own {
                let k = choose|k: int| 0 <= k < calls.len() && (#[trigger] calls[k]).1 == times[j];
                assert(calls[0].1 <= calls[k].1);
            } else {
                assert(times[i] == rest[i - own] && times[j] == rest[j - own]);
            }
        }
    }
}

} // verus!
