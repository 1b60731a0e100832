//! Laws of the throttle and its token buckets.

use crate::message::Message;
use crate::middleware::throttle::{Throttle, ThrottleState, TokenBucket, TrackedBucket};
use crate::middleware::throttle;
use crate::middleware::Middleware;
use crate::stamp;
use std::time::Duration;
use vstd::prelude::*;

verus! {

/// The rate of a new bucket is honoured from both sides: up to a token per nanosecond,
/// `rate` intervals fit in a second, and with one nanosecond more each they would not. The
/// bucket is full, and holds a burst of tokens, as far as they can be counted.
pub proof fn new_buckets_honour_rate_and_burst(
    rate: u64,
    burst: u64,
    now: u64,
    bucket: TokenBucket,
)
    requires
        call_ensures(TokenBucket::new, (rate, burst, now), bucket),
    ensures
        0 < rate <= 1_000_000_000 ==> bucket.refill_nanos * rate <= 1_000_000_000 < (
        bucket.refill_nanos + 1) * rate,
        rate > 1_000_000_000 ==> bucket.refill_nanos == 1,
        rate == 0 ==> bucket.refill_nanos == u64::MAX,
        burst * 1000 <= u64::MAX ==> bucket.capacity == burst * 1000,
        burst * 1000 > u64::MAX ==> bucket.capacity == u64::MAX,
        bucket.tokens == bucket.capacity,
        bucket.last_refill == now,
{
    if 0 < rate <= 1_000_000_000 {
        let second: int = 1_000_000_000;
        let r = rate as int;
        vstd::arithmetic::div_mod::lemma_fundamental_div_mod(second, r);
        let q = second / r;
        assert(q * r == r * q && (q + 1) * r == r * q + r) by (nonlinear_arith);
    }
}

/// What taking a token does to a bucket, in terms of whole intervals: a thousand parts are
/// added for each one that has gone by since the last refill, up to the capacity, and a
/// message passes and costs a thousand exactly when there are as many.
pub open spec fn takes_a_token(
    before: TokenBucket,
    now: u64,
    passed: bool,
    after: TokenBucket,
    intervals: nat,
) -> bool {
    let gained = before.tokens + 1000 * intervals;
    let held: int = if gained < before.capacity {
        gained
    } else {
        before.capacity as int
    };
    &&& after.capacity == before.capacity
    &&& after.refill_nanos == before.refill_nanos
    &&& after.last_refill == before.last_refill + intervals * before.refill_nanos
    &&& now <= before.last_refill ==> intervals == 0
    &&& now > before.last_refill ==> after.last_refill <= now < after.last_refill
        + before.refill_nanos
    &&& passed <==> held >= 1000
    &&& after.tokens == if passed {
        held - 1000
    } else {
        held
    }
}

/// Tokens come with time and go with messages, and in no other way.
pub proof fn tokens_are_accounted_for(bucket: &mut TokenBucket, now: u64, passed: bool)
    requires
        old(bucket).tokens <= old(bucket).capacity,
        old(bucket).refill_nanos > 0,
        call_ensures(TokenBucket::try_acquire, (bucket, now), passed),
    ensures
        exists|intervals: nat| #[trigger]
            takes_a_token(*old(bucket), now, passed, *final(bucket), intervals),
{
    let before = *old(bucket);
    let interval = before.refill_nanos as int;
    if now > before.last_refill {
        let elapsed = now - before.last_refill;
        vstd::arithmetic::div_mod::lemma_fundamental_div_mod(elapsed, interval);
        let k = elapsed / interval;
        vstd::arithmetic::div_mod::lemma_div_pos_is_pos(elapsed, interval);
        assert(interval * k == k * interval) by (nonlinear_arith);
        assert(takes_a_token(before, now, passed, *final(bucket), k as nat));
    } else {
        assert(0 * interval == 0);
        assert(takes_a_token(before, now, passed, *final(bucket), 0));
    }
}

/// Refilling adds the tokens that taking one would have found.
pub proof fn refilling_only_adds(
    refilled: &mut TokenBucket,
    asked: &mut TokenBucket,
    now: u64,
    passed: bool,
)
    requires
        old(refilled).tokens <= old(refilled).capacity,
        old(refilled).refill_nanos > 0,
        *old(asked) == *old(refilled),
        call_ensures(TokenBucket::refill, (refilled, now), ()),
        call_ensures(TokenBucket::try_acquire, (asked, now), passed),
    ensures
        passed <==> final(refilled).tokens >= 1000,
        final(asked).tokens == if passed {
            final(refilled).tokens - 1000
        } else {
            final(refilled).tokens as int
        },
        final(asked).last_refill == final(refilled).last_refill,
        final(refilled).tokens >= old(refilled).tokens,
{
}

/// A source that asks no sooner than an interval after it asked before is granted what it
/// asks for, every time.
pub proof fn patient_requests_are_granted(
    first: &mut TokenBucket,
    now: u64,
    passed: bool,
    second: &mut TokenBucket,
    later: u64,
    passed_again: bool,
)
    requires
        old(first).tokens <= old(first).capacity,
        old(first).capacity >= 1000,
        old(first).refill_nanos > 0,
        old(first).last_refill <= now,
        call_ensures(TokenBucket::try_acquire, (first, now), passed),
        *old(second) == *final(first),
        call_ensures(TokenBucket::try_acquire, (second, later), passed_again),
        later >= now + old(first).refill_nanos,
    ensures
        passed_again,
        final(second).tokens <= final(second).capacity,
        final(second).capacity == old(first).capacity,
        final(second).refill_nanos == old(first).refill_nanos,
        final(second).last_refill <= later,
{
    tokens_are_accounted_for(first, now, passed);
    let i = choose|i: nat| #[trigger] takes_a_token(*old(first), now, passed, *final(first), i);
    let interval = old(first).refill_nanos as int;
    assert(0 * interval == 0);
    tokens_are_accounted_for(second, later, passed_again);
    let k = choose|k: nat| #[trigger]
        takes_a_token(*old(second), later, passed_again, *final(second), k);
}

/// A new source that asks `rate` times per second, evenly, is granted every time: the
/// interval of its bucket is no longer than the time between two requests.
pub proof fn the_promised_rate_is_granted(
    rate: u64,
    burst: u64,
    start: u64,
    fresh: TokenBucket,
    first: &mut TokenBucket,
    passed: bool,
    second: &mut TokenBucket,
    later: u64,
    passed_again: bool,
)
    requires
        0 < rate <= 1_000_000_000,
        burst > 0,
        call_ensures(TokenBucket::new, (rate, burst, start), fresh),
        *old(first) == fresh,
        call_ensures(TokenBucket::try_acquire, (first, start), passed),
        *old(second) == *final(first),
        call_ensures(TokenBucket::try_acquire, (second, later), passed_again),
        (later - start) * rate >= 1_000_000_000,
    ensures
        passed,
        passed_again,
{
    new_buckets_honour_rate_and_burst(rate, burst, start, fresh);
    let interval = fresh.refill_nanos as int;
    let r = rate as int;
    assert(interval > 0) by (nonlinear_arith)
        requires
            1_000_000_000 < (interval + 1) * r,
            r <= 1_000_000_000,
            interval >= 0,
    ;
    let gap = later - start;
    assert(gap >= interval) by (nonlinear_arith)
        requires
            gap * r >= 1_000_000_000,
            interval * r <= 1_000_000_000,
            r > 0,
    ;
    tokens_are_accounted_for(first, start, passed);
    patient_requests_are_granted(first, start, passed, second, later, passed_again);
}

/// The throttle answers for a source that it tracks as the bucket of that source would, and
/// for another one as a new bucket would. It keeps that bucket and notes the time.
pub proof fn sources_have_their_own_buckets(
    throttle: &mut Throttle,
    source: &str,
    now: u64,
    passed: bool,
    fresh: TokenBucket,
    bucket: &mut TokenBucket,
    granted: bool,
)
    requires
        call_ensures(Throttle::get_or_create_bucket, (throttle, source, now), passed),
        call_ensures(
            TokenBucket::new,
            (old(throttle)@.rate, old(throttle)@.burst, now),
            fresh,
        ),
        *old(bucket) == if old(throttle)@.buckets.contains_key(source@) {
            old(throttle)@.buckets[source@].bucket
        } else {
            fresh
        },
        old(bucket).tokens <= old(bucket).capacity,
        old(bucket).refill_nanos > 0,
        call_ensures(TokenBucket::try_acquire, (bucket, now), granted),
    ensures
        passed == granted,
        final(throttle)@.buckets.contains_key(source@),
        final(throttle)@.buckets[source@] == (TrackedBucket {
            bucket: *final(bucket),
            last_access: now,
        }),
        final(throttle)@.rate == old(throttle)@.rate,
        final(throttle)@.burst == old(throttle)@.burst,
        final(throttle)@.max_sources == old(throttle)@.max_sources,
        final(throttle)@.start == old(throttle)@.start,
{
}

/// No more than one source is forgotten at a time, only to make room for a new one, and
/// none that was used after another that stays. The others keep their buckets.
pub proof fn only_the_least_recent_source_goes(
    throttle: &mut Throttle,
    source: &str,
    now: u64,
    passed: bool,
    gone: Seq<char>,
    other: Seq<char>,
)
    requires
        call_ensures(Throttle::get_or_create_bucket, (throttle, source, now), passed),
        other != source@,
        old(throttle)@.buckets.contains_key(other),
        old(throttle)@.buckets.dom().finite(),
    ensures
        final(throttle)@.buckets.contains_key(other) ==> final(throttle)@.buckets[other]
            == old(throttle)@.buckets[other],
        !final(throttle)@.buckets.contains_key(other) ==> {
            &&& !old(throttle)@.buckets.contains_key(source@)
            &&& old(throttle)@.buckets.len() >= old(throttle)@.max_sources
            &&& forall|third: Seq<char>| #[trigger]
                old(throttle)@.buckets.contains_key(third)
                    ==> old(throttle)@.buckets[other].last_access
                    <= old(throttle)@.buckets[third].last_access
            &&& old(throttle)@.buckets.contains_key(gone) && gone != other
                ==> final(throttle)@.buckets.contains_key(gone)
        },
        final(throttle)@.buckets.contains_key(gone) ==> gone == source@
            || old(throttle)@.buckets.contains_key(gone),
{
}

/// The number of sources goes up by one for a new source below the limit, and stays otherwise.
pub proof fn sources_are_counted(
    throttle: &mut Throttle,
    source: &str,
    now: u64,
    passed: bool,
    before: usize,
    after: usize,
)
    requires
        old(throttle)@.buckets.dom().finite(),
        old(throttle)@.buckets.len() > 0,
        call_ensures(Throttle::source_count, (old(throttle),), before),
        call_ensures(Throttle::get_or_create_bucket, (throttle, source, now), passed),
        call_ensures(Throttle::source_count, (final(throttle),), after),
    ensures
        !old(throttle)@.buckets.contains_key(source@) && before < old(throttle)@.max_sources
            ==> after == before + 1,
        old(throttle)@.buckets.contains_key(source@) ==> after == before,
        before >= old(throttle)@.max_sources ==> after == before,
{
}

/// A throttle is made with what it is given, tracks ten thousand sources unless told
/// otherwise, and none at first.
pub proof fn throttles_are_made_as_asked(
    rate: u64,
    burst: u64,
    throttle: Throttle,
    max: usize,
    limited: Throttle,
    told: usize,
    count: usize,
)
    requires
        call_ensures(Throttle::new, (rate, burst), throttle),
        call_ensures(Throttle::max_sources, (throttle, max), limited),
        call_ensures(Throttle::max_sources_limit, (&limited,), told),
        call_ensures(Throttle::source_count, (&limited,), count),
    ensures
        throttle@.rate == rate,
        throttle@.burst == burst,
        throttle@.max_sources == 10_000,
        limited@.rate == rate,
        limited@.burst == burst,
        limited@.max_sources == max,
        limited@.start == throttle@.start,
        told == max,
        count == 0,
        limited@.buckets == Map::<Seq<char>, TrackedBucket>::empty(),
{
}

/// The bucket that a source asks: its own, or else a new one.
pub open spec fn asked_bucket(
    state: ThrottleState,
    source: Seq<char>,
    fresh: TokenBucket,
) -> TokenBucket {
    if state.buckets.contains_key(source) {
        state.buckets[source].bucket
    } else {
        fresh
    }
}

/// A message that is processed asks the bucket of its source for a token, at the time that
/// has gone by since the throttle was made. It passes as it is exactly when there is one.
pub proof fn processed_messages_take_tokens(
    throttle: &mut Throttle,
    msg: Message,
    out: Option<Message>,
    fresh: spec_fn(u64) -> TokenBucket,
)
    requires
        call_ensures(<Throttle as Middleware>::process, (throttle, msg), out),
        forall|now: u64|
            call_ensures(
                TokenBucket::new,
                (old(throttle)@.rate, old(throttle)@.burst, now),
                #[trigger] fresh(now),
            ),
        forall|source: Seq<char>| #[trigger]
            old(throttle)@.buckets.contains_key(source) ==> {
                let bucket = old(throttle)@.buckets[source].bucket;
                bucket.tokens <= bucket.capacity && bucket.refill_nanos > 0
            },
    ensures
        out is None || out == Some(msg),
        final(throttle)@.buckets.contains_key(msg.source@),
        final(throttle)@.start == old(throttle)@.start,
        final(throttle)@.rate == old(throttle)@.rate,
        final(throttle)@.burst == old(throttle)@.burst,
        final(throttle)@.max_sources == old(throttle)@.max_sources,
        exists|span: Duration, now: u64, intervals: nat|
            {
                &&& #[trigger] stamp::may_elapse(old(throttle)@.start, span)
                &&& stamp::span_nanos(span) <= u64::MAX ==> now == stamp::span_nanos(span)
                &&& final(throttle)@.buckets[msg.source@].last_access == now
                &&& #[trigger] takes_a_token(
                    asked_bucket(old(throttle)@, msg.source@, fresh(now)),
                    now,
                    out is Some,
                    final(throttle)@.buckets[msg.source@].bucket,
                    intervals,
                )
            },
{
    let before = old(throttle)@;
    let after = final(throttle)@;
    let span = choose|span: Duration|
        {
            let now = stamp::low_nanos(stamp::span_nanos(span));
            &&& #[trigger] stamp::may_elapse(before.start, span)
            &&& out == if before.grants(msg.source@, now) {
                Some(msg)
            } else {
                None
            }
            &&& before.moves_to(msg.source@, now, after.buckets)
        };
    let now = stamp::low_nanos(stamp::span_nanos(span));
    let bucket = asked_bucket(before, msg.source@, fresh(now));
    new_buckets_honour_rate_and_burst(before.rate, before.burst, now, fresh(now));
    throttle::intervals_take_time(before.rate);
    let interval = bucket.refill_nanos as int;
    let next = after.buckets[msg.source@].bucket;
    if now > bucket.last_refill {
        let elapsed = now - bucket.last_refill;
        vstd::arithmetic::div_mod::lemma_fundamental_div_mod(elapsed, interval);
        let k = elapsed / interval;
        vstd::arithmetic::div_mod::lemma_div_pos_is_pos(elapsed, interval);
        assert(interval * k == k * interval) by (nonlinear_arith);
        assert(takes_a_token(bucket, now, out is Some, next, k as nat));
    } else {
        assert(0 * interval == 0);
        assert(takes_a_token(bucket, now, out is Some, next, 0));
    }
}

/// A source that asks `rate` times per second, evenly, is granted every request, however
/// long it goes on.
pub proof fn a_steady_source_is_never_refused(rate: u64, burst: u64, times: Seq<u64>)
    requires
        0 < rate <= 1_000_000_000,
        burst > 0,
        times.len() > 0,
        forall|i: int|
            0 <= i < times.len() - 1 ==> (times[i + 1] - #[trigger] times[i]) * rate
                >= 1_000_000_000,
    ensures
        throttle::granted(TokenBucket::full(rate, burst, times[0]), times) == times.len(),
{
    let bucket = TokenBucket::full(rate, burst, times[0]);
    let interval = bucket.refill_nanos as int;
    let r = rate as int;
    let second: int = 1_000_000_000;
    vstd::arithmetic::div_mod::lemma_fundamental_div_mod(second, r);
    assert(interval * r == r * interval) by (nonlinear_arith);
    assert forall|i: int| 0 <= i < times.len() - 1 implies times[i + 1] - #[trigger] times[i]
        >= interval by {
        let gap = times[i + 1] - times[i];
        assert(gap >= interval) by (nonlinear_arith)
            requires
                gap * r >= 1_000_000_000,
                interval * r <= 1_000_000_000,
                r > 0,
        ;
    }
    throttle::intervals_take_time(rate);
    assert(0 * interval == 0);
    spaced_requests_are_granted(bucket, times);
}

proof fn spaced_requests_are_granted(bucket: TokenBucket, times: Seq<u64>)
    requires
        bucket.well_formed(),
        bucket.capacity >= 1000,
        times.len() > 0,
        bucket.last_refill <= times[0],
        bucket.grants(times[0]),
        forall|i: int|
            0 <= i < times.len() - 1 ==> times[i + 1] - #[trigger] times[i] >= bucket.refill_nanos,
    ensures
        throttle::granted(bucket, times) == times.len(),
    decreases times.len(),
{
    let now = times[0];
    let rest = times.drop_first();
    let next = bucket.acquired(now);
    let interval = bucket.refill_nanos as int;
    let elapsed = now - bucket.last_refill;
    vstd::arithmetic::div_mod::lemma_fundamental_div_mod(elapsed, interval);
    let k = elapsed / interval;
    assert(interval * k == k * interval) by (nonlinear_arith);
    assert(0 * interval == 0);
    if now == bucket.last_refill {
        vstd::arithmetic::div_mod::lemma_basic_div(0, interval);
    }
    assert(next.last_refill <= now < next.last_refill + interval);
    if rest.len() > 0 {
        let later = rest[0];
        assert(later == times[1]);
        assert(times[0int + 1] - times[0int] >= interval);
        let gap = later - next.last_refill;
        vstd::arithmetic::div_mod::lemma_fundamental_div_mod(gap, interval);
        let m = gap / interval;
        assert(m >= 1) by (nonlinear_arith)
            requires
                gap >= interval,
                interval > 0,
                gap == interval * m + gap % interval,
                gap % interval < interval,
        ;
        assert(next.intervals(later) >= 1);
        assert(next.grants(later));
        assert forall|i: int| 0 <= i < rest.len() - 1 implies rest[i + 1] - #[trigger] rest[i]
            >= next.refill_nanos by {
            assert(times[(i + 1) + 1] - times[i + 1] >= interval);
        }
        spaced_requests_are_granted(next, rest);
    } else {
        assert(throttle::granted(next, rest) == 0);
    }
}

/// A throttle hands on messages as they are, or drops them.
pub proof fn throttled_messages_are_not_changed(
    throttle: &mut Throttle,
    msg: Message,
    out: Option<Message>,
)
    requires
        call_ensures(<Throttle as Middleware>::process, (throttle, msg), out),
    ensures
        out is None || out == Some(msg),
{
}

} // verus!
