//! The throttle.

use bytes::Bytes;
use polku_gateway::message::Message;
use polku_gateway::middleware::throttle::TokenBucket;
use polku_gateway::middleware::{Middleware, Throttle};
use std::time::{Duration, Instant};

fn message(source: &str) -> Message {
    Message::new(source, "evt", Bytes::new())
}

fn wait(millis: u64) {
    let start = Instant::now();
    while start.elapsed() < Duration::from_millis(millis) {}
}

#[test]
fn test_throttle_allows_within_limit() {
    let mut throttle = Throttle::new(100, 10);

    let result = throttle.process(message("source-a"));
    assert!(result.is_some());
    assert_eq!(throttle.name(), "throttle");
}

#[test]
fn test_throttle_blocks_over_burst() {
    let mut throttle = Throttle::new(100, 2); // 100/s, burst 2

    // Consume burst for source-a
    for _ in 0..2 {
        assert!(throttle.process(message("source-a")).is_some());
    }

    // Third from source-a should be blocked
    assert!(throttle.process(message("source-a")).is_none());
}

#[test]
fn test_throttle_independent_per_source() {
    let mut throttle = Throttle::new(100, 2); // 100/s, burst 2

    // Exhaust source-a
    for _ in 0..2 {
        assert!(throttle.process(message("source-a")).is_some());
    }
    assert!(throttle.process(message("source-a")).is_none());

    // source-b should still work (separate bucket)
    assert!(throttle.process(message("source-b")).is_some());

    // Verify we have 2 sources tracked
    assert_eq!(throttle.source_count(), 2);
}

#[test]
fn test_throttle_refills() {
    let mut throttle = Throttle::new(1000, 1); // 1000/s, burst 1

    // Consume the burst
    assert!(throttle.process(message("source-a")).is_some());

    // Immediately blocked
    assert!(throttle.process(message("source-a")).is_none());

    // Wait for refill
    wait(2);

    // Should be allowed again
    assert!(throttle.process(message("source-a")).is_some());
}

#[test]
fn test_throttle_concurrent_sources() {
    let mut throttle = Throttle::new(100, 5);

    // 10 sources, each of which should pass exactly 5 (their burst)
    for i in 0..10 {
        let source = format!("source-{}", i);
        let passed = (0..10)
            .filter(|_| throttle.get_or_create_bucket(&source, 1000))
            .count();
        assert_eq!(passed, 5, "source-{} passed {} instead of 5", i, passed);
    }

    // All 10 sources should be tracked
    assert_eq!(throttle.source_count(), 10);
}

#[test]
fn test_throttle_lru_eviction() {
    // max_sources = 3, so 4th source should trigger eviction
    let mut throttle = Throttle::new(100, 10).max_sources(3);

    // Add 3 sources
    for i in 0..3 {
        throttle.process(message(&format!("source-{}", i)));
    }
    assert_eq!(throttle.source_count(), 3);

    // Wait a bit, then access source-1 and source-2 to update their LRU time
    wait(1);
    throttle.process(message("source-1"));
    throttle.process(message("source-2"));

    // Add a 4th source - should evict source-0 (least recently used)
    throttle.process(message("source-3"));

    // Still only 3 sources (one was evicted)
    assert_eq!(throttle.source_count(), 3);

    // source-0 should have been evicted, source-1, source-2, source-3 remain
    // Adding source-0 again creates a new bucket
    throttle.process(message("source-0"));

    // Now we have 3 again (evicted another LRU)
    assert_eq!(throttle.source_count(), 3);
}

#[test]
fn test_throttle_max_sources_builder() {
    let throttle = Throttle::new(100, 10).max_sources(500);
    assert_eq!(throttle.max_sources_limit(), 500);
}

#[test]
fn default_limit_on_sources() {
    assert_eq!(Throttle::new(1, 1).max_sources_limit(), 10_000);
}

#[test]
fn the_least_recent_source_is_evicted() {
    let mut throttle = Throttle::new(0, 1).max_sources(2);
    assert!(throttle.get_or_create_bucket("a", 10));
    assert!(throttle.get_or_create_bucket("b", 20));
    // Using "a" again makes "b" the least recent.
    assert!(!throttle.get_or_create_bucket("a", 30));
    assert!(throttle.get_or_create_bucket("c", 40));
    assert_eq!(throttle.source_count(), 2);
    // "a" kept its empty bucket.
    assert!(!throttle.get_or_create_bucket("a", 50));
    // "b" was evicted and gets a full one.
    assert!(throttle.get_or_create_bucket("b", 60));
}

#[test]
fn a_limit_of_zero_sources_tracks_one() {
    let mut throttle = Throttle::new(0, 1).max_sources(0);
    assert!(throttle.get_or_create_bucket("a", 1));
    assert!(throttle.get_or_create_bucket("b", 2));
    assert!(throttle.get_or_create_bucket("a", 3));
    assert_eq!(throttle.source_count(), 1);
}

#[test]
fn tokens_come_one_per_interval() {
    // 10 per second: a token every 100 ms.
    let mut bucket = TokenBucket::new(10, 2, 0);
    assert_eq!(bucket.capacity, 2000);
    assert_eq!(bucket.refill_nanos, 100_000_000);
    assert!(bucket.try_acquire(0));
    assert!(bucket.try_acquire(0));
    assert!(!bucket.try_acquire(99_999_999));
    assert!(bucket.try_acquire(100_000_000));
    assert!(!bucket.try_acquire(150_000_000));
    assert_eq!(bucket.last_refill, 100_000_000);
    bucket.refill(1_000_000_000);
    assert_eq!(bucket.tokens, 2000);
    assert_eq!(bucket.last_refill, 1_000_000_000);
}

#[test]
fn refills_add_up() {
    let mut once = TokenBucket::new(3, 100, 5);
    once.tokens = 0;
    let mut twice = once;
    once.refill(10_000_000_000);
    twice.refill(4_100_000_000);
    twice.refill(10_000_000_000);
    assert_eq!(once.tokens, twice.tokens);
    assert_eq!(once.last_refill, twice.last_refill);
}

#[test]
fn a_clock_that_goes_back_changes_nothing() {
    let mut bucket = TokenBucket::new(1000, 1, 1_000_000);
    assert!(bucket.try_acquire(1_000_000));
    assert!(!bucket.try_acquire(0));
    assert_eq!(bucket.last_refill, 1_000_000);
}

#[test]
fn rate_zero_never_refills() {
    let mut bucket = TokenBucket::new(0, 1, 0);
    assert_eq!(bucket.refill_nanos, u64::MAX);
    assert!(bucket.try_acquire(0));
    assert!(!bucket.try_acquire(u64::MAX - 1));
}

#[test]
fn large_numbers_saturate() {
    let mut bucket = TokenBucket::new(1_000_000_000, u64::MAX, 0);
    assert_eq!(bucket.capacity, u64::MAX);
    bucket.tokens = 0;
    bucket.refill(u64::MAX);
    assert_eq!(bucket.tokens, u64::MAX);
}

#[test]
fn any_rate_is_taken() {
    let mut bucket = TokenBucket::new(u64::MAX, 1, 0);
    assert_eq!(bucket.refill_nanos, 1);
    assert!(bucket.try_acquire(0));
    assert!(!bucket.try_acquire(0));
    assert!(bucket.try_acquire(1));
    assert_eq!(TokenBucket::new(1_000_000_000, 1, 0).refill_nanos, 1);
    assert_eq!(TokenBucket::new(999_999_999, 1, 0).refill_nanos, 1);
    assert_eq!(TokenBucket::new(500_000_000, 1, 0).refill_nanos, 2);
    assert!(Throttle::new(1_000_000_001, 1).process(message("a")).is_some());
}

#[test]
fn sources_are_granted_by_their_own_calls() {
    // 10 per second: a token every 100 ms.
    let mut throttle = Throttle::new(10, 2);
    let mut alone = TokenBucket::new(10, 2, 5);
    for step in 0..40u64 {
        let now = 5 + step * 17_000_000;
        if step % 3 == 0 {
            assert_eq!(throttle.get_or_create_bucket("a", now), alone.try_acquire(now));
        } else {
            throttle.get_or_create_bucket("b", now);
        }
    }
}

#[test]
fn sources_are_limited() {
    let mut throttle = Throttle::new(10, 2);
    let mut granted: u64 = 0;
    let end: u64 = 1_000_000_000;
    for step in 0..=100u64 {
        if throttle.get_or_create_bucket("a", step * 10_000_000) {
            granted += 1;
        }
        throttle.get_or_create_bucket("b", step * 10_000_000);
    }
    assert_eq!(granted, 2 + end / 100_000_000);
}

#[test]
fn the_clock_runs_from_the_start() {
    let mut throttle = Throttle::new(100, 1);
    assert!(throttle.process(message("a")).is_some());
    assert!(throttle.process(message("a")).is_none());
    wait(30);
    assert!(throttle.process(message("a")).is_some());
}
