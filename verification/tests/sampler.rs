//! The sampler.

use bytes::Bytes;
use polku_gateway::message::Message;
use polku_gateway::middleware::{Middleware, Sampler};

fn threshold(rate: f64) -> u64 {
    if rate >= 1.0 {
        u64::MAX
    } else {
        (rate * u64::MAX as f64) as u64
    }
}

fn passed(sampler: &mut Sampler, total: usize) -> usize {
    (0..total)
        .filter(|_| {
            sampler
                .process(Message::new("test", "evt", Bytes::new()))
                .is_some()
        })
        .count()
}

#[test]
fn test_sampler_always_pass() {
    let mut sampler = Sampler::with_threshold(threshold(1.0), 1234567);
    assert_eq!(passed(&mut sampler, 100), 100);
    assert_eq!(sampler.name(), "sampler");
}

#[test]
fn test_sampler_always_drop() {
    let mut sampler = Sampler::with_threshold(threshold(0.0), 1234567);
    assert_eq!(passed(&mut sampler, 100), 0);
}

#[test]
fn test_sampler_rate_approximate() {
    let mut sampler = Sampler::with_threshold(threshold(0.5), 42);
    let total = 10000;
    let passed = passed(&mut sampler, total);

    // Should be roughly 50% (allow 10% variance)
    let ratio = passed as f64 / total as f64;
    assert!(
        (0.40..=0.60).contains(&ratio),
        "expected ~50%, got {:.1}%",
        ratio * 100.0
    );
}

#[test]
fn test_sampler_10_percent() {
    let mut sampler = Sampler::with_threshold(threshold(0.1), 12345);
    let total = 10000;
    let passed = passed(&mut sampler, total);

    // Should be roughly 10% (allow 5% variance)
    let ratio = passed as f64 / total as f64;
    assert!(
        (0.05..=0.15).contains(&ratio),
        "expected ~10%, got {:.1}%",
        ratio * 100.0
    );
}

#[test]
fn generator_follows_xorshift() {
    // The states after the seed 1 are 1082269761, 1152992998833853505, ...
    let mut at = Sampler::with_threshold(1082269761, 0);
    assert!(at.should_sample());
    assert!(!at.should_sample());
    let mut below = Sampler::with_threshold(1082269760, 0);
    assert!(!below.should_sample());
}

#[test]
fn equal_seeds_sample_alike() {
    let mut a = Sampler::with_threshold(threshold(0.3), 7);
    let mut b = Sampler::with_threshold(threshold(0.3), 7);
    for _ in 0..200 {
        assert_eq!(a.should_sample(), b.should_sample());
    }
}
