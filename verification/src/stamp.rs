//! Identifiers and timestamps of new messages, and the monotonic clock.

use vstd::prelude::*;

verus! {

/// The letters and digits of Crockford's base 32.
pub open spec fn crockford_char(c: char) -> bool {
    ||| '0' <= c <= '9'
    ||| 'A' <= c <= 'Z' && c != 'I' && c != 'L' && c != 'O' && c != 'U'
}

/// The form of an identifier: 26 characters of Crockford's base 32.
pub open spec fn is_ulid(s: Seq<char>) -> bool {
    &&& s.len() == 26
    &&& forall|i: int| 0 <= i < s.len() ==> crockford_char(#[trigger] s[i])
}

/// Calls `ulid::Ulid::new` and writes the identifier out with `Ulid::to_string`.
/// Which identifier it is rests on the time and on chance; its form is fixed.
#[verifier::external_body]
fn ulid_text() -> (r: String)
    ensures
        is_ulid(r@),
{
    ulid::Ulid::new().to_string()
}

/// The identifier of a new message.
pub fn new_id() -> (r: String)
    ensures
        is_ulid(r@),
{
    ulid_text()
}

/// Calls `chrono::Utc::now` and `DateTime::timestamp_nanos_opt`: the nanoseconds
/// since the Unix epoch, unless they do not fit. Outside of browsers a clock set before
/// the epoch makes `Utc::now` panic, so a timestamp is never negative.
#[verifier::external_body]
pub(crate) fn unix_nanos() -> (r: Option<i64>)
    ensures
        r matches Some(t) ==> t >= 0,
{
    chrono::Utc::now().timestamp_nanos_opt()
}

/// The timestamp that a reading of the clock gives: zero where the time does not fit.
pub fn timestamp_of(reading: Option<i64>) -> (r: i64)
    ensures
        r == match reading {
            Some(t) => t,
            None => 0,
        },
{
    match reading {
        Some(t) => t,
        None => 0,
    }
}

/// The timestamp of a new message.
pub fn new_timestamp() -> (r: i64)
    ensures
        r >= 0,
{
    timestamp_of(unix_nanos())
}

/// An identifier and a time that a new message may get: what [`new_id`] and
/// [`new_timestamp`] gave.
pub open spec fn is_fresh(id: Seq<char>, timestamp: i64) -> bool {
    &&& is_ulid(id)
    &&& timestamp >= 0
    &&& exists|text: String| #[trigger] call_ensures(new_id, (), text) && text@ == id
    &&& call_ensures(new_timestamp, (), timestamp)
}

/// Declares `std::time::Instant`, a reading of the monotonic clock.
#[verifier::external_type_specification]
#[verifier::external_body]
pub struct ExInstant(std::time::Instant);

/// `Instant::now` reads the monotonic clock; nothing is said of the reading.
pub assume_specification[ std::time::Instant::now ]() -> std::time::Instant;

/// `Instant::elapsed` tells the time that has gone by; nothing is said of it.
pub assume_specification[ std::time::Instant::elapsed ](
    start: &std::time::Instant,
) -> std::time::Duration;

/// The nanoseconds of a span of time, as `Duration::as_nanos` tells them.
pub uninterp spec fn span_nanos(span: std::time::Duration) -> u128;

/// `Duration::as_nanos` tells the nanoseconds of a span, named [`span_nanos`]. They rest
/// on the span alone.
pub assume_specification[ std::time::Duration::as_nanos ](span: &std::time::Duration) -> (r: u128)
    ensures
        r == span_nanos(*span),
;

/// A number of nanoseconds, cut to 64 bits.
pub open spec fn low_nanos(nanos: u128) -> u64 {
    nanos as u64
}

/// The whole seconds in a number of nanoseconds, as a signed number of 64 bits.
pub open spec fn whole_seconds(nanos: u128) -> i64 {
    (nanos / 1_000_000_000) as i64
}

/// Cuts a number of nanoseconds to 64 bits.
pub fn nanos_to_u64(nanos: u128) -> (r: u64)
    ensures
        r == low_nanos(nanos),
{
    #[verifier::truncate]
    (nanos as u64)
}

/// The whole seconds in a number of nanoseconds.
pub fn nanos_to_seconds(nanos: u128) -> (r: i64)
    ensures
        r == whole_seconds(nanos),
{
    #[verifier::truncate]
    ((nanos / 1_000_000_000) as i64)
}

/// `span` is a time that `Instant::elapsed` may tell of `start`.
pub open spec fn may_elapse(start: std::time::Instant, span: std::time::Duration) -> bool {
    call_ensures(std::time::Instant::elapsed, (&start,), span)
}

/// The nanoseconds since `start`, cut to 64 bits: those of the span that has gone by
/// since then, whatever it is.
pub(crate) fn nanos_since(start: &std::time::Instant) -> (r: u64)
    ensures
        exists|span: std::time::Duration| #[trigger]
            may_elapse(*start, span) && r == low_nanos(span_nanos(span)),
{
    let span = start.elapsed();
    assert(may_elapse(*start, span));
    nanos_to_u64(span.as_nanos())
}

/// The whole seconds since `start`: those of the span that has gone by since then,
/// whatever it is.
pub(crate) fn seconds_since(start: &std::time::Instant) -> (r: i64)
    ensures
        exists|span: std::time::Duration| #[trigger]
            may_elapse(*start, span) && r == whole_seconds(span_nanos(span)),
{
    let span = start.elapsed();
    assert(may_elapse(*start, span));
    nanos_to_seconds(span.as_nanos())
}

} // verus!
