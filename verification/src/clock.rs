//! Readings of the machine's clocks.

use std::time::{Duration, Instant, SystemTime, SystemTimeError, UNIX_EPOCH};
use vstd::prelude::*;

verus! {

/// A point in time of the monotonic clock.
#[verifier::external_type_specification]
#[verifier::external_body]
pub struct ExInstant(Instant);

/// A point in time of the system clock.
#[verifier::external_type_specification]
#[verifier::external_body]
pub struct ExSystemTime(SystemTime);

/// What the system clock answers where a point in time lies before another.
#[verifier::external_type_specification]
#[verifier::external_body]
pub struct ExSystemTimeError(SystemTimeError);

/// `Instant::now`: the present. Nothing is claimed of it.
pub assume_specification[ std::time::Instant::now ]() -> (now: Instant);

/// `SystemTime::now`: the present. Nothing is claimed of it.
pub assume_specification[ std::time::SystemTime::now ]() -> (now: SystemTime);

/// The span that `Instant::saturating_duration_since` gives from one point in time to another.
pub uninterp spec fn span_between(start: Instant, end: Instant) -> Duration;

/// `Instant::saturating_duration_since`: how long after `earlier` the point `end` lies. The span
/// depends on the two points alone; which span it is, is not stated.
pub assume_specification[ std::time::Instant::saturating_duration_since ](
    end: &Instant,
    earlier: Instant,
) -> (span: Duration)
    ensures
        span == span_between(earlier, *end),
;

/// The span that `SystemTime::duration_since` gives from the start of the Unix epoch to a point in
/// time: none where the point lies before it.
pub uninterp spec fn span_after_epoch(time: SystemTime) -> Option<Duration>;

/// `SystemTime::duration_since`: how long after the start of the Unix epoch `time` lies, or the
/// error for a point that lies before it. Which of them comes, and the span, depend on `time`
/// alone; which span it is, is not stated.
#[verifier::external_body]
pub(crate) fn since_epoch(time: SystemTime) -> (span: Result<Duration, SystemTimeError>)
    ensures
        match span {
            Ok(span) => span_after_epoch(time) == Some(span),
            Err(_) => span_after_epoch(time) is None,
        },
{
    time.duration_since(UNIX_EPOCH)
}

/// How many nanoseconds `Duration::as_nanos` counts in a span.
pub uninterp spec fn nanos_of(span: Duration) -> u128;

/// `Duration::as_nanos`: the nanoseconds in a span.
pub assume_specification[ std::time::Duration::as_nanos ](span: &Duration) -> (nanos: u128)
    ensures
        nanos == nanos_of(*span),
;

/// `Duration::as_millis`: the whole milliseconds in a span.
pub assume_specification[ std::time::Duration::as_millis ](span: &Duration) -> (millis: u128)
    ensures
        millis == nanos_of(*span) / 1_000_000,
;

/// How many nanoseconds after `start` the point `end` lies.
pub open spec fn nanos_between(start: Instant, end: Instant) -> u128 {
    nanos_of(span_between(start, end))
}

/// How many whole milliseconds after the start of the Unix epoch a point in time lies: none where
/// it lies before it.
pub open spec fn millis_after_epoch(time: SystemTime) -> Option<u128> {
    match span_after_epoch(time) {
        Some(span) => Some((nanos_of(span) / 1_000_000) as u128),
        None => None,
    }
}

/// How many nanoseconds after `start` the point `end` lies.
pub fn nanos_from(start: &Instant, end: &Instant) -> (passed: u128)
    ensures
        passed == nanos_between(*start, *end),
        passed == nanos_of(span_between(*start, *end)),
{
    end.saturating_duration_since(*start).as_nanos()
}

/// How many whole milliseconds after the start of the Unix epoch `time` lies, or the error for a
/// point that lies before it.
pub fn millis_since_epoch(time: SystemTime) -> (passed: Result<u128, SystemTimeError>)
    ensures
        match passed {
            Ok(millis) => millis_after_epoch(time) == Some(millis),
            Err(_) => millis_after_epoch(time) is None,
        },
        passed is Ok <==> span_after_epoch(time) is Some,
        passed matches Ok(millis) ==> millis == nanos_of(span_after_epoch(time).unwrap()) / 1_000_000,
{
    match since_epoch(time) {
        Ok(span) => Ok(span.as_millis()),
        Err(error) => Err(error),
    }
}

} // verus!
