use std::time::Duration;

use vstd::prelude::*;

verus! {

/// The length of `d` in nanoseconds: what `Duration::as_nanos` returns.
pub uninterp spec fn duration_nanos(d: Duration) -> u128;

/// Calls `Duration::as_nanos`.
#[verifier::external_body]
pub fn as_nanos(d: Duration) -> (n: u128)
    ensures
        n == duration_nanos(d),
{
    d.as_nanos()
}

/// The duration that `Duration::from_millis(ms)` returns.
pub uninterp spec fn millis_duration(ms: u64) -> Duration;

/// Calls `Duration::from_millis`: a duration of `ms` milliseconds.
#[verifier::external_body]
pub fn duration_from_millis(ms: u64) -> (d: Duration)
    ensures
        d == millis_duration(ms),
        duration_nanos(d) == ms * 1_000_000,
{
    Duration::from_millis(ms)
}

/// Calls `Duration::saturating_sub`: `a - b`, or zero when `b` is longer.
#[verifier::external_body]
pub fn saturating_sub(a: Duration, b: Duration) -> (r: Duration)
    ensures
        duration_nanos(r) == (if duration_nanos(a) >= duration_nanos(b) {
            duration_nanos(a) - duration_nanos(b)
        } else {
            0
        }),
{
    a.saturating_sub(b)
}

/// Compares `d > Duration::ZERO` (`PartialOrd::gt`).
#[verifier::external_body]
pub fn is_positive(d: Duration) -> (b: bool)
    ensures
        b == (duration_nanos(d) > 0),
{
    d > Duration::ZERO
}

} // verus!

verus! {

/// `Duration` is `Copy`: a clone is the same value.
pub assume_specification[ <std::time::Duration as Clone>::clone ](d: &Duration) -> (r: Duration)
    ensures
        r == *d,
;

} // verus!
