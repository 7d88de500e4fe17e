//! Readings of the monotonic clock, as plain nanosecond counts.
use vstd::prelude::*;
use std::time::{Duration, Instant};

verus! {

#[verifier::external_type_specification]
#[verifier::external_body]
pub struct ExInstant(Instant);

/// Calls `std::time::Instant::now`. The instant depends on the clock, so
/// nothing is promised of it.
#[verifier::external_body]
pub(crate) fn instant_now() -> (t: Instant) {
    Instant::now()
}

/// Calls `std::time::Instant::elapsed`. The span depends on the clock, so
/// nothing is promised of it.
#[verifier::external_body]
fn instant_elapsed(origin: &Instant) -> (d: Duration) {
    origin.elapsed()
}

/// Calls `std::time::Duration::as_nanos`. The duration itself is opaque
/// here, so nothing is promised of the count beyond its type.
#[verifier::external_body]
fn duration_as_nanos(d: &Duration) -> (n: u128) {
    d.as_nanos()
}

/// Nanoseconds elapsed on the monotonic clock since `origin`, saturated at `u64::MAX`.
pub fn nanos_since(origin: &Instant) -> (n: u64) {
    let d = instant_elapsed(origin);
    let n = duration_as_nanos(&d);
    if n > 0xffff_ffff_ffff_ffffu128 {
        0xffff_ffff_ffff_ffffu64
    } else {
        n as u64
    }
}

/// The time from `earlier` to `later`, or zero when `earlier` is not before `later`.
pub open spec fn elapsed_between(earlier: u64, later: u64) -> nat {
    if earlier <= later {
        (later - earlier) as nat
    } else {
        0
    }
}

/// The current Unix time in whole seconds: `chrono::Utc::now()` read
/// through `DateTime::timestamp`. It depends on the clock, so nothing is
/// promised of it.
#[verifier::external_body]
pub(crate) fn unix_seconds_now() -> (t: i64) {
    chrono::Utc::now().timestamp()
}

/// The current Unix time in microseconds: `chrono::Utc::now()` read
/// through `DateTime::timestamp_micros`. It depends on the clock, so nothing
/// is promised of it.
#[verifier::external_body]
pub(crate) fn unix_micros_now() -> (t: i64) {
    chrono::Utc::now().timestamp_micros()
}

/// The whole Unix second that a time in Unix microseconds falls in.
pub open spec fn second_of_micros(t: i64) -> int {
    t as int / 1_000_000
}

/// The whole Unix second that `t` (Unix microseconds) falls in, rounding
/// towards the past as `DateTime::timestamp` does.
pub fn seconds_of_micros(t: i64) -> (s: i64)
    ensures
        s == second_of_micros(t),
{
    if t >= 0 {
        ((t as u64) / 1_000_000u64) as i64
    } else {
        let p: i64 = -(t + 1);
        let q: i64 = ((p as u64) / 1_000_000u64) as i64;
        assert(t as int / 1_000_000 == -q - 1) by (nonlinear_arith)
            requires
                p == -(t + 1),
                q == p / 1_000_000,
                t < 0,
        ;
        -q - 1
    }
}

} // verus!
