//! Time as the node sees it: a monotonic clock read through `std::time`,
//! and spans of whole milliseconds as plain values.

use std::time::Duration;
use std::time::Instant;
use vstd::prelude::*;

verus! {

#[verifier::external_type_specification]
#[verifier::external_body]
pub struct ExInstant(Instant);

/// Reads the monotonic clock through `std::time::Instant::now`. The value
/// depends on when the call is made, so nothing is stated of it.
#[verifier::external_body]
pub(crate) fn monotonic_now() -> Instant {
    Instant::now()
}

/// Time passed since `t`, through `std::time::Instant::elapsed`. It depends
/// on the clock, so nothing is stated of it.
#[verifier::external_body]
pub(crate) fn elapsed_since(t: &Instant) -> Duration {
    t.elapsed()
}

/// Whole milliseconds in `d`, through `std::time::Duration::as_millis`.
/// `Duration` is opaque here, so nothing is stated of the count.
#[verifier::external_body]
pub(crate) fn whole_millis(d: &Duration) -> u128 {
    d.as_millis()
}

/// Nanoseconds in `d`, through `std::time::Duration::as_nanos`. `Duration`
/// is opaque here, so nothing is stated of the count.
#[verifier::external_body]
pub(crate) fn whole_nanos(d: &Duration) -> u128 {
    d.as_nanos()
}

/// Nanoseconds passed since `t` on the monotonic clock.
pub(crate) fn nanos_since(t: &Instant) -> u128 {
    let d = elapsed_since(t);
    whole_nanos(&d)
}

/// Milliseconds passed since `t` on the monotonic clock.
pub(crate) fn millis_since(t: &Instant) -> u128 {
    let d = elapsed_since(t);
    whole_millis(&d)
}

/// Nanoseconds in `ms` milliseconds.
pub open spec fn nanos_in_millis(ms: u64) -> int {
    ms * 1_000_000
}

/// What is left of a span of `span_ms` milliseconds after `elapsed_ns`
/// nanoseconds, never below zero.
pub open spec fn span_left(elapsed_ns: u128, span_ms: u64) -> int {
    if elapsed_ns >= nanos_in_millis(span_ms) {
        0
    } else {
        nanos_in_millis(span_ms) - elapsed_ns
    }
}

/// A span of time to the nanosecond.
#[derive(Clone, Copy, Debug, PartialEq, Eq, Structural)]
pub struct Nanos {
    pub ns: u128,
}

impl Nanos {
    /// The span in nanoseconds.
    pub fn as_nanos(&self) -> (r: u128)
        ensures
            r == self.ns,
    {
        self.ns
    }

    /// Whole milliseconds in the span, rounded down.
    pub fn as_millis(&self) -> (r: u128)
        ensures
            r == self.ns / 1_000_000,
    {
        self.ns / 1_000_000
    }

    /// Whether the span is empty.
    pub fn is_zero(&self) -> (r: bool)
        ensures
            r == (self.ns == 0),
    {
        self.ns == 0
    }
}

/// A span of whole milliseconds.
#[derive(Clone, Copy, Debug, PartialEq, Eq, Structural)]
pub struct Millis {
    pub ms: u64,
}

impl Millis {
    /// The span of `ms` milliseconds.
    pub fn from_millis(ms: u64) -> (r: Millis)
        ensures
            r.ms == ms,
    {
        Millis { ms }
    }

    /// The span in milliseconds.
    pub fn as_millis(&self) -> (r: u128)
        ensures
            r == self.ms,
    {
        self.ms as u128
    }

    /// The span in nanoseconds.
    pub fn as_nanos(&self) -> (r: u128)
        ensures
            r == nanos_in_millis(self.ms),
    {
        assert(self.ms * 1_000_000 <= u64::MAX * 1_000_000) by (nonlinear_arith)
            requires
                self.ms <= u64::MAX,
        ;
        self.ms as u128 * 1_000_000
    }

    /// What is left of this span after `elapsed_ns` nanoseconds, never below
    /// zero.
    pub fn saturating_sub_nanos(&self, elapsed_ns: u128) -> (r: Nanos)
        ensures
            r.ns == span_left(elapsed_ns, self.ms),
    {
        let total = self.as_nanos();
        if elapsed_ns >= total {
            Nanos { ns: 0 }
        } else {
            Nanos { ns: total - elapsed_ns }
        }
    }
}

} // verus!
