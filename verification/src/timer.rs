//! The election timeout, drawn at random from a range so that nodes rarely
//! time out together, and the leader's heartbeat interval.

use crate::clock::{monotonic_now, nanos_in_millis, nanos_since, span_left, Millis, Nanos};
use std::time::Instant;
use vstd::prelude::*;

verus! {

/// Shortest election timeout by default, in milliseconds.
pub const DEFAULT_MIN_TIMEOUT_MS: u64 = 150;

/// Longest election timeout by default, in milliseconds.
pub const DEFAULT_MAX_TIMEOUT_MS: u64 = 300;

/// Default heartbeat interval, in milliseconds.
pub const DEFAULT_HEARTBEAT_MS: u64 = 50;

/// A number drawn uniformly from `min..=max` by `rand::random_range`, which
/// panics on an empty range and otherwise returns a value inside it. Which
/// value comes out is left open.
#[verifier::external_body]
fn random_between(min: u64, max: u64) -> (r: u64)
    requires
        min <= max,
    ensures
        min <= r <= max,
{
    rand::random_range(min..=max)
}

/// Whether a span of `span_ms` milliseconds has run out after `elapsed_ns`
/// nanoseconds.
pub open spec fn expired_after(elapsed_ns: u128, span_ms: u64) -> bool {
    elapsed_ns >= nanos_in_millis(span_ms)
}

/// Whether a span of `span_ms` milliseconds has run out after `elapsed_ns`
/// nanoseconds.
pub fn has_expired(elapsed_ns: u128, span_ms: u64) -> (r: bool)
    ensures
        r == expired_after(elapsed_ns, span_ms),
{
    elapsed_ns >= Millis::from_millis(span_ms).as_nanos()
}

/// For one reading of the clock, a span has run out exactly when nothing
/// is left of it, and what is left is never more than the span.
pub proof fn lemma_expired_iff_nothing_left(elapsed_ns: u128, span_ms: u64)
    ensures
        expired_after(elapsed_ns, span_ms) <==> span_left(elapsed_ns, span_ms) == 0,
        0 <= span_left(elapsed_ns, span_ms) <= nanos_in_millis(span_ms),
{
}

/// Once a span has run out it stays run out as time goes on, and what is
/// left of it only shrinks.
pub proof fn lemma_expiry_stays(earlier_ns: u128, later_ns: u128, span_ms: u64)
    requires
        earlier_ns <= later_ns,
    ensures
        expired_after(earlier_ns, span_ms) ==> expired_after(later_ns, span_ms),
        span_left(later_ns, span_ms) <= span_left(earlier_ns, span_ms),
{
}

/// The bounds election timeouts are drawn from.
#[derive(Clone, Copy, Debug)]
struct TimeoutRange {
    min_ms: u64,
    max_ms: u64,
}

impl TimeoutRange {
    #[verifier::type_invariant]
    spec fn ordered(&self) -> bool {
        self.min_ms <= self.max_ms
    }

    fn sample(&self) -> (r: Millis)
        ensures
            self.min_ms <= r.ms <= self.max_ms,
    {
        proof {
            use_type_invariant(self);
        }
        Millis::from_millis(random_between(self.min_ms, self.max_ms))
    }
}

/// Times out when no heartbeat came for a while.
#[derive(Debug)]
pub struct ElectionTimer {
    /// The current timeout.
    pub timeout: Millis,
    last_heartbeat: Instant,
    range: TimeoutRange,
}

impl ElectionTimer {
    /// Shortest timeout this timer draws.
    pub closed spec fn min_ms(&self) -> u64 {
        self.range.min_ms
    }

    /// Longest timeout this timer draws.
    pub closed spec fn max_ms(&self) -> u64 {
        self.range.max_ms
    }

    /// The current timeout in milliseconds.
    pub closed spec fn timeout_ms(&self) -> u64 {
        self.timeout.ms
    }

    /// A timer drawing from 150 to 300 ms, started now.
    pub fn new() -> (r: Self)
        ensures
            r.min_ms() == DEFAULT_MIN_TIMEOUT_MS,
            r.max_ms() == DEFAULT_MAX_TIMEOUT_MS,
            DEFAULT_MIN_TIMEOUT_MS <= r.timeout_ms() <= DEFAULT_MAX_TIMEOUT_MS,
    {
        ElectionTimer::with_range(DEFAULT_MIN_TIMEOUT_MS, DEFAULT_MAX_TIMEOUT_MS)
    }

    /// A timer drawing its timeouts from `min_ms..=max_ms`, started now.
    pub fn with_range(min_ms: u64, max_ms: u64) -> (r: Self)
        requires
            min_ms <= max_ms,
        ensures
            r.min_ms() == min_ms,
            r.max_ms() == max_ms,
            min_ms <= r.timeout_ms() <= max_ms,
    {
        let range = TimeoutRange { min_ms, max_ms };
        let timeout = range.sample();
        ElectionTimer { timeout, last_heartbeat: monotonic_now(), range }
    }

    /// Restarts the timer after a heartbeat, with a fresh timeout.
    pub fn reset(&mut self)
        ensures
            final(self).min_ms() == old(self).min_ms(),
            final(self).max_ms() == old(self).max_ms(),
            old(self).min_ms() <= final(self).timeout_ms() <= old(self).max_ms(),
    {
        self.last_heartbeat = monotonic_now();
        self.timeout = self.range.sample();
    }

    /// Nanoseconds since the last heartbeat, read from the clock.
    pub fn elapsed_nanos(&self) -> u128 {
        nanos_since(&self.last_heartbeat)
    }

    /// Whether the timeout has passed when `elapsed_ns` nanoseconds have gone
    /// by since the last heartbeat.
    pub fn expired_at(&self, elapsed_ns: u128) -> (r: bool)
        ensures
            r == expired_after(elapsed_ns, self.timeout_ms()),
    {
        has_expired(elapsed_ns, self.timeout.ms)
    }

    /// Time left before the timeout when `elapsed_ns` nanoseconds have gone
    /// by since the last heartbeat.
    pub fn remaining_at(&self, elapsed_ns: u128) -> (r: Nanos)
        ensures
            r.ns == span_left(elapsed_ns, self.timeout_ms()),
    {
        self.timeout.saturating_sub_nanos(elapsed_ns)
    }

    /// Whether the timeout has passed since the last heartbeat; this reads
    /// the clock, so only a zero timeout fixes the answer: it has always
    /// passed.
    pub fn is_expired(&self) -> (r: bool)
        ensures
            self.timeout_ms() == 0 ==> r,
    {
        self.expired_at(self.elapsed_nanos())
    }

    /// Time left before the timeout; this reads the clock, so only its
    /// bound is fixed: never more than the timeout.
    pub fn remaining(&self) -> (r: Nanos)
        ensures
            r.ns <= nanos_in_millis(self.timeout_ms()),
    {
        self.remaining_at(self.elapsed_nanos())
    }
}

impl Default for ElectionTimer {
    fn default() -> (r: Self)
        ensures
            r.min_ms() == DEFAULT_MIN_TIMEOUT_MS,
            r.max_ms() == DEFAULT_MAX_TIMEOUT_MS,
    {
        ElectionTimer::new()
    }
}

/// Tells a leader when the next heartbeat is due.
#[derive(Debug)]
pub struct HeartbeatTimer {
    pub interval: Millis,
    last_beat: Instant,
}

impl HeartbeatTimer {
    /// The interval in milliseconds.
    pub closed spec fn interval_ms(&self) -> u64 {
        self.interval.ms
    }

    /// A timer beating every `interval_ms`, started now.
    pub fn new(interval_ms: u64) -> (r: Self)
        ensures
            r.interval_ms() == interval_ms,
    {
        HeartbeatTimer { interval: Millis::from_millis(interval_ms), last_beat: monotonic_now() }
    }

    /// Restarts the interval now.
    pub fn reset(&mut self)
        ensures
            final(self).interval_ms() == old(self).interval_ms(),
    {
        self.last_beat = monotonic_now();
    }

    /// Nanoseconds since the last beat, read from the clock.
    pub fn elapsed_nanos(&self) -> u128 {
        nanos_since(&self.last_beat)
    }

    /// Whether a heartbeat is due when `elapsed_ns` nanoseconds have gone by
    /// since the last beat.
    pub fn due_at(&self, elapsed_ns: u128) -> (r: bool)
        ensures
            r == expired_after(elapsed_ns, self.interval_ms()),
    {
        has_expired(elapsed_ns, self.interval.ms)
    }

    /// Time left before the next heartbeat when `elapsed_ns` nanoseconds have
    /// gone by since the last beat.
    pub fn remaining_at(&self, elapsed_ns: u128) -> (r: Nanos)
        ensures
            r.ns == span_left(elapsed_ns, self.interval_ms()),
    {
        self.interval.saturating_sub_nanos(elapsed_ns)
    }

    /// Whether a heartbeat is due; this reads the clock, so only a zero
    /// interval fixes the answer: a heartbeat is always due.
    pub fn should_beat(&self) -> (r: bool)
        ensures
            self.interval_ms() == 0 ==> r,
    {
        self.due_at(self.elapsed_nanos())
    }

    /// Time left before the next heartbeat; this reads the clock, so only
    /// its bound is fixed: never more than the interval.
    pub fn remaining(&self) -> (r: Nanos)
        ensures
            r.ns <= nanos_in_millis(self.interval_ms()),
    {
        self.remaining_at(self.elapsed_nanos())
    }
}

impl Default for HeartbeatTimer {
    fn default() -> (r: Self)
        ensures
            r.interval_ms() == DEFAULT_HEARTBEAT_MS,
    {
        HeartbeatTimer::new(DEFAULT_HEARTBEAT_MS)
    }
}

} // verus!
