use raft_kv::clock::Millis;
use raft_kv::timer::{has_expired, ElectionTimer, HeartbeatTimer};

#[test]
fn test_election_timer_new() {
    let timer = ElectionTimer::new();

    assert!(!timer.is_expired());

    assert!(timer.timeout.as_millis() >= 150);
    assert!(timer.timeout.as_millis() <= 300);
}

#[test]
fn test_election_timer_with_range() {
    let timer = ElectionTimer::with_range(100, 200);

    assert!(timer.timeout.as_millis() >= 100);
    assert!(timer.timeout.as_millis() <= 200);
}

#[test]
fn test_election_timer_remaining() {
    let timer = ElectionTimer::with_range(100, 100);

    let remaining = timer.remaining();
    assert!(remaining.as_millis() <= 100);
}

#[test]
fn test_heartbeat_timer_new() {
    let timer = HeartbeatTimer::new(50);

    assert_eq!(timer.interval.as_millis(), 50);
    assert!(!timer.should_beat());
}

#[test]
fn timer_reset_draws_from_range() {
    let mut timer = ElectionTimer::with_range(7, 9);
    for _ in 0..20 {
        timer.reset();
        assert!(timer.timeout.as_millis() >= 7 && timer.timeout.as_millis() <= 9);
    }
    let fixed = ElectionTimer::with_range(42, 42);
    assert_eq!(fixed.timeout.as_millis(), 42);
}

#[test]
fn timer_expiry_and_remaining_arithmetic() {
    assert!(has_expired(150_000_000, 150));
    assert!(!has_expired(149_999_999, 150));
    let span = Millis::from_millis(100);
    assert_eq!(span.as_nanos(), 100_000_000);
    assert_eq!(span.saturating_sub_nanos(30_000_000).as_millis(), 70);
    assert_eq!(span.saturating_sub_nanos(400_000).as_nanos(), 99_600_000);
    assert_eq!(span.saturating_sub_nanos(400_000).as_millis(), 99);
    assert!(span.saturating_sub_nanos(300_000_000).is_zero());
}

#[test]
fn timer_expired_exactly_when_nothing_remains() {
    let timer = ElectionTimer::with_range(100, 100);
    for elapsed in [0u128, 400_000, 99_999_999, 100_000_000, 100_000_001, 250_000_000] {
        assert_eq!(timer.expired_at(elapsed), timer.remaining_at(elapsed).is_zero());
    }
    assert_eq!(timer.remaining_at(400_000).as_nanos(), 99_600_000);
    let reading = timer.elapsed_nanos();
    assert_eq!(timer.expired_at(reading), timer.remaining_at(reading).is_zero());

    let beat = HeartbeatTimer::new(10);
    assert!(!beat.due_at(9_999_999));
    assert!(beat.due_at(10_000_000));
    assert!(beat.due_at(20_000_000));
    assert_eq!(beat.remaining_at(2_500_000).as_nanos(), 7_500_000);
    assert!(beat.remaining_at(20_000_000).is_zero());
}

#[test]
fn timer_zero_interval_is_due_at_once() {
    let timer = HeartbeatTimer::new(0);
    assert!(timer.should_beat());
    assert_eq!(HeartbeatTimer::default().interval.as_millis(), 50);
}
