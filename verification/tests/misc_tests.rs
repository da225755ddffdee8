use raft_kv::calculator::{is_prime, MyCalculator, RunningSum};
use raft_kv::driver::{tick_action, TickAction};
use raft_kv::metrics::{gauge_values, is_ready, role_gauge, role_label, route, status_code, Endpoint};
use raft_kv::pending::PendingRequests;
use raft_kv::state::{NodeRole, RaftState};
use raft_kv::text::decimal_string;

#[test]
fn calculator_primes_and_sums() {
    let calc = MyCalculator::default();
    assert_eq!(calc.add(10, 20), 30);
    assert_eq!(calc.stream_primes(30), vec![2, 3, 5, 7, 11, 13, 17, 19, 23, 29]);
    assert!(calc.stream_primes(2).is_empty());
    assert!(!is_prime(1));
    assert!(!is_prime(-7));
    assert!(is_prime(2));
    assert!(!is_prime(49));
    assert!(is_prime(2147483647));
    let mut s = RunningSum::new();
    for n in 1..=5 {
        s.add(n);
    }
    assert_eq!((s.sum, s.count), (15, 5));
}

#[test]
fn pending_requests_released_up_to_commit() {
    let mut pending: PendingRequests<&str> = PendingRequests::new();
    pending.register(3, "c");
    pending.register(1, "a");
    pending.register(5, "e");
    pending.register(3, "c2");
    assert_eq!(pending.len(), 3);
    let mut released = pending.notify_committed(3);
    released.sort();
    assert_eq!(released, vec![(1, "a"), (3, "c2")]);
    assert_eq!(pending.len(), 1);
    assert!(pending.notify_committed(4).is_empty());
    assert_eq!(pending.notify_committed(5), vec![(5, "e")]);
}

#[test]
fn metrics_routes_and_readiness() {
    assert_eq!(route("/metrics"), Endpoint::Metrics);
    assert_eq!(route("/healthz"), Endpoint::Health);
    assert_eq!(route("/ready"), Endpoint::Ready);
    assert_eq!(route("/"), Endpoint::Index);
    assert_eq!(route("/nope"), Endpoint::NotFound);
    assert_eq!(status_code(Endpoint::Ready, false), 503);
    assert_eq!(status_code(Endpoint::NotFound, true), 404);
    assert_eq!(status_code(Endpoint::Health, false), 200);
    let lone = RaftState::new(1, vec![]);
    assert!(!is_ready(&lone));
    let mut state = RaftState::new(1, vec![2]);
    assert!(is_ready(&state));
    assert_eq!(role_gauge(NodeRole::Candidate), 1);
    assert_eq!(role_label(NodeRole::Leader), "leader");
    state.persistent.current_term = 3;
    state.become_leader();
    let g = gauge_values(&state);
    assert_eq!(g.current_term, 3);
    assert_eq!(g.node_role, 2);
    assert_eq!(g.cluster_size, 2);
    assert_eq!(g.lease_valid, 0);
}

#[test]
fn driver_tick_actions() {
    assert_eq!(tick_action(NodeRole::Follower, true, true), TickAction::StartElection);
    assert_eq!(tick_action(NodeRole::Candidate, false, true), TickAction::Idle);
    assert_eq!(tick_action(NodeRole::Leader, true, true), TickAction::Heartbeat);
    assert_eq!(tick_action(NodeRole::Leader, true, false), TickAction::Idle);
}

#[test]
fn text_decimal_numbers() {
    assert_eq!(decimal_string(0), "0");
    assert_eq!(decimal_string(60052), "60052");
    assert_eq!(decimal_string(u64::MAX), "18446744073709551615");
}
