use raft_kv::log::{LogEntry, LogStore};
use raft_kv::messages::{AppendEntriesRequest, AppendEntriesResponse};
use raft_kv::replication::{
    advance_commit_index, compact_committed, handle_append_entries, heartbeats, on_append_reply, take_committed_commands,
    ReplyOutcome,
};
use raft_kv::state::{NodeRole, RaftState};

fn log_of(terms: &[u64]) -> LogStore {
    let mut log = LogStore::new();
    for (i, t) in terms.iter().enumerate() {
        log.append_one(LogEntry::new(*t, (i + 1) as u64, vec![i as u8 + 1]));
    }
    log
}

#[test]
fn test_should_snapshot_below_threshold() {
    let mut log = LogStore::new();
    for i in 1..=5 {
        log.append_one(LogEntry::new(1, i, vec![1]));
    }
    assert!(!log.should_snapshot(10));
}

#[test]
fn test_should_snapshot_above_threshold() {
    let mut log = LogStore::new();
    for i in 1..=15 {
        log.append_one(LogEntry::new(1, i, vec![1]));
    }
    assert!(log.should_snapshot(10));
}

#[test]
fn test_create_snapshot() {
    let mut state = RaftState::new(1, vec![2, 3]);
    let mut log = LogStore::new();
    for i in 1..=5 {
        log.append_one(LogEntry::new(1, i, vec![1]));
    }
    state.volatile.commit_index = 5;

    assert!(compact_committed(&state, &mut log));

    assert_eq!(log.snapshot_last_index, 5);
    assert_eq!(log.snapshot_last_term, 1);
    assert!(log.entries.is_empty());
}

#[test]
fn test_create_snapshot_skip_if_already_covered() {
    let mut state = RaftState::new(1, vec![2, 3]);
    let mut log = LogStore::new();
    log.snapshot_last_index = 10;
    log.snapshot_last_term = 1;
    state.volatile.commit_index = 5;

    assert!(!compact_committed(&state, &mut log));

    assert_eq!(log.snapshot_last_index, 10);
}

#[test]
fn follower_refuses_older_term() {
    let mut state = RaftState::from_persistent(2, vec![1, 3], 5, None);
    let mut log = log_of(&[1, 2]);
    let req = AppendEntriesRequest { term: 4, leader_id: 1, prev_log_index: 0, prev_log_term: 0, entries: vec![], leader_commit: 1 };
    let r = handle_append_entries(&mut state, &mut log, req);
    assert_eq!(r, AppendEntriesResponse { term: 5, success: false, match_index: 0 });
    assert_eq!(log.last_index(), 2);
    assert!(state.leader_id.is_none());
}

#[test]
fn follower_replaces_conflicting_suffix() {
    let mut state = RaftState::new(2, vec![1, 3]);
    let mut log = log_of(&[1, 1, 1]);
    let req = AppendEntriesRequest {
        term: 2,
        leader_id: 1,
        prev_log_index: 1,
        prev_log_term: 1,
        entries: vec![LogEntry::new(2, 2, vec![20]), LogEntry::new(2, 3, vec![30]), LogEntry::new(2, 4, vec![40])],
        leader_commit: 3,
    };
    let r = handle_append_entries(&mut state, &mut log, req);
    assert_eq!(r, AppendEntriesResponse { term: 2, success: true, match_index: 4 });
    assert_eq!(log.get(2).unwrap().command, vec![20]);
    assert_eq!(log.get(4).unwrap().term, 2);
    assert_eq!(log.get(1).unwrap().command, vec![1]);
    assert_eq!(state.volatile.commit_index, 3);
    assert_eq!(state.persistent.current_term, 2);
    assert_eq!(state.leader_id, Some(1));
}

#[test]
fn follower_skips_entries_inside_its_snapshot() {
    let mut state = RaftState::new(2, vec![1, 3]);
    let mut log = LogStore::new();
    log.snapshot_last_index = 10;
    log.snapshot_last_term = 1;
    let entries: Vec<LogEntry> = (1..=12u64).map(|i| LogEntry::new(1, i, vec![i as u8])).collect();
    let req = AppendEntriesRequest { term: 1, leader_id: 1, prev_log_index: 0, prev_log_term: 0, entries, leader_commit: 0 };
    let r = handle_append_entries(&mut state, &mut log, req);
    assert_eq!(r, AppendEntriesResponse { term: 1, success: true, match_index: 12 });
    assert_eq!(log.entries.len(), 2);
    assert_eq!(log.get(11).unwrap().command, vec![11]);
    assert_eq!(log.get(12).unwrap().index, 12);

    let stale: Vec<LogEntry> = (1..=3u64).map(|i| LogEntry::new(1, i, vec![i as u8])).collect();
    let req = AppendEntriesRequest { term: 1, leader_id: 1, prev_log_index: 0, prev_log_term: 0, entries: stale, leader_commit: 0 };
    let r = handle_append_entries(&mut state, &mut log, req);
    assert_eq!(r.match_index, 12);
    assert_eq!(log.entries.len(), 2);
    assert_eq!(log.get(11).unwrap().command, vec![11]);
}

#[test]
fn follower_reports_mismatch_with_its_last_index() {
    let mut state = RaftState::new(2, vec![1, 3]);
    state.role = NodeRole::Candidate;
    let mut log = log_of(&[1]);
    let req = AppendEntriesRequest { term: 0, leader_id: 3, prev_log_index: 3, prev_log_term: 1, entries: vec![], leader_commit: 0 };
    let r = handle_append_entries(&mut state, &mut log, req);
    assert!(!r.success);
    assert_eq!(r.match_index, 1);
    assert_eq!(state.role, NodeRole::Follower);
    assert_eq!(state.leader_id, Some(3));
}

#[test]
fn leader_builds_heartbeats_per_peer() {
    let mut state = RaftState::new(1, vec![2, 3]);
    state.persistent.current_term = 2;
    let log = log_of(&[1, 2, 2]);
    assert!(heartbeats(&state, &log).is_none());
    state.become_leader();
    state.volatile.commit_index = 1;
    state.leader_state.as_mut().unwrap().next_index[2] = 3;
    let hbs = heartbeats(&state, &log).unwrap();
    assert_eq!(hbs.len(), 2);
    assert_eq!(hbs[0].prev_log_index, 0);
    assert_eq!(hbs[0].entries.len(), 3);
    assert_eq!(hbs[1].prev_log_index, 2);
    assert_eq!(hbs[1].prev_log_term, 2);
    assert_eq!(hbs[1].entries.len(), 1);
    assert_eq!(hbs[1].leader_commit, 1);
    assert_eq!(hbs[1].term, 2);
}

#[test]
fn leader_reads_replies_and_commits_with_majority() {
    let mut state = RaftState::new(1, vec![2, 3]);
    state.persistent.current_term = 2;
    let log = log_of(&[1, 2, 2]);
    state.become_leader();
    let majority = state.majority();
    let mut acks = 1usize;
    let out = on_append_reply(&mut state, 1, &AppendEntriesResponse { term: 2, success: true, match_index: 3 }, &mut acks, majority);
    assert_eq!(out, ReplyOutcome::Replicated);
    assert_eq!(acks, 2);
    assert!(state.leader_state.as_ref().unwrap().lease.is_valid());
    let out = on_append_reply(&mut state, 2, &AppendEntriesResponse { term: 2, success: false, match_index: 0 }, &mut acks, majority);
    assert_eq!(out, ReplyOutcome::Retry);
    assert_eq!(state.leader_state.as_ref().unwrap().next_index, vec![1, 4, 1]);
    assert_eq!(state.leader_state.as_ref().unwrap().match_index, vec![0, 3, 0]);

    advance_commit_index(&mut state, &log);
    assert_eq!(state.volatile.commit_index, 3);
}

#[test]
fn lease_not_renewed_below_majority() {
    let mut state = RaftState::new(1, vec![2, 3, 4, 5]);
    state.persistent.current_term = 2;
    state.become_leader();
    let majority = state.majority();
    assert_eq!(majority, 3);
    let mut acks = 1usize;
    let out = on_append_reply(&mut state, 1, &AppendEntriesResponse { term: 2, success: true, match_index: 0 }, &mut acks, majority);
    assert_eq!(out, ReplyOutcome::Replicated);
    assert_eq!(acks, 2);
    assert!(!state.leader_state.as_ref().unwrap().lease.is_valid());
    let out = on_append_reply(&mut state, 2, &AppendEntriesResponse { term: 2, success: true, match_index: 0 }, &mut acks, majority);
    assert_eq!(out, ReplyOutcome::Replicated);
    assert_eq!(acks, 3);
    assert!(state.leader_state.as_ref().unwrap().lease.is_valid());
}

#[test]
fn leader_does_not_commit_entries_of_older_terms_alone() {
    let mut state = RaftState::new(1, vec![2, 3]);
    state.persistent.current_term = 3;
    let log = log_of(&[1, 2]);
    state.become_leader();
    state.leader_state.as_mut().unwrap().match_index = vec![0, 2, 2];
    advance_commit_index(&mut state, &log);
    assert_eq!(state.volatile.commit_index, 0);
}

#[test]
fn leader_steps_down_on_newer_term_reply() {
    let mut state = RaftState::new(1, vec![2, 3]);
    state.persistent.current_term = 2;
    state.become_leader();
    let mut acks = 1usize;
    let out = on_append_reply(&mut state, 1, &AppendEntriesResponse { term: 9, success: false, match_index: 0 }, &mut acks, 2);
    assert_eq!(out, ReplyOutcome::SteppedDown);
    assert_eq!(state.role, NodeRole::Follower);
    assert_eq!(state.persistent.current_term, 9);
}

#[test]
fn committed_commands_come_out_in_order_once() {
    let mut state = RaftState::new(1, vec![]);
    let mut log = log_of(&[1, 1, 1]);
    log.append_one(LogEntry::no_op(2, 4));
    log.append_one(LogEntry::new(2, 5, vec![50]));
    assert!(take_committed_commands(&mut state, &log).is_none());
    state.volatile.commit_index = 2;
    let first = take_committed_commands(&mut state, &log).unwrap();
    assert_eq!(first, vec![vec![1], vec![2]]);
    assert_eq!(state.volatile.last_applied, 2);
    state.volatile.commit_index = 5;
    let second = take_committed_commands(&mut state, &log).unwrap();
    assert_eq!(second, vec![vec![3], vec![50]]);
    assert!(take_committed_commands(&mut state, &log).is_none());
}
