use raft_kv::state::{LeaseManager, NodeRole, RaftState};

#[test]
fn test_new_raft_state() {
    let state = RaftState::new(1, vec![2, 3]);

    assert_eq!(state.node_id, 1);
    assert_eq!(state.role, NodeRole::Follower);
    assert_eq!(state.peers, vec![2, 3]);

    assert_eq!(state.persistent.current_term, 0);
    assert!(state.persistent.voted_for.is_none());
}

#[test]
fn test_become_candidate() {
    let mut state = RaftState::new(1, vec![2, 3]);

    state.become_candidate();

    assert_eq!(state.role, NodeRole::Candidate);
    assert_eq!(state.persistent.current_term, 1);
    assert_eq!(state.persistent.voted_for, Some(1));
    assert!(state.leader_id.is_none());
}

#[test]
fn test_become_leader() {
    let mut state = RaftState::new(1, vec![2, 3]);

    state.become_candidate();
    state.become_leader();

    assert_eq!(state.role, NodeRole::Leader);
    assert_eq!(state.leader_id, Some(1));
    assert!(state.leader_state.is_some());
}

#[test]
fn test_become_follower_higher_term() {
    let mut state = RaftState::new(1, vec![2, 3]);

    state.become_follower(5, Some(2));

    assert_eq!(state.role, NodeRole::Follower);
    assert_eq!(state.persistent.current_term, 5);
    assert_eq!(state.leader_id, Some(2));
}

#[test]
fn test_become_follower_same_term() {
    let mut state = RaftState::new(1, vec![2, 3]);

    state.become_candidate();
    let term_before = state.persistent.current_term;

    state.become_follower(term_before, Some(2));

    assert_eq!(state.role, NodeRole::Follower);
}

#[test]
fn test_majority() {
    let state = RaftState::new(1, vec![2, 3]);
    assert_eq!(state.majority(), 2);

    let state = RaftState::new(1, vec![2, 3, 4, 5]);
    assert_eq!(state.majority(), 3);

    let state = RaftState::new(1, vec![]);
    assert_eq!(state.majority(), 1);
}

#[test]
fn test_node_role_display() {
    assert_eq!(NodeRole::Follower.to_string(), "Follower");
    assert_eq!(NodeRole::Candidate.to_string(), "Candidate");
    assert_eq!(NodeRole::Leader.to_string(), "Leader");
}

#[test]
fn majorities_of_even_clusters_overlap() {
    // 4 nodes: majority 3, two majorities hold 6 > 4 slots
    let state = RaftState::new(1, vec![2, 3, 4]);
    assert_eq!(state.majority(), 3);
    let state = RaftState::new(1, vec![2]);
    assert_eq!(state.majority(), 2);
}

#[test]
fn become_follower_keeps_newer_own_term_and_vote() {
    let mut state = RaftState::from_persistent(1, vec![2, 3], 7, Some(3));
    state.become_follower(4, None);
    assert_eq!(state.persistent.current_term, 7);
    assert_eq!(state.persistent.voted_for, Some(3));
    assert_eq!(state.role, NodeRole::Follower);
}

#[test]
fn become_leader_sizes_vectors_for_every_node() {
    let mut state = RaftState::new(1, vec![2, 3, 4]);
    state.become_candidate();
    state.become_leader();
    let ls = state.leader_state.as_ref().unwrap();
    assert_eq!(ls.next_index, vec![1, 1, 1, 1]);
    assert_eq!(ls.match_index, vec![0, 0, 0, 0]);
    assert!(!ls.lease.is_valid());
    assert!(state.check_wf());
}

#[test]
fn lease_is_valid_only_after_renewal() {
    let mut lease = LeaseManager::new(60_000);
    assert!(!lease.is_valid());
    lease.renew();
    assert!(lease.is_valid());
    assert!(!LeaseManager::valid_after(None, 60));
    assert!(LeaseManager::valid_after(Some(59), 60));
    assert!(!LeaseManager::valid_after(Some(60), 60));
}
