use raft_kv::log::LogStore;
use raft_kv::membership::{Membership, MembershipRefusal};
use raft_kv::messages::{AddNodeRequest, ChangeType, RemoveNodeRequest};
use raft_kv::state::{LeaderState, LeaseManager, NodeRole, RaftState};

fn create_test_state() -> (RaftState, LogStore) {
    (RaftState::new(1, vec![2, 3]), LogStore::new())
}

fn make_leader(state: &mut RaftState) {
    state.role = NodeRole::Leader;
    state.leader_state = Some(LeaderState {
        next_index: vec![1, 1, 1],
        match_index: vec![0, 0, 0],
        lease: LeaseManager::new(60),
    });
}

#[test]
fn test_add_node_not_leader() {
    let (mut state, log) = create_test_state();
    let mut membership = Membership::new();

    let result = membership.add_node(&mut state, &log, 4, "127.0.0.1:60054".to_string());
    assert!(result.is_err());
    assert_eq!(result.unwrap_err(), "not leader");
}

#[test]
fn test_add_node_already_exists() {
    let (mut state, log) = create_test_state();
    make_leader(&mut state);
    let mut membership = Membership::new();

    let result = membership.add_node(&mut state, &log, 2, "127.0.0.1:60052".to_string());
    assert!(result.is_err());
    assert!(result.unwrap_err().contains("already"));
}

#[test]
fn test_add_node_success() {
    let (mut state, log) = create_test_state();
    make_leader(&mut state);
    let mut membership = Membership::new();

    let result = membership.add_node(&mut state, &log, 4, "127.0.0.1:60054".to_string());
    assert!(result.is_ok());

    assert!(state.peers.contains(&4));
    assert_eq!(state.peers.len(), 3);
}

#[test]
fn test_remove_node_not_leader() {
    let (mut state, _log) = create_test_state();
    let mut membership = Membership::new();

    let result = membership.remove_node(&mut state, 2);
    assert!(result.is_err());
    assert_eq!(result.unwrap_err(), "not leader");
}

#[test]
fn test_remove_node_self() {
    let (mut state, _log) = create_test_state();
    make_leader(&mut state);
    let mut membership = Membership::new();

    let result = membership.remove_node(&mut state, 1);
    assert!(result.is_err());
    assert!(result.unwrap_err().contains("self"));
}

#[test]
fn test_remove_node_success() {
    let (mut state, _log) = create_test_state();
    make_leader(&mut state);
    let mut membership = Membership::new();

    let result = membership.remove_node(&mut state, 2);
    assert!(result.is_ok());

    assert!(!state.peers.contains(&2));
    assert_eq!(state.peers.len(), 1);
}

#[test]
fn membership_refusal_texts() {
    assert_eq!(MembershipRefusal::AlreadyMember(2).message(), "node 2 already in cluster");
    assert_eq!(MembershipRefusal::NotMember(17).message(), "node 17 not in cluster");
    assert_eq!(MembershipRefusal::AddingSelf.message(), "node already exists (self)");
    assert_eq!(MembershipRefusal::RemovingSelf.message(), "cannot remove self, use transfer_leader first");
}

#[test]
fn membership_add_then_remove_restores_cluster() {
    let (mut state, mut log) = create_test_state();
    log.append_one(raft_kv::log::LogEntry::new(1, 1, vec![1]));
    make_leader(&mut state);
    let mut membership = Membership::new();
    assert!(membership.can_change());
    membership.add_node(&mut state, &log, 9, "127.0.0.1:60059".to_string()).unwrap();
    assert_eq!(state.peers, vec![2, 3, 9]);
    assert_eq!(state.leader_state.as_ref().unwrap().next_index, vec![1, 1, 1, 2]);
    assert_eq!(state.leader_state.as_ref().unwrap().match_index, vec![0, 0, 0, 0]);
    membership.remove_node(&mut state, 9).unwrap();
    assert_eq!(state.peers, vec![2, 3]);
    assert_eq!(state.leader_state.as_ref().unwrap().next_index, vec![1, 1, 1]);
    assert_eq!(state.leader_state.as_ref().unwrap().match_index, vec![0, 0, 0]);
    assert_eq!(membership.remove_node(&mut state, 9).unwrap_err(), "node 9 not in cluster");
}

#[test]
fn membership_requests_check_term() {
    let (mut state, log) = create_test_state();
    make_leader(&mut state);
    state.persistent.current_term = 5;
    let mut membership = Membership::new();
    let r = membership.handle_add_node(&mut state, &log, AddNodeRequest { term: 4, node_id: 7, node_addr: "a".to_string() });
    assert!(!r.success);
    assert_eq!(r.term, 5);
    assert_eq!(state.peers.len(), 2);
    let r = membership.handle_add_node(&mut state, &log, AddNodeRequest { term: 5, node_id: 7, node_addr: "a".to_string() });
    assert!(r.success);
    let r = membership.handle_remove_node(&mut state, RemoveNodeRequest { term: 6, node_id: 3 });
    assert!(r.success);
    assert_eq!(state.peers, vec![2, 7]);
    let r = membership.apply_config_change(&mut state, &log, ChangeType::RemoveNode, 2, None);
    assert!(r.is_ok());
    assert_eq!(state.peers, vec![7]);
}

#[test]
fn membership_leader_cannot_add_itself() {
    let (mut state, log) = create_test_state();
    make_leader(&mut state);
    let mut membership = Membership::new();
    let result = membership.add_node(&mut state, &log, 1, "127.0.0.1:60051".to_string());
    assert_eq!(result.unwrap_err(), "node already exists (self)");
    assert_eq!(state.peers, vec![2, 3]);
    let added = membership.apply_config_change(&mut state, &log, ChangeType::AddNode, 5, None);
    assert!(added.is_ok());
    assert_eq!(state.peers, vec![2, 3, 5]);
}
