use raft_kv::election::{
    candidate_log_is_up_to_date, conclude_election, handle_pre_vote, handle_request_vote, observe_vote_reply,
    pre_vote_request, start_candidacy, ElectionStep, VoteTally,
};
use raft_kv::log::{LogEntry, LogStore};
use raft_kv::messages::{PreVoteRequest, VoteRequest, VoteResponse};
use raft_kv::state::{NodeRole, RaftState};

#[test]
fn test_handle_pre_vote_granted() {
    let state = RaftState::new(1, vec![2, 3]);
    let log = LogStore::new();

    let request = PreVoteRequest { term: 2, candidate_id: 2, last_log_index: 0, last_log_term: 0 };

    let response = handle_pre_vote(&state, &log, &request, false);
    assert!(response.vote_granted);
    assert_eq!(response.term, 0);
}

#[test]
fn test_handle_pre_vote_rejected_lower_term() {
    let mut state = RaftState::new(1, vec![2, 3]);
    let log = LogStore::new();
    state.persistent.current_term = 5;

    let request = PreVoteRequest { term: 3, candidate_id: 2, last_log_index: 0, last_log_term: 0 };

    let response = handle_pre_vote(&state, &log, &request, false);
    assert!(!response.vote_granted);
    assert_eq!(response.term, 5);
}

#[test]
fn test_handle_pre_vote_rejected_by_leader() {
    let mut state = RaftState::new(1, vec![2, 3]);
    let log = LogStore::new();
    state.role = NodeRole::Leader;

    let request = PreVoteRequest { term: 2, candidate_id: 2, last_log_index: 0, last_log_term: 0 };

    let response = handle_pre_vote(&state, &log, &request, false);
    assert!(!response.vote_granted);
}

#[test]
fn test_handle_pre_vote_rejected_stale_log() {
    let state = RaftState::new(1, vec![2, 3]);
    let mut log = LogStore::new();
    log.append_one(LogEntry::new(1, 1, vec![1]));
    log.append_one(LogEntry::new(1, 2, vec![2]));

    let request = PreVoteRequest { term: 2, candidate_id: 2, last_log_index: 1, last_log_term: 1 };

    let response = handle_pre_vote(&state, &log, &request, false);
    assert!(!response.vote_granted);
}

#[test]
fn pre_vote_refused_while_leader_believed_alive() {
    let mut state = RaftState::new(1, vec![2, 3]);
    let log = LogStore::new();
    state.leader_id = Some(3);

    let request = PreVoteRequest { term: 2, candidate_id: 2, last_log_index: 0, last_log_term: 0 };

    let response = handle_pre_vote(&state, &log, &request, false);
    assert!(!response.vote_granted);
    assert_eq!(response.term, 0);

    let response = handle_pre_vote(&state, &log, &request, true);
    assert!(response.vote_granted);
}

#[test]
fn test_pre_vote_does_not_change_state() {
    let state = RaftState::new(1, vec![2, 3]);
    let log = LogStore::new();

    let request = PreVoteRequest { term: 100, candidate_id: 2, last_log_index: 0, last_log_term: 0 };

    let response = handle_pre_vote(&state, &log, &request, false);
    assert!(response.vote_granted);

    assert_eq!(state.persistent.current_term, 0);
    assert!(state.persistent.voted_for.is_none());
    assert_eq!(state.role, NodeRole::Follower);
}

#[test]
fn up_to_date_compares_last_term_then_length() {
    assert!(candidate_log_is_up_to_date(3, 1, 2, 10));
    assert!(candidate_log_is_up_to_date(2, 10, 2, 10));
    assert!(!candidate_log_is_up_to_date(2, 9, 2, 10));
    assert!(!candidate_log_is_up_to_date(1, 100, 2, 1));
}

#[test]
fn request_vote_grants_once_per_term() {
    let mut state = RaftState::new(1, vec![2, 3]);
    let log = LogStore::new();
    let first = VoteRequest { term: 3, candidate_id: 2, last_log_index: 0, last_log_term: 0 };
    let r1 = handle_request_vote(&mut state, &log, &first);
    assert!(r1.vote_granted);
    assert_eq!(r1.term, 3);
    assert_eq!(state.persistent.current_term, 3);
    assert_eq!(state.persistent.voted_for, Some(2));

    let second = VoteRequest { term: 3, candidate_id: 3, last_log_index: 5, last_log_term: 3 };
    let r2 = handle_request_vote(&mut state, &log, &second);
    assert!(!r2.vote_granted);
    assert_eq!(state.persistent.voted_for, Some(2));

    // the same candidate may ask again
    let again = handle_request_vote(&mut state, &log, &first);
    assert!(again.vote_granted);
}

#[test]
fn request_vote_refuses_older_term_and_stale_log() {
    let mut state = RaftState::from_persistent(1, vec![2, 3], 4, None);
    let mut log = LogStore::new();
    log.append_one(LogEntry::new(4, 1, vec![1]));
    let old_term = VoteRequest { term: 3, candidate_id: 2, last_log_index: 9, last_log_term: 9 };
    let r = handle_request_vote(&mut state, &log, &old_term);
    assert!(!r.vote_granted);
    assert_eq!(r.term, 4);

    let stale = VoteRequest { term: 6, candidate_id: 2, last_log_index: 1, last_log_term: 3 };
    let r = handle_request_vote(&mut state, &log, &stale);
    assert!(!r.vote_granted);
    // the newer term is adopted even though the vote is refused
    assert_eq!(r.term, 6);
    assert_eq!(state.persistent.current_term, 6);
    assert!(state.persistent.voted_for.is_none());
    assert_eq!(state.role, NodeRole::Follower);
}

#[test]
fn candidacy_wins_with_majority() {
    let mut state = RaftState::new(1, vec![2, 3]);
    let log = LogStore::new();
    let pre = pre_vote_request(&state, &log);
    assert_eq!(pre.term, 1);
    assert_eq!(state.persistent.current_term, 0);

    let req = start_candidacy(&mut state, &log);
    assert_eq!(req.term, 1);
    assert_eq!(req.candidate_id, 1);
    assert_eq!(state.role, NodeRole::Candidate);

    let mut tally = VoteTally::new(2);
    assert!(!tally.has_majority());
    let step = observe_vote_reply(&mut state, req.term, &VoteResponse { term: 1, vote_granted: true }, &mut tally);
    assert_eq!(step, ElectionStep::Continue);
    assert!(tally.has_majority());
    assert!(conclude_election(&mut state, &tally));
    assert_eq!(state.role, NodeRole::Leader);
    assert_eq!(state.leader_id, Some(1));
    let leader = state.leader_state.as_ref().unwrap();
    assert_eq!(leader.next_index, vec![1, 1, 1]);
    assert_eq!(leader.match_index, vec![0, 0, 0]);
    assert!(!leader.lease.is_valid());
}

#[test]
fn candidacy_steps_down_on_newer_term() {
    let mut state = RaftState::new(1, vec![2, 3, 4, 5]);
    let log = LogStore::new();
    let req = start_candidacy(&mut state, &log);
    let mut tally = VoteTally::new(4);
    let step = observe_vote_reply(&mut state, req.term, &VoteResponse { term: 7, vote_granted: false }, &mut tally);
    assert_eq!(step, ElectionStep::SteppedDown);
    assert_eq!(state.role, NodeRole::Follower);
    assert_eq!(state.persistent.current_term, 7);
    assert!(state.persistent.voted_for.is_none());
    assert!(!conclude_election(&mut state, &tally));
    assert_eq!(state.role, NodeRole::Follower);
}

#[test]
fn election_two_candidates_cannot_both_win_a_term() {
    let log = LogStore::new();
    let mut voters = vec![RaftState::new(1, vec![2, 3]), RaftState::new(2, vec![1, 3]), RaftState::new(3, vec![1, 2])];
    let from_a = VoteRequest { term: 4, candidate_id: 10, last_log_index: 0, last_log_term: 0 };
    let from_b = VoteRequest { term: 4, candidate_id: 11, last_log_index: 0, last_log_term: 0 };
    let mut a_votes = 0;
    let mut b_votes = 0;
    // the requests reach the voters in different orders
    for (i, voter) in voters.iter_mut().enumerate() {
        let (first, second) = if i == 0 { (&from_b, &from_a) } else { (&from_a, &from_b) };
        let r1 = handle_request_vote(voter, &log, first);
        let r2 = handle_request_vote(voter, &log, second);
        assert!(!(r1.vote_granted && r2.vote_granted));
        for (req, r) in [(first, r1), (second, r2)] {
            if r.vote_granted {
                if req.candidate_id == 10 {
                    a_votes += 1;
                } else {
                    b_votes += 1;
                }
            }
        }
    }
    let majority = voters[0].majority();
    assert!(!(a_votes >= majority && b_votes >= majority));
    assert_eq!((a_votes, b_votes), (2, 1));
}
