//! Elections: answering pre-votes and votes, and running a candidacy.

use crate::log::{LogStore, LogView};
use crate::messages::{PreVoteRequest, PreVoteResponse, VoteRequest, VoteResponse};
use crate::state::{majority_of, NodeRole, PersistentState, RaftState, LEASE_DURATION_MS};
use vstd::prelude::*;

verus! {

/// A candidate's log is at least as up to date as ours: a later last term,
/// or the same last term and at least as many entries.
pub open spec fn log_up_to_date(cand_last_term: u64, cand_last_index: u64, my_last_term: u64, my_last_index: u64) -> bool {
    cand_last_term > my_last_term || (cand_last_term == my_last_term && cand_last_index >= my_last_index)
}

/// Whether a candidate's log is at least as up to date as ours.
pub fn candidate_log_is_up_to_date(cand_last_term: u64, cand_last_index: u64, my_last_term: u64, my_last_index: u64) -> (r: bool)
    ensures
        r == log_up_to_date(cand_last_term, cand_last_index, my_last_term, my_last_index),
{
    if cand_last_term > my_last_term {
        true
    } else if cand_last_term == my_last_term {
        cand_last_index >= my_last_index
    } else {
        false
    }
}

/// A node believes a leader is alive when it knows of one and its election
/// timeout has not passed since it last heard from it.
pub open spec fn believes_leader_alive(leader_id: Option<u32>, election_timed_out: bool) -> bool {
    leader_id is Some && !election_timed_out
}

/// The answer to a pre-vote: refused for an older term, by a leader, by a
/// node that believes a leader is alive, or to a candidate whose log is
/// behind ours; granted otherwise. It never changes the node.
pub open spec fn pre_vote_answer(
    current_term: u64,
    role: NodeRole,
    leader_id: Option<u32>,
    election_timed_out: bool,
    log: LogView,
    req: PreVoteRequest,
) -> PreVoteResponse {
    let granted = req.term >= current_term && role != NodeRole::Leader && !believes_leader_alive(
        leader_id,
        election_timed_out,
    ) && log_up_to_date(req.last_log_term, req.last_log_index, log.last_term(), log.last_index_u64());
    PreVoteResponse { term: current_term, vote_granted: granted }
}

/// Answers a pre-vote request without changing anything.
/// `election_timed_out` tells whether this node's election timeout has
/// passed since it last heard from a leader.
pub fn handle_pre_vote(state: &RaftState, log: &LogStore, request: &PreVoteRequest, election_timed_out: bool) -> (r: PreVoteResponse)
    ensures
        r == pre_vote_answer(
            state.persistent.current_term,
            state.role,
            state.leader_id,
            election_timed_out,
            log@,
            *request,
        ),
{
    let current_term = state.persistent.current_term;
    let last_log_index = log.last_index();
    let last_log_term = log.last_term();
    if request.term < current_term {
        return PreVoteResponse { term: current_term, vote_granted: false };
    }
    if state.role == NodeRole::Leader {
        return PreVoteResponse { term: current_term, vote_granted: false };
    }
    if state.leader_id.is_some() && !election_timed_out {
        return PreVoteResponse { term: current_term, vote_granted: false };
    }
    if !candidate_log_is_up_to_date(request.last_log_term, request.last_log_index, last_log_term, last_log_index) {
        return PreVoteResponse { term: current_term, vote_granted: false };
    }
    PreVoteResponse { term: current_term, vote_granted: true }
}

/// How a vote request changes a node's saved state and role, and what it is
/// answered. An older term is refused outright; a newer term is adopted first
/// (forgetting the vote, stepping down); the vote goes to the candidate when
/// the node has not voted for another one in this term and the candidate's
/// log is up to date.
pub open spec fn vote_outcome(p: PersistentState, role: NodeRole, log: LogView, req: VoteRequest) -> (PersistentState, NodeRole, VoteResponse) {
    if req.term < p.current_term {
        (p, role, VoteResponse { term: p.current_term, vote_granted: false })
    } else {
        let p1 = if req.term > p.current_term {
            PersistentState { current_term: req.term, voted_for: None }
        } else {
            p
        };
        let role1 = if req.term > p.current_term { NodeRole::Follower } else { role };
        let can_vote = p1.voted_for is None || p1.voted_for == Some(req.candidate_id);
        let granted = can_vote && log_up_to_date(
            req.last_log_term,
            req.last_log_index,
            log.last_term(),
            log.last_index_u64(),
        );
        let p2 = if granted {
            PersistentState { voted_for: Some(req.candidate_id), ..p1 }
        } else {
            p1
        };
        (p2, role1, VoteResponse { term: p2.current_term, vote_granted: granted })
    }
}

/// Answers a vote request. The new term and vote must be saved before the
/// answer is sent when the vote was granted.
pub fn handle_request_vote(state: &mut RaftState, log: &LogStore, request: &VoteRequest) -> (r: VoteResponse)
    ensures
        (final(state).persistent, final(state).role, r) == vote_outcome(old(state).persistent, old(state).role, log@, *request),
        final(state).node_id == old(state).node_id,
        final(state).volatile == old(state).volatile,
        final(state).leader_state == old(state).leader_state,
        final(state).leader_id == old(state).leader_id,
        final(state).peers == old(state).peers,
{
    let current_term = state.persistent.current_term;
    let last_log_index = log.last_index();
    let last_log_term = log.last_term();
    if request.term < current_term {
        return VoteResponse { term: current_term, vote_granted: false };
    }
    if request.term > current_term {
        state.persistent.current_term = request.term;
        state.persistent.voted_for = None;
        state.role = NodeRole::Follower;
    }
    let can_vote = match state.persistent.voted_for {
        None => true,
        Some(v) => v == request.candidate_id,
    };
    let up_to_date = candidate_log_is_up_to_date(request.last_log_term, request.last_log_index, last_log_term, last_log_index);
    let vote_granted = can_vote && up_to_date;
    if vote_granted {
        state.persistent.voted_for = Some(request.candidate_id);
    }
    VoteResponse { term: state.persistent.current_term, vote_granted }
}

/// Counts the votes of one election round; the candidate's own vote is
/// counted from the start.
pub struct VoteTally {
    granted: u128,
    needed: usize,
    cluster_size: Ghost<int>,
}

impl VoteTally {
    pub closed spec fn granted_count(&self) -> int {
        self.granted as int
    }

    pub closed spec fn needed_count(&self) -> int {
        self.needed as int
    }

    pub closed spec fn cluster(&self) -> int {
        self.cluster_size@
    }

    /// Counts stay within the cluster size.
    pub closed spec fn inv(&self) -> bool {
        self.cluster_size@ <= usize::MAX + 1
    }

    /// A round among this node and `peer_count` peers, holding only the
    /// candidate's own vote.
    pub fn new(peer_count: usize) -> (r: Self)
        ensures
            r.granted_count() == 1,
            r.needed_count() == majority_of(peer_count + 1),
            r.cluster() == peer_count + 1,
            r.inv(),
    {
        VoteTally {
            granted: 1,
            needed: peer_count / 2 + peer_count % 2 + 1,
            cluster_size: Ghost(peer_count + 1),
        }
    }

    /// Counts one peer's answer.
    pub fn record(&mut self, granted: bool)
        requires
            old(self).inv(),
            old(self).granted_count() < old(self).cluster(),
        ensures
            final(self).inv(),
            final(self).granted_count() == old(self).granted_count() + (if granted { 1int } else { 0int }),
            final(self).needed_count() == old(self).needed_count(),
            final(self).cluster() == old(self).cluster(),
    {
        if granted {
            self.granted = self.granted + 1;
        }
    }

    /// Whether a majority granted its vote.
    pub fn has_majority(&self) -> (r: bool)
        ensures
            r == (self.granted_count() >= self.needed_count()),
    {
        self.granted >= self.needed as u128
    }
}

/// The pre-vote a node sends before a candidacy: the term it would run in
/// and its log position.
pub fn pre_vote_request(state: &RaftState, log: &LogStore) -> (r: PreVoteRequest)
    requires
        state.persistent.current_term < u64::MAX,
    ensures
        r == (PreVoteRequest {
            term: (state.persistent.current_term + 1) as u64,
            candidate_id: state.node_id,
            last_log_index: log@.last_index_u64(),
            last_log_term: log@.last_term(),
        }),
{
    PreVoteRequest {
        term: state.persistent.current_term + 1,
        candidate_id: state.node_id,
        last_log_index: log.last_index(),
        last_log_term: log.last_term(),
    }
}

/// Starts a candidacy after a successful pre-vote and returns the vote
/// request to send to every peer. The new term and self-vote must be saved.
pub fn start_candidacy(state: &mut RaftState, log: &LogStore) -> (r: VoteRequest)
    requires
        old(state).persistent.current_term < u64::MAX,
    ensures
        final(state).persistent == (PersistentState {
            current_term: (old(state).persistent.current_term + 1) as u64,
            voted_for: Some(old(state).node_id),
        }),
        final(state).role == NodeRole::Candidate,
        final(state).leader_id is None,
        final(state).node_id == old(state).node_id,
        final(state).volatile == old(state).volatile,
        final(state).leader_state == old(state).leader_state,
        final(state).peers == old(state).peers,
        r == (VoteRequest {
            term: final(state).persistent.current_term,
            candidate_id: old(state).node_id,
            last_log_index: log@.last_index_u64(),
            last_log_term: log@.last_term(),
        }),
{
    state.become_candidate();
    VoteRequest {
        term: state.persistent.current_term,
        candidate_id: state.node_id,
        last_log_index: log.last_index(),
        last_log_term: log.last_term(),
    }
}

/// What a candidate does after one vote answer.
#[derive(Clone, Copy, Debug, PartialEq, Eq, Structural)]
pub enum ElectionStep {
    /// Keep asking the remaining peers.
    Continue,
    /// A newer term was seen; the node stepped down and the round is over.
    SteppedDown,
}

/// Takes in one peer's answer to the vote request of `election_term`: a newer
/// term makes the node a follower of nobody in that term; otherwise a
/// granted vote is counted.
pub fn observe_vote_reply(state: &mut RaftState, election_term: u64, reply: &VoteResponse, tally: &mut VoteTally) -> (r: ElectionStep)
    requires
        old(tally).inv(),
        old(tally).granted_count() < old(tally).cluster(),
    ensures
        final(tally).inv(),
        reply.term > election_term ==> {
            &&& r == ElectionStep::SteppedDown
            &&& final(state).role == NodeRole::Follower
            &&& final(state).leader_id is None
            &&& final(state).persistent == (if reply.term > old(state).persistent.current_term {
                PersistentState { current_term: reply.term, voted_for: None }
            } else {
                old(state).persistent
            })
            &&& final(tally).granted_count() == old(tally).granted_count()
        },
        reply.term <= election_term ==> {
            &&& r == ElectionStep::Continue
            &&& final(state).role == old(state).role
            &&& final(state).leader_id == old(state).leader_id
            &&& final(state).persistent == old(state).persistent
            &&& final(tally).granted_count() == old(tally).granted_count() + (if reply.vote_granted { 1int } else { 0int })
        },
        final(tally).needed_count() == old(tally).needed_count(),
        final(tally).cluster() == old(tally).cluster(),
        final(state).node_id == old(state).node_id,
        final(state).volatile == old(state).volatile,
        final(state).leader_state == old(state).leader_state,
        final(state).peers == old(state).peers,
{
    if reply.term > election_term {
        state.become_follower(reply.term, None);
        return ElectionStep::SteppedDown;
    }
    tally.record(reply.vote_granted);
    ElectionStep::Continue
}

/// Ends a round in which every peer was asked: with a majority of votes the
/// node becomes leader; otherwise nothing changes. Returns whether it won.
pub fn conclude_election(state: &mut RaftState, tally: &VoteTally) -> (won: bool)
    ensures
        won == (tally.granted_count() >= tally.needed_count()),
        won ==> {
            &&& final(state).role == NodeRole::Leader
            &&& final(state).leader_id == Some(old(state).node_id)
            &&& final(state).leader_state is Some
            &&& final(state).leader_state->0.next_index@ == Seq::new((old(state).peers.len() + 1) as nat, |i: int| 1u64)
            &&& final(state).leader_state->0.match_index@ == Seq::new((old(state).peers.len() + 1) as nat, |i: int| 0u64)
            &&& final(state).leader_state->0.lease.duration_ms() == LEASE_DURATION_MS
            &&& !final(state).leader_state->0.lease.was_renewed()
            &&& final(state).leader_state->0.lease.renewal_count() == 0
            &&& final(state).wf()
        },
        !won ==> *final(state) == *old(state),
        final(state).persistent == old(state).persistent,
        final(state).node_id == old(state).node_id,
        final(state).volatile == old(state).volatile,
        final(state).peers == old(state).peers,
{
    if tally.has_majority() {
        state.become_leader();
        true
    } else {
        false
    }
}

/// A vote request of a newer term makes the node a follower in that term,
/// one of its own term or an older one leaves the role alone, an older one
/// changes nothing and is refused, and a candidate of a newer term gets the
/// vote exactly when its log ends in a later term, or in the same term at an
/// index at least as high.
pub proof fn lemma_vote_request_steps_down_on_newer_term(p: PersistentState, role: NodeRole, log: LogView, req: VoteRequest)
    ensures
        req.term > p.current_term ==> {
            &&& vote_outcome(p, role, log, req).1 == NodeRole::Follower
            &&& vote_outcome(p, role, log, req).0.current_term == req.term
        },
        req.term <= p.current_term ==> vote_outcome(p, role, log, req).1 == role,
        req.term < p.current_term ==> {
            &&& vote_outcome(p, role, log, req).0 == p
            &&& !vote_outcome(p, role, log, req).2.vote_granted
        },
        req.term > p.current_term ==> (vote_outcome(p, role, log, req).2.vote_granted <==> {
            let my_last_term = if log.entries.len() > 0 { log.entries.last().term } else { log.snapshot_last_term };
            let my_last_index = log.snapshot_last_index + log.entries.len();
            req.last_log_term > my_last_term || (req.last_log_term == my_last_term && req.last_log_index >= (if my_last_index
                <= u64::MAX { my_last_index } else { u64::MAX as int }))
        }),
{
}

/// Any node other than the leader answers a pre-vote the same way, whether
/// it is a follower or a candidate: it grants it exactly when the request's term is
/// not older than its own, it believes no leader alive, and the candidate's
/// log ends in a later term, or in the same term at an index at least as
/// high; a leader never grants one. The answer carries the node's term.
pub proof fn lemma_pre_vote_rule(
    current_term: u64,
    role: NodeRole,
    leader_id: Option<u32>,
    election_timed_out: bool,
    log: LogView,
    req: PreVoteRequest,
)
    ensures
        pre_vote_answer(current_term, role, leader_id, election_timed_out, log, req).term == current_term,
        role != NodeRole::Leader ==> pre_vote_answer(current_term, role, leader_id, election_timed_out, log, req)
            == pre_vote_answer(current_term, NodeRole::Follower, leader_id, election_timed_out, log, req),
        role == NodeRole::Leader ==> !pre_vote_answer(current_term, role, leader_id, election_timed_out, log, req).vote_granted,
        pre_vote_answer(current_term, role, leader_id, election_timed_out, log, req).vote_granted ==> {
            &&& req.term >= current_term
            &&& (leader_id is None || election_timed_out)
        },
        pre_vote_answer(current_term, role, leader_id, election_timed_out, log, req).vote_granted <==> role != NodeRole::Leader && req.term >= current_term && (leader_id is None || election_timed_out) && ({
            let my_last_term = if log.entries.len() > 0 { log.entries.last().term } else { log.snapshot_last_term };
            let my_last_index = log.snapshot_last_index + log.entries.len();
            req.last_log_term > my_last_term || (req.last_log_term == my_last_term && req.last_log_index >= (if my_last_index
                <= u64::MAX { my_last_index } else { u64::MAX as int }))
        }),
{
}

/// A vote request never lowers the node's term, and the answer carries the
/// node's term after the request.
pub proof fn lemma_vote_never_lowers_term(p: PersistentState, role: NodeRole, log: LogView, req: VoteRequest)
    ensures
        vote_outcome(p, role, log, req).0.current_term >= p.current_term,
        vote_outcome(p, role, log, req).2.term == vote_outcome(p, role, log, req).0.current_term,
{
}

/// A granted vote is recorded for that candidate, in the request's term, and
/// only goes to a candidate whose log is up to date.
pub proof fn lemma_granted_vote_is_recorded(p: PersistentState, role: NodeRole, log: LogView, req: VoteRequest)
    requires
        vote_outcome(p, role, log, req).2.vote_granted,
    ensures
        vote_outcome(p, role, log, req).0.voted_for == Some(req.candidate_id),
        vote_outcome(p, role, log, req).0.current_term == req.term,
        log_up_to_date(req.last_log_term, req.last_log_index, log.last_term(), log.last_index_u64()),
{
}

/// Once a node has voted in its current term, a request of that term from any
/// other candidate is refused and changes nothing.
pub proof fn lemma_vote_is_final_within_term(p: PersistentState, role: NodeRole, log: LogView, req: VoteRequest)
    requires
        p.voted_for is Some,
        p.voted_for != Some(req.candidate_id),
        req.term == p.current_term,
    ensures
        !vote_outcome(p, role, log, req).2.vote_granted,
        vote_outcome(p, role, log, req).0 == p,
        vote_outcome(p, role, log, req).1 == role,
{
}

/// A node grants at most one vote per term: of two successive requests of
/// the same term from different candidates, at most one is granted.
pub proof fn lemma_one_vote_per_term(p: PersistentState, role: NodeRole, log: LogView, first: VoteRequest, second: VoteRequest)
    requires
        first.term == second.term,
        first.candidate_id != second.candidate_id,
    ensures
        !(vote_outcome(p, role, log, first).2.vote_granted && vote_outcome(
            vote_outcome(p, role, log, first).0,
            vote_outcome(p, role, log, first).1,
            log,
            second,
        ).2.vote_granted),
{
    if vote_outcome(p, role, log, first).2.vote_granted {
        lemma_granted_vote_is_recorded(p, role, log, first);
        lemma_vote_is_final_within_term(
            vote_outcome(p, role, log, first).0,
            vote_outcome(p, role, log, first).1,
            log,
            second,
        );
    }
}


/// At most one candidate wins a term: when every node casts at most one vote
/// in the term (`vote_of` gives each voter's single choice), two candidates
/// that each hold the votes of a majority of the cluster are the same.
pub proof fn lemma_at_most_one_winner_per_term(
    cluster: Set<u32>,
    vote_of: Map<u32, u32>,
    a_voters: Set<u32>,
    b_voters: Set<u32>,
    a: u32,
    b: u32,
)
    requires
        cluster.finite(),
        a_voters.subset_of(cluster),
        b_voters.subset_of(cluster),
        a_voters.len() >= majority_of(cluster.len() as int),
        b_voters.len() >= majority_of(cluster.len() as int),
        forall|v: u32| #[trigger] a_voters.contains(v) ==> vote_of.contains_key(v) && vote_of[v] == a,
        forall|v: u32| #[trigger] b_voters.contains(v) ==> vote_of.contains_key(v) && vote_of[v] == b,
    ensures
        a == b,
{
    vstd::set_lib::lemma_len_subset(a_voters, cluster);
    vstd::set_lib::lemma_len_subset(b_voters, cluster);
    vstd::set_lib::lemma_set_intersect_union_lens(a_voters, b_voters);
    assert((a_voters + b_voters).subset_of(cluster));
    vstd::set_lib::lemma_len_subset(a_voters + b_voters, cluster);
    assert(a_voters.intersect(b_voters).len() > 0);
    let v = a_voters.intersect(b_voters).choose();
    assert(a_voters.intersect(b_voters).contains(v));
}

} // verus!
