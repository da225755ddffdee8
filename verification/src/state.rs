//! The node's Raft state: its role, the state that must survive a restart,
//! the commit bookkeeping, and what a leader tracks about its followers.

use crate::clock::{millis_since, monotonic_now, Millis};
use std::time::Instant;
use vstd::prelude::*;

verus! {

/// How long a leader lease lasts after a majority acknowledged it.
pub const LEASE_DURATION_MS: u64 = 60;

/// The role a node plays.
#[derive(Clone, Copy, Debug, PartialEq, Eq, Structural)]
pub enum NodeRole {
    Follower,
    Candidate,
    Leader,
}

impl NodeRole {
    /// The role's name.
    pub fn to_string(&self) -> (r: String)
        ensures
            r@ == (match *self {
                NodeRole::Follower => "Follower"@,
                NodeRole::Candidate => "Candidate"@,
                NodeRole::Leader => "Leader"@,
            }),
    {
        match self {
            NodeRole::Follower => String::from_str("Follower"),
            NodeRole::Candidate => String::from_str("Candidate"),
            NodeRole::Leader => String::from_str("Leader"),
        }
    }
}

/// State that is written to storage before the node answers.
#[derive(Clone, Copy, Debug, PartialEq, Eq, Structural)]
pub struct PersistentState {
    /// Latest term the node has seen.
    pub current_term: u64,
    /// Candidate voted for in the current term, if any.
    pub voted_for: Option<u32>,
}

/// Commit bookkeeping kept in memory on every node.
#[derive(Clone, Copy, Debug, PartialEq, Eq, Structural)]
pub struct VolatileState {
    /// Highest log index known to be committed.
    pub commit_index: u64,
    /// Highest log index applied to the state machine.
    pub last_applied: u64,
}

/// A leader's lease: valid for a while after a majority acknowledged it.
pub struct LeaseManager {
    duration: Millis,
    renewed_at: Option<Instant>,
    renewals: Ghost<nat>,
}

/// Whether a lease of `duration_ms` renewed `elapsed_ms` ago (None: never
/// renewed) is still valid.
pub open spec fn lease_valid_spec(elapsed_ms: Option<u128>, duration_ms: u64) -> bool {
    match elapsed_ms {
        Some(e) => e < duration_ms,
        None => false,
    }
}

impl LeaseManager {
    /// Length of the lease in milliseconds.
    pub closed spec fn duration_ms(&self) -> u64 {
        self.duration.ms
    }

    /// Whether the lease was ever renewed.
    pub closed spec fn was_renewed(&self) -> bool {
        self.renewed_at is Some
    }

    /// How many times the lease was renewed.
    pub closed spec fn renewal_count(&self) -> nat {
        self.renewals@
    }

    /// A lease of `duration_ms` that has not been granted yet.
    pub fn new(duration_ms: u64) -> (r: Self)
        ensures
            r.duration_ms() == duration_ms,
            !r.was_renewed(),
            r.renewal_count() == 0,
    {
        LeaseManager { duration: Millis::from_millis(duration_ms), renewed_at: None, renewals: Ghost(0) }
    }

    /// Starts a new lease period now.
    pub fn renew(&mut self)
        ensures
            final(self).duration_ms() == old(self).duration_ms(),
            final(self).was_renewed(),
            final(self).renewal_count() == old(self).renewal_count() + 1,
    {
        self.renewed_at = Some(monotonic_now());
        self.renewals = Ghost(self.renewals@ + 1);
    }

    /// Whether a lease of `duration_ms` renewed `elapsed_ms` ago (None: never
    /// renewed) is still valid.
    pub fn valid_after(elapsed_ms: Option<u128>, duration_ms: u64) -> (r: bool)
        ensures
            r == lease_valid_spec(elapsed_ms, duration_ms),
    {
        match elapsed_ms {
            Some(e) => e < duration_ms as u128,
            None => false,
        }
    }

    /// Whether the lease is valid now. The answer depends on the clock; a
    /// lease that was never renewed, or that lasts no time, is never valid.
    pub fn is_valid(&self) -> (r: bool)
        ensures
            r ==> self.was_renewed(),
            self.duration_ms() == 0 ==> !r,
    {
        let elapsed = match &self.renewed_at {
            Some(t) => Some(millis_since(t)),
            None => None,
        };
        LeaseManager::valid_after(elapsed, self.duration.ms)
    }
}

/// What a leader tracks about each node of the cluster; slot 0 is the leader
/// itself, slot `i + 1` is `peers[i]`.
pub struct LeaderState {
    /// Next log index to send to each node.
    pub next_index: Vec<u64>,
    /// Highest log index known to be replicated on each node.
    pub match_index: Vec<u64>,
    /// The leader's lease.
    pub lease: LeaseManager,
}

/// Size of a majority of a cluster of `cluster_size` nodes.
pub open spec fn majority_of(cluster_size: int) -> int {
    cluster_size / 2 + 1
}

/// The whole Raft state of a node.
pub struct RaftState {
    pub node_id: u32,
    pub role: NodeRole,
    pub persistent: PersistentState,
    pub volatile: VolatileState,
    /// Present while the node leads.
    pub leader_state: Option<LeaderState>,
    /// The leader this node knows of.
    pub leader_id: Option<u32>,
    /// The other nodes of the cluster.
    pub peers: Vec<u32>,
}

impl RaftState {
    /// The leader's per-node vectors have one slot for the leader and one
    /// for each peer.
    pub open spec fn wf(&self) -> bool {
        self.leader_state is Some ==> {
            &&& self.leader_state->0.next_index.len() == self.peers.len() + 1
            &&& self.leader_state->0.match_index.len() == self.peers.len() + 1
        }
    }

    /// Whether `wf` holds.
    pub fn check_wf(&self) -> (r: bool)
        ensures
            r == self.wf(),
    {
        match &self.leader_state {
            Some(ls) => {
                let n = self.peers.len();
                ls.next_index.len() > 0 && ls.match_index.len() > 0
                    && ls.next_index.len() - 1 == n && ls.match_index.len() - 1 == n
            },
            None => true,
        }
    }

    /// Size of a majority of this node and its peers.
    pub open spec fn spec_majority(&self) -> int {
        majority_of(self.peers.len() + 1)
    }

    /// A follower at term 0 that has voted for nobody.
    pub fn new(node_id: u32, peers: Vec<u32>) -> (r: Self)
        ensures
            r.node_id == node_id,
            r.role == NodeRole::Follower,
            r.persistent == (PersistentState { current_term: 0, voted_for: None }),
            r.volatile == (VolatileState { commit_index: 0, last_applied: 0 }),
            r.leader_state is None,
            r.leader_id is None,
            r.peers@ == peers@,
            r.wf(),
    {
        RaftState::from_persistent(node_id, peers, 0, None)
    }

    /// A follower restored from the term and vote it had saved.
    pub fn from_persistent(node_id: u32, peers: Vec<u32>, current_term: u64, voted_for: Option<u32>) -> (r: Self)
        ensures
            r.node_id == node_id,
            r.role == NodeRole::Follower,
            r.persistent == (PersistentState { current_term, voted_for }),
            r.volatile == (VolatileState { commit_index: 0, last_applied: 0 }),
            r.leader_state is None,
            r.leader_id is None,
            r.peers@ == peers@,
            r.wf(),
    {
        RaftState {
            node_id,
            role: NodeRole::Follower,
            persistent: PersistentState { current_term, voted_for },
            volatile: VolatileState { commit_index: 0, last_applied: 0 },
            leader_state: None,
            leader_id: None,
            peers,
        }
    }

    /// Number of nodes, this one included, that make a majority.
    pub fn majority(&self) -> (r: usize)
        ensures
            r == self.spec_majority(),
    {
        let n = self.peers.len();
        n / 2 + n % 2 + 1
    }

    /// Steps down to follower of `leader_id`, adopting `term` when it is
    /// newer (and forgetting the vote then).
    pub fn become_follower(&mut self, term: u64, leader_id: Option<u32>)
        ensures
            final(self).persistent == (if term > old(self).persistent.current_term {
                PersistentState { current_term: term, voted_for: None }
            } else {
                old(self).persistent
            }),
            final(self).role == NodeRole::Follower,
            final(self).leader_id == leader_id,
            final(self).node_id == old(self).node_id,
            final(self).volatile == old(self).volatile,
            final(self).leader_state == old(self).leader_state,
            final(self).peers == old(self).peers,
    {
        if term > self.persistent.current_term {
            self.persistent.current_term = term;
            self.persistent.voted_for = None;
        }
        self.role = NodeRole::Follower;
        self.leader_id = leader_id;
    }

    /// Starts a candidacy: next term, a vote for itself, no known leader.
    pub fn become_candidate(&mut self)
        requires
            old(self).persistent.current_term < u64::MAX,
        ensures
            final(self).persistent == (PersistentState {
                current_term: (old(self).persistent.current_term + 1) as u64,
                voted_for: Some(old(self).node_id),
            }),
            final(self).role == NodeRole::Candidate,
            final(self).leader_id is None,
            final(self).node_id == old(self).node_id,
            final(self).volatile == old(self).volatile,
            final(self).leader_state == old(self).leader_state,
            final(self).peers == old(self).peers,
    {
        self.persistent.current_term = self.persistent.current_term + 1;
        self.persistent.voted_for = Some(self.node_id);
        self.role = NodeRole::Candidate;
        self.leader_id = None;
    }

    /// Takes the lead: every node's next index starts at 1, nothing is known
    /// to be replicated, the lease is not granted yet.
    pub fn become_leader(&mut self)
        ensures
            final(self).role == NodeRole::Leader,
            final(self).leader_id == Some(old(self).node_id),
            final(self).leader_state is Some,
            final(self).leader_state->0.next_index@ == Seq::new((old(self).peers.len() + 1) as nat, |i: int| 1u64),
            final(self).leader_state->0.match_index@ == Seq::new((old(self).peers.len() + 1) as nat, |i: int| 0u64),
            final(self).leader_state->0.lease.duration_ms() == LEASE_DURATION_MS,
            !final(self).leader_state->0.lease.was_renewed(),
            final(self).leader_state->0.lease.renewal_count() == 0,
            final(self).persistent == old(self).persistent,
            final(self).node_id == old(self).node_id,
            final(self).volatile == old(self).volatile,
            final(self).peers == old(self).peers,
            final(self).wf(),
    {
        self.role = NodeRole::Leader;
        let n = self.peers.len();
        let mut next_index: Vec<u64> = Vec::new();
        let mut match_index: Vec<u64> = Vec::new();
        next_index.push(1);
        match_index.push(0);
        let mut i: usize = 0;
        while i < n
            invariant
                i <= n,
                next_index@ == Seq::new((i + 1) as nat, |k: int| 1u64),
                match_index@ == Seq::new((i + 1) as nat, |k: int| 0u64),
            decreases n - i,
        {
            next_index.push(1);
            match_index.push(0);
            i = i + 1;
            assert(next_index@ =~= Seq::new((i + 1) as nat, |k: int| 1u64));
            assert(match_index@ =~= Seq::new((i + 1) as nat, |k: int| 0u64));
        }
        self.leader_state = Some(LeaderState {
            next_index,
            match_index,
            lease: LeaseManager::new(LEASE_DURATION_MS),
        });
        self.leader_id = Some(self.node_id);
    }
}


/// Any two majorities of the same cluster share a node: two of them together
/// hold more nodes than the cluster has; and a majority fits in the cluster.
pub proof fn lemma_majorities_overlap(cluster_size: int)
    requires
        cluster_size >= 1,
    ensures
        2 * majority_of(cluster_size) > cluster_size,
        majority_of(cluster_size) <= cluster_size,
{
}

} // verus!
