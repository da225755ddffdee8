//! Cluster membership changes, made by the leader one node at a time.

use crate::log::{LogStore, LogView};
use crate::messages::{AddNodeRequest, AddNodeResponse, ChangeType, RemoveNodeRequest, RemoveNodeResponse};
use crate::state::{NodeRole, RaftState};
use crate::text::{decimal, decimal_string};
use vstd::prelude::*;

verus! {

/// Why a membership change was refused.
#[derive(Clone, Copy, Debug, PartialEq, Eq, Structural)]
pub enum MembershipRefusal {
    NotLeader,
    ChangeInProgress,
    AddingSelf,
    AlreadyMember(u32),
    RemovingSelf,
    NotMember(u32),
    LastPeer,
}

/// The text a refusal is reported with.
pub open spec fn refusal_text(r: MembershipRefusal) -> Seq<char> {
    match r {
        MembershipRefusal::NotLeader => "not leader"@,
        MembershipRefusal::ChangeInProgress => "membership change in progress"@,
        MembershipRefusal::AddingSelf => "node already exists (self)"@,
        MembershipRefusal::AlreadyMember(id) => "node "@ + decimal(id as nat) + " already in cluster"@,
        MembershipRefusal::RemovingSelf => "cannot remove self, use transfer_leader first"@,
        MembershipRefusal::NotMember(id) => "node "@ + decimal(id as nat) + " not in cluster"@,
        MembershipRefusal::LastPeer => "cannot remove last peer"@,
    }
}

impl MembershipRefusal {
    /// The text this refusal is reported with.
    pub fn message(&self) -> (r: String)
        ensures
            r@ == refusal_text(*self),
    {
        match self {
            MembershipRefusal::NotLeader => String::from_str("not leader"),
            MembershipRefusal::ChangeInProgress => String::from_str("membership change in progress"),
            MembershipRefusal::AddingSelf => String::from_str("node already exists (self)"),
            MembershipRefusal::AlreadyMember(id) => {
                let r = String::from_str("node ").concat(decimal_string(*id as u64).as_str()).concat(" already in cluster");
                r
            },
            MembershipRefusal::RemovingSelf => String::from_str("cannot remove self, use transfer_leader first"),
            MembershipRefusal::NotMember(id) => {
                let r = String::from_str("node ").concat(decimal_string(*id as u64).as_str()).concat(" not in cluster");
                r
            },
            MembershipRefusal::LastPeer => String::from_str("cannot remove last peer"),
        }
    }
}

/// Position of the first `x` in `s`, where `s` holds one.
pub open spec fn first_position(s: Seq<u32>, x: u32) -> int {
    choose|i: int| 0 <= i < s.len() && s[i] == x && forall|j: int| 0 <= j < i ==> s[j] != x
}

/// Why adding `node_id` is refused, if it is.
pub open spec fn add_refusal(changing: bool, state: &RaftState, node_id: u32) -> Option<MembershipRefusal> {
    if state.role != NodeRole::Leader {
        Some(MembershipRefusal::NotLeader)
    } else if changing {
        Some(MembershipRefusal::ChangeInProgress)
    } else if node_id == state.node_id {
        Some(MembershipRefusal::AddingSelf)
    } else if state.peers@.contains(node_id) {
        Some(MembershipRefusal::AlreadyMember(node_id))
    } else {
        None
    }
}

/// Why removing `node_id` is refused, if it is.
pub open spec fn remove_refusal(changing: bool, state: &RaftState, node_id: u32) -> Option<MembershipRefusal> {
    if state.role != NodeRole::Leader {
        Some(MembershipRefusal::NotLeader)
    } else if changing {
        Some(MembershipRefusal::ChangeInProgress)
    } else if node_id == state.node_id {
        Some(MembershipRefusal::RemovingSelf)
    } else if !state.peers@.contains(node_id) {
        Some(MembershipRefusal::NotMember(node_id))
    } else {
        None
    }
}

/// Removing `node_id` finds the leader's slots for it: when the removal goes
/// ahead on a node that tracks its followers, both vectors have a slot for
/// the peer's position.
pub open spec fn remove_slots_exist(changing: bool, state: &RaftState, node_id: u32) -> bool {
    remove_refusal(changing, state, node_id) is None && state.leader_state is Some ==> {
        &&& first_position(state.peers@, node_id) + 1 < state.leader_state->0.next_index.len()
        &&& first_position(state.peers@, node_id) + 1 < state.leader_state->0.match_index.len()
    }
}

/// Whether `r` reports `refusal`: success when there is none, otherwise an
/// error with its text.
pub open spec fn reports(r: &Result<(), String>, refusal: Option<MembershipRefusal>) -> bool {
    match refusal {
        None => r is Ok,
        Some(x) => r is Err && r->Err_0@ == refusal_text(x),
    }
}

/// Tracks whether a membership change is under way.
pub struct Membership {
    changing: bool,
}

impl Membership {
    /// Whether a change is under way.
    pub closed spec fn in_progress(&self) -> bool {
        self.changing
    }

    /// No change under way.
    pub fn new() -> (r: Self)
        ensures
            !r.in_progress(),
    {
        Membership { changing: false }
    }

    /// Whether a change may start now.
    pub fn can_change(&self) -> (r: bool)
        ensures
            r == !self.in_progress(),
    {
        !self.changing
    }

    /// Adds `node_id` to the cluster. Only a leader may, one change at a
    /// time, and only a node that is not already a member; the leader starts
    /// replicating to it from the end of its log.
    pub fn add_node(&mut self, state: &mut RaftState, log: &LogStore, node_id: u32, node_addr: String) -> (r: Result<(), String>)
        requires
            add_refusal(old(self).in_progress(), &*old(state), node_id) is None && old(state).leader_state is Some
                ==> log@.last_index_u64() < u64::MAX,
        ensures
            reports(&r, add_refusal(old(self).in_progress(), &*old(state), node_id)),
            final(self).in_progress() == old(self).in_progress(),
            old(state).wf() ==> final(state).wf(),
            final(state).node_id == old(state).node_id,
            final(state).role == old(state).role,
            final(state).persistent == old(state).persistent,
            final(state).volatile == old(state).volatile,
            final(state).leader_id == old(state).leader_id,
            r is Err ==> *final(state) == *old(state),
            r is Ok ==> {
                &&& final(state).peers@ == old(state).peers@.push(node_id)
                &&& (final(state).leader_state is Some <==> old(state).leader_state is Some)
                &&& old(state).leader_state is Some ==> {
                    &&& final(state).leader_state->0.next_index@ == old(state).leader_state->0.next_index@.push(
                        (log@.last_index_u64() + 1) as u64,
                    )
                    &&& final(state).leader_state->0.match_index@ == old(state).leader_state->0.match_index@.push(0)
                    &&& final(state).leader_state->0.lease == old(state).leader_state->0.lease
                }
            },
    {
        if state.role != NodeRole::Leader {
            return Err(MembershipRefusal::NotLeader.message());
        }
        if self.changing {
            return Err(MembershipRefusal::ChangeInProgress.message());
        }
        if state.node_id == node_id {
            return Err(MembershipRefusal::AddingSelf.message());
        }
        if peers_contain(&state.peers, node_id) {
            return Err(MembershipRefusal::AlreadyMember(node_id).message());
        }
        self.changing = true;
        state.peers.push(node_id);
        match &mut state.leader_state {
            Some(ls) => {
                let next_idx = log.last_index() + 1;
                ls.next_index.push(next_idx);
                ls.match_index.push(0);
            },
            None => {},
        }
        self.changing = false;
        Ok(())
    }

    /// Removes `node_id` from the cluster. Only a leader may, one change at
    /// a time, never itself, and only a member.
    pub fn remove_node(&mut self, state: &mut RaftState, node_id: u32) -> (r: Result<(), String>)
        requires
            remove_slots_exist(old(self).in_progress(), &*old(state), node_id),
        ensures
            reports(&r, remove_refusal(old(self).in_progress(), &*old(state), node_id)),
            final(self).in_progress() == old(self).in_progress(),
            old(state).wf() ==> final(state).wf(),
            final(state).node_id == old(state).node_id,
            final(state).role == old(state).role,
            final(state).persistent == old(state).persistent,
            final(state).volatile == old(state).volatile,
            final(state).leader_id == old(state).leader_id,
            r is Err ==> *final(state) == *old(state),
            r is Ok ==> {
                let i = first_position(old(state).peers@, node_id);
                &&& final(state).peers@ == old(state).peers@.remove(i)
                &&& (final(state).leader_state is Some <==> old(state).leader_state is Some)
                &&& old(state).leader_state is Some ==> {
                    &&& final(state).leader_state->0.next_index@ == old(state).leader_state->0.next_index@.remove(i + 1)
                    &&& final(state).leader_state->0.match_index@ == old(state).leader_state->0.match_index@.remove(i + 1)
                    &&& final(state).leader_state->0.lease == old(state).leader_state->0.lease
                }
            },
    {
        if state.role != NodeRole::Leader {
            return Err(MembershipRefusal::NotLeader.message());
        }
        if self.changing {
            return Err(MembershipRefusal::ChangeInProgress.message());
        }
        if state.node_id == node_id {
            return Err(MembershipRefusal::RemovingSelf.message());
        }
        let peer_idx = match position_in(&state.peers, node_id) {
            Some(i) => i,
            None => return Err(MembershipRefusal::NotMember(node_id).message()),
        };
        if state.peers.len() == 0 {
            return Err(MembershipRefusal::LastPeer.message());
        }
        self.changing = true;
        state.peers.remove(peer_idx);
        match &mut state.leader_state {
            Some(ls) => {
                ls.next_index.remove(peer_idx + 1);
                ls.match_index.remove(peer_idx + 1);
            },
            None => {},
        }
        self.changing = false;
        Ok(())
    }

    /// Answers an add-node request: refused for an older term, otherwise
    /// answered with whether the node was added; the term is the one the
    /// node had when the request arrived.
    pub fn handle_add_node(&mut self, state: &mut RaftState, log: &LogStore, request: AddNodeRequest) -> (r: AddNodeResponse)
        requires
            request.term >= old(state).persistent.current_term && add_refusal(
                old(self).in_progress(),
                &*old(state),
                request.node_id,
            ) is None && old(state).leader_state is Some ==> log@.last_index_u64() < u64::MAX,
        ensures
            r.term == old(state).persistent.current_term,
            r.success == (request.term >= old(state).persistent.current_term
                && add_refusal(old(self).in_progress(), &*old(state), request.node_id) is None),
            !r.success ==> *final(state) == *old(state),
            r.success ==> final(state).peers@ == old(state).peers@.push(request.node_id),
            old(state).wf() ==> final(state).wf(),
            final(self).in_progress() == old(self).in_progress(),
    {
        let current_term = state.persistent.current_term;
        if request.term < current_term {
            return AddNodeResponse { term: current_term, success: false };
        }
        let result = self.add_node(state, log, request.node_id, request.node_addr);
        AddNodeResponse { term: current_term, success: result.is_ok() }
    }

    /// Answers a remove-node request: refused for an older term, otherwise
    /// answered with whether the node was removed; the term is the one the
    /// node had when the request arrived.
    pub fn handle_remove_node(&mut self, state: &mut RaftState, request: RemoveNodeRequest) -> (r: RemoveNodeResponse)
        requires
            request.term >= old(state).persistent.current_term ==> remove_slots_exist(
                old(self).in_progress(),
                &*old(state),
                request.node_id,
            ),
        ensures
            r.term == old(state).persistent.current_term,
            r.success == (request.term >= old(state).persistent.current_term
                && remove_refusal(old(self).in_progress(), &*old(state), request.node_id) is None),
            !r.success ==> *final(state) == *old(state),
            r.success ==> final(state).peers@ == old(state).peers@.remove(
                first_position(old(state).peers@, request.node_id),
            ),
            old(state).wf() ==> final(state).wf(),
            final(self).in_progress() == old(self).in_progress(),
    {
        let current_term = state.persistent.current_term;
        if request.term < current_term {
            return RemoveNodeResponse { term: current_term, success: false };
        }
        let result = self.remove_node(state, request.node_id);
        RemoveNodeResponse { term: current_term, success: result.is_ok() }
    }

    /// Replays a configuration change read back from the log.
    pub fn apply_config_change(&mut self, state: &mut RaftState, log: &LogStore, change_type: ChangeType, node_id: u32, node_addr: Option<String>) -> (r: Result<(), String>)
        requires
            change_type == ChangeType::RemoveNode ==> remove_slots_exist(old(self).in_progress(), &*old(state), node_id),
            change_type == ChangeType::AddNode && add_refusal(old(self).in_progress(), &*old(state), node_id) is None
                && old(state).leader_state is Some ==> log@.last_index_u64() < u64::MAX,
        ensures
            change_type == ChangeType::AddNode ==> reports(&r, add_refusal(old(self).in_progress(), &*old(state), node_id)),
            change_type == ChangeType::RemoveNode ==> reports(&r, remove_refusal(old(self).in_progress(), &*old(state), node_id)),
            change_type == ChangeType::AddNode && r is Ok ==> final(state).peers@ == old(state).peers@.push(node_id),
            change_type == ChangeType::RemoveNode && r is Ok ==> final(state).peers@ == old(state).peers@.remove(
                first_position(old(state).peers@, node_id),
            ),
            r is Err ==> *final(state) == *old(state),
            old(state).wf() ==> final(state).wf(),
    {
        match change_type {
            ChangeType::AddNode => {
                let addr = match node_addr {
                    Some(a) => a,
                    None => String::new(),
                };
                self.add_node(state, log, node_id, addr)
            },
            ChangeType::RemoveNode => self.remove_node(state, node_id),
        }
    }
}

/// Whether `peers` holds `node_id`.
fn peers_contain(peers: &Vec<u32>, node_id: u32) -> (r: bool)
    ensures
        r == peers@.contains(node_id),
{
    match position_in(peers, node_id) {
        Some(_) => true,
        None => false,
    }
}

/// Position of the first `node_id` in `peers`.
fn position_in(peers: &Vec<u32>, node_id: u32) -> (r: Option<usize>)
    ensures
        r is None <==> !peers@.contains(node_id),
        r is Some ==> r->0 == first_position(peers@, node_id) && r->0 < peers.len(),
{
    let mut i: usize = 0;
    while i < peers.len()
        invariant
            i <= peers.len(),
            forall|j: int| 0 <= j < i ==> peers@[j] != node_id,
        decreases peers.len() - i,
    {
        if peers[i] == node_id {
            let ghost k = first_position(peers@, node_id);
            assert(0 <= k < peers.len() && peers@[k] == node_id && forall|j: int| 0 <= j < k ==> peers@[j] != node_id) by {
                assert(0 <= i < peers.len() && peers@[i as int] == node_id && forall|j: int| 0 <= j < i ==> peers@[j] != node_id);
            }
            proof {
                if k < i as int {
                    assert(peers@[k] != node_id);
                }
                if k > i as int {
                    assert(peers@[i as int] != node_id);
                }
            }
            return Some(i);
        }
        i = i + 1;
    }
    None
}


/// The first position of a value appended to a sequence that did not hold
/// it is the end of the old sequence.
proof fn lemma_first_position_of_appended(s: Seq<u32>, x: u32)
    requires
        !s.contains(x),
    ensures
        first_position(s.push(x), x) == s.len(),
{
    let t = s.push(x);
    assert(0 <= s.len() < t.len() && t[s.len() as int] == x && forall|j: int| 0 <= j < s.len() ==> t[j] != x) by {
        assert forall|j: int| 0 <= j < s.len() implies t[j] != x by {
            assert(t[j] == s[j]);
        }
    }
    let i = first_position(t, x);
    if i < s.len() {
        assert(s[i] == x);
    }
}

/// Adding a node and then removing it, with no other change in between,
/// succeeds both times and gives back the peers and the leader's vectors
/// as they were.
pub proof fn lemma_add_then_remove_restores(before: &RaftState, after: &RaftState, node_id: u32, next_index: u64)
    requires
        add_refusal(false, before, node_id) is None,
        after.role == before.role,
        after.node_id == before.node_id,
        after.peers@ == before.peers@.push(node_id),
    ensures
        remove_refusal(false, after, node_id) is None,
        after.peers@.remove(first_position(after.peers@, node_id)) == before.peers@,
        forall|next: Seq<u64>| #![trigger next.push(next_index)] next.len() == before.peers.len() + 1
            ==> next.push(next_index).remove(first_position(after.peers@, node_id) + 1) == next,
{
    lemma_first_position_of_appended(before.peers@, node_id);
    assert(after.peers@.contains(node_id)) by {
        assert(after.peers@[before.peers.len() as int] == node_id);
    }
    assert(after.peers@.remove(before.peers.len() as int) =~= before.peers@);
    assert forall|next: Seq<u64>| #![trigger next.push(next_index)] next.len() == before.peers.len() + 1
        implies next.push(next_index).remove(first_position(after.peers@, node_id) + 1) == next by {
        assert(next.push(next_index).remove(next.len() as int) =~= next);
    }
}

} // verus!
