//! What the monitoring endpoint reports: gauge values read off the node's
//! state, readiness, and which page a path asks for.

use crate::state::{NodeRole, RaftState};
use vstd::prelude::*;

verus! {

/// The value the role gauge takes: 0 follower, 1 candidate, 2 leader.
pub open spec fn role_gauge_spec(role: NodeRole) -> i64 {
    match role {
        NodeRole::Follower => 0,
        NodeRole::Candidate => 1,
        NodeRole::Leader => 2,
    }
}

/// The value the role gauge takes.
pub fn role_gauge(role: NodeRole) -> (r: i64)
    ensures
        r == role_gauge_spec(role),
{
    match role {
        NodeRole::Follower => 0,
        NodeRole::Candidate => 1,
        NodeRole::Leader => 2,
    }
}

/// The role as health reports name it.
pub fn role_label(role: NodeRole) -> (r: String)
    ensures
        r@ == (match role {
            NodeRole::Follower => "follower"@,
            NodeRole::Candidate => "candidate"@,
            NodeRole::Leader => "leader"@,
        }),
{
    match role {
        NodeRole::Follower => String::from_str("follower"),
        NodeRole::Candidate => String::from_str("candidate"),
        NodeRole::Leader => String::from_str("leader"),
    }
}

/// The gauge values read off a node's state.
#[derive(Clone, Copy, Debug, PartialEq, Eq, Structural)]
pub struct GaugeValues {
    pub current_term: i64,
    pub node_role: i64,
    pub commit_index: i64,
    pub last_applied: i64,
    pub cluster_size: i64,
    pub lease_valid: i64,
}

/// Reads the gauges off `state`: counters as signed gauge values, the role,
/// the cluster size with this node, and 1 for a leader whose lease holds
/// now (which reads the clock), 0 otherwise.
pub fn gauge_values(state: &RaftState) -> (r: GaugeValues)
    requires
        state.peers.len() < i64::MAX,
    ensures
        r.current_term == state.persistent.current_term as i64,
        r.node_role == role_gauge_spec(state.role),
        r.commit_index == state.volatile.commit_index as i64,
        r.last_applied == state.volatile.last_applied as i64,
        r.cluster_size == state.peers.len() + 1,
        r.lease_valid == 0 || r.lease_valid == 1,
        r.lease_valid == 1 ==> state.role == NodeRole::Leader && state.leader_state is Some
            && state.leader_state->0.lease.was_renewed(),
{
    let lease_valid: i64 = if state.role == NodeRole::Leader {
        match &state.leader_state {
            Some(ls) => if ls.lease.is_valid() { 1 } else { 0 },
            None => 0,
        }
    } else {
        0
    };
    GaugeValues {
        current_term: state.persistent.current_term as i64,
        node_role: role_gauge(state.role),
        commit_index: state.volatile.commit_index as i64,
        last_applied: state.volatile.last_applied as i64,
        cluster_size: state.peers.len() as i64 + 1,
        lease_valid,
    }
}

/// A node is ready once it has peers, or when it leads.
pub fn is_ready(state: &RaftState) -> (r: bool)
    ensures
        r == (state.peers.len() > 0 || state.role == NodeRole::Leader),
{
    state.peers.len() > 0 || state.role == NodeRole::Leader
}

/// The pages the monitoring endpoint serves.
#[derive(Clone, Copy, Debug, PartialEq, Eq, Structural)]
pub enum Endpoint {
    Metrics,
    Health,
    Ready,
    Index,
    NotFound,
}

/// The page a request path asks for.
pub open spec fn route_spec(path: Seq<char>) -> Endpoint {
    if path == "/metrics"@ {
        Endpoint::Metrics
    } else if path == "/health"@ || path == "/healthz"@ {
        Endpoint::Health
    } else if path == "/ready"@ || path == "/readyz"@ {
        Endpoint::Ready
    } else if path == "/"@ {
        Endpoint::Index
    } else {
        Endpoint::NotFound
    }
}

/// The page a request path asks for.
pub fn route(path: &str) -> (r: Endpoint)
    ensures
        r == route_spec(path@),
{
    let p = path.to_owned();
    if p == String::from_str("/metrics") {
        Endpoint::Metrics
    } else if p == String::from_str("/health") || p == String::from_str("/healthz") {
        Endpoint::Health
    } else if p == String::from_str("/ready") || p == String::from_str("/readyz") {
        Endpoint::Ready
    } else if p == String::from_str("/") {
        Endpoint::Index
    } else {
        Endpoint::NotFound
    }
}

/// The HTTP status a page is answered with: 503 for readiness while not
/// ready, 404 for an unknown page, 200 otherwise.
pub fn status_code(endpoint: Endpoint, ready: bool) -> (r: u16)
    ensures
        r == (if endpoint == Endpoint::NotFound {
            404u16
        } else if endpoint == Endpoint::Ready && !ready {
            503u16
        } else {
            200u16
        }),
{
    match endpoint {
        Endpoint::NotFound => 404,
        Endpoint::Ready => if ready { 200 } else { 503 },
        _ => 200,
    }
}

} // verus!
