//! The messages nodes and clients exchange, as plain values.

use crate::log::LogEntry;
use vstd::prelude::*;

verus! {

/// A candidate asks for a vote.
#[derive(Clone, Copy, Debug, PartialEq, Eq, Structural)]
pub struct VoteRequest {
    pub term: u64,
    pub candidate_id: u32,
    pub last_log_index: u64,
    pub last_log_term: u64,
}

/// The answer to a vote request.
#[derive(Clone, Copy, Debug, PartialEq, Eq, Structural)]
pub struct VoteResponse {
    pub term: u64,
    pub vote_granted: bool,
}

/// A would-be candidate asks whether it could win `term`, before raising
/// its own term.
#[derive(Clone, Copy, Debug, PartialEq, Eq, Structural)]
pub struct PreVoteRequest {
    pub term: u64,
    pub candidate_id: u32,
    pub last_log_index: u64,
    pub last_log_term: u64,
}

/// The answer to a pre-vote request.
#[derive(Clone, Copy, Debug, PartialEq, Eq, Structural)]
pub struct PreVoteResponse {
    pub term: u64,
    pub vote_granted: bool,
}

/// A leader's heartbeat, carrying the entries a follower lacks.
#[derive(Debug)]
pub struct AppendEntriesRequest {
    pub term: u64,
    pub leader_id: u32,
    pub prev_log_index: u64,
    pub prev_log_term: u64,
    pub entries: Vec<LogEntry>,
    pub leader_commit: u64,
}

/// A follower's answer to a heartbeat.
#[derive(Clone, Copy, Debug, PartialEq, Eq, Structural)]
pub struct AppendEntriesResponse {
    pub term: u64,
    pub success: bool,
    pub match_index: u64,
}

/// A request to add a node to the cluster.
#[derive(Debug)]
pub struct AddNodeRequest {
    pub term: u64,
    pub node_id: u32,
    pub node_addr: String,
}

/// The answer to an add-node request.
#[derive(Clone, Copy, Debug, PartialEq, Eq, Structural)]
pub struct AddNodeResponse {
    pub term: u64,
    pub success: bool,
}

/// A request to remove a node from the cluster.
#[derive(Clone, Copy, Debug, PartialEq, Eq, Structural)]
pub struct RemoveNodeRequest {
    pub term: u64,
    pub node_id: u32,
}

/// The answer to a remove-node request.
#[derive(Clone, Copy, Debug, PartialEq, Eq, Structural)]
pub struct RemoveNodeResponse {
    pub term: u64,
    pub success: bool,
}

/// The kind of a configuration change recorded in the log.
#[derive(Clone, Copy, Debug, PartialEq, Eq, Structural)]
pub enum ChangeType {
    AddNode,
    RemoveNode,
}

/// The answer to a client read.
#[derive(Debug)]
pub struct GetResponse {
    pub found: bool,
    pub value: Vec<u8>,
    pub error: String,
    pub leader_hint: u32,
}

/// The answer to a client write.
#[derive(Debug)]
pub struct PutResponse {
    pub success: bool,
    pub error: String,
    pub leader_hint: u32,
}

/// The answer to a client delete.
#[derive(Debug)]
pub struct DeleteResponse {
    pub success: bool,
    pub error: String,
    pub leader_hint: u32,
}

} // verus!
