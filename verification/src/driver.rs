//! What a node does on each tick of its main loop.

use crate::state::NodeRole;
use vstd::prelude::*;

verus! {

/// The work a tick calls for, besides applying committed entries and
/// compacting the log, which every tick does.
#[derive(Clone, Copy, Debug, PartialEq, Eq, Structural)]
pub enum TickAction {
    /// The election timeout passed: run a pre-vote, then an election.
    StartElection,
    /// A heartbeat is due: send it, then advance the commit index.
    Heartbeat,
    /// Nothing to start.
    Idle,
}

/// Followers and candidates start an election when their timeout passed;
/// leaders send a heartbeat when one is due.
pub fn tick_action(role: NodeRole, election_timed_out: bool, heartbeat_due: bool) -> (r: TickAction)
    ensures
        r == (match role {
            NodeRole::Leader => if heartbeat_due { TickAction::Heartbeat } else { TickAction::Idle },
            _ => if election_timed_out { TickAction::StartElection } else { TickAction::Idle },
        }),
{
    match role {
        NodeRole::Follower | NodeRole::Candidate => {
            if election_timed_out {
                TickAction::StartElection
            } else {
                TickAction::Idle
            }
        },
        NodeRole::Leader => {
            if heartbeat_due {
                TickAction::Heartbeat
            } else {
                TickAction::Idle
            }
        },
    }
}

} // verus!
