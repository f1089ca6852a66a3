//! Error types of the consensus core.
use vstd::prelude::*;

verus! {

/// Why the consensus core dropped an event. All of these are recovered
/// locally: the event is dropped and nothing else changes.
#[derive(Clone, Copy, Debug, PartialEq, Eq)]
pub enum ConsensusError {
    /// A view change to a view that is not larger than the current one.
    StaleView,
    /// A timeout for a view that is already superseded.
    StaleTimeout,
    /// This node holds no stake in the timeout committee.
    NotOnCommittee,
    /// This node does not lead the view after the vote's view.
    NotLeader,
}

/// Error of the network task.
#[derive(Clone, Copy, Debug, PartialEq, Eq)]
pub struct NetworkTaskError {}

/// Contains information about what the state of the consensus was when a round timed out.
#[derive(Clone, Copy, Debug, PartialEq, Eq)]
#[non_exhaustive]
pub enum RoundTimedoutState {
    /// Leader is in a Prepare phase and is waiting for a HighQC
    LeaderWaitingForHighQC,
    /// Leader is in a Prepare phase and timed out before the round min time is reached
    LeaderMinRoundTimeNotReached,
    /// Leader is waiting for prepare votes
    LeaderWaitingForPrepareVotes,
    /// Leader is waiting for precommit votes
    LeaderWaitingForPreCommitVotes,
    /// Leader is waiting for commit votes
    LeaderWaitingForCommitVotes,
    /// Replica is waiting for a prepare message
    ReplicaWaitingForPrepare,
    /// Replica is waiting for a pre-commit message
    ReplicaWaitingForPreCommit,
    /// Replica is waiting for a commit message
    ReplicaWaitingForCommit,
    /// Replica is waiting for a decide message
    ReplicaWaitingForDecide,
    /// Testing tried to collect round events, but it timed out
    TestCollectRoundEventsTimedOut,
}

} // verus!
