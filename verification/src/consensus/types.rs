//! The vocabulary of consensus.
//!
//! These types are plain data over Kivi identities, so that what runs the consensus
//! protocol can change without changing its callers.

use crate::decimal::{decimal, push_decimal};
use crate::ids::{NodeId, TabletId};
use vstd::prelude::*;

verus! {

/// Identity of one replicated tablet group.
#[derive(Debug, Clone, Copy, PartialEq, Eq, PartialOrd, Ord, Hash, Structural)]
pub struct ConsensusGroupId(TabletId);

impl ConsensusGroupId {
    /// The replicated tablet.
    pub closed spec fn replicates(self) -> TabletId {
        self.0
    }

    /// Wraps the tablet that this group replicates.
    pub fn of_tablet(tablet: TabletId) -> (group: Self)
        ensures
            group.replicates() == tablet,
    {
        ConsensusGroupId(tablet)
    }

    /// Returns the replicated tablet.
    pub fn tablet(self) -> (tablet: TabletId)
        ensures
            tablet == self.replicates(),
    {
        self.0
    }
}

/// Identity of one replica inside a consensus group.
#[derive(Debug, Clone, Copy, PartialEq, Eq, PartialOrd, Ord, Hash, Structural)]
pub struct ReplicaId(NodeId);

impl ReplicaId {
    /// The serving node.
    pub closed spec fn served_by(self) -> NodeId {
        self.0
    }

    /// Wraps the node that serves this replica.
    pub fn of_node(node: NodeId) -> (replica: Self)
        ensures
            replica.served_by() == node,
    {
        ReplicaId(node)
    }

    /// Returns the serving node.
    pub fn node(self) -> (node: NodeId)
        ensures
            node == self.served_by(),
    {
        self.0
    }
}

/// A leader generation. A larger term supersedes a smaller one of the same group.
#[derive(Debug, Clone, Copy, PartialEq, Eq, PartialOrd, Ord, Hash, Structural)]
pub struct ConsensusTerm(u64);

impl ConsensusTerm {
    /// The raw term.
    pub closed spec fn raw(self) -> u64 {
        self.0
    }

    /// The zero term: no election has completed.
    pub fn initial() -> (term: Self)
        ensures
            term.raw() == 0,
    {
        ConsensusTerm(0)
    }

    /// Wraps a raw term.
    pub fn new(term: u64) -> (wrapped: Self)
        ensures
            wrapped.raw() == term,
    {
        ConsensusTerm(term)
    }

    /// Returns the raw term.
    pub fn get(self) -> (term: u64)
        ensures
            term == self.raw(),
    {
        self.0
    }

    /// Renders the term for logs.
    pub fn render(self) -> (text: String)
        ensures
            text@ == "term("@ + decimal(self.raw() as nat) + ")"@,
    {
        let mut text: String = "term(".to_owned();
        push_decimal(&mut text, self.0 as u128);
        text.append(")");
        text
    }
}

/// A position in a group's log. Zero means that there are no entries.
#[derive(Debug, Clone, Copy, PartialEq, Eq, PartialOrd, Ord, Hash, Structural)]
pub struct ConsensusLogIndex(u64);

impl ConsensusLogIndex {
    /// The raw index.
    pub closed spec fn raw(self) -> u64 {
        self.0
    }

    /// No entries.
    pub fn none() -> (index: Self)
        ensures
            index.raw() == 0,
    {
        ConsensusLogIndex(0)
    }

    /// Wraps a raw index.
    pub fn new(index: u64) -> (wrapped: Self)
        ensures
            wrapped.raw() == index,
    {
        ConsensusLogIndex(index)
    }

    /// Returns the raw index.
    pub fn get(self) -> (index: u64)
        ensures
            index == self.raw(),
    {
        self.0
    }

    /// Renders the index for logs.
    pub fn render(self) -> (text: String)
        ensures
            text@ == "index("@ + decimal(self.raw() as nat) + ")"@,
    {
        let mut text: String = "index(".to_owned();
        push_decimal(&mut text, self.0 as u128);
        text.append(")");
        text
    }
}

/// The role of a replica in its group, as last observed.
#[derive(Debug, Clone, Copy, PartialEq, Eq, Hash, Structural)]
pub enum ReplicaRole {
    /// Holds a current lease on leadership.
    Leader,
    /// Follows the current leader.
    Follower,
    /// Campaigns.
    Candidate,
}

impl ReplicaRole {
    /// Renders the role for logs.
    pub fn render(self) -> (text: String)
        ensures
            text@ == match self {
                ReplicaRole::Leader => "leader"@,
                ReplicaRole::Follower => "follower"@,
                ReplicaRole::Candidate => "candidate"@,
            },
    {
        match self {
            ReplicaRole::Leader => "leader".to_owned(),
            ReplicaRole::Follower => "follower".to_owned(),
            ReplicaRole::Candidate => "candidate".to_owned(),
        }
    }
}

/// Where a replica that does not lead believes clients should retry.
#[derive(Debug, Clone, Copy, PartialEq, Eq, Hash, Structural)]
pub struct LeaderHint {
    /// The best-known leader, if any is known.
    pub leader: Option<ReplicaId>,
}

impl LeaderHint {
    /// No leader is known.
    pub fn unknown() -> (hint: Self)
        ensures
            hint == (LeaderHint { leader: None }),
    {
        LeaderHint { leader: None }
    }

    /// Points at a known leader.
    pub fn known(leader: ReplicaId) -> (hint: Self)
        ensures
            hint == (LeaderHint { leader: Some(leader) }),
    {
        LeaderHint { leader: Some(leader) }
    }
}

/// A linearizable-read barrier: the leadership that produced it and the apply boundary
/// that a read must cover.
#[derive(Debug, Clone, Copy, PartialEq, Eq, Hash, Structural)]
pub struct ReadBarrier {
    /// Term of the leadership that produced the barrier.
    pub term: ConsensusTerm,
    /// Leader of the producing leadership.
    pub leader: ReplicaId,
    /// Inclusive apply boundary.
    pub boundary: ConsensusLogIndex,
}

/// Read-only diagnostics of one group.
#[derive(Debug, Clone, Copy, PartialEq, Eq, Hash, Structural)]
pub struct ConsensusStatus {
    /// Group described.
    pub group: ConsensusGroupId,
    /// This replica.
    pub replica: ReplicaId,
    /// Observed role.
    pub role: ReplicaRole,
    /// Observed term.
    pub term: ConsensusTerm,
    /// Best-known leader.
    pub leader: Option<ReplicaId>,
    /// Last log entry.
    pub last_log: ConsensusLogIndex,
    /// Last committed entry.
    pub committed: ConsensusLogIndex,
    /// Last entry applied to the tablet state machine.
    pub applied: ConsensusLogIndex,
}

/// Consensus failures that travel to clients.
#[derive(Debug, Clone, PartialEq, Eq)]
#[non_exhaustive]
pub enum ConsensusError {
    /// This replica is not the leader; retry at the hint when present.
    NotLeader {
        /// Where to retry.
        hint: LeaderHint,
    },
    /// No leader is currently known.
    LeaderUnknown,
    /// The consensus subsystem cannot make progress.
    Unavailable {
        /// Human-readable cause.
        reason: String,
    },
    /// The replica is shutting down.
    ShuttingDown,
}

/// What a proposal carries. The mutation is opaque deterministic bytes.
#[derive(Debug, Clone, PartialEq, Eq)]
pub struct ProposeEnvelope {
    /// Group addressed.
    pub group: ConsensusGroupId,
    /// Deterministic mutation bytes.
    pub payload: Vec<u8>,
}

/// What a committed proposal gives back.
#[derive(Debug, Clone, PartialEq, Eq)]
pub struct ProposedOutcome {
    /// Committed log index of the proposal.
    pub index: ConsensusLogIndex,
    /// Deterministic outcome bytes for the request identity.
    pub outcome: Vec<u8>,
}

} // verus!
