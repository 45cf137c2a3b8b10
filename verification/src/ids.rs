//! Identities shared by the control plane and the consensus core.

use crate::order::Keyed;
use vstd::prelude::*;

verus! {

/// Identity of one tablet.
#[derive(Debug, Clone, Copy, PartialEq, Eq, PartialOrd, Ord, Hash, Structural)]
pub struct TabletId(pub u64);

impl TabletId {
    /// Wraps a raw tablet id.
    pub fn from_u64(value: u64) -> (id: Self)
        ensures
            id.0 == value,
    {
        TabletId(value)
    }

    /// Returns the raw value.
    pub fn as_u64(self) -> (value: u64)
        ensures
            value == self.0,
    {
        self.0
    }
}

impl Keyed for TabletId {
    open spec fn key(self) -> u64 {
        self.0
    }

    fn raw(self) -> u64 {
        self.0
    }

    proof fn lemma_key_injective(a: Self, b: Self) {
    }
}

/// Stable identity of one cluster node.
#[derive(Debug, Clone, Copy, PartialEq, Eq, PartialOrd, Ord, Hash, Structural)]
pub struct NodeId(pub u64);

impl NodeId {
    /// Wraps a raw node id.
    pub fn from_u64(value: u64) -> (id: Self)
        ensures
            id.0 == value,
    {
        NodeId(value)
    }

    /// Returns the raw value.
    pub fn as_u64(self) -> (value: u64)
        ensures
            value == self.0,
    {
        self.0
    }
}

impl Keyed for NodeId {
    open spec fn key(self) -> u64 {
        self.0
    }

    fn raw(self) -> u64 {
        self.0
    }

    proof fn lemma_key_injective(a: Self, b: Self) {
    }
}

/// Identity of one namespace.
#[derive(Debug, Clone, Copy, PartialEq, Eq, PartialOrd, Ord, Hash, Structural)]
pub struct NamespaceId(pub u64);

impl NamespaceId {
    /// Wraps a raw namespace id.
    pub fn from_u64(value: u64) -> (id: Self)
        ensures
            id.0 == value,
    {
        NamespaceId(value)
    }

    /// Returns the raw value.
    pub fn as_u64(self) -> (value: u64)
        ensures
            value == self.0,
    {
        self.0
    }
}

/// Identity of one cluster.
#[derive(Debug, Clone, Copy, PartialEq, Eq, PartialOrd, Ord, Hash, Structural)]
pub struct ClusterId(pub u128);

impl ClusterId {
    /// Wraps a raw cluster id.
    pub fn from_u128(value: u128) -> (id: Self)
        ensures
            id.0 == value,
    {
        ClusterId(value)
    }

    /// Returns the raw value.
    pub fn as_u128(self) -> (value: u128)
        ensures
            value == self.0,
    {
        self.0
    }
}

/// Position of one observation in its stream.
#[derive(Debug, Clone, Copy, PartialEq, Eq, PartialOrd, Ord, Hash, Structural)]
pub struct ObservationSequence(pub u64);

impl ObservationSequence {
    /// The first position.
    pub fn first() -> (sequence: Self)
        ensures
            sequence.0 == 1,
    {
        ObservationSequence(1)
    }

    /// Wraps a raw position.
    pub fn from_u64(value: u64) -> (sequence: Self)
        ensures
            sequence.0 == value,
    {
        ObservationSequence(value)
    }

    /// Returns the raw value.
    pub fn as_u64(self) -> (value: u64)
        ensures
            value == self.0,
    {
        self.0
    }

    /// The next position, unless the numbers are exhausted.
    pub fn next(self) -> (next: Option<Self>)
        ensures
            next == if self.0 < u64::MAX {
                Some(ObservationSequence((self.0 + 1) as u64))
            } else {
                None
            },
    {
        match self.0.checked_add(1) {
            Some(value) => Some(ObservationSequence(value)),
            None => None,
        }
    }
}

/// Identity of one observation window.
#[derive(Debug, Clone, Copy, PartialEq, Eq, PartialOrd, Ord, Hash, Structural)]
pub struct ObservationWindowId(pub u64);

impl ObservationWindowId {
    /// The first window.
    pub fn first() -> (window: Self)
        ensures
            window.0 == 1,
    {
        ObservationWindowId(1)
    }

    /// Wraps a raw window id.
    pub fn from_u64(value: u64) -> (window: Self)
        ensures
            window.0 == value,
    {
        ObservationWindowId(value)
    }

    /// Returns the raw value.
    pub fn as_u64(self) -> (value: u64)
        ensures
            value == self.0,
    {
        self.0
    }

    /// The next window, unless the numbers are exhausted.
    pub fn next(self) -> (next: Option<Self>)
        ensures
            next == if self.0 < u64::MAX {
                Some(ObservationWindowId((self.0 + 1) as u64))
            } else {
                None
            },
    {
        match self.0.checked_add(1) {
            Some(value) => Some(ObservationWindowId(value)),
            None => None,
        }
    }
}

/// Identity of one client session.
#[derive(Debug, Clone, Copy, PartialEq, Eq, PartialOrd, Ord, Hash, Structural)]
pub struct SessionId(pub u128);

impl SessionId {
    /// Wraps a raw value.
    pub fn from_u128(value: u128) -> (id: Self)
        ensures
            id.0 == value,
    {
        SessionId(value)
    }

    /// Returns the raw value.
    pub fn as_u128(self) -> (value: u128)
        ensures
            value == self.0,
    {
        self.0
    }
}

/// Position of one request in its session.
#[derive(Debug, Clone, Copy, PartialEq, Eq, PartialOrd, Ord, Hash, Structural)]
pub struct RequestSeq(pub u64);

impl RequestSeq {
    /// Wraps a raw value.
    pub fn from_u64(value: u64) -> (id: Self)
        ensures
            id.0 == value,
    {
        RequestSeq(value)
    }

    /// Returns the raw value.
    pub fn as_u64(self) -> (value: u64)
        ensures
            value == self.0,
    {
        self.0
    }
}

/// Position of one commit in a tablet history; zero names no log slot.
#[derive(Debug, Clone, Copy, PartialEq, Eq, PartialOrd, Ord, Hash, Structural)]
pub struct CommitPosition(pub u64);

impl CommitPosition {
    /// No log slot.
    pub fn unassigned() -> (id: Self)
        ensures
            id.0 == 0,
    {
        CommitPosition(0)
    }

    /// The first log slot.
    pub fn first() -> (id: Self)
        ensures
            id.0 == 1,
    {
        CommitPosition(1)
    }

    /// Wraps a raw value.
    pub fn from_u64(value: u64) -> (id: Self)
        ensures
            id.0 == value,
    {
        CommitPosition(value)
    }

    /// Returns the raw value.
    pub fn as_u64(self) -> (value: u64)
        ensures
            value == self.0,
    {
        self.0
    }
}

/// Generation of a tablet.
#[derive(Debug, Clone, Copy, PartialEq, Eq, PartialOrd, Ord, Hash, Structural)]
pub struct TabletEpoch(pub u64);

impl TabletEpoch {
    /// The first generation.
    pub fn initial() -> (id: Self)
        ensures
            id.0 == 1,
    {
        TabletEpoch(1)
    }

    /// Wraps a raw value.
    pub fn from_u64(value: u64) -> (id: Self)
        ensures
            id.0 == value,
    {
        TabletEpoch(value)
    }

    /// Returns the raw value.
    pub fn as_u64(self) -> (value: u64)
        ensures
            value == self.0,
    {
        self.0
    }
}

/// Generation of a write guard.
#[derive(Debug, Clone, Copy, PartialEq, Eq, PartialOrd, Ord, Hash, Structural)]
pub struct WriteGuardGeneration(pub u64);

impl WriteGuardGeneration {
    /// The first generation.
    pub fn initial() -> (id: Self)
        ensures
            id.0 == 1,
    {
        WriteGuardGeneration(1)
    }

    /// Wraps a raw value.
    pub fn from_u64(value: u64) -> (id: Self)
        ensures
            id.0 == value,
    {
        WriteGuardGeneration(value)
    }

    /// Returns the raw value.
    pub fn as_u64(self) -> (value: u64)
        ensures
            value == self.0,
    {
        self.0
    }
}

/// Generation of a node process.
#[derive(Debug, Clone, Copy, PartialEq, Eq, PartialOrd, Ord, Hash, Structural)]
pub struct NodeIncarnation(pub u64);

impl NodeIncarnation {
    /// The first generation.
    pub fn initial() -> (id: Self)
        ensures
            id.0 == 1,
    {
        NodeIncarnation(1)
    }

    /// Wraps a raw value.
    pub fn from_u64(value: u64) -> (id: Self)
        ensures
            id.0 == value,
    {
        NodeIncarnation(value)
    }

    /// Returns the raw value.
    pub fn as_u64(self) -> (value: u64)
        ensures
            value == self.0,
    {
        self.0
    }
}

/// Who may write to a tablet: its identity and the generations that fence writers.
#[derive(Debug, Clone, Copy, PartialEq, Eq, Hash, Structural)]
pub struct TabletAuthority {
    /// The tablet.
    pub tablet: TabletId,
    /// Its generation.
    pub epoch: TabletEpoch,
    /// The generation of its write guard.
    pub guard: WriteGuardGeneration,
}

impl TabletAuthority {
    /// Builds an authority from its parts.
    pub fn new(tablet: TabletId, epoch: TabletEpoch, guard: WriteGuardGeneration) -> (authority:
        Self)
        ensures
            authority == (TabletAuthority { tablet, epoch, guard }),
    {
        TabletAuthority { tablet, epoch, guard }
    }
}

} // verus!
