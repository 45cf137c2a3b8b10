//! Desired placement of tablets.
//!
//! For every tablet the control plane owns a [`DesiredReplicaSet`]. The
//! tablet's own membership remains authoritative for its actual voters:
//! placement has not changed merely because the control plane asked for it.
//!
//! [`PlacementVersion`] counts placement transitions. Key-range topology has a
//! counter of its own.

use crate::control::roster::{
    get_nodes, lemma_nodes_bytes_len, lemma_nodes_round_trip, lists_node, nodes_at, nodes_bytes,
    put_nodes,
};
use crate::ids::{NodeId, TabletId};
use crate::order::{
    ascending, canonical, find_repeat, first_repeat, lemma_canonical, lemma_canonical_fixed,
    smallest_repeated, sort_unique,
};
use crate::wire::{
    get_u32, get_u64, group_fields, len_prefix, put_u32, put_u64, u32_at, u32_bytes,
    u64_at, u64_bytes, view_result, wire_len,
};
use std::collections::BTreeSet;
use vstd::prelude::*;

verus! {

/// Monotonic placement version: every committed change of desired placement
/// advances it by exactly one.
#[derive(Debug, Clone, Copy, PartialEq, Eq, PartialOrd, Ord, Hash, Structural)]
pub struct PlacementVersion(pub u64);

impl PlacementVersion {
    /// Invalid sentinel: no placement was ever published at version zero.
    pub fn invalid() -> (version: Self)
        ensures
            version.0 == 0,
    {
        PlacementVersion(0)
    }

    /// First version, assigned when the cluster is bootstrapped.
    pub fn initial() -> (version: Self)
        ensures
            version.0 == 1,
    {
        PlacementVersion(1)
    }

    /// Wraps a raw version value.
    pub fn from_u64(value: u64) -> (version: Self)
        ensures
            version.0 == value,
    {
        PlacementVersion(value)
    }

    /// Returns the raw value.
    pub fn as_u64(self) -> (value: u64)
        ensures
            value == self.0,
    {
        self.0
    }

    /// Successor version.
    pub fn next(self) -> (result: Result<Self, PlacementError>)
        ensures
            match result {
                Ok(next) => self.0 < u64::MAX && next.0 == self.0 + 1,
                Err(error) => self.0 == u64::MAX && error == PlacementError::VersionExhausted,
            },
    {
        match self.0.checked_add(1) {
            Some(next) => Ok(PlacementVersion(next)),
            None => Err(PlacementError::VersionExhausted),
        }
    }
}

/// Why a desired placement was rejected.
#[derive(Debug, Clone, Copy, PartialEq, Eq, Structural)]
#[non_exhaustive]
pub enum PlacementError {
    /// Placement names no replicas.
    EmptyReplicas {
        /// The affected tablet.
        tablet: u64,
    },
    /// Placement repeats a voter.
    DuplicateVoter {
        /// The affected tablet.
        tablet: u64,
        /// The repeated voter.
        node: u64,
    },
    /// Version counter exhausted.
    VersionExhausted,
    /// Truncated canonical input.
    Truncated,
    /// Trailing bytes after the framed placement.
    TrailingBytes,
}

/// Desired voter set for one tablet, at one placement version.
#[derive(Debug, PartialEq, Eq)]
pub struct DesiredReplicaSet {
    /// Tablet placed.
    pub tablet: TabletId,
    /// Desired voters in ascending order.
    pub replicas: Vec<NodeId>,
    /// Placement version that published this set.
    pub version: PlacementVersion,
}

/// What a [`DesiredReplicaSet`] says.
#[verifier::ext_equal]
pub struct DesiredReplicaSetView {
    pub tablet: TabletId,
    pub replicas: Seq<NodeId>,
    pub version: PlacementVersion,
}

impl View for DesiredReplicaSet {
    type V = DesiredReplicaSetView;

    open spec fn view(&self) -> DesiredReplicaSetView {
        DesiredReplicaSetView {
            tablet: self.tablet,
            replicas: self.replicas@,
            version: self.version,
        }
    }
}

impl Clone for DesiredReplicaSet {
    fn clone(&self) -> (copy: Self)
        ensures
            copy@ == self@,
    {
        DesiredReplicaSet {
            tablet: self.tablet,
            replicas: crate::control::roster::clone_nodes(&self.replicas),
            version: self.version,
        }
    }
}

impl DesiredReplicaSetView {
    /// At least one voter, each named once, in ascending order.
    pub open spec fn well_formed(self) -> bool {
        &&& self.replicas.len() > 0
        &&& ascending(self.replicas)
    }

    /// The set that names `replicas` for `tablet`, or why there is none.
    pub open spec fn of(
        tablet: TabletId,
        replicas: Seq<NodeId>,
        version: PlacementVersion,
    ) -> Result<Self, PlacementError> {
        if replicas.len() == 0 {
            Err(PlacementError::EmptyReplicas { tablet: tablet.0 })
        } else {
            match first_repeat(replicas) {
                Some(node) => Err(PlacementError::DuplicateVoter { tablet: tablet.0, node }),
                None => Ok(
                    DesiredReplicaSetView { tablet, replicas: canonical(replicas), version },
                ),
            }
        }
    }

    /// Canonical bytes: tablet, version, voter count, voters.
    pub open spec fn encoded(self) -> Seq<u8> {
        u64_bytes(self.tablet.0) + u64_bytes(self.version.0) + u32_bytes(
            wire_len(self.replicas.len()),
        ) + nodes_bytes(self.replicas)
    }

    /// The set that `input` spells, or why it spells none.
    pub open spec fn decoded(input: Seq<u8>) -> Result<Self, PlacementError> {
        let end = 20 + 8 * u32_at(input, 16);
        if input.len() < 20 {
            Err(PlacementError::Truncated)
        } else if input.len() < end {
            Err(PlacementError::Truncated)
        } else if input.len() > end {
            Err(PlacementError::TrailingBytes)
        } else {
            Self::of(
                TabletId(u64_at(input, 0)),
                nodes_at(input, 20, u32_at(input, 16) as nat),
                PlacementVersion(u64_at(input, 8)),
            )
        }
    }
}

impl DesiredReplicaSet {
    /// Builds a desired set out of distinct voters, at least one.
    pub fn new(
        tablet: TabletId,
        replicas: Vec<NodeId>,
        version: PlacementVersion,
    ) -> (result: Result<Self, PlacementError>)
        ensures
            view_result(result) == DesiredReplicaSetView::of(tablet, replicas@, version),
            result matches Ok(set) ==> set@.well_formed(),
            result matches Ok(set) ==> forall|node: NodeId| #[trigger]
                set@.replicas.contains(node) <==> replicas@.contains(node),
            result matches Err(PlacementError::DuplicateVoter { tablet: t, node }) ==> t == tablet.0
                && smallest_repeated(replicas@, node),
    {
        if replicas.len() == 0 {
            return Err(PlacementError::EmptyReplicas { tablet: tablet.as_u64() });
        }
        match find_repeat(&replicas) {
            Some(node) => Err(PlacementError::DuplicateVoter { tablet: tablet.as_u64(), node }),
            None => {
                let sorted: Vec<NodeId> = sort_unique(&replicas);
                proof {
                    lemma_canonical(replicas@);
                    assert(replicas@.contains(replicas@[0]));
                    assert(sorted@.contains(replicas@[0]));
                }
                Ok(DesiredReplicaSet { tablet, replicas: sorted, version })
            },
        }
    }

    /// Returns the voter set.
    pub fn voter_set(&self) -> (voters: BTreeSet<u64>)
        ensures
            forall|node: u64| #[trigger]
                voters@.contains(node) <==> self@.replicas.contains(NodeId(node)),
    {
        broadcast use vstd::std_specs::btree::group_btree_axioms;

        let mut voters: BTreeSet<u64> = BTreeSet::new();
        let mut at: usize = 0;
        while at < self.replicas.len()
            invariant
                at <= self.replicas.len(),
                forall|node: u64| #[trigger]
                    voters@.contains(node) <==> self.replicas@.take(at as int).contains(
                        NodeId(node),
                    ),
            decreases self.replicas.len() - at,
        {
            voters.insert(self.replicas[at].as_u64());
            at = at + 1;
            proof {
                let before = self.replicas@.take(at - 1);
                let after = self.replicas@.take(at as int);
                assert(after =~= before.push(self.replicas@[at - 1]));
                assert forall|node: u64| #[trigger] voters@.contains(node) <==> after.contains(
                    NodeId(node),
                ) by {
                    vstd::seq_lib::lemma_seq_contains_after_push(
                        before,
                        self.replicas@[at - 1],
                        NodeId(node),
                    );
                }
            }
        }
        proof {
            assert(self.replicas@.take(at as int) =~= self.replicas@);
        }
        voters
    }

    /// Whether `node` is a desired voter.
    pub fn contains(&self, node: NodeId) -> (found: bool)
        ensures
            found == self@.replicas.contains(node),
    {
        lists_node(&self.replicas, node)
    }

    /// Encodes the canonical bytes: `tablet u64, version u64, count u32,
    /// replicas[count] u64`.
    pub fn encode_to_vec(&self) -> (out: Vec<u8>)
        ensures
            out@ == self@.encoded(),
    {
        let mut out: Vec<u8> = Vec::new();
        put_u64(&mut out, self.tablet.as_u64());
        put_u64(&mut out, self.version.as_u64());
        put_u32(&mut out, len_prefix(self.replicas.len()));
        put_nodes(&mut out, &self.replicas);
        proof {
            assert(out@ =~= self@.encoded());
        }
        out
    }

    /// Decodes exactly one set.
    pub fn decode_exact(input: &[u8]) -> (result: Result<Self, PlacementError>)
        ensures
            view_result(result) == DesiredReplicaSetView::decoded(input@),
            result matches Ok(set) ==> set@.well_formed(),
    {
        if input.len() < 20 {
            return Err(PlacementError::Truncated);
        }
        let tablet: TabletId = TabletId::from_u64(get_u64(input, 0));
        let version: PlacementVersion = PlacementVersion::from_u64(get_u64(input, 8));
        let count: u32 = get_u32(input, 16);
        let end: u64 = 20 + 8 * (count as u64);
        if (input.len() as u64) < end {
            return Err(PlacementError::Truncated);
        }
        if (input.len() as u64) > end {
            return Err(PlacementError::TrailingBytes);
        }
        let replicas: Vec<NodeId> = get_nodes(input, 20, count as usize);
        DesiredReplicaSet::new(tablet, replicas, version)
    }
}

/// A well-formed set decodes from its own encoding.
pub proof fn law_desired_set_round_trip(set: DesiredReplicaSetView)
    requires
        set.well_formed(),
        set.replicas.len() <= u32::MAX,
    ensures
        DesiredReplicaSetView::decoded(set.encoded()) == Ok::<_, PlacementError>(set),
{
    broadcast use group_fields;

    let bytes = set.encoded();
    let count = wire_len(set.replicas.len());
    let head = u64_bytes(set.tablet.0) + u64_bytes(set.version.0) + u32_bytes(count);
    lemma_nodes_bytes_len(set.replicas);
    lemma_nodes_round_trip(head, set.replicas);
    assert(bytes.subrange(0, 8) =~= u64_bytes(set.tablet.0));
    assert(bytes.subrange(8, 16) =~= u64_bytes(set.version.0));
    assert(bytes.subrange(16, 20) =~= u32_bytes(count));
    lemma_canonical_fixed(set.replicas);
    assert(first_repeat(set.replicas) is None) by {
        assert forall|key: u64| !smallest_repeated(set.replicas, key) by {
            if crate::order::repeated(set.replicas, key) {
                let (a, b) = choose|a: int, b: int|
                    0 <= a < b < set.replicas.len() && #[trigger] set.replicas[a].0 == key
                        && #[trigger] set.replicas[b].0 == key;
                assert(set.replicas[a].0 < set.replicas[b].0);
            }
        }
    }
}

/// The image of a placement holds each part at its own place, and nothing after its
/// replicas.
pub proof fn law_desired_set_image_layout(set: DesiredReplicaSetView, i: int)
    requires
        set.replicas.len() <= u32::MAX,
        0 <= i < set.replicas.len(),
    ensures
        set.encoded().len() == 20 + 8 * set.replicas.len(),
        u64_at(set.encoded(), 0) == set.tablet.0,
        u64_at(set.encoded(), 8) == set.version.0,
        u32_at(set.encoded(), 16) == set.replicas.len(),
        u64_at(set.encoded(), 20 + 8 * i) == set.replicas[i].0,
{
    broadcast use group_fields;

    let bytes = set.encoded();
    let tail = nodes_bytes(set.replicas);
    lemma_nodes_bytes_len(set.replicas);
    assert(bytes.subrange(0, 8) =~= u64_bytes(set.tablet.0));
    assert(bytes.subrange(8, 16) =~= u64_bytes(set.version.0));
    assert(bytes.subrange(16, 20) =~= u32_bytes(wire_len(set.replicas.len())));
    let head = bytes.take(20);
    assert(bytes =~= head + tail);
    lemma_nodes_round_trip(head, set.replicas);
    assert(nodes_at(bytes, 20, set.replicas.len())[i] == set.replicas[i]);
}

/// A placement holds the voters that it was given, in ascending order, whatever the order
/// they were given in; it is refused where there are none.
pub proof fn law_placements_keep_their_voters(
    tablet: TabletId,
    replicas: Seq<NodeId>,
    version: PlacementVersion,
)
    ensures
        replicas.len() == 0 ==> DesiredReplicaSetView::of(tablet, replicas, version) == Err::<
            DesiredReplicaSetView,
            _,
        >(PlacementError::EmptyReplicas { tablet: tablet.0 }),
        DesiredReplicaSetView::of(tablet, replicas, version) matches Ok(set) ==> {
            &&& set.tablet == tablet
            &&& set.version == version
            &&& ascending(set.replicas)
            &&& forall|n: NodeId| #[trigger] set.replicas.contains(n) <==> replicas.contains(n)
        },
{
    lemma_canonical(replicas);
}

/// An image that lost its last byte is truncated, and one with a byte too many has
/// trailing bytes.
pub proof fn law_desired_set_images_end_where_they_should(set: DesiredReplicaSetView, extra: u8)
    requires
        set.well_formed(),
        set.replicas.len() <= u32::MAX,
    ensures
        DesiredReplicaSetView::decoded(set.encoded().drop_last()) == Err::<
            DesiredReplicaSetView,
            _,
        >(PlacementError::Truncated),
        DesiredReplicaSetView::decoded(set.encoded().push(extra)) == Err::<
            DesiredReplicaSetView,
            _,
        >(PlacementError::TrailingBytes),
{
    broadcast use group_fields;

    let count = wire_len(set.replicas.len());
    lemma_nodes_bytes_len(set.replicas);
    assert(set.encoded().drop_last().subrange(16, 20) =~= u32_bytes(count));
    assert(set.encoded().push(extra).subrange(16, 20) =~= u32_bytes(count));
}

} // verus!
