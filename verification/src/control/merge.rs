//! Persisted tablet-merge plans: the inverse of a split, for adjacent tablets.
//!
//! `Left [A, M)` and `Right [M, Z)` become `Merged [A, Z)`. The merged tablet is
//! an ordinary tablet after cutover.

use crate::control::placement::PlacementVersion;
use crate::control::roster::{
    clone_nodes, get_nodes, lemma_nodes_bytes_len, lemma_nodes_round_trip, nodes_at, nodes_bytes,
    put_nodes,
};
use crate::ids::{NodeId, TabletId};
use crate::order::{ascending, canonical, lemma_canonical, lemma_canonical_fixed, sort_unique};
use crate::wire::{
    get_u32, get_u64, group_fields, len_prefix, put_u32, put_u64, u32_at, u32_bytes, u64_at,
    u64_bytes, view_result, wire_len,
};
use std::cmp::Ordering;
use vstd::prelude::*;
use vstd::std_specs::cmp::{PartialOrdSpec, PartialOrdSpecImpl};

verus! {

/// Identity of one merge plan.
#[derive(Debug, Clone, Copy, PartialEq, Eq, PartialOrd, Ord, Hash, Structural)]
pub struct MergePlanId(pub u64);

impl MergePlanId {
    /// Wraps a raw plan id.
    pub fn from_u64(value: u64) -> (id: Self)
        ensures
            id.0 == value,
    {
        MergePlanId(value)
    }

    /// Returns the raw value.
    pub fn as_u64(self) -> (value: u64)
        ensures
            value == self.0,
    {
        self.0
    }
}

/// Merge lifecycle phase. Every step is idempotent.
#[derive(Debug, Clone, Copy, PartialEq, Eq, Ord, Hash, Structural)]
pub enum MergePhase {
    /// Plan committed; merged tablet not yet allocated.
    Planned,
    /// Merged tablet allocated: id, union range and placement persisted.
    TargetAllocated,
    /// Merged group ensured; base united locally from both parents.
    BaseSeeded,
    /// Both parents fenced; final tails installed.
    Fenced,
    /// Directory cutover published: parents retired, merged tablet active.
    CutoverCommitted,
    /// Parent replicas tombstoned; plan done pending cleanup.
    ParentsRetiring,
    /// Terminal success.
    Completed,
    /// Terminal failure.
    Failed,
}

impl MergePhase {
    /// The canonical discriminant.
    pub open spec fn byte(self) -> u8 {
        match self {
            MergePhase::Planned => 0,
            MergePhase::TargetAllocated => 1,
            MergePhase::BaseSeeded => 2,
            MergePhase::Fenced => 3,
            MergePhase::CutoverCommitted => 4,
            MergePhase::ParentsRetiring => 5,
            MergePhase::Completed => 6,
            MergePhase::Failed => 7,
        }
    }

    /// The phase with discriminant `byte`, if there is one.
    pub open spec fn of_byte(byte: u8) -> Result<Self, MergeError> {
        if byte == 0 {
            Ok(MergePhase::Planned)
        } else if byte == 1 {
            Ok(MergePhase::TargetAllocated)
        } else if byte == 2 {
            Ok(MergePhase::BaseSeeded)
        } else if byte == 3 {
            Ok(MergePhase::Fenced)
        } else if byte == 4 {
            Ok(MergePhase::CutoverCommitted)
        } else if byte == 5 {
            Ok(MergePhase::ParentsRetiring)
        } else if byte == 6 {
            Ok(MergePhase::Completed)
        } else if byte == 7 {
            Ok(MergePhase::Failed)
        } else {
            Err(MergeError::BadPhase { found: byte })
        }
    }

    /// Whether the phase is terminal: the reconciler has nothing left to do.
    pub fn is_terminal(self) -> (terminal: bool)
        ensures
            terminal == (self is Completed || self is Failed),
    {
        matches!(self, MergePhase::Completed | MergePhase::Failed)
    }

    /// Encodes the phase as its discriminant byte.
    pub fn encode_byte(self) -> (byte: u8)
        ensures
            byte == self.byte(),
            Self::of_byte(byte) == Ok::<_, MergeError>(self),
    {
        match self {
            MergePhase::Planned => 0,
            MergePhase::TargetAllocated => 1,
            MergePhase::BaseSeeded => 2,
            MergePhase::Fenced => 3,
            MergePhase::CutoverCommitted => 4,
            MergePhase::ParentsRetiring => 5,
            MergePhase::Completed => 6,
            MergePhase::Failed => 7,
        }
    }

    /// Decodes a discriminant byte.
    pub fn decode_byte(byte: u8) -> (result: Result<Self, MergeError>)
        ensures
            result == Self::of_byte(byte),
            result matches Ok(phase) ==> phase.byte() == byte,
            result is Err <==> byte >= 8,
    {
        match byte {
            0 => Ok(MergePhase::Planned),
            1 => Ok(MergePhase::TargetAllocated),
            2 => Ok(MergePhase::BaseSeeded),
            3 => Ok(MergePhase::Fenced),
            4 => Ok(MergePhase::CutoverCommitted),
            5 => Ok(MergePhase::ParentsRetiring),
            6 => Ok(MergePhase::Completed),
            7 => Ok(MergePhase::Failed),
            _ => Err(MergeError::BadPhase { found: byte }),
        }
    }
}

/// Phases are ordered as their discriminants, which is the order that they come in.
impl PartialOrd for MergePhase {
    fn partial_cmp(&self, other: &Self) -> (order: Option<Ordering>) {
        let (a, b): (u8, u8) = (self.encode_byte(), other.encode_byte());
        if a < b {
            Some(Ordering::Less)
        } else if a == b {
            Some(Ordering::Equal)
        } else {
            Some(Ordering::Greater)
        }
    }
}

impl PartialOrdSpecImpl for MergePhase {
    open spec fn obeys_partial_cmp_spec() -> bool {
        true
    }

    open spec fn partial_cmp_spec(&self, other: &Self) -> Option<Ordering> {
        if self.byte() < other.byte() {
            Some(Ordering::Less)
        } else if self.byte() == other.byte() {
            Some(Ordering::Equal)
        } else {
            Some(Ordering::Greater)
        }
    }
}

/// Discriminants and phases stand for each other, in the same order: a byte names a phase
/// exactly where it is the phase's own, phases compare as their bytes do, and the terminal
/// phases come last.
pub proof fn law_merge_phases_are_their_bytes(a: MergePhase, b: MergePhase, byte: u8)
    ensures
        MergePhase::of_byte(byte) == Ok::<_, MergeError>(a) <==> a.byte() == byte,
        MergePhase::of_byte(byte) is Err <==> byte >= 8,
        MergePhase::of_byte(byte) is Err ==> MergePhase::of_byte(byte) == Err::<MergePhase, _>(
            MergeError::BadPhase { found: byte },
        ),
        PartialOrdSpec::partial_cmp_spec(&a, &b) == Some(Ordering::Less) <==> a.byte() < b.byte(),
        PartialOrdSpec::partial_cmp_spec(&a, &b) == Some(Ordering::Equal) <==> a == b,
        (a is Completed || a is Failed) <==> a.byte() >= 6,
{
}

/// Why a merge plan was rejected.
#[derive(Debug, Clone, Copy, PartialEq, Eq, Structural)]
#[non_exhaustive]
pub enum MergeError {
    /// Unknown phase discriminant in canonical bytes.
    BadPhase {
        /// Observed discriminant.
        found: u8,
    },
    /// Truncated canonical input.
    Truncated,
    /// Trailing bytes after the framed plan.
    TrailingBytes,
    /// The target equals a parent, or the parents are equal.
    BadIdentities,
}

/// One persisted tablet merge: left and right into merged.
#[derive(Debug, PartialEq, Eq)]
pub struct MergePlan {
    /// Plan identity.
    pub id: MergePlanId,
    /// Left parent: `[A, M)`.
    pub left: TabletId,
    /// Right parent: `[M, Z)`.
    pub right: TabletId,
    /// Merged tablet: `[A, Z)`.
    pub merged: TabletId,
    /// Placement generation at plan creation; fences stale control actions.
    pub generation: PlacementVersion,
    /// Replica set of the merged tablet in ascending order.
    pub replicas: Vec<NodeId>,
    /// Current phase.
    pub phase: MergePhase,
}

/// What a [`MergePlan`] says.
#[verifier::ext_equal]
pub struct MergePlanView {
    pub id: MergePlanId,
    pub left: TabletId,
    pub right: TabletId,
    pub merged: TabletId,
    pub generation: PlacementVersion,
    pub replicas: Seq<NodeId>,
    pub phase: MergePhase,
}

impl View for MergePlan {
    type V = MergePlanView;

    open spec fn view(&self) -> MergePlanView {
        MergePlanView {
            id: self.id,
            left: self.left,
            right: self.right,
            merged: self.merged,
            generation: self.generation,
            replicas: self.replicas@,
            phase: self.phase,
        }
    }
}

impl Clone for MergePlan {
    fn clone(&self) -> (copy: Self)
        ensures
            copy@ == self@,
    {
        self.advance(self.phase)
    }
}

impl MergePlanView {
    /// Parents and target differ, and the replicas ascend.
    pub open spec fn well_formed(self) -> bool {
        &&& self.left != self.right
        &&& self.left != self.merged
        &&& self.right != self.merged
        &&& ascending(self.replicas)
    }

    /// The plan in its first phase, or why there is none.
    pub open spec fn planned(
        id: MergePlanId,
        left: TabletId,
        right: TabletId,
        merged: TabletId,
        replicas: Seq<NodeId>,
        generation: PlacementVersion,
    ) -> Result<Self, MergeError> {
        if left == right || left == merged || right == merged {
            Err(MergeError::BadIdentities)
        } else {
            Ok(
                MergePlanView {
                    id,
                    left,
                    right,
                    merged,
                    generation,
                    replicas: canonical(replicas),
                    phase: MergePhase::Planned,
                },
            )
        }
    }

    /// Canonical bytes: `id u64, left u64, right u64,
    /// merged u64, generation u64, phase u8, count u32, replicas[count] u64`.
    pub open spec fn encoded(self) -> Seq<u8> {
        u64_bytes(self.id.0) + u64_bytes(self.left.0) + u64_bytes(self.right.0)
            + u64_bytes(self.merged.0) + u64_bytes(self.generation.0) + seq![self.phase.byte()]
            + u32_bytes(wire_len(self.replicas.len())) + nodes_bytes(self.replicas)
    }

    /// The plan that `input` spells, or why it spells none.
    pub open spec fn decoded(input: Seq<u8>) -> Result<Self, MergeError> {
        let end = 45 + 8 * u32_at(input, 41);
        if input.len() < 45 {
            Err(MergeError::Truncated)
        } else {
            match MergePhase::of_byte(input[40]) {
                Err(error) => Err(error),
                Ok(phase) => if input.len() < end {
                    Err(MergeError::Truncated)
                } else if input.len() > end {
                    Err(MergeError::TrailingBytes)
                } else {
                    match Self::planned(
                        MergePlanId(u64_at(input, 0)),
                        TabletId(u64_at(input, 8)),
                        TabletId(u64_at(input, 16)),
                        TabletId(u64_at(input, 24)),
                        nodes_at(input, 45, u32_at(input, 41) as nat),
                        PlacementVersion(u64_at(input, 32)),
                    ) {
                        Err(error) => Err(error),
                        Ok(plan) => Ok(MergePlanView { phase, ..plan }),
                    }
                },
            }
        }
    }
}

impl MergePlan {
    /// Builds a plan whose three tablets differ.
    pub fn new(
        id: MergePlanId,
        left: TabletId,
        right: TabletId,
        merged: TabletId,
        replicas: Vec<NodeId>,
        generation: PlacementVersion,
    ) -> (result: Result<Self, MergeError>)
        ensures
            view_result(result) == MergePlanView::planned(
                id,
                left,
                right,
                merged,
                replicas@,
                generation,
            ),
            result matches Ok(plan) ==> plan@.well_formed(),
            result matches Ok(plan) ==> forall|node: NodeId| #[trigger]
                plan@.replicas.contains(node) <==> replicas@.contains(node),
    {
        if left == right || left == merged || right == merged {
            return Err(MergeError::BadIdentities);
        }
        let sorted: Vec<NodeId> = sort_unique(&replicas);
        proof {
            lemma_canonical(replicas@);
        }
        Ok(
            MergePlan {
                id,
                left,
                right,
                merged,
                generation,
                replicas: sorted,
                phase: MergePhase::Planned,
            },
        )
    }

    /// Moves the plan to a new phase; everything else stays.
    pub fn advance(&self, phase: MergePhase) -> (plan: Self)
        ensures
            plan@ == (MergePlanView { phase, ..self@ }),
    {
        MergePlan {
            id: self.id,
            left: self.left,
            right: self.right,
            merged: self.merged,
            generation: self.generation,
            replicas: clone_nodes(&self.replicas),
            phase,
        }
    }

    /// All tablets that the plan touches.
    pub fn tablets(&self) -> (tablets: [TabletId; 3])
        ensures
            tablets@ == seq![self.left, self.right, self.merged],
    {
        [self.left, self.right, self.merged]
    }

    /// All replica hosts that the plan touches.
    pub fn hosts(&self) -> (hosts: Vec<NodeId>)
        ensures
            hosts@ == self@.replicas,
    {
        clone_nodes(&self.replicas)
    }

    /// Encodes the canonical bytes: `id u64, left u64, right u64,
    /// merged u64, generation u64, phase u8, count u32, replicas[count] u64`.
    pub fn encode_to_vec(&self) -> (out: Vec<u8>)
        ensures
            out@ == self@.encoded(),
    {
        let mut out: Vec<u8> = Vec::new();
        put_u64(&mut out, self.id.as_u64());
        put_u64(&mut out, self.left.as_u64());
        put_u64(&mut out, self.right.as_u64());
        put_u64(&mut out, self.merged.as_u64());
        put_u64(&mut out, self.generation.as_u64());
        out.push(self.phase.encode_byte());
        put_u32(&mut out, len_prefix(self.replicas.len()));
        put_nodes(&mut out, &self.replicas);
        proof {
            assert(out@ =~= self@.encoded());
        }
        out
    }

    /// Decodes exactly one plan.
    pub fn decode_exact(input: &[u8]) -> (result: Result<Self, MergeError>)
        ensures
            view_result(result) == MergePlanView::decoded(input@),
            result matches Ok(plan) ==> plan@.well_formed(),
    {
        if input.len() < 45 {
            return Err(MergeError::Truncated);
        }
        let id: MergePlanId = MergePlanId::from_u64(get_u64(input, 0));
        let left: TabletId = TabletId::from_u64(get_u64(input, 8));
        let right: TabletId = TabletId::from_u64(get_u64(input, 16));
        let merged: TabletId = TabletId::from_u64(get_u64(input, 24));
        let generation: PlacementVersion = PlacementVersion::from_u64(get_u64(input, 32));
        let phase: MergePhase = match MergePhase::decode_byte(input[40]) {
            Ok(phase) => phase,
            Err(error) => return Err(error),
        };
        let count: u32 = get_u32(input, 41);
        let end: u64 = 45 + 8 * (count as u64);
        if (input.len() as u64) < end {
            return Err(MergeError::Truncated);
        }
        if (input.len() as u64) > end {
            return Err(MergeError::TrailingBytes);
        }
        let replicas: Vec<NodeId> = get_nodes(input, 45, count as usize);
        match MergePlan::new(id, left, right, merged, replicas, generation) {
            Ok(plan) => Ok(MergePlan { phase, ..plan }),
            Err(error) => Err(error),
        }
    }
}

/// A well-formed plan decodes from its own encoding.
pub proof fn law_merge_round_trip(plan: MergePlanView)
    requires
        plan.well_formed(),
        plan.replicas.len() <= u32::MAX,
    ensures
        MergePlanView::decoded(plan.encoded()) == Ok::<_, MergeError>(plan),
{
    broadcast use group_fields;

    let bytes = plan.encoded();
    let count = wire_len(plan.replicas.len());
    let head = u64_bytes(plan.id.0) + u64_bytes(plan.left.0) + u64_bytes(plan.right.0)
        + u64_bytes(plan.merged.0) + u64_bytes(plan.generation.0) + seq![plan.phase.byte()]
        + u32_bytes(count);
    lemma_nodes_bytes_len(plan.replicas);
    lemma_nodes_round_trip(head, plan.replicas);
    assert(bytes.subrange(0, 8) =~= u64_bytes(plan.id.0));
    assert(bytes.subrange(8, 16) =~= u64_bytes(plan.left.0));
    assert(bytes.subrange(16, 24) =~= u64_bytes(plan.right.0));
    assert(bytes.subrange(24, 32) =~= u64_bytes(plan.merged.0));
    assert(bytes.subrange(32, 40) =~= u64_bytes(plan.generation.0));
    assert(bytes[40] == plan.phase.byte());
    assert(bytes.subrange(41, 45) =~= u32_bytes(count));
    lemma_canonical_fixed(plan.replicas);
}

/// The image of a plan holds each part at its own place, and nothing after its nodes.
pub proof fn law_merge_image_layout(plan: MergePlanView, i: int)
    requires
        plan.replicas.len() <= u32::MAX,
        0 <= i < plan.replicas.len(),
    ensures
        plan.encoded().len() == 45 + 8 * plan.replicas.len(),
        u64_at(plan.encoded(), 0) == plan.id.0,
        u64_at(plan.encoded(), 8) == plan.left.0,
        u64_at(plan.encoded(), 16) == plan.right.0,
        u64_at(plan.encoded(), 24) == plan.merged.0,
        u64_at(plan.encoded(), 32) == plan.generation.0,
        plan.encoded()[40] == plan.phase.byte(),
        u32_at(plan.encoded(), 41) == plan.replicas.len(),
        u64_at(plan.encoded(), 45 + 8 * i) == plan.replicas[i].0,
{
    broadcast use group_fields;

    let bytes = plan.encoded();
    let count = wire_len(plan.replicas.len());
    let tail = nodes_bytes(plan.replicas);
    lemma_nodes_bytes_len(plan.replicas);
    assert(bytes.subrange(0, 8) =~= u64_bytes(plan.id.0));
    assert(bytes.subrange(8, 16) =~= u64_bytes(plan.left.0));
    assert(bytes.subrange(16, 24) =~= u64_bytes(plan.right.0));
    assert(bytes.subrange(24, 32) =~= u64_bytes(plan.merged.0));
    assert(bytes.subrange(32, 40) =~= u64_bytes(plan.generation.0));
    assert(bytes.subrange(41, 45) =~= u32_bytes(count));
    let head = bytes.take(45);
    assert(bytes =~= head + tail);
    lemma_nodes_round_trip(head, plan.replicas);
    assert(nodes_at(bytes, 45, plan.replicas.len())[i] == plan.replicas[i]);
}

/// The phases are numbered in their order.
pub proof fn law_merge_phases_are_numbered()
    ensures
        MergePhase::Planned.byte() == 0,
        MergePhase::TargetAllocated.byte() == 1,
        MergePhase::BaseSeeded.byte() == 2,
        MergePhase::Fenced.byte() == 3,
        MergePhase::CutoverCommitted.byte() == 4,
        MergePhase::ParentsRetiring.byte() == 5,
        MergePhase::Completed.byte() == 6,
        MergePhase::Failed.byte() == 7,
{
}

/// An image that lost its last byte is truncated, and one with a byte too many has
/// trailing bytes.
pub proof fn law_merge_images_end_where_they_should(plan: MergePlanView, extra: u8)
    requires
        plan.well_formed(),
        0 < plan.replicas.len() <= u32::MAX,
    ensures
        MergePlanView::decoded(plan.encoded().drop_last()) == Err::<MergePlanView, _>(
            MergeError::Truncated,
        ),
        MergePlanView::decoded(plan.encoded().push(extra)) == Err::<MergePlanView, _>(
            MergeError::TrailingBytes,
        ),
{
    broadcast use group_fields;

    let count = wire_len(plan.replicas.len());
    lemma_nodes_bytes_len(plan.replicas);
    let short = plan.encoded().drop_last();
    let long = plan.encoded().push(extra);
    assert(short.subrange(41, 45) =~= u32_bytes(count));
    assert(long.subrange(41, 45) =~= u32_bytes(count));
    assert(short[40] == plan.phase.byte());
    assert(long[40] == plan.phase.byte());
}

} // verus!
