//! Persisted tablet-split plans: one parent range becomes two child ranges.
//!
//! Every phase is persisted through the control plane, so that progress survives
//! the loss of a control leader. The children inherit the parent's desired voters
//! and become ordinary tablets at cutover.

use crate::control::placement::PlacementVersion;
use crate::control::roster::{
    clone_nodes, get_nodes, lemma_nodes_bytes_len, lemma_nodes_round_trip, nodes_at, nodes_bytes,
    put_nodes,
};
use crate::ids::{NodeId, TabletId};
use crate::order::{ascending, canonical, lemma_canonical, lemma_canonical_fixed, sort_unique};
use crate::wire::{
    get_u128, get_u32, get_u64, group_fields, len_prefix, put_u128, put_u32, put_u64, u128_at,
    u128_bytes, u32_at, u32_bytes, u64_at, u64_bytes, view_result, wire_len,
};
use std::cmp::Ordering;
use vstd::prelude::*;
use vstd::std_specs::cmp::{PartialOrdSpec, PartialOrdSpecImpl};

verus! {

/// Identity of one split plan.
#[derive(Debug, Clone, Copy, PartialEq, Eq, PartialOrd, Ord, Hash, Structural)]
pub struct SplitPlanId(pub u64);

impl SplitPlanId {
    /// Wraps a raw plan id.
    pub fn from_u64(value: u64) -> (id: Self)
        ensures
            id.0 == value,
    {
        SplitPlanId(value)
    }

    /// Returns the raw value.
    pub fn as_u64(self) -> (value: u64)
        ensures
            value == self.0,
    {
        self.0
    }
}

/// Split lifecycle phase. Every step is idempotent.
#[derive(Debug, Clone, Copy, PartialEq, Eq, Ord, Hash, Structural)]
pub enum SplitPhase {
    /// Plan committed; children not yet allocated.
    Planned,
    /// Children allocated: ids, midpoint ranges and placements persisted.
    ChildrenAllocated,
    /// Child groups ensured on replicas; base partitioned locally.
    BaseSeeded,
    /// Parent fenced; final tail installed into the children.
    Fenced,
    /// Directory cutover published: parent retired, children active.
    CutoverCommitted,
    /// Parent replicas tombstoned; plan done pending cleanup.
    ParentRetiring,
    /// Terminal success.
    Completed,
    /// Terminal failure.
    Failed,
}

impl SplitPhase {
    /// The canonical discriminant.
    pub open spec fn byte(self) -> u8 {
        match self {
            SplitPhase::Planned => 0,
            SplitPhase::ChildrenAllocated => 1,
            SplitPhase::BaseSeeded => 2,
            SplitPhase::Fenced => 3,
            SplitPhase::CutoverCommitted => 4,
            SplitPhase::ParentRetiring => 5,
            SplitPhase::Completed => 6,
            SplitPhase::Failed => 7,
        }
    }

    /// The phase with discriminant `byte`, if there is one.
    pub open spec fn of_byte(byte: u8) -> Result<Self, SplitError> {
        if byte == 0 {
            Ok(SplitPhase::Planned)
        } else if byte == 1 {
            Ok(SplitPhase::ChildrenAllocated)
        } else if byte == 2 {
            Ok(SplitPhase::BaseSeeded)
        } else if byte == 3 {
            Ok(SplitPhase::Fenced)
        } else if byte == 4 {
            Ok(SplitPhase::CutoverCommitted)
        } else if byte == 5 {
            Ok(SplitPhase::ParentRetiring)
        } else if byte == 6 {
            Ok(SplitPhase::Completed)
        } else if byte == 7 {
            Ok(SplitPhase::Failed)
        } else {
            Err(SplitError::BadPhase { found: byte })
        }
    }

    /// Whether the phase is terminal: the reconciler has nothing left to do.
    pub fn is_terminal(self) -> (terminal: bool)
        ensures
            terminal == (self is Completed || self is Failed),
    {
        matches!(self, SplitPhase::Completed | SplitPhase::Failed)
    }

    /// Encodes the phase as its discriminant byte.
    pub fn encode_byte(self) -> (byte: u8)
        ensures
            byte == self.byte(),
            Self::of_byte(byte) == Ok::<_, SplitError>(self),
    {
        match self {
            SplitPhase::Planned => 0,
            SplitPhase::ChildrenAllocated => 1,
            SplitPhase::BaseSeeded => 2,
            SplitPhase::Fenced => 3,
            SplitPhase::CutoverCommitted => 4,
            SplitPhase::ParentRetiring => 5,
            SplitPhase::Completed => 6,
            SplitPhase::Failed => 7,
        }
    }

    /// Decodes a discriminant byte.
    pub fn decode_byte(byte: u8) -> (result: Result<Self, SplitError>)
        ensures
            result == Self::of_byte(byte),
            result matches Ok(phase) ==> phase.byte() == byte,
            result is Err <==> byte >= 8,
    {
        match byte {
            0 => Ok(SplitPhase::Planned),
            1 => Ok(SplitPhase::ChildrenAllocated),
            2 => Ok(SplitPhase::BaseSeeded),
            3 => Ok(SplitPhase::Fenced),
            4 => Ok(SplitPhase::CutoverCommitted),
            5 => Ok(SplitPhase::ParentRetiring),
            6 => Ok(SplitPhase::Completed),
            7 => Ok(SplitPhase::Failed),
            _ => Err(SplitError::BadPhase { found: byte }),
        }
    }
}

/// Phases are ordered as their discriminants, which is the order that they come in.
impl PartialOrd for SplitPhase {
    fn partial_cmp(&self, other: &Self) -> (order: Option<Ordering>) {
        let (a, b): (u8, u8) = (self.encode_byte(), other.encode_byte());
        if a < b {
            Some(Ordering::Less)
        } else if a == b {
            Some(Ordering::Equal)
        } else {
            Some(Ordering::Greater)
        }
    }
}

impl PartialOrdSpecImpl for SplitPhase {
    open spec fn obeys_partial_cmp_spec() -> bool {
        true
    }

    open spec fn partial_cmp_spec(&self, other: &Self) -> Option<Ordering> {
        if self.byte() < other.byte() {
            Some(Ordering::Less)
        } else if self.byte() == other.byte() {
            Some(Ordering::Equal)
        } else {
            Some(Ordering::Greater)
        }
    }
}

/// Discriminants and phases stand for each other, in the same order: a byte names a phase
/// exactly where it is the phase's own, phases compare as their bytes do, and the terminal
/// phases come last.
pub proof fn law_split_phases_are_their_bytes(a: SplitPhase, b: SplitPhase, byte: u8)
    ensures
        SplitPhase::of_byte(byte) == Ok::<_, SplitError>(a) <==> a.byte() == byte,
        SplitPhase::of_byte(byte) is Err <==> byte >= 8,
        SplitPhase::of_byte(byte) is Err ==> SplitPhase::of_byte(byte) == Err::<SplitPhase, _>(
            SplitError::BadPhase { found: byte },
        ),
        PartialOrdSpec::partial_cmp_spec(&a, &b) == Some(Ordering::Less) <==> a.byte() < b.byte(),
        PartialOrdSpec::partial_cmp_spec(&a, &b) == Some(Ordering::Equal) <==> a == b,
        (a is Completed || a is Failed) <==> a.byte() >= 6,
{
}

/// Why a split plan was rejected.
#[derive(Debug, Clone, Copy, PartialEq, Eq, Structural)]
#[non_exhaustive]
pub enum SplitError {
    /// Unknown phase discriminant in canonical bytes.
    BadPhase {
        /// Observed discriminant.
        found: u8,
    },
    /// Truncated canonical input.
    Truncated,
    /// Trailing bytes after the framed plan.
    TrailingBytes,
    /// A child equals the parent or its sibling.
    BadChildren,
}

/// One persisted tablet split: a parent into a left and a right child.
#[derive(Debug, PartialEq, Eq)]
pub struct SplitPlan {
    /// Plan identity.
    pub id: SplitPlanId,
    /// Parent tablet.
    pub parent: TabletId,
    /// Split boundary: the midpoint of the parent range.
    pub split_hash: u128,
    /// Left child: `[parent.start, split_hash)`.
    pub left: TabletId,
    /// Right child: `[split_hash, parent.end)`.
    pub right: TabletId,
    /// Placement generation at plan creation; fences stale control actions.
    pub generation: PlacementVersion,
    /// Replica set of the children in ascending order.
    pub replicas: Vec<NodeId>,
    /// Current phase.
    pub phase: SplitPhase,
}

/// What a [`SplitPlan`] says.
#[verifier::ext_equal]
pub struct SplitPlanView {
    pub id: SplitPlanId,
    pub parent: TabletId,
    pub split_hash: u128,
    pub left: TabletId,
    pub right: TabletId,
    pub generation: PlacementVersion,
    pub replicas: Seq<NodeId>,
    pub phase: SplitPhase,
}

impl View for SplitPlan {
    type V = SplitPlanView;

    open spec fn view(&self) -> SplitPlanView {
        SplitPlanView {
            id: self.id,
            parent: self.parent,
            split_hash: self.split_hash,
            left: self.left,
            right: self.right,
            generation: self.generation,
            replicas: self.replicas@,
            phase: self.phase,
        }
    }
}

impl Clone for SplitPlan {
    fn clone(&self) -> (copy: Self)
        ensures
            copy@ == self@,
    {
        self.advance(self.phase)
    }
}

impl SplitPlanView {
    /// Parent and children differ, and the replicas ascend.
    pub open spec fn well_formed(self) -> bool {
        &&& self.parent != self.left
        &&& self.parent != self.right
        &&& self.left != self.right
        &&& ascending(self.replicas)
    }

    /// The plan in its first phase, or why there is none.
    pub open spec fn planned(
        id: SplitPlanId,
        parent: TabletId,
        split_hash: u128,
        left: TabletId,
        right: TabletId,
        replicas: Seq<NodeId>,
        generation: PlacementVersion,
    ) -> Result<Self, SplitError> {
        if parent == left || parent == right || left == right {
            Err(SplitError::BadChildren)
        } else {
            Ok(
                SplitPlanView {
                    id,
                    parent,
                    split_hash,
                    left,
                    right,
                    generation,
                    replicas: canonical(replicas),
                    phase: SplitPhase::Planned,
                },
            )
        }
    }

    /// Canonical bytes: `id u64, parent u64, split_hash u128,
    /// left u64, right u64, generation u64, phase u8, count u32, replicas[count] u64`.
    pub open spec fn encoded(self) -> Seq<u8> {
        u64_bytes(self.id.0) + u64_bytes(self.parent.0) + u128_bytes(self.split_hash)
            + u64_bytes(self.left.0) + u64_bytes(self.right.0) + u64_bytes(self.generation.0)
            + seq![self.phase.byte()] + u32_bytes(wire_len(self.replicas.len()))
            + nodes_bytes(self.replicas)
    }

    /// The plan that `input` spells, or why it spells none.
    pub open spec fn decoded(input: Seq<u8>) -> Result<Self, SplitError> {
        let end = 61 + 8 * u32_at(input, 57);
        if input.len() < 61 {
            Err(SplitError::Truncated)
        } else {
            match SplitPhase::of_byte(input[56]) {
                Err(error) => Err(error),
                Ok(phase) => if input.len() < end {
                    Err(SplitError::Truncated)
                } else if input.len() > end {
                    Err(SplitError::TrailingBytes)
                } else {
                    match Self::planned(
                        SplitPlanId(u64_at(input, 0)),
                        TabletId(u64_at(input, 8)),
                        u128_at(input, 16),
                        TabletId(u64_at(input, 32)),
                        TabletId(u64_at(input, 40)),
                        nodes_at(input, 61, u32_at(input, 57) as nat),
                        PlacementVersion(u64_at(input, 48)),
                    ) {
                        Err(error) => Err(error),
                        Ok(plan) => Ok(SplitPlanView { phase, ..plan }),
                    }
                },
            }
        }
    }
}

impl SplitPlan {
    /// Builds a plan whose children differ from the parent and from each other.
    pub fn new(
        id: SplitPlanId,
        parent: TabletId,
        split_hash: u128,
        left: TabletId,
        right: TabletId,
        replicas: Vec<NodeId>,
        generation: PlacementVersion,
    ) -> (result: Result<Self, SplitError>)
        ensures
            view_result(result) == SplitPlanView::planned(
                id,
                parent,
                split_hash,
                left,
                right,
                replicas@,
                generation,
            ),
            result matches Ok(plan) ==> plan@.well_formed(),
            result matches Ok(plan) ==> forall|node: NodeId| #[trigger]
                plan@.replicas.contains(node) <==> replicas@.contains(node),
    {
        if parent == left || parent == right || left == right {
            return Err(SplitError::BadChildren);
        }
        let sorted: Vec<NodeId> = sort_unique(&replicas);
        proof {
            lemma_canonical(replicas@);
        }
        Ok(
            SplitPlan {
                id,
                parent,
                split_hash,
                left,
                right,
                generation,
                replicas: sorted,
                phase: SplitPhase::Planned,
            },
        )
    }

    /// Moves the plan to a new phase; everything else stays.
    pub fn advance(&self, phase: SplitPhase) -> (plan: Self)
        ensures
            plan@ == (SplitPlanView { phase, ..self@ }),
    {
        SplitPlan {
            id: self.id,
            parent: self.parent,
            split_hash: self.split_hash,
            left: self.left,
            right: self.right,
            generation: self.generation,
            replicas: clone_nodes(&self.replicas),
            phase,
        }
    }

    /// All tablets that the plan touches.
    pub fn tablets(&self) -> (tablets: [TabletId; 3])
        ensures
            tablets@ == seq![self.parent, self.left, self.right],
    {
        [self.parent, self.left, self.right]
    }

    /// All replica hosts that the plan touches.
    pub fn hosts(&self) -> (hosts: Vec<NodeId>)
        ensures
            hosts@ == self@.replicas,
    {
        clone_nodes(&self.replicas)
    }

    /// Encodes the canonical bytes: `id u64, parent u64, split_hash u128,
    /// left u64, right u64, generation u64, phase u8, count u32, replicas[count] u64`.
    pub fn encode_to_vec(&self) -> (out: Vec<u8>)
        ensures
            out@ == self@.encoded(),
    {
        let mut out: Vec<u8> = Vec::new();
        put_u64(&mut out, self.id.as_u64());
        put_u64(&mut out, self.parent.as_u64());
        put_u128(&mut out, self.split_hash);
        put_u64(&mut out, self.left.as_u64());
        put_u64(&mut out, self.right.as_u64());
        put_u64(&mut out, self.generation.as_u64());
        out.push(self.phase.encode_byte());
        put_u32(&mut out, len_prefix(self.replicas.len()));
        put_nodes(&mut out, &self.replicas);
        proof {
            assert(out@ =~= self@.encoded());
        }
        out
    }

    /// Decodes exactly one plan.
    pub fn decode_exact(input: &[u8]) -> (result: Result<Self, SplitError>)
        ensures
            view_result(result) == SplitPlanView::decoded(input@),
            result matches Ok(plan) ==> plan@.well_formed(),
    {
        if input.len() < 61 {
            return Err(SplitError::Truncated);
        }
        let id: SplitPlanId = SplitPlanId::from_u64(get_u64(input, 0));
        let parent: TabletId = TabletId::from_u64(get_u64(input, 8));
        let split_hash: u128 = get_u128(input, 16);
        let left: TabletId = TabletId::from_u64(get_u64(input, 32));
        let right: TabletId = TabletId::from_u64(get_u64(input, 40));
        let generation: PlacementVersion = PlacementVersion::from_u64(get_u64(input, 48));
        let phase: SplitPhase = match SplitPhase::decode_byte(input[56]) {
            Ok(phase) => phase,
            Err(error) => return Err(error),
        };
        let count: u32 = get_u32(input, 57);
        let end: u64 = 61 + 8 * (count as u64);
        if (input.len() as u64) < end {
            return Err(SplitError::Truncated);
        }
        if (input.len() as u64) > end {
            return Err(SplitError::TrailingBytes);
        }
        let replicas: Vec<NodeId> = get_nodes(input, 61, count as usize);
        match SplitPlan::new(id, parent, split_hash, left, right, replicas, generation) {
            Ok(plan) => Ok(SplitPlan { phase, ..plan }),
            Err(error) => Err(error),
        }
    }
}

/// A well-formed plan decodes from its own encoding.
pub proof fn law_split_round_trip(plan: SplitPlanView)
    requires
        plan.well_formed(),
        plan.replicas.len() <= u32::MAX,
    ensures
        SplitPlanView::decoded(plan.encoded()) == Ok::<_, SplitError>(plan),
{
    broadcast use group_fields;

    let bytes = plan.encoded();
    let count = wire_len(plan.replicas.len());
    let head = u64_bytes(plan.id.0) + u64_bytes(plan.parent.0) + u128_bytes(plan.split_hash)
        + u64_bytes(plan.left.0) + u64_bytes(plan.right.0) + u64_bytes(plan.generation.0)
        + seq![plan.phase.byte()] + u32_bytes(count);
    lemma_nodes_bytes_len(plan.replicas);
    lemma_nodes_round_trip(head, plan.replicas);
    assert(bytes.subrange(0, 8) =~= u64_bytes(plan.id.0));
    assert(bytes.subrange(8, 16) =~= u64_bytes(plan.parent.0));
    assert(bytes.subrange(16, 32) =~= u128_bytes(plan.split_hash));
    assert(bytes.subrange(32, 40) =~= u64_bytes(plan.left.0));
    assert(bytes.subrange(40, 48) =~= u64_bytes(plan.right.0));
    assert(bytes.subrange(48, 56) =~= u64_bytes(plan.generation.0));
    assert(bytes[56] == plan.phase.byte());
    assert(bytes.subrange(57, 61) =~= u32_bytes(count));
    lemma_canonical_fixed(plan.replicas);
}

/// The image of a plan holds each part at its own place, and nothing after its nodes.
pub proof fn law_split_image_layout(plan: SplitPlanView, i: int)
    requires
        plan.replicas.len() <= u32::MAX,
        0 <= i < plan.replicas.len(),
    ensures
        plan.encoded().len() == 61 + 8 * plan.replicas.len(),
        u64_at(plan.encoded(), 0) == plan.id.0,
        u64_at(plan.encoded(), 8) == plan.parent.0,
        u128_at(plan.encoded(), 16) == plan.split_hash,
        u64_at(plan.encoded(), 32) == plan.left.0,
        u64_at(plan.encoded(), 40) == plan.right.0,
        u64_at(plan.encoded(), 48) == plan.generation.0,
        plan.encoded()[56] == plan.phase.byte(),
        u32_at(plan.encoded(), 57) == plan.replicas.len(),
        u64_at(plan.encoded(), 61 + 8 * i) == plan.replicas[i].0,
{
    broadcast use group_fields;

    let bytes = plan.encoded();
    let count = wire_len(plan.replicas.len());
    let tail = nodes_bytes(plan.replicas);
    lemma_nodes_bytes_len(plan.replicas);
    assert(bytes.subrange(0, 8) =~= u64_bytes(plan.id.0));
    assert(bytes.subrange(8, 16) =~= u64_bytes(plan.parent.0));
    assert(bytes.subrange(16, 32) =~= u128_bytes(plan.split_hash));
    assert(bytes.subrange(32, 40) =~= u64_bytes(plan.left.0));
    assert(bytes.subrange(40, 48) =~= u64_bytes(plan.right.0));
    assert(bytes.subrange(48, 56) =~= u64_bytes(plan.generation.0));
    assert(bytes.subrange(57, 61) =~= u32_bytes(count));
    let head = bytes.take(61);
    assert(bytes =~= head + tail);
    lemma_nodes_round_trip(head, plan.replicas);
    assert(nodes_at(bytes, 61, plan.replicas.len())[i] == plan.replicas[i]);
}

/// The phases are numbered in their order.
pub proof fn law_split_phases_are_numbered()
    ensures
        SplitPhase::Planned.byte() == 0,
        SplitPhase::ChildrenAllocated.byte() == 1,
        SplitPhase::BaseSeeded.byte() == 2,
        SplitPhase::Fenced.byte() == 3,
        SplitPhase::CutoverCommitted.byte() == 4,
        SplitPhase::ParentRetiring.byte() == 5,
        SplitPhase::Completed.byte() == 6,
        SplitPhase::Failed.byte() == 7,
{
}

/// An image that lost its last byte is truncated, and one with a byte too many has
/// trailing bytes.
pub proof fn law_split_images_end_where_they_should(plan: SplitPlanView, extra: u8)
    requires
        plan.well_formed(),
        0 < plan.replicas.len() <= u32::MAX,
    ensures
        SplitPlanView::decoded(plan.encoded().drop_last()) == Err::<SplitPlanView, _>(
            SplitError::Truncated,
        ),
        SplitPlanView::decoded(plan.encoded().push(extra)) == Err::<SplitPlanView, _>(
            SplitError::TrailingBytes,
        ),
{
    broadcast use group_fields;

    let count = wire_len(plan.replicas.len());
    lemma_nodes_bytes_len(plan.replicas);
    let short = plan.encoded().drop_last();
    let long = plan.encoded().push(extra);
    assert(short.subrange(57, 61) =~= u32_bytes(count));
    assert(long.subrange(57, 61) =~= u32_bytes(count));
    assert(short[56] == plan.phase.byte());
    assert(long[56] == plan.phase.byte());
}

} // verus!
