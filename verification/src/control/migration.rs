//! Persistent migration plans.
//!
//! A tablet move takes many steps. Every step is persisted through the control
//! plane, so that a new control leader reads the plans, observes the actual
//! groups and goes on.

use crate::control::placement::PlacementVersion;
use crate::control::roster::{
    clone_nodes, get_nodes, lemma_nodes_bytes_len, lemma_nodes_round_trip, nodes_at, nodes_bytes,
    put_nodes,
};
use crate::ids::{NodeId, TabletId};
use crate::order::{ascending, canonical, lemma_canonical, lemma_canonical_fixed, sort_unique};
use crate::wire::{
    get_u32, get_u64, group_fields, len_prefix, put_u32, put_u64, u32_at, u32_bytes, u64_at,
    u64_bytes, view_result, wire_len,
};
use std::cmp::Ordering;
use vstd::prelude::*;
use vstd::std_specs::cmp::{PartialOrdSpec, PartialOrdSpecImpl};

verus! {

/// Identity of one migration plan.
#[derive(Debug, Clone, Copy, PartialEq, Eq, PartialOrd, Ord, Hash, Structural)]
pub struct MigrationPlanId(pub u64);

impl MigrationPlanId {
    /// Wraps a raw plan id.
    pub fn from_u64(value: u64) -> (id: Self)
        ensures
            id.0 == value,
    {
        MigrationPlanId(value)
    }

    /// Returns the raw value.
    pub fn as_u64(self) -> (value: u64)
        ensures
            value == self.0,
    {
        self.0
    }
}

/// Migration lifecycle phase. Every step is idempotent and can be derived again
/// from the persisted plan and the observed membership.
#[derive(Debug, Clone, Copy, PartialEq, Eq, Ord, Hash, Structural)]
pub enum MigrationPhase {
    /// Plan committed; target replica creation not yet observed.
    Planned,
    /// Target replica exists locally; learner registration pending.
    TargetStarting,
    /// Learner registered on the tablet leader; catch-up in flight.
    LearnerAdded,
    /// Learner caught up; ready to promote.
    Ready,
    /// Membership change in flight.
    MembershipChanging,
    /// New membership committed; source retirement pending.
    Committed,
    /// Source replica tombstoned locally; plan done pending cleanup.
    SourceRetiring,
    /// Terminal success.
    Completed,
    /// Terminal failure.
    Failed,
}

impl MigrationPhase {
    /// The canonical discriminant.
    pub open spec fn byte(self) -> u8 {
        match self {
            MigrationPhase::Planned => 0,
            MigrationPhase::TargetStarting => 1,
            MigrationPhase::LearnerAdded => 2,
            MigrationPhase::Ready => 3,
            MigrationPhase::MembershipChanging => 4,
            MigrationPhase::Committed => 5,
            MigrationPhase::SourceRetiring => 6,
            MigrationPhase::Completed => 7,
            MigrationPhase::Failed => 8,
        }
    }

    /// The phase with discriminant `byte`, if there is one.
    pub open spec fn of_byte(byte: u8) -> Result<Self, MigrationError> {
        if byte == 0 {
            Ok(MigrationPhase::Planned)
        } else if byte == 1 {
            Ok(MigrationPhase::TargetStarting)
        } else if byte == 2 {
            Ok(MigrationPhase::LearnerAdded)
        } else if byte == 3 {
            Ok(MigrationPhase::Ready)
        } else if byte == 4 {
            Ok(MigrationPhase::MembershipChanging)
        } else if byte == 5 {
            Ok(MigrationPhase::Committed)
        } else if byte == 6 {
            Ok(MigrationPhase::SourceRetiring)
        } else if byte == 7 {
            Ok(MigrationPhase::Completed)
        } else if byte == 8 {
            Ok(MigrationPhase::Failed)
        } else {
            Err(MigrationError::BadPhase { found: byte })
        }
    }

    /// Whether the phase is terminal: the reconciler has nothing left to do.
    pub fn is_terminal(self) -> (terminal: bool)
        ensures
            terminal == (self is Completed || self is Failed),
    {
        matches!(self, MigrationPhase::Completed | MigrationPhase::Failed)
    }

    /// Encodes the phase as its discriminant byte.
    pub fn encode_byte(self) -> (byte: u8)
        ensures
            byte == self.byte(),
            Self::of_byte(byte) == Ok::<_, MigrationError>(self),
    {
        match self {
            MigrationPhase::Planned => 0,
            MigrationPhase::TargetStarting => 1,
            MigrationPhase::LearnerAdded => 2,
            MigrationPhase::Ready => 3,
            MigrationPhase::MembershipChanging => 4,
            MigrationPhase::Committed => 5,
            MigrationPhase::SourceRetiring => 6,
            MigrationPhase::Completed => 7,
            MigrationPhase::Failed => 8,
        }
    }

    /// Decodes a discriminant byte.
    pub fn decode_byte(byte: u8) -> (result: Result<Self, MigrationError>)
        ensures
            result == Self::of_byte(byte),
            result matches Ok(phase) ==> phase.byte() == byte,
            result is Err <==> byte >= 9,
    {
        match byte {
            0 => Ok(MigrationPhase::Planned),
            1 => Ok(MigrationPhase::TargetStarting),
            2 => Ok(MigrationPhase::LearnerAdded),
            3 => Ok(MigrationPhase::Ready),
            4 => Ok(MigrationPhase::MembershipChanging),
            5 => Ok(MigrationPhase::Committed),
            6 => Ok(MigrationPhase::SourceRetiring),
            7 => Ok(MigrationPhase::Completed),
            8 => Ok(MigrationPhase::Failed),
            _ => Err(MigrationError::BadPhase { found: byte }),
        }
    }
}

/// Phases are ordered as their discriminants, which is the order that they come in.
impl PartialOrd for MigrationPhase {
    fn partial_cmp(&self, other: &Self) -> (order: Option<Ordering>) {
        let (a, b): (u8, u8) = (self.encode_byte(), other.encode_byte());
        if a < b {
            Some(Ordering::Less)
        } else if a == b {
            Some(Ordering::Equal)
        } else {
            Some(Ordering::Greater)
        }
    }
}

impl PartialOrdSpecImpl for MigrationPhase {
    open spec fn obeys_partial_cmp_spec() -> bool {
        true
    }

    open spec fn partial_cmp_spec(&self, other: &Self) -> Option<Ordering> {
        if self.byte() < other.byte() {
            Some(Ordering::Less)
        } else if self.byte() == other.byte() {
            Some(Ordering::Equal)
        } else {
            Some(Ordering::Greater)
        }
    }
}

/// Discriminants and phases stand for each other, in the same order: a byte names a phase
/// exactly where it is the phase's own, phases compare as their bytes do, and the terminal
/// phases come last.
pub proof fn law_migration_phases_are_their_bytes(a: MigrationPhase, b: MigrationPhase, byte: u8)
    ensures
        MigrationPhase::of_byte(byte) == Ok::<_, MigrationError>(a) <==> a.byte() == byte,
        MigrationPhase::of_byte(byte) is Err <==> byte >= 9,
        MigrationPhase::of_byte(byte) is Err ==> MigrationPhase::of_byte(byte) == Err::<
            MigrationPhase,
            _,
        >(MigrationError::BadPhase { found: byte }),
        PartialOrdSpec::partial_cmp_spec(&a, &b) == Some(Ordering::Less) <==> a.byte() < b.byte(),
        PartialOrdSpec::partial_cmp_spec(&a, &b) == Some(Ordering::Equal) <==> a == b,
        (a is Completed || a is Failed) <==> a.byte() >= 7,
{
}

/// Why a migration plan was rejected.
#[derive(Debug, Clone, Copy, PartialEq, Eq, Structural)]
#[non_exhaustive]
pub enum MigrationError {
    /// Unknown phase discriminant in canonical bytes.
    BadPhase {
        /// Observed discriminant.
        found: u8,
    },
    /// Truncated canonical input.
    Truncated,
    /// Trailing bytes after the framed plan.
    TrailingBytes,
    /// Source and target are the same node.
    NoMovement {
        /// The repeated node.
        node: u64,
    },
}

/// One persisted tablet move: exactly one replica is replaced.
///
/// Actual voters `{A, B, C}` with desired `{B, C, D}` move `from = A` to
/// `to = D`.
#[derive(Debug, PartialEq, Eq)]
pub struct MigrationPlan {
    /// Plan identity.
    pub id: MigrationPlanId,
    /// Tablet moving.
    pub tablet: TabletId,
    /// Placement generation at plan creation; fences stale control actions.
    pub generation: PlacementVersion,
    /// Replica leaving.
    pub from: NodeId,
    /// Replica joining.
    pub to: NodeId,
    /// Voters after the move, in ascending order.
    pub desired_voters: Vec<NodeId>,
    /// Current phase.
    pub phase: MigrationPhase,
}

/// What a [`MigrationPlan`] says.
#[verifier::ext_equal]
pub struct MigrationPlanView {
    pub id: MigrationPlanId,
    pub tablet: TabletId,
    pub generation: PlacementVersion,
    pub from: NodeId,
    pub to: NodeId,
    pub desired_voters: Seq<NodeId>,
    pub phase: MigrationPhase,
}

impl View for MigrationPlan {
    type V = MigrationPlanView;

    open spec fn view(&self) -> MigrationPlanView {
        MigrationPlanView {
            id: self.id,
            tablet: self.tablet,
            generation: self.generation,
            from: self.from,
            to: self.to,
            desired_voters: self.desired_voters@,
            phase: self.phase,
        }
    }
}

impl Clone for MigrationPlan {
    fn clone(&self) -> (copy: Self)
        ensures
            copy@ == self@,
    {
        self.advance(self.phase)
    }
}

impl MigrationPlanView {
    /// Source and target differ, and the voters ascend.
    pub open spec fn well_formed(self) -> bool {
        &&& self.from != self.to
        &&& ascending(self.desired_voters)
    }

    /// The plan in its first phase, or why there is none.
    pub open spec fn planned(
        id: MigrationPlanId,
        tablet: TabletId,
        generation: PlacementVersion,
        from: NodeId,
        to: NodeId,
        desired_voters: Seq<NodeId>,
    ) -> Result<Self, MigrationError> {
        if from == to {
            Err(MigrationError::NoMovement { node: from.0 })
        } else {
            Ok(
                MigrationPlanView {
                    id,
                    tablet,
                    generation,
                    from,
                    to,
                    desired_voters: canonical(desired_voters),
                    phase: MigrationPhase::Planned,
                },
            )
        }
    }

    /// Canonical bytes: `id u64, tablet u64,
    /// generation u64, from u64, to u64, phase u8, count u32, voters[count] u64`.
    pub open spec fn encoded(self) -> Seq<u8> {
        u64_bytes(self.id.0) + u64_bytes(self.tablet.0) + u64_bytes(self.generation.0)
            + u64_bytes(self.from.0) + u64_bytes(self.to.0) + seq![self.phase.byte()]
            + u32_bytes(wire_len(self.desired_voters.len())) + nodes_bytes(self.desired_voters)
    }

    /// The plan that `input` spells, or why it spells none.
    pub open spec fn decoded(input: Seq<u8>) -> Result<Self, MigrationError> {
        let end = 45 + 8 * u32_at(input, 41);
        if input.len() < 45 {
            Err(MigrationError::Truncated)
        } else {
            match MigrationPhase::of_byte(input[40]) {
                Err(error) => Err(error),
                Ok(phase) => if input.len() < end {
                    Err(MigrationError::Truncated)
                } else if input.len() > end {
                    Err(MigrationError::TrailingBytes)
                } else {
                    match Self::planned(
                        MigrationPlanId(u64_at(input, 0)),
                        TabletId(u64_at(input, 8)),
                        PlacementVersion(u64_at(input, 16)),
                        NodeId(u64_at(input, 24)),
                        NodeId(u64_at(input, 32)),
                        nodes_at(input, 45, u32_at(input, 41) as nat),
                    ) {
                        Err(error) => Err(error),
                        Ok(plan) => Ok(MigrationPlanView { phase, ..plan }),
                    }
                },
            }
        }
    }
}

impl MigrationPlan {
    /// Builds a plan whose source and target differ.
    pub fn new(
        id: MigrationPlanId,
        tablet: TabletId,
        generation: PlacementVersion,
        from: NodeId,
        to: NodeId,
        desired_voters: Vec<NodeId>,
    ) -> (result: Result<Self, MigrationError>)
        ensures
            view_result(result) == MigrationPlanView::planned(
                id,
                tablet,
                generation,
                from,
                to,
                desired_voters@,
            ),
            result matches Ok(plan) ==> plan@.well_formed(),
            result matches Ok(plan) ==> forall|node: NodeId| #[trigger]
                plan@.desired_voters.contains(node) <==> desired_voters@.contains(node),
    {
        if from == to {
            return Err(MigrationError::NoMovement { node: from.as_u64() });
        }
        let sorted: Vec<NodeId> = sort_unique(&desired_voters);
        proof {
            lemma_canonical(desired_voters@);
        }
        Ok(
            MigrationPlan {
                id,
                tablet,
                generation,
                from,
                to,
                desired_voters: sorted,
                phase: MigrationPhase::Planned,
            },
        )
    }

    /// Moves the plan to a new phase; everything else stays.
    pub fn advance(&self, phase: MigrationPhase) -> (plan: Self)
        ensures
            plan@ == (MigrationPlanView { phase, ..self@ }),
    {
        MigrationPlan {
            id: self.id,
            tablet: self.tablet,
            generation: self.generation,
            from: self.from,
            to: self.to,
            desired_voters: clone_nodes(&self.desired_voters),
            phase,
        }
    }

    /// Encodes the canonical bytes: `id u64, tablet u64,
    /// generation u64, from u64, to u64, phase u8, count u32, voters[count] u64`.
    pub fn encode_to_vec(&self) -> (out: Vec<u8>)
        ensures
            out@ == self@.encoded(),
    {
        let mut out: Vec<u8> = Vec::new();
        put_u64(&mut out, self.id.as_u64());
        put_u64(&mut out, self.tablet.as_u64());
        put_u64(&mut out, self.generation.as_u64());
        put_u64(&mut out, self.from.as_u64());
        put_u64(&mut out, self.to.as_u64());
        out.push(self.phase.encode_byte());
        put_u32(&mut out, len_prefix(self.desired_voters.len()));
        put_nodes(&mut out, &self.desired_voters);
        proof {
            assert(out@ =~= self@.encoded());
        }
        out
    }

    /// Decodes exactly one plan.
    pub fn decode_exact(input: &[u8]) -> (result: Result<Self, MigrationError>)
        ensures
            view_result(result) == MigrationPlanView::decoded(input@),
            result matches Ok(plan) ==> plan@.well_formed(),
    {
        if input.len() < 45 {
            return Err(MigrationError::Truncated);
        }
        let id: MigrationPlanId = MigrationPlanId::from_u64(get_u64(input, 0));
        let tablet: TabletId = TabletId::from_u64(get_u64(input, 8));
        let generation: PlacementVersion = PlacementVersion::from_u64(get_u64(input, 16));
        let from: NodeId = NodeId::from_u64(get_u64(input, 24));
        let to: NodeId = NodeId::from_u64(get_u64(input, 32));
        let phase: MigrationPhase = match MigrationPhase::decode_byte(input[40]) {
            Ok(phase) => phase,
            Err(error) => return Err(error),
        };
        let count: u32 = get_u32(input, 41);
        let end: u64 = 45 + 8 * (count as u64);
        if (input.len() as u64) < end {
            return Err(MigrationError::Truncated);
        }
        if (input.len() as u64) > end {
            return Err(MigrationError::TrailingBytes);
        }
        let desired_voters: Vec<NodeId> = get_nodes(input, 45, count as usize);
        match MigrationPlan::new(id, tablet, generation, from, to, desired_voters) {
            Ok(plan) => Ok(MigrationPlan { phase, ..plan }),
            Err(error) => Err(error),
        }
    }
}

/// A well-formed plan decodes from its own encoding.
pub proof fn law_migration_round_trip(plan: MigrationPlanView)
    requires
        plan.well_formed(),
        plan.desired_voters.len() <= u32::MAX,
    ensures
        MigrationPlanView::decoded(plan.encoded()) == Ok::<_, MigrationError>(plan),
{
    broadcast use group_fields;

    let bytes = plan.encoded();
    let count = wire_len(plan.desired_voters.len());
    let head = u64_bytes(plan.id.0) + u64_bytes(plan.tablet.0) + u64_bytes(plan.generation.0)
        + u64_bytes(plan.from.0) + u64_bytes(plan.to.0) + seq![plan.phase.byte()]
        + u32_bytes(count);
    lemma_nodes_bytes_len(plan.desired_voters);
    lemma_nodes_round_trip(head, plan.desired_voters);
    assert(bytes.subrange(0, 8) =~= u64_bytes(plan.id.0));
    assert(bytes.subrange(8, 16) =~= u64_bytes(plan.tablet.0));
    assert(bytes.subrange(16, 24) =~= u64_bytes(plan.generation.0));
    assert(bytes.subrange(24, 32) =~= u64_bytes(plan.from.0));
    assert(bytes.subrange(32, 40) =~= u64_bytes(plan.to.0));
    assert(bytes[40] == plan.phase.byte());
    assert(bytes.subrange(41, 45) =~= u32_bytes(count));
    lemma_canonical_fixed(plan.desired_voters);
}

/// The image of a plan holds each part at its own place, and nothing after its nodes.
pub proof fn law_migration_image_layout(plan: MigrationPlanView, i: int)
    requires
        plan.desired_voters.len() <= u32::MAX,
        0 <= i < plan.desired_voters.len(),
    ensures
        plan.encoded().len() == 45 + 8 * plan.desired_voters.len(),
        u64_at(plan.encoded(), 0) == plan.id.0,
        u64_at(plan.encoded(), 8) == plan.tablet.0,
        u64_at(plan.encoded(), 16) == plan.generation.0,
        u64_at(plan.encoded(), 24) == plan.from.0,
        u64_at(plan.encoded(), 32) == plan.to.0,
        plan.encoded()[40] == plan.phase.byte(),
        u32_at(plan.encoded(), 41) == plan.desired_voters.len(),
        u64_at(plan.encoded(), 45 + 8 * i) == plan.desired_voters[i].0,
{
    broadcast use group_fields;

    let bytes = plan.encoded();
    let count = wire_len(plan.desired_voters.len());
    let tail = nodes_bytes(plan.desired_voters);
    lemma_nodes_bytes_len(plan.desired_voters);
    assert(bytes.subrange(0, 8) =~= u64_bytes(plan.id.0));
    assert(bytes.subrange(8, 16) =~= u64_bytes(plan.tablet.0));
    assert(bytes.subrange(16, 24) =~= u64_bytes(plan.generation.0));
    assert(bytes.subrange(24, 32) =~= u64_bytes(plan.from.0));
    assert(bytes.subrange(32, 40) =~= u64_bytes(plan.to.0));
    assert(bytes.subrange(41, 45) =~= u32_bytes(count));
    let head = bytes.take(45);
    assert(bytes =~= head + tail);
    lemma_nodes_round_trip(head, plan.desired_voters);
    assert(nodes_at(bytes, 45, plan.desired_voters.len())[i] == plan.desired_voters[i]);
}

/// The phases are numbered in their order.
pub proof fn law_migration_phases_are_numbered()
    ensures
        MigrationPhase::Planned.byte() == 0,
        MigrationPhase::TargetStarting.byte() == 1,
        MigrationPhase::LearnerAdded.byte() == 2,
        MigrationPhase::Ready.byte() == 3,
        MigrationPhase::MembershipChanging.byte() == 4,
        MigrationPhase::Committed.byte() == 5,
        MigrationPhase::SourceRetiring.byte() == 6,
        MigrationPhase::Completed.byte() == 7,
        MigrationPhase::Failed.byte() == 8,
{
}

/// An image that lost its last byte is truncated, and one with a byte too many has
/// trailing bytes.
pub proof fn law_migration_images_end_where_they_should(plan: MigrationPlanView, extra: u8)
    requires
        plan.well_formed(),
        0 < plan.desired_voters.len() <= u32::MAX,
    ensures
        MigrationPlanView::decoded(plan.encoded().drop_last()) == Err::<MigrationPlanView, _>(
            MigrationError::Truncated,
        ),
        MigrationPlanView::decoded(plan.encoded().push(extra)) == Err::<MigrationPlanView, _>(
            MigrationError::TrailingBytes,
        ),
{
    broadcast use group_fields;

    let count = wire_len(plan.desired_voters.len());
    lemma_nodes_bytes_len(plan.desired_voters);
    let short = plan.encoded().drop_last();
    let long = plan.encoded().push(extra);
    assert(short.subrange(41, 45) =~= u32_bytes(count));
    assert(long.subrange(41, 45) =~= u32_bytes(count));
    assert(short[40] == plan.phase.byte());
    assert(long[40] == plan.phase.byte());
}

} // verus!
