//! Typed control-plane mutations: the only writes that the control group commits.

use crate::control::catalog::{
    law_index_round_trip, law_namespace_round_trip, CatalogError, IndexRecord, NamespaceRecord,
};
use crate::control::layouts::{
    law_layout_key_round_trip, law_layout_record_round_trip, FabricVocabulary, LayoutError,
    LayoutKey, LayoutKeyView, LayoutRecord, LayoutRecordView, LAYOUT_KEY_LEN,
};
use crate::control::merge::{
    law_merge_round_trip, MergeError, MergePhase, MergePlan, MergePlanView,
};
use crate::control::migration::{
    law_migration_round_trip, MigrationError, MigrationPhase, MigrationPlan, MigrationPlanId,
    MigrationPlanView,
};
use crate::control::node::{
    law_node_record_round_trip, Endpoints, EndpointsView, NodeError, NodeRecord, NodeRecordView,
    NodeState,
};
use crate::control::placement::{
    law_desired_set_round_trip, DesiredReplicaSet, DesiredReplicaSetView, PlacementError,
    PlacementVersion,
};
use crate::control::split::{
    law_split_round_trip, SplitError, SplitPhase, SplitPlan, SplitPlanView,
};
use crate::ids::NodeId;
use crate::wire::{
    get_u16, get_u32, get_u64, group_fields, len_prefix, put_bytes, put_u16, put_u32, put_u64,
    u16_at, u16_bytes, u32_at, u32_bytes, u64_at, u64_bytes, view_result, wire_len,
};
use vstd::prelude::*;
use vstd::slice::slice_subrange;

verus! {

/// Framing version of [`ControlMutation`].
pub const CONTROL_MUTATION_VERSION: u16 = 1;

/// Identity of a plan, whatever its kind: all kinds share one sequence.
pub type PlanId = MigrationPlanId;

/// Typed control-plane change.
#[derive(Debug, PartialEq, Eq)]
#[allow(inconsistent_fields)]
pub enum ControlMutation {
    /// Admit a node. It starts as `Joining`; promotion to `Active` is a
    /// [`ControlMutation::SetNodeState`] of its own.
    RegisterNode {
        /// Admitted record.
        record: NodeRecord,
    },
    /// Move one node through its lifecycle.
    SetNodeState {
        /// Affected node.
        node: NodeId,
        /// New state.
        state: NodeState,
    },
    /// Publish a tablet's desired voter set.
    SetDesiredPlacement {
        /// Desired set.
        desired: DesiredReplicaSet,
    },
    /// Publish a migration plan together with its desired placement.
    CreateMigration {
        /// Plan to persist.
        plan: MigrationPlan,
    },
    /// Advance a migration plan's phase.
    AdvanceMigration {
        /// Affected plan.
        plan: PlanId,
        /// New phase.
        phase: MigrationPhase,
        /// Fencing generation that the writer observed.
        generation: PlacementVersion,
    },
    /// Remove a terminal migration plan.
    RemoveMigration {
        /// Affected plan.
        plan: PlanId,
    },
    /// Persist a new split plan.
    CreateSplit {
        /// Plan to persist.
        plan: SplitPlan,
    },
    /// Advance a split plan's phase.
    AdvanceSplit {
        /// Affected plan.
        plan: PlanId,
        /// New phase.
        phase: SplitPhase,
        /// Fencing generation that the writer observed.
        generation: PlacementVersion,
    },
    /// Remove a terminal split plan.
    RemoveSplit {
        /// Affected plan.
        plan: PlanId,
    },
    /// Persist a new merge plan.
    CreateMerge {
        /// Plan to persist.
        plan: MergePlan,
    },
    /// Advance a merge plan's phase.
    AdvanceMerge {
        /// Affected plan.
        plan: PlanId,
        /// New phase.
        phase: MergePhase,
        /// Fencing generation that the writer observed.
        generation: PlacementVersion,
    },
    /// Remove a terminal merge plan.
    RemoveMerge {
        /// Affected plan.
        plan: PlanId,
    },
    /// Register a namespace.
    RegisterNamespace {
        /// Namespace record.
        record: NamespaceRecord,
    },
    /// Persist a new secondary index definition.
    CreateIndex {
        /// Index record.
        record: IndexRecord,
    },
    /// Advance an index lifecycle state.
    AdvanceIndex {
        /// Affected index.
        id: u64,
        /// New state discriminant.
        state: u8,
    },
    /// Remove a `Dropping` index definition.
    RemoveIndex {
        /// Affected index.
        id: u64,
    },
    /// Publish one asset's redundancy layout generation.
    PublishRedundancyLayout {
        /// Map key: the asset identity beside the opaque bytes.
        key: LayoutKey,
        /// Offered control generation; duplicates the one in the record.
        generation: u64,
        /// Opaque layout bytes and their generation.
        record: LayoutRecord,
    },
    /// Drop one asset's published redundancy layout.
    DropRedundancyAsset {
        /// Map key to remove.
        key: LayoutKey,
    },
}

/// What a [`ControlMutation`] says.
#[verifier::ext_equal]
#[allow(inconsistent_fields)]
pub enum ControlMutationView {
    RegisterNode { record: NodeRecordView },
    SetNodeState { node: NodeId, state: NodeState },
    SetDesiredPlacement { desired: DesiredReplicaSetView },
    CreateMigration { plan: MigrationPlanView },
    AdvanceMigration { plan: PlanId, phase: MigrationPhase, generation: PlacementVersion },
    RemoveMigration { plan: PlanId },
    CreateSplit { plan: SplitPlanView },
    AdvanceSplit { plan: PlanId, phase: SplitPhase, generation: PlacementVersion },
    RemoveSplit { plan: PlanId },
    CreateMerge { plan: MergePlanView },
    AdvanceMerge { plan: PlanId, phase: MergePhase, generation: PlacementVersion },
    RemoveMerge { plan: PlanId },
    RegisterNamespace { record: NamespaceRecord },
    CreateIndex { record: IndexRecord },
    AdvanceIndex { id: u64, state: u8 },
    RemoveIndex { id: u64 },
    PublishRedundancyLayout { key: LayoutKeyView, generation: u64, record: LayoutRecordView },
    DropRedundancyAsset { key: LayoutKeyView },
}

impl View for ControlMutation {
    type V = ControlMutationView;

    open spec fn view(&self) -> ControlMutationView {
        match self {
            ControlMutation::RegisterNode { record } => {
                ControlMutationView::RegisterNode { record: record@ }
            },
            ControlMutation::SetNodeState { node, state } => ControlMutationView::SetNodeState {
                node: *node,
                state: *state,
            },
            ControlMutation::SetDesiredPlacement { desired } => {
                ControlMutationView::SetDesiredPlacement { desired: desired@ }
            },
            ControlMutation::CreateMigration { plan } => {
                ControlMutationView::CreateMigration { plan: plan@ }
            },
            ControlMutation::AdvanceMigration { plan, phase, generation } => {
                ControlMutationView::AdvanceMigration {
                    plan: *plan,
                    phase: *phase,
                    generation: *generation,
                }
            },
            ControlMutation::RemoveMigration { plan } => {
                ControlMutationView::RemoveMigration { plan: *plan }
            },
            ControlMutation::CreateSplit { plan } => {
                ControlMutationView::CreateSplit { plan: plan@ }
            },
            ControlMutation::AdvanceSplit { plan, phase, generation } => {
                ControlMutationView::AdvanceSplit {
                    plan: *plan,
                    phase: *phase,
                    generation: *generation,
                }
            },
            ControlMutation::RemoveSplit { plan } => {
                ControlMutationView::RemoveSplit { plan: *plan }
            },
            ControlMutation::CreateMerge { plan } => {
                ControlMutationView::CreateMerge { plan: plan@ }
            },
            ControlMutation::AdvanceMerge { plan, phase, generation } => {
                ControlMutationView::AdvanceMerge {
                    plan: *plan,
                    phase: *phase,
                    generation: *generation,
                }
            },
            ControlMutation::RemoveMerge { plan } => {
                ControlMutationView::RemoveMerge { plan: *plan }
            },
            ControlMutation::RegisterNamespace { record } => {
                ControlMutationView::RegisterNamespace { record: *record }
            },
            ControlMutation::CreateIndex { record } => {
                ControlMutationView::CreateIndex { record: *record }
            },
            ControlMutation::AdvanceIndex { id, state } => ControlMutationView::AdvanceIndex {
                id: *id,
                state: *state,
            },
            ControlMutation::RemoveIndex { id } => ControlMutationView::RemoveIndex { id: *id },
            ControlMutation::PublishRedundancyLayout { key, generation, record } => {
                ControlMutationView::PublishRedundancyLayout {
                    key: key@,
                    generation: *generation,
                    record: record@,
                }
            },
            ControlMutation::DropRedundancyAsset { key } => {
                ControlMutationView::DropRedundancyAsset { key: key@ }
            },
        }
    }
}

impl Clone for ControlMutation {
    fn clone(&self) -> (copy: Self)
        ensures
            copy@ == self@,
    {
        match self {
            ControlMutation::RegisterNode { record } => ControlMutation::RegisterNode {
                record: record.clone()
            },
            ControlMutation::SetNodeState { node, state } => ControlMutation::SetNodeState {
                node: *node,
                state: *state,
            },
            ControlMutation::SetDesiredPlacement { desired } => {
                ControlMutation::SetDesiredPlacement {
                    desired: desired.clone()
                }
            },
            ControlMutation::CreateMigration { plan } => ControlMutation::CreateMigration {
                plan: plan.clone()
            },
            ControlMutation::AdvanceMigration { plan, phase, generation } => {
                ControlMutation::AdvanceMigration {
                    plan: *plan,
                    phase: *phase,
                    generation: *generation,
                }
            },
            ControlMutation::RemoveMigration { plan } => {
                ControlMutation::RemoveMigration { plan: *plan }
            },
            ControlMutation::CreateSplit { plan } => ControlMutation::CreateSplit {
                plan: plan.clone()
            },
            ControlMutation::AdvanceSplit { plan, phase, generation } => {
                ControlMutation::AdvanceSplit {
                    plan: *plan,
                    phase: *phase,
                    generation: *generation,
                }
            },
            ControlMutation::RemoveSplit { plan } => ControlMutation::RemoveSplit { plan: *plan },
            ControlMutation::CreateMerge { plan } => ControlMutation::CreateMerge {
                plan: plan.clone()
            },
            ControlMutation::AdvanceMerge { plan, phase, generation } => {
                ControlMutation::AdvanceMerge {
                    plan: *plan,
                    phase: *phase,
                    generation: *generation,
                }
            },
            ControlMutation::RemoveMerge { plan } => ControlMutation::RemoveMerge { plan: *plan },
            ControlMutation::RegisterNamespace { record } => {
                ControlMutation::RegisterNamespace { record: *record }
            },
            ControlMutation::CreateIndex { record } => {
                ControlMutation::CreateIndex { record: *record }
            },
            ControlMutation::AdvanceIndex { id, state } => ControlMutation::AdvanceIndex {
                id: *id,
                state: *state,
            },
            ControlMutation::RemoveIndex { id } => ControlMutation::RemoveIndex { id: *id },
            ControlMutation::PublishRedundancyLayout { key, generation, record } => {
                ControlMutation::PublishRedundancyLayout {
                    key: *key,
                    generation: *generation,
                    record: record.clone(),
                }
            },
            ControlMutation::DropRedundancyAsset { key } => {
                ControlMutation::DropRedundancyAsset { key: *key }
            },
        }
    }
}

/// Why the body of a control mutation was rejected.
#[derive(Debug, Clone, Copy, PartialEq, Eq, Structural)]
pub enum BodyError {
    /// Node record or node state.
    Node(NodeError),
    /// Desired placement.
    Placement(PlacementError),
    /// Migration plan or phase.
    Migration(MigrationError),
    /// Split plan or phase.
    Split(SplitError),
    /// Merge plan or phase.
    Merge(MergeError),
    /// Namespace or index record.
    Catalog(CatalogError),
    /// Layout key or record.
    Layout(LayoutError),
    /// The offered generation is not the one in the record.
    GenerationMismatch {
        /// Offered generation.
        offered: u64,
        /// Generation in the record.
        recorded: u64,
    },
}

/// Why a control mutation was rejected.
#[derive(Debug, Clone, Copy, PartialEq, Eq, Structural)]
#[non_exhaustive]
pub enum ControlMutationError {
    /// Framing version that this library cannot speak.
    UnsupportedVersion {
        /// Observed version.
        found: u16,
    },
    /// Truncated input where framing promised bytes.
    Truncated,
    /// A length prefix exceeds the input.
    Oversized {
        /// Declared length.
        len: usize,
        /// Bytes actually available.
        available: usize,
    },
    /// Unknown mutation tag.
    BadTag {
        /// Observed tag.
        tag: u8,
    },
    /// Trailing bytes after the framed mutation.
    TrailingBytes,
    /// An embedded record failed to decode.
    BadBody {
        /// What is wrong with it.
        cause: BodyError,
    },
}

impl ControlMutationView {
    /// The tag of the kind of mutation.
    pub open spec fn tag(self) -> u8 {
        match self {
            ControlMutationView::RegisterNode { .. } => 0,
            ControlMutationView::SetNodeState { .. } => 1,
            ControlMutationView::SetDesiredPlacement { .. } => 2,
            ControlMutationView::CreateMigration { .. } => 3,
            ControlMutationView::AdvanceMigration { .. } => 4,
            ControlMutationView::RemoveMigration { .. } => 5,
            ControlMutationView::CreateSplit { .. } => 6,
            ControlMutationView::AdvanceSplit { .. } => 7,
            ControlMutationView::RemoveSplit { .. } => 8,
            ControlMutationView::CreateMerge { .. } => 9,
            ControlMutationView::AdvanceMerge { .. } => 10,
            ControlMutationView::RemoveMerge { .. } => 11,
            ControlMutationView::RegisterNamespace { .. } => 12,
            ControlMutationView::CreateIndex { .. } => 13,
            ControlMutationView::AdvanceIndex { .. } => 14,
            ControlMutationView::RemoveIndex { .. } => 15,
            ControlMutationView::PublishRedundancyLayout { .. } => 16,
            ControlMutationView::DropRedundancyAsset { .. } => 17,
        }
    }

    /// The bytes behind the frame.
    pub open spec fn body(self) -> Seq<u8> {
        match self {
            ControlMutationView::RegisterNode { record } => record.encoded(),
            ControlMutationView::SetNodeState { node, state } => u64_bytes(node.0)
                + seq![state.byte()],
            ControlMutationView::SetDesiredPlacement { desired } => desired.encoded(),
            ControlMutationView::CreateMigration { plan } => plan.encoded(),
            ControlMutationView::AdvanceMigration { plan, phase, generation } => u64_bytes(plan.0)
                + seq![phase.byte()] + u64_bytes(generation.0),
            ControlMutationView::RemoveMigration { plan } => u64_bytes(plan.0),
            ControlMutationView::CreateSplit { plan } => plan.encoded(),
            ControlMutationView::AdvanceSplit { plan, phase, generation } => u64_bytes(plan.0)
                + seq![phase.byte()] + u64_bytes(generation.0),
            ControlMutationView::RemoveSplit { plan } => u64_bytes(plan.0),
            ControlMutationView::CreateMerge { plan } => plan.encoded(),
            ControlMutationView::AdvanceMerge { plan, phase, generation } => u64_bytes(plan.0)
                + seq![phase.byte()] + u64_bytes(generation.0),
            ControlMutationView::RemoveMerge { plan } => u64_bytes(plan.0),
            ControlMutationView::RegisterNamespace { record } => record.encoded(),
            ControlMutationView::CreateIndex { record } => record.encoded(),
            ControlMutationView::AdvanceIndex { id, state } => u64_bytes(id) + seq![state],
            ControlMutationView::RemoveIndex { id } => u64_bytes(id),
            ControlMutationView::PublishRedundancyLayout {
                key,
                generation,
                record,
            } => key.encoded()
                + u64_bytes(generation) + record.encoded(),
            ControlMutationView::DropRedundancyAsset { key } => key.encoded(),
        }
    }

    /// Canonical bytes: version, tag, body length, body.
    pub open spec fn encoded(self) -> Seq<u8> {
        u16_bytes(CONTROL_MUTATION_VERSION) + seq![self.tag()] + u32_bytes(
            wire_len(self.body().len()),
        ) + self.body()
    }

    /// The embedded record is one that its own type accepts and can frame.
    pub open spec fn well_formed(self, vocabulary: FabricVocabulary) -> bool {
        match self {
            ControlMutationView::RegisterNode { record } => record.well_formed()
                && record.framable(),
            ControlMutationView::SetDesiredPlacement { desired } => desired.well_formed()
                && desired.replicas.len() <= u32::MAX,
            ControlMutationView::CreateMigration { plan } => plan.well_formed()
                && plan.desired_voters.len() <= u32::MAX,
            ControlMutationView::CreateSplit { plan } => plan.well_formed()
                && plan.replicas.len() <= u32::MAX,
            ControlMutationView::CreateMerge { plan } => plan.well_formed()
                && plan.replicas.len() <= u32::MAX,
            ControlMutationView::PublishRedundancyLayout { key, generation, record } => {
                &&& key.well_formed(vocabulary)
                &&& record.well_formed(vocabulary)
                &&& record.layout.len() <= u32::MAX
                &&& generation == record.control_generation
            },
            ControlMutationView::DropRedundancyAsset { key } => key.well_formed(vocabulary),
            _ => true,
        }
    }

    /// The mutation with tag `tag` that `body` spells, or why it spells none.
    pub open spec fn decoded_body(vocabulary: FabricVocabulary, tag: u8, body: Seq<u8>) -> Result<
        Self,
        ControlMutationError,
    > {
        if tag == 0 {
            match NodeRecordView::decoded(body) {
                Ok(record) => Ok(ControlMutationView::RegisterNode { record }),
                Err(error) => Err(
                    ControlMutationError::BadBody { cause: BodyError::Node(error) },
                ),
            }
        } else if tag == 1 {
            if body.len() != 9 {
                Err(ControlMutationError::Truncated)
            } else {
                match NodeState::of_byte(body[8]) {
                    Ok(state) => Ok(
                        ControlMutationView::SetNodeState { node: NodeId(u64_at(body, 0)), state },
                    ),
                    Err(error) => Err(
                        ControlMutationError::BadBody { cause: BodyError::Node(error) },
                    ),
                }
            }
        } else if tag == 2 {
            match DesiredReplicaSetView::decoded(body) {
                Ok(desired) => Ok(ControlMutationView::SetDesiredPlacement { desired }),
                Err(error) => Err(
                    ControlMutationError::BadBody { cause: BodyError::Placement(error) },
                ),
            }
        } else if tag == 3 {
            match MigrationPlanView::decoded(body) {
                Ok(plan) => Ok(ControlMutationView::CreateMigration { plan }),
                Err(error) => Err(
                    ControlMutationError::BadBody { cause: BodyError::Migration(error) },
                ),
            }
        } else if tag == 4 {
            if body.len() != 17 {
                Err(ControlMutationError::Truncated)
            } else {
                match MigrationPhase::of_byte(body[8]) {
                    Ok(phase) => Ok(
                        ControlMutationView::AdvanceMigration {
                            plan: MigrationPlanId(u64_at(body, 0)),
                            phase,
                            generation: PlacementVersion(u64_at(body, 9)),
                        },
                    ),
                    Err(error) => Err(
                        ControlMutationError::BadBody { cause: BodyError::Migration(error) },
                    ),
                }
            }
        } else if tag == 5 {
            if body.len() != 8 {
                Err(ControlMutationError::Truncated)
            } else {
                Ok(ControlMutationView::RemoveMigration { plan: MigrationPlanId(u64_at(body, 0)) })
            }
        } else if tag == 6 {
            match SplitPlanView::decoded(body) {
                Ok(plan) => Ok(ControlMutationView::CreateSplit { plan }),
                Err(error) => Err(
                    ControlMutationError::BadBody { cause: BodyError::Split(error) },
                ),
            }
        } else if tag == 7 {
            if body.len() != 17 {
                Err(ControlMutationError::Truncated)
            } else {
                match SplitPhase::of_byte(body[8]) {
                    Ok(phase) => Ok(
                        ControlMutationView::AdvanceSplit {
                            plan: MigrationPlanId(u64_at(body, 0)),
                            phase,
                            generation: PlacementVersion(u64_at(body, 9)),
                        },
                    ),
                    Err(error) => Err(
                        ControlMutationError::BadBody { cause: BodyError::Split(error) },
                    ),
                }
            }
        } else if tag == 8 {
            if body.len() != 8 {
                Err(ControlMutationError::Truncated)
            } else {
                Ok(ControlMutationView::RemoveSplit { plan: MigrationPlanId(u64_at(body, 0)) })
            }
        } else if tag == 9 {
            match MergePlanView::decoded(body) {
                Ok(plan) => Ok(ControlMutationView::CreateMerge { plan }),
                Err(error) => Err(
                    ControlMutationError::BadBody { cause: BodyError::Merge(error) },
                ),
            }
        } else if tag == 10 {
            if body.len() != 17 {
                Err(ControlMutationError::Truncated)
            } else {
                match MergePhase::of_byte(body[8]) {
                    Ok(phase) => Ok(
                        ControlMutationView::AdvanceMerge {
                            plan: MigrationPlanId(u64_at(body, 0)),
                            phase,
                            generation: PlacementVersion(u64_at(body, 9)),
                        },
                    ),
                    Err(error) => Err(
                        ControlMutationError::BadBody { cause: BodyError::Merge(error) },
                    ),
                }
            }
        } else if tag == 11 {
            if body.len() != 8 {
                Err(ControlMutationError::Truncated)
            } else {
                Ok(ControlMutationView::RemoveMerge { plan: MigrationPlanId(u64_at(body, 0)) })
            }
        } else if tag == 12 {
            match NamespaceRecord::decoded(body) {
                Ok(record) => Ok(ControlMutationView::RegisterNamespace { record }),
                Err(error) => Err(
                    ControlMutationError::BadBody { cause: BodyError::Catalog(error) },
                ),
            }
        } else if tag == 13 {
            match IndexRecord::decoded(body) {
                Ok(record) => Ok(ControlMutationView::CreateIndex { record }),
                Err(error) => Err(
                    ControlMutationError::BadBody { cause: BodyError::Catalog(error) },
                ),
            }
        } else if tag == 14 {
            if body.len() != 9 {
                Err(ControlMutationError::Truncated)
            } else {
                Ok(ControlMutationView::AdvanceIndex { id: u64_at(body, 0), state: body[8] })
            }
        } else if tag == 15 {
            if body.len() != 8 {
                Err(ControlMutationError::Truncated)
            } else {
                Ok(ControlMutationView::RemoveIndex { id: u64_at(body, 0) })
            }
        } else if tag == 16 {
            if body.len() < LAYOUT_KEY_LEN + 8 + 12 {
                Err(ControlMutationError::Truncated)
            } else {
                match LayoutKeyView::decoded(vocabulary, body.subrange(0, 41)) {
                    Err(error) => Err(
                        ControlMutationError::BadBody { cause: BodyError::Layout(error) },
                    ),
                    Ok(key) => match LayoutRecordView::decoded(vocabulary, body.skip(49)) {
                        Err(error) => Err(
                            ControlMutationError::BadBody { cause: BodyError::Layout(error) },
                        ),
                        Ok(record) => if u64_at(body, 41) != record.control_generation {
                            Err(
                                ControlMutationError::BadBody {
                                    cause: BodyError::GenerationMismatch {
                                        offered: u64_at(body, 41),
                                        recorded: record.control_generation,
                                    },
                                },
                            )
                        } else {
                            Ok(
                                ControlMutationView::PublishRedundancyLayout {
                                    key,
                                    generation: u64_at(body, 41),
                                    record,
                                },
                            )
                        },
                    },
                }
            }
        } else if tag == 17 {
            if body.len() != LAYOUT_KEY_LEN {
                Err(ControlMutationError::Truncated)
            } else {
                match LayoutKeyView::decoded(vocabulary, body) {
                    Ok(key) => Ok(ControlMutationView::DropRedundancyAsset { key }),
                    Err(error) => Err(
                        ControlMutationError::BadBody { cause: BodyError::Layout(error) },
                    ),
                }
            }
        } else {
            Err(ControlMutationError::BadTag { tag })
        }
    }

    /// The mutation, with the endpoints of a node that it registers in canonical text; or the
    /// first of them that is no address.
    pub open spec fn admitted(self, found: EndpointsView) -> Result<Self, ControlMutationError> {
        match self {
            ControlMutationView::RegisterNode { record } => match record.admitted(found) {
                Ok(record) => Ok(ControlMutationView::RegisterNode { record }),
                Err(error) => Err(
                    ControlMutationError::BadBody { cause: BodyError::Node(error) },
                ),
            },
            _ => Ok(self),
        }
    }

    /// Whether `canonical` may give `found` for the endpoints of a node that is registered.
    pub open spec fn judged<F: Fn(&str) -> Option<String>>(
        self,
        canonical: F,
        found: EndpointsView,
    ) -> bool {
        self matches ControlMutationView::RegisterNode { record } ==> record.judged(
            canonical,
            found,
        )
    }

    /// The mutation that `input` spells, whatever endpoints it has, or why it spells none.
    pub open spec fn decoded(vocabulary: FabricVocabulary, input: Seq<u8>) -> Result<
        Self,
        ControlMutationError,
    > {
        let len = u32_at(input, 3);
        if input.len() < 7 {
            Err(ControlMutationError::Truncated)
        } else if u16_at(input, 0) != CONTROL_MUTATION_VERSION {
            Err(ControlMutationError::UnsupportedVersion { found: u16_at(input, 0) })
        } else if input.len() < 7 + len {
            Err(
                ControlMutationError::Oversized {
                    len: len as usize,
                    available: input.len() as usize,
                },
            )
        } else if input.len() > 7 + len {
            Err(ControlMutationError::TrailingBytes)
        } else {
            Self::decoded_body(vocabulary, input[2], input.subrange(7, 7 + len))
        }
    }
}

impl ControlMutation {
    /// Encodes the body and gives its tag.
    fn encode_body(&self) -> (tagged: (u8, Vec<u8>))
        ensures
            tagged.0 == self@.tag(),
            tagged.1@ == self@.body(),
    {
        let mut body: Vec<u8> = Vec::new();
        match self {
            ControlMutation::RegisterNode { record } => (0, record.encode_to_vec()),
            ControlMutation::SetNodeState { node, state } => {
                put_u64(&mut body, node.as_u64());
                body.push(state.encode_byte());
                proof {
                    assert(body@ =~= self@.body());
                }
                (1, body)
            },
            ControlMutation::SetDesiredPlacement { desired } => (2, desired.encode_to_vec()),
            ControlMutation::CreateMigration { plan } => (3, plan.encode_to_vec()),
            ControlMutation::AdvanceMigration { plan, phase, generation } => {
                put_u64(&mut body, plan.as_u64());
                body.push(phase.encode_byte());
                put_u64(&mut body, generation.as_u64());
                proof {
                    assert(body@ =~= self@.body());
                }
                (4, body)
            },
            ControlMutation::RemoveMigration { plan } => {
                put_u64(&mut body, plan.as_u64());
                proof {
                    assert(body@ =~= self@.body());
                }
                (5, body)
            },
            ControlMutation::CreateSplit { plan } => (6, plan.encode_to_vec()),
            ControlMutation::AdvanceSplit { plan, phase, generation } => {
                put_u64(&mut body, plan.as_u64());
                body.push(phase.encode_byte());
                put_u64(&mut body, generation.as_u64());
                proof {
                    assert(body@ =~= self@.body());
                }
                (7, body)
            },
            ControlMutation::RemoveSplit { plan } => {
                put_u64(&mut body, plan.as_u64());
                proof {
                    assert(body@ =~= self@.body());
                }
                (8, body)
            },
            ControlMutation::CreateMerge { plan } => (9, plan.encode_to_vec()),
            ControlMutation::AdvanceMerge { plan, phase, generation } => {
                put_u64(&mut body, plan.as_u64());
                body.push(phase.encode_byte());
                put_u64(&mut body, generation.as_u64());
                proof {
                    assert(body@ =~= self@.body());
                }
                (10, body)
            },
            ControlMutation::RemoveMerge { plan } => {
                put_u64(&mut body, plan.as_u64());
                proof {
                    assert(body@ =~= self@.body());
                }
                (11, body)
            },
            ControlMutation::RegisterNamespace { record } => (12, record.encode_to_vec()),
            ControlMutation::CreateIndex { record } => (13, record.encode_to_vec()),
            ControlMutation::AdvanceIndex { id, state } => {
                put_u64(&mut body, *id);
                body.push(*state);
                proof {
                    assert(body@ =~= self@.body());
                }
                (14, body)
            },
            ControlMutation::RemoveIndex { id } => {
                put_u64(&mut body, *id);
                proof {
                    assert(body@ =~= self@.body());
                }
                (15, body)
            },
            ControlMutation::PublishRedundancyLayout { key, generation, record } => {
                put_bytes(&mut body, key.encode_to_vec().as_slice());
                put_u64(&mut body, *generation);
                put_bytes(&mut body, record.encode_to_vec().as_slice());
                proof {
                    assert(body@ =~= self@.body());
                }
                (16, body)
            },
            ControlMutation::DropRedundancyAsset { key } => (17, key.encode_to_vec()),
        }
    }

    /// Encodes the canonical bytes: `version u16, tag u8, body_len u32,
    /// body[body_len]`.
    pub fn encode_to_vec(&self) -> (out: Vec<u8>)
        ensures
            out@ == self@.encoded(),
    {
        let (tag, body): (u8, Vec<u8>) = self.encode_body();
        let mut out: Vec<u8> = Vec::new();
        put_u16(&mut out, CONTROL_MUTATION_VERSION);
        out.push(tag);
        put_u32(&mut out, len_prefix(body.len()));
        put_bytes(&mut out, body.as_slice());
        proof {
            assert(out@ =~= self@.encoded());
        }
        out
    }

    fn decode_body(vocabulary: &FabricVocabulary, tag: u8, body: &[u8]) -> (result: Result<
        Self,
        ControlMutationError,
    >)
        ensures
            view_result(result) == ControlMutationView::decoded_body(*vocabulary, tag, body@),
    {
        match tag {
            0 => match NodeRecord::read(body) {
                Ok(record) => Ok(ControlMutation::RegisterNode { record }),
                Err(error) => Err(
                    ControlMutationError::BadBody { cause: BodyError::Node(error) },
                ),
            },
            1 => {
                if body.len() != 9 {
                    return Err(ControlMutationError::Truncated);
                }
                match NodeState::decode_byte(body[8]) {
                    Ok(state) => Ok(
                        ControlMutation::SetNodeState {
                            node: NodeId::from_u64(get_u64(body, 0)),
                            state,
                        },
                    ),
                    Err(error) => Err(
                        ControlMutationError::BadBody { cause: BodyError::Node(error) },
                    ),
                }
            },
            2 => match DesiredReplicaSet::decode_exact(body) {
                Ok(desired) => Ok(ControlMutation::SetDesiredPlacement { desired }),
                Err(error) => Err(
                    ControlMutationError::BadBody { cause: BodyError::Placement(error) },
                ),
            },
            3 => match MigrationPlan::decode_exact(body) {
                Ok(plan) => Ok(ControlMutation::CreateMigration { plan }),
                Err(error) => Err(
                    ControlMutationError::BadBody { cause: BodyError::Migration(error) },
                ),
            },
            4 => {
                if body.len() != 17 {
                    return Err(ControlMutationError::Truncated);
                }
                match MigrationPhase::decode_byte(body[8]) {
                    Ok(phase) => Ok(
                        ControlMutation::AdvanceMigration {
                            plan: MigrationPlanId::from_u64(get_u64(body, 0)),
                            phase,
                            generation: PlacementVersion::from_u64(get_u64(body, 9)),
                        },
                    ),
                    Err(error) => Err(
                        ControlMutationError::BadBody { cause: BodyError::Migration(error) },
                    ),
                }
            },
            5 => {
                if body.len() != 8 {
                    return Err(ControlMutationError::Truncated);
                }
                Ok(
                    ControlMutation::RemoveMigration {
                        plan: MigrationPlanId::from_u64(get_u64(body, 0))
                    },
                )
            },
            6 => match SplitPlan::decode_exact(body) {
                Ok(plan) => Ok(ControlMutation::CreateSplit { plan }),
                Err(error) => Err(
                    ControlMutationError::BadBody { cause: BodyError::Split(error) },
                ),
            },
            7 => {
                if body.len() != 17 {
                    return Err(ControlMutationError::Truncated);
                }
                match SplitPhase::decode_byte(body[8]) {
                    Ok(phase) => Ok(
                        ControlMutation::AdvanceSplit {
                            plan: MigrationPlanId::from_u64(get_u64(body, 0)),
                            phase,
                            generation: PlacementVersion::from_u64(get_u64(body, 9)),
                        },
                    ),
                    Err(error) => Err(
                        ControlMutationError::BadBody { cause: BodyError::Split(error) },
                    ),
                }
            },
            8 => {
                if body.len() != 8 {
                    return Err(ControlMutationError::Truncated);
                }
                Ok(
                    ControlMutation::RemoveSplit {
                        plan: MigrationPlanId::from_u64(get_u64(body, 0))
                    },
                )
            },
            9 => match MergePlan::decode_exact(body) {
                Ok(plan) => Ok(ControlMutation::CreateMerge { plan }),
                Err(error) => Err(
                    ControlMutationError::BadBody { cause: BodyError::Merge(error) },
                ),
            },
            10 => {
                if body.len() != 17 {
                    return Err(ControlMutationError::Truncated);
                }
                match MergePhase::decode_byte(body[8]) {
                    Ok(phase) => Ok(
                        ControlMutation::AdvanceMerge {
                            plan: MigrationPlanId::from_u64(get_u64(body, 0)),
                            phase,
                            generation: PlacementVersion::from_u64(get_u64(body, 9)),
                        },
                    ),
                    Err(error) => Err(
                        ControlMutationError::BadBody { cause: BodyError::Merge(error) },
                    ),
                }
            },
            11 => {
                if body.len() != 8 {
                    return Err(ControlMutationError::Truncated);
                }
                Ok(
                    ControlMutation::RemoveMerge {
                        plan: MigrationPlanId::from_u64(get_u64(body, 0))
                    },
                )
            },
            12 => match NamespaceRecord::decode_exact(body) {
                Ok(record) => Ok(ControlMutation::RegisterNamespace { record }),
                Err(error) => Err(
                    ControlMutationError::BadBody { cause: BodyError::Catalog(error) },
                ),
            },
            13 => match IndexRecord::decode_exact(body) {
                Ok(record) => Ok(ControlMutation::CreateIndex { record }),
                Err(error) => Err(
                    ControlMutationError::BadBody { cause: BodyError::Catalog(error) },
                ),
            },
            14 => {
                if body.len() != 9 {
                    return Err(ControlMutationError::Truncated);
                }
                Ok(ControlMutation::AdvanceIndex { id: get_u64(body, 0), state: body[8] })
            },
            15 => {
                if body.len() != 8 {
                    return Err(ControlMutationError::Truncated);
                }
                Ok(ControlMutation::RemoveIndex { id: get_u64(body, 0) })
            },
            16 => Self::decode_publish(vocabulary, body),
            17 => {
                if body.len() != LAYOUT_KEY_LEN {
                    return Err(ControlMutationError::Truncated);
                }
                match LayoutKey::decode_exact(vocabulary, body) {
                    Ok(key) => Ok(ControlMutation::DropRedundancyAsset { key }),
                    Err(error) => Err(
                        ControlMutationError::BadBody { cause: BodyError::Layout(error) },
                    ),
                }
            },
            _ => Err(ControlMutationError::BadTag { tag }),
        }
    }

    fn decode_publish(vocabulary: &FabricVocabulary, body: &[u8]) -> (result: Result<
        Self,
        ControlMutationError,
    >)
        ensures
            view_result(result) == ControlMutationView::decoded_body(*vocabulary, 16, body@),
    {
        if body.len() < LAYOUT_KEY_LEN + 8 + 12 {
            return Err(ControlMutationError::Truncated);
        }
        let key: LayoutKey = match LayoutKey::decode_exact(
            vocabulary,
            slice_subrange(body, 0, LAYOUT_KEY_LEN),
        ) {
            Ok(key) => key,
            Err(error) => return Err(
                ControlMutationError::BadBody { cause: BodyError::Layout(error) },
            ),
        };
        let generation: u64 = get_u64(body, LAYOUT_KEY_LEN);
        let rest: &[u8] = slice_subrange(body, LAYOUT_KEY_LEN + 8, body.len());
        proof {
            assert(rest@ =~= body@.skip(49));
        }
        let record: LayoutRecord = match LayoutRecord::decode_exact(vocabulary, rest) {
            Ok(record) => record,
            Err(error) => return Err(
                ControlMutationError::BadBody { cause: BodyError::Layout(error) },
            ),
        };
        if generation != record.control_generation {
            return Err(
                ControlMutationError::BadBody {
                    cause: BodyError::GenerationMismatch {
                        offered: generation,
                        recorded: record.control_generation,
                    },
                },
            );
        }
        Ok(ControlMutation::PublishRedundancyLayout { key, generation, record })
    }

    /// Decodes exactly one mutation. Every endpoint of a node that it registers must be a
    /// socket address: `canonical` gives the canonical text of the address that a text spells,
    /// if it spells one, and the record has that text.
    pub fn decode_exact<F: Fn(&str) -> Option<String>>(
        vocabulary: &FabricVocabulary,
        input: &[u8],
        canonical: &F,
    ) -> (result: Result<Self, ControlMutationError>)
        requires
            forall|text: &str| call_requires(canonical, (text,)),
        ensures
            match ControlMutationView::decoded(*vocabulary, input@) {
                Err(error) => view_result(result) == Err::<ControlMutationView, _>(error),
                Ok(mutation) => exists|found: EndpointsView|
                    {
                        &&& mutation.judged(*canonical, found)
                        &&& view_result(result) == #[trigger] mutation.admitted(found)
                    },
            },
    {
        if input.len() < 7 {
            return Err(ControlMutationError::Truncated);
        }
        let version: u16 = get_u16(input, 0);
        if version != CONTROL_MUTATION_VERSION {
            return Err(ControlMutationError::UnsupportedVersion { found: version });
        }
        let tag: u8 = input[2];
        let len: u32 = get_u32(input, 3);
        if (input.len() as u64) < 7 + (len as u64) {
            return Err(
                ControlMutationError::Oversized { len: len as usize, available: input.len() },
            );
        }
        let end: usize = 7 + len as usize;
        if input.len() > end {
            return Err(ControlMutationError::TrailingBytes);
        }
        let body: &[u8] = slice_subrange(input, 7, end);
        let mutation: ControlMutation = match Self::decode_body(vocabulary, tag, body) {
            Ok(mutation) => mutation,
            Err(error) => return Err(error),
        };
        match mutation {
            ControlMutation::RegisterNode { record } => {
                let found: Endpoints = record.canonize(canonical);
                let ghost mutation = ControlMutationView::RegisterNode { record: record@ };
                proof {
                    assert(mutation.judged(*canonical, found@));
                }
                Self::register(record, found)
            },
            other => {
                proof {
                    let any = EndpointsView { peer: None, native: None, admin: None };
                    assert(other@.judged(*canonical, any));
                    assert(other@.admitted(any) == Ok::<_, ControlMutationError>(other@));
                }
                Ok(other)
            },
        }
    }

    /// Registers a decoded node with its endpoints in canonical text; names the first endpoint
    /// that is no socket address.
    pub fn register(record: NodeRecord, found: Endpoints) -> (result: Result<
        Self,
        ControlMutationError,
    >)
        ensures
            view_result(result) == (ControlMutationView::RegisterNode { record: record@ }).admitted(
                found@,
            ),
    {
        match record.with_endpoints(found) {
            Ok(record) => Ok(ControlMutation::RegisterNode { record }),
            Err(error) => Err(ControlMutationError::BadBody { cause: BodyError::Node(error) }),
        }
    }

    /// The placement generation that fences this mutation: plan advances carry one.
    pub fn generation(&self) -> (fence: Option<PlacementVersion>)
        ensures
            fence == match self@ {
                ControlMutationView::AdvanceMigration { generation, .. } => Some(generation),
                ControlMutationView::AdvanceSplit { generation, .. } => Some(generation),
                ControlMutationView::AdvanceMerge { generation, .. } => Some(generation),
                _ => None,
            },
    {
        match self {
            ControlMutation::AdvanceMigration { generation, .. } => Some(*generation),
            ControlMutation::AdvanceSplit { generation, .. } => Some(*generation),
            ControlMutation::AdvanceMerge { generation, .. } => Some(*generation),
            _ => None,
        }
    }
}

proof fn lemma_body_round_trip(vocabulary: FabricVocabulary, mutation: ControlMutationView)
    requires
        mutation.well_formed(vocabulary),
    ensures
        ControlMutationView::decoded_body(vocabulary, mutation.tag(), mutation.body()) == Ok::<
            _,
            ControlMutationError,
        >(mutation),
{
    broadcast use group_fields;

    let body = mutation.body();
    match mutation {
        ControlMutationView::RegisterNode { record } => {
            law_node_record_round_trip(record);
        },
        ControlMutationView::SetNodeState { node, state } => {
            assert(body.subrange(0, 8) =~= u64_bytes(node.0));
            assert(body[8] == state.byte());
        },
        ControlMutationView::SetDesiredPlacement { desired } => {
            law_desired_set_round_trip(desired);
        },
        ControlMutationView::CreateMigration { plan } => {
            law_migration_round_trip(plan);
        },
        ControlMutationView::AdvanceMigration { plan, phase, generation } => {
            assert(body.subrange(0, 8) =~= u64_bytes(plan.0));
            assert(body[8] == phase.byte());
            assert(body.subrange(9, 17) =~= u64_bytes(generation.0));
        },
        ControlMutationView::RemoveMigration { plan } => {
            assert(body.subrange(0, 8) =~= u64_bytes(plan.0));
        },
        ControlMutationView::CreateSplit { plan } => {
            law_split_round_trip(plan);
        },
        ControlMutationView::AdvanceSplit { plan, phase, generation } => {
            assert(body.subrange(0, 8) =~= u64_bytes(plan.0));
            assert(body[8] == phase.byte());
            assert(body.subrange(9, 17) =~= u64_bytes(generation.0));
        },
        ControlMutationView::RemoveSplit { plan } => {
            assert(body.subrange(0, 8) =~= u64_bytes(plan.0));
        },
        ControlMutationView::CreateMerge { plan } => {
            law_merge_round_trip(plan);
        },
        ControlMutationView::AdvanceMerge { plan, phase, generation } => {
            assert(body.subrange(0, 8) =~= u64_bytes(plan.0));
            assert(body[8] == phase.byte());
            assert(body.subrange(9, 17) =~= u64_bytes(generation.0));
        },
        ControlMutationView::RemoveMerge { plan } => {
            assert(body.subrange(0, 8) =~= u64_bytes(plan.0));
        },
        ControlMutationView::RegisterNamespace { record } => {
            law_namespace_round_trip(record);
        },
        ControlMutationView::CreateIndex { record } => {
            law_index_round_trip(record);
        },
        ControlMutationView::AdvanceIndex { id, state } => {
            assert(body.subrange(0, 8) =~= u64_bytes(id));
            assert(body[8] == state);
        },
        ControlMutationView::RemoveIndex { id } => {
            assert(body.subrange(0, 8) =~= u64_bytes(id));
        },
        ControlMutationView::PublishRedundancyLayout { key, generation, record } => {
            law_layout_key_round_trip(vocabulary, key);
            law_layout_record_round_trip(vocabulary, record);
            assert(body.subrange(0, 41) =~= key.encoded());
            assert(body.subrange(41, 49) =~= u64_bytes(generation));
            assert(body.skip(49) =~= record.encoded());
        },
        ControlMutationView::DropRedundancyAsset { key } => {
            law_layout_key_round_trip(vocabulary, key);
        },
    }
}

/// A well-formed mutation whose body fits its length prefix decodes from its own
/// encoding, if the endpoints of a node that it registers are socket addresses in canonical
/// text.
pub proof fn law_mutation_round_trip(vocabulary: FabricVocabulary, mutation: ControlMutationView)
    requires
        mutation.well_formed(vocabulary),
        mutation.body().len() <= u32::MAX,
    ensures
        ControlMutationView::decoded(vocabulary, mutation.encoded()) == Ok::<
            _,
            ControlMutationError,
        >(mutation),
        mutation matches ControlMutationView::RegisterNode { record } ==> mutation.admitted(
            record.endpoints(),
        ) == Ok::<_, ControlMutationError>(mutation),
{
    broadcast use group_fields;

    let bytes = mutation.encoded();
    let body = mutation.body();
    lemma_body_round_trip(vocabulary, mutation);
    assert(bytes.subrange(0, 2) =~= u16_bytes(CONTROL_MUTATION_VERSION));
    assert(bytes[2] == mutation.tag());
    assert(bytes.subrange(3, 7) =~= u32_bytes(wire_len(body.len())));
    assert(bytes.subrange(7, 7 + body.len() as int) =~= body);
}

/// Two well-formed mutations with one encoding are the same mutation.
pub proof fn law_mutation_encoding_injective(
    vocabulary: FabricVocabulary,
    a: ControlMutationView,
    b: ControlMutationView,
)
    requires
        a.well_formed(vocabulary),
        b.well_formed(vocabulary),
        a.body().len() <= u32::MAX,
        b.body().len() <= u32::MAX,
        a.encoded() == b.encoded(),
    ensures
        a == b,
{
    law_mutation_round_trip(vocabulary, a);
    law_mutation_round_trip(vocabulary, b);
}

/// A mutation is framed by its version, its tag and the length of its body; each kind has
/// a tag of its own.
pub proof fn law_mutation_frames(mutation: ControlMutationView)
    requires
        mutation.body().len() <= u32::MAX,
    ensures
        u16_at(mutation.encoded(), 0) == CONTROL_MUTATION_VERSION,
        u32_at(mutation.encoded(), 3) == mutation.body().len(),
        mutation.encoded().skip(7) == mutation.body(),
        mutation is RegisterNode ==> mutation.encoded()[2] == 0,
        mutation is SetNodeState ==> mutation.encoded()[2] == 1,
        mutation is SetDesiredPlacement ==> mutation.encoded()[2] == 2,
        mutation is CreateMigration ==> mutation.encoded()[2] == 3,
        mutation is AdvanceMigration ==> mutation.encoded()[2] == 4,
        mutation is RemoveMigration ==> mutation.encoded()[2] == 5,
        mutation is CreateSplit ==> mutation.encoded()[2] == 6,
        mutation is AdvanceSplit ==> mutation.encoded()[2] == 7,
        mutation is RemoveSplit ==> mutation.encoded()[2] == 8,
        mutation is CreateMerge ==> mutation.encoded()[2] == 9,
        mutation is AdvanceMerge ==> mutation.encoded()[2] == 10,
        mutation is RemoveMerge ==> mutation.encoded()[2] == 11,
        mutation is RegisterNamespace ==> mutation.encoded()[2] == 12,
        mutation is CreateIndex ==> mutation.encoded()[2] == 13,
        mutation is AdvanceIndex ==> mutation.encoded()[2] == 14,
        mutation is RemoveIndex ==> mutation.encoded()[2] == 15,
        mutation is PublishRedundancyLayout ==> mutation.encoded()[2] == 16,
        mutation is DropRedundancyAsset ==> mutation.encoded()[2] == 17,
{
    broadcast use group_fields;

    let bytes = mutation.encoded();
    assert(bytes.subrange(0, 2) =~= u16_bytes(CONTROL_MUTATION_VERSION));
    assert(bytes.subrange(3, 7) =~= u32_bytes(wire_len(mutation.body().len())));
    assert(bytes.skip(7) =~= mutation.body());
}

/// The short bodies hold their parts in order: the identity first, then the state or the
/// phase, and the generation last.
pub proof fn law_mutation_bodies_hold_their_parts(mutation: ControlMutationView)
    ensures
        mutation matches ControlMutationView::SetNodeState { node, state } ==> {
            &&& mutation.body().len() == 9
            &&& u64_at(mutation.body(), 0) == node.0
            &&& mutation.body()[8] == state.byte()
        },
        mutation matches ControlMutationView::AdvanceMigration { plan, phase, generation } ==> {
            &&& mutation.body().len() == 17
            &&& u64_at(mutation.body(), 0) == plan.0
            &&& mutation.body()[8] == phase.byte()
            &&& u64_at(mutation.body(), 9) == generation.0
        },
        mutation matches ControlMutationView::AdvanceSplit { plan, phase, generation } ==> {
            &&& mutation.body().len() == 17
            &&& u64_at(mutation.body(), 0) == plan.0
            &&& mutation.body()[8] == phase.byte()
            &&& u64_at(mutation.body(), 9) == generation.0
        },
        mutation matches ControlMutationView::AdvanceMerge { plan, phase, generation } ==> {
            &&& mutation.body().len() == 17
            &&& u64_at(mutation.body(), 0) == plan.0
            &&& mutation.body()[8] == phase.byte()
            &&& u64_at(mutation.body(), 9) == generation.0
        },
        mutation matches ControlMutationView::AdvanceIndex { id, state } ==> {
            &&& mutation.body().len() == 9
            &&& u64_at(mutation.body(), 0) == id
            &&& mutation.body()[8] == state
        },
        mutation matches ControlMutationView::RemoveMigration { plan } ==> u64_at(
            mutation.body(),
            0,
        ) == plan.0 && mutation.body().len() == 8,
        mutation matches ControlMutationView::RemoveSplit { plan } ==> u64_at(
            mutation.body(),
            0,
        ) == plan.0 && mutation.body().len() == 8,
        mutation matches ControlMutationView::RemoveMerge { plan } ==> u64_at(
            mutation.body(),
            0,
        ) == plan.0 && mutation.body().len() == 8,
        mutation matches ControlMutationView::RemoveIndex { id } ==> u64_at(mutation.body(), 0)
            == id && mutation.body().len() == 8,
        mutation matches ControlMutationView::PublishRedundancyLayout { key, generation, record }
            ==> (key.hash.len() == 32 ==> {
            &&& mutation.body().subrange(0, 41) == key.encoded()
            &&& u64_at(mutation.body(), 41) == generation
            &&& mutation.body().skip(49) == record.encoded()
        }),
{
    broadcast use group_fields;

    let body = mutation.body();
    match mutation {
        ControlMutationView::SetNodeState { node, .. } => {
            assert(body.subrange(0, 8) =~= u64_bytes(node.0));
        },
        ControlMutationView::AdvanceMigration { plan, generation, .. } => {
            assert(body.subrange(0, 8) =~= u64_bytes(plan.0));
            assert(body.subrange(9, 17) =~= u64_bytes(generation.0));
        },
        ControlMutationView::AdvanceSplit { plan, generation, .. } => {
            assert(body.subrange(0, 8) =~= u64_bytes(plan.0));
            assert(body.subrange(9, 17) =~= u64_bytes(generation.0));
        },
        ControlMutationView::AdvanceMerge { plan, generation, .. } => {
            assert(body.subrange(0, 8) =~= u64_bytes(plan.0));
            assert(body.subrange(9, 17) =~= u64_bytes(generation.0));
        },
        ControlMutationView::AdvanceIndex { id, .. } => {
            assert(body.subrange(0, 8) =~= u64_bytes(id));
        },
        ControlMutationView::RemoveMigration { plan } => {
            assert(body.subrange(0, 8) =~= u64_bytes(plan.0));
        },
        ControlMutationView::RemoveSplit { plan } => {
            assert(body.subrange(0, 8) =~= u64_bytes(plan.0));
        },
        ControlMutationView::RemoveMerge { plan } => {
            assert(body.subrange(0, 8) =~= u64_bytes(plan.0));
        },
        ControlMutationView::RemoveIndex { id } => {
            assert(body.subrange(0, 8) =~= u64_bytes(id));
        },
        ControlMutationView::PublishRedundancyLayout { key, generation, record } => {
            if key.hash.len() == 32 {
                assert(body.subrange(0, 41) =~= key.encoded());
                assert(body.subrange(41, 49) =~= u64_bytes(generation));
                assert(body.skip(49) =~= record.encoded());
            }
        },
        _ => {},
    }
}

/// A mutation of another version, of an unknown kind, or whose length is not the one that
/// it states is refused, each with its own error.
pub proof fn law_bad_frames_are_told_apart(vocabulary: FabricVocabulary, input: Seq<u8>)
    ensures
        ({
            let result = ControlMutationView::decoded(vocabulary, input);
            let version = u16_at(input, 0);
            let stated = 7 + u32_at(input, 3);
            &&& input.len() < 7 ==> result == Err::<ControlMutationView, _>(
                ControlMutationError::Truncated,
            )
            &&& input.len() >= 7 && version != 1 ==> result == Err::<ControlMutationView, _>(
                ControlMutationError::UnsupportedVersion { found: version },
            )
            &&& input.len() >= 7 && version == 1 && input.len() < stated ==> result == Err::<
                ControlMutationView,
                _,
            >(
                ControlMutationError::Oversized {
                    len: u32_at(input, 3) as usize,
                    available: input.len() as usize,
                },
            )
            &&& input.len() >= 7 && version == 1 && input.len() > stated ==> result == Err::<
                ControlMutationView,
                _,
            >(ControlMutationError::TrailingBytes)
            &&& input.len() == stated && version == 1 && input[2] > 17 ==> result == Err::<
                ControlMutationView,
                _,
            >(ControlMutationError::BadTag { tag: input[2] })
        }),
{
}

} // verus!
