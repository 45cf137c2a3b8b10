//! The closed set of adaptive actions and their identities.

use crate::control::adaptive::policy::{
    ActionCost, ExpectedBenefit, MaterializationIntent, MemoryBudget, MigrationFence,
    MigrationRecommendation, Ppm, RedundancyPreference, RepairBudget, ScrubBudget,
    TabletMergePolicy, TabletSplitPolicy,
};
use crate::ids::{
    ClusterId, NamespaceId, NodeId, ObservationSequence, ObservationWindowId, TabletId,
};
use crate::order::{ascending, canonical, find_repeat, first_repeat, lemma_canonical, sort_unique};
use crate::time::Ticks;
use crate::wire::view_result;
use vstd::prelude::*;

verus! {

/// Cluster and namespace boundary for an action.
#[derive(Debug, Clone, Copy, PartialEq, Eq, PartialOrd, Ord, Hash, Structural)]
pub struct ActionScope {
    /// Cluster owning the action.
    pub cluster: ClusterId,
    /// Namespace owning the action.
    pub namespace: NamespaceId,
}

impl ActionScope {
    /// Creates an action scope.
    pub fn new(cluster: ClusterId, namespace: NamespaceId) -> (scope: Self)
        ensures
            scope == (ActionScope { cluster, namespace }),
    {
        ActionScope { cluster, namespace }
    }
}

/// Failure while constructing a canonical tablet set.
#[derive(Debug, Clone, Copy, PartialEq, Eq, Structural)]
pub enum TargetSetError {
    /// A target set must not be empty.
    Empty,
    /// A target set must not contain a duplicate tablet.
    Duplicate,
}

/// A nonempty set of tablet targets in ascending order.
#[derive(Debug, PartialEq, Eq, PartialOrd, Ord, Hash)]
pub struct TabletSet {
    pub(crate) tablets: Vec<TabletId>,
}

impl View for TabletSet {
    type V = Seq<TabletId>;

    open(crate) spec fn view(&self) -> Seq<TabletId> {
        self.tablets@
    }
}

impl Clone for TabletSet {
    fn clone(&self) -> (copy: Self)
        ensures
            copy@ == self@,
    {
        proof {
            use_type_invariant(self);
        }
        let tablets: Vec<TabletId> = copy_tablets(&self.tablets);
        TabletSet { tablets }
    }
}

fn copy_tablets(tablets: &Vec<TabletId>) -> (copy: Vec<TabletId>)
    ensures
        copy@ == tablets@,
{
    let mut copy: Vec<TabletId> = Vec::new();
    let mut at: usize = 0;
    while at < tablets.len()
        invariant
            at <= tablets.len(),
            copy@ == tablets@.take(at as int),
        decreases tablets.len() - at,
    {
        copy.push(tablets[at]);
        at = at + 1;
        proof {
            assert(tablets@.take(at as int) =~= tablets@.take(at - 1).push(tablets@[at - 1]));
        }
    }
    proof {
        assert(tablets@.take(at as int) =~= tablets@);
    }
    copy
}

/// The canonical target list of `tablets`, or why there is none.
pub open spec fn target_set(tablets: Seq<TabletId>) -> Result<Seq<TabletId>, TargetSetError> {
    if tablets.len() == 0 {
        Err(TargetSetError::Empty)
    } else if first_repeat(tablets) is Some {
        Err(TargetSetError::Duplicate)
    } else {
        Ok(canonical(tablets))
    }
}

impl TabletSet {
    #[verifier::type_invariant]
    pub(crate) open spec fn canonical_targets(self) -> bool {
        &&& self.tablets@.len() > 0
        &&& ascending(self.tablets@)
    }

    /// Creates a sorted, duplicate-free set.
    pub fn new(tablets: Vec<TabletId>) -> (result: Result<Self, TargetSetError>)
        ensures
            view_result(result) == target_set(tablets@),
            result matches Ok(set) ==> forall|tablet: TabletId| #[trigger]
                set@.contains(tablet) <==> tablets@.contains(tablet),
    {
        if tablets.len() == 0 {
            return Err(TargetSetError::Empty);
        }
        match find_repeat(&tablets) {
            Some(_) => Err(TargetSetError::Duplicate),
            None => {
                let sorted: Vec<TabletId> = sort_unique(&tablets);
                proof {
                    lemma_canonical(tablets@);
                    assert(tablets@.contains(tablets@[0]));
                    assert(sorted@.contains(tablets@[0]));
                }
                Ok(TabletSet { tablets: sorted })
            },
        }
    }

    /// Returns the canonical target slice.
    pub fn as_slice(&self) -> (targets: &[TabletId])
        ensures
            targets@ == self@,
            ascending(targets@),
    {
        proof {
            use_type_invariant(self);
        }
        self.tablets.as_slice()
    }

    /// Returns the target count.
    pub fn len(&self) -> (count: usize)
        ensures
            count == self@.len(),
            count > 0,
    {
        proof {
            use_type_invariant(self);
        }
        self.tablets.len()
    }

    /// Whether the set is empty; none is.
    pub fn is_empty(&self) -> (empty: bool)
        ensures
            empty == (self@.len() == 0),
            !empty,
    {
        proof {
            use_type_invariant(self);
        }
        self.tablets.len() == 0
    }

    /// Whether the set contains a tablet.
    pub fn contains(&self, tablet: TabletId) -> (found: bool)
        ensures
            found == self@.contains(tablet),
    {
        let mut at: usize = 0;
        while at < self.tablets.len()
            invariant
                at <= self.tablets.len(),
                forall|i: int| 0 <= i < at ==> self.tablets@[i] != tablet,
            decreases self.tablets.len() - at,
        {
            if self.tablets[at] == tablet {
                return true;
            }
            at = at + 1;
        }
        false
    }

    /// Returns the targets in canonical order.
    pub fn iter(&self) -> (targets: Vec<TabletId>)
        ensures
            targets@ == self@,
    {
        copy_tablets(&self.tablets)
    }

    /// Whether two sets have the same targets.
    pub fn same(&self, other: &TabletSet) -> (same: bool)
        ensures
            same == (self@ == other@),
    {
        if self.tablets.len() != other.tablets.len() {
            return false;
        }
        let mut at: usize = 0;
        while at < self.tablets.len()
            invariant
                at <= self.tablets.len() == other.tablets.len(),
                forall|i: int| 0 <= i < at ==> self.tablets@[i] == other.tablets@[i],
            decreases self.tablets.len() - at,
        {
            if self.tablets[at] != other.tablets[at] {
                return false;
            }
            at = at + 1;
        }
        proof {
            assert(self.tablets@ =~= other.tablets@);
        }
        true
    }
}

/// Typed target identity used in action keys and conflict checks.
#[derive(Debug, PartialEq, Eq, PartialOrd, Ord, Hash)]
pub enum ActionTarget {
    /// One tablet.
    Tablet(TabletId),
    /// A canonical set of tablets.
    Tablets(TabletSet),
    /// A tablet move with explicit endpoints.
    Migration {
        /// Tablet being moved.
        tablet: TabletId,
        /// Replica source.
        from: NodeId,
        /// Replica destination.
        to: NodeId,
    },
}

/// What an [`ActionTarget`] says.
#[verifier::ext_equal]
pub enum ActionTargetView {
    Tablet(TabletId),
    Tablets(Seq<TabletId>),
    Migration { tablet: TabletId, from: NodeId, to: NodeId },
}

impl View for ActionTarget {
    type V = ActionTargetView;

    open spec fn view(&self) -> ActionTargetView {
        match self {
            ActionTarget::Tablet(tablet) => ActionTargetView::Tablet(*tablet),
            ActionTarget::Tablets(tablets) => ActionTargetView::Tablets(tablets@),
            ActionTarget::Migration { tablet, from, to } => ActionTargetView::Migration {
                tablet: *tablet,
                from: *from,
                to: *to,
            },
        }
    }
}

impl Clone for ActionTarget {
    fn clone(&self) -> (copy: Self)
        ensures
            copy@ == self@,
    {
        match self {
            ActionTarget::Tablet(tablet) => ActionTarget::Tablet(*tablet),
            ActionTarget::Tablets(tablets) => ActionTarget::Tablets(tablets.clone()),
            ActionTarget::Migration { tablet, from, to } => ActionTarget::Migration {
                tablet: *tablet,
                from: *from,
                to: *to,
            },
        }
    }
}

impl ActionTarget {
    /// Whether two targets are the same.
    pub fn same(&self, other: &ActionTarget) -> (same: bool)
        ensures
            same == (self@ == other@),
    {
        match (self, other) {
            (ActionTarget::Tablet(a), ActionTarget::Tablet(b)) => *a == *b,
            (ActionTarget::Tablets(a), ActionTarget::Tablets(b)) => a.same(b),
            (
                ActionTarget::Migration { tablet, from, to },
                ActionTarget::Migration { tablet: t, from: f, to: o },
            ) => *tablet == *t && *from == *f && *to == *o,
            _ => false,
        }
    }
}

/// Closed action kind used for deterministic conflict identity.
#[derive(Debug, Clone, Copy, PartialEq, Eq, PartialOrd, Ord, Hash, Structural)]
pub enum ActionKind {
    /// Memory budget adjustment.
    AdjustMemoryBudget,
    /// Materialization intent adjustment.
    ChangeMaterializationIntent,
    /// Redundancy preference adjustment.
    ChangeRedundancyPreference,
    /// Repair budget adjustment.
    AdjustRepairBudget,
    /// Scrub budget adjustment.
    AdjustScrubBudget,
    /// Tablet split recommendation.
    RecommendTabletSplit,
    /// Tablet merge recommendation.
    RecommendTabletMerge,
    /// Migration recommendation.
    RecommendMigration,
}

/// Policy values included in an action's exact identity.
#[derive(Debug, Clone, Copy, PartialEq, Eq, PartialOrd, Ord, Hash, Structural)]
pub enum PolicyFingerprint {
    /// Memory budget value.
    Memory(Ppm),
    /// Materialization intent.
    Materialization(MaterializationIntent),
    /// Redundancy preference.
    Redundancy(RedundancyPreference),
    /// Repair budget value.
    Repair(Ppm),
    /// Scrub budget value.
    Scrub(Ppm),
    /// Split policy.
    Split(TabletSplitPolicy),
    /// Merge policy.
    Merge(TabletMergePolicy),
    /// Migration recommendation.
    Migration {
        /// Replica source.
        from: NodeId,
        /// Replica destination.
        to: NodeId,
        /// Placement fence observed by the recommendation.
        fence: MigrationFence,
        /// Maximum bytes covered by the recommendation.
        max_bytes: u64,
    },
}

/// Exact deterministic identity of an action.
#[derive(Debug, PartialEq, Eq, PartialOrd, Ord, Hash)]
pub struct ActionKey {
    /// Action kind.
    pub kind: ActionKind,
    /// Namespace and cluster scope.
    pub scope: ActionScope,
    /// Canonical target identity.
    pub target: ActionTarget,
    /// Policy value fingerprint.
    pub policy: PolicyFingerprint,
}

/// What an [`ActionKey`] says.
#[verifier::ext_equal]
pub struct ActionKeyView {
    pub kind: ActionKind,
    pub scope: ActionScope,
    pub target: ActionTargetView,
    pub policy: PolicyFingerprint,
}

impl View for ActionKey {
    type V = ActionKeyView;

    open spec fn view(&self) -> ActionKeyView {
        ActionKeyView {
            kind: self.kind,
            scope: self.scope,
            target: self.target@,
            policy: self.policy,
        }
    }
}

impl Clone for ActionKey {
    fn clone(&self) -> (copy: Self)
        ensures
            copy@ == self@,
    {
        ActionKey {
            kind: self.kind,
            scope: self.scope,
            target: self.target.clone(),
            policy: self.policy,
        }
    }
}

impl ActionKey {
    /// Whether two keys are the same.
    pub fn same(&self, other: &ActionKey) -> (same: bool)
        ensures
            same == (self@ == other@),
    {
        self.kind == other.kind && self.scope == other.scope && self.policy == other.policy
            && self.target.same(&other.target)
    }
}

/// Identity used to suppress competing policies for one target.
#[derive(Debug, PartialEq, Eq, PartialOrd, Ord, Hash)]
pub struct ActionConflictKey {
    /// Action kind.
    pub kind: ActionKind,
    /// Namespace and cluster scope.
    pub scope: ActionScope,
    /// Canonical target identity without policy values.
    pub target: ActionTarget,
}

/// What an [`ActionConflictKey`] says.
#[verifier::ext_equal]
pub struct ActionConflictKeyView {
    pub kind: ActionKind,
    pub scope: ActionScope,
    pub target: ActionTargetView,
}

impl View for ActionConflictKey {
    type V = ActionConflictKeyView;

    open spec fn view(&self) -> ActionConflictKeyView {
        ActionConflictKeyView { kind: self.kind, scope: self.scope, target: self.target@ }
    }
}

impl Clone for ActionConflictKey {
    fn clone(&self) -> (copy: Self)
        ensures
            copy@ == self@,
    {
        ActionConflictKey { kind: self.kind, scope: self.scope, target: self.target.clone() }
    }
}

impl ActionConflictKey {
    /// Whether two keys are the same.
    pub fn same(&self, other: &ActionConflictKey) -> (same: bool)
        ensures
            same == (self@ == other@),
    {
        self.kind == other.kind && self.scope == other.scope && self.target.same(&other.target)
    }
}

/// Closed set of policy actions emitted by the controller.
#[derive(Debug, PartialEq, Eq)]
#[allow(inconsistent_fields)]
pub enum Action {
    /// Tighten or widen the memory budget.
    AdjustMemoryBudget {
        /// Namespace and cluster scope.
        scope: ActionScope,
        /// Target.
        target: TabletId,
        /// Requested memory budget.
        budget: MemoryBudget,
        /// Expected benefit.
        expected_benefit: ExpectedBenefit,
    },
    /// Change materialization intent.
    ChangeMaterializationIntent {
        /// Namespace and cluster scope.
        scope: ActionScope,
        /// Target.
        target: TabletId,
        /// Requested materialization intent.
        intent: MaterializationIntent,
        /// Expected benefit.
        expected_benefit: ExpectedBenefit,
    },
    /// Change redundancy preference.
    ChangeRedundancyPreference {
        /// Namespace and cluster scope.
        scope: ActionScope,
        /// Target.
        target: TabletId,
        /// Requested redundancy preference.
        preference: RedundancyPreference,
        /// Expected benefit.
        expected_benefit: ExpectedBenefit,
    },
    /// Adjust repair capacity.
    AdjustRepairBudget {
        /// Namespace and cluster scope.
        scope: ActionScope,
        /// Target.
        target: TabletId,
        /// Requested repair budget.
        budget: RepairBudget,
        /// Expected benefit.
        expected_benefit: ExpectedBenefit,
    },
    /// Adjust scrub capacity.
    AdjustScrubBudget {
        /// Namespace and cluster scope.
        scope: ActionScope,
        /// Target.
        target: TabletId,
        /// Requested scrub budget.
        budget: ScrubBudget,
        /// Expected benefit.
        expected_benefit: ExpectedBenefit,
    },
    /// Recommend a hotspot split.
    RecommendTabletSplit {
        /// Namespace and cluster scope.
        scope: ActionScope,
        /// Target.
        target: TabletId,
        /// Split policy.
        policy: TabletSplitPolicy,
        /// Expected benefit.
        expected_benefit: ExpectedBenefit,
    },
    /// Recommend a topology merge.
    RecommendTabletMerge {
        /// Namespace and cluster scope.
        scope: ActionScope,
        /// Target.
        targets: TabletSet,
        /// Merge policy.
        policy: TabletMergePolicy,
        /// Expected benefit.
        expected_benefit: ExpectedBenefit,
    },
    /// Recommend a fenced migration.
    RecommendMigration {
        /// Namespace and cluster scope.
        scope: ActionScope,
        /// Target.
        target: TabletId,
        /// Migration recommendation.
        recommendation: MigrationRecommendation,
        /// Expected benefit.
        expected_benefit: ExpectedBenefit,
    },
}

/// What an [`Action`] says.
#[verifier::ext_equal]
#[allow(inconsistent_fields)]
pub enum ActionView {
    AdjustMemoryBudget {
        scope: ActionScope,
        target: TabletId,
        budget: MemoryBudget,
        expected_benefit: ExpectedBenefit,
    },
    ChangeMaterializationIntent {
        scope: ActionScope,
        target: TabletId,
        intent: MaterializationIntent,
        expected_benefit: ExpectedBenefit,
    },
    ChangeRedundancyPreference {
        scope: ActionScope,
        target: TabletId,
        preference: RedundancyPreference,
        expected_benefit: ExpectedBenefit,
    },
    AdjustRepairBudget {
        scope: ActionScope,
        target: TabletId,
        budget: RepairBudget,
        expected_benefit: ExpectedBenefit,
    },
    AdjustScrubBudget {
        scope: ActionScope,
        target: TabletId,
        budget: ScrubBudget,
        expected_benefit: ExpectedBenefit,
    },
    RecommendTabletSplit {
        scope: ActionScope,
        target: TabletId,
        policy: TabletSplitPolicy,
        expected_benefit: ExpectedBenefit,
    },
    RecommendTabletMerge {
        scope: ActionScope,
        targets: Seq<TabletId>,
        policy: TabletMergePolicy,
        expected_benefit: ExpectedBenefit,
    },
    RecommendMigration {
        scope: ActionScope,
        target: TabletId,
        recommendation: MigrationRecommendation,
        expected_benefit: ExpectedBenefit,
    },
}

impl View for Action {
    type V = ActionView;

    open spec fn view(&self) -> ActionView {
        match self {
            Action::AdjustMemoryBudget {
                scope,
                target,
                budget,
                expected_benefit,
            } => ActionView::AdjustMemoryBudget {
                scope: *scope,
                target: *target,
                budget: *budget,
                expected_benefit: *expected_benefit,
            },
            Action::ChangeMaterializationIntent {
                scope,
                target,
                intent,
                expected_benefit,
            } => ActionView::ChangeMaterializationIntent {
                scope: *scope,
                target: *target,
                intent: *intent,
                expected_benefit: *expected_benefit,
            },
            Action::ChangeRedundancyPreference {
                scope,
                target,
                preference,
                expected_benefit,
            } => ActionView::ChangeRedundancyPreference {
                scope: *scope,
                target: *target,
                preference: *preference,
                expected_benefit: *expected_benefit,
            },
            Action::AdjustRepairBudget {
                scope,
                target,
                budget,
                expected_benefit,
            } => ActionView::AdjustRepairBudget {
                scope: *scope,
                target: *target,
                budget: *budget,
                expected_benefit: *expected_benefit,
            },
            Action::AdjustScrubBudget {
                scope,
                target,
                budget,
                expected_benefit,
            } => ActionView::AdjustScrubBudget {
                scope: *scope,
                target: *target,
                budget: *budget,
                expected_benefit: *expected_benefit,
            },
            Action::RecommendTabletSplit {
                scope,
                target,
                policy,
                expected_benefit,
            } => ActionView::RecommendTabletSplit {
                scope: *scope,
                target: *target,
                policy: *policy,
                expected_benefit: *expected_benefit,
            },
            Action::RecommendTabletMerge {
                scope,
                targets,
                policy,
                expected_benefit,
            } => ActionView::RecommendTabletMerge {
                scope: *scope,
                targets: targets@,
                policy: *policy,
                expected_benefit: *expected_benefit,
            },
            Action::RecommendMigration {
                scope,
                target,
                recommendation,
                expected_benefit,
            } => ActionView::RecommendMigration {
                scope: *scope,
                target: *target,
                recommendation: *recommendation,
                expected_benefit: *expected_benefit,
            },
        }
    }
}

impl Clone for Action {
    fn clone(&self) -> (copy: Self)
        ensures
            copy@ == self@,
    {
        match self {
            Action::AdjustMemoryBudget {
                scope,
                target,
                budget,
                expected_benefit,
            } => Action::AdjustMemoryBudget {
                scope: *scope,
                target: *target,
                budget: *budget,
                expected_benefit: *expected_benefit,
            },
            Action::ChangeMaterializationIntent {
                scope,
                target,
                intent,
                expected_benefit,
            } => Action::ChangeMaterializationIntent {
                scope: *scope,
                target: *target,
                intent: *intent,
                expected_benefit: *expected_benefit,
            },
            Action::ChangeRedundancyPreference {
                scope,
                target,
                preference,
                expected_benefit,
            } => Action::ChangeRedundancyPreference {
                scope: *scope,
                target: *target,
                preference: *preference,
                expected_benefit: *expected_benefit,
            },
            Action::AdjustRepairBudget {
                scope,
                target,
                budget,
                expected_benefit,
            } => Action::AdjustRepairBudget {
                scope: *scope,
                target: *target,
                budget: *budget,
                expected_benefit: *expected_benefit,
            },
            Action::AdjustScrubBudget {
                scope,
                target,
                budget,
                expected_benefit,
            } => Action::AdjustScrubBudget {
                scope: *scope,
                target: *target,
                budget: *budget,
                expected_benefit: *expected_benefit,
            },
            Action::RecommendTabletSplit {
                scope,
                target,
                policy,
                expected_benefit,
            } => Action::RecommendTabletSplit {
                scope: *scope,
                target: *target,
                policy: *policy,
                expected_benefit: *expected_benefit,
            },
            Action::RecommendTabletMerge {
                scope,
                targets,
                policy,
                expected_benefit,
            } => Action::RecommendTabletMerge {
                scope: *scope,
                targets: targets.clone(),
                policy: *policy,
                expected_benefit: *expected_benefit,
            },
            Action::RecommendMigration {
                scope,
                target,
                recommendation,
                expected_benefit,
            } => Action::RecommendMigration {
                scope: *scope,
                target: *target,
                recommendation: *recommendation,
                expected_benefit: *expected_benefit,
            },
        }
    }
}

impl ActionView {
    /// The action kind.
    pub open spec fn kind(self) -> ActionKind {
        match self {
            ActionView::AdjustMemoryBudget { .. } => ActionKind::AdjustMemoryBudget,
            ActionView::ChangeMaterializationIntent { .. } => {
                ActionKind::ChangeMaterializationIntent
            },
            ActionView::ChangeRedundancyPreference { .. } => ActionKind::ChangeRedundancyPreference,
            ActionView::AdjustRepairBudget { .. } => ActionKind::AdjustRepairBudget,
            ActionView::AdjustScrubBudget { .. } => ActionKind::AdjustScrubBudget,
            ActionView::RecommendTabletSplit { .. } => ActionKind::RecommendTabletSplit,
            ActionView::RecommendTabletMerge { .. } => ActionKind::RecommendTabletMerge,
            ActionView::RecommendMigration { .. } => ActionKind::RecommendMigration,
        }
    }

    /// The action scope.
    pub open spec fn scope(self) -> ActionScope {
        match self {
            ActionView::AdjustMemoryBudget { scope, .. } => scope,
            ActionView::ChangeMaterializationIntent { scope, .. } => scope,
            ActionView::ChangeRedundancyPreference { scope, .. } => scope,
            ActionView::AdjustRepairBudget { scope, .. } => scope,
            ActionView::AdjustScrubBudget { scope, .. } => scope,
            ActionView::RecommendTabletSplit { scope, .. } => scope,
            ActionView::RecommendTabletMerge { scope, .. } => scope,
            ActionView::RecommendMigration { scope, .. } => scope,
        }
    }

    /// The canonical target identity.
    pub open spec fn target(self) -> ActionTargetView {
        match self {
            ActionView::AdjustMemoryBudget { target, .. } => ActionTargetView::Tablet(target),
            ActionView::ChangeMaterializationIntent { target, .. } => {
                ActionTargetView::Tablet(target)
            },
            ActionView::ChangeRedundancyPreference { target, .. } => {
                ActionTargetView::Tablet(target)
            },
            ActionView::AdjustRepairBudget { target, .. } => ActionTargetView::Tablet(target),
            ActionView::AdjustScrubBudget { target, .. } => ActionTargetView::Tablet(target),
            ActionView::RecommendTabletSplit { target, .. } => ActionTargetView::Tablet(target),
            ActionView::RecommendTabletMerge { targets, .. } => ActionTargetView::Tablets(targets),
            ActionView::RecommendMigration {
                target,
                recommendation,
                ..
            } => ActionTargetView::Migration {
                tablet: target,
                from: recommendation.from,
                to: recommendation.to,
            },
        }
    }

    /// The policy values.
    pub open spec fn policy(self) -> PolicyFingerprint {
        match self {
            ActionView::AdjustMemoryBudget { budget, .. } => {
                PolicyFingerprint::Memory(budget.ppm())
            },
            ActionView::ChangeMaterializationIntent { intent, .. } => {
                PolicyFingerprint::Materialization(intent)
            },
            ActionView::ChangeRedundancyPreference { preference, .. } => {
                PolicyFingerprint::Redundancy(preference)
            },
            ActionView::AdjustRepairBudget { budget, .. } => {
                PolicyFingerprint::Repair(budget.ppm())
            },
            ActionView::AdjustScrubBudget { budget, .. } => PolicyFingerprint::Scrub(budget.ppm()),
            ActionView::RecommendTabletSplit { policy, .. } => PolicyFingerprint::Split(policy),
            ActionView::RecommendTabletMerge { policy, .. } => PolicyFingerprint::Merge(policy),
            ActionView::RecommendMigration { recommendation, .. } => PolicyFingerprint::Migration {
                from: recommendation.from,
                to: recommendation.to,
                fence: recommendation.fence,
                max_bytes: recommendation.max_bytes,
            },
        }
    }

    /// The exact identity.
    pub open spec fn key(self) -> ActionKeyView {
        ActionKeyView {
            kind: self.kind(),
            scope: self.scope(),
            target: self.target(),
            policy: self.policy(),
        }
    }

    /// The identity without policy values.
    pub open spec fn conflict_key(self) -> ActionConflictKeyView {
        ActionConflictKeyView { kind: self.kind(), scope: self.scope(), target: self.target() }
    }

    /// The expected benefit.
    pub open spec fn benefit(self) -> ExpectedBenefit {
        match self {
            ActionView::AdjustMemoryBudget { expected_benefit, .. } => expected_benefit,
            ActionView::ChangeMaterializationIntent { expected_benefit, .. } => expected_benefit,
            ActionView::ChangeRedundancyPreference { expected_benefit, .. } => expected_benefit,
            ActionView::AdjustRepairBudget { expected_benefit, .. } => expected_benefit,
            ActionView::AdjustScrubBudget { expected_benefit, .. } => expected_benefit,
            ActionView::RecommendTabletSplit { expected_benefit, .. } => expected_benefit,
            ActionView::RecommendTabletMerge { expected_benefit, .. } => expected_benefit,
            ActionView::RecommendMigration { expected_benefit, .. } => expected_benefit,
        }
    }

    /// The resource estimate: a migration costs its bytes, a split or merge one unit
    /// of everything, a policy change nothing.
    pub open spec fn cost(self) -> ActionCost {
        match self {
            ActionView::RecommendMigration { recommendation, .. } => ActionCost {
                cpu_ns: recommendation.max_bytes,
                io_ns: recommendation.max_bytes,
                network_bytes: recommendation.max_bytes,
                storage_bytes: recommendation.max_bytes,
                memory_bytes: 0,
            },
            ActionView::RecommendTabletSplit { .. } => ActionCost {
                cpu_ns: 1,
                io_ns: 1,
                network_bytes: 1,
                storage_bytes: 1,
                memory_bytes: 1,
            },
            ActionView::RecommendTabletMerge { .. } => ActionCost {
                cpu_ns: 1,
                io_ns: 1,
                network_bytes: 1,
                storage_bytes: 1,
                memory_bytes: 1,
            },
            _ => ActionCost::none(),
        }
    }
}

impl Action {
    /// Returns the action kind.
    pub fn kind(&self) -> (kind: ActionKind)
        ensures
            kind == self@.kind(),
    {
        match self {
            Action::AdjustMemoryBudget { .. } => ActionKind::AdjustMemoryBudget,
            Action::ChangeMaterializationIntent { .. } => ActionKind::ChangeMaterializationIntent,
            Action::ChangeRedundancyPreference { .. } => ActionKind::ChangeRedundancyPreference,
            Action::AdjustRepairBudget { .. } => ActionKind::AdjustRepairBudget,
            Action::AdjustScrubBudget { .. } => ActionKind::AdjustScrubBudget,
            Action::RecommendTabletSplit { .. } => ActionKind::RecommendTabletSplit,
            Action::RecommendTabletMerge { .. } => ActionKind::RecommendTabletMerge,
            Action::RecommendMigration { .. } => ActionKind::RecommendMigration,
        }
    }

    /// Returns the action scope.
    pub fn scope(&self) -> (scope: ActionScope)
        ensures
            scope == self@.scope(),
    {
        match self {
            Action::AdjustMemoryBudget { scope, .. } => *scope,
            Action::ChangeMaterializationIntent { scope, .. } => *scope,
            Action::ChangeRedundancyPreference { scope, .. } => *scope,
            Action::AdjustRepairBudget { scope, .. } => *scope,
            Action::AdjustScrubBudget { scope, .. } => *scope,
            Action::RecommendTabletSplit { scope, .. } => *scope,
            Action::RecommendTabletMerge { scope, .. } => *scope,
            Action::RecommendMigration { scope, .. } => *scope,
        }
    }

    /// Returns the canonical target identity.
    pub fn target(&self) -> (target: ActionTarget)
        ensures
            target@ == self@.target(),
    {
        match self {
            Action::AdjustMemoryBudget { target, .. } => ActionTarget::Tablet(*target),
            Action::ChangeMaterializationIntent { target, .. } => ActionTarget::Tablet(*target),
            Action::ChangeRedundancyPreference { target, .. } => ActionTarget::Tablet(*target),
            Action::AdjustRepairBudget { target, .. } => ActionTarget::Tablet(*target),
            Action::AdjustScrubBudget { target, .. } => ActionTarget::Tablet(*target),
            Action::RecommendTabletSplit { target, .. } => ActionTarget::Tablet(*target),
            Action::RecommendTabletMerge { targets, .. } => ActionTarget::Tablets(targets.clone()),
            Action::RecommendMigration { target, recommendation, .. } => ActionTarget::Migration {
                tablet: *target,
                from: recommendation.from,
                to: recommendation.to,
            },
        }
    }

    fn policy(&self) -> (policy: PolicyFingerprint)
        ensures
            policy == self@.policy(),
    {
        match self {
            Action::AdjustMemoryBudget { budget, .. } => PolicyFingerprint::Memory(budget.as_ppm()),
            Action::ChangeMaterializationIntent { intent, .. } => {
                PolicyFingerprint::Materialization(*intent)
            },
            Action::ChangeRedundancyPreference { preference, .. } => {
                PolicyFingerprint::Redundancy(*preference)
            },
            Action::AdjustRepairBudget { budget, .. } => PolicyFingerprint::Repair(budget.as_ppm()),
            Action::AdjustScrubBudget { budget, .. } => PolicyFingerprint::Scrub(budget.as_ppm()),
            Action::RecommendTabletSplit { policy, .. } => PolicyFingerprint::Split(*policy),
            Action::RecommendTabletMerge { policy, .. } => PolicyFingerprint::Merge(*policy),
            Action::RecommendMigration { recommendation, .. } => PolicyFingerprint::Migration {
                from: recommendation.from,
                to: recommendation.to,
                fence: recommendation.fence,
                max_bytes: recommendation.max_bytes,
            },
        }
    }

    /// Returns the exact deterministic action identity.
    pub fn key(&self) -> (key: ActionKey)
        ensures
            key@ == self@.key(),
    {
        ActionKey {
            kind: self.kind(),
            scope: self.scope(),
            target: self.target(),
            policy: self.policy(),
        }
    }

    /// Returns the conflict identity used to suppress competing policies.
    pub fn conflict_key(&self) -> (key: ActionConflictKey)
        ensures
            key@ == self@.conflict_key(),
    {
        ActionConflictKey { kind: self.kind(), scope: self.scope(), target: self.target() }
    }

    /// Returns the expected benefit carried by the action.
    pub fn expected_benefit(&self) -> (benefit: ExpectedBenefit)
        ensures
            benefit == self@.benefit(),
    {
        match self {
            Action::AdjustMemoryBudget { expected_benefit, .. } => *expected_benefit,
            Action::ChangeMaterializationIntent { expected_benefit, .. } => *expected_benefit,
            Action::ChangeRedundancyPreference { expected_benefit, .. } => *expected_benefit,
            Action::AdjustRepairBudget { expected_benefit, .. } => *expected_benefit,
            Action::AdjustScrubBudget { expected_benefit, .. } => *expected_benefit,
            Action::RecommendTabletSplit { expected_benefit, .. } => *expected_benefit,
            Action::RecommendTabletMerge { expected_benefit, .. } => *expected_benefit,
            Action::RecommendMigration { expected_benefit, .. } => *expected_benefit,
        }
    }

    /// Returns the deterministic resource estimate used by safety checks.
    pub fn estimated_cost(&self) -> (cost: ActionCost)
        ensures
            cost == self@.cost(),
    {
        match self {
            Action::RecommendMigration { recommendation, .. } => ActionCost {
                cpu_ns: recommendation.max_bytes,
                io_ns: recommendation.max_bytes,
                network_bytes: recommendation.max_bytes,
                storage_bytes: recommendation.max_bytes,
                memory_bytes: 0,
            },
            Action::RecommendTabletSplit { .. } => ActionCost {
                cpu_ns: 1,
                io_ns: 1,
                network_bytes: 1,
                storage_bytes: 1,
                memory_bytes: 1,
            },
            Action::RecommendTabletMerge { .. } => ActionCost {
                cpu_ns: 1,
                io_ns: 1,
                network_bytes: 1,
                storage_bytes: 1,
                memory_bytes: 1,
            },
            _ => ActionCost::zero(),
        }
    }
}

/// A typed reason for proposing an action.
#[derive(Debug, Clone, Copy, PartialEq, Eq, PartialOrd, Ord, Hash, Structural)]
pub enum ActionReason {
    /// Sustained memory pressure.
    SustainedMemoryPressure,
    /// Low pressure with execution-critical work.
    LowPressureCriticalPromotion,
    /// Sustained repair debt.
    SustainedRepairDebt,
    /// Foreground latency protection.
    ForegroundLatencyProtection,
    /// Persistent topology imbalance.
    PersistentTopologyImbalance,
    /// Many-key hotspot with memory or storage pressure.
    ManyKeyHotspot,
    /// Cold large assets.
    ColdLargeAsset,
    /// Hot small assets.
    HotSmallAsset,
    /// Safe learned alternative.
    LearnedAlternative,
}

/// Explicit action lifecycle state.
#[derive(Debug, Clone, Copy, PartialEq, Eq, PartialOrd, Ord, Hash, Structural)]
pub enum ActionState {
    /// Proposal admitted to the ledger.
    Proposed,
    /// Actuator accepted the proposal.
    Accepted,
    /// Actuator is executing the proposal.
    Executing,
    /// Execution completed successfully or with no change.
    Completed,
    /// Safety or policy rejected the proposal.
    Rejected,
    /// Execution failed.
    Failed,
    /// A newer proposal replaced this one.
    Superseded,
}

impl ActionState {
    /// Whether the state has no way out.
    pub open spec fn terminal(self) -> bool {
        self is Completed || self is Rejected || self is Failed || self is Superseded
    }

    /// Whether `next` may follow.
    pub open spec fn allows(self, next: Self) -> bool {
        match self {
            ActionState::Proposed => next is Accepted || next is Rejected || next is Superseded,
            ActionState::Accepted => next is Executing || next is Rejected || next is Superseded,
            ActionState::Executing => next is Completed || next is Failed || next is Superseded,
            _ => false,
        }
    }

    /// Whether no further transition is allowed.
    pub fn is_terminal(self) -> (terminal: bool)
        ensures
            terminal == self.terminal(),
    {
        matches!(
            self,
            ActionState::Completed | ActionState::Rejected | ActionState::Failed
                | ActionState::Superseded
        )
    }

    /// Whether a transition to `next` is legal.
    pub fn can_transition_to(self, next: Self) -> (legal: bool)
        ensures
            legal == self.allows(next),
    {
        match self {
            ActionState::Proposed => matches!(
                next,
                ActionState::Accepted | ActionState::Rejected | ActionState::Superseded
            ),
            ActionState::Accepted => matches!(
                next,
                ActionState::Executing | ActionState::Rejected | ActionState::Superseded
            ),
            ActionState::Executing => matches!(
                next,
                ActionState::Completed | ActionState::Failed | ActionState::Superseded
            ),
            _ => false,
        }
    }
}

/// Controller identity attached to a decision.
#[derive(Debug, Clone, Copy, PartialEq, Eq, PartialOrd, Ord, Hash, Structural)]
pub enum ControllerSource {
    /// Deterministic baseline controller.
    Baseline,
    /// Learned controller running without actuation.
    LearnedShadow,
    /// Learned controller receiving outcome feedback.
    Learned,
}

/// Monotonic action identity assigned by the ledger.
#[derive(Debug, Clone, Copy, PartialEq, Eq, PartialOrd, Ord, Hash, Structural)]
pub struct ActionId(pub u64);

impl ActionId {
    /// First action identity.
    pub fn first() -> (id: Self)
        ensures
            id.0 == 1,
    {
        ActionId(1)
    }

    /// Creates an action identity.
    pub fn from_u64(value: u64) -> (id: Self)
        ensures
            id.0 == value,
    {
        ActionId(value)
    }

    /// Returns the raw identity.
    pub fn as_u64(self) -> (value: u64)
        ensures
            value == self.0,
    {
        self.0
    }
}

/// Observation identity captured with every action record.
#[derive(Debug, Clone, Copy, PartialEq, Eq, Hash, Structural)]
pub struct ActionObservation {
    /// Latest observation sequence.
    pub sequence: ObservationSequence,
    /// Observation window used for the decision.
    pub window: ObservationWindowId,
    /// Observation or controller schema version.
    pub version: u64,
    /// Virtual decision timestamp.
    pub at: Ticks,
}

/// The exact identity refines the conflict identity: actions with one key have one
/// conflict key.
pub proof fn law_key_refines_conflict_key(a: ActionView, b: ActionView)
    requires
        a.key() == b.key(),
    ensures
        a.conflict_key() == b.conflict_key(),
{
}

/// A terminal state allows nothing, and every other state allows something.
pub proof fn law_terminal_states_are_final(state: ActionState)
    ensures
        state.terminal() <==> forall|next: ActionState| !#[trigger] state.allows(next),
{
    assert(state.allows(ActionState::Superseded) || state.terminal());
}

/// The identity of an action leaves nothing out but its expected benefit: two actions
/// with the same key and the same benefit are the same.
pub proof fn law_keys_tell_actions_apart(a: ActionView, b: ActionView)
    requires
        a.key() == b.key(),
        a.benefit() == b.benefit(),
    ensures
        a == b,
{
}

/// Actions of one kind on one tablet conflict whatever values they set; actions of
/// different kinds, or on different tablets, do not.
pub proof fn law_conflicts_ignore_values(a: ActionView, b: ActionView)
    ensures
        a.kind() != b.kind() ==> a.conflict_key() != b.conflict_key(),
        a.scope() != b.scope() ==> a.conflict_key() != b.conflict_key(),
        (a matches ActionView::AdjustScrubBudget { scope, target, .. } && (b matches
            ActionView::AdjustScrubBudget { scope: s, target: t, .. } && scope == s && target
            == t)) ==> a.conflict_key() == b.conflict_key(),
        (a matches ActionView::AdjustMemoryBudget { scope, target, .. } && (b matches
            ActionView::AdjustMemoryBudget { scope: s, target: t, .. } && scope == s && target
            == t)) ==> a.conflict_key() == b.conflict_key(),
        (a matches ActionView::AdjustRepairBudget { scope, target, .. } && (b matches
            ActionView::AdjustRepairBudget { scope: s, target: t, .. } && scope == s && target
            == t)) ==> a.conflict_key() == b.conflict_key(),
        (a matches ActionView::ChangeMaterializationIntent { scope, target, .. } && (b matches
            ActionView::ChangeMaterializationIntent { scope: s, target: t, .. } && scope == s
            && target == t)) ==> a.conflict_key() == b.conflict_key(),
        (a matches ActionView::ChangeRedundancyPreference { scope, target, .. } && (b matches
            ActionView::ChangeRedundancyPreference { scope: s, target: t, .. } && scope == s
            && target == t)) ==> a.conflict_key() == b.conflict_key(),
        (a matches ActionView::AdjustScrubBudget { target, .. } && (b matches
            ActionView::AdjustScrubBudget { target: t, .. } && target != t)) ==> a.conflict_key()
            != b.conflict_key(),
{
}

/// A migration costs as many bytes as it may move, on every path but memory; a change of
/// policy is free, and a split or a merge is not.
pub proof fn law_costs_follow_the_bytes(action: ActionView)
    ensures
        action matches ActionView::RecommendMigration { recommendation, .. } ==> {
            &&& action.cost().network_bytes == recommendation.max_bytes
            &&& action.cost().storage_bytes == recommendation.max_bytes
            &&& action.cost().io_ns == recommendation.max_bytes
            &&& action.cost().cpu_ns == recommendation.max_bytes
            &&& action.cost().memory_bytes == 0
        },
        action is RecommendTabletSplit || action is RecommendTabletMerge
            ==> action.cost().network_bytes == 1 && action.cost().storage_bytes == 1
            && action.cost().io_ns == 1 && action.cost().cpu_ns == 1
            && action.cost().memory_bytes == 1,
        !(action is RecommendMigration || action is RecommendTabletSplit || action
            is RecommendTabletMerge) ==> forall|spent: ActionCost, limit: ActionCost|
            #![trigger spent.plus(action.cost()).above(limit)]
            spent.plus(action.cost()).above(limit) == spent.above(limit),
{
}

/// A lifecycle goes one way: proposed, accepted, executing, done. It may be rejected
/// before it executes, replaced before it is over, and it fails or completes only out of
/// execution; no state is entered twice.
pub proof fn law_lifecycles_go_forward(state: ActionState, next: ActionState)
    ensures
        state.allows(next) ==> state != next && !state.terminal() && !(next is Proposed),
        state.allows(next) && next is Accepted ==> state is Proposed,
        state.allows(next) && next is Executing ==> state is Accepted,
        state.allows(next) && (next is Completed || next is Failed) ==> state is Executing,
        state.allows(next) && next is Rejected ==> state is Proposed || state is Accepted,
        !state.terminal() ==> state.allows(ActionState::Superseded),
        ActionState::Proposed.allows(ActionState::Accepted),
        ActionState::Proposed.allows(ActionState::Rejected),
        ActionState::Accepted.allows(ActionState::Executing),
        ActionState::Accepted.allows(ActionState::Rejected),
        ActionState::Executing.allows(ActionState::Completed),
        ActionState::Executing.allows(ActionState::Failed),
{
}

/// A list of targets is a set: it holds what it was given, in ascending order.
pub proof fn law_target_sets_are_sets(tablets: Seq<TabletId>)
    ensures
        tablets.len() == 0 ==> target_set(tablets) == Err::<Seq<TabletId>, _>(
            TargetSetError::Empty,
        ),
        target_set(tablets) matches Ok(set) ==> ascending(set) && forall|t: TabletId| #[trigger]
            set.contains(t) <==> tablets.contains(t),
{
    lemma_canonical(tablets);
}

} // verus!
