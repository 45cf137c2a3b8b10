//! Hard safety constraints on every controller path.

use crate::control::adaptive::action::{Action, ActionScope, ActionView, TabletSet};
use crate::control::adaptive::observation::{Confidence, FreshnessStatus};
use crate::control::adaptive::policy::{
    ActionCost, MaterializationIntent, MemoryBudget, MigrationFence, MigrationRecommendation, Ppm,
    RedundancyPreference, RepairBudget, ScrubBudget, TabletMergePolicy, TabletSplitPolicy,
};
use crate::ids::TabletId;
use crate::time::Duration;
use vstd::prelude::*;

verus! {

/// Typed hard-constraint failure from the safety validator.
#[derive(Debug, Clone, Copy, PartialEq, Eq, Structural)]
pub enum SafetyViolation {
    /// Action scope did not match the supplied control scope.
    ScopeMismatch,
    /// Confidence was below the configured minimum.
    LowConfidence,
    /// Observation was stale or from the future.
    StaleObservation,
    /// Requested redundancy was below the minimum.
    RedundancyBelowMinimum,
    /// Requested placement did not preserve failure-domain independence.
    FailureDomainIndependence,
    /// Migration fencing was not valid in the current context.
    MigrationFenceInvalid,
    /// Migration recommendation carried a stale fence.
    MigrationFenceStale,
    /// Demotion or eviction would discard the only representation.
    UnrepresentableDemotion,
    /// Repair reserve was reduced below the mandatory critical reserve.
    CriticalRepairReserve,
    /// Critical repair work is starving and the action does not increase repair.
    RepairStarvation,
    /// A split or merge violated a topology invariant.
    TopologyInvariant(TopologyViolation),
    /// A live topology plan already owns a target.
    ActiveTopologyPlan,
    /// The action-rate ceiling was reached.
    ActionRateCeiling,
    /// The action resource estimate exceeded the ceiling.
    ResourceCeiling,
    /// A migration recommendation had identical endpoints.
    NoMigration,
}

/// Typed topology invariant failures.
#[derive(Debug, Clone, Copy, PartialEq, Eq, Structural)]
#[allow(inconsistent_fields)]
pub enum TopologyViolation {
    /// Parent was below the split byte floor.
    SplitTooSmall {
        /// Observed logical bytes.
        bytes: u64,
        /// Required minimum.
        minimum: u64,
    },
    /// Split would create too many children.
    SplitTooMany,
    /// Merge did not contain enough sources.
    MergeNeedsTwo,
    /// Merge contained too many sources.
    MergeTooMany,
    /// Merge was below the byte floor.
    MergeTooSmall {
        /// Observed combined logical bytes.
        bytes: u64,
        /// Required minimum.
        minimum: u64,
    },
    /// Merging would violate the minimum tablet count.
    BelowMinimumTablets,
}

fn default_repair_budget() -> (budget: RepairBudget)
    ensures
        budget == RepairBudget::of(Ppm::of(250_000)),
{
    RepairBudget { share: Ppm { parts: 250_000 } }
}

/// Hard safety limits applied to every controller path.
#[derive(Debug, Clone, Copy, PartialEq, Eq, Structural)]
pub struct SafetyEnvelope {
    /// Minimum protected fragment count.
    pub minimum_redundancy: u8,
    /// Minimum independent failure domains.
    pub minimum_failure_domains: u8,
    /// Mandatory critical repair reserve.
    pub minimum_critical_repair_reserve: RepairBudget,
    /// Maximum active actions in one observation window.
    pub maximum_actions_per_window: u32,
    /// Maximum aggregate action cost in one observation window.
    pub maximum_resource_cost: ActionCost,
    /// Maximum children created by one split recommendation.
    pub maximum_split_children: u8,
    /// Minimum parent bytes for a split recommendation.
    pub minimum_split_bytes: u64,
    /// Minimum combined bytes for a merge recommendation.
    pub minimum_merge_bytes: u64,
    /// Minimum acceptable observation confidence.
    pub minimum_confidence: Confidence,
    /// Maximum observation age.
    pub maximum_freshness_age: Duration,
    /// Age at which critical repair must be prioritized.
    pub repair_starvation_age: Duration,
    /// Minimum tablet count that a merge may not cross.
    pub minimum_tablet_count: u32,
    /// Whether migration recommendations require a valid current fence.
    pub require_migration_fencing: bool,
}

impl Default for SafetyEnvelope {
    fn default() -> (envelope: Self)
        ensures
            envelope == Self::standard(),
    {
        SafetyEnvelope {
            minimum_redundancy: 2,
            minimum_failure_domains: 2,
            minimum_critical_repair_reserve: default_repair_budget(),
            maximum_actions_per_window: 8,
            maximum_resource_cost: ActionCost {
                cpu_ns: 1_000_000_000,
                io_ns: 1_000_000_000,
                network_bytes: 1_000_000_000,
                storage_bytes: 1_000_000_000,
                memory_bytes: 1_000_000_000,
            },
            maximum_split_children: 16,
            minimum_split_bytes: 1,
            minimum_merge_bytes: 1,
            minimum_confidence: Confidence::Medium,
            maximum_freshness_age: Duration::from_secs(5),
            repair_starvation_age: Duration::from_secs(30),
            minimum_tablet_count: 1,
            require_migration_fencing: true,
        }
    }
}

impl SafetyEnvelope {
    /// The limits that a validator starts with.
    pub open spec fn standard() -> Self {
        SafetyEnvelope {
            minimum_redundancy: 2,
            minimum_failure_domains: 2,
            minimum_critical_repair_reserve: RepairBudget::of(Ppm::of(250_000)),
            maximum_actions_per_window: 8,
            maximum_resource_cost: ActionCost {
                cpu_ns: 1_000_000_000,
                io_ns: 1_000_000_000,
                network_bytes: 1_000_000_000,
                storage_bytes: 1_000_000_000,
                memory_bytes: 1_000_000_000,
            },
            maximum_split_children: 16,
            minimum_split_bytes: 1,
            minimum_merge_bytes: 1,
            minimum_confidence: Confidence::Medium,
            maximum_freshness_age: Duration { nanos: 5_000_000_000 },
            repair_starvation_age: Duration { nanos: 30_000_000_000 },
            minimum_tablet_count: 1,
            require_migration_fencing: true,
        }
    }

    /// Whether the limits make sense.
    pub fn is_valid(&self) -> (valid: bool)
        ensures
            valid == (self.minimum_redundancy > 0 && self.minimum_failure_domains > 0
                && self.maximum_actions_per_window > 0 && self.maximum_split_children >= 2
                && self.minimum_split_bytes > 0 && self.minimum_merge_bytes > 0),
    {
        self.minimum_redundancy > 0 && self.minimum_failure_domains > 0
            && self.maximum_actions_per_window > 0 && self.maximum_split_children >= 2
            && self.minimum_split_bytes > 0 && self.minimum_merge_bytes > 0
    }
}

/// A set of tablets that may be merged.
#[derive(Debug, PartialEq, Eq)]
pub struct MergeCandidate {
    /// Tablets to merge.
    pub tablets: TabletSet,
    /// Their combined bytes.
    pub bytes: u64,
}

/// What a [`MergeCandidate`] says.
#[verifier::ext_equal]
pub struct MergeCandidateView {
    pub tablets: Seq<TabletId>,
    pub bytes: u64,
}

impl View for MergeCandidate {
    type V = MergeCandidateView;

    open spec fn view(&self) -> MergeCandidateView {
        MergeCandidateView { tablets: self.tablets@, bytes: self.bytes }
    }
}

/// The views of a list of merge candidates.
pub open spec fn merge_views(candidates: Seq<MergeCandidate>) -> Seq<MergeCandidateView> {
    Seq::new(candidates.len(), |i: int| candidates[i]@)
}

/// Current control state used by the deterministic safety validator.
#[derive(Debug, PartialEq, Eq)]
pub struct SafetyContext {
    /// Namespace and cluster boundary.
    pub scope: ActionScope,
    /// Primary tablet under consideration.
    pub primary_target: TabletId,
    /// Current logical bytes for the primary target.
    pub target_logical_bytes: u64,
    /// Current combined bytes for a merge candidate.
    pub target_combined_bytes: u64,
    /// Current protected replica count.
    pub current_replicas: u8,
    /// Current number of independent failure domains.
    pub current_failure_domains: u8,
    /// Current placement fence.
    pub current_fence: MigrationFence,
    /// Whether fencing is currently valid.
    pub migration_fencing_valid: bool,
    /// Whether lower tiers can reconstruct the representation.
    pub representation_reconstructible: bool,
    /// Current critical repair reserve.
    pub critical_repair_reserve: RepairBudget,
    /// Current repair budget.
    pub repair_budget: RepairBudget,
    /// Current scrub budget.
    pub scrub_budget: ScrubBudget,
    /// Current memory budget.
    pub memory_budget: MemoryBudget,
    /// Current materialization intent.
    pub materialization: MaterializationIntent,
    /// Age of the oldest critical repair item.
    pub repair_debt_age: Duration,
    /// Whether critical repair debt exists.
    pub critical_repair_debt: bool,
    /// Tablets already covered by live topology plans.
    pub active_topology_tablets: Vec<TabletId>,
    /// Current number of tablets.
    pub tablet_count: u32,
    /// Candidate migration recommendations.
    pub migration_candidates: Vec<MigrationRecommendation>,
    /// Candidate merge tablet sets and their combined bytes.
    pub merge_candidates: Vec<MergeCandidate>,
    /// Current action count in this observation window.
    pub actions_in_window: u32,
    /// Aggregate resource cost in this observation window.
    pub resource_cost_in_window: ActionCost,
    /// Whether foreground latency is currently unhealthy.
    pub foreground_latency_bad: bool,
    /// Current observation confidence.
    pub confidence: Confidence,
    /// Current observation freshness classification.
    pub freshness: FreshnessStatus,
    /// Age of the newest observation used for this decision.
    pub freshness_age: Duration,
}

/// What a [`SafetyContext`] says.
#[verifier::ext_equal]
pub struct SafetyContextView {
    pub scope: ActionScope,
    pub primary_target: TabletId,
    pub target_logical_bytes: u64,
    pub target_combined_bytes: u64,
    pub current_replicas: u8,
    pub current_failure_domains: u8,
    pub current_fence: MigrationFence,
    pub migration_fencing_valid: bool,
    pub representation_reconstructible: bool,
    pub critical_repair_reserve: RepairBudget,
    pub repair_budget: RepairBudget,
    pub scrub_budget: ScrubBudget,
    pub memory_budget: MemoryBudget,
    pub materialization: MaterializationIntent,
    pub repair_debt_age: Duration,
    pub critical_repair_debt: bool,
    pub active_topology_tablets: Seq<TabletId>,
    pub tablet_count: u32,
    pub migration_candidates: Seq<MigrationRecommendation>,
    pub merge_candidates: Seq<MergeCandidateView>,
    pub actions_in_window: u32,
    pub resource_cost_in_window: ActionCost,
    pub foreground_latency_bad: bool,
    pub confidence: Confidence,
    pub freshness: FreshnessStatus,
    pub freshness_age: Duration,
}

impl View for SafetyContext {
    type V = SafetyContextView;

    open spec fn view(&self) -> SafetyContextView {
        SafetyContextView {
            scope: self.scope,
            primary_target: self.primary_target,
            target_logical_bytes: self.target_logical_bytes,
            target_combined_bytes: self.target_combined_bytes,
            current_replicas: self.current_replicas,
            current_failure_domains: self.current_failure_domains,
            current_fence: self.current_fence,
            migration_fencing_valid: self.migration_fencing_valid,
            representation_reconstructible: self.representation_reconstructible,
            critical_repair_reserve: self.critical_repair_reserve,
            repair_budget: self.repair_budget,
            scrub_budget: self.scrub_budget,
            memory_budget: self.memory_budget,
            materialization: self.materialization,
            repair_debt_age: self.repair_debt_age,
            critical_repair_debt: self.critical_repair_debt,
            active_topology_tablets: self.active_topology_tablets@,
            tablet_count: self.tablet_count,
            migration_candidates: self.migration_candidates@,
            merge_candidates: merge_views(self.merge_candidates@),
            actions_in_window: self.actions_in_window,
            resource_cost_in_window: self.resource_cost_in_window,
            foreground_latency_bad: self.foreground_latency_bad,
            confidence: self.confidence,
            freshness: self.freshness,
            freshness_age: self.freshness_age,
        }
    }
}

impl Clone for SafetyContext {
    fn clone(&self) -> (copy: Self)
        ensures
            copy@ == self@,
    {
        let mut active_topology_tablets: Vec<TabletId> = Vec::new();
        let mut at: usize = 0;
        while at < self.active_topology_tablets.len()
            invariant
                at <= self.active_topology_tablets.len(),
                active_topology_tablets.len() == at,
                forall|i: int|
                    0 <= i < at ==> active_topology_tablets@[i] == self.active_topology_tablets@[i],
            decreases self.active_topology_tablets.len() - at,
        {
            active_topology_tablets.push(self.active_topology_tablets[at]);
            at = at + 1;
        }
        let mut migration_candidates: Vec<MigrationRecommendation> = Vec::new();
        let mut at: usize = 0;
        while at < self.migration_candidates.len()
            invariant
                at <= self.migration_candidates.len(),
                migration_candidates.len() == at,
                forall|i: int|
                    0 <= i < at ==> migration_candidates@[i] == self.migration_candidates@[i],
            decreases self.migration_candidates.len() - at,
        {
            migration_candidates.push(self.migration_candidates[at]);
            at = at + 1;
        }
        let mut merge_candidates: Vec<MergeCandidate> = Vec::new();
        let mut at: usize = 0;
        while at < self.merge_candidates.len()
            invariant
                at <= self.merge_candidates.len(),
                merge_candidates.len() == at,
                forall|i: int|
                    0 <= i < at ==> (
                        #[trigger] merge_candidates@[i]
                    )@ == self.merge_candidates@[i]@,
            decreases self.merge_candidates.len() - at,
        {
            merge_candidates.push(
                MergeCandidate {
                    tablets: self.merge_candidates[at].tablets.clone(),
                    bytes: self.merge_candidates[at].bytes,
                },
            );
            at = at + 1;
        }
        proof {
            assert(active_topology_tablets@ =~= self.active_topology_tablets@);
            assert(migration_candidates@ =~= self.migration_candidates@);
            assert(merge_views(merge_candidates@) =~= merge_views(self.merge_candidates@));
        }
        SafetyContext {
            scope: self.scope,
            primary_target: self.primary_target,
            target_logical_bytes: self.target_logical_bytes,
            target_combined_bytes: self.target_combined_bytes,
            current_replicas: self.current_replicas,
            current_failure_domains: self.current_failure_domains,
            current_fence: self.current_fence,
            migration_fencing_valid: self.migration_fencing_valid,
            representation_reconstructible: self.representation_reconstructible,
            critical_repair_reserve: self.critical_repair_reserve,
            repair_budget: self.repair_budget,
            scrub_budget: self.scrub_budget,
            memory_budget: self.memory_budget,
            materialization: self.materialization,
            repair_debt_age: self.repair_debt_age,
            critical_repair_debt: self.critical_repair_debt,
            active_topology_tablets,
            tablet_count: self.tablet_count,
            migration_candidates,
            merge_candidates,
            actions_in_window: self.actions_in_window,
            resource_cost_in_window: self.resource_cost_in_window,
            foreground_latency_bad: self.foreground_latency_bad,
            confidence: self.confidence,
            freshness: self.freshness,
            freshness_age: self.freshness_age,
        }
    }
}

impl SafetyContextView {
    /// A fail-safe context for one target.
    pub open spec fn initial(scope: ActionScope, primary_target: TabletId) -> Self {
        SafetyContextView {
            scope,
            primary_target,
            target_logical_bytes: 1,
            target_combined_bytes: 1,
            current_replicas: 2,
            current_failure_domains: 2,
            current_fence: MigrationFence::of(1),
            migration_fencing_valid: true,
            representation_reconstructible: true,
            critical_repair_reserve: RepairBudget::of(Ppm::of(250_000)),
            repair_budget: RepairBudget::of(Ppm::of(500_000)),
            scrub_budget: ScrubBudget::of(Ppm::of(500_000)),
            memory_budget: MemoryBudget::of(Ppm::of(500_000)),
            materialization: MaterializationIntent::Materialize,
            repair_debt_age: Duration { nanos: 0 },
            critical_repair_debt: false,
            active_topology_tablets: Seq::empty(),
            tablet_count: 2,
            migration_candidates: Seq::empty(),
            merge_candidates: Seq::empty(),
            actions_in_window: 0,
            resource_cost_in_window: ActionCost::none(),
            foreground_latency_bad: false,
            confidence: Confidence::High,
            freshness: FreshnessStatus::Current,
            freshness_age: Duration { nanos: 0 },
        }
    }
}

impl SafetyContext {
    /// Creates a fail-safe context for one target.
    pub fn new(scope: ActionScope, primary_target: TabletId) -> (context: Self)
        ensures
            context@ == SafetyContextView::initial(scope, primary_target),
    {
        SafetyContext {
            scope,
            primary_target,
            target_logical_bytes: 1,
            target_combined_bytes: 1,
            current_replicas: 2,
            current_failure_domains: 2,
            current_fence: MigrationFence::initial(),
            migration_fencing_valid: true,
            representation_reconstructible: true,
            critical_repair_reserve: default_repair_budget(),
            repair_budget: RepairBudget { share: Ppm { parts: 500_000 } },
            scrub_budget: ScrubBudget { share: Ppm { parts: 500_000 } },
            memory_budget: MemoryBudget { share: Ppm { parts: 500_000 } },
            materialization: MaterializationIntent::Materialize,
            repair_debt_age: Duration::zero(),
            critical_repair_debt: false,
            active_topology_tablets: Vec::new(),
            tablet_count: 2,
            migration_candidates: Vec::new(),
            merge_candidates: Vec::new(),
            actions_in_window: 0,
            resource_cost_in_window: ActionCost::zero(),
            foreground_latency_bad: false,
            confidence: Confidence::High,
            freshness: FreshnessStatus::Current,
            freshness_age: Duration::zero(),
        }
    }
}

/// The larger of two numbers.
pub open spec fn larger(a: u64, b: u64) -> u64 {
    if a >= b {
        a
    } else {
        b
    }
}

impl SafetyEnvelope {
    /// What every action must satisfy, whatever its kind.
    pub open spec fn gate(self, action: ActionView, context: SafetyContextView) -> Result<
        (),
        SafetyViolation,
    > {
        if action.scope() != context.scope {
            Err(SafetyViolation::ScopeMismatch)
        } else if context.confidence.rank() < self.minimum_confidence.rank() {
            Err(SafetyViolation::LowConfidence)
        } else if context.freshness != FreshnessStatus::Current || context.freshness_age.nanos
            > self.maximum_freshness_age.nanos {
            Err(SafetyViolation::StaleObservation)
        } else if context.actions_in_window >= self.maximum_actions_per_window {
            Err(SafetyViolation::ActionRateCeiling)
        } else if context.resource_cost_in_window.plus(action.cost()).above(
            self.maximum_resource_cost,
        ) {
            Err(SafetyViolation::ResourceCeiling)
        } else {
            Ok(())
        }
    }

    /// What every topology change must satisfy: enough replicas in enough domains.
    pub open spec fn protected(self, context: SafetyContextView) -> Result<(), SafetyViolation> {
        if context.current_replicas < self.minimum_redundancy {
            Err(SafetyViolation::RedundancyBelowMinimum)
        } else if context.current_failure_domains < self.minimum_failure_domains {
            Err(SafetyViolation::FailureDomainIndependence)
        } else {
            Ok(())
        }
    }

    /// The rule on redundancy preferences.
    pub open spec fn redundancy_rule(
        self,
        preference: RedundancyPreference,
        context: SafetyContextView,
    ) -> Result<(), SafetyViolation> {
        if preference.count() < self.minimum_redundancy {
            Err(SafetyViolation::RedundancyBelowMinimum)
        } else if context.current_failure_domains < self.minimum_failure_domains {
            Err(SafetyViolation::FailureDomainIndependence)
        } else {
            Ok(())
        }
    }

    /// The rule on repair budgets: never below either reserve, and above the current
    /// budget while repair starves.
    pub open spec fn repair_rule(self, budget: RepairBudget, context: SafetyContextView) -> Result<
        (),
        SafetyViolation,
    > {
        let offered = budget.ppm().value();
        if offered < self.minimum_critical_repair_reserve.ppm().value() || offered
            < context.critical_repair_reserve.ppm().value() {
            Err(SafetyViolation::CriticalRepairReserve)
        } else if (context.critical_repair_debt || context.repair_debt_age.nanos
            >= self.repair_starvation_age.nanos) && offered <= context.repair_budget.ppm().value() {
            Err(SafetyViolation::RepairStarvation)
        } else {
            Ok(())
        }
    }

    /// The rule on migrations: a known candidate between two nodes, behind the
    /// current fence.
    pub open spec fn migration_rule(
        self,
        recommendation: MigrationRecommendation,
        context: SafetyContextView,
    ) -> Result<(), SafetyViolation> {
        match self.protected(context) {
            Err(violation) => Err(violation),
            Ok(_) => if recommendation.from == recommendation.to {
                Err(SafetyViolation::NoMigration)
            } else if !context.migration_candidates.contains(recommendation) {
                Err(SafetyViolation::MigrationFenceStale)
            } else if self.require_migration_fencing && !context.migration_fencing_valid {
                Err(SafetyViolation::MigrationFenceInvalid)
            } else if self.require_migration_fencing && recommendation.fence
                != context.current_fence {
                Err(SafetyViolation::MigrationFenceStale)
            } else {
                Ok(())
            },
        }
    }

    /// The rule on splits: the primary tablet, without a live plan, large enough.
    pub open spec fn split_rule(
        self,
        target: TabletId,
        policy: TabletSplitPolicy,
        context: SafetyContextView,
    ) -> Result<(), SafetyViolation> {
        match self.protected(context) {
            Err(violation) => Err(violation),
            Ok(_) => if target != context.primary_target
                || context.active_topology_tablets.contains(target) {
                Err(SafetyViolation::ActiveTopologyPlan)
            } else if policy.max_children > self.maximum_split_children {
                Err(SafetyViolation::TopologyInvariant(TopologyViolation::SplitTooMany))
            } else if context.target_logical_bytes < larger(
                policy.min_child_bytes,
                self.minimum_split_bytes,
            ) {
                Err(
                    SafetyViolation::TopologyInvariant(
                        TopologyViolation::SplitTooSmall {
                            bytes: context.target_logical_bytes,
                            minimum: larger(policy.min_child_bytes, self.minimum_split_bytes),
                        },
                    ),
                )
            } else {
                Ok(())
            },
        }
    }

    /// The rule on merges: a known candidate of at least two tablets, none with a live
    /// plan, large enough, with tablets to spare.
    pub open spec fn merge_rule(
        self,
        targets: Seq<TabletId>,
        policy: TabletMergePolicy,
        context: SafetyContextView,
    ) -> Result<(), SafetyViolation> {
        match self.protected(context) {
            Err(violation) => Err(violation),
            Ok(_) => if exists|i: int|
                0 <= i < targets.len() && context.active_topology_tablets.contains(
                    #[trigger] targets[i],
                ) {
                Err(SafetyViolation::ActiveTopologyPlan)
            } else if targets.len() < 2 || !(exists|i: int|
                0 <= i < context.merge_candidates.len() && (
                #[trigger] context.merge_candidates[i]).tablets == targets) {
                Err(SafetyViolation::TopologyInvariant(TopologyViolation::MergeNeedsTwo))
            } else if targets.len() > policy.max_sources {
                Err(SafetyViolation::TopologyInvariant(TopologyViolation::MergeTooMany))
            } else if context.target_combined_bytes < larger(
                policy.min_combined_bytes,
                self.minimum_merge_bytes,
            ) {
                Err(
                    SafetyViolation::TopologyInvariant(
                        TopologyViolation::MergeTooSmall {
                            bytes: context.target_combined_bytes,
                            minimum: larger(policy.min_combined_bytes, self.minimum_merge_bytes),
                        },
                    ),
                )
            } else if context.tablet_count <= self.minimum_tablet_count {
                Err(SafetyViolation::TopologyInvariant(TopologyViolation::BelowMinimumTablets))
            } else {
                Ok(())
            },
        }
    }

    /// The verdict on one action: what holds for every action, then the rule of its kind.
    pub open spec fn verdict(self, action: ActionView, context: SafetyContextView) -> Result<
        (),
        SafetyViolation,
    > {
        match self.gate(action, context) {
            Err(violation) => Err(violation),
            Ok(_) => match action {
                ActionView::ChangeMaterializationIntent { intent, .. } => if (intent is Demote
                    || intent is Evict) && !context.representation_reconstructible {
                    Err(SafetyViolation::UnrepresentableDemotion)
                } else {
                    Ok(())
                },
                ActionView::ChangeRedundancyPreference { preference, .. } => self.redundancy_rule(
                    preference,
                    context,
                ),
                ActionView::AdjustRepairBudget { budget, .. } => self.repair_rule(budget, context),
                ActionView::RecommendMigration { recommendation, .. } => self.migration_rule(
                    recommendation,
                    context,
                ),
                ActionView::RecommendTabletSplit { target, policy, .. } => self.split_rule(
                    target,
                    policy,
                    context,
                ),
                ActionView::RecommendTabletMerge { targets, policy, .. } => self.merge_rule(
                    targets,
                    policy,
                    context,
                ),
                _ => Ok(()),
            },
        }
    }
}

/// Deterministic hard-constraint validator.
#[derive(Debug, Clone, Copy, PartialEq, Eq, Structural)]
pub struct SafetyValidator {
    pub(crate) limits: SafetyEnvelope,
}

impl Default for SafetyValidator {
    fn default() -> (validator: Self)
        ensures
            validator.limits_of() == SafetyEnvelope::standard(),
    {
        Self::new(SafetyEnvelope::default())
    }
}

impl SafetyValidator {
    /// The limits that the validator applies.
    pub open(crate) spec fn limits_of(self) -> SafetyEnvelope {
        self.limits
    }

    /// Creates a validator with the supplied hard limits.
    pub fn new(envelope: SafetyEnvelope) -> (validator: Self)
        ensures
            validator.limits_of() == envelope,
    {
        SafetyValidator { limits: envelope }
    }

    /// Returns the immutable safety envelope.
    pub fn envelope(&self) -> (envelope: &SafetyEnvelope)
        ensures
            *envelope == self.limits_of(),
    {
        &self.limits
    }

    fn check_gate(&self, action: &Action, context: &SafetyContext) -> (result: Result<
        (),
        SafetyViolation,
    >)
        ensures
            result == self.limits_of().gate(action@, context@),
    {
        if action.scope() != context.scope {
            return Err(SafetyViolation::ScopeMismatch);
        }
        if context.confidence.below(self.limits.minimum_confidence) {
            return Err(SafetyViolation::LowConfidence);
        }
        if context.freshness != FreshnessStatus::Current || context.freshness_age.nanos
            > self.limits.maximum_freshness_age.nanos {
            return Err(SafetyViolation::StaleObservation);
        }
        if context.actions_in_window >= self.limits.maximum_actions_per_window {
            return Err(SafetyViolation::ActionRateCeiling);
        }
        if context.resource_cost_in_window.saturating_add(action.estimated_cost()).exceeds(
            self.limits.maximum_resource_cost,
        ) {
            return Err(SafetyViolation::ResourceCeiling);
        }
        Ok(())
    }

    fn check_protected(&self, context: &SafetyContext) -> (result: Result<(), SafetyViolation>)
        ensures
            result == self.limits_of().protected(context@),
    {
        if context.current_replicas < self.limits.minimum_redundancy {
            Err(SafetyViolation::RedundancyBelowMinimum)
        } else if context.current_failure_domains < self.limits.minimum_failure_domains {
            Err(SafetyViolation::FailureDomainIndependence)
        } else {
            Ok(())
        }
    }

    fn check_repair(&self, budget: RepairBudget, context: &SafetyContext) -> (result: Result<
        (),
        SafetyViolation,
    >)
        ensures
            result == self.limits_of().repair_rule(budget, context@),
    {
        let offered: u32 = budget.as_ppm().as_u32();
        let mandatory: u32 = self.limits.minimum_critical_repair_reserve.as_ppm().as_u32();
        let critical: u32 = context.critical_repair_reserve.as_ppm().as_u32();
        if offered < mandatory || offered < critical {
            Err(SafetyViolation::CriticalRepairReserve)
        } else if (context.critical_repair_debt || context.repair_debt_age.nanos
            >= self.limits.repair_starvation_age.nanos) && offered
            <= context.repair_budget.as_ppm().as_u32() {
            Err(SafetyViolation::RepairStarvation)
        } else {
            Ok(())
        }
    }

    fn check_migration(
        &self,
        recommendation: MigrationRecommendation,
        context: &SafetyContext,
    ) -> (result: Result<(), SafetyViolation>)
        ensures
            result == self.limits_of().migration_rule(recommendation, context@),
    {
        if let Err(violation) = self.check_protected(context) {
            return Err(violation);
        }
        if recommendation.from == recommendation.to {
            return Err(SafetyViolation::NoMigration);
        }
        let mut known: bool = false;
        let mut at: usize = 0;
        while at < context.migration_candidates.len()
            invariant
                at <= context.migration_candidates.len(),
                known == context.migration_candidates@.take(at as int).contains(recommendation),
            decreases context.migration_candidates.len() - at,
        {
            proof {
                let before = context.migration_candidates@.take(at as int);
                assert(context.migration_candidates@.take(at + 1) =~= before.push(
                    context.migration_candidates@[at as int],
                ));
                vstd::seq_lib::lemma_seq_contains_after_push(
                    before,
                    context.migration_candidates@[at as int],
                    recommendation,
                );
            }
            if context.migration_candidates[at] == recommendation {
                known = true;
            }
            at = at + 1;
        }
        proof {
            assert(context.migration_candidates@.take(at as int) =~= context.migration_candidates@);
        }
        if !known {
            return Err(SafetyViolation::MigrationFenceStale);
        }
        if self.limits.require_migration_fencing {
            if !context.migration_fencing_valid {
                return Err(SafetyViolation::MigrationFenceInvalid);
            }
            if recommendation.fence != context.current_fence {
                return Err(SafetyViolation::MigrationFenceStale);
            }
        }
        Ok(())
    }

    fn check_split(
        &self,
        target: TabletId,
        policy: TabletSplitPolicy,
        context: &SafetyContext,
    ) -> (result: Result<(), SafetyViolation>)
        ensures
            result == self.limits_of().split_rule(target, policy, context@),
    {
        if let Err(violation) = self.check_protected(context) {
            return Err(violation);
        }
        if target != context.primary_target || lists_tablet(
            &context.active_topology_tablets,
            target,
        ) {
            return Err(SafetyViolation::ActiveTopologyPlan);
        }
        if policy.max_children > self.limits.maximum_split_children {
            return Err(SafetyViolation::TopologyInvariant(TopologyViolation::SplitTooMany));
        }
        let minimum: u64 = if policy.min_child_bytes >= self.limits.minimum_split_bytes {
            policy.min_child_bytes
        } else {
            self.limits.minimum_split_bytes
        };
        if context.target_logical_bytes < minimum {
            return Err(
                SafetyViolation::TopologyInvariant(
                    TopologyViolation::SplitTooSmall {
                        bytes: context.target_logical_bytes,
                        minimum,
                    },
                ),
            );
        }
        Ok(())
    }

    fn check_merge(
        &self,
        targets: &TabletSet,
        policy: TabletMergePolicy,
        context: &SafetyContext,
    ) -> (result: Result<(), SafetyViolation>)
        ensures
            result == self.limits_of().merge_rule(targets@, policy, context@),
    {
        if let Err(violation) = self.check_protected(context) {
            return Err(violation);
        }
        let tablets: &[TabletId] = targets.as_slice();
        let mut at: usize = 0;
        while at < tablets.len()
            invariant
                at <= tablets.len(),
                tablets@ == targets@,
                self.limits_of().protected(context@) is Ok,
                forall|i: int|
                    0 <= i < at ==> !context.active_topology_tablets@.contains(
                        #[trigger] tablets@[i],
                    ),
            decreases tablets.len() - at,
        {
            if lists_tablet(&context.active_topology_tablets, tablets[at]) {
                proof {
                    assert(context@.active_topology_tablets.contains(targets@[at as int]));
                }
                return Err(SafetyViolation::ActiveTopologyPlan);
            }
            at = at + 1;
        }
        let mut known: bool = false;
        let mut at: usize = 0;
        while at < context.merge_candidates.len()
            invariant
                at <= context.merge_candidates.len(),
                known == exists|i: int|
                    0 <= i < at && (#[trigger] context@.merge_candidates[i]).tablets == targets@,
            decreases context.merge_candidates.len() - at,
        {
            let same: bool = context.merge_candidates[at].tablets.same(targets);
            proof {
                assert(context@.merge_candidates[at as int].tablets
                    == context.merge_candidates@[at as int].tablets@);
            }
            if same {
                known = true;
            }
            at = at + 1;
        }
        if targets.len() < 2 || !known {
            return Err(SafetyViolation::TopologyInvariant(TopologyViolation::MergeNeedsTwo));
        }
        if targets.len() > policy.max_sources as usize {
            return Err(SafetyViolation::TopologyInvariant(TopologyViolation::MergeTooMany));
        }
        let minimum: u64 = if policy.min_combined_bytes >= self.limits.minimum_merge_bytes {
            policy.min_combined_bytes
        } else {
            self.limits.minimum_merge_bytes
        };
        if context.target_combined_bytes < minimum {
            return Err(
                SafetyViolation::TopologyInvariant(
                    TopologyViolation::MergeTooSmall {
                        bytes: context.target_combined_bytes,
                        minimum,
                    },
                ),
            );
        }
        if context.tablet_count <= self.limits.minimum_tablet_count {
            return Err(SafetyViolation::TopologyInvariant(TopologyViolation::BelowMinimumTablets));
        }
        Ok(())
    }

    /// Validates one action against the current context.
    pub fn validate(&self, action: &Action, context: &SafetyContext) -> (result: Result<
        (),
        SafetyViolation,
    >)
        ensures
            result == self.limits_of().verdict(action@, context@),
    {
        if let Err(violation) = self.check_gate(action, context) {
            return Err(violation);
        }
        match action {
            Action::ChangeMaterializationIntent { intent, .. } => {
                if matches!(*intent, MaterializationIntent::Demote | MaterializationIntent::Evict)
                    && !context.representation_reconstructible {
                    Err(SafetyViolation::UnrepresentableDemotion)
                } else {
                    Ok(())
                }
            },
            Action::ChangeRedundancyPreference { preference, .. } => {
                if preference.fragment_count() < self.limits.minimum_redundancy {
                    Err(SafetyViolation::RedundancyBelowMinimum)
                } else if context.current_failure_domains < self.limits.minimum_failure_domains {
                    Err(SafetyViolation::FailureDomainIndependence)
                } else {
                    Ok(())
                }
            },
            Action::AdjustRepairBudget { budget, .. } => self.check_repair(*budget, context),
            Action::RecommendMigration { recommendation, .. } => self.check_migration(
                *recommendation,
                context,
            ),
            Action::RecommendTabletSplit { target, policy, .. } => self.check_split(
                *target,
                *policy,
                context,
            ),
            Action::RecommendTabletMerge { targets, policy, .. } => self.check_merge(
                targets,
                *policy,
                context,
            ),
            _ => Ok(()),
        }
    }
}

fn lists_tablet(tablets: &Vec<TabletId>, tablet: TabletId) -> (listed: bool)
    ensures
        listed == tablets@.contains(tablet),
{
    let mut at: usize = 0;
    while at < tablets.len()
        invariant
            at <= tablets.len(),
            forall|i: int| 0 <= i < at ==> tablets@[i] != tablet,
        decreases tablets.len() - at,
    {
        if tablets[at] == tablet {
            return true;
        }
        at = at + 1;
    }
    false
}

/// Nothing stale, unsure or out of scope passes, whatever the action.
pub proof fn law_gate_guards_every_action(
    envelope: SafetyEnvelope,
    action: ActionView,
    context: SafetyContextView,
)
    requires
        envelope.verdict(action, context) is Ok,
    ensures
        action.scope() == context.scope,
        context.confidence.rank() >= envelope.minimum_confidence.rank(),
        context.freshness == FreshnessStatus::Current,
        context.freshness_age.nanos <= envelope.maximum_freshness_age.nanos,
        context.actions_in_window < envelope.maximum_actions_per_window,
        !context.resource_cost_in_window.plus(action.cost()).above(envelope.maximum_resource_cost),
{
}

/// An action that passes never costs data its last representation, never goes below
/// the repair reserves, and never moves or reshapes an unprotected tablet.
pub proof fn law_accepted_actions_keep_data_safe(
    envelope: SafetyEnvelope,
    action: ActionView,
    context: SafetyContextView,
)
    requires
        envelope.verdict(action, context) is Ok,
    ensures
        action matches ActionView::ChangeMaterializationIntent { intent, .. } ==> (intent is Demote
            || intent is Evict ==> context.representation_reconstructible),
        action matches ActionView::AdjustRepairBudget { budget, .. } ==> budget.ppm().value()
            >= envelope.minimum_critical_repair_reserve.ppm().value(),
        action matches ActionView::ChangeRedundancyPreference { preference, .. }
            ==> preference.count() >= envelope.minimum_redundancy,
        action is RecommendMigration || action is RecommendTabletSplit
            || action is RecommendTabletMerge ==> context.current_replicas
            >= envelope.minimum_redundancy && context.current_failure_domains
            >= envelope.minimum_failure_domains,
        action matches ActionView::RecommendMigration { recommendation, .. } ==> recommendation.from
            != recommendation.to && (envelope.require_migration_fencing ==> recommendation.fence
            == context.current_fence),
{
}

/// An action that no rule speaks against passes: a budget of memory or scrubbing, an
/// intent that fills memory, and one that frees it where the data can be rebuilt.
pub proof fn law_harmless_actions_pass(
    envelope: SafetyEnvelope,
    action: ActionView,
    context: SafetyContextView,
)
    requires
        action.scope() == context.scope,
        context.confidence.rank() >= envelope.minimum_confidence.rank(),
        context.freshness is Current,
        context.freshness_age.nanos <= envelope.maximum_freshness_age.nanos,
        context.actions_in_window < envelope.maximum_actions_per_window,
        !context.resource_cost_in_window.plus(action.cost()).above(envelope.maximum_resource_cost),
        action is AdjustMemoryBudget || action is AdjustScrubBudget || (action matches
            ActionView::ChangeMaterializationIntent { intent, .. } && (intent is Materialize
            || context.representation_reconstructible)),
    ensures
        envelope.verdict(action, context) is Ok,
{
}

/// A repair budget passes exactly if it covers both reserves and, where repair is
/// critical or starves, is larger than the budget in force; the reserves are asked for
/// first.
pub proof fn law_repair_budgets_cover_the_reserves(
    envelope: SafetyEnvelope,
    action: ActionView,
    context: SafetyContextView,
)
    requires
        envelope.gate(action, context) is Ok,
        action is AdjustRepairBudget,
    ensures
        action matches ActionView::AdjustRepairBudget { budget, .. } ==> {
            let offered = budget.ppm().value();
            let starving = context.critical_repair_debt || context.repair_debt_age.nanos
                >= envelope.repair_starvation_age.nanos;
            let covered = offered >= envelope.minimum_critical_repair_reserve.ppm().value()
                && offered >= context.critical_repair_reserve.ppm().value();
            &&& !covered <==> envelope.verdict(action, context) == Err::<(), _>(
                SafetyViolation::CriticalRepairReserve,
            )
            &&& covered && starving && offered <= context.repair_budget.ppm().value()
                <==> envelope.verdict(action, context) == Err::<(), _>(
                SafetyViolation::RepairStarvation,
            )
            &&& covered && (!starving || offered > context.repair_budget.ppm().value())
                <==> envelope.verdict(action, context) is Ok
        },
{
}

/// A larger repair budget is never refused where a smaller one passes.
pub proof fn law_more_repair_is_never_refused(
    envelope: SafetyEnvelope,
    smaller: RepairBudget,
    larger_budget: RepairBudget,
    context: SafetyContextView,
)
    requires
        envelope.repair_rule(smaller, context) is Ok,
        smaller.ppm().value() <= larger_budget.ppm().value(),
    ensures
        envelope.repair_rule(larger_budget, context) is Ok,
{
}

/// A migration passes exactly if its tablet is protected, it goes between two nodes, it
/// is one of the candidates and, where fencing is required, the fence is valid and
/// current.
pub proof fn law_migrations_pass_behind_the_fence(
    envelope: SafetyEnvelope,
    action: ActionView,
    context: SafetyContextView,
)
    requires
        envelope.gate(action, context) is Ok,
        action is RecommendMigration,
    ensures
        action matches ActionView::RecommendMigration { recommendation, .. } ==> {
            let known = exists|i: int|
                0 <= i < context.migration_candidates.len() && #[trigger]
                    context.migration_candidates[i] == recommendation;
            envelope.verdict(action, context) is Ok <==> {
                &&& context.current_replicas >= envelope.minimum_redundancy
                &&& context.current_failure_domains >= envelope.minimum_failure_domains
                &&& recommendation.from != recommendation.to
                &&& known
                &&& envelope.require_migration_fencing ==> context.migration_fencing_valid
                    && recommendation.fence == context.current_fence
            }
        },
{
}

/// A split passes exactly if its tablet is the protected primary one, has no live plan,
/// is large enough and gets no more children than are allowed.
pub proof fn law_splits_pass_where_there_is_room(
    envelope: SafetyEnvelope,
    action: ActionView,
    context: SafetyContextView,
)
    requires
        envelope.gate(action, context) is Ok,
        action is RecommendTabletSplit,
    ensures
        action matches ActionView::RecommendTabletSplit { target, policy, .. } ==> {
            envelope.verdict(action, context) is Ok <==> {
                &&& context.current_replicas >= envelope.minimum_redundancy
                &&& context.current_failure_domains >= envelope.minimum_failure_domains
                &&& target == context.primary_target
                &&& !context.active_topology_tablets.contains(target)
                &&& policy.max_children <= envelope.maximum_split_children
                &&& context.target_logical_bytes >= policy.min_child_bytes
                &&& context.target_logical_bytes >= envelope.minimum_split_bytes
            }
        },
{
}

/// A merge passes exactly if its tablets are protected, are a known group of at least
/// two and at most what the policy takes, none of them has a live plan, they are large
/// enough together, and the table keeps more tablets than its minimum.
pub proof fn law_merges_pass_where_tablets_are_left(
    envelope: SafetyEnvelope,
    action: ActionView,
    context: SafetyContextView,
)
    requires
        envelope.gate(action, context) is Ok,
        action is RecommendTabletMerge,
    ensures
        action matches ActionView::RecommendTabletMerge { targets, policy, .. } ==> {
            let known = exists|i: int|
                0 <= i < context.merge_candidates.len() && (
                #[trigger] context.merge_candidates[i]).tablets == targets;
            envelope.verdict(action, context) is Ok <==> {
                &&& context.current_replicas >= envelope.minimum_redundancy
                &&& context.current_failure_domains >= envelope.minimum_failure_domains
                &&& known
                &&& 2 <= targets.len() <= policy.max_sources
                &&& forall|i: int|
                    0 <= i < targets.len() ==> !context.active_topology_tablets.contains(
                        #[trigger] targets[i],
                    )
                &&& context.target_combined_bytes >= policy.min_combined_bytes
                &&& context.target_combined_bytes >= envelope.minimum_merge_bytes
                &&& context.tablet_count > envelope.minimum_tablet_count
            }
        },
{
}

/// A redundancy preference passes exactly if it keeps enough copies or fragments in
/// enough failure domains.
pub proof fn law_redundancy_keeps_its_minimum(
    envelope: SafetyEnvelope,
    action: ActionView,
    context: SafetyContextView,
)
    requires
        envelope.gate(action, context) is Ok,
        action is ChangeRedundancyPreference,
    ensures
        action matches ActionView::ChangeRedundancyPreference {
            preference: RedundancyPreference::Replication(factor),
            ..
        } ==> (envelope.verdict(action, context) is Ok <==> factor.count()
            >= envelope.minimum_redundancy && context.current_failure_domains
            >= envelope.minimum_failure_domains),
        action matches ActionView::ChangeRedundancyPreference {
            preference: RedundancyPreference::ErasureCoding(layout),
            ..
        } ==> (layout.data_count() + layout.parity_count() <= 64 ==> (envelope.verdict(
            action,
            context,
        ) is Ok <==> layout.data_count() + layout.parity_count() >= envelope.minimum_redundancy
            && context.current_failure_domains >= envelope.minimum_failure_domains)),
{
}

/// A refusal names the first thing that is wrong: the scope, the confidence,
/// the age of the observation, the number of actions, and last their cost.
pub proof fn law_refusals_name_the_first_fault(
    envelope: SafetyEnvelope,
    action: ActionView,
    context: SafetyContextView,
)
    ensures
        ({
            let scoped = action.scope() == context.scope;
            let sure = context.confidence.rank() >= envelope.minimum_confidence.rank();
            let recent = context.freshness is Current && context.freshness_age.nanos
                <= envelope.maximum_freshness_age.nanos;
            let few = context.actions_in_window < envelope.maximum_actions_per_window;
            let verdict = envelope.verdict(action, context);
            &&& !scoped <==> verdict == Err::<(), _>(SafetyViolation::ScopeMismatch)
            &&& scoped && !sure <==> verdict == Err::<(), _>(SafetyViolation::LowConfidence)
            &&& scoped && sure && !recent <==> verdict == Err::<(), _>(
                SafetyViolation::StaleObservation,
            )
            &&& scoped && sure && recent && !few <==> verdict == Err::<(), _>(
                SafetyViolation::ActionRateCeiling,
            )
            &&& scoped && sure && recent && few
                && context.resource_cost_in_window.plus(action.cost()).above(
                envelope.maximum_resource_cost,
            ) <==> verdict == Err::<(), _>(SafetyViolation::ResourceCeiling)
        }),
{
}

} // verus!
