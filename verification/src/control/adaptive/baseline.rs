//! Deterministic observation-driven baseline controller.

use crate::bounded::{bounded_push, keep_newest, newest};
use crate::control::adaptive::action::{
    Action, ActionConflictKey, ActionConflictKeyView, ActionObservation, ActionReason, ActionView,
    ControllerSource,
};
use crate::control::adaptive::cooldown::{
    cooldown_views, forget, keys_ascend, law_remembered_is_recalled, lemma_newest_ascends,
    lemma_remembered_ascends, lemma_remembered_len, recall, recalled, remember, remembered,
    Cooldown, CooldownView,
};
use crate::control::adaptive::ledger::{DecisionTrace, DecisionTraceView, TraceStatus};
use crate::control::adaptive::observation::{
    ControllerFrame, ControllerFrameView, ObservationFeatures, ScopeSnapshot,
};
use crate::control::adaptive::policy::{
    ActionCost, ActionOutcome, ErasureCodingLayout, ExpectedBenefit, MaterializationIntent,
    MemoryBudget, RedundancyPreference, RepairBudget, ReplicationFactor, ScrubBudget,
    TabletMergePolicy, TabletSplitPolicy,
};
use crate::control::adaptive::safety::{
    SafetyContext, SafetyContextView, SafetyEnvelope, SafetyValidator, SafetyViolation,
};
use crate::control::adaptive::tuning::BaselineConfig;
use crate::ids::ObservationWindowId;
use vstd::prelude::*;

verus! {

/// For how many windows in a row each condition has held.
#[derive(Debug, Clone, Copy, PartialEq, Eq, Structural)]
pub struct WindowSignals {
    pub memory_high: u16,
    pub memory_low: u16,
    pub criticality: u16,
    pub repair_debt: u16,
    pub latency_bad: u16,
    pub imbalance: u16,
    pub many_hotspot: u16,
    pub cold_large: u16,
    pub hot_small: u16,
}

impl WindowSignals {
    /// No condition has held.
    pub open spec fn none() -> Self {
        WindowSignals {
            memory_high: 0,
            memory_low: 0,
            criticality: 0,
            repair_debt: 0,
            latency_bad: 0,
            imbalance: 0,
            many_hotspot: 0,
            cold_large: 0,
            hot_small: 0,
        }
    }

    fn zero() -> (signals: Self)
        ensures
            signals == Self::none(),
    {
        WindowSignals {
            memory_high: 0,
            memory_low: 0,
            criticality: 0,
            repair_debt: 0,
            latency_bad: 0,
            imbalance: 0,
            many_hotspot: 0,
            cold_large: 0,
            hot_small: 0,
        }
    }
}

/// A run length after one more window: one longer while the condition holds, else zero.
pub open spec fn counted(run: u16, holds: bool) -> u16 {
    if !holds {
        0
    } else if run == u16::MAX {
        run
    } else {
        (run + 1) as u16
    }
}

/// A run length above a threshold: the run starts at `enter` and goes on while the
/// value stays within `hysteresis` below it.
pub open spec fn counted_high(run: u16, observed: u32, enter: u32, hysteresis: u32) -> u16 {
    counted(
        run,
        if run > 0 {
            observed + hysteresis >= enter
        } else {
            observed >= enter
        },
    )
}

/// A run length below a threshold: the run starts at `enter` and goes on while the
/// value stays within `hysteresis` above it, one whole at most.
pub open spec fn counted_low(run: u16, observed: u32, enter: u32, hysteresis: u32) -> u16 {
    counted(
        run,
        if run > 0 {
            observed <= enter + hysteresis && observed <= 1_000_000
        } else {
            observed <= enter
        },
    )
}

fn update_count(run: u16, holds: bool) -> (next: u16)
    ensures
        next == counted(run, holds),
{
    if holds {
        if run == u16::MAX {
            run
        } else {
            run + 1
        }
    } else {
        0
    }
}

fn update_high(run: u16, observed: u32, enter: u32, hysteresis: u32) -> (next: u16)
    ensures
        next == counted_high(run, observed, enter, hysteresis),
{
    let release: u32 = enter.saturating_sub(hysteresis);
    update_count(
        run,
        if run > 0 {
            observed >= release
        } else {
            observed >= enter
        },
    )
}

fn update_low(run: u16, observed: u32, enter: u32, hysteresis: u32) -> (next: u16)
    ensures
        next == counted_low(run, observed, enter, hysteresis),
{
    let sum: u32 = enter.saturating_add(hysteresis);
    let release: u32 = if sum > 1_000_000 {
        1_000_000
    } else {
        sum
    };
    update_count(
        run,
        if run > 0 {
            observed <= release
        } else {
            observed <= enter
        },
    )
}

/// The run lengths of one window.
#[derive(Debug, Clone, Copy, PartialEq, Eq, Structural)]
pub struct WindowEntry {
    /// The window.
    pub window: ObservationWindowId,
    /// Run lengths up to it.
    pub signals: WindowSignals,
}

impl WindowSignals {
    /// The run lengths after a window with `features`.
    pub open spec fn after(self, features: ObservationFeatures, config: BaselineConfig) -> Self {
        WindowSignals {
            memory_high: counted_high(
                self.memory_high,
                features.memory_pressure_ppm,
                config.memory_pressure_high_ppm,
                config.hysteresis_ppm,
            ),
            memory_low: counted_low(
                self.memory_low,
                features.memory_pressure_ppm,
                config.memory_pressure_low_ppm,
                config.hysteresis_ppm,
            ),
            criticality: counted(
                self.criticality,
                features.criticality >= config.criticality_threshold,
            ),
            repair_debt: counted(
                self.repair_debt,
                features.repair_bytes >= config.repair_debt_bytes || features.repair_age.nanos
                    >= config.repair_debt_age.nanos,
            ),
            latency_bad: counted(
                self.latency_bad,
                features.latency_p99_ns >= config.latency_p99_ns,
            ),
            imbalance: counted(
                self.imbalance,
                features.worker_imbalance_ppm >= config.topology_imbalance_ppm
                    || features.tablet_imbalance_ppm >= config.topology_imbalance_ppm,
            ),
            many_hotspot: counted(self.many_hotspot, features.many_key_hotspot),
            cold_large: counted(self.cold_large, features.cold_large_assets),
            hot_small: counted(self.hot_small, features.hot_small_assets),
        }
    }

    fn advance(self, features: &ObservationFeatures, config: &BaselineConfig) -> (next: Self)
        ensures
            next == self.after(*features, *config),
    {
        WindowSignals {
            memory_high: update_high(
                self.memory_high,
                features.memory_pressure_ppm,
                config.memory_pressure_high_ppm,
                config.hysteresis_ppm,
            ),
            memory_low: update_low(
                self.memory_low,
                features.memory_pressure_ppm,
                config.memory_pressure_low_ppm,
                config.hysteresis_ppm,
            ),
            criticality: update_count(
                self.criticality,
                features.criticality >= config.criticality_threshold,
            ),
            repair_debt: update_count(
                self.repair_debt,
                features.repair_bytes >= config.repair_debt_bytes || features.repair_age.nanos
                    >= config.repair_debt_age.nanos,
            ),
            latency_bad: update_count(
                self.latency_bad,
                features.latency_p99_ns >= config.latency_p99_ns,
            ),
            imbalance: update_count(
                self.imbalance,
                features.worker_imbalance_ppm >= config.topology_imbalance_ppm
                    || features.tablet_imbalance_ppm >= config.topology_imbalance_ppm,
            ),
            many_hotspot: update_count(self.many_hotspot, features.many_key_hotspot),
            cold_large: update_count(self.cold_large, features.cold_large_assets),
            hot_small: update_count(self.hot_small, features.hot_small_assets),
        }
    }
}

/// How many windows a tuning remembers: at least one.
pub open spec fn window_capacity(config: BaselineConfig) -> nat {
    if config.max_tracked_windows >= 1 {
        config.max_tracked_windows as nat
    } else {
        1
    }
}

/// The window history after an observation. Observing the last window again changes
/// nothing; an observation from the past starts over.
pub open spec fn observed(
    history: Seq<WindowEntry>,
    window: ObservationWindowId,
    features: ObservationFeatures,
    config: BaselineConfig,
) -> Seq<WindowEntry> {
    if history.len() > 0 && history.last().window == window {
        history
    } else {
        let base = if history.len() > 0 && window.0 <= history.last().window.0 {
            Seq::empty()
        } else {
            history
        };
        let runs = current(base);
        bounded_push(
            base,
            WindowEntry { window, signals: runs.after(features, config) },
            window_capacity(config),
        )
    }
}

/// The run lengths up to the last window.
pub open spec fn current(history: Seq<WindowEntry>) -> WindowSignals {
    if history.len() > 0 {
        history.last().signals
    } else {
        WindowSignals::none()
    }
}

/// Whether a run is long enough to act on.
pub open spec fn lasting(run: u16, config: BaselineConfig) -> bool {
    run >= config.sustained_windows && run >= 1
}

fn is_lasting(run: u16, config: &BaselineConfig) -> (lasts: bool)
    ensures
        lasts == lasting(run, *config),
{
    run >= config.sustained_windows && run >= 1
}

/// What the controller reacts to, in order of priority.
pub open spec fn branch(
    signals: WindowSignals,
    features: ObservationFeatures,
    config: BaselineConfig,
) -> Option<ActionReason> {
    if lasting(signals.memory_high, config) {
        Some(ActionReason::SustainedMemoryPressure)
    } else if lasting(signals.memory_low, config) && lasting(signals.criticality, config) {
        Some(ActionReason::LowPressureCriticalPromotion)
    } else if lasting(signals.latency_bad, config) {
        Some(ActionReason::ForegroundLatencyProtection)
    } else if lasting(signals.repair_debt, config) {
        Some(ActionReason::SustainedRepairDebt)
    } else if lasting(signals.imbalance, config) {
        Some(ActionReason::PersistentTopologyImbalance)
    } else if lasting(signals.many_hotspot, config) && (features.memory_hotspot
        || features.storage_hotspot) {
        Some(ActionReason::ManyKeyHotspot)
    } else if lasting(signals.cold_large, config) {
        Some(ActionReason::ColdLargeAsset)
    } else if lasting(signals.hot_small, config) {
        Some(ActionReason::HotSmallAsset)
    } else {
        None
    }
}

fn branch_of(
    signals: &WindowSignals,
    features: &ObservationFeatures,
    config: &BaselineConfig,
) -> (reason:
    Option<ActionReason>)
    ensures
        reason == branch(*signals, *features, *config),
{
    if is_lasting(signals.memory_high, config) {
        Some(ActionReason::SustainedMemoryPressure)
    } else if is_lasting(signals.memory_low, config) && is_lasting(signals.criticality, config) {
        Some(ActionReason::LowPressureCriticalPromotion)
    } else if is_lasting(signals.latency_bad, config) {
        Some(ActionReason::ForegroundLatencyProtection)
    } else if is_lasting(signals.repair_debt, config) {
        Some(ActionReason::SustainedRepairDebt)
    } else if is_lasting(signals.imbalance, config) {
        Some(ActionReason::PersistentTopologyImbalance)
    } else if is_lasting(signals.many_hotspot, config) && (features.memory_hotspot
        || features.storage_hotspot) {
        Some(ActionReason::ManyKeyHotspot)
    } else if is_lasting(signals.cold_large, config) {
        Some(ActionReason::ColdLargeAsset)
    } else if is_lasting(signals.hot_small, config) {
        Some(ActionReason::HotSmallAsset)
    } else {
        None
    }
}

/// The reason that a decision on `branch` carries.
pub open spec fn reason_of(branch: Option<ActionReason>) -> ActionReason {
    match branch {
        Some(reason) => reason,
        None => ActionReason::SustainedMemoryPressure,
    }
}

/// Actions that passed so far, and why others did not.
#[verifier::ext_equal]
pub struct Screen {
    pub actions: Seq<ActionView>,
    pub violations: Seq<SafetyViolation>,
}

/// The cost of the window together with `actions`.
pub open spec fn window_cost(start: ActionCost, actions: Seq<ActionView>) -> ActionCost
    decreases actions.len(),
{
    if actions.len() == 0 {
        start
    } else {
        window_cost(start, actions.drop_last()).plus(actions.last().cost())
    }
}

/// `value`, capped at the largest `u32`.
pub open spec fn capped_u32(value: int) -> int {
    if value > u32::MAX {
        u32::MAX as int
    } else {
        value
    }
}

/// What a [`BaselineController`] holds.
#[verifier::ext_equal]
pub struct BaselineView {
    pub config: BaselineConfig,
    pub history: Seq<WindowEntry>,
    pub memory_budget: MemoryBudget,
    pub repair_budget: RepairBudget,
    pub scrub_budget: ScrubBudget,
    pub materialization: MaterializationIntent,
    pub cooldowns: Seq<CooldownView>,
}

/// What a [`BaselineProposal`] says.
#[verifier::ext_equal]
pub struct BaselineProposalView {
    pub actions: Seq<ActionView>,
    pub violations: Seq<SafetyViolation>,
    pub fallback: bool,
    pub trace: DecisionTraceView,
}

impl BaselineView {
    /// The remembered proposals are in the order of their keys.
    pub open spec fn well_formed(self) -> bool {
        keys_ascend(self.cooldowns)
    }

    /// The controller before it has observed anything.
    pub open spec fn initial(config: BaselineConfig) -> Self {
        BaselineView {
            config,
            history: Seq::empty(),
            memory_budget: config.initial_memory_budget,
            repair_budget: config.initial_repair_budget,
            scrub_budget: config.initial_scrub_budget,
            materialization: MaterializationIntent::Materialize,
            cooldowns: Seq::empty(),
        }
    }

    /// Whether `key` was proposed too few windows before `window`.
    pub open spec fn cooling(
        self,
        key: ActionConflictKeyView,
        window: ObservationWindowId,
    ) -> bool {
        match recalled(self.cooldowns, key) {
            Some(last) => {
                let elapsed: int = if window.0 >= last.0 {
                    window.0 - last.0
                } else {
                    0
                };
                elapsed < self.config.action_cooldown_windows
            },
            None => false,
        }
    }

    /// What memory pressure calls for: away from memory, and a smaller budget.
    pub open spec fn under_pressure(
        self,
        features: ObservationFeatures,
        context: SafetyContextView,
    ) -> Seq<
        ActionView,
    > {
        let shrink = ActionView::AdjustMemoryBudget {
            scope: context.scope,
            target: context.primary_target,
            budget: MemoryBudget::of(self.memory_budget.ppm().minus(self.config.memory_step)),
            expected_benefit: ExpectedBenefit::of(
                100_000,
                0,
                0,
                500_000,
                0,
                0,
                0,
                100_000,
                0,
                20_000,
            ),
        };
        if self.materialization != MaterializationIntent::Evict {
            seq![
                ActionView::ChangeMaterializationIntent {
                    scope: context.scope,
                    target: context.primary_target,
                    intent: if features.memory_pressure_ppm >= 900_000 {
                        MaterializationIntent::Evict
                    } else {
                        MaterializationIntent::Demote
                    },
                    expected_benefit: ExpectedBenefit::of(
                        500_000,
                        0,
                        0,
                        300_000,
                        0,
                        0,
                        0,
                        100_000,
                        0,
                        20_000,
                    ),
                },
                shrink,
            ]
        } else {
            seq![shrink]
        }
    }

    /// What critical work under low pressure calls for: into memory, or a larger budget.
    pub open spec fn under_ease(self, context: SafetyContextView) -> ActionView {
        let expected_benefit = ExpectedBenefit::of(
            500_000,
            200_000,
            0,
            0,
            0,
            0,
            0,
            100_000,
            0,
            20_000,
        );
        if self.materialization != MaterializationIntent::Materialize {
            ActionView::ChangeMaterializationIntent {
                scope: context.scope,
                target: context.primary_target,
                intent: MaterializationIntent::Materialize,
                expected_benefit,
            }
        } else {
            ActionView::AdjustMemoryBudget {
                scope: context.scope,
                target: context.primary_target,
                budget: MemoryBudget::of(self.memory_budget.ppm().plus(self.config.memory_step)),
                expected_benefit,
            }
        }
    }

    /// A smaller scrub budget.
    pub open spec fn less_scrub(self, context: SafetyContextView) -> ActionView {
        ActionView::AdjustScrubBudget {
            scope: context.scope,
            target: context.primary_target,
            budget: ScrubBudget::of(self.scrub_budget.ppm().minus(self.config.scrub_step)),
            expected_benefit: ExpectedBenefit::of(500_000, 0, 0, 0, 0, 0, 0, 100_000, 0, 50_000),
        }
    }

    /// A larger repair budget.
    pub open spec fn more_repair(self, context: SafetyContextView) -> ActionView {
        ActionView::AdjustRepairBudget {
            scope: context.scope,
            target: context.primary_target,
            budget: RepairBudget::of(self.repair_budget.ppm().plus(self.config.repair_step)),
            expected_benefit: ExpectedBenefit::of(0, 0, 0, 0, 0, 0, 500_000, 200_000, 0, 20_000),
        }
    }

    /// What imbalance calls for: the first migration candidate, or else the first
    /// merge candidate.
    pub open spec fn under_imbalance(self, context: SafetyContextView) -> Seq<ActionView> {
        if context.migration_candidates.len() > 0 {
            seq![
                ActionView::RecommendMigration {
                    scope: context.scope,
                    target: context.primary_target,
                    recommendation: context.migration_candidates[0],
                    expected_benefit: ExpectedBenefit::of(
                        200_000,
                        300_000,
                        0,
                        0,
                        0,
                        200_000,
                        0,
                        100_000,
                        300_000,
                        100_000,
                    ),
                },
            ]
        } else if context.merge_candidates.len() > 0 {
            match TabletMergePolicy::of(self.config.large_asset_bytes, 2) {
                Some(policy) => seq![
                    ActionView::RecommendTabletMerge {
                        scope: context.scope,
                        targets: context.merge_candidates[0].tablets,
                        policy,
                        expected_benefit: ExpectedBenefit::of(
                            0,
                            200_000,
                            100_000,
                            100_000,
                            100_000,
                            100_000,
                            0,
                            100_000,
                            200_000,
                            100_000,
                        ),
                    },
                ],
                None => Seq::empty(),
            }
        } else {
            Seq::empty()
        }
    }

    /// What a hotspot of many keys calls for: a split, unless one key dominates.
    pub open spec fn under_hotspot(
        self,
        features: ObservationFeatures,
        context: SafetyContextView,
    ) -> Seq<
        ActionView,
    > {
        match TabletSplitPolicy::of(self.config.large_asset_bytes / 2, 2) {
            Some(policy) => if features.strict_single_hot_key {
                Seq::empty()
            } else {
                seq![
                    ActionView::RecommendTabletSplit {
                        scope: context.scope,
                        target: context.primary_target,
                        policy,
                        expected_benefit: ExpectedBenefit::of(
                            500_000,
                            300_000,
                            0,
                            0,
                            0,
                            0,
                            0,
                            100_000,
                            200_000,
                            100_000,
                        ),
                    },
                ]
            },
            None => Seq::empty(),
        }
    }

    /// The candidate actions of a branch, in order.
    pub open spec fn candidates(
        self,
        branch: Option<ActionReason>,
        features: ObservationFeatures,
        context: SafetyContextView,
    ) -> Seq<ActionView> {
        match branch {
            Some(ActionReason::SustainedMemoryPressure) => self.under_pressure(features, context),
            Some(ActionReason::LowPressureCriticalPromotion) => seq![self.under_ease(context)],
            Some(ActionReason::ForegroundLatencyProtection) => seq![self.less_scrub(context)],
            Some(ActionReason::SustainedRepairDebt) => if context.foreground_latency_bad {
                seq![self.less_scrub(context)]
            } else {
                seq![self.more_repair(context)]
            },
            Some(ActionReason::PersistentTopologyImbalance) => self.under_imbalance(context),
            Some(ActionReason::ManyKeyHotspot) => self.under_hotspot(features, context),
            Some(ActionReason::ColdLargeAsset) => seq![
                ActionView::ChangeRedundancyPreference {
                    scope: context.scope,
                    target: context.primary_target,
                    preference: RedundancyPreference::ErasureCoding(ErasureCodingLayout::of(4, 2)),
                    expected_benefit: ExpectedBenefit::of(
                        0,
                        0,
                        100_000,
                        0,
                        500_000,
                        100_000,
                        0,
                        100_000,
                        0,
                        20_000,
                    ),
                },
            ],
            Some(ActionReason::HotSmallAsset) => seq![
                ActionView::ChangeRedundancyPreference {
                    scope: context.scope,
                    target: context.primary_target,
                    preference: RedundancyPreference::Replication(ReplicationFactor::of(3)),
                    expected_benefit: ExpectedBenefit::of(
                        200_000,
                        500_000,
                        0,
                        0,
                        0,
                        0,
                        0,
                        100_000,
                        0,
                        20_000,
                    ),
                },
            ],
            _ => Seq::empty(),
        }
    }

    /// The screen after one more candidate: rate and cost of the window first, then
    /// the safety verdict, then the cooldown, which drops without a violation.
    pub open spec fn screen_one(
        self,
        screen: Screen,
        action: ActionView,
        context: SafetyContextView,
        envelope: SafetyEnvelope,
        window: ObservationWindowId,
    ) -> Screen {
        if capped_u32(context.actions_in_window + screen.actions.len() + 1)
            > self.config.max_actions_per_window {
            Screen {
                violations: screen.violations.push(SafetyViolation::ActionRateCeiling),
                ..screen
            }
        } else if window_cost(context.resource_cost_in_window, screen.actions).plus(
            action.cost(),
        ).above(self.config.maximum_resource_cost) {
            Screen {
                violations: screen.violations.push(SafetyViolation::ResourceCeiling),
                ..screen
            }
        } else {
            match envelope.verdict(action, context) {
                Err(violation) => Screen {
                    violations: screen.violations.push(violation),
                    ..screen
                },
                Ok(_) => if self.cooling(action.conflict_key(), window) {
                    screen
                } else {
                    Screen { actions: screen.actions.push(action), ..screen }
                },
            }
        }
    }

    /// The screen after all candidates.
    pub open spec fn screened(
        self,
        candidates: Seq<ActionView>,
        context: SafetyContextView,
        envelope: SafetyEnvelope,
        window: ObservationWindowId,
    ) -> Screen
        decreases candidates.len(),
    {
        if candidates.len() == 0 {
            Screen { actions: Seq::empty(), violations: Seq::empty() }
        } else {
            self.screen_one(
                self.screened(candidates.drop_last(), context, envelope, window),
                candidates.last(),
                context,
                envelope,
                window,
            )
        }
    }

    /// The proposals after `actions` were proposed in `window`.
    pub open spec fn noted(
        cooldowns: Seq<CooldownView>,
        actions: Seq<ActionView>,
        window: ObservationWindowId,
    ) -> Seq<CooldownView>
        decreases actions.len(),
    {
        if actions.len() == 0 {
            cooldowns
        } else {
            remembered(
                Self::noted(cooldowns, actions.drop_last(), window),
                CooldownView { key: actions.last().conflict_key(), window },
            )
        }
    }

    /// The proposal of nothing, where there is too little to go by.
    pub open spec fn no_proposal(observation: ActionObservation) -> BaselineProposalView {
        BaselineProposalView {
            actions: Seq::empty(),
            violations: Seq::empty(),
            fallback: true,
            trace: DecisionTraceView::plain(
                observation,
                ControllerSource::Baseline,
                TraceStatus::Fallback,
                ActionReason::SustainedMemoryPressure,
                None,
            ),
        }
    }

    /// The proposal that follows from a screen.
    pub open spec fn proposal_of(
        screen: Screen,
        reason: ActionReason,
        observation: ActionObservation,
    ) -> BaselineProposalView {
        BaselineProposalView {
            actions: screen.actions,
            violations: screen.violations,
            fallback: screen.actions.len() == 0,
            trace: DecisionTraceView {
                safety_violation: if screen.violations.len() > 0 {
                    Some(screen.violations[0])
                } else {
                    None
                },
                ..DecisionTraceView::plain(
                    observation,
                    ControllerSource::Baseline,
                    if screen.actions.len() == 0 {
                        TraceStatus::Fallback
                    } else {
                        TraceStatus::Proposed
                    },
                    reason,
                    if screen.actions.len() > 0 {
                        Some(screen.actions[0].key())
                    } else {
                        None
                    },
                )
            },
        }
    }

    /// What a proposal on one frame makes of the controller, and what it returns.
    pub open spec fn proposed(
        self,
        frame: ControllerFrameView,
        context: SafetyContextView,
        envelope: SafetyEnvelope,
    ) -> (Self, BaselineProposalView) {
        match frame.target_scope(context.primary_target) {
            None => (self, Self::no_proposal(frame.identity())),
            Some(scope) => if scope.sample_count < self.config.min_samples
                || scope.confidence.rank() < self.config.minimum_confidence.rank() {
                (self, Self::no_proposal(frame.identity()))
            } else {
                let features = scope.features(self.config);
                let history = observed(self.history, frame.window, features, self.config);
                let chosen = branch(current(history), features, self.config);
                let screen = self.screened(
                    self.candidates(chosen, features, context),
                    context,
                    envelope,
                    frame.window,
                );
                (
                    BaselineView {
                        history,
                        cooldowns: newest(
                            Self::noted(self.cooldowns, screen.actions, frame.window),
                            self.config.max_tracked_windows as nat,
                        ),
                        ..self
                    },
                    Self::proposal_of(screen, reason_of(chosen), frame.identity()),
                )
            },
        }
    }

    /// The controller after an outcome: success installs the value of the action,
    /// failure steps back from it.
    pub open spec fn settled(self, action: ActionView, outcome: ActionOutcome) -> Self {
        let success = outcome.result.succeeded();
        match action {
            ActionView::AdjustMemoryBudget { budget, .. } => BaselineView {
                memory_budget: if success {
                    budget
                } else {
                    MemoryBudget::of(budget.ppm().plus(self.config.memory_step))
                },
                ..self
            },
            ActionView::AdjustRepairBudget { budget, .. } => BaselineView {
                repair_budget: if success {
                    budget
                } else {
                    RepairBudget::of(budget.ppm().minus(self.config.repair_step))
                },
                ..self
            },
            ActionView::AdjustScrubBudget { budget, .. } => BaselineView {
                scrub_budget: if success {
                    budget
                } else {
                    ScrubBudget::of(budget.ppm().plus(self.config.scrub_step))
                },
                ..self
            },
            ActionView::ChangeMaterializationIntent { intent, .. } => BaselineView {
                materialization: if success {
                    intent
                } else {
                    self.materialization
                },
                ..self
            },
            _ => self,
        }
    }
}

/// A baseline proposal and its explanation.
#[derive(Debug, Clone, PartialEq, Eq)]
pub struct BaselineProposal {
    /// Always the deterministic baseline source.
    pub source: ControllerSource,
    /// Validated actions in priority order.
    pub actions: Vec<Action>,
    /// Typed safety rejections encountered while forming the proposal.
    pub violations: Vec<SafetyViolation>,
    /// Whether fallback behavior was used.
    pub fallback: bool,
    /// Explanation for the selected branch.
    pub trace: DecisionTrace,
}

/// The views of a list of actions.
pub open spec fn action_views(actions: Seq<Action>) -> Seq<ActionView> {
    Seq::new(actions.len(), |i: int| actions[i]@)
}

impl View for BaselineProposal {
    type V = BaselineProposalView;

    open spec fn view(&self) -> BaselineProposalView {
        BaselineProposalView {
            actions: action_views(self.actions@),
            violations: self.violations@,
            fallback: self.fallback,
            trace: self.trace@,
        }
    }
}

/// Deterministic observation-driven baseline controller.
#[derive(Debug)]
pub struct BaselineController {
    pub(crate) config: BaselineConfig,
    pub(crate) history: Vec<WindowEntry>,
    pub(crate) memory_budget: MemoryBudget,
    pub(crate) repair_budget: RepairBudget,
    pub(crate) scrub_budget: ScrubBudget,
    pub(crate) materialization: MaterializationIntent,
    pub(crate) cooldowns: Vec<Cooldown>,
}

impl View for BaselineController {
    type V = BaselineView;

    open(crate) spec fn view(&self) -> BaselineView {
        BaselineView {
            config: self.config,
            history: self.history@,
            memory_budget: self.memory_budget,
            repair_budget: self.repair_budget,
            scrub_budget: self.scrub_budget,
            materialization: self.materialization,
            cooldowns: cooldown_views(self.cooldowns@),
        }
    }
}

impl Clone for BaselineController {
    fn clone(&self) -> (copy: Self)
        ensures
            copy@ == self@,
    {
        let mut history: Vec<WindowEntry> = Vec::new();
        let mut at: usize = 0;
        while at < self.history.len()
            invariant
                at <= self.history.len(),
                history@ == self.history@.take(at as int),
            decreases self.history.len() - at,
        {
            history.push(self.history[at]);
            at = at + 1;
            proof {
                assert(history@ =~= self.history@.take(at as int));
            }
        }
        let mut cooldowns: Vec<Cooldown> = Vec::new();
        let mut at: usize = 0;
        while at < self.cooldowns.len()
            invariant
                at <= self.cooldowns.len(),
                cooldown_views(cooldowns@) == cooldown_views(self.cooldowns@).take(at as int),
            decreases self.cooldowns.len() - at,
        {
            let ghost so_far = cooldowns@;
            cooldowns.push(self.cooldowns[at].clone());
            at = at + 1;
            proof {
                assert(cooldown_views(cooldowns@) =~= cooldown_views(so_far).push(
                    self.cooldowns@[at - 1]@,
                ));
                assert(cooldown_views(cooldowns@) =~= cooldown_views(self.cooldowns@).take(
                    at as int,
                ));
            }
        }
        proof {
            assert(self.history@.take(self.history.len() as int) =~= self.history@);
            let all = cooldown_views(self.cooldowns@);
            assert(all.take(at as int) =~= all);
        }
        BaselineController {
            config: self.config,
            history,
            memory_budget: self.memory_budget,
            repair_budget: self.repair_budget,
            scrub_budget: self.scrub_budget,
            materialization: self.materialization,
            cooldowns,
        }
    }
}

impl Default for BaselineController {
    fn default() -> (controller: Self)
        ensures
            controller@ == BaselineView::initial(BaselineConfig::standard()),
            controller@.well_formed(),
    {
        Self::new(BaselineConfig::default())
    }
}

fn expected(
    latency: u32,
    throughput: u32,
    resource: u32,
    memory: u32,
    storage: u32,
    network: u32,
    repair_debt: u32,
    durability_risk: u32,
    movement_cost: u32,
    churn: u32,
) -> (benefit: ExpectedBenefit)
    requires
        latency <= 1_000_000,
        throughput <= 1_000_000,
        resource <= 1_000_000,
        memory <= 1_000_000,
        storage <= 1_000_000,
        network <= 1_000_000,
        repair_debt <= 1_000_000,
        durability_risk <= 1_000_000,
        movement_cost <= 1_000_000,
        churn <= 1_000_000,
    ensures
        benefit == ExpectedBenefit::of(
            latency,
            throughput,
            resource,
            memory,
            storage,
            network,
            repair_debt,
            durability_risk,
            movement_cost,
            churn,
        ),
{
    match ExpectedBenefit::new(
        latency,
        throughput,
        resource,
        memory,
        storage,
        network,
        repair_debt,
        durability_risk,
        movement_cost,
        churn,
    ) {
        Some(benefit) => benefit,
        None => ExpectedBenefit::zero(),
    }
}

impl BaselineController {
    /// Creates a deterministic baseline controller.
    pub fn new(config: BaselineConfig) -> (controller: Self)
        ensures
            controller@ == BaselineView::initial(config),
            controller@.well_formed(),
    {
        let controller: BaselineController = BaselineController {
            config,
            history: Vec::new(),
            memory_budget: config.initial_memory_budget,
            repair_budget: config.initial_repair_budget,
            scrub_budget: config.initial_scrub_budget,
            materialization: MaterializationIntent::Materialize,
            cooldowns: Vec::new(),
        };
        proof {
            assert(controller@.cooldowns =~= Seq::empty());
        }
        controller
    }

    /// Returns the controller configuration.
    pub fn config(&self) -> (config: &BaselineConfig)
        ensures
            *config == self@.config,
    {
        &self.config
    }

    /// Returns the current bounded policy state.
    pub fn policy_state(&self) -> (state: (
        MemoryBudget,
        RepairBudget,
        ScrubBudget,
        MaterializationIntent,
    ))
        ensures
            state == (
                self@.memory_budget,
                self@.repair_budget,
                self@.scrub_budget,
                self@.materialization,
            ),
    {
        (self.memory_budget, self.repair_budget, self.scrub_budget, self.materialization)
    }

    fn observe(&mut self, window: ObservationWindowId, features: &ObservationFeatures)
        ensures
            final(self)@ == (BaselineView {
                history: observed(old(self)@.history, window, *features, old(self)@.config),
                ..old(self)@
            }),
    {
        if self.history.len() > 0 {
            let last: WindowEntry = self.history[self.history.len() - 1];
            if last.window == window {
                return;
            }
            if window.as_u64() <= last.window.as_u64() {
                self.history.clear();
            }
        }
        let runs: WindowSignals = self.current_signals();
        let signals: WindowSignals = runs.advance(features, &self.config);
        self.history.push(WindowEntry { window, signals });
        let cap: usize = if self.config.max_tracked_windows >= 1 {
            self.config.max_tracked_windows as usize
        } else {
            1
        };
        keep_newest(&mut self.history, cap);
    }

    fn current_signals(&self) -> (signals: WindowSignals)
        ensures
            signals == current(self@.history),
    {
        if self.history.len() > 0 {
            self.history[self.history.len() - 1].signals
        } else {
            WindowSignals::zero()
        }
    }

    fn pressure_candidates(
        &self,
        features: &ObservationFeatures,
        context: &SafetyContext,
    ) -> (actions:
        Vec<Action>)
        ensures
            action_views(actions@) == self@.under_pressure(*features, context@),
    {
        let mut actions: Vec<Action> = Vec::new();
        if self.materialization != MaterializationIntent::Evict {
            let intent: MaterializationIntent = if features.memory_pressure_ppm >= 900_000 {
                MaterializationIntent::Evict
            } else {
                MaterializationIntent::Demote
            };
            actions.push(
                Action::ChangeMaterializationIntent {
                    scope: context.scope,
                    target: context.primary_target,
                    intent,
                    expected_benefit: expected(500_000, 0, 0, 300_000, 0, 0, 0, 100_000, 0, 20_000),
                },
            );
        }
        actions.push(
            Action::AdjustMemoryBudget {
                scope: context.scope,
                target: context.primary_target,
                budget: self.memory_budget.saturating_sub(self.config.memory_step),
                expected_benefit: expected(100_000, 0, 0, 500_000, 0, 0, 0, 100_000, 0, 20_000),
            },
        );
        proof {
            assert(action_views(actions@) =~= self@.under_pressure(*features, context@));
        }
        actions
    }

    fn ease_candidate(&self, context: &SafetyContext) -> (action: Action)
        ensures
            action@ == self@.under_ease(context@),
    {
        let expected_benefit: ExpectedBenefit = expected(
            500_000,
            200_000,
            0,
            0,
            0,
            0,
            0,
            100_000,
            0,
            20_000,
        );
        if self.materialization != MaterializationIntent::Materialize {
            Action::ChangeMaterializationIntent {
                scope: context.scope,
                target: context.primary_target,
                intent: MaterializationIntent::Materialize,
                expected_benefit,
            }
        } else {
            Action::AdjustMemoryBudget {
                scope: context.scope,
                target: context.primary_target,
                budget: self.memory_budget.saturating_add(self.config.memory_step),
                expected_benefit,
            }
        }
    }

    fn scrub_candidate(&self, context: &SafetyContext) -> (action: Action)
        ensures
            action@ == self@.less_scrub(context@),
    {
        Action::AdjustScrubBudget {
            scope: context.scope,
            target: context.primary_target,
            budget: self.scrub_budget.saturating_sub(self.config.scrub_step),
            expected_benefit: expected(500_000, 0, 0, 0, 0, 0, 0, 100_000, 0, 50_000),
        }
    }

    fn repair_candidate(&self, context: &SafetyContext) -> (action: Action)
        ensures
            action@ == self@.more_repair(context@),
    {
        Action::AdjustRepairBudget {
            scope: context.scope,
            target: context.primary_target,
            budget: self.repair_budget.saturating_add(self.config.repair_step),
            expected_benefit: expected(0, 0, 0, 0, 0, 0, 500_000, 200_000, 0, 20_000),
        }
    }

    fn imbalance_candidates(&self, context: &SafetyContext) -> (actions: Vec<Action>)
        ensures
            action_views(actions@) == self@.under_imbalance(context@),
    {
        let mut actions: Vec<Action> = Vec::new();
        if context.migration_candidates.len() > 0 {
            actions.push(
                Action::RecommendMigration {
                    scope: context.scope,
                    target: context.primary_target,
                    recommendation: context.migration_candidates[0],
                    expected_benefit: expected(
                        200_000,
                        300_000,
                        0,
                        0,
                        0,
                        200_000,
                        0,
                        100_000,
                        300_000,
                        100_000,
                    ),
                },
            );
        } else if context.merge_candidates.len() > 0 {
            if let Some(policy) = TabletMergePolicy::new(self.config.large_asset_bytes, 2) {
                actions.push(
                    Action::RecommendTabletMerge {
                        scope: context.scope,
                        targets: context.merge_candidates[0].tablets.clone(),
                        policy,
                        expected_benefit: expected(
                            0,
                            200_000,
                            100_000,
                            100_000,
                            100_000,
                            100_000,
                            0,
                            100_000,
                            200_000,
                            100_000,
                        ),
                    },
                );
            }
        }
        proof {
            assert(action_views(actions@) =~= self@.under_imbalance(context@));
        }
        actions
    }

    fn hotspot_candidates(
        &self,
        features: &ObservationFeatures,
        context: &SafetyContext,
    ) -> (actions:
        Vec<Action>)
        ensures
            action_views(actions@) == self@.under_hotspot(*features, context@),
    {
        let mut actions: Vec<Action> = Vec::new();
        if !features.strict_single_hot_key {
            if let Some(policy) = TabletSplitPolicy::new(self.config.large_asset_bytes / 2, 2) {
                actions.push(
                    Action::RecommendTabletSplit {
                        scope: context.scope,
                        target: context.primary_target,
                        policy,
                        expected_benefit: expected(
                            500_000,
                            300_000,
                            0,
                            0,
                            0,
                            0,
                            0,
                            100_000,
                            200_000,
                            100_000,
                        ),
                    },
                );
            }
        }
        proof {
            assert(action_views(actions@) =~= self@.under_hotspot(*features, context@));
        }
        actions
    }

    fn redundancy_candidate(
        &self,
        preference: RedundancyPreference,
        expected_benefit: ExpectedBenefit,
        context: &SafetyContext,
    ) -> (action: Action)
        ensures
            action@ == (ActionView::ChangeRedundancyPreference {
                scope: context@.scope,
                target: context@.primary_target,
                preference,
                expected_benefit,
            }),
    {
        Action::ChangeRedundancyPreference {
            scope: context.scope,
            target: context.primary_target,
            preference,
            expected_benefit,
        }
    }

    fn candidates(
        &self,
        chosen: Option<ActionReason>,
        features: &ObservationFeatures,
        context: &SafetyContext,
    ) -> (actions: Vec<Action>)
        ensures
            action_views(actions@) == self@.candidates(chosen, *features, context@),
    {
        let mut actions: Vec<Action> = Vec::new();
        match chosen {
            Some(ActionReason::SustainedMemoryPressure) => {
                return self.pressure_candidates(features, context);
            },
            Some(ActionReason::LowPressureCriticalPromotion) => {
                actions.push(self.ease_candidate(context));
            },
            Some(ActionReason::ForegroundLatencyProtection) => {
                actions.push(self.scrub_candidate(context));
            },
            Some(ActionReason::SustainedRepairDebt) => {
                if context.foreground_latency_bad {
                    actions.push(self.scrub_candidate(context));
                } else {
                    actions.push(self.repair_candidate(context));
                }
            },
            Some(ActionReason::PersistentTopologyImbalance) => {
                return self.imbalance_candidates(context);
            },
            Some(ActionReason::ManyKeyHotspot) => {
                return self.hotspot_candidates(features, context);
            },
            Some(ActionReason::ColdLargeAsset) => {
                if let Some(layout) = ErasureCodingLayout::new(4, 2) {
                    actions.push(
                        self.redundancy_candidate(
                            RedundancyPreference::ErasureCoding(layout),
                            expected(0, 0, 100_000, 0, 500_000, 100_000, 0, 100_000, 0, 20_000),
                            context,
                        ),
                    );
                }
            },
            Some(ActionReason::HotSmallAsset) => {
                if let Some(factor) = ReplicationFactor::new(3) {
                    actions.push(
                        self.redundancy_candidate(
                            RedundancyPreference::Replication(factor),
                            expected(200_000, 500_000, 0, 0, 0, 0, 0, 100_000, 0, 20_000),
                            context,
                        ),
                    );
                }
            },
            _ => {},
        }
        proof {
            assert(action_views(actions@) =~= self@.candidates(chosen, *features, context@));
        }
        actions
    }

    fn cost_of(start: ActionCost, actions: &Vec<Action>) -> (cost: ActionCost)
        ensures
            cost == window_cost(start, action_views(actions@)),
    {
        let ghost views = action_views(actions@);
        let mut cost: ActionCost = start;
        let mut at: usize = 0;
        proof {
            assert(views.take(0) =~= Seq::empty());
        }
        while at < actions.len()
            invariant
                at <= actions.len(),
                views == action_views(actions@),
                cost == window_cost(start, views.take(at as int)),
            decreases actions.len() - at,
        {
            cost = cost.saturating_add(actions[at].estimated_cost());
            at = at + 1;
            proof {
                assert(views.take(at as int).drop_last() =~= views.take(at - 1));
                assert(views.take(at as int).last() == actions@[at - 1]@);
            }
        }
        proof {
            assert(views.take(at as int) =~= views);
        }
        cost
    }

    fn push_validated(
        &self,
        actions: &mut Vec<Action>,
        violations: &mut Vec<SafetyViolation>,
        action: Action,
        context: &SafetyContext,
        validator: &SafetyValidator,
        window: ObservationWindowId,
    )
        requires
            old(actions).len() < 4,
        ensures
            ({
                let before = Screen {
                    actions: action_views(old(actions)@),
                    violations: old(violations)@,
                };
                let after = Screen {
                    actions: action_views(final(actions)@),
                    violations: final(violations)@,
                };
                after == self@.screen_one(
                    before,
                    action@,
                    context@,
                    validator.limits_of(),
                    window,
                )
            }),
            final(actions).len() <= old(actions).len() + 1,
    {
        let ghost held = actions@;
        let proposed_count: u32 = context.actions_in_window.saturating_add(
            actions.len() as u32,
        ).saturating_add(1);
        if proposed_count > self.config.max_actions_per_window {
            violations.push(SafetyViolation::ActionRateCeiling);
            return;
        }
        let proposed_cost: ActionCost = Self::cost_of(context.resource_cost_in_window, actions);
        if proposed_cost.saturating_add(action.estimated_cost()).exceeds(
            self.config.maximum_resource_cost,
        ) {
            violations.push(SafetyViolation::ResourceCeiling);
            return;
        }
        if let Err(violation) = validator.validate(&action, context) {
            violations.push(violation);
            return;
        }
        let conflict: ActionConflictKey = action.conflict_key();
        let cooling: bool = match recall(&self.cooldowns, &conflict) {
            Some(last) => window.as_u64().saturating_sub(last.as_u64())
                < self.config.action_cooldown_windows,
            None => false,
        };
        if cooling {
            return;
        }
        actions.push(action);
        proof {
            assert(action_views(actions@) =~= action_views(held).push(action@));
        }
    }

    fn note(&mut self, actions: &Vec<Action>, window: ObservationWindowId)
        ensures
            final(self)@ == (BaselineView {
                cooldowns: newest(
                    BaselineView::noted(old(self)@.cooldowns, action_views(actions@), window),
                    old(self)@.config.max_tracked_windows as nat,
                ),
                ..old(self)@
            }),
            old(self)@.well_formed() ==> final(self)@.well_formed(),
    {
        let ghost before = self@;
        let ghost views = action_views(actions@);
        let mut at: usize = 0;
        proof {
            assert(views.take(0) =~= Seq::empty());
        }
        while at < actions.len()
            invariant
                at <= actions.len(),
                views == action_views(actions@),
                self@ == (BaselineView {
                    cooldowns: BaselineView::noted(before.cooldowns, views.take(at as int), window),
                    ..before
                }),
                before.well_formed() ==> self@.well_formed(),
            decreases actions.len() - at,
        {
            let ghost held = self@.cooldowns;
            remember(&mut self.cooldowns, actions[at].conflict_key(), window);
            at = at + 1;
            proof {
                assert(views.take(at as int).drop_last() =~= views.take(at - 1));
                assert(views.take(at as int).last() == actions@[at - 1]@);
                if before.well_formed() {
                    lemma_remembered_ascends(
                        held,
                        CooldownView { key: actions@[at - 1]@.conflict_key(), window },
                    );
                }
            }
        }
        proof {
            assert(views.take(at as int) =~= views);
            if before.well_formed() {
                lemma_newest_ascends(self@.cooldowns, self.config.max_tracked_windows as nat);
            }
        }
        let cap: usize = self.config.max_tracked_windows as usize;
        forget(&mut self.cooldowns, cap);
    }

    fn nothing(observation: ActionObservation) -> (proposal: BaselineProposal)
        ensures
            proposal@ == BaselineView::no_proposal(observation),
            proposal.source == ControllerSource::Baseline,
    {
        let proposal: BaselineProposal = BaselineProposal {
            source: ControllerSource::Baseline,
            actions: Vec::new(),
            violations: Vec::new(),
            fallback: true,
            trace: DecisionTrace::new(
                observation,
                ControllerSource::Baseline,
                TraceStatus::Fallback,
                ActionReason::SustainedMemoryPressure,
                None,
            ),
        };
        proof {
            assert(proposal@.actions =~= Seq::empty());
        }
        proposal
    }

    /// Proposes validated baseline actions for one observation frame.
    ///
    /// Every candidate goes through [`SafetyValidator::validate`].
    pub fn propose(
        &mut self,
        frame: &ControllerFrame,
        context: &SafetyContext,
        validator: &SafetyValidator,
    ) -> (proposal: BaselineProposal)
        ensures
            (final(self)@, proposal@) == old(self)@.proposed(
                frame@,
                context@,
                validator.limits_of(),
            ),
            proposal.source == ControllerSource::Baseline,
            old(self)@.well_formed() ==> final(self)@.well_formed(),
    {
        let ghost before = self@;
        let observation: ActionObservation = frame.action_observation();
        let snapshot: &ScopeSnapshot = match frame.target_snapshot(context.primary_target) {
            Some(snapshot) => snapshot,
            None => return Self::nothing(observation),
        };
        let features: ObservationFeatures = ObservationFeatures::from_snapshot(
            snapshot,
            &self.config,
        );
        if snapshot.sample_count < self.config.min_samples || snapshot.confidence.below(
            self.config.minimum_confidence,
        ) {
            return Self::nothing(observation);
        }
        self.observe(frame.window, &features);
        let signals: WindowSignals = self.current_signals();
        let chosen: Option<ActionReason> = branch_of(&signals, &features, &self.config);
        let reason: ActionReason = match chosen {
            Some(reason) => reason,
            None => ActionReason::SustainedMemoryPressure,
        };
        let candidates: Vec<Action> = self.candidates(chosen, &features, context);
        let ghost views = action_views(candidates@);
        proof {
            assert(views == before.candidates(chosen, features, context@));
            assert(candidates.len() == views.len());
            assert(candidates.len() <= 2);
        }
        let mut actions: Vec<Action> = Vec::new();
        let mut violations: Vec<SafetyViolation> = Vec::new();
        let mut at: usize = 0;
        proof {
            assert(views.take(0) =~= Seq::empty());
            assert(action_views(actions@) =~= Seq::empty());
            assert(violations@ =~= Seq::empty());
        }
        while at < candidates.len()
            invariant
                at <= candidates.len() <= 2,
                views == action_views(candidates@),
                actions.len() <= at,
                self@.cooldowns == before.cooldowns,
                self@.config == before.config,
                (Screen { actions: action_views(actions@), violations: violations@ })
                    == before.screened(
                    views.take(at as int),
                    context@,
                    validator.limits_of(),
                    frame.window,
                ),
            decreases candidates.len() - at,
        {
            self.push_validated(
                &mut actions,
                &mut violations,
                candidates[at].clone(),
                context,
                validator,
                frame.window,
            );
            at = at + 1;
            proof {
                assert(views.take(at as int).drop_last() =~= views.take(at - 1));
                assert(views.take(at as int).last() == candidates@[at - 1]@);
            }
        }
        proof {
            assert(views.take(at as int) =~= views);
        }
        self.note(&actions, frame.window);
        let first_key: Option<crate::control::adaptive::action::ActionKey> = if actions.len() > 0 {
            Some(actions[0].key())
        } else {
            None
        };
        let plain: DecisionTrace = DecisionTrace::new(
            observation,
            ControllerSource::Baseline,
            if actions.len() == 0 {
                TraceStatus::Fallback
            } else {
                TraceStatus::Proposed
            },
            reason,
            first_key,
        );
        let safety_violation: Option<SafetyViolation> = if violations.len() > 0 {
            Some(violations[0])
        } else {
            None
        };
        let trace: DecisionTrace = DecisionTrace { safety_violation, ..plain };
        let fallback: bool = actions.len() == 0;
        BaselineProposal {
            source: ControllerSource::Baseline,
            actions,
            violations,
            fallback,
            trace,
        }
    }

    /// Updates local policy state after an actuator outcome.
    pub fn on_outcome(&mut self, action: &Action, outcome: &ActionOutcome)
        ensures
            final(self)@ == old(self)@.settled(action@, *outcome),
    {
        if !outcome.result.is_success() {
            self.rollback_step(action);
            return;
        }
        match action {
            Action::AdjustMemoryBudget { budget, .. } => {
                self.memory_budget = *budget;
            },
            Action::ChangeMaterializationIntent { intent, .. } => {
                self.materialization = *intent;
            },
            Action::AdjustRepairBudget { budget, .. } => {
                self.repair_budget = *budget;
            },
            Action::AdjustScrubBudget { budget, .. } => {
                self.scrub_budget = *budget;
            },
            _ => {},
        }
    }

    fn rollback_step(&mut self, action: &Action)
        ensures
            forall|outcome: ActionOutcome|
                !outcome.result.succeeded() ==> final(self)@ == #[trigger] old(self)@.settled(
                    action@,
                    outcome,
                ),
    {
        match action {
            Action::AdjustMemoryBudget { budget, .. } => {
                self.memory_budget = budget.saturating_add(self.config.memory_step);
            },
            Action::AdjustRepairBudget { budget, .. } => {
                self.repair_budget = budget.saturating_sub(self.config.repair_step);
            },
            Action::AdjustScrubBudget { budget, .. } => {
                self.scrub_budget = budget.saturating_add(self.config.scrub_step);
            },
            _ => {},
        }
    }
}

proof fn lemma_screened_actions_pass(
    controller: BaselineView,
    candidates: Seq<ActionView>,
    context: SafetyContextView,
    envelope: SafetyEnvelope,
    window: ObservationWindowId,
    i: int,
)
    requires
        0 <= i < controller.screened(candidates, context, envelope, window).actions.len(),
    ensures
        ({
            let action = controller.screened(candidates, context, envelope, window).actions[i];
            &&& envelope.verdict(action, context) is Ok
            &&& !controller.cooling(action.conflict_key(), window)
            &&& exists|k: int| 0 <= k < candidates.len() && #[trigger] candidates[k] == action
        }),
    decreases candidates.len(),
{
    if candidates.len() > 0 {
        let front = candidates.drop_last();
        let before = controller.screened(front, context, envelope, window);
        let after = controller.screened(candidates, context, envelope, window);
        if i < before.actions.len() {
            lemma_screened_actions_pass(controller, front, context, envelope, window, i);
            assert(after.actions[i] == before.actions[i]);
            let k = choose|k: int| 0 <= k < front.len() && #[trigger] front[k] == before.actions[i];
            assert(candidates[k] == after.actions[i]);
        } else {
            assert(candidates[candidates.len() - 1] == after.actions[i]);
        }
    }
}

proof fn lemma_screened_len(
    controller: BaselineView,
    candidates: Seq<ActionView>,
    context: SafetyContextView,
    envelope: SafetyEnvelope,
    window: ObservationWindowId,
)
    ensures
        controller.screened(candidates, context, envelope, window).actions.len()
            + controller.screened(candidates, context, envelope, window).violations.len()
            <= candidates.len(),
    decreases candidates.len(),
{
    if candidates.len() > 0 {
        lemma_screened_len(controller, candidates.drop_last(), context, envelope, window);
    }
}

/// Every proposed action passed the safety verdict and was not cooling down.
pub proof fn law_proposed_actions_are_safe(
    controller: BaselineView,
    frame: ControllerFrameView,
    context: SafetyContextView,
    envelope: SafetyEnvelope,
    i: int,
)
    requires
        0 <= i < controller.proposed(frame, context, envelope).1.actions.len(),
    ensures
        envelope.verdict(
            controller.proposed(frame, context, envelope).1.actions[i],
            context,
        ) is Ok,
        !controller.cooling(
            controller.proposed(frame, context, envelope).1.actions[i].conflict_key(),
            frame.window,
        ),
{
    let features = frame.target_scope(context.primary_target)->0.features(controller.config);
    let history = observed(controller.history, frame.window, features, controller.config);
    let chosen = branch(current(history), features, controller.config);
    lemma_screened_actions_pass(
        controller,
        controller.candidates(chosen, features, context),
        context,
        envelope,
        frame.window,
        i,
    );
}

/// A proposal never touches the policy state: budgets and intent change only with an
/// outcome.
pub proof fn law_proposals_keep_policy_state(
    controller: BaselineView,
    frame: ControllerFrameView,
    context: SafetyContextView,
    envelope: SafetyEnvelope,
)
    ensures
        ({
            let after = controller.proposed(frame, context, envelope).0;
            &&& after.config == controller.config
            &&& after.memory_budget == controller.memory_budget
            &&& after.repair_budget == controller.repair_budget
            &&& after.scrub_budget == controller.scrub_budget
            &&& after.materialization == controller.materialization
        }),
{
}

/// A proposal holds at most two actions, all of them inside the scope of the context.
pub proof fn law_proposals_are_small(
    controller: BaselineView,
    frame: ControllerFrameView,
    context: SafetyContextView,
    envelope: SafetyEnvelope,
)
    ensures
        controller.proposed(frame, context, envelope).1.actions.len() <= 2,
        controller.proposed(frame, context, envelope).1.fallback
            == (controller.proposed(frame, context, envelope).1.actions.len() == 0),
{
    if frame.target_scope(context.primary_target) is Some {
        let features = frame.target_scope(context.primary_target)->0.features(controller.config);
        let history = observed(controller.history, frame.window, features, controller.config);
        let chosen = branch(current(history), features, controller.config);
        lemma_screened_len(
            controller,
            controller.candidates(chosen, features, context),
            context,
            envelope,
            frame.window,
        );
    }
}

/// A single window never suffices where more are asked for: after the first
/// observation nothing lasts, and nothing is proposed.
pub proof fn law_first_window_proposes_nothing(
    config: BaselineConfig,
    frame: ControllerFrameView,
    context: SafetyContextView,
    envelope: SafetyEnvelope,
)
    requires
        config.sustained_windows > 1,
    ensures
        BaselineView::initial(config).proposed(frame, context, envelope).1.actions.len() == 0,
{
    let controller = BaselineView::initial(config);
    if frame.target_scope(context.primary_target) is Some {
        let features = frame.target_scope(context.primary_target)->0.features(config);
        let history = observed(controller.history, frame.window, features, config);
        assert(history.last().signals == WindowSignals::none().after(features, config));
        let chosen = branch(current(history), features, config);
        assert(chosen is None);
        lemma_screened_len(
            controller,
            controller.candidates(chosen, features, context),
            context,
            envelope,
            frame.window,
        );
    }
}

/// Observing the same window again changes nothing.
pub proof fn law_window_is_observed_once(
    history: Seq<WindowEntry>,
    window: ObservationWindowId,
    features: ObservationFeatures,
    again: ObservationFeatures,
    config: BaselineConfig,
)
    ensures
        observed(observed(history, window, features, config), window, again, config) == observed(
            history,
            window,
            features,
            config,
        ),
{
    let once = observed(history, window, features, config);
    assert(once.len() > 0 && once.last().window == window);
}

/// A failed step is undone: stepping down and failing restores the budget, as long as
/// the step did not hit the floor.
pub proof fn law_failed_memory_step_is_undone(
    controller: BaselineView,
    features: ObservationFeatures,
    context: SafetyContextView,
    outcome: ActionOutcome,
)
    requires
        !outcome.result.succeeded(),
        controller.memory_budget.ppm().value() <= 1_000_000,
        controller.memory_budget.ppm().value() >= controller.config.memory_step.value(),
    ensures
        controller.settled(
            controller.under_pressure(features, context).last(),
            outcome,
        ).memory_budget == controller.memory_budget,
{
}

/// Every proposed action is one of the candidates of the branch that the run lengths of
/// the window select.
proof fn lemma_proposed_actions_are_candidates(
    controller: BaselineView,
    frame: ControllerFrameView,
    context: SafetyContextView,
    envelope: SafetyEnvelope,
    i: int,
)
    requires
        0 <= i < controller.proposed(frame, context, envelope).1.actions.len(),
    ensures
        ({
            let proposal = controller.proposed(frame, context, envelope).1;
            let features = frame.target_scope(context.primary_target)->0.features(
                controller.config,
            );
            let candidates = controller.candidates(
                Some(proposal.trace.reason),
                features,
                context,
            );
            exists|k: int|
                0 <= k < candidates.len() && #[trigger] candidates[k] == proposal.actions[i]
        }),
{
    let features = frame.target_scope(context.primary_target)->0.features(controller.config);
    let history = observed(controller.history, frame.window, features, controller.config);
    let chosen = branch(current(history), features, controller.config);
    lemma_screened_actions_pass(
        controller,
        controller.candidates(chosen, features, context),
        context,
        envelope,
        frame.window,
        i,
    );
}

/// A proposal that reacts to lasting bad foreground latency only takes from scrubbing:
/// every action of it sets a scrub budget that is no larger than the current one, one
/// whole step smaller where the budget allows the step, and zero where it does not.
pub proof fn law_latency_protection_scrubs_less(
    controller: BaselineView,
    frame: ControllerFrameView,
    context: SafetyContextView,
    envelope: SafetyEnvelope,
    i: int,
)
    requires
        0 <= i < controller.proposed(frame, context, envelope).1.actions.len(),
        controller.proposed(frame, context, envelope).1.trace.reason
            is ForegroundLatencyProtection,
    ensures
        ({
            let held = controller.scrub_budget.ppm().value();
            let step = controller.config.scrub_step.value();
            &&& controller.proposed(frame, context, envelope).1.actions[i] matches
                ActionView::AdjustScrubBudget { scope, target, budget, .. }
            &&& scope == context.scope
            &&& target == context.primary_target
            &&& budget.ppm().value() <= held
            &&& held >= step ==> budget.ppm().value() == held - step
            &&& held < step ==> budget.ppm().value() == 0
        }),
{
    lemma_proposed_actions_are_candidates(controller, frame, context, envelope, i);
}

/// A proposal that reacts to lasting repair debt speeds repair up by one step, up to one
/// whole, unless the foreground suffers: it then takes a step from scrubbing instead.
pub proof fn law_repair_debt_is_paid(
    controller: BaselineView,
    frame: ControllerFrameView,
    context: SafetyContextView,
    envelope: SafetyEnvelope,
    i: int,
)
    requires
        0 <= i < controller.proposed(frame, context, envelope).1.actions.len(),
        controller.proposed(frame, context, envelope).1.trace.reason is SustainedRepairDebt,
    ensures
        ({
            let action = controller.proposed(frame, context, envelope).1.actions[i];
            let held = controller.repair_budget.ppm().value();
            let step = controller.config.repair_step.value();
            let scrub = controller.scrub_budget.ppm().value();
            let scrub_step = controller.config.scrub_step.value();
            &&& !context.foreground_latency_bad ==> (action matches
                ActionView::AdjustRepairBudget { scope, target, budget, .. } && scope
                == context.scope && target == context.primary_target && (held + step
                <= 1_000_000 ==> budget.ppm().value() == held + step) && (held + step
                > 1_000_000 ==> budget.ppm().value() == 1_000_000))
            &&& context.foreground_latency_bad ==> (action matches
                ActionView::AdjustScrubBudget { budget, .. } && budget.ppm().value() <= scrub && (
            scrub >= scrub_step ==> budget.ppm().value() == scrub - scrub_step))
        }),
{
    lemma_proposed_actions_are_candidates(controller, frame, context, envelope, i);
}

/// A proposal that reacts to lasting memory pressure only moves out of memory: it never
/// materializes and never grants more memory. A budget that it sets is one step smaller
/// where there is a step to take, and an intent that it sets evicts under extreme
/// pressure and demotes under less.
pub proof fn law_pressure_frees_memory(
    controller: BaselineView,
    frame: ControllerFrameView,
    context: SafetyContextView,
    envelope: SafetyEnvelope,
    i: int,
)
    requires
        0 <= i < controller.proposed(frame, context, envelope).1.actions.len(),
        controller.proposed(frame, context, envelope).1.trace.reason is SustainedMemoryPressure,
    ensures
        ({
            let action = controller.proposed(frame, context, envelope).1.actions[i];
            let held = controller.memory_budget.ppm().value();
            let step = controller.config.memory_step.value();
            let pressure = frame.target_scope(context.primary_target)->0.features(
                controller.config,
            ).memory_pressure_ppm;
            ||| (action matches ActionView::AdjustMemoryBudget { scope, target, budget, .. }
                && scope == context.scope && target == context.primary_target
                && budget.ppm().value() <= held && (held >= step ==> budget.ppm().value() == held
                - step))
            ||| (action matches ActionView::ChangeMaterializationIntent {
                scope,
                target,
                intent,
                ..
            } && scope == context.scope && target == context.primary_target
                && !(controller.materialization is Evict) && (pressure >= 900_000 ==> intent
                is Evict) && (pressure < 900_000 ==> intent is Demote))
        }),
{
    lemma_proposed_actions_are_candidates(controller, frame, context, envelope, i);
}

/// A proposal that promotes critical work under low pressure only moves into memory: it
/// materializes what is not materialized yet, and otherwise grants one step more, up to
/// one whole.
pub proof fn law_ease_fills_memory(
    controller: BaselineView,
    frame: ControllerFrameView,
    context: SafetyContextView,
    envelope: SafetyEnvelope,
    i: int,
)
    requires
        0 <= i < controller.proposed(frame, context, envelope).1.actions.len(),
        controller.proposed(frame, context, envelope).1.trace.reason
            is LowPressureCriticalPromotion,
    ensures
        ({
            let action = controller.proposed(frame, context, envelope).1.actions[i];
            let held = controller.memory_budget.ppm().value();
            let step = controller.config.memory_step.value();
            &&& !(controller.materialization is Materialize) ==> (action matches
                ActionView::ChangeMaterializationIntent { target, intent, .. } && target
                == context.primary_target && intent is Materialize)
            &&& controller.materialization is Materialize ==> (action matches
                ActionView::AdjustMemoryBudget { target, budget, .. } && target
                == context.primary_target && (held + step <= 1_000_000 ==> budget.ppm().value()
                == held + step) && (held + step > 1_000_000 ==> budget.ppm().value()
                == 1_000_000))
        }),
{
    lemma_proposed_actions_are_candidates(controller, frame, context, envelope, i);
}

/// A proposal on topology or assets says what its reason calls for: an imbalance moves the
/// first candidate or merges the first candidate group, a hotspot of many keys splits
/// and never where one key dominates, a cold large asset is erasure coded and a hot small
/// one is replicated.
pub proof fn law_topology_and_assets_follow_their_reason(
    controller: BaselineView,
    frame: ControllerFrameView,
    context: SafetyContextView,
    envelope: SafetyEnvelope,
    i: int,
)
    requires
        0 <= i < controller.proposed(frame, context, envelope).1.actions.len(),
    ensures
        ({
            let reason = controller.proposed(frame, context, envelope).1.trace.reason;
            let action = controller.proposed(frame, context, envelope).1.actions[i];
            let features = frame.target_scope(context.primary_target)->0.features(
                controller.config,
            );
            &&& reason is PersistentTopologyImbalance && context.migration_candidates.len() > 0
                ==> (action matches ActionView::RecommendMigration { recommendation, .. }
                && recommendation == context.migration_candidates[0])
            &&& reason is PersistentTopologyImbalance && context.migration_candidates.len() == 0
                ==> (action matches ActionView::RecommendTabletMerge { targets, .. }
                && context.merge_candidates.len() > 0 && targets
                == context.merge_candidates[0].tablets)
            &&& reason is ManyKeyHotspot ==> (action matches ActionView::RecommendTabletSplit {
                target,
                ..
            } && target == context.primary_target && !features.strict_single_hot_key)
            &&& reason is ColdLargeAsset ==> (action matches
                ActionView::ChangeRedundancyPreference {
                target,
                preference: RedundancyPreference::ErasureCoding(layout),
                ..
            } && target == context.primary_target && layout.data_count() == 4
                && layout.parity_count() == 2)
            &&& reason is HotSmallAsset ==> (action matches
                ActionView::ChangeRedundancyPreference {
                target,
                preference: RedundancyPreference::Replication(factor),
                ..
            } && target == context.primary_target && factor.count() == 3)
        }),
{
    lemma_proposed_actions_are_candidates(controller, frame, context, envelope, i);
}

/// The reason of a proposal with actions is the first in order of priority whose
/// condition has lasted, counting the window of the frame: memory pressure before
/// promotion, then foreground latency, repair debt, imbalance, a hotspot of many keys,
/// cold large assets and hot small ones.
pub proof fn law_reasons_have_lasted(
    controller: BaselineView,
    frame: ControllerFrameView,
    context: SafetyContextView,
    envelope: SafetyEnvelope,
)
    requires
        controller.proposed(frame, context, envelope).1.actions.len() > 0,
    ensures
        ({
            let after = controller.proposed(frame, context, envelope).0;
            let reason = controller.proposed(frame, context, envelope).1.trace.reason;
            let runs = after.history.last().signals;
            let least = if controller.config.sustained_windows >= 1 {
                controller.config.sustained_windows
            } else {
                1u16
            };
            let promoted = runs.memory_low >= least && runs.criticality >= least;
            &&& after.history.len() > 0
            &&& after.history.last().window == frame.window
            &&& reason is SustainedMemoryPressure <==> runs.memory_high >= least
            &&& reason is LowPressureCriticalPromotion <==> promoted && runs.memory_high < least
            &&& reason is ForegroundLatencyProtection ==> runs.latency_bad >= least
            &&& reason is SustainedRepairDebt ==> runs.repair_debt >= least
            &&& reason is PersistentTopologyImbalance ==> runs.imbalance >= least
            &&& reason is ManyKeyHotspot ==> runs.many_hotspot >= least
            &&& reason is ColdLargeAsset ==> runs.cold_large >= least
            &&& reason is HotSmallAsset ==> runs.hot_small >= least
            &&& runs.memory_high < least && !promoted ==> {
                &&& runs.latency_bad >= least ==> reason is ForegroundLatencyProtection
                &&& runs.latency_bad < least && runs.repair_debt >= least ==> reason
                    is SustainedRepairDebt
                &&& runs.latency_bad < least && runs.repair_debt < least && runs.imbalance
                    >= least ==> reason is PersistentTopologyImbalance
                &&& runs.hot_small >= least && runs.cold_large >= least ==> !(reason
                    is HotSmallAsset)
                &&& runs.imbalance >= least ==> !(reason is ManyKeyHotspot || reason
                    is ColdLargeAsset || reason is HotSmallAsset)
            }
        }),
{
    let features = frame.target_scope(context.primary_target)->0.features(controller.config);
    let history = observed(controller.history, frame.window, features, controller.config);
    let chosen = branch(current(history), features, controller.config);
    assert(history.len() > 0 && history.last().window == frame.window);
    lemma_screened_len(
        controller,
        controller.candidates(chosen, features, context),
        context,
        envelope,
        frame.window,
    );
}

/// Nothing is held back without a reason: where foreground latency has been bad for long
/// enough, and nothing of higher priority lasts, the proposal takes a step from
/// scrubbing, or says which bound or rule forbids it, or scrubbing was adjusted too
/// recently.
pub proof fn law_lasting_latency_is_answered(
    controller: BaselineView,
    frame: ControllerFrameView,
    context: SafetyContextView,
    envelope: SafetyEnvelope,
)
    requires
        frame.target_scope(context.primary_target) matches Some(scope) && scope.sample_count
            >= controller.config.min_samples && scope.confidence.rank()
            >= controller.config.minimum_confidence.rank(),
        controller.config.sustained_windows >= 1,
        ({
            let runs = controller.proposed(frame, context, envelope).0.history.last().signals;
            let least = controller.config.sustained_windows;
            runs.latency_bad >= least && runs.memory_high < least && runs.memory_low < least
        }),
    ensures
        ({
            let proposal = controller.proposed(frame, context, envelope).1;
            let key = controller.less_scrub(context).conflict_key();
            &&& proposal.trace.reason is ForegroundLatencyProtection
            &&& proposal.actions.len() + proposal.violations.len() <= 1
            &&& proposal.actions.len() == 0 ==> proposal.violations.len() == 1
                || controller.cooling(key, frame.window)
        }),
{
    let features = frame.target_scope(context.primary_target)->0.features(controller.config);
    let history = observed(controller.history, frame.window, features, controller.config);
    let chosen = branch(current(history), features, controller.config);
    assert(history.len() > 0);
    let candidates = controller.candidates(chosen, features, context);
    assert(candidates =~= seq![controller.less_scrub(context)]);
    assert(candidates.drop_last() =~= Seq::empty());
    reveal_with_fuel(BaselineView::screened, 2);
}

/// A run grows by one while its condition holds and starts over when it does not. Memory
/// pressure starts a run at its threshold and keeps it within the hysteresis.
pub proof fn law_runs_follow_their_conditions(
    runs: WindowSignals,
    features: ObservationFeatures,
    config: BaselineConfig,
)
    requires
        runs.memory_high < u16::MAX,
        runs.memory_low < u16::MAX,
        runs.criticality < u16::MAX,
        runs.repair_debt < u16::MAX,
        runs.latency_bad < u16::MAX,
        runs.imbalance < u16::MAX,
        runs.many_hotspot < u16::MAX,
        runs.cold_large < u16::MAX,
        runs.hot_small < u16::MAX,
    ensures
        ({
            let after = runs.after(features, config);
            let pressure = features.memory_pressure_ppm;
            let high = config.memory_pressure_high_ppm;
            let low = config.memory_pressure_low_ppm;
            &&& pressure >= high ==> after.memory_high == runs.memory_high + 1
            &&& pressure < high && runs.memory_high == 0 ==> after.memory_high == 0
            &&& pressure < high && runs.memory_high > 0 && high - pressure <= config.hysteresis_ppm
                ==> after.memory_high == runs.memory_high + 1
            &&& pressure < high && high - pressure > config.hysteresis_ppm ==> after.memory_high
                == 0
            &&& pressure <= low && pressure <= 1_000_000 ==> after.memory_low == runs.memory_low
                + 1
            &&& pressure > low && runs.memory_low == 0 ==> after.memory_low == 0
            &&& low < pressure <= 1_000_000 && runs.memory_low > 0 && pressure - low
                <= config.hysteresis_ppm ==> after.memory_low == runs.memory_low + 1
            &&& pressure > low && pressure - low > config.hysteresis_ppm ==> after.memory_low == 0
            &&& features.criticality >= config.criticality_threshold ==> after.criticality
                == runs.criticality + 1
            &&& features.criticality < config.criticality_threshold ==> after.criticality == 0
            &&& features.repair_bytes >= config.repair_debt_bytes ==> after.repair_debt
                == runs.repair_debt + 1
            &&& features.repair_age.nanos >= config.repair_debt_age.nanos ==> after.repair_debt
                == runs.repair_debt + 1
            &&& features.repair_bytes < config.repair_debt_bytes && features.repair_age.nanos
                < config.repair_debt_age.nanos ==> after.repair_debt == 0
            &&& features.latency_p99_ns >= config.latency_p99_ns ==> after.latency_bad
                == runs.latency_bad + 1
            &&& features.latency_p99_ns < config.latency_p99_ns ==> after.latency_bad == 0
            &&& features.worker_imbalance_ppm >= config.topology_imbalance_ppm ==> after.imbalance
                == runs.imbalance + 1
            &&& features.tablet_imbalance_ppm >= config.topology_imbalance_ppm ==> after.imbalance
                == runs.imbalance + 1
            &&& features.worker_imbalance_ppm < config.topology_imbalance_ppm
                && features.tablet_imbalance_ppm < config.topology_imbalance_ppm
                ==> after.imbalance == 0
            &&& features.many_key_hotspot ==> after.many_hotspot == runs.many_hotspot + 1
            &&& !features.many_key_hotspot ==> after.many_hotspot == 0
            &&& features.cold_large_assets ==> after.cold_large == runs.cold_large + 1
            &&& !features.cold_large_assets ==> after.cold_large == 0
            &&& features.hot_small_assets ==> after.hot_small == runs.hot_small + 1
            &&& !features.hot_small_assets ==> after.hot_small == 0
        }),
{
}

/// A later window goes on from the one before it; a window from the past starts every
/// run anew, and nothing of the time after it is kept.
pub proof fn law_windows_go_forward(
    history: Seq<WindowEntry>,
    window: ObservationWindowId,
    features: ObservationFeatures,
    config: BaselineConfig,
)
    requires
        config.max_tracked_windows >= 1,
        history.len() <= config.max_tracked_windows,
    ensures
        ({
            let after = observed(history, window, features, config);
            &&& after.len() > 0
            &&& after.last().window == window
            &&& after.len() <= config.max_tracked_windows
            &&& history.len() > 0 && window.0 > history.last().window.0 ==> after.last().signals
                == history.last().signals.after(features, config)
            &&& history.len() > 0 && window.0 < history.last().window.0 ==> after.len() == 1
                && after.last().signals == WindowSignals::none().after(features, config)
            &&& history.len() > 0 && window.0 > history.last().window.0 && history.len()
                < config.max_tracked_windows ==> after.drop_last() == history
        }),
{
    let after = observed(history, window, features, config);
    if history.len() > 0 && window.0 > history.last().window.0 && history.len()
        < config.max_tracked_windows {
        assert(after.drop_last() =~= history);
    }
}

/// Success puts the value of the action in force and leaves the rest of the controller
/// alone.
pub proof fn law_success_installs_the_action(
    controller: BaselineView,
    action: ActionView,
    outcome: ActionOutcome,
)
    requires
        outcome.result.succeeded(),
    ensures
        ({
            let after = controller.settled(action, outcome);
            &&& action matches ActionView::AdjustMemoryBudget { budget, .. } ==> after
                == (BaselineView { memory_budget: budget, ..controller })
            &&& action matches ActionView::AdjustRepairBudget { budget, .. } ==> after
                == (BaselineView { repair_budget: budget, ..controller })
            &&& action matches ActionView::AdjustScrubBudget { budget, .. } ==> after
                == (BaselineView { scrub_budget: budget, ..controller })
            &&& action matches ActionView::ChangeMaterializationIntent { intent, .. } ==> after
                == (BaselineView { materialization: intent, ..controller })
            &&& !(action is AdjustMemoryBudget || action is AdjustRepairBudget || action
                is AdjustScrubBudget || action is ChangeMaterializationIntent) ==> after
                == controller
        }),
{
}

/// A failed step of a proposal is undone: the budget is again what it was before the
/// step, and the intent stays, as long as the step did not hit a bound.
pub proof fn law_failed_steps_are_undone(
    controller: BaselineView,
    frame: ControllerFrameView,
    context: SafetyContextView,
    envelope: SafetyEnvelope,
    i: int,
    outcome: ActionOutcome,
)
    requires
        !outcome.result.succeeded(),
        0 <= i < controller.proposed(frame, context, envelope).1.actions.len(),
        !(controller.proposed(frame, context, envelope).1.trace.reason
            is LowPressureCriticalPromotion),
        controller.config.memory_step.value() <= controller.memory_budget.ppm().value()
            <= 1_000_000,
        controller.config.scrub_step.value() <= controller.scrub_budget.ppm().value()
            <= 1_000_000,
        controller.repair_budget.ppm().value() + controller.config.repair_step.value()
            <= 1_000_000,
    ensures
        controller.settled(
            controller.proposed(frame, context, envelope).1.actions[i],
            outcome,
        ) == controller,
{
    lemma_proposed_actions_are_candidates(controller, frame, context, envelope, i);
}

/// Without enough samples, or enough confidence in them, the controller proposes nothing
/// and forgets nothing.
pub proof fn law_thin_observations_change_nothing(
    controller: BaselineView,
    frame: ControllerFrameView,
    context: SafetyContextView,
    envelope: SafetyEnvelope,
)
    requires
        frame.target_scope(context.primary_target) matches Some(scope) ==> scope.sample_count
            < controller.config.min_samples || scope.confidence.rank()
            < controller.config.minimum_confidence.rank(),
    ensures
        controller.proposed(frame, context, envelope).0 == controller,
        controller.proposed(frame, context, envelope).1.actions.len() == 0,
        controller.proposed(frame, context, envelope).1.violations.len() == 0,
        controller.proposed(frame, context, envelope).1.fallback,
        controller.proposed(frame, context, envelope).1.trace.status is Fallback,
{
}

/// What a proposal reports is what it did: its first refusal and its first action are
/// those of its trace.
pub proof fn law_proposals_are_traced(
    controller: BaselineView,
    frame: ControllerFrameView,
    context: SafetyContextView,
    envelope: SafetyEnvelope,
)
    ensures
        ({
            let proposal = controller.proposed(frame, context, envelope).1;
            &&& proposal.actions.len() > 0 ==> proposal.trace.status is Proposed
                && proposal.trace.action_key == Some(proposal.actions[0].key())
            &&& proposal.actions.len() == 0 ==> proposal.trace.status is Fallback
                && proposal.trace.action_key is None
            &&& proposal.violations.len() > 0 ==> proposal.trace.safety_violation == Some(
                proposal.violations[0],
            )
            &&& proposal.violations.len() == 0 ==> proposal.trace.safety_violation is None
            &&& proposal.trace.source is Baseline
            &&& proposal.trace.sequence == frame.sequence
            &&& proposal.trace.window == frame.window
            &&& proposal.trace.version == frame.version
            &&& !proposal.trace.fallback
            &&& proposal.trace.ledger_rejection is None
        }),
{
}

/// A proposed action rests: for the cooldown after its window, the controller proposes
/// nothing with the same conflict key, and from then on the key does not stand in the
/// way. (A memory that is too small for the key may forget it.)
pub proof fn law_proposals_cool_down(
    controller: BaselineView,
    frame: ControllerFrameView,
    context: SafetyContextView,
    envelope: SafetyEnvelope,
    later: ControllerFrameView,
    next: SafetyContextView,
    i: int,
)
    requires
        controller.well_formed(),
        controller.cooldowns.len() < controller.config.max_tracked_windows,
        controller.proposed(frame, context, envelope).1.actions.len() == 1,
        later.window.0 >= frame.window.0,
        0 <= i < controller.proposed(frame, context, envelope).0.proposed(
            later,
            next,
            envelope,
        ).1.actions.len(),
    ensures
        ({
            let after = controller.proposed(frame, context, envelope).0;
            let key = controller.proposed(frame, context, envelope).1.actions[0].conflict_key();
            let rest = controller.config.action_cooldown_windows;
            &&& after.proposed(later, next, envelope).1.actions[i].conflict_key() == key
                ==> later.window.0 - frame.window.0 >= rest
            &&& after.cooling(key, later.window) <==> later.window.0 - frame.window.0 < rest
        }),
{
    let actions = controller.proposed(frame, context, envelope).1.actions;
    let entry = CooldownView { key: actions[0].conflict_key(), window: frame.window };
    let after = controller.proposed(frame, context, envelope).0;
    law_remembered_is_recalled(controller.cooldowns, entry);
    lemma_remembered_len(controller.cooldowns, entry);
    assert(actions.drop_last() =~= Seq::empty());
    reveal_with_fuel(BaselineView::noted, 2);
    assert(BaselineView::noted(controller.cooldowns, actions, frame.window) == remembered(
        controller.cooldowns,
        entry,
    ));
    law_proposed_actions_are_safe(after, later, next, envelope, i);
}

/// An action promises what its reason is for: less latency under latency protection,
/// less repair debt under repair debt, room in memory under pressure, latency and
/// throughput under a promotion and a hotspot, storage for a cold asset and throughput
/// for a hot one. None of them is free: each admits some churn.
pub proof fn law_actions_promise_what_they_are_for(
    controller: BaselineView,
    frame: ControllerFrameView,
    context: SafetyContextView,
    envelope: SafetyEnvelope,
    i: int,
)
    requires
        0 <= i < controller.proposed(frame, context, envelope).1.actions.len(),
    ensures
        ({
            let reason = controller.proposed(frame, context, envelope).1.trace.reason;
            let action = controller.proposed(frame, context, envelope).1.actions[i];
            let gain = action.benefit();
            &&& gain.churn.value() >= 20_000
            &&& reason is ForegroundLatencyProtection ==> gain == ExpectedBenefit::of(
                500_000,
                0,
                0,
                0,
                0,
                0,
                0,
                100_000,
                0,
                50_000,
            )
            &&& reason is SustainedRepairDebt && !context.foreground_latency_bad ==> gain
                == ExpectedBenefit::of(0, 0, 0, 0, 0, 0, 500_000, 200_000, 0, 20_000)
            &&& reason is SustainedMemoryPressure && action is AdjustMemoryBudget ==> gain
                == ExpectedBenefit::of(100_000, 0, 0, 500_000, 0, 0, 0, 100_000, 0, 20_000)
            &&& reason is SustainedMemoryPressure && !(action is AdjustMemoryBudget) ==> gain
                == ExpectedBenefit::of(500_000, 0, 0, 300_000, 0, 0, 0, 100_000, 0, 20_000)
            &&& reason is LowPressureCriticalPromotion ==> gain == ExpectedBenefit::of(
                500_000,
                200_000,
                0,
                0,
                0,
                0,
                0,
                100_000,
                0,
                20_000,
            )
            &&& action is RecommendMigration ==> gain == ExpectedBenefit::of(
                200_000,
                300_000,
                0,
                0,
                0,
                200_000,
                0,
                100_000,
                300_000,
                100_000,
            )
            &&& action is RecommendTabletMerge ==> gain == ExpectedBenefit::of(
                0,
                200_000,
                100_000,
                100_000,
                100_000,
                100_000,
                0,
                100_000,
                200_000,
                100_000,
            )
            &&& action is RecommendTabletSplit ==> gain == ExpectedBenefit::of(
                500_000,
                300_000,
                0,
                0,
                0,
                0,
                0,
                100_000,
                200_000,
                100_000,
            )
            &&& reason is ColdLargeAsset ==> gain == ExpectedBenefit::of(
                0,
                0,
                100_000,
                0,
                500_000,
                100_000,
                0,
                100_000,
                0,
                20_000,
            )
            &&& reason is HotSmallAsset ==> gain == ExpectedBenefit::of(
                200_000,
                500_000,
                0,
                0,
                0,
                0,
                0,
                100_000,
                0,
                20_000,
            )
        }),
{
    lemma_proposed_actions_are_candidates(controller, frame, context, envelope, i);
}

/// A split asks for children of half a large asset at least and a merge for a large asset
/// at least, both in two parts.
pub proof fn law_topology_sizes_follow_the_tuning(
    controller: BaselineView,
    frame: ControllerFrameView,
    context: SafetyContextView,
    envelope: SafetyEnvelope,
    i: int,
)
    requires
        0 <= i < controller.proposed(frame, context, envelope).1.actions.len(),
    ensures
        ({
            let action = controller.proposed(frame, context, envelope).1.actions[i];
            let large = controller.config.large_asset_bytes;
            &&& action matches ActionView::RecommendTabletSplit { policy, .. } ==> {
                &&& policy.max_children == 2
                &&& 2 * policy.min_child_bytes <= large <= 2 * policy.min_child_bytes + 1
                &&& policy.min_child_bytes > 0
            }
            &&& action matches ActionView::RecommendTabletMerge { policy, .. } ==> {
                &&& policy.max_sources == 2
                &&& policy.min_combined_bytes == large
                &&& large > 0
            }
        }),
{
    lemma_proposed_actions_are_candidates(controller, frame, context, envelope, i);
}

/// A window never gets more actions than its ceiling: the proposal and what the window
/// already had stay within it, and so does their cost, which the last action is counted
/// into.
pub proof fn law_proposals_respect_the_window(
    controller: BaselineView,
    candidates: Seq<ActionView>,
    context: SafetyContextView,
    envelope: SafetyEnvelope,
    window: ObservationWindowId,
)
    ensures
        ({
            let actions = controller.screened(candidates, context, envelope, window).actions;
            &&& actions.len() > 0 && context.actions_in_window + actions.len() <= u32::MAX
                ==> context.actions_in_window + actions.len()
                <= controller.config.max_actions_per_window
            &&& actions.len() > 0 ==> !window_cost(
                context.resource_cost_in_window,
                actions,
            ).above(controller.config.maximum_resource_cost)
        }),
    decreases candidates.len(),
{
    if candidates.len() > 0 {
        let front = candidates.drop_last();
        law_proposals_respect_the_window(controller, front, context, envelope, window);
        let before = controller.screened(front, context, envelope, window).actions;
        let after = controller.screened(candidates, context, envelope, window).actions;
        if after.len() > before.len() {
            assert(after.drop_last() =~= before);
        }
    }
}

/// Where nothing stands in the way, every candidate is proposed: within the ceilings of
/// the window, safe, and not cooling down.
pub proof fn law_unopposed_candidates_are_proposed(
    controller: BaselineView,
    screen: Screen,
    action: ActionView,
    context: SafetyContextView,
    envelope: SafetyEnvelope,
    window: ObservationWindowId,
)
    requires
        context.actions_in_window + screen.actions.len() + 1
            <= controller.config.max_actions_per_window,
        !window_cost(context.resource_cost_in_window, screen.actions).plus(action.cost()).above(
            controller.config.maximum_resource_cost,
        ),
        envelope.verdict(action, context) is Ok,
        recalled(controller.cooldowns, action.conflict_key()) matches Some(last) ==> window.0
            >= last.0 && window.0 - last.0 >= controller.config.action_cooldown_windows,
    ensures
        controller.screen_one(screen, action, context, envelope, window).actions
            == screen.actions.push(action),
        controller.screen_one(screen, action, context, envelope, window).violations
            == screen.violations,
{
}

/// A hotspot of many keys is acted on only where memory or storage is hot too, and then
/// before any asset; a cold large asset comes before a hot small one.
pub proof fn law_hotspots_come_before_assets(
    controller: BaselineView,
    frame: ControllerFrameView,
    context: SafetyContextView,
    envelope: SafetyEnvelope,
)
    requires
        controller.proposed(frame, context, envelope).1.actions.len() > 0,
    ensures
        ({
            let after = controller.proposed(frame, context, envelope).0;
            let reason = controller.proposed(frame, context, envelope).1.trace.reason;
            let runs = after.history.last().signals;
            let features = frame.target_scope(context.primary_target)->0.features(
                controller.config,
            );
            let hot = features.memory_hotspot || features.storage_hotspot;
            let least = if controller.config.sustained_windows >= 1 {
                controller.config.sustained_windows
            } else {
                1u16
            };
            &&& reason is ManyKeyHotspot ==> hot
            &&& runs.many_hotspot >= least && hot ==> !(reason is ColdLargeAsset || reason
                is HotSmallAsset)
            &&& reason is HotSmallAsset ==> runs.cold_large < least
            &&& !(reason is LearnedAlternative)
        }),
{
    let features = frame.target_scope(context.primary_target)->0.features(controller.config);
    let history = observed(controller.history, frame.window, features, controller.config);
    let chosen = branch(current(history), features, controller.config);
    assert(history.len() > 0 && history.last().window == frame.window);
    lemma_screened_len(
        controller,
        controller.candidates(chosen, features, context),
        context,
        envelope,
        frame.window,
    );
}

/// A candidate that is held back is refused for the first of: the number of actions, their
/// cost, its safety. One that only cools down is dropped without a word. What passed
/// before it stays.
pub proof fn law_candidates_are_held_back_for_a_reason(
    controller: BaselineView,
    screen: Screen,
    action: ActionView,
    context: SafetyContextView,
    envelope: SafetyEnvelope,
    window: ObservationWindowId,
)
    requires
        context.actions_in_window + screen.actions.len() + 1 <= u32::MAX,
    ensures
        ({
            let after = controller.screen_one(screen, action, context, envelope, window);
            let many = context.actions_in_window + screen.actions.len()
                >= controller.config.max_actions_per_window;
            let dear = window_cost(context.resource_cost_in_window, screen.actions).plus(
                action.cost(),
            ).above(controller.config.maximum_resource_cost);
            let verdict = envelope.verdict(action, context);
            &&& many ==> after.actions == screen.actions && after.violations
                == screen.violations.push(SafetyViolation::ActionRateCeiling)
            &&& !many && dear ==> after.actions == screen.actions && after.violations
                == screen.violations.push(SafetyViolation::ResourceCeiling)
            &&& !many && !dear && verdict is Err ==> after.actions == screen.actions
                && after.violations == screen.violations.push(verdict->Err_0)
            &&& !many && !dear && verdict is Ok && controller.cooling(
                action.conflict_key(),
                window,
            ) ==> after == screen
        }),
{
}

} // verus!
