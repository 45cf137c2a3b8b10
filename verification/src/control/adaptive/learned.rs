//! Lightweight optional learned controller.
//!
//! The learned controller only ever suggests: its suggestions are shadow actions, each
//! of which has passed the same safety verdict as a baseline action.

use crate::control::adaptive::action::{
    Action, ActionKey, ActionObservation, ActionReason, ActionView, ControllerSource,
};
use crate::control::adaptive::baseline::action_views;
use crate::control::adaptive::ledger::{view_option, DecisionTrace, DecisionTraceView, TraceStatus};
use crate::control::adaptive::model::{
    LearnedModel, LearnedModelView, ModelDecodeError, MODEL_FEATURE_COUNT,
};
use crate::control::adaptive::observation::{
    ControllerFrame, ControllerFrameView, ObservationFeatures,
};
use crate::control::adaptive::policy::{
    capped_sum, ActionOutcome, ExpectedBenefit, MaterializationIntent, MemoryBudget, Ppm,
    RepairBudget, ScrubBudget,
};
use crate::control::adaptive::safety::{
    SafetyContext, SafetyContextView, SafetyEnvelope, SafetyValidator, SafetyViolation,
};
use crate::control::adaptive::tuning::BaselineConfig;
use crate::arith::{clamped, divide_truncated, truncated_quotient};
use vstd::prelude::*;

verus! {

/// Learned-controller tuning and persistence limits.
#[derive(Debug, Clone, Copy, PartialEq, Eq, Structural)]
pub struct LearnedConfig {
    /// Minimum samples before a learned choice can leave fallback mode.
    pub minimum_samples: u64,
    /// Maximum normalized uncertainty before falling back.
    pub maximum_uncertainty_ppm: u32,
    /// Bounded exploration step in policy parts per million.
    pub exploration_step: Ppm,
    /// Number of deterministic alternatives considered.
    pub alternative_count: usize,
    /// Online update rate in parts per million.
    pub learning_rate_ppm: u32,
    /// Maximum retained model samples.
    pub maximum_samples: u64,
}

impl LearnedConfig {
    /// The tuning that a controller starts with.
    pub open spec fn standard() -> Self {
        LearnedConfig {
            minimum_samples: 32,
            maximum_uncertainty_ppm: 250_000,
            exploration_step: Ppm::of(50_000),
            alternative_count: 3,
            learning_rate_ppm: 10_000,
            maximum_samples: 1_000_000,
        }
    }
}

impl Default for LearnedConfig {
    fn default() -> (config: Self)
        ensures
            config == Self::standard(),
    {
        LearnedConfig {
            minimum_samples: 32,
            maximum_uncertainty_ppm: 250_000,
            exploration_step: Ppm { parts: 50_000 },
            alternative_count: 3,
            learning_rate_ppm: 10_000,
            maximum_samples: 1_000_000,
        }
    }
}

/// Learned model disable reason.
#[derive(Debug, Clone, Copy, PartialEq, Eq, Hash, Structural)]
pub enum ModelDisableReason {
    /// Too few valid samples.
    InsufficientSamples,
    /// Uncertainty exceeded the configured threshold.
    HighUncertainty,
    /// Persisted data was corrupt.
    CorruptModel,
    /// Persisted data used an incompatible format version.
    IncompatibleModel,
    /// A caller explicitly disabled the model.
    ExplicitlyDisabled,
}

/// Result of loading a versioned learned model.
#[derive(Debug, Clone, Copy, PartialEq, Eq, Hash, Structural)]
pub enum ModelLoadStatus {
    /// Valid model was loaded.
    Loaded,
    /// Empty input retained the current model.
    Empty,
    /// Unsupported version retained the current model.
    Incompatible,
    /// Corrupt input retained the current model.
    Corrupt,
}

/// Report returned by model loading.
#[derive(Debug, Clone, Copy, PartialEq, Eq, Structural)]
pub struct ModelLoadReport {
    /// Load classification.
    pub status: ModelLoadStatus,
    /// Whether the model is disabled after loading.
    pub disabled: bool,
}

/// A learned shadow decision.
#[derive(Debug, Clone, PartialEq, Eq)]
pub struct LearnedDecision {
    /// Learned source identity.
    pub source: ControllerSource,
    /// Safe alternative, if one was found.
    pub action: Option<Action>,
    /// Whether baseline behavior was retained.
    pub fallback_to_baseline: bool,
    /// Normalized model uncertainty.
    pub uncertainty_ppm: u32,
    /// Typed safety rejection for a rejected alternative.
    pub violation: Option<SafetyViolation>,
    /// Explanation trace.
    pub trace: DecisionTrace,
}

/// What a [`LearnedDecision`] says.
#[verifier::ext_equal]
pub struct LearnedDecisionView {
    pub action: Option<ActionView>,
    pub fallback_to_baseline: bool,
    pub uncertainty_ppm: int,
    pub violation: Option<SafetyViolation>,
    pub trace: DecisionTraceView,
}

impl View for LearnedDecision {
    type V = LearnedDecisionView;

    open spec fn view(&self) -> LearnedDecisionView {
        LearnedDecisionView {
            action: view_option(self.action),
            fallback_to_baseline: self.fallback_to_baseline,
            uncertainty_ppm: self.uncertainty_ppm as int,
            violation: self.violation,
            trace: self.trace@,
        }
    }
}

/// `value` as an `i32`, capped at the largest one.
pub open spec fn feature(value: int) -> i32 {
    if value > i32::MAX {
        i32::MAX
    } else {
        value as i32
    }
}

fn to_feature(value: u64) -> (capped: i32)
    ensures
        capped == feature(value as int),
{
    if value > i32::MAX as u64 {
        i32::MAX
    } else {
        value as i32
    }
}

/// The number by which the model tells actions of one kind apart.
pub open spec fn action_feature(action: ActionView) -> i32 {
    match action {
        ActionView::AdjustMemoryBudget { budget, .. } => feature(
            (budget.ppm().value() / 100_000) as int,
        ),
        ActionView::ChangeMaterializationIntent { intent, .. } => match intent {
            MaterializationIntent::Materialize => 1,
            MaterializationIntent::KeepWarm => 2,
            MaterializationIntent::Demote => 3,
            MaterializationIntent::Evict => 4,
        },
        ActionView::ChangeRedundancyPreference { preference, .. } => preference.count() as i32,
        ActionView::AdjustRepairBudget { budget, .. } => feature(
            (budget.ppm().value() / 100_000) as int,
        ),
        ActionView::AdjustScrubBudget { budget, .. } => feature(
            (budget.ppm().value() / 100_000) as int,
        ),
        ActionView::RecommendTabletSplit { policy, .. } => feature(
            policy.max_children + policy.min_child_bytes / 1_000_000,
        ),
        ActionView::RecommendTabletMerge { policy, .. } => feature(
            policy.max_sources + policy.min_combined_bytes / 1_000_000,
        ),
        ActionView::RecommendMigration { recommendation, .. } => feature(
            (recommendation.max_bytes / 1_000_000) as int,
        ),
    }
}

fn learned_action_feature(action: &Action) -> (value: i32)
    ensures
        value == action_feature(action@),
{
    match action {
        Action::AdjustMemoryBudget { budget, .. } => to_feature(
            budget.as_ppm().as_u64() / 100_000,
        ),
        Action::ChangeMaterializationIntent { intent, .. } => match *intent {
            MaterializationIntent::Materialize => 1,
            MaterializationIntent::KeepWarm => 2,
            MaterializationIntent::Demote => 3,
            MaterializationIntent::Evict => 4,
        },
        Action::ChangeRedundancyPreference { preference, .. } => preference.fragment_count() as i32,
        Action::AdjustRepairBudget { budget, .. } => to_feature(
            budget.as_ppm().as_u64() / 100_000,
        ),
        Action::AdjustScrubBudget { budget, .. } => to_feature(budget.as_ppm().as_u64() / 100_000),
        Action::RecommendTabletSplit { policy, .. } => to_feature(
            policy.max_children as u64 + policy.min_child_bytes / 1_000_000,
        ),
        Action::RecommendTabletMerge { policy, .. } => to_feature(
            policy.max_sources as u64 + policy.min_combined_bytes / 1_000_000,
        ),
        Action::RecommendMigration { recommendation, .. } => to_feature(
            recommendation.max_bytes / 1_000_000,
        ),
    }
}

/// The larger of two numbers.
pub open spec fn larger_u32(a: u32, b: u32) -> u32 {
    if a >= b {
        a
    } else {
        b
    }
}

/// The features that the model weighs for `action` on one frame.
pub open spec fn feature_vector(
    frame: ControllerFrameView,
    context: SafetyContextView,
    action: ActionView,
) -> Seq<i32> {
    match frame.target_scope(context.primary_target) {
        None => seq![0i32, 0, 0, 0, 0, 0, 0, 0, 0, 0, action_feature(action)],
        Some(scope) => {
            let f = scope.features(BaselineConfig::standard());
            seq![
                feature((f.memory_pressure_ppm / 100_000) as int),
                feature(f.criticality as int),
                feature((f.repair_bytes / 1_000_000) as int),
                feature((f.latency_p99_ns / 1_000_000) as int),
                feature(f.throughput as int),
                feature((f.resident_bytes / 1_000_000) as int),
                feature(
                    larger_u32(
                        f.worker_imbalance_ppm / 100_000,
                        f.tablet_imbalance_ppm / 100_000,
                    ) as int,
                ),
                feature(f.hot_key_count as int),
                feature((f.top_key_share_ppm / 100_000) as int),
                feature(
                    (capped_sum(f.storage_read_bytes, f.storage_written_bytes) / 1_000_000) as int,
                ),
                action_feature(action),
            ]
        },
    }
}

fn learned_features(frame: &ControllerFrame, context: &SafetyContext, action: &Action) -> (values:
    Vec<i32>)
    ensures
        values@ == feature_vector(frame@, context@, action@),
        values.len() == MODEL_FEATURE_COUNT,
{
    let own: i32 = learned_action_feature(action);
    let mut values: Vec<i32> = Vec::new();
    match frame.target_snapshot(context.primary_target) {
        None => {
            let mut at: usize = 0;
            while at < 10
                invariant
                    at <= 10,
                    values.len() == at,
                    forall|i: int| 0 <= i < at ==> values@[i] == 0,
                decreases 10 - at,
            {
                values.push(0);
                at = at + 1;
            }
        },
        Some(snapshot) => {
            let f: ObservationFeatures = ObservationFeatures::from_snapshot(
                snapshot,
                &BaselineConfig::default(),
            );
            let worker: u32 = f.worker_imbalance_ppm / 100_000;
            let tablet: u32 = f.tablet_imbalance_ppm / 100_000;
            values.push(to_feature((f.memory_pressure_ppm / 100_000) as u64));
            values.push(to_feature(f.criticality));
            values.push(to_feature(f.repair_bytes / 1_000_000));
            values.push(to_feature(f.latency_p99_ns / 1_000_000));
            values.push(to_feature(f.throughput));
            values.push(to_feature(f.resident_bytes / 1_000_000));
            values.push(
                to_feature(
                    (if worker >= tablet {
                        worker
                    } else {
                        tablet
                    }) as u64,
                ),
            );
            values.push(to_feature(f.hot_key_count as u64));
            values.push(to_feature((f.top_key_share_ppm / 100_000) as u64));
            values.push(
                to_feature(
                    f.storage_read_bytes.saturating_add(f.storage_written_bytes) / 1_000_000,
                ),
            );
        },
    }
    values.push(own);
    proof {
        assert(values@ =~= feature_vector(frame@, context@, action@));
    }
    values
}

/// What an outcome was worth: an eighth of its benefits less its costs.
pub open spec fn outcome_worth(outcome: ActionOutcome) -> i32 {
    let b = outcome.observed_benefit;
    let positive = b.latency.value() + b.throughput.value() + b.resource.value() + b.memory.value()
        + b.storage.value() + b.network.value() + b.repair_debt.value() + b.durability_risk.value();
    let negative = b.movement_cost.value() + b.churn.value();
    clamped(truncated_quotient(positive - negative, 8), -1_000_000, 1_000_000) as i32
}

fn outcome_score(outcome: &ActionOutcome) -> (score: i32)
    ensures
        score == outcome_worth(*outcome),
{
    let b: ExpectedBenefit = outcome.observed_benefit;
    let positive: i128 = b.latency.as_u32() as i128 + b.throughput.as_u32() as i128
        + b.resource.as_u32() as i128 + b.memory.as_u32() as i128 + b.storage.as_u32() as i128
        + b.network.as_u32() as i128 + b.repair_debt.as_u32() as i128
        + b.durability_risk.as_u32() as i128;
    let negative: i128 = b.movement_cost.as_u32() as i128 + b.churn.as_u32() as i128;
    let score: i128 = divide_truncated(positive - negative, 8);
    if score < -1_000_000 {
        -1_000_000
    } else if score > 1_000_000 {
        1_000_000
    } else {
        score as i32
    }
}

/// The best alternative so far with its score, and the last violation met.
#[verifier::ext_equal]
pub struct Pick {
    pub best: Option<(int, ActionView)>,
    pub violation: Option<SafetyViolation>,
}

/// What a [`LearnedController`] holds.
#[verifier::ext_equal]
pub struct LearnedView {
    pub config: LearnedConfig,
    pub model: LearnedModelView,
    pub disabled: Option<ModelDisableReason>,
}

impl LearnedView {
    /// The controller before it has learned anything.
    pub open spec fn initial(config: LearnedConfig) -> Self {
        LearnedView { config, model: LearnedModelView::initial(), disabled: None }
    }

    /// What loading an image makes of the controller, and what it reports.
    pub open spec fn loaded(self, input: Seq<u8>) -> (Self, ModelLoadReport) {
        if input.len() == 0 {
            (
                self,
                ModelLoadReport {
                    status: ModelLoadStatus::Empty,
                    disabled: self.disabled is Some,
                },
            )
        } else {
            match LearnedModelView::decoded(input) {
                Ok(model) => (
                    LearnedView { model, ..self },
                    ModelLoadReport {
                        status: ModelLoadStatus::Loaded,
                        disabled: self.disabled is Some,
                    },
                ),
                Err(ModelDecodeError::IncompatibleVersion { .. }) => (
                    LearnedView {
                        disabled: Some(ModelDisableReason::IncompatibleModel),
                        ..self
                    },
                    ModelLoadReport { status: ModelLoadStatus::Incompatible, disabled: true },
                ),
                Err(_) => (
                    LearnedView { disabled: Some(ModelDisableReason::CorruptModel), ..self },
                    ModelLoadReport { status: ModelLoadStatus::Corrupt, disabled: true },
                ),
            }
        }
    }

    /// The alternatives to a baseline action: budgets one step from the current one.
    pub open spec fn alternatives(self, baseline: ActionView, context: SafetyContextView) -> Seq<
        ActionView,
    > {
        let step = self.config.exploration_step;
        match baseline {
            ActionView::AdjustMemoryBudget { scope, target, expected_benefit, .. } => seq![
                ActionView::AdjustMemoryBudget {
                    scope,
                    target,
                    budget: MemoryBudget::of(context.memory_budget.ppm().plus(step)),
                    expected_benefit,
                },
                ActionView::AdjustMemoryBudget {
                    scope,
                    target,
                    budget: MemoryBudget::of(context.memory_budget.ppm().minus(step)),
                    expected_benefit,
                },
            ],
            ActionView::AdjustRepairBudget { scope, target, expected_benefit, .. } => seq![
                ActionView::AdjustRepairBudget {
                    scope,
                    target,
                    budget: RepairBudget::of(context.repair_budget.ppm().plus(step)),
                    expected_benefit,
                },
            ],
            ActionView::AdjustScrubBudget { scope, target, expected_benefit, .. } => seq![
                ActionView::AdjustScrubBudget {
                    scope,
                    target,
                    budget: ScrubBudget::of(context.scrub_budget.ppm().plus(step)),
                    expected_benefit,
                },
            ],
            _ => Seq::empty(),
        }
    }

    /// The alternatives that are considered: no more than configured, at least one.
    pub open spec fn considered(self, baseline: ActionView, context: SafetyContextView) -> Seq<
        ActionView,
    > {
        let all = self.alternatives(baseline, context);
        let limit: int = if self.config.alternative_count >= 1 {
            self.config.alternative_count as int
        } else {
            1
        };
        if all.len() > limit {
            all.take(limit)
        } else {
            all
        }
    }

    /// The pick after one more alternative: the baseline itself and unsafe ones are
    /// passed over, and only a higher score replaces the best.
    pub open spec fn pick_one(
        self,
        pick: Pick,
        action: ActionView,
        baseline: ActionView,
        frame: ControllerFrameView,
        context: SafetyContextView,
        envelope: SafetyEnvelope,
    ) -> Pick {
        if action.key() == baseline.key() {
            pick
        } else {
            match envelope.verdict(action, context) {
                Err(violation) => Pick { violation: Some(violation), ..pick },
                Ok(_) => {
                    let score = self.model.scored(feature_vector(frame, context, action));
                    match pick.best {
                        Some((best, _)) => if score > best {
                            Pick { best: Some((score, action)), ..pick }
                        } else {
                            pick
                        },
                        None => Pick { best: Some((score, action)), ..pick },
                    }
                },
            }
        }
    }

    /// The pick among `actions`.
    pub open spec fn picked(
        self,
        actions: Seq<ActionView>,
        baseline: ActionView,
        frame: ControllerFrameView,
        context: SafetyContextView,
        envelope: SafetyEnvelope,
    ) -> Pick
        decreases actions.len(),
    {
        if actions.len() == 0 {
            Pick { best: None, violation: None }
        } else {
            self.pick_one(
                self.picked(actions.drop_last(), baseline, frame, context, envelope),
                actions.last(),
                baseline,
                frame,
                context,
                envelope,
            )
        }
    }

    /// Whether the model may not be asked: disabled, an unsafe baseline, too few
    /// samples, or too much uncertainty.
    pub open spec fn must_fall_back(
        self,
        baseline: Option<ActionView>,
        context: SafetyContextView,
        envelope: SafetyEnvelope,
    ) -> bool {
        ||| self.disabled is Some
        ||| (baseline matches Some(action) && envelope.verdict(action, context) is Err)
        ||| self.model.samples < self.config.minimum_samples
        ||| self.model.uncertainty() > self.config.maximum_uncertainty_ppm
    }

    /// The key of an optional action.
    pub open spec fn key_of(action: Option<ActionView>) -> Option<
        crate::control::adaptive::action::ActionKeyView,
    > {
        match action {
            Some(action) => Some(action.key()),
            None => None,
        }
    }

    /// The decision that keeps the baseline.
    pub open spec fn baseline_kept(
        self,
        baseline: Option<ActionView>,
        observation: ActionObservation,
    ) -> LearnedDecisionView {
        LearnedDecisionView {
            action: baseline,
            fallback_to_baseline: true,
            uncertainty_ppm: self.model.uncertainty(),
            violation: None,
            trace: DecisionTraceView {
                fallback: true,
                ..DecisionTraceView::plain(
                    observation,
                    ControllerSource::LearnedShadow,
                    TraceStatus::Fallback,
                    ActionReason::LearnedAlternative,
                    Self::key_of(baseline),
                )
            },
        }
    }

    /// The decision that follows from a pick.
    pub open spec fn decision_of(
        self,
        pick: Pick,
        baseline: ActionView,
        observation: ActionObservation,
    ) -> LearnedDecisionView {
        let action = match pick.best {
            Some((_, action)) => action,
            None => baseline,
        };
        let kept = pick.best is None;
        LearnedDecisionView {
            action: Some(action),
            fallback_to_baseline: kept,
            uncertainty_ppm: self.model.uncertainty(),
            violation: pick.violation,
            trace: DecisionTraceView {
                fallback: kept,
                safety_violation: pick.violation,
                ..DecisionTraceView::plain(
                    observation,
                    ControllerSource::LearnedShadow,
                    if kept {
                        TraceStatus::Fallback
                    } else {
                        TraceStatus::Shadow
                    },
                    ActionReason::LearnedAlternative,
                    Some(action.key()),
                )
            },
        }
    }

    /// What a suggestion makes of the controller, and what it returns.
    pub open spec fn suggested(
        self,
        frame: ControllerFrameView,
        context: SafetyContextView,
        baseline: Option<ActionView>,
        envelope: SafetyEnvelope,
    ) -> (Self, LearnedDecisionView) {
        if self.must_fall_back(baseline, context, envelope) {
            (
                LearnedView {
                    disabled: if self.model.uncertainty() > self.config.maximum_uncertainty_ppm {
                        Some(ModelDisableReason::HighUncertainty)
                    } else {
                        self.disabled
                    },
                    ..self
                },
                self.baseline_kept(baseline, frame.identity()),
            )
        } else {
            match baseline {
                None => (
                    self,
                    LearnedDecisionView {
                        trace: DecisionTraceView::plain(
                            frame.identity(),
                            ControllerSource::LearnedShadow,
                            TraceStatus::Fallback,
                            ActionReason::LearnedAlternative,
                            None,
                        ),
                        ..self.baseline_kept(None, frame.identity())
                    },
                ),
                Some(action) => (
                    self,
                    self.decision_of(
                        self.picked(
                            self.considered(action, context),
                            action,
                            frame,
                            context,
                            envelope,
                        ),
                        action,
                        frame.identity(),
                    ),
                ),
            }
        }
    }

    /// What an outcome makes of the controller, and what it returns: an unsafe action
    /// teaches nothing.
    pub open spec fn taught(
        self,
        frame: ControllerFrameView,
        context: SafetyContextView,
        action: ActionView,
        outcome: ActionOutcome,
        envelope: SafetyEnvelope,
    ) -> (Self, Result<(), SafetyViolation>) {
        match envelope.verdict(action, context) {
            Err(violation) => (self, Err(violation)),
            Ok(_) => (
                LearnedView {
                    model: self.model.updated(
                        feature_vector(frame, context, action),
                        if outcome.result.succeeded() {
                            outcome_worth(outcome)
                        } else {
                            (-100_000) as i32
                        },
                        self.config.learning_rate_ppm,
                        self.config.maximum_samples,
                    ),
                    ..self
                },
                Ok(()),
            ),
        }
    }
}

/// Lightweight optional learned controller.
#[derive(Debug)]
pub struct LearnedController {
    pub(crate) config: LearnedConfig,
    pub(crate) model: LearnedModel,
    pub(crate) disabled: Option<ModelDisableReason>,
}

impl View for LearnedController {
    type V = LearnedView;

    open(crate) spec fn view(&self) -> LearnedView {
        LearnedView { config: self.config, model: self.model@, disabled: self.disabled }
    }
}

impl Clone for LearnedController {
    fn clone(&self) -> (copy: Self)
        ensures
            copy@ == self@,
    {
        LearnedController {
            config: self.config,
            model: self.model.clone(),
            disabled: self.disabled,
        }
    }
}

impl Default for LearnedController {
    fn default() -> (controller: Self)
        ensures
            controller@ == LearnedView::initial(LearnedConfig::standard()),
    {
        Self::new(LearnedConfig::default())
    }
}

/// Copies an optional action.
pub fn clone_action(action: Option<&Action>) -> (copy: Option<Action>)
    ensures
        match action {
            Some(a) => copy is Some && copy->0@ == a@,
            None => copy is None,
        },
{
    match action {
        Some(action) => Some(action.clone()),
        None => None,
    }
}

/// The view of an optional reference.
pub open spec fn view_ref(action: Option<&Action>) -> Option<ActionView> {
    match action {
        Some(action) => Some(action@),
        None => None,
    }
}

impl LearnedController {
    /// Creates a learned controller in deterministic fallback mode.
    pub fn new(config: LearnedConfig) -> (controller: Self)
        ensures
            controller@ == LearnedView::initial(config),
    {
        LearnedController { config, model: LearnedModel::new(), disabled: None }
    }

    /// Returns whether the model is allowed to suggest.
    pub fn is_enabled(&self) -> (enabled: bool)
        ensures
            enabled == (self@.disabled is None),
    {
        self.disabled.is_none()
    }

    /// Returns the deterministic disable reason.
    pub fn disable_reason(&self) -> (reason: Option<ModelDisableReason>)
        ensures
            reason == self@.disabled,
    {
        self.disabled
    }

    /// Disables the model with a typed reason.
    pub fn disable(&mut self, reason: ModelDisableReason)
        ensures
            final(self)@ == (LearnedView { disabled: Some(reason), ..old(self)@ }),
    {
        self.disabled = Some(reason);
    }

    /// Re-enables the model while retaining learned samples.
    pub fn enable(&mut self)
        ensures
            final(self)@ == (LearnedView { disabled: None, ..old(self)@ }),
    {
        self.disabled = None;
    }

    /// Returns the current model.
    pub fn model(&self) -> (model: &LearnedModel)
        ensures
            model@ == self@.model,
    {
        &self.model
    }

    /// Encodes the current model for bounded persistence.
    pub fn encode(&self) -> (image: Vec<u8>)
        ensures
            image@ == self@.model.encoded(),
    {
        self.model.encode()
    }

    /// Loads persisted model bytes. Bytes that are no model leave the current one in place
    /// and disable it.
    pub fn load(&mut self, input: &[u8]) -> (report: ModelLoadReport)
        ensures
            (final(self)@, report) == old(self)@.loaded(input@),
    {
        if input.len() == 0 {
            return ModelLoadReport {
                status: ModelLoadStatus::Empty,
                disabled: self.disabled.is_some(),
            };
        }
        match LearnedModel::decode(input) {
            Ok(model) => {
                self.model = model;
                ModelLoadReport {
                    status: ModelLoadStatus::Loaded,
                    disabled: self.disabled.is_some(),
                }
            },
            Err(ModelDecodeError::IncompatibleVersion { .. }) => {
                self.disable(ModelDisableReason::IncompatibleModel);
                ModelLoadReport { status: ModelLoadStatus::Incompatible, disabled: true }
            },
            Err(_) => {
                self.disable(ModelDisableReason::CorruptModel);
                ModelLoadReport { status: ModelLoadStatus::Corrupt, disabled: true }
            },
        }
    }

    fn keep_baseline(
        &self,
        baseline_action: Option<&Action>,
        observation: ActionObservation,
        uncertainty: u32,
    ) -> (decision: LearnedDecision)
        requires
            uncertainty == self@.model.uncertainty(),
        ensures
            decision@ == self@.baseline_kept(view_ref(baseline_action), observation),
            decision.source == ControllerSource::LearnedShadow,
    {
        let key: Option<ActionKey> = match baseline_action {
            Some(action) => Some(action.key()),
            None => None,
        };
        let plain: DecisionTrace = DecisionTrace::new(
            observation,
            ControllerSource::LearnedShadow,
            TraceStatus::Fallback,
            ActionReason::LearnedAlternative,
            key,
        );
        LearnedDecision {
            source: ControllerSource::LearnedShadow,
            action: clone_action(baseline_action),
            fallback_to_baseline: true,
            uncertainty_ppm: uncertainty,
            violation: None,
            trace: DecisionTrace { fallback: true, ..plain },
        }
    }

    fn pick_among(
        &self,
        alternatives: &Vec<Action>,
        baseline: &Action,
        frame: &ControllerFrame,
        context: &SafetyContext,
        validator: &SafetyValidator,
    ) -> (pick: (Option<(i64, Action)>, Option<SafetyViolation>))
        ensures
            ({
                let p = self@.picked(
                    action_views(alternatives@),
                    baseline@,
                    frame@,
                    context@,
                    validator.limits_of(),
                );
                &&& pick.1 == p.violation
                &&& match pick.0 {
                    Some((score, action)) => p.best == Some((score as int, action@)),
                    None => p.best is None,
                }
            }),
    {
        let ghost views = action_views(alternatives@);
        let mut best: Option<(i64, Action)> = None;
        let mut violation: Option<SafetyViolation> = None;
        let mut at: usize = 0;
        proof {
            assert(views.take(0) =~= Seq::empty());
        }
        while at < alternatives.len()
            invariant
                at <= alternatives.len(),
                views == action_views(alternatives@),
                ({
                    let p = self@.picked(
                        views.take(at as int),
                        baseline@,
                        frame@,
                        context@,
                        validator.limits_of(),
                    );
                    &&& violation == p.violation
                    &&& match best {
                        Some((score, action)) => p.best == Some((score as int, action@)),
                        None => p.best is None,
                    }
                }),
            decreases alternatives.len() - at,
        {
            let action: &Action = &alternatives[at];
            proof {
                assert(views.take(at + 1).drop_last() =~= views.take(at as int));
                assert(views.take(at + 1).last() == action@);
            }
            if !action.key().same(&baseline.key()) {
                match validator.validate(action, context) {
                    Err(reason) => {
                        violation = Some(reason);
                    },
                    Ok(_) => {
                        let features: Vec<i32> = learned_features(frame, context, action);
                        let score: i64 = self.model.score(features.as_slice());
                        let better: bool = match &best {
                            Some((best_score, _)) => score > *best_score,
                            None => true,
                        };
                        if better {
                            best = Some((score, action.clone()));
                        }
                    },
                }
            }
            at = at + 1;
        }
        proof {
            assert(views.take(at as int) =~= views);
        }
        (best, violation)
    }

    /// Generates a safe learned alternative in shadow mode.
    ///
    /// The baseline action and every bounded alternative go through the same safety
    /// validator. Insufficient samples or high uncertainty retain the baseline.
    pub fn suggest(
        &mut self,
        frame: &ControllerFrame,
        context: &SafetyContext,
        baseline_action: Option<&Action>,
        validator: &SafetyValidator,
    ) -> (decision: LearnedDecision)
        ensures
            (final(self)@, decision@) == old(self)@.suggested(
                frame@,
                context@,
                view_ref(baseline_action),
                validator.limits_of(),
            ),
            decision.source == ControllerSource::LearnedShadow,
    {
        let observation: ActionObservation = frame.action_observation();
        let uncertainty: u32 = self.model.uncertainty_ppm();
        let baseline_valid: bool = match baseline_action {
            Some(action) => validator.validate(action, context).is_ok(),
            None => true,
        };
        if self.disabled.is_some() || !baseline_valid || self.model.samples()
            < self.config.minimum_samples || uncertainty > self.config.maximum_uncertainty_ppm {
            let decision: LearnedDecision = self.keep_baseline(
                baseline_action,
                observation,
                uncertainty,
            );
            if uncertainty > self.config.maximum_uncertainty_ppm {
                self.disable(ModelDisableReason::HighUncertainty);
            }
            return decision;
        }
        let baseline: &Action = match baseline_action {
            Some(action) => action,
            None => {
                return LearnedDecision {
                    source: ControllerSource::LearnedShadow,
                    action: None,
                    fallback_to_baseline: true,
                    uncertainty_ppm: uncertainty,
                    violation: None,
                    trace: DecisionTrace::new(
                        observation,
                        ControllerSource::LearnedShadow,
                        TraceStatus::Fallback,
                        ActionReason::LearnedAlternative,
                        None,
                    ),
                };
            },
        };
        let mut alternatives: Vec<Action> = self.alternatives_for(baseline, context);
        let limit: usize = if self.config.alternative_count >= 1 {
            self.config.alternative_count
        } else {
            1
        };
        if alternatives.len() > limit {
            alternatives.truncate(limit);
        }
        proof {
            assert(action_views(alternatives@) =~= self@.considered(baseline@, context@));
        }
        let (best, violation) = self.pick_among(&alternatives, baseline, frame, context, validator);
        let (action, kept): (Action, bool) = match best {
            Some((_, action)) => (action, false),
            None => (baseline.clone(), true),
        };
        let plain: DecisionTrace = DecisionTrace::new(
            observation,
            ControllerSource::LearnedShadow,
            if kept {
                TraceStatus::Fallback
            } else {
                TraceStatus::Shadow
            },
            ActionReason::LearnedAlternative,
            Some(action.key()),
        );
        LearnedDecision {
            source: ControllerSource::LearnedShadow,
            action: Some(action),
            fallback_to_baseline: kept,
            uncertainty_ppm: uncertainty,
            violation,
            trace: DecisionTrace { fallback: kept, safety_violation: violation, ..plain },
        }
    }

    /// Updates the online model from an observed outcome.
    pub fn observe_outcome(
        &mut self,
        frame: &ControllerFrame,
        context: &SafetyContext,
        action: &Action,
        outcome: &ActionOutcome,
        validator: &SafetyValidator,
    ) -> (result: Result<(), SafetyViolation>)
        ensures
            (final(self)@, result) == old(self)@.taught(
                frame@,
                context@,
                action@,
                *outcome,
                validator.limits_of(),
            ),
    {
        if let Err(violation) = validator.validate(action, context) {
            return Err(violation);
        }
        let features: Vec<i32> = learned_features(frame, context, action);
        let target: i32 = if outcome.result.is_success() {
            outcome_score(outcome)
        } else {
            -100_000
        };
        self.model.update(
            features.as_slice(),
            target,
            self.config.learning_rate_ppm,
            self.config.maximum_samples,
        );
        Ok(())
    }

    fn alternatives_for(&self, baseline: &Action, context: &SafetyContext) -> (actions: Vec<Action>)
        ensures
            action_views(actions@) == self@.alternatives(baseline@, context@),
    {
        let step: Ppm = self.config.exploration_step;
        let mut actions: Vec<Action> = Vec::new();
        match baseline {
            Action::AdjustMemoryBudget { scope, target, expected_benefit, .. } => {
                actions.push(
                    Action::AdjustMemoryBudget {
                        scope: *scope,
                        target: *target,
                        budget: context.memory_budget.saturating_add(step),
                        expected_benefit: *expected_benefit,
                    },
                );
                actions.push(
                    Action::AdjustMemoryBudget {
                        scope: *scope,
                        target: *target,
                        budget: context.memory_budget.saturating_sub(step),
                        expected_benefit: *expected_benefit,
                    },
                );
            },
            Action::AdjustRepairBudget { scope, target, expected_benefit, .. } => {
                actions.push(
                    Action::AdjustRepairBudget {
                        scope: *scope,
                        target: *target,
                        budget: context.repair_budget.saturating_add(step),
                        expected_benefit: *expected_benefit,
                    },
                );
            },
            Action::AdjustScrubBudget { scope, target, expected_benefit, .. } => {
                actions.push(
                    Action::AdjustScrubBudget {
                        scope: *scope,
                        target: *target,
                        budget: context.scrub_budget.saturating_add(step),
                        expected_benefit: *expected_benefit,
                    },
                );
            },
            _ => {},
        }
        proof {
            assert(action_views(actions@) =~= self@.alternatives(baseline@, context@));
        }
        actions
    }
}

proof fn lemma_pick_is_safe(
    controller: LearnedView,
    actions: Seq<ActionView>,
    baseline: ActionView,
    frame: ControllerFrameView,
    context: SafetyContextView,
    envelope: SafetyEnvelope,
)
    ensures
        controller.picked(
            actions,
            baseline,
            frame,
            context,
            envelope,
        ).best matches Some((_, action))
            ==> envelope.verdict(action, context) is Ok && action.key() != baseline.key(),
    decreases actions.len(),
{
    if actions.len() > 0 {
        lemma_pick_is_safe(controller, actions.drop_last(), baseline, frame, context, envelope);
    }
}

/// A suggestion that leaves the baseline is safe and differs from it; one that does
/// not is the baseline itself.
pub proof fn law_suggestions_are_safe(
    controller: LearnedView,
    frame: ControllerFrameView,
    context: SafetyContextView,
    baseline: Option<ActionView>,
    envelope: SafetyEnvelope,
)
    ensures
        ({
            let decision = controller.suggested(frame, context, baseline, envelope).1;
            if decision.fallback_to_baseline {
                decision.action == baseline
            } else {
                &&& decision.action is Some
                &&& baseline is Some
                &&& envelope.verdict(decision.action->0, context) is Ok
                &&& envelope.verdict(baseline->0, context) is Ok
                &&& decision.action->0.key() != baseline->0.key()
            }
        }),
{
    if baseline is Some {
        lemma_pick_is_safe(
            controller,
            controller.considered(baseline->0, context),
            baseline->0,
            frame,
            context,
            envelope,
        );
    }
}

/// With too few samples or too much uncertainty the baseline is kept.
pub proof fn law_uncertain_model_falls_back(
    controller: LearnedView,
    frame: ControllerFrameView,
    context: SafetyContextView,
    baseline: Option<ActionView>,
    envelope: SafetyEnvelope,
)
    requires
        controller.model.samples < controller.config.minimum_samples
            || controller.model.uncertainty() > controller.config.maximum_uncertainty_ppm
            || controller.disabled is Some,
    ensures
        controller.suggested(frame, context, baseline, envelope).1.fallback_to_baseline,
        controller.suggested(frame, context, baseline, envelope).1.action == baseline,
{
}

/// Bytes that are no model disable the learned controller, which retains its model and keeps
/// the baseline.
pub proof fn law_bad_model_falls_back(
    controller: LearnedView,
    input: Seq<u8>,
    frame: ControllerFrameView,
    context: SafetyContextView,
    baseline: Option<ActionView>,
    envelope: SafetyEnvelope,
)
    requires
        input.len() > 0,
        LearnedModelView::decoded(input) is Err,
    ensures
        ({
            let after = controller.loaded(input).0;
            &&& after.disabled is Some
            &&& after.model == controller.model
            &&& controller.loaded(input).1.disabled
            &&& after.suggested(frame, context, baseline, envelope).1.action == baseline
        }),
{
}

/// A model that was saved is the model that is loaded.
pub proof fn law_saved_model_is_loaded(controller: LearnedView, other: LearnedView)
    requires
        controller.model.well_formed(),
        controller.model.residual <= i64::MAX,
    ensures
        other.loaded(controller.model.encoded()).0 == (LearnedView {
            model: controller.model,
            ..other
        }),
        other.loaded(controller.model.encoded()).1.status == ModelLoadStatus::Loaded,
{
    crate::control::adaptive::model::law_model_round_trip(controller.model);
    assert(controller.model.encoded().len() > 0) by {
        assert(controller.model.encoded()[0] == 0x4bu8);
    }
}

proof fn lemma_pick_is_best(
    controller: LearnedView,
    actions: Seq<ActionView>,
    baseline: ActionView,
    frame: ControllerFrameView,
    context: SafetyContextView,
    envelope: SafetyEnvelope,
)
    ensures
        ({
            let best = controller.picked(actions, baseline, frame, context, envelope).best;
            &&& best matches Some((score, action)) ==> {
                &&& actions.contains(action)
                &&& score == controller.model.scored(feature_vector(frame, context, action))
            }
            &&& forall|i: int|
                #![trigger actions[i]]
                0 <= i < actions.len() && actions[i].key() != baseline.key() && envelope.verdict(
                    actions[i],
                    context,
                ) is Ok ==> (best matches Some((score, _)) && controller.model.scored(
                    feature_vector(frame, context, actions[i]),
                ) <= score)
        }),
    decreases actions.len(),
{
    if actions.len() > 0 {
        let front = actions.drop_last();
        let last = actions.len() - 1;
        lemma_pick_is_best(controller, front, baseline, frame, context, envelope);
        assert(actions[last] == actions.last());
        let before = controller.picked(front, baseline, frame, context, envelope).best;
        if let Some((_, action)) = before {
            let k = choose|k: int| 0 <= k < front.len() && front[k] == action;
            assert(actions[k] == action);
        }
        assert forall|i: int| #![trigger actions[i]] 0 <= i < last implies actions[i]
            == front[i] by {}
    }
}

/// What the model suggests in place of a baseline action is the alternative that it
/// scores highest: no alternative that is safe and differs from the baseline scores
/// higher, and where there is one, the baseline is not kept.
pub proof fn law_suggestions_score_highest(
    controller: LearnedView,
    frame: ControllerFrameView,
    context: SafetyContextView,
    baseline: ActionView,
    envelope: SafetyEnvelope,
    i: int,
)
    requires
        controller.disabled is None,
        envelope.verdict(baseline, context) is Ok,
        controller.model.samples >= controller.config.minimum_samples,
        controller.model.uncertainty() <= controller.config.maximum_uncertainty_ppm,
        0 <= i < controller.considered(baseline, context).len(),
        envelope.verdict(controller.considered(baseline, context)[i], context) is Ok,
        controller.considered(baseline, context)[i].key() != baseline.key(),
    ensures
        ({
            let decision = controller.suggested(frame, context, Some(baseline), envelope).1;
            let alternative = controller.considered(baseline, context)[i];
            &&& !decision.fallback_to_baseline
            &&& decision.trace.status is Shadow
            &&& decision.action matches Some(action) && controller.considered(
                baseline,
                context,
            ).contains(action) && controller.model.scored(
                feature_vector(frame, context, alternative),
            ) <= controller.model.scored(feature_vector(frame, context, action))
        }),
{
    lemma_pick_is_best(
        controller,
        controller.considered(baseline, context),
        baseline,
        frame,
        context,
        envelope,
    );
}

/// An alternative changes the same budget of the same tablet as the baseline action, and
/// lies one step from the budget in force, above it or, for memory alone, below it.
pub proof fn law_alternatives_lie_one_step_away(
    controller: LearnedView,
    baseline: ActionView,
    context: SafetyContextView,
    i: int,
)
    requires
        0 <= i < controller.considered(baseline, context).len(),
        context.memory_budget.ppm().value() <= 1_000_000,
        context.repair_budget.ppm().value() <= 1_000_000,
        context.scrub_budget.ppm().value() <= 1_000_000,
    ensures
        ({
            let action = controller.considered(baseline, context)[i];
            let step = controller.config.exploration_step.value();
            &&& action.conflict_key() == baseline.conflict_key()
            &&& action.benefit() == baseline.benefit()
            &&& action matches ActionView::AdjustMemoryBudget { budget, .. } ==> {
                let held = context.memory_budget.ppm().value();
                let set = budget.ppm().value();
                &&& i == 0 && held + step <= 1_000_000 ==> set == held + step
                &&& i == 0 && held + step > 1_000_000 ==> set == 1_000_000
                &&& i > 0 && held >= step ==> set == held - step
                &&& i > 0 && held < step ==> set == 0
            }
            &&& action matches ActionView::AdjustRepairBudget { budget, .. } ==> {
                let held = context.repair_budget.ppm().value();
                let set = budget.ppm().value();
                &&& held + step <= 1_000_000 ==> set == held + step
                &&& held + step > 1_000_000 ==> set == 1_000_000
            }
            &&& action matches ActionView::AdjustScrubBudget { budget, .. } ==> {
                let held = context.scrub_budget.ppm().value();
                let set = budget.ppm().value();
                &&& held + step <= 1_000_000 ==> set == held + step
                &&& held + step > 1_000_000 ==> set == 1_000_000
            }
            &&& action is AdjustMemoryBudget || action is AdjustRepairBudget || action
                is AdjustScrubBudget
        }),
{
}

/// A budget action always has an alternative to consider, and no more than the tuning
/// allows; other actions have none.
pub proof fn law_budgets_have_alternatives(
    controller: LearnedView,
    baseline: ActionView,
    context: SafetyContextView,
)
    ensures
        ({
            let count = controller.considered(baseline, context).len();
            let limit = controller.config.alternative_count;
            &&& baseline is AdjustMemoryBudget && limit >= 2 ==> count == 2
            &&& baseline is AdjustMemoryBudget && limit < 2 ==> count == 1
            &&& baseline is AdjustRepairBudget || baseline is AdjustScrubBudget ==> count == 1
            &&& !(baseline is AdjustMemoryBudget || baseline is AdjustRepairBudget || baseline
                is AdjustScrubBudget) ==> count == 0
        }),
{
}

/// A model that is too unsure of itself disables itself and stays disabled; a suggestion
/// changes nothing else.
pub proof fn law_unsure_models_are_disabled(
    controller: LearnedView,
    frame: ControllerFrameView,
    context: SafetyContextView,
    baseline: Option<ActionView>,
    envelope: SafetyEnvelope,
)
    ensures
        ({
            let after = controller.suggested(frame, context, baseline, envelope).0;
            &&& after.model == controller.model
            &&& after.config == controller.config
            &&& controller.model.uncertainty() > controller.config.maximum_uncertainty_ppm
                ==> after.disabled == Some(ModelDisableReason::HighUncertainty)
            &&& controller.model.uncertainty() <= controller.config.maximum_uncertainty_ppm
                ==> after.disabled == controller.disabled
            &&& controller.suggested(frame, context, baseline, envelope).1.uncertainty_ppm
                == controller.model.uncertainty()
        }),
{
}

/// What an action teaches is what came of it: a success its worth, a failure a fixed
/// loss. An action that is not safe teaches nothing.
pub proof fn law_outcomes_teach(
    controller: LearnedView,
    frame: ControllerFrameView,
    context: SafetyContextView,
    action: ActionView,
    outcome: ActionOutcome,
    envelope: SafetyEnvelope,
)
    ensures
        ({
            let after = controller.taught(frame, context, action, outcome, envelope).0;
            let features = feature_vector(frame, context, action);
            let rate = controller.config.learning_rate_ppm;
            let most = controller.config.maximum_samples;
            &&& after.config == controller.config
            &&& after.disabled == controller.disabled
            &&& envelope.verdict(action, context) is Err ==> after.model == controller.model
            &&& envelope.verdict(action, context) is Ok && !outcome.result.succeeded()
                ==> after.model == controller.model.updated(features, -100_000i32, rate, most)
            &&& envelope.verdict(action, context) is Ok && outcome.result.succeeded()
                ==> after.model == controller.model.updated(
                features,
                outcome_worth(outcome),
                rate,
                most,
            )
        }),
{
}

/// The worth of an outcome rises with every benefit and falls with every cost: eight
/// parts of a benefit are one part of worth, and eight parts of a cost take one away.
pub proof fn law_worth_weighs_benefits_and_costs(outcome: ActionOutcome, gain: u32)
    requires
        outcome.observed_benefit.latency.value() + gain <= 1_000_000,
        outcome.observed_benefit.latency.value() <= 1_000_000,
        outcome.observed_benefit.churn.value() + gain <= 1_000_000,
        outcome.observed_benefit.throughput.value() <= 1_000_000,
        outcome.observed_benefit.resource.value() <= 1_000_000,
        outcome.observed_benefit.memory.value() <= 1_000_000,
        outcome.observed_benefit.storage.value() <= 1_000_000,
        outcome.observed_benefit.network.value() <= 1_000_000,
        outcome.observed_benefit.repair_debt.value() <= 1_000_000,
        outcome.observed_benefit.durability_risk.value() <= 1_000_000,
        outcome.observed_benefit.movement_cost.value() <= 1_000_000,
        gain % 8 == 0,
    ensures
        ({
            let b = outcome.observed_benefit;
            let total = b.latency.value() + b.throughput.value() + b.resource.value()
                + b.memory.value() + b.storage.value() + b.network.value()
                + b.repair_debt.value() + b.durability_risk.value() - b.movement_cost.value()
                - b.churn.value();
            let better = ActionOutcome {
                observed_benefit: ExpectedBenefit {
                    latency: Ppm::of((b.latency.value() + gain) as u32),
                    ..b
                },
                ..outcome
            };
            let worse = ActionOutcome {
                observed_benefit: ExpectedBenefit {
                    churn: Ppm::of((b.churn.value() + gain) as u32),
                    ..b
                },
                ..outcome
            };
            &&& total >= 0 ==> outcome_worth(better) == outcome_worth(outcome) + gain / 8
            &&& total <= 0 ==> outcome_worth(worse) == outcome_worth(outcome) - gain / 8
            &&& 0 <= total < 8 ==> outcome_worth(outcome) == 0
            &&& total >= 0 ==> 8 * outcome_worth(outcome) <= total < 8 * outcome_worth(outcome)
                + 8
        }),
{
}

/// The model sees each measure in its own place: the pressure first, the action last, and
/// nothing of the scope where there is none.
pub proof fn law_features_have_their_places(
    frame: ControllerFrameView,
    context: SafetyContextView,
    action: ActionView,
    other: ActionView,
)
    ensures
        feature_vector(frame, context, action).len() == MODEL_FEATURE_COUNT,
        feature_vector(frame, context, action)[10] == action_feature(action),
        forall|i: int|
            0 <= i < 10 ==> #[trigger] feature_vector(frame, context, action)[i]
                == feature_vector(frame, context, other)[i],
        frame.target_scope(context.primary_target) is None ==> forall|i: int|
            0 <= i < 10 ==> #[trigger] feature_vector(frame, context, action)[i] == 0,
        frame.target_scope(context.primary_target) matches Some(scope) ==> {
            let f = scope.features(BaselineConfig::standard());
            let v = feature_vector(frame, context, action);
            &&& 100_000 * v[0] <= f.memory_pressure_ppm < 100_000 * (v[0] + 1)
            &&& f.criticality <= i32::MAX ==> v[1] == f.criticality
            &&& f.repair_bytes < 0x8000_0000 * 1_000_000 ==> 1_000_000 * v[2] <= f.repair_bytes
                < 1_000_000 * (v[2] + 1)
            &&& f.latency_p99_ns < 0x8000_0000 * 1_000_000 ==> 1_000_000 * v[3]
                <= f.latency_p99_ns < 1_000_000 * (v[3] + 1)
            &&& f.throughput <= i32::MAX ==> v[4] == f.throughput
            &&& f.resident_bytes < 0x8000_0000 * 1_000_000 ==> 1_000_000 * v[5]
                <= f.resident_bytes < 1_000_000 * (v[5] + 1)
            &&& 100_000 * (v[6] + 1) > f.worker_imbalance_ppm
            &&& 100_000 * (v[6] + 1) > f.tablet_imbalance_ppm
            &&& 100_000 * v[6] <= f.worker_imbalance_ppm || 100_000 * v[6]
                <= f.tablet_imbalance_ppm
            &&& f.hot_key_count <= i32::MAX ==> v[7] == f.hot_key_count
            &&& 100_000 * v[8] <= f.top_key_share_ppm < 100_000 * (v[8] + 1)
            &&& f.storage_read_bytes + f.storage_written_bytes < 0x8000_0000 * 1_000_000
                ==> 1_000_000 * v[9] <= f.storage_read_bytes + f.storage_written_bytes
                < 1_000_000 * (v[9] + 1)
        },
{
}

/// A loaded image replaces the model and nothing else; no image at all changes nothing,
/// and an image of another version is told from a broken one.
pub proof fn law_loading_reports_what_it_did(controller: LearnedView, input: Seq<u8>)
    ensures
        ({
            let after = controller.loaded(input).0;
            let report = controller.loaded(input).1;
            &&& after.config == controller.config
            &&& input.len() == 0 ==> after == controller && report.status is Empty
            &&& report.disabled == (after.disabled is Some)
            &&& report.status is Loaded ==> after.disabled == controller.disabled
                && LearnedModelView::decoded(input) == Ok::<_, ModelDecodeError>(after.model)
            &&& report.status is Incompatible ==> after.disabled == Some(
                ModelDisableReason::IncompatibleModel,
            )
            &&& report.status is Corrupt ==> after.disabled == Some(
                ModelDisableReason::CorruptModel,
            )
            &&& input.len() > 0 ==> (report.status is Incompatible <==> (
            LearnedModelView::decoded(input) matches Err(
                ModelDecodeError::IncompatibleVersion { .. },
            )))
            &&& input.len() > 0 ==> (report.status is Loaded <==> LearnedModelView::decoded(
                input,
            ) is Ok)
        }),
{
}

/// A decision tells of a refused alternative exactly if there was one: where it names no
/// violation, every alternative that differs from the baseline was safe.
pub proof fn law_refused_alternatives_are_told(
    controller: LearnedView,
    actions: Seq<ActionView>,
    baseline: ActionView,
    frame: ControllerFrameView,
    context: SafetyContextView,
    envelope: SafetyEnvelope,
)
    ensures
        ({
            let told = controller.picked(actions, baseline, frame, context, envelope).violation;
            &&& told matches Some(violation) ==> exists|i: int|
                0 <= i < actions.len() && (#[trigger] actions[i]).key() != baseline.key()
                    && envelope.verdict(actions[i], context) == Err::<(), _>(violation)
            &&& told is None ==> forall|i: int|
                0 <= i < actions.len() && (#[trigger] actions[i]).key() != baseline.key()
                    ==> envelope.verdict(actions[i], context) is Ok
        }),
    decreases actions.len(),
{
    if actions.len() > 0 {
        let front = actions.drop_last();
        let last = actions.len() - 1;
        law_refused_alternatives_are_told(controller, front, baseline, frame, context, envelope);
        let before = controller.picked(front, baseline, frame, context, envelope).violation;
        let told = controller.picked(actions, baseline, frame, context, envelope).violation;
        assert(actions[last] == actions.last());
        assert forall|i: int| #![trigger actions[i]] 0 <= i < last implies actions[i]
            == front[i] by {}
        if let Some(violation) = told {
            if before == told && !(actions.last().key() != baseline.key() && envelope.verdict(
                actions.last(),
                context,
            ) is Err) {
                let i = choose|i: int|
                    0 <= i < front.len() && (#[trigger] front[i]).key() != baseline.key()
                        && envelope.verdict(front[i], context) == Err::<(), _>(violation);
                assert(actions[i] == front[i]);
            } else {
                assert(envelope.verdict(actions[last], context) == Err::<(), _>(violation));
            }
        } else {
            assert forall|i: int|
                0 <= i < actions.len() && (#[trigger] actions[i]).key()
                    != baseline.key() implies envelope.verdict(actions[i], context) is Ok by {
                if i < last {
                    assert(front[i] == actions[i]);
                }
            }
        }
    }
}

} // verus!
