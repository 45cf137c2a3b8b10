//! The adaptive control loop: actions, ledger, baseline, learned model, controller.

use kivi::control::adaptive::action::{
    Action, ActionId, ActionKind, ActionObservation, ActionReason, ActionScope, ActionState,
    ActionTarget, ControllerSource, PolicyFingerprint, TabletSet, TargetSetError,
};
use kivi::control::adaptive::baseline::BaselineController;
use kivi::control::adaptive::controller::{
    ActuationError, Actuator, ActuatorReceipt, AdaptiveConfig, AdaptiveController, AdaptiveMode,
};
use kivi::control::adaptive::learned::{LearnedController, ModelDisableReason, ModelLoadStatus};
use kivi::control::adaptive::ledger::{ActionLedger, ActionLedgerConfig, LedgerRejection};
use kivi::control::adaptive::model::{LearnedModel, ModelDecodeError, MODEL_IMAGE_LEN};
use kivi::control::adaptive::objective::{
    ObjectiveBreakdown, ObjectiveScales, ObjectiveVector, ObjectiveWeights,
};
use kivi::control::adaptive::observation::{
    Confidence, ControllerFrame, FreshnessStatus, HotKey, HotnessClass, MaintenanceDebt,
    MemoryFootprint, ObservationFeatures, ObservationScope, ObservationSnapshot, ScopeSnapshot,
    StorageTraffic,
};
use kivi::control::adaptive::policy::{
    ActionCost, ActionOutcome, ActionResult, ErasureCodingLayout, ExpectedBenefit,
    MaterializationIntent, MemoryBudget, MigrationFence, MigrationRecommendation, Ppm,
    RedundancyPreference, RepairBudget, ReplicationFactor, ScrubBudget, TabletMergePolicy,
    TabletSplitPolicy,
};
use kivi::control::adaptive::safety::{
    SafetyContext, SafetyEnvelope, SafetyValidator, SafetyViolation, TopologyViolation,
};
use kivi::control::adaptive::simulation::{
    ControllerSimulation, SimulationInput, SimulationWorkload,
};
use kivi::control::adaptive::tuning::BaselineConfig;
use kivi::ids::{ClusterId, NamespaceId, NodeId, ObservationSequence, ObservationWindowId, TabletId};
use kivi::time::{Duration, Ticks};

fn ppm(pressure: f64) -> u32 {
    (pressure * 1_000_000.0).round() as u32
}

fn scope_snapshot(
    pressure: f64,
    repair_bytes: u64,
    latency_ns: u64,
    criticality: u64,
) -> ScopeSnapshot {
    ScopeSnapshot {
        scope: ObservationScope::Tablet(TabletId::from_u64(1)),
        sample_count: 8,
        confidence: Confidence::High,
        memory_pressure_ppm: Some(ppm(pressure)),
        criticality: Some(criticality),
        maintenance_debt: Some(MaintenanceDebt {
            repair_assets: 1,
            repair_bytes,
            repair_oldest_age: Duration::from_secs(10),
            scrub_bytes: 0,
        }),
        latency_p99_ns: Some(latency_ns),
        requests_per_second: None,
        memory: None,
        storage: None,
        topology: None,
        top_ten_share_ppm: 0,
        hot_keys: Vec::new(),
    }
}

fn observation(
    sequence: u64,
    pressure: f64,
    repair_bytes: u64,
    latency_ns: u64,
    criticality: u64,
) -> ObservationSnapshot {
    ObservationSnapshot {
        as_of: Ticks::from_micros(sequence),
        last_sequence: Some(ObservationSequence::from_u64(sequence)),
        accepted_samples: sequence,
        scopes: vec![scope_snapshot(pressure, repair_bytes, latency_ns, criticality)],
    }
}

fn frame(
    window: u64,
    sequence: u64,
    pressure: f64,
    repair_bytes: u64,
    latency_ns: u64,
    criticality: u64,
) -> ControllerFrame {
    ControllerFrame::new(
        observation(sequence, pressure, repair_bytes, latency_ns, criticality),
        ActionScope::new(ClusterId::from_u128(1), NamespaceId::from_u64(1)),
        ObservationSequence::from_u64(sequence),
        ObservationWindowId::from_u64(window),
        1,
        Ticks::from_micros(sequence),
    )
}

fn context() -> SafetyContext {
    SafetyContext::new(
        ActionScope::new(ClusterId::from_u128(1), NamespaceId::from_u64(1)),
        TabletId::from_u64(1),
    )
}

fn memory_action(target: u64, budget: u32) -> Action {
    Action::AdjustMemoryBudget {
        scope: ActionScope::new(ClusterId::from_u128(1), NamespaceId::from_u64(1)),
        target: TabletId::from_u64(target),
        budget: MemoryBudget::new(budget).unwrap_or(MemoryBudget::zero()),
        expected_benefit: ExpectedBenefit::new(100_000, 0, 0, 100_000, 0, 0, 0, 0, 0, 0)
            .expect("benefit"),
    }
}

fn identity(sequence: u64, window: u64) -> ActionObservation {
    ActionObservation {
        sequence: ObservationSequence::from_u64(sequence),
        window: ObservationWindowId::from_u64(window),
        version: 1,
        at: Ticks::from_micros(sequence),
    }
}

#[test]
fn legal_actions_have_closed_typed_shapes_and_keys() {
    let action = memory_action(1, 400_000);
    assert_eq!(action.kind(), ActionKind::AdjustMemoryBudget);
    assert_eq!(
        action.scope(),
        ActionScope::new(ClusterId::from_u128(1), NamespaceId::from_u64(1))
    );
    assert_eq!(action.target(), ActionTarget::Tablet(TabletId::from_u64(1)));
    assert_eq!(action.key().target, action.conflict_key().target);
    assert!(matches!(action.key().policy, PolicyFingerprint::Memory(_)));
}

#[test]
fn ledger_enforces_action_rate_and_conflict_suppression() {
    let mut ledger = ActionLedger::new(ActionLedgerConfig {
        max_history: 8,
        max_traces: 8,
        max_actions_per_window: 1,
        conflict_cooldown_windows: 10,
        duplicate_cooldown_windows: 10,
    });
    let first = ledger
        .admit_action(
            memory_action(1, 400_000),
            ActionReason::SustainedMemoryPressure,
            ControllerSource::Baseline,
            identity(1, 1),
        )
        .expect("first action");
    assert_eq!(first.state, ActionState::Proposed);
    assert!(matches!(
        ledger.admit_action(
            memory_action(2, 400_000),
            ActionReason::SustainedMemoryPressure,
            ControllerSource::Baseline,
            identity(1, 1),
        ),
        Err(LedgerRejection::RateLimit)
    ));
    assert!(matches!(
        ledger.admit_action(
            memory_action(1, 300_000),
            ActionReason::SustainedMemoryPressure,
            ControllerSource::Baseline,
            identity(2, 2),
        ),
        Err(LedgerRejection::Conflict)
    ));
}

#[test]
fn alternating_workload_does_not_flap_beyond_cooldowns() {
    let config = BaselineConfig {
        sustained_windows: 2,
        min_samples: 1,
        ..BaselineConfig::default()
    };
    let mut controller = BaselineController::new(config);
    let validator = SafetyValidator::default();
    let first = controller.propose(&frame(1, 1, 0.95, 0, 0, 0), &context(), &validator);
    let second = controller.propose(&frame(2, 2, 0.95, 0, 0, 0), &context(), &validator);
    assert!(first.actions.is_empty());
    assert!(!second.actions.is_empty());
    assert!(second.actions.len() <= 2);
    let low = controller.propose(&frame(3, 3, 0.1, 0, 0, 200), &context(), &validator);
    assert!(low.actions.is_empty() || low.actions.len() <= 2);
}

#[test]
fn uncertainty_falls_back_to_baseline() {
    let mut learned = LearnedController::default();
    let action = memory_action(1, 400_000);
    let decision = learned.suggest(
        &frame(1, 1, 0.5, 0, 0, 0),
        &context(),
        Some(&action),
        &SafetyValidator::default(),
    );
    assert!(decision.fallback_to_baseline);
    assert_eq!(decision.action, Some(action));
}

#[test]
fn unsafe_learned_suggestion_is_rejected_by_safety() {
    let mut context = context();
    context.representation_reconstructible = false;
    let action = Action::ChangeMaterializationIntent {
        scope: context.scope,
        target: context.primary_target,
        intent: MaterializationIntent::Evict,
        expected_benefit: ExpectedBenefit::zero(),
    };
    assert_eq!(
        SafetyValidator::default().validate(&action, &context),
        Err(SafetyViolation::UnrepresentableDemotion)
    );
}

struct CountingActuator {
    calls: u32,
}

impl Actuator for CountingActuator {
    fn execute(
        &mut self,
        action_id: ActionId,
        _action: &Action,
    ) -> Result<ActuatorReceipt, ActuationError> {
        self.calls = self.calls.saturating_add(1);
        Ok(ActuatorReceipt::new(
            action_id,
            ActionOutcome::success(ExpectedBenefit::zero(), Duration::zero(), ActionCost::zero()),
        ))
    }
}

#[test]
fn shadow_mode_never_actuates() {
    let config = AdaptiveConfig {
        mode: AdaptiveMode::Shadow,
        ..AdaptiveConfig::default()
    };
    let mut controller = AdaptiveController::new(config, BaselineController::default(), None);
    let mut actuator = CountingActuator { calls: 0 };
    let result = controller.execute(
        &mut actuator,
        ActionId::first(),
        ActionObservation {
            sequence: ObservationSequence::first(),
            window: ObservationWindowId::first(),
            version: 1,
            at: Ticks::from_micros(1),
        },
    );
    assert!(matches!(result, Err(ActuationError::ShadowMode)));
    assert_eq!(actuator.calls, 0);
}

#[test]
fn lifecycle_and_conflict_identity_are_explicit() {
    let mut ledger = ActionLedger::default();
    let observation = ActionObservation {
        sequence: ObservationSequence::first(),
        window: ObservationWindowId::first(),
        version: 1,
        at: Ticks::from_micros(1),
    };
    let first = ledger
        .admit_action(
            memory_action(1, 400_000),
            ActionReason::SustainedMemoryPressure,
            ControllerSource::Baseline,
            observation,
        )
        .expect("action");
    assert!(ActionState::Proposed.can_transition_to(ActionState::Accepted));
    assert!(!ActionState::Completed.can_transition_to(ActionState::Executing));
    ledger
        .transition(first.id, ActionState::Accepted, observation, None)
        .expect("accepted");
    ledger
        .transition(first.id, ActionState::Executing, observation, None)
        .expect("executing");
    let completed = ledger
        .record_outcome(
            first.id,
            observation,
            ActionOutcome::success(ExpectedBenefit::zero(), Duration::zero(), ActionCost::zero()),
        )
        .expect("completed");
    assert_eq!(completed.state, ActionState::Completed);
}

#[test]
fn model_corruption_is_rejected_and_falls_back() {
    let mut learned = LearnedController::default();
    let mut bytes = learned.encode();
    let last = bytes.len() - 1;
    bytes[last] ^= 1;
    let report = learned.load(&bytes);
    assert_eq!(report.status, ModelLoadStatus::Corrupt);
    assert!(!learned.is_enabled());
    assert_eq!(learned.model().samples(), 0);
}

#[test]
fn objective_dimensions_are_explicit_before_scalarization() {
    let raw = ObjectiveBreakdown {
        latency: 500_000,
        throughput: 250_000,
        resource: 0,
        memory: 100_000,
        storage: 0,
        network: 0,
        repair_debt: 100_000,
        durability_risk: 0,
        movement_cost: -50_000,
        churn: -10_000,
    };
    let vector = ObjectiveVector::new(
        raw,
        ObjectiveScales::uniform(1_000_000),
        ObjectiveWeights::equal(),
    )
    .expect("valid objective");
    assert_eq!(vector.normalized.latency, 500_000);
    assert_eq!(vector.normalized.movement_cost, -50_000);
    assert!(vector.scalar_score() > 0);
    // Ten equal weights: the mean of the ten dimensions.
    assert_eq!(vector.scalar_score(), 89_000);
}

#[test]
fn ledger_never_evicts_an_active_action_to_make_history_room() {
    let mut ledger = ActionLedger::new(ActionLedgerConfig {
        max_history: 1,
        max_traces: 4,
        max_actions_per_window: 8,
        conflict_cooldown_windows: 0,
        duplicate_cooldown_windows: 0,
    });
    let observation = ActionObservation {
        sequence: ObservationSequence::first(),
        window: ObservationWindowId::first(),
        version: 1,
        at: Ticks::from_micros(1),
    };
    let first = ledger
        .admit_action(
            memory_action(1, 400_000),
            ActionReason::SustainedMemoryPressure,
            ControllerSource::Baseline,
            observation,
        )
        .expect("first action");
    assert!(matches!(
        ledger.admit_action(
            memory_action(2, 300_000),
            ActionReason::SustainedMemoryPressure,
            ControllerSource::Baseline,
            observation,
        ),
        Err(LedgerRejection::RateLimit)
    ));
    assert!(ledger.record(first.id).is_some());
    ledger
        .transition(first.id, ActionState::Accepted, observation, None)
        .expect("accepted");
    ledger
        .transition(first.id, ActionState::Executing, observation, None)
        .expect("executing");
    ledger
        .record_outcome(
            first.id,
            observation,
            ActionOutcome::success(ExpectedBenefit::zero(), Duration::zero(), ActionCost::zero()),
        )
        .expect("completed");
    assert!(ledger
        .admit_action(
            memory_action(2, 300_000),
            ActionReason::SustainedMemoryPressure,
            ControllerSource::Baseline,
            observation,
        )
        .is_ok());
}

#[test]
fn baseline_policy_state_changes_only_after_an_actuator_outcome() {
    let mut baseline = BaselineController::new(BaselineConfig {
        sustained_windows: 1,
        min_samples: 1,
        ..BaselineConfig::default()
    });
    let proposal = baseline.propose(
        &frame(1, 1, 0.95, 0, 0, 0),
        &context(),
        &SafetyValidator::default(),
    );
    let action = proposal
        .actions
        .iter()
        .find(|action| matches!(action, Action::ChangeMaterializationIntent { .. }))
        .expect("materialization action")
        .clone();
    assert_eq!(baseline.policy_state().3, MaterializationIntent::Materialize);
    baseline.on_outcome(
        &action,
        &ActionOutcome::failed(ActionResult::Failed, Duration::zero(), ActionCost::zero()),
    );
    assert_eq!(baseline.policy_state().3, MaterializationIntent::Materialize);
    baseline.on_outcome(
        &action,
        &ActionOutcome::success(action.expected_benefit(), Duration::zero(), ActionCost::zero()),
    );
    assert_ne!(baseline.policy_state().3, MaterializationIntent::Materialize);
}

#[test]
fn shares_saturate_between_nothing_and_all() {
    assert!(Ppm::new(1_000_001).is_none());
    let most = Ppm::new(900_000).expect("share");
    let step = Ppm::new(200_000).expect("share");
    assert_eq!(most.saturating_add(step).as_u32(), 1_000_000);
    assert_eq!(step.saturating_sub(most).as_u32(), 0);
    assert_eq!(most.saturating_sub(step).as_u64(), 700_000);
    assert_eq!(Ppm::one().as_u32(), 1_000_000);
    assert!(MemoryBudget::new(1_000_001).is_none());
    assert_eq!(RepairBudget::new(5).expect("budget").as_ppm().as_u32(), 5);
    assert_eq!(ScrubBudget::zero().saturating_add(step).as_ppm().as_u32(), 200_000);
    assert!(ExpectedBenefit::new(0, 0, 0, 0, 0, 0, 0, 0, 0, 1_000_001).is_none());
}

#[test]
fn policies_reject_degenerate_shapes() {
    assert!(ReplicationFactor::new(0).is_none());
    assert_eq!(ReplicationFactor::new(3).expect("factor").as_u8(), 3);
    let layout = ErasureCodingLayout::new(4, 2).expect("layout");
    assert_eq!(layout.data_fragments(), 4);
    assert_eq!(layout.parity_fragments(), 2);
    assert_eq!(layout.fragment_count(), 6);
    assert_eq!(RedundancyPreference::ErasureCoding(layout).fragment_count(), 6);
    assert!(ErasureCodingLayout::new(0, 2).is_none());
    assert!(ErasureCodingLayout::new(200, 100).is_none());
    assert!(TabletSplitPolicy::new(0, 2).is_none());
    assert!(TabletMergePolicy::new(1, 1).is_none());
    assert!(MigrationFence::new(0).is_none());
    let fence = MigrationFence::initial();
    let (one, two) = (NodeId::from_u64(1), NodeId::from_u64(2));
    assert!(MigrationRecommendation::new(one, one, fence, 1).is_none());
    assert!(MigrationRecommendation::new(one, two, fence, 1).is_some());
}

#[test]
fn tablet_sets_are_sorted_and_distinct() {
    assert!(matches!(TabletSet::new(Vec::new()), Err(TargetSetError::Empty)));
    assert!(matches!(
        TabletSet::new(vec![TabletId::from_u64(2), TabletId::from_u64(2)]),
        Err(TargetSetError::Duplicate)
    ));
    let set = TabletSet::new(vec![TabletId::from_u64(9), TabletId::from_u64(2)]).expect("set");
    assert_eq!(set.as_slice(), &[TabletId::from_u64(2), TabletId::from_u64(9)]);
    assert_eq!(set.len(), 2);
    assert!(!set.is_empty());
    assert!(set.contains(TabletId::from_u64(9)));
    assert!(!set.contains(TabletId::from_u64(3)));
}

#[test]
fn ledger_rejects_duplicates_unknown_actions_and_illegal_steps() {
    let mut ledger = ActionLedger::default();
    let first = ledger
        .admit_action(
            memory_action(1, 400_000),
            ActionReason::SustainedMemoryPressure,
            ControllerSource::Baseline,
            identity(1, 1),
        )
        .expect("first");
    assert!(matches!(
        ledger.admit_action(
            memory_action(1, 400_000),
            ActionReason::SustainedMemoryPressure,
            ControllerSource::Baseline,
            identity(2, 2),
        ),
        Err(LedgerRejection::Duplicate)
    ));
    assert!(matches!(
        ledger.transition(ActionId::from_u64(77), ActionState::Accepted, identity(2, 2), None),
        Err(LedgerRejection::UnknownAction)
    ));
    assert!(matches!(
        ledger.transition(first.id, ActionState::Executing, identity(2, 2), None),
        Err(LedgerRejection::IllegalTransition)
    ));
    assert_eq!(ledger.active_records().len(), 1);
    assert_eq!(ledger.records().len(), 1);
}

#[test]
fn model_images_round_trip_and_name_their_faults() {
    let mut model = LearnedModel::new();
    model.update(&[1_000_000, 0, 0, 0, 0, 0, 0, 0, 0, 0, 0], 500_000, 100_000, 1_000);
    let image = model.encode();
    assert_eq!(image.len(), MODEL_IMAGE_LEN);
    let back = LearnedModel::decode(&image).expect("decodes");
    assert_eq!(back.samples(), 1);
    assert_eq!(back.encode(), image);
    assert!(matches!(LearnedModel::decode(&image[..5]), Err(ModelDecodeError::Truncated)));
    let mut magic = image.clone();
    magic[0] ^= 0xFF;
    assert!(matches!(LearnedModel::decode(&magic), Err(ModelDecodeError::BadMagic)));
    let mut version = image.clone();
    version[4] ^= 0xFF;
    assert!(matches!(
        LearnedModel::decode(&version),
        Err(ModelDecodeError::IncompatibleVersion { .. })
    ));
    assert!(matches!(
        LearnedModel::decode(&vec![0u8; 65_537]),
        Err(ModelDecodeError::TooLarge)
    ));
}

#[test]
fn a_disabled_model_keeps_to_the_baseline() {
    let mut learned = LearnedController::default();
    learned.disable(ModelDisableReason::ExplicitlyDisabled);
    assert_eq!(learned.disable_reason(), Some(ModelDisableReason::ExplicitlyDisabled));
    let action = memory_action(1, 400_000);
    let decision = learned.suggest(
        &frame(1, 1, 0.5, 0, 0, 0),
        &context(),
        Some(&action),
        &SafetyValidator::default(),
    );
    assert!(decision.fallback_to_baseline);
    assert_eq!(decision.source, ControllerSource::LearnedShadow);
    learned.enable();
    assert!(learned.is_enabled());
}

#[test]
fn envelope_names_each_violation() {
    let validator = SafetyValidator::default();
    assert!(SafetyEnvelope::default().is_valid());
    let action = memory_action(1, 400_000);
    assert_eq!(validator.validate(&action, &context()), Ok(()));

    let mut foreign = context();
    foreign.scope = ActionScope::new(ClusterId::from_u128(2), NamespaceId::from_u64(1));
    assert_eq!(
        validator.validate(&action, &foreign),
        Err(SafetyViolation::ScopeMismatch)
    );

    let mut unsure = context();
    unsure.confidence = Confidence::Low;
    assert_eq!(
        validator.validate(&action, &unsure),
        Err(SafetyViolation::LowConfidence)
    );

    let mut old = context();
    old.freshness = FreshnessStatus::Stale;
    assert_eq!(
        validator.validate(&action, &old),
        Err(SafetyViolation::StaleObservation)
    );

    let mut busy = context();
    busy.actions_in_window = u32::MAX;
    assert_eq!(
        validator.validate(&action, &busy),
        Err(SafetyViolation::ActionRateCeiling)
    );

    let thin = Action::ChangeRedundancyPreference {
        scope: context().scope,
        target: TabletId::from_u64(1),
        preference: RedundancyPreference::Replication(ReplicationFactor::new(1).expect("factor")),
        expected_benefit: ExpectedBenefit::zero(),
    };
    assert_eq!(
        validator.validate(&thin, &context()),
        Err(SafetyViolation::RedundancyBelowMinimum)
    );

    let split = Action::RecommendTabletSplit {
        scope: context().scope,
        target: TabletId::from_u64(1),
        policy: TabletSplitPolicy::new(1 << 30, 2).expect("policy"),
        expected_benefit: ExpectedBenefit::zero(),
    };
    let mut small = context();
    small.target_logical_bytes = 5;
    assert_eq!(
        validator.validate(&split, &small),
        Err(SafetyViolation::TopologyInvariant(TopologyViolation::SplitTooSmall {
            bytes: 5,
            minimum: 1 << 30,
        }))
    );
}

#[test]
fn features_tell_one_hot_key_from_many() {
    let config = BaselineConfig::default();
    let mut snapshot = scope_snapshot(0.5, 0, 0, 0);
    snapshot.memory = Some(MemoryFootprint { logical_bytes: 10, resident_bytes: 7 });
    snapshot.storage = Some(StorageTraffic { read: 5, written: 6 });
    snapshot.top_ten_share_ppm = 990_000;
    snapshot.hot_keys = vec![HotKey { share_ppm: 990_000, hotness: HotnessClass::Hot }];
    let features = ObservationFeatures::from_snapshot(&snapshot, &config);
    assert_eq!(features.memory_pressure_ppm, 500_000);
    assert_eq!(features.resident_bytes, 7);
    assert_eq!(features.logical_bytes, 10);
    assert_eq!(features.storage_read_bytes, 5);
    assert_eq!(features.storage_written_bytes, 6);
    assert_eq!(features.hot_key_count, 1);
    assert_eq!(features.top_key_share_ppm, 990_000);
    assert!(features.strict_single_hot_key);
    assert!(!features.many_key_hotspot);
}

#[test]
fn an_active_round_runs_to_completion() {
    let mut controller = AdaptiveController::new(
        AdaptiveConfig::default(),
        BaselineController::new(BaselineConfig {
            sustained_windows: 1,
            min_samples: 1,
            ..BaselineConfig::default()
        }),
        None,
    );
    controller.set_mode(AdaptiveMode::Active);
    let decision = controller.decide(&frame(1, 1, 0.95, 0, 0, 0), &context());
    assert!(!decision.active_actions.is_empty());
    let mut actuator = CountingActuator { calls: 0 };
    let id = decision.active_actions[0].id;
    let done = controller.execute(&mut actuator, id, identity(1, 1)).expect("executes");
    assert_eq!(done.state, ActionState::Completed);
    assert_eq!(actuator.calls, 1);
    assert_eq!(controller.stats().get(ControllerSource::Baseline).completed, 1);
    // Once settled, an action never runs again.
    assert!(matches!(
        controller.execute(&mut actuator, id, identity(2, 2)),
        Err(ActuationError::IllegalState)
    ));
    assert_eq!(actuator.calls, 1);
    assert!(matches!(
        controller.execute(&mut actuator, ActionId::from_u64(999), identity(2, 2)),
        Err(ActuationError::UnknownAction)
    ));
}

#[test]
fn simulations_replay_alike() {
    let run = || {
        let mut controller = AdaptiveController::new(
            AdaptiveConfig::default(),
            BaselineController::new(BaselineConfig {
                sustained_windows: 1,
                min_samples: 1,
                ..BaselineConfig::default()
            }),
            None,
        );
        let inputs = vec![
            SimulationInput::new(observation(1, 0.95, 0, 0, 0), context()),
            SimulationInput::new(observation(2, 0.95, 0, 0, 0), context()),
            SimulationInput::new(observation(3, 0.1, 0, 0, 200), context()),
        ];
        let workload = SimulationWorkload::new(7, inputs);
        let mut simulation = ControllerSimulation::new(
            7,
            ObservationSequence::first(),
            ObservationWindowId::first(),
            Ticks::from_micros(1),
            Duration::from_secs(1),
        );
        let mut actuator = CountingActuator { calls: 0 };
        let report = simulation.run(&mut controller, &workload, &mut actuator);
        (report, actuator.calls)
    };
    let (first, calls) = run();
    let (second, again) = run();
    assert_eq!(first, second);
    assert_eq!(calls, again);
    assert_eq!(first.steps, 3);
    assert_eq!(first.seed, 7);
    assert_eq!(first.executed, calls as u64);
}

#[test]
fn superseding_links_both_records() {
    let mut ledger = ActionLedger::new(ActionLedgerConfig {
        max_history: 8,
        max_traces: 8,
        max_actions_per_window: 8,
        conflict_cooldown_windows: 0,
        duplicate_cooldown_windows: 0,
    });
    let reason = ActionReason::SustainedMemoryPressure;
    let source = ControllerSource::Baseline;
    let older = ledger
        .admit_action(memory_action(1, 400_000), reason, source, identity(1, 1))
        .expect("first action")
        .id;
    let newer = ledger
        .admit_action(memory_action(2, 300_000), reason, source, identity(2, 2))
        .expect("second action")
        .id;
    let unknown = ActionId::from_u64(99);
    assert_eq!(
        ledger.supersede(older, older, identity(3, 3)),
        Err(LedgerRejection::UnknownAction)
    );
    assert_eq!(
        ledger.supersede(older, unknown, identity(3, 3)),
        Err(LedgerRejection::UnknownAction)
    );
    assert_eq!(ledger.supersede(older, newer, identity(3, 3)), Ok(()));
    let replaced = ledger.record(older).expect("kept");
    assert_eq!(replaced.state, ActionState::Superseded);
    assert_eq!(replaced.superseded_by, Some(newer));
    assert_eq!(ledger.record(newer).expect("kept").supersedes, Some(older));
    assert_eq!(
        ledger.supersede(older, newer, identity(4, 4)),
        Err(LedgerRejection::IllegalTransition)
    );
}

#[test]
fn receipts_from_elsewhere_settle_an_action_once() {
    let mut controller = AdaptiveController::new(
        AdaptiveConfig::default(),
        BaselineController::new(BaselineConfig {
            sustained_windows: 1,
            min_samples: 1,
            ..BaselineConfig::default()
        }),
        None,
    );
    controller.set_mode(AdaptiveMode::Active);
    let id = controller.decide(&frame(1, 1, 0.95, 0, 0, 0), &context()).active_actions[0].id;
    let outcome = ActionOutcome::no_change(Duration::from_millis(3), ActionCost::zero());
    assert_eq!(outcome.result, ActionResult::NoChange);
    let receipt = ActuatorReceipt::new(id, outcome);
    let record = controller.apply_receipt(receipt, identity(2, 2)).expect("settles");
    assert!(record.state.is_terminal());
    let receipt = ActuatorReceipt::new(id, outcome);
    assert!(matches!(
        controller.apply_receipt(receipt, identity(3, 3)),
        Err(ActuationError::IllegalState)
    ));
    let receipt = ActuatorReceipt::new(ActionId::from_u64(999), outcome);
    assert!(matches!(
        controller.apply_receipt(receipt, identity(3, 3)),
        Err(ActuationError::UnknownAction)
    ));
}

#[test]
fn validators_can_be_replaced() {
    let mut controller = AdaptiveController::default();
    let tight = SafetyEnvelope { maximum_actions_per_window: 1, ..SafetyEnvelope::default() };
    controller.set_safety_validator(SafetyValidator::new(tight));
    assert_eq!(controller.safety_validator().envelope(), &tight);
}

fn eager() -> BaselineController {
    BaselineController::new(BaselineConfig {
        sustained_windows: 1,
        min_samples: 1,
        ..BaselineConfig::default()
    })
}

#[test]
fn a_bad_image_disables_the_model_and_keeps_what_it_learned() {
    let mut learned = LearnedController::default();
    let outcome =
        ActionOutcome::success(ExpectedBenefit::zero(), Duration::zero(), ActionCost::zero());
    learned
        .observe_outcome(
            &frame(1, 1, 0.5, 0, 0, 0),
            &context(),
            &memory_action(1, 400_000),
            &outcome,
            &SafetyValidator::default(),
        )
        .expect("safe");
    assert_eq!(learned.model().samples(), 1);
    let image = learned.encode();
    for fault in [0, 4, image.len() - 1] {
        let mut bad = image.clone();
        bad[fault] ^= 1;
        let report = learned.load(&bad);
        assert_ne!(report.status, ModelLoadStatus::Loaded);
        assert!(!learned.is_enabled());
        assert_eq!(learned.model().samples(), 1);
        assert_eq!(learned.encode(), image);
    }
    // A good image loads, and leaves it to the operator to enable the model.
    let report = learned.load(&image);
    assert_eq!(report.status, ModelLoadStatus::Loaded);
    assert!(report.disabled);
}

#[test]
fn statistics_count_rejections_and_fallbacks() {
    let mut controller = AdaptiveController::new(
        AdaptiveConfig::default(),
        eager(),
        Some(LearnedController::default()),
    );
    let mut stale = context();
    stale.freshness = FreshnessStatus::Stale;
    let seen = frame(1, 1, 0.95, 0, 0, 0);
    let proposal = eager().propose(&seen, &stale, &SafetyValidator::default());
    assert!(!proposal.violations.is_empty());
    assert!(proposal.fallback);
    let decision = controller.decide(&seen, &stale);
    assert!(decision.fallback);
    let baseline = controller.stats().get(ControllerSource::Baseline);
    assert_eq!(baseline.proposed, 0);
    assert_eq!(baseline.rejected, proposal.violations.len() as u64);
    assert_eq!(baseline.fallbacks, 1);
    let learned = controller.stats().get(ControllerSource::LearnedShadow);
    assert_eq!(learned.proposed, 1);
    assert_eq!(learned.fallbacks, 1);

    // A round that proposes counts no fallback of the baseline.
    controller.decide(&frame(2, 2, 0.95, 0, 0, 0), &context());
    let baseline = controller.stats().get(ControllerSource::Baseline);
    assert!(baseline.proposed > 0);
    assert_eq!(baseline.rejected, proposal.violations.len() as u64);
    assert_eq!(baseline.fallbacks, 1);
}

#[test]
fn copies_go_on_by_themselves() {
    let mut baseline = eager();
    let copy = baseline.clone();
    let validator = SafetyValidator::default();
    let seen = frame(1, 1, 0.95, 0, 0, 0);
    let first = baseline.propose(&seen, &context(), &validator);
    assert_eq!(copy.clone().propose(&seen, &context(), &validator), first);
    let mut model = LearnedModel::new();
    let before = model.clone();
    model.update(&[1_000_000, 0, 0, 0, 0, 0, 0, 0, 0, 0, 0], 500_000, 100_000, 1_000);
    assert_eq!(before, LearnedModel::new());
    assert_ne!(model, before);
    let mut learned = LearnedController::default();
    let kept = learned.clone();
    learned.disable(ModelDisableReason::ExplicitlyDisabled);
    assert!(kept.is_enabled());
}

struct RecordingActuator {
    asked: Vec<(ActionId, ActionKind)>,
}

impl Actuator for RecordingActuator {
    fn execute(
        &mut self,
        action_id: ActionId,
        action: &Action,
    ) -> Result<ActuatorReceipt, ActuationError> {
        self.asked.push((action_id, action.kind()));
        Err(ActuationError::Rejected)
    }
}

#[test]
fn simulations_ask_the_actuator_for_what_was_admitted() {
    let mut controller = AdaptiveController::new(AdaptiveConfig::default(), eager(), None);
    controller.set_mode(AdaptiveMode::Active);
    let inputs = vec![SimulationInput::new(observation(1, 0.95, 0, 0, 0), context())];
    let workload = SimulationWorkload::new(7, inputs);
    let mut simulation = ControllerSimulation::new(
        7,
        ObservationSequence::first(),
        ObservationWindowId::first(),
        Ticks::from_micros(1),
        Duration::from_secs(1),
    );
    let mut actuator = RecordingActuator { asked: Vec::new() };
    let report = simulation.run(&mut controller, &workload, &mut actuator);
    assert!(report.admitted > 0);
    assert_eq!(actuator.asked.len() as u64, report.admitted);
    for (id, kind) in &actuator.asked {
        let record = controller.ledger().record(*id).expect("kept");
        assert_eq!(record.action.kind(), *kind);
        assert_eq!(record.state, ActionState::Failed);
    }
    assert_eq!(report.executed, 0);
}

struct LyingActuator;

impl Actuator for LyingActuator {
    fn execute(
        &mut self,
        _action_id: ActionId,
        _action: &Action,
    ) -> Result<ActuatorReceipt, ActuationError> {
        Ok(ActuatorReceipt::new(
            ActionId::from_u64(999),
            ActionOutcome::success(ExpectedBenefit::zero(), Duration::zero(), ActionCost::zero()),
        ))
    }
}

#[test]
fn refused_and_foreign_receipts_count_as_failed() {
    for foreign in [false, true] {
        let mut controller = AdaptiveController::new(AdaptiveConfig::default(), eager(), None);
        controller.set_mode(AdaptiveMode::Active);
        let decision = controller.decide(&frame(1, 1, 0.95, 0, 0, 0), &context());
        let id = decision.active_actions[0].id;
        let error = if foreign {
            controller.execute(&mut LyingActuator, id, identity(1, 1))
        } else {
            controller.execute(&mut RecordingActuator { asked: Vec::new() }, id, identity(1, 1))
        }
        .expect_err("fails");
        let expected = if foreign {
            ActuationError::MismatchedReceipt
        } else {
            ActuationError::Rejected
        };
        assert_eq!(error, expected);
        let stats = controller.stats().get(ControllerSource::Baseline);
        assert_eq!((stats.executed, stats.completed, stats.failed), (1, 0, 1));
    }
}
