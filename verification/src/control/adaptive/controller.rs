//! Orchestrator of baseline, optional learned shadow, safety and ledger.

use crate::bounded::{bounded_push, keep_newest, newest};
use crate::control::adaptive::action::{
    Action, ActionId, ActionObservation, ActionReason, ActionState, ActionView, ControllerSource,
};
use crate::control::adaptive::baseline::{
    action_views, law_proposed_actions_are_safe, BaselineController, BaselineProposal,
    BaselineView,
};
use crate::control::adaptive::learned::{
    view_ref, LearnedController, LearnedDecision, LearnedView,
};
use crate::control::adaptive::ledger::{
    push_bounded, record_views, trace_views, ActionLedger, ActionLedgerConfig, ActionRecord,
    ActionRecordView, DecisionTrace, DecisionTraceView, LedgerView, TraceStatus,
};
use crate::control::adaptive::observation::{ControllerFrame, ControllerFrameView};
use crate::control::adaptive::policy::{
    capped_sum, ActionCost, ActionOutcome, ActionResult, ExpectedBenefit,
};
use crate::control::adaptive::safety::{
    SafetyContext, SafetyContextView, SafetyEnvelope, SafetyValidator,
};
use crate::control::adaptive::tuning::BaselineConfig;
use crate::search::{
    first_where, lemma_first_where, lemma_first_where_absent, lemma_first_where_found,
};
use crate::time::Duration;
use crate::wire::view_result;
use vstd::prelude::*;

verus! {

/// Overall adaptive operating mode.
#[derive(Debug, Clone, Copy, PartialEq, Eq, Hash, Structural)]
pub enum AdaptiveMode {
    /// Baseline actions may be executed.
    Active,
    /// All generated actions are shadow-only.
    Shadow,
}

/// Execution statistics of one source.
#[derive(Debug, Clone, Copy, PartialEq, Eq, Structural)]
pub struct ControllerStats {
    /// Number of generated actions.
    pub proposed: u64,
    /// Number admitted to the ledger.
    pub accepted: u64,
    /// Number rejected by safety.
    pub rejected: u64,
    /// Number suppressed by ledger policy.
    pub suppressed: u64,
    /// Number handed to an actuator.
    pub executed: u64,
    /// Number completed successfully.
    pub completed: u64,
    /// Number failed.
    pub failed: u64,
    /// Number of baseline fallbacks.
    pub fallbacks: u64,
}

impl ControllerStats {
    /// Nothing counted.
    pub open spec fn none() -> Self {
        ControllerStats {
            proposed: 0,
            accepted: 0,
            rejected: 0,
            suppressed: 0,
            executed: 0,
            completed: 0,
            failed: 0,
            fallbacks: 0,
        }
    }
}

impl Default for ControllerStats {
    fn default() -> (stats: Self)
        ensures
            stats == Self::none(),
    {
        ControllerStats {
            proposed: 0,
            accepted: 0,
            rejected: 0,
            suppressed: 0,
            executed: 0,
            completed: 0,
            failed: 0,
            fallbacks: 0,
        }
    }
}

/// Execution statistics of every source.
#[derive(Debug, Clone, Copy, PartialEq, Eq, Structural)]
pub struct StatsTable {
    /// Statistics of the baseline.
    pub baseline: ControllerStats,
    /// Statistics of the learned shadow.
    pub learned_shadow: ControllerStats,
    /// Statistics of the learned controller.
    pub learned: ControllerStats,
}

impl StatsTable {
    /// Nothing counted for any source.
    pub open spec fn none() -> Self {
        StatsTable {
            baseline: ControllerStats::none(),
            learned_shadow: ControllerStats::none(),
            learned: ControllerStats::none(),
        }
    }

    /// The statistics of `source`.
    pub open spec fn of(self, source: ControllerSource) -> ControllerStats {
        match source {
            ControllerSource::Baseline => self.baseline,
            ControllerSource::LearnedShadow => self.learned_shadow,
            ControllerSource::Learned => self.learned,
        }
    }

    /// The table with other statistics for `source`.
    pub open spec fn with(self, source: ControllerSource, stats: ControllerStats) -> Self {
        match source {
            ControllerSource::Baseline => StatsTable { baseline: stats, ..self },
            ControllerSource::LearnedShadow => StatsTable { learned_shadow: stats, ..self },
            ControllerSource::Learned => StatsTable { learned: stats, ..self },
        }
    }

    /// `count` more proposals of `source`.
    pub open spec fn more_proposed(self, source: ControllerSource, count: u64) -> Self {
        let stats = self.of(source);
        self.with(
            source,
            ControllerStats { proposed: capped_sum(stats.proposed, count), ..stats },
        )
    }

    /// The table with more proposals of a source that safety rejected.
    pub open spec fn more_rejected(self, source: ControllerSource, count: u64) -> Self {
        let stats = self.of(source);
        self.with(
            source,
            ControllerStats { rejected: capped_sum(stats.rejected, count), ..stats },
        )
    }

    /// The table after a round of a source, with one more fallback where it fell back.
    pub open spec fn after_round(self, source: ControllerSource, fell_back: bool) -> Self {
        let stats = self.of(source);
        if fell_back {
            self.with(
                source,
                ControllerStats { fallbacks: capped_sum(stats.fallbacks, 1), ..stats },
            )
        } else {
            self
        }
    }

    /// One more admission of `source`.
    pub open spec fn one_accepted(self, source: ControllerSource) -> Self {
        let stats = self.of(source);
        self.with(source, ControllerStats { accepted: capped_sum(stats.accepted, 1), ..stats })
    }

    /// One more suppression of `source`.
    pub open spec fn one_suppressed(self, source: ControllerSource) -> Self {
        let stats = self.of(source);
        self.with(source, ControllerStats { suppressed: capped_sum(stats.suppressed, 1), ..stats })
    }

    /// One more execution of `source`.
    pub open spec fn one_executed(self, source: ControllerSource) -> Self {
        let stats = self.of(source);
        self.with(source, ControllerStats { executed: capped_sum(stats.executed, 1), ..stats })
    }

    /// One more outcome of `source`.
    pub open spec fn one_outcome(self, source: ControllerSource, success: bool) -> Self {
        let stats = self.of(source);
        self.with(
            source,
            if success {
                ControllerStats { completed: capped_sum(stats.completed, 1), ..stats }
            } else {
                ControllerStats { failed: capped_sum(stats.failed, 1), ..stats }
            },
        )
    }

    /// Returns the statistics of `source`.
    pub fn get(&self, source: ControllerSource) -> (stats: ControllerStats)
        ensures
            stats == self.of(source),
    {
        match source {
            ControllerSource::Baseline => self.baseline,
            ControllerSource::LearnedShadow => self.learned_shadow,
            ControllerSource::Learned => self.learned,
        }
    }

    fn put(&mut self, source: ControllerSource, stats: ControllerStats)
        ensures
            *final(self) == old(self).with(source, stats),
    {
        match source {
            ControllerSource::Baseline => {
                self.baseline = stats;
            },
            ControllerSource::LearnedShadow => {
                self.learned_shadow = stats;
            },
            ControllerSource::Learned => {
                self.learned = stats;
            },
        }
    }

    fn count_proposed(&mut self, source: ControllerSource, count: u64)
        ensures
            *final(self) == old(self).more_proposed(source, count),
    {
        let stats: ControllerStats = self.get(source);
        self.put(
            source,
            ControllerStats { proposed: stats.proposed.saturating_add(count), ..stats },
        );
    }

    fn count_rejected(&mut self, source: ControllerSource, count: u64)
        ensures
            *final(self) == old(self).more_rejected(source, count),
    {
        let stats: ControllerStats = self.get(source);
        self.put(
            source,
            ControllerStats { rejected: stats.rejected.saturating_add(count), ..stats },
        );
    }

    fn count_round(&mut self, source: ControllerSource, fell_back: bool)
        ensures
            *final(self) == old(self).after_round(source, fell_back),
    {
        if fell_back {
            let stats: ControllerStats = self.get(source);
            self.put(
                source,
                ControllerStats { fallbacks: stats.fallbacks.saturating_add(1), ..stats },
            );
        }
    }

    fn count_accepted(&mut self, source: ControllerSource)
        ensures
            *final(self) == old(self).one_accepted(source),
    {
        let stats: ControllerStats = self.get(source);
        self.put(source, ControllerStats { accepted: stats.accepted.saturating_add(1), ..stats });
    }

    fn count_suppressed(&mut self, source: ControllerSource)
        ensures
            *final(self) == old(self).one_suppressed(source),
    {
        let stats: ControllerStats = self.get(source);
        self.put(
            source,
            ControllerStats { suppressed: stats.suppressed.saturating_add(1), ..stats },
        );
    }

    fn count_executed(&mut self, source: ControllerSource)
        ensures
            *final(self) == old(self).one_executed(source),
    {
        let stats: ControllerStats = self.get(source);
        self.put(source, ControllerStats { executed: stats.executed.saturating_add(1), ..stats });
    }

    fn count_outcome(&mut self, source: ControllerSource, success: bool)
        ensures
            *final(self) == old(self).one_outcome(source, success),
    {
        let stats: ControllerStats = self.get(source);
        if success {
            self.put(
                source,
                ControllerStats { completed: stats.completed.saturating_add(1), ..stats },
            );
        } else {
            self.put(source, ControllerStats { failed: stats.failed.saturating_add(1), ..stats });
        }
    }
}

/// Action returned by an actuator after execution.
#[derive(Debug, Clone, Copy, PartialEq, Eq, Structural)]
pub struct ActuatorReceipt {
    /// Action identity acknowledged by the actuator.
    pub action_id: ActionId,
    /// Actual action outcome.
    pub outcome: ActionOutcome,
}

impl ActuatorReceipt {
    /// Creates a receipt for an action.
    pub fn new(action_id: ActionId, outcome: ActionOutcome) -> (receipt: Self)
        ensures
            receipt == (ActuatorReceipt { action_id, outcome }),
    {
        ActuatorReceipt { action_id, outcome }
    }
}

/// Failure returned by the adaptive execution boundary.
#[derive(Debug, Clone, Copy, PartialEq, Eq, Structural)]
pub enum ActuationError {
    /// Shadow mode never actuates actions.
    ShadowMode,
    /// The action ID is not retained by the ledger.
    UnknownAction,
    /// The action was not in a legal pre-execution state.
    IllegalState,
    /// The actuator rejected the request.
    Rejected,
    /// The actuator returned a receipt for a different action.
    MismatchedReceipt,
}

/// Execution boundary for adaptive actions.
pub trait Actuator {
    /// Executes one action and returns its receipt.
    fn execute(&mut self, action_id: ActionId, action: &Action) -> Result<
        ActuatorReceipt,
        ActuationError,
    >;
}

fn ask<A: Actuator>(actuator: &mut A, action_id: ActionId, action: &Action) -> (reply: Result<
    ActuatorReceipt,
    ActuationError,
>)
    ensures
        exists|asked: &mut A|
            #![trigger call_ensures(A::execute, (asked, action_id, action), reply)]
            {
                &&& *asked == *old(actuator)
                &&& *final(asked) == *final(actuator)
                &&& call_ensures(A::execute, (asked, action_id, action), reply)
            },
{
    A::execute(actuator, action_id, action)
}

/// Orchestrator configuration.
#[derive(Debug, Clone, Copy, PartialEq, Eq, Structural)]
pub struct AdaptiveConfig {
    /// Overall execution mode.
    pub mode: AdaptiveMode,
    /// Ledger configuration.
    pub ledger: ActionLedgerConfig,
    /// Maximum retained controller traces.
    pub max_traces: usize,
}

impl AdaptiveConfig {
    /// The configuration that a controller starts with.
    pub open spec fn standard() -> Self {
        AdaptiveConfig {
            mode: AdaptiveMode::Active,
            ledger: ActionLedgerConfig::standard(),
            max_traces: 512,
        }
    }
}

impl Default for AdaptiveConfig {
    fn default() -> (config: Self)
        ensures
            config == Self::standard(),
    {
        AdaptiveConfig {
            mode: AdaptiveMode::Active,
            ledger: ActionLedgerConfig::default(),
            max_traces: 512,
        }
    }
}

/// A bounded decision from the adaptive orchestrator.
#[derive(Debug, Clone, PartialEq, Eq)]
pub struct AdaptiveDecision {
    /// Active records that may be executed.
    pub active_actions: Vec<ActionRecord>,
    /// Shadow actions that must never be executed.
    pub shadow_actions: Vec<Action>,
    /// Decision traces in deterministic order.
    pub traces: Vec<DecisionTrace>,
    /// Whether any path used baseline fallback.
    pub fallback: bool,
}

/// What an [`AdaptiveDecision`] says.
#[verifier::ext_equal]
pub struct AdaptiveDecisionView {
    pub active_actions: Seq<ActionRecordView>,
    pub shadow_actions: Seq<ActionView>,
    pub traces: Seq<DecisionTraceView>,
    pub fallback: bool,
}

impl View for AdaptiveDecision {
    type V = AdaptiveDecisionView;

    open spec fn view(&self) -> AdaptiveDecisionView {
        AdaptiveDecisionView {
            active_actions: record_views(self.active_actions@),
            shadow_actions: action_views(self.shadow_actions@),
            traces: trace_views(self.traces@),
            fallback: self.fallback,
        }
    }
}

/// What was known when an action was admitted.
#[derive(Debug, Clone)]
pub struct Feedback {
    /// The admitted action.
    pub id: ActionId,
    /// The frame of the decision.
    pub frame: ControllerFrame,
    /// The context of the decision.
    pub context: SafetyContext,
}

/// What a [`Feedback`] says.
#[verifier::ext_equal]
pub struct FeedbackView {
    pub id: ActionId,
    pub frame: ControllerFrameView,
    pub context: SafetyContextView,
}

impl View for Feedback {
    type V = FeedbackView;

    open spec fn view(&self) -> FeedbackView {
        FeedbackView { id: self.id, frame: self.frame@, context: self.context@ }
    }
}

/// The views of a list of feedback.
pub open spec fn feedback_views(feedback: Seq<Feedback>) -> Seq<FeedbackView> {
    Seq::new(feedback.len(), |i: int| feedback[i]@)
}

/// What an [`AdaptiveController`] holds.
#[verifier::ext_equal]
pub struct ControllerView {
    pub baseline: BaselineView,
    pub learned: Option<LearnedView>,
    pub envelope: SafetyEnvelope,
    pub ledger: LedgerView,
    pub config: AdaptiveConfig,
    pub traces: Seq<DecisionTraceView>,
    pub stats: StatsTable,
    pub feedback: Seq<FeedbackView>,
}

/// A decision in the making.
#[verifier::ext_equal]
pub struct Round {
    pub controller: ControllerView,
    pub active: Seq<ActionRecordView>,
    pub shadow: Seq<ActionView>,
    pub traces: Seq<DecisionTraceView>,
}

impl ControllerView {
    /// Every part is well formed, the traces are bounded, and feedback is kept for
    /// admitted actions only, in the order of their admission.
    pub open spec fn well_formed(self) -> bool {
        &&& self.baseline.well_formed()
        &&& self.ledger.well_formed()
        &&& self.config.max_traces >= 1
        &&& self.traces.len() <= self.config.max_traces
        &&& self.feedback.len() <= self.ledger.config.max_history
        &&& forall|i: int, j: int|
            0 <= i < j < self.feedback.len() ==> (#[trigger] self.feedback[i]).id.0 < (
            #[trigger] self.feedback[j]).id.0
        &&& forall|i: int|
            0 <= i < self.feedback.len() ==> (#[trigger] self.feedback[i]).id.0
                < self.ledger.next_id
    }

    /// The controller after `id` was admitted on `frame`: feedback is kept only where
    /// there is a learned controller to teach.
    pub open spec fn feedback_kept(
        self,
        id: ActionId,
        frame: ControllerFrameView,
        context: SafetyContextView,
    ) -> Self {
        if self.learned is None {
            self
        } else {
            ControllerView {
                feedback: bounded_push(
                    self.feedback,
                    FeedbackView { id, frame, context },
                    self.ledger.config.max_history as nat,
                ),
                ..self
            }
        }
    }

    /// The controller after the learned controller was taught an outcome, once.
    pub open spec fn taught(
        self,
        id: ActionId,
        action: ActionView,
        outcome: ActionOutcome,
    ) -> Self {
        match first_where(self.feedback, |f: FeedbackView| f.id == id) {
            None => self,
            Some(at) => ControllerView {
                feedback: self.feedback.remove(at),
                learned: match self.learned {
                    None => None,
                    Some(learned) => Some(
                        learned.taught(
                            self.feedback[at].frame,
                            self.feedback[at].context,
                            action,
                            outcome,
                            self.envelope,
                        ).0,
                    ),
                },
                ..self
            },
        }
    }

    /// The round after one more proposed action.
    pub open spec fn round_step(
        round: Round,
        action: ActionView,
        reason: ActionReason,
        frame: ControllerFrameView,
        context: SafetyContextView,
    ) -> Round {
        let observation = frame.identity();
        if round.controller.config.mode == AdaptiveMode::Shadow {
            Round {
                traces: round.traces.push(
                    DecisionTraceView::plain(
                        observation,
                        ControllerSource::Baseline,
                        TraceStatus::Shadow,
                        reason,
                        Some(action.key()),
                    ),
                ),
                shadow: round.shadow.push(action),
                ..round
            }
        } else {
            let (ledger, outcome) = round.controller.ledger.admitted(
                action,
                reason,
                ControllerSource::Baseline,
                observation,
            );
            let after = ControllerView { ledger, ..round.controller };
            match outcome {
                Ok(record) => {
                    let kept = after.feedback_kept(record.id, frame, context);
                    Round {
                        controller: ControllerView {
                            stats: kept.stats.one_accepted(ControllerSource::Baseline),
                            ..kept
                        },
                        active: round.active.push(record),
                        ..round
                    }
                },
                Err(rejection) => Round {
                    controller: ControllerView {
                        stats: after.stats.one_suppressed(ControllerSource::Baseline),
                        ..after
                    },
                    traces: round.traces.push(
                        LedgerView::suppression(
                            action,
                            reason,
                            ControllerSource::Baseline,
                            observation,
                            rejection,
                        ),
                    ),
                    ..round
                },
            }
        }
    }

    /// The round after all proposed actions.
    pub open spec fn round_over(
        start: Round,
        actions: Seq<ActionView>,
        reason: ActionReason,
        frame: ControllerFrameView,
        context: SafetyContextView,
    ) -> Round
        decreases actions.len(),
    {
        if actions.len() == 0 {
            start
        } else {
            Self::round_step(
                Self::round_over(start, actions.drop_last(), reason, frame, context),
                actions.last(),
                reason,
                frame,
                context,
            )
        }
    }

    /// The round with the baseline's proposal made and none of its actions settled.
    pub open spec fn first_round(
        self,
        frame: ControllerFrameView,
        context: SafetyContextView,
    ) -> Round {
        let (baseline, proposal) = self.baseline.proposed(frame, context, self.envelope);
        let source = ControllerSource::Baseline;
        Round {
            controller: ControllerView {
                baseline,
                stats: self.stats.more_proposed(
                    source,
                    proposal.actions.len() as u64,
                ).more_rejected(source, proposal.violations.len() as u64).after_round(
                    source,
                    proposal.fallback,
                ),
                ..self
            },
            active: Seq::empty(),
            shadow: Seq::empty(),
            traces: seq![proposal.trace],
        }
    }

    /// The round with the baseline's actions settled.
    pub open spec fn baseline_round(
        self,
        frame: ControllerFrameView,
        context: SafetyContextView,
    ) -> Round {
        let proposal = self.baseline.proposed(frame, context, self.envelope).1;
        Self::round_over(
            self.first_round(frame, context),
            proposal.actions,
            proposal.trace.reason,
            frame,
            context,
        )
    }

    /// The action that a learned suggestion starts from: the first admitted one, or
    /// else the first shadow.
    pub open spec fn lead(round: Round) -> Option<ActionView> {
        if round.active.len() > 0 {
            Some(round.active[0].action)
        } else if round.shadow.len() > 0 {
            Some(round.shadow[0])
        } else {
            None
        }
    }

    /// The round with the learned suggestion, and whether it fell back.
    pub open spec fn learned_round(
        round: Round,
        frame: ControllerFrameView,
        context: SafetyContextView,
    ) -> (Round, bool) {
        match round.controller.learned {
            None => (round, false),
            Some(learned) => {
                let (after, decision) = learned.suggested(
                    frame,
                    context,
                    Self::lead(round),
                    round.controller.envelope,
                );
                (
                    Round {
                        controller: ControllerView {
                            learned: Some(after),
                            stats: round.controller.stats.more_proposed(
                                ControllerSource::LearnedShadow,
                                1,
                            ).more_rejected(
                                ControllerSource::LearnedShadow,
                                if decision.violation is Some {
                                    1
                                } else {
                                    0
                                },
                            ).after_round(
                                ControllerSource::LearnedShadow,
                                decision.fallback_to_baseline,
                            ),
                            ..round.controller
                        },
                        shadow: match decision.action {
                            Some(action) => round.shadow.push(action),
                            None => round.shadow,
                        },
                        traces: round.traces.push(decision.trace),
                        ..round
                    },
                    decision.fallback_to_baseline,
                )
            },
        }
    }

    /// What a decision makes of the controller, and what it returns.
    pub open spec fn decided(
        self,
        frame: ControllerFrameView,
        context: SafetyContextView,
    ) -> (Self, AdaptiveDecisionView) {
        let proposal = self.baseline.proposed(frame, context, self.envelope).1;
        let (round, fell_back) = Self::learned_round(
            self.baseline_round(frame, context),
            frame,
            context,
        );
        (
            ControllerView {
                traces: newest(
                    round.controller.traces + round.traces,
                    round.controller.config.max_traces as nat,
                ),
                ..round.controller
            },
            AdaptiveDecisionView {
                active_actions: round.active,
                shadow_actions: round.shadow,
                traces: round.traces,
                fallback: proposal.fallback || fell_back,
            },
        )
    }

    /// What starting an execution makes of the controller, and the record to execute.
    pub open spec fn begun(self, id: ActionId, observation: ActionObservation) -> (
        Self,
        Result<ActionRecordView, ActuationError>,
    ) {
        if self.config.mode == AdaptiveMode::Shadow {
            (self, Err(ActuationError::ShadowMode))
        } else {
            match self.ledger.find(id) {
                None => (self, Err(ActuationError::UnknownAction)),
                Some(record) => if record.state != ActionState::Proposed {
                    (self, Err(ActuationError::IllegalState))
                } else {
                    let (accepted, first) = self.ledger.transitioned(
                        id,
                        ActionState::Accepted,
                        observation,
                        None,
                    );
                    let (executing, second) = accepted.transitioned(
                        id,
                        ActionState::Executing,
                        observation,
                        None,
                    );
                    if first is Err {
                        (
                            ControllerView { ledger: accepted, ..self },
                            Err(ActuationError::IllegalState),
                        )
                    } else if second is Err {
                        (
                            ControllerView { ledger: executing, ..self },
                            Err(ActuationError::IllegalState),
                        )
                    } else {
                        (
                            ControllerView {
                                ledger: executing,
                                stats: self.stats.one_executed(record.source),
                                ..self
                            },
                            Ok(record),
                        )
                    }
                },
            }
        }
    }

    /// The outcome of an action that an actuator refused.
    pub open spec fn refused_outcome() -> ActionOutcome {
        ActionOutcome {
            result: ActionResult::Failed,
            observed_benefit: ExpectedBenefit::of(0, 0, 0, 0, 0, 0, 0, 0, 0, 0),
            duration: Duration { nanos: 0 },
            cost: ActionCost::none(),
        }
    }

    /// The controller after an action failed for want of a valid receipt.
    pub open spec fn failed(self, id: ActionId, observation: ActionObservation) -> Self {
        let (ledger, result) = self.ledger.transitioned(
            id,
            ActionState::Failed,
            observation,
            Some(Self::refused_outcome()),
        );
        let after = ControllerView { ledger, ..self };
        match result {
            Err(_) => after,
            Ok(record) => {
                let told = ControllerView {
                    baseline: after.baseline.settled(record.action, Self::refused_outcome()),
                    ..after
                }.taught(id, record.action, Self::refused_outcome());
                ControllerView { stats: told.stats.one_outcome(record.source, false), ..told }
            },
        }
    }

    /// What an outcome makes of the controller, and what is returned; `refusal` is the
    /// error where the ledger does not take the outcome.
    pub open spec fn settled(
        self,
        record: ActionRecordView,
        observation: ActionObservation,
        outcome: ActionOutcome,
        refusal: ActuationError,
    ) -> (Self, Result<ActionRecordView, ActuationError>) {
        let (ledger, result) = self.ledger.settled(record.id, observation, outcome);
        let after = ControllerView { ledger, ..self };
        match result {
            Err(_) => (after, Err(refusal)),
            Ok(updated) => {
                let told = ControllerView {
                    baseline: after.baseline.settled(record.action, outcome),
                    ..after
                }.taught(record.id, record.action, outcome);
                (
                    ControllerView {
                        stats: told.stats.one_outcome(record.source, outcome.result.succeeded()),
                        ..told
                    },
                    Ok(updated),
                )
            },
        }
    }

    /// What an actuator's reply makes of the controller, and what is returned.
    pub open spec fn finished(
        self,
        record: ActionRecordView,
        observation: ActionObservation,
        reply: Result<ActuatorReceipt, ActuationError>,
    ) -> (Self, Result<ActionRecordView, ActuationError>) {
        match reply {
            Ok(receipt) => if receipt.action_id == record.id {
                self.settled(record, observation, receipt.outcome, ActuationError::Rejected)
            } else {
                (self.failed(record.id, observation), Err(ActuationError::MismatchedReceipt))
            },
            Err(_) => (self.failed(record.id, observation), Err(ActuationError::Rejected)),
        }
    }

    /// The ledger with `id` moved up to execution, or why it cannot be.
    pub open spec fn brought_to_execution(
        self,
        record: ActionRecordView,
        observation: ActionObservation,
    ) -> (LedgerView, Result<(), ActuationError>) {
        let id = record.id;
        match record.state {
            ActionState::Proposed => {
                let (accepted, first) = self.ledger.transitioned(
                    id,
                    ActionState::Accepted,
                    observation,
                    None,
                );
                let (executing, second) = accepted.transitioned(
                    id,
                    ActionState::Executing,
                    observation,
                    None,
                );
                if first is Err {
                    (accepted, Err(ActuationError::IllegalState))
                } else if second is Err {
                    (executing, Err(ActuationError::IllegalState))
                } else {
                    (executing, Ok(()))
                }
            },
            ActionState::Accepted => {
                let (executing, result) = self.ledger.transitioned(
                    id,
                    ActionState::Executing,
                    observation,
                    None,
                );
                if result is Err {
                    (executing, Err(ActuationError::IllegalState))
                } else {
                    (executing, Ok(()))
                }
            },
            ActionState::Executing => (self.ledger, Ok(())),
            _ => (self.ledger, Err(ActuationError::IllegalState)),
        }
    }

    /// What an externally obtained receipt makes of the controller, and what is
    /// returned.
    pub open spec fn receipt_applied(
        self,
        receipt: ActuatorReceipt,
        observation: ActionObservation,
    ) -> (Self, Result<ActionRecordView, ActuationError>) {
        match self.ledger.find(receipt.action_id) {
            None => (self, Err(ActuationError::UnknownAction)),
            Some(record) => {
                let (ledger, ready) = self.brought_to_execution(record, observation);
                let after = ControllerView { ledger, ..self };
                match ready {
                    Err(error) => (after, Err(error)),
                    Ok(_) => after.settled(
                        record,
                        observation,
                        receipt.outcome,
                        ActuationError::IllegalState,
                    ),
                }
            },
        }
    }
}

/// Orchestrator combining baseline, optional learned shadow, safety, and ledger.
#[derive(Debug, Clone)]
pub struct AdaptiveController {
    pub(crate) baseline: BaselineController,
    pub(crate) learned: Option<LearnedController>,
    pub(crate) validator: SafetyValidator,
    pub(crate) ledger: ActionLedger,
    pub(crate) config: AdaptiveConfig,
    pub(crate) traces: Vec<DecisionTrace>,
    pub(crate) stats: StatsTable,
    pub(crate) feedback: Vec<Feedback>,
}

/// The view of an optional learned controller.
pub open spec fn learned_view(learned: Option<LearnedController>) -> Option<LearnedView> {
    match learned {
        Some(learned) => Some(learned@),
        None => None,
    }
}

impl View for AdaptiveController {
    type V = ControllerView;

    open(crate) spec fn view(&self) -> ControllerView {
        ControllerView {
            baseline: self.baseline@,
            learned: learned_view(self.learned),
            envelope: self.validator.limits_of(),
            ledger: self.ledger@,
            config: self.config,
            traces: trace_views(self.traces@),
            stats: self.stats,
            feedback: feedback_views(self.feedback@),
        }
    }
}

impl Default for AdaptiveController {
    fn default() -> (controller: Self)
        ensures
            controller@.well_formed(),
            controller@ == (ControllerView {
                baseline: BaselineView::initial(BaselineConfig::standard()),
                learned: None,
                envelope: SafetyEnvelope::standard(),
                ledger: LedgerView {
                    config: ActionLedgerConfig::standard(),
                    records: Seq::empty(),
                    traces: Seq::empty(),
                    next_id: 1,
                },
                config: AdaptiveConfig::standard(),
                traces: Seq::empty(),
                stats: StatsTable::none(),
                feedback: Seq::empty(),
            }),
    {
        Self::new(AdaptiveConfig::default(), BaselineController::default(), None)
    }
}

impl AdaptiveController {
    /// Creates an orchestrator with a baseline and an optional learned shadow.
    pub fn new(
        config: AdaptiveConfig,
        baseline: BaselineController,
        learned: Option<LearnedController>,
    ) -> (controller: Self)
        requires
            baseline@.well_formed(),
        ensures
            controller@.well_formed(),
            controller@.baseline == baseline@,
            controller@.learned == learned_view(learned),
            controller@.envelope == SafetyEnvelope::standard(),
            controller@.config == (AdaptiveConfig {
                max_traces: if config.max_traces >= 1 {
                    config.max_traces
                } else {
                    1
                },
                ..config
            }),
            controller@.ledger == (LedgerView {
                config: ActionLedgerConfig {
                    max_history: if config.ledger.max_history >= 1 {
                        config.ledger.max_history
                    } else {
                        1
                    },
                    max_traces: if config.ledger.max_traces >= 1 {
                        config.ledger.max_traces
                    } else {
                        1
                    },
                    ..config.ledger
                },
                records: Seq::empty(),
                traces: Seq::empty(),
                next_id: 1,
            }),
            controller@.traces.len() == 0,
            controller@.stats == StatsTable::none(),
            controller@.feedback.len() == 0,
    {
        let max_traces: usize = if config.max_traces >= 1 {
            config.max_traces
        } else {
            1
        };
        AdaptiveController {
            baseline,
            learned,
            validator: SafetyValidator::default(),
            ledger: ActionLedger::new(config.ledger),
            config: AdaptiveConfig { max_traces, ..config },
            traces: Vec::new(),
            stats: StatsTable {
                baseline: ControllerStats::default(),
                learned_shadow: ControllerStats::default(),
                learned: ControllerStats::default(),
            },
            feedback: Vec::new(),
        }
    }

    /// Replaces the safety envelope while preserving controller state.
    pub fn set_safety_validator(&mut self, validator: SafetyValidator)
        ensures
            final(self)@ == (ControllerView { envelope: validator.limits_of(), ..old(self)@ }),
    {
        self.validator = validator;
    }

    /// Returns the current safety validator.
    pub fn safety_validator(&self) -> (validator: &SafetyValidator)
        ensures
            validator.limits_of() == self@.envelope,
    {
        &self.validator
    }

    /// Returns the current operating mode.
    pub fn mode(&self) -> (mode: AdaptiveMode)
        ensures
            mode == self@.config.mode,
    {
        self.config.mode
    }

    /// Switches between active and shadow modes.
    pub fn set_mode(&mut self, mode: AdaptiveMode)
        ensures
            final(self)@ == (ControllerView {
                config: AdaptiveConfig { mode, ..old(self)@.config },
                ..old(self)@
            }),
    {
        self.config.mode = mode;
    }

    /// Returns the optional learned shadow controller.
    pub fn learned(&self) -> (learned: Option<&LearnedController>)
        ensures
            match learned {
                Some(l) => self@.learned == Some(l@),
                None => self@.learned is None,
            },
    {
        match &self.learned {
            Some(learned) => Some(learned),
            None => None,
        }
    }

    /// Returns the action ledger.
    pub fn ledger(&self) -> (ledger: &ActionLedger)
        ensures
            ledger@ == self@.ledger,
    {
        &self.ledger
    }

    /// Returns bounded controller traces.
    pub fn traces(&self) -> (traces: &Vec<DecisionTrace>)
        ensures
            trace_views(traces@) == self@.traces,
    {
        &self.traces
    }

    /// Returns per-source statistics.
    pub fn stats(&self) -> (stats: &StatsTable)
        ensures
            *stats == self@.stats,
    {
        &self.stats
    }

    fn settle_proposed(
        &mut self,
        action: &Action,
        reason: ActionReason,
        frame: &ControllerFrame,
        context: &SafetyContext,
        active: &mut Vec<ActionRecord>,
        shadow: &mut Vec<Action>,
        traces: &mut Vec<DecisionTrace>,
    )
        requires
            old(self)@.well_formed(),
        ensures
            ({
                let before = Round {
                    controller: old(self)@,
                    active: record_views(old(active)@),
                    shadow: action_views(old(shadow)@),
                    traces: trace_views(old(traces)@),
                };
                let after = Round {
                    controller: final(self)@,
                    active: record_views(final(active)@),
                    shadow: action_views(final(shadow)@),
                    traces: trace_views(final(traces)@),
                };
                after == ControllerView::round_step(before, action@, reason, frame@, context@)
            }),
            final(self)@.well_formed(),
    {
        let ghost held_active = active@;
        let ghost held_shadow = shadow@;
        let ghost held_traces = traces@;
        let observation: ActionObservation = frame.action_observation();
        if self.config.mode == AdaptiveMode::Shadow {
            traces.push(
                DecisionTrace::new(
                    observation,
                    ControllerSource::Baseline,
                    TraceStatus::Shadow,
                    reason,
                    Some(action.key()),
                ),
            );
            shadow.push(action.clone());
            proof {
                assert(action_views(shadow@) =~= action_views(held_shadow).push(action@));
                assert(trace_views(traces@) =~= trace_views(held_traces).push(traces@.last()@));
            }
            return;
        }
        match self.ledger.admit_action(
            action.clone(),
            reason,
            ControllerSource::Baseline,
            observation,
        ) {
            Ok(record) => {
                self.remember_feedback(record.id, frame, context);
                self.stats.count_accepted(ControllerSource::Baseline);
                active.push(record);
                proof {
                    assert(record_views(active@) =~= record_views(held_active).push(record@));
                }
            },
            Err(rejection) => {
                self.stats.count_suppressed(ControllerSource::Baseline);
                let plain: DecisionTrace = DecisionTrace::new(
                    observation,
                    ControllerSource::Baseline,
                    TraceStatus::Suppressed,
                    reason,
                    Some(action.key()),
                );
                traces.push(DecisionTrace { ledger_rejection: Some(rejection), ..plain });
                proof {
                    assert(trace_views(traces@) =~= trace_views(held_traces).push(traces@.last()@));
                }
            },
        }
    }

    /// Makes a decision without invoking an actuator.
    ///
    /// Baseline actions are admitted only in [`AdaptiveMode::Active`]. Learned
    /// suggestions are always shadow actions. What was proposed, what safety rejected and
    /// every fallback count in the statistics of their source.
    pub fn decide(&mut self, frame: &ControllerFrame, context: &SafetyContext) -> (decision:
        AdaptiveDecision)
        requires
            old(self)@.well_formed(),
        ensures
            (final(self)@, decision@) == old(self)@.decided(frame@, context@),
            final(self)@.well_formed(),
    {
        let ghost before = self@;
        let proposal: BaselineProposal = self.baseline.propose(frame, context, &self.validator);
        let mut traces: Vec<DecisionTrace> = Vec::new();
        traces.push(proposal.trace.clone());
        let mut active_actions: Vec<ActionRecord> = Vec::new();
        let mut shadow_actions: Vec<Action> = Vec::new();
        let mut fallback: bool = proposal.fallback;
        self.stats.count_proposed(ControllerSource::Baseline, proposal.actions.len() as u64);
        self.stats.count_rejected(ControllerSource::Baseline, proposal.violations.len() as u64);
        self.stats.count_round(ControllerSource::Baseline, proposal.fallback);
        let reason: ActionReason = proposal.trace.reason;
        let ghost views = proposal@.actions;
        let ghost start = Round {
            controller: self@,
            active: record_views(active_actions@),
            shadow: action_views(shadow_actions@),
            traces: trace_views(traces@),
        };
        proof {
            assert(start.active =~= Seq::empty());
            assert(start.shadow =~= Seq::empty());
            assert(start.traces =~= seq![proposal@.trace]);
            assert(views.take(0) =~= Seq::empty());
        }
        let mut at: usize = 0;
        while at < proposal.actions.len()
            invariant
                at <= proposal.actions.len(),
                views == action_views(proposal.actions@),
                self@.well_formed(),
                (Round {
                    controller: self@,
                    active: record_views(active_actions@),
                    shadow: action_views(shadow_actions@),
                    traces: trace_views(traces@),
                }) == ControllerView::round_over(
                    start,
                    views.take(at as int),
                    reason,
                    frame@,
                    context@,
                ),
            decreases proposal.actions.len() - at,
        {
            self.settle_proposed(
                &proposal.actions[at],
                reason,
                frame,
                context,
                &mut active_actions,
                &mut shadow_actions,
                &mut traces,
            );
            at = at + 1;
            proof {
                assert(views.take(at as int).drop_last() =~= views.take(at - 1));
                assert(views.take(at as int).last() == proposal.actions@[at - 1]@);
            }
        }
        proof {
            assert(views.take(at as int) =~= views);
        }
        let ghost round = Round {
            controller: self@,
            active: record_views(active_actions@),
            shadow: action_views(shadow_actions@),
            traces: trace_views(traces@),
        };
        proof {
            assert(round == before.baseline_round(frame@, context@));
        }
        let ghost held_shadow = shadow_actions@;
        let ghost held_traces = traces@;
        if let Some(learned) = &mut self.learned {
            let baseline_action: Option<&Action> = if active_actions.len() > 0 {
                Some(&active_actions[0].action)
            } else if shadow_actions.len() > 0 {
                Some(&shadow_actions[0])
            } else {
                None
            };
            proof {
                if active_actions.len() > 0 {
                    assert(round.active[0] == active_actions@[0]@);
                } else if shadow_actions.len() > 0 {
                    assert(round.shadow[0] == shadow_actions@[0]@);
                }
                assert(view_ref(baseline_action) == ControllerView::lead(round));
            }
            let learned_decision: LearnedDecision = learned.suggest(
                frame,
                context,
                baseline_action,
                &self.validator,
            );
            fallback = fallback || learned_decision.fallback_to_baseline;
            let rejected: u64 = if learned_decision.violation.is_some() {
                1
            } else {
                0
            };
            self.stats.count_proposed(ControllerSource::LearnedShadow, 1);
            self.stats.count_rejected(ControllerSource::LearnedShadow, rejected);
            self.stats.count_round(
                ControllerSource::LearnedShadow,
                learned_decision.fallback_to_baseline,
            );
            let ghost suggestion = learned_decision@;
            if let Some(action) = learned_decision.action {
                shadow_actions.push(action);
            }
            traces.push(learned_decision.trace);
            proof {
                if suggestion.action is Some {
                    assert(action_views(shadow_actions@) =~= action_views(held_shadow).push(
                        suggestion.action->0,
                    ));
                }
                assert(trace_views(traces@) =~= trace_views(held_traces).push(suggestion.trace));
            }
        }
        let ghost done = self@;
        let ghost rounds_traces = trace_views(traces@);
        let mut at: usize = 0;
        proof {
            assert(done.traces + rounds_traces.take(0) =~= done.traces);
        }
        while at < traces.len()
            invariant
                at <= traces.len(),
                rounds_traces == trace_views(traces@),
                done.well_formed(),
                self@ == (ControllerView {
                    traces: newest(
                        done.traces + rounds_traces.take(at as int),
                        done.config.max_traces as nat,
                    ),
                    ..done
                }),
            decreases traces.len() - at,
        {
            let cap: usize = self.config.max_traces;
            push_bounded(&mut self.traces, traces[at].clone(), cap);
            at = at + 1;
            proof {
                let so_far = done.traces + rounds_traces.take(at - 1);
                lemma_newest_push(so_far, rounds_traces[at - 1], cap as nat);
                assert(done.traces + rounds_traces.take(at as int) =~= so_far.push(
                    rounds_traces[at - 1],
                ));
            }
        }
        proof {
            assert(rounds_traces.take(at as int) =~= rounds_traces);
        }
        AdaptiveDecision { active_actions, shadow_actions, traces, fallback }
    }

    /// Moves an admitted action into execution and returns its record. The action is
    /// then to be handed to an actuator, and the reply to [`Self::finish_execution`].
    pub fn begin_execution(
        &mut self,
        action_id: ActionId,
        observation: ActionObservation,
    ) -> (result:
        Result<ActionRecord, ActuationError>)
        requires
            old(self)@.well_formed(),
        ensures
            (final(self)@, view_result(result)) == old(self)@.begun(action_id, observation),
            final(self)@.well_formed(),
            result matches Ok(record) ==> record.id == action_id,
    {
        if self.config.mode == AdaptiveMode::Shadow {
            return Err(ActuationError::ShadowMode);
        }
        let record: ActionRecord = match self.ledger.record(action_id) {
            Some(record) => record.clone(),
            None => return Err(ActuationError::UnknownAction),
        };
        proof {
            lemma_found_id(self@.ledger, action_id);
        }
        if record.state != ActionState::Proposed {
            return Err(ActuationError::IllegalState);
        }
        if self.ledger.transition(action_id, ActionState::Accepted, observation, None).is_err() {
            return Err(ActuationError::IllegalState);
        }
        if self.ledger.transition(action_id, ActionState::Executing, observation, None).is_err() {
            return Err(ActuationError::IllegalState);
        }
        self.stats.count_executed(record.source);
        Ok(record)
    }

    /// Takes an actuator's reply on a record that [`Self::begin_execution`] returned.
    pub fn finish_execution(
        &mut self,
        record: &ActionRecord,
        observation: ActionObservation,
        reply: Result<ActuatorReceipt, ActuationError>,
    ) -> (result: Result<ActionRecord, ActuationError>)
        requires
            old(self)@.well_formed(),
        ensures
            (final(self)@, view_result(result)) == old(self)@.finished(record@, observation, reply),
            final(self)@.well_formed(),
    {
        match reply {
            Ok(receipt) => if receipt.action_id == record.id {
                self.settle(record, observation, receipt.outcome, ActuationError::Rejected)
            } else {
                self.fail_action(record.id, observation);
                Err(ActuationError::MismatchedReceipt)
            },
            Err(_) => {
                self.fail_action(record.id, observation);
                Err(ActuationError::Rejected)
            },
        }
    }

    /// Executes an admitted action through an [`Actuator`].
    ///
    /// The actuator is asked to execute the action of the record. What it replies is its own
    /// affair: whatever it is, the controller and the result are what
    /// [`ControllerView::finished`] makes of it. Where execution cannot begin, the actuator is
    /// not asked.
    pub fn execute<A: Actuator>(
        &mut self,
        actuator: &mut A,
        action_id: ActionId,
        observation: ActionObservation,
    ) -> (result: Result<ActionRecord, ActuationError>)
        requires
            old(self)@.well_formed(),
        ensures
            match old(self)@.begun(action_id, observation) {
                (begun, Err(error)) => {
                    &&& final(self)@ == begun
                    &&& view_result(result) == Err::<ActionRecordView, _>(error)
                    &&& *final(actuator) == *old(actuator)
                },
                (begun, Ok(record)) => exists|
                    asked: &mut A,
                    action: Action,
                    reply: Result<ActuatorReceipt, ActuationError>,
                |
                    #![trigger call_ensures(A::execute, (asked, action_id, &action), reply)]
                    {
                        &&& *asked == *old(actuator)
                        &&& *final(asked) == *final(actuator)
                        &&& action@ == record.action
                        &&& call_ensures(A::execute, (asked, action_id, &action), reply)
                        &&& (final(self)@, view_result(result)) == begun.finished(
                            record,
                            observation,
                            reply,
                        )
                    },
            },
            final(self)@.well_formed(),
    {
        self.carry_out(actuator, action_id, observation).0
    }

    /// Executes an admitted action, and returns beside the result what the actuator
    /// replied, if it was asked.
    pub(crate) fn carry_out<A: Actuator>(
        &mut self,
        actuator: &mut A,
        action_id: ActionId,
        observation: ActionObservation,
    ) -> (end: (
        Result<ActionRecord, ActuationError>,
        Option<Result<ActuatorReceipt, ActuationError>>,
    ))
        requires
            old(self)@.well_formed(),
        ensures
            match old(self)@.begun(action_id, observation) {
                (begun, Err(error)) => {
                    &&& final(self)@ == begun
                    &&& view_result(end.0) == Err::<ActionRecordView, _>(error)
                    &&& end.1 is None
                    &&& *final(actuator) == *old(actuator)
                },
                (begun, Ok(record)) => {
                    &&& end.1 matches Some(reply)
                    &&& (final(self)@, view_result(end.0)) == begun.finished(
                        record,
                        observation,
                        reply,
                    )
                    &&& exists|asked: &mut A, action: Action|
                        #![trigger call_ensures(A::execute, (asked, action_id, &action), reply)]
                        {
                            &&& *asked == *old(actuator)
                            &&& *final(asked) == *final(actuator)
                            &&& action@ == record.action
                            &&& call_ensures(A::execute, (asked, action_id, &action), reply)
                        }
                },
            },
            final(self)@.well_formed(),
    {
        let record: ActionRecord = match self.begin_execution(action_id, observation) {
            Ok(record) => record,
            Err(error) => return (Err(error), None),
        };
        let reply: Result<ActuatorReceipt, ActuationError> = ask(
            actuator,
            action_id,
            &record.action,
        );
        (self.finish_execution(&record, observation, reply), Some(reply))
    }

    /// Records an externally obtained actuator receipt.
    pub fn apply_receipt(
        &mut self,
        receipt: ActuatorReceipt,
        observation: ActionObservation,
    ) -> (result:
        Result<ActionRecord, ActuationError>)
        requires
            old(self)@.well_formed(),
        ensures
            (final(self)@, view_result(result)) == old(self)@.receipt_applied(receipt, observation),
            final(self)@.well_formed(),
    {
        let id: ActionId = receipt.action_id;
        let record: ActionRecord = match self.ledger.record(id) {
            Some(record) => record.clone(),
            None => return Err(ActuationError::UnknownAction),
        };
        proof {
            lemma_found_id(self@.ledger, id);
        }
        match record.state {
            ActionState::Proposed => {
                if self.ledger.transition(id, ActionState::Accepted, observation, None).is_err() {
                    return Err(ActuationError::IllegalState);
                }
                if self.ledger.transition(id, ActionState::Executing, observation, None).is_err() {
                    return Err(ActuationError::IllegalState);
                }
            },
            ActionState::Accepted => {
                if self.ledger.transition(id, ActionState::Executing, observation, None).is_err() {
                    return Err(ActuationError::IllegalState);
                }
            },
            ActionState::Executing => {},
            _ => return Err(ActuationError::IllegalState),
        }
        self.settle(&record, observation, receipt.outcome, ActuationError::IllegalState)
    }

    fn settle(
        &mut self,
        record: &ActionRecord,
        observation: ActionObservation,
        outcome: ActionOutcome,
        refusal: ActuationError,
    ) -> (result: Result<ActionRecord, ActuationError>)
        requires
            old(self)@.well_formed(),
        ensures
            (final(self)@, view_result(result)) == old(self)@.settled(
                record@,
                observation,
                outcome,
                refusal,
            ),
            final(self)@.well_formed(),
    {
        let updated: ActionRecord = match self.ledger.record_outcome(
            record.id,
            observation,
            outcome,
        ) {
            Ok(updated) => updated,
            Err(_) => return Err(refusal),
        };
        self.baseline.on_outcome(&record.action, &outcome);
        self.update_learned_outcome(record.id, &record.action, &outcome);
        self.stats.count_outcome(record.source, outcome.result.is_success());
        Ok(updated)
    }

    fn remember_feedback(
        &mut self,
        action_id: ActionId,
        frame: &ControllerFrame,
        context: &SafetyContext,
    )
        ensures
            final(self)@ == old(self)@.feedback_kept(action_id, frame@, context@),
    {
        if self.learned.is_none() {
            return;
        }
        let ghost before = self.feedback@;
        let entry: Feedback = Feedback {
            id: action_id,
            frame: frame.clone(),
            context: context.clone(),
        };
        let ghost longer = before.push(entry);
        self.feedback.push(entry);
        let cap: usize = self.ledger.config().max_history;
        keep_newest(&mut self.feedback, cap);
        proof {
            assert(feedback_views(longer) =~= feedback_views(before).push(entry@));
            assert(feedback_views(newest(longer, cap as nat)) =~= newest(
                feedback_views(longer),
                cap as nat,
            ));
        }
    }

    fn update_learned_outcome(
        &mut self,
        action_id: ActionId,
        action: &Action,
        outcome: &ActionOutcome,
    )
        ensures
            final(self)@ == old(self)@.taught(action_id, action@, *outcome),
            old(self)@.well_formed() ==> final(self)@.well_formed(),
    {
        let ghost before = self@;
        let ghost wanted = |f: FeedbackView| f.id == action_id;
        let mut at: usize = 0;
        while at < self.feedback.len() && self.feedback[at].id != action_id
            invariant
                at <= self.feedback.len(),
                self@ == before,
                wanted == (|f: FeedbackView| f.id == action_id),
                forall|i: int| 0 <= i < at ==> !wanted(#[trigger] self@.feedback[i]),
            decreases self.feedback.len() - at,
        {
            proof {
                assert(!wanted(self@.feedback[at as int]));
            }
            at = at + 1;
        }
        if at == self.feedback.len() {
            proof {
                lemma_first_where_absent(before.feedback, wanted);
            }
            return;
        }
        proof {
            assert(wanted(before.feedback[at as int]));
            lemma_first_where_found(before.feedback, wanted, at as int);
        }
        let entry: Feedback = self.feedback.remove(at);
        proof {
            assert(feedback_views(self.feedback@) =~= before.feedback.remove(at as int));
            assert(entry@ == before.feedback[at as int]);
        }
        if let Some(learned) = &mut self.learned {
            let _ = learned.observe_outcome(
                &entry.frame,
                &entry.context,
                action,
                outcome,
                &self.validator,
            );
        }
    }

    fn fail_action(&mut self, action_id: ActionId, observation: ActionObservation)
        requires
            old(self)@.well_formed(),
        ensures
            final(self)@ == old(self)@.failed(action_id, observation),
            final(self)@.well_formed(),
    {
        let outcome: ActionOutcome = ActionOutcome::failed(
            ActionResult::Failed,
            Duration::zero(),
            ActionCost::zero(),
        );
        if let Ok(record) = self.ledger.transition(
            action_id,
            ActionState::Failed,
            observation,
            Some(outcome),
        ) {
            self.baseline.on_outcome(&record.action, &outcome);
            self.update_learned_outcome(action_id, &record.action, &outcome);
            self.stats.count_outcome(record.source, false);
        }
    }
}

proof fn lemma_found_id(ledger: LedgerView, id: ActionId)
    ensures
        ledger.find(id) matches Some(record) ==> record.id == id,
{
    lemma_first_where(ledger.records, |r: ActionRecordView| r.id == id);
}

/// Appending to the newest items keeps the newest of the longer list.
pub proof fn lemma_newest_push<T>(items: Seq<T>, item: T, cap: nat)
    requires
        cap >= 1,
    ensures
        bounded_push(newest(items, cap), item, cap) == newest(items.push(item), cap),
{
    assert(bounded_push(newest(items, cap), item, cap) =~= newest(items.push(item), cap));
}

/// Shadow mode never actuates: nothing begins, and the controller stays as it is.
pub proof fn law_shadow_mode_never_actuates(
    controller: ControllerView,
    id: ActionId,
    observation: ActionObservation,
)
    requires
        controller.config.mode == AdaptiveMode::Shadow,
    ensures
        controller.begun(id, observation) == (
            controller,
            Err::<ActionRecordView, _>(ActuationError::ShadowMode),
        ),
{
}

proof fn lemma_shadow_round(
    start: Round,
    actions: Seq<ActionView>,
    reason: ActionReason,
    frame: ControllerFrameView,
    context: SafetyContextView,
)
    requires
        start.controller.config.mode == AdaptiveMode::Shadow,
    ensures
        ({
            let round = ControllerView::round_over(start, actions, reason, frame, context);
            &&& round.controller == start.controller
            &&& round.active == start.active
        }),
    decreases actions.len(),
{
    if actions.len() > 0 {
        lemma_shadow_round(start, actions.drop_last(), reason, frame, context);
    }
}

/// In shadow mode a decision admits nothing and leaves the ledger alone.
pub proof fn law_shadow_decisions_admit_nothing(
    controller: ControllerView,
    frame: ControllerFrameView,
    context: SafetyContextView,
)
    requires
        controller.config.mode == AdaptiveMode::Shadow,
    ensures
        controller.decided(frame, context).1.active_actions.len() == 0,
        controller.decided(frame, context).0.ledger == controller.ledger,
{
    let proposal = controller.baseline.proposed(frame, context, controller.envelope).1;
    let start = controller.first_round(frame, context);
    lemma_shadow_round(start, proposal.actions, proposal.trace.reason, frame, context);
}

proof fn lemma_round_active_safe(
    start: Round,
    actions: Seq<ActionView>,
    reason: ActionReason,
    frame: ControllerFrameView,
    context: SafetyContextView,
    envelope: SafetyEnvelope,
)
    requires
        start.active.len() == 0,
        forall|i: int|
            0 <= i < actions.len() ==> envelope.verdict(#[trigger] actions[i], context) is Ok,
    ensures
        ({
            let round = ControllerView::round_over(start, actions, reason, frame, context);
            &&& forall|i: int|
                0 <= i < round.active.len() ==> envelope.verdict(
                    (#[trigger] round.active[i]).action,
                    context,
                ) is Ok
            &&& forall|i: int|
                0 <= i < round.active.len() ==> (#[trigger] round.active[i]).state
                    == ActionState::Proposed
            &&& round.active.len() <= actions.len()
            &&& round.controller.envelope == start.controller.envelope
        }),
    decreases actions.len(),
{
    if actions.len() > 0 {
        let front = actions.drop_last();
        assert forall|i: int| 0 <= i < front.len() implies envelope.verdict(
            #[trigger] front[i],
            context,
        ) is Ok by {
            assert(front[i] == actions[i]);
        }
        lemma_round_active_safe(start, front, reason, frame, context, envelope);
        assert(envelope.verdict(actions[actions.len() - 1], context) is Ok);
    }
}

/// Every action that a decision admits passed the safety verdict, starts out as a
/// proposal, and there are at most two.
pub proof fn law_admitted_actions_are_safe(
    controller: ControllerView,
    frame: ControllerFrameView,
    context: SafetyContextView,
)
    ensures
        ({
            let active = controller.decided(frame, context).1.active_actions;
            &&& active.len() <= 2
            &&& forall|i: int|
                0 <= i < active.len() ==> controller.envelope.verdict(
                    (#[trigger] active[i]).action,
                    context,
                ) is Ok && active[i].state == ActionState::Proposed
        }),
{
    let proposal = controller.baseline.proposed(frame, context, controller.envelope).1;
    let start = controller.first_round(frame, context);
    assert forall|i: int| 0 <= i < proposal.actions.len() implies controller.envelope.verdict(
        #[trigger] proposal.actions[i],
        context,
    ) is Ok by {
        law_proposed_actions_are_safe(
            controller.baseline,
            frame,
            context,
            controller.envelope,
            i,
        );
    }
    lemma_round_active_safe(
        start,
        proposal.actions,
        proposal.trace.reason,
        frame,
        context,
        controller.envelope,
    );
    crate::control::adaptive::baseline::law_proposals_are_small(
        controller.baseline,
        frame,
        context,
        controller.envelope,
    );
}

/// A decision never changes budgets or intent: they change only with an outcome.
pub proof fn law_decisions_keep_policy_state(
    controller: ControllerView,
    frame: ControllerFrameView,
    context: SafetyContextView,
)
    ensures
        ({
            let after = controller.decided(frame, context).0.baseline;
            &&& after.memory_budget == controller.baseline.memory_budget
            &&& after.repair_budget == controller.baseline.repair_budget
            &&& after.scrub_budget == controller.baseline.scrub_budget
            &&& after.materialization == controller.baseline.materialization
        }),
{
    let proposal = controller.baseline.proposed(frame, context, controller.envelope).1;
    let start = controller.first_round(frame, context);
    lemma_round_keeps_baseline(start, proposal.actions, proposal.trace.reason, frame, context);
}

proof fn lemma_round_keeps_baseline(
    start: Round,
    actions: Seq<ActionView>,
    reason: ActionReason,
    frame: ControllerFrameView,
    context: SafetyContextView,
)
    ensures
        ControllerView::round_over(start, actions, reason, frame, context).controller.baseline
            == start.controller.baseline,
    decreases actions.len(),
{
    if actions.len() > 0 {
        lemma_round_keeps_baseline(start, actions.drop_last(), reason, frame, context);
    }
}

proof fn lemma_round_counts(
    start: Round,
    actions: Seq<ActionView>,
    reason: ActionReason,
    frame: ControllerFrameView,
    context: SafetyContextView,
)
    ensures
        ({
            let before = start.controller.stats;
            let after = ControllerView::round_over(
                start,
                actions,
                reason,
                frame,
                context,
            ).controller.stats;
            &&& after.baseline.proposed == before.baseline.proposed
            &&& after.baseline.rejected == before.baseline.rejected
            &&& after.baseline.fallbacks == before.baseline.fallbacks
            &&& after.learned_shadow == before.learned_shadow
            &&& after.learned == before.learned
        }),
    decreases actions.len(),
{
    if actions.len() > 0 {
        lemma_round_counts(start, actions.drop_last(), reason, frame, context);
    }
}

/// A decision counts every action that the baseline proposed, every one that safety
/// rejected, and the baseline's fallback, up to the largest count.
pub proof fn law_decisions_count_the_baseline(
    controller: ControllerView,
    frame: ControllerFrameView,
    context: SafetyContextView,
)
    ensures
        ({
            let proposal = controller.baseline.proposed(frame, context, controller.envelope).1;
            let before = controller.stats.baseline;
            let after = controller.decided(frame, context).0.stats.baseline;
            &&& after.proposed == capped_sum(before.proposed, proposal.actions.len() as u64)
            &&& after.rejected == capped_sum(before.rejected, proposal.violations.len() as u64)
            &&& after.fallbacks == if proposal.fallback {
                capped_sum(before.fallbacks, 1)
            } else {
                before.fallbacks
            }
        }),
{
    let proposal = controller.baseline.proposed(frame, context, controller.envelope).1;
    lemma_round_counts(
        controller.first_round(frame, context),
        proposal.actions,
        proposal.trace.reason,
        frame,
        context,
    );
}

proof fn lemma_round_frame(
    start: Round,
    actions: Seq<ActionView>,
    reason: ActionReason,
    frame: ControllerFrameView,
    context: SafetyContextView,
)
    ensures
        ({
            let round = ControllerView::round_over(start, actions, reason, frame, context);
            &&& round.controller.config == start.controller.config
            &&& round.active.len() + round.shadow.len() <= start.active.len() + start.shadow.len()
                + actions.len()
            &&& round.traces.len() >= start.traces.len()
        }),
    decreases actions.len(),
{
    if actions.len() > 0 {
        lemma_round_frame(start, actions.drop_last(), reason, frame, context);
    }
}

/// A decision never changes the configuration.
pub proof fn lemma_decision_keeps_config(
    controller: ControllerView,
    frame: ControllerFrameView,
    context: SafetyContextView,
)
    ensures
        controller.decided(frame, context).0.config == controller.config,
{
    let proposal = controller.baseline.proposed(frame, context, controller.envelope).1;
    let start = controller.first_round(frame, context);
    lemma_round_frame(start, proposal.actions, proposal.trace.reason, frame, context);
}

/// A decision holds at most two admitted and three shadow actions.
pub proof fn lemma_decision_size(
    controller: ControllerView,
    frame: ControllerFrameView,
    context: SafetyContextView,
)
    ensures
        controller.decided(frame, context).1.active_actions.len() <= 2,
        controller.decided(frame, context).1.shadow_actions.len() <= 3,
{
    let proposal = controller.baseline.proposed(frame, context, controller.envelope).1;
    let start = controller.first_round(frame, context);
    lemma_round_frame(start, proposal.actions, proposal.trace.reason, frame, context);
    crate::control::adaptive::baseline::law_proposals_are_small(
        controller.baseline,
        frame,
        context,
        controller.envelope,
    );
}

/// A decision always leaves a trace.
pub proof fn lemma_decision_traced(
    controller: ControllerView,
    frame: ControllerFrameView,
    context: SafetyContextView,
)
    ensures
        controller.decided(frame, context).1.traces.len() > 0,
{
    let proposal = controller.baseline.proposed(frame, context, controller.envelope).1;
    let start = controller.first_round(frame, context);
    lemma_round_frame(start, proposal.actions, proposal.trace.reason, frame, context);
}

/// An action that has begun cannot begin again: the second attempt finds it in another
/// state and changes nothing.
pub proof fn law_actions_begin_once(
    controller: ControllerView,
    id: ActionId,
    observation: ActionObservation,
    later: ActionObservation,
)
    requires
        controller.begun(id, observation).1 is Ok,
    ensures
        controller.begun(id, observation).0.begun(id, later) == (
            controller.begun(id, observation).0,
            Err::<ActionRecordView, _>(ActuationError::IllegalState),
        ),
{
    lemma_transition_found(
        controller.ledger,
        id,
        ActionState::Accepted,
        observation,
        None,
    );
    let accepted = controller.ledger.transitioned(id, ActionState::Accepted, observation, None).0;
    lemma_transition_found(accepted, id, ActionState::Executing, observation, None);
}

proof fn lemma_transition_found(
    ledger: LedgerView,
    id: ActionId,
    next: ActionState,
    observation: ActionObservation,
    outcome: Option<ActionOutcome>,
)
    ensures
        ledger.transitioned(id, next, observation, outcome).1 matches Ok(record) ==> {
            &&& ledger.transitioned(id, next, observation, outcome).0.find(id) == Some(record)
            &&& record.state == next
            &&& record.id == id
        },
{
    let wanted = |r: ActionRecordView| r.id == id;
    let (after, result) = ledger.transitioned(id, next, observation, outcome);
    lemma_first_where(ledger.records, wanted);
    if result is Ok {
        let at = ledger.place(id)->0;
        let record = result->Ok_0;
        assert(after.records[at] == record);
        assert forall|i: int| 0 <= i < at implies !wanted(#[trigger] after.records[i]) by {
            assert(after.records[i] == ledger.records[i]);
        }
        assert(wanted(after.records[at]));
        lemma_first_where_found(after.records, wanted, at);
    }
}

/// An admitted action can always begin, and a receipt for it always settles it.
pub proof fn law_proposed_actions_execute(
    controller: ControllerView,
    id: ActionId,
    observation: ActionObservation,
    outcome: ActionOutcome,
)
    requires
        controller.config.mode == AdaptiveMode::Active,
        controller.ledger.find(id) matches Some(record) && record.state == ActionState::Proposed,
    ensures
        ({
            let (begun, started) = controller.begun(id, observation);
            let (done, result) = begun.finished(
                started->Ok_0,
                observation,
                Ok(ActuatorReceipt { action_id: id, outcome }),
            );
            &&& started is Ok
            &&& result is Ok
            &&& result->Ok_0.state == if outcome.result.succeeded() {
                ActionState::Completed
            } else {
                ActionState::Failed
            }
            &&& result->Ok_0.actual_outcome == Some(outcome)
            &&& done.ledger.find(id) == Some(result->Ok_0)
        }),
{
    lemma_found_id(controller.ledger, id);
    lemma_transition_found(controller.ledger, id, ActionState::Accepted, observation, None);
    let accepted = controller.ledger.transitioned(id, ActionState::Accepted, observation, None).0;
    lemma_first_where(controller.ledger.records, |r: ActionRecordView| r.id == id);
    lemma_transition_found(accepted, id, ActionState::Executing, observation, None);
    let executing = accepted.transitioned(id, ActionState::Executing, observation, None).0;
    let next = if outcome.result.succeeded() {
        ActionState::Completed
    } else {
        ActionState::Failed
    };
    lemma_transition_found(executing, id, next, observation, Some(outcome));
}

/// Every execution counts once: as completed where a receipt for it tells of success, and as
/// failed where the receipt tells otherwise, is for another action, or never comes.
pub proof fn law_executions_are_counted(
    controller: ControllerView,
    id: ActionId,
    observation: ActionObservation,
    reply: Result<ActuatorReceipt, ActuationError>,
)
    requires
        controller.begun(id, observation).1 is Ok,
    ensures
        ({
            let (begun, started) = controller.begun(id, observation);
            let source = started->Ok_0.source;
            let success = reply matches Ok(receipt) && receipt.action_id == id
                && receipt.outcome.result.succeeded();
            &&& begun.stats == controller.stats.one_executed(source)
            &&& begun.finished(started->Ok_0, observation, reply).0.stats
                == begun.stats.one_outcome(source, success)
        }),
{
    lemma_found_id(controller.ledger, id);
    lemma_transition_found(controller.ledger, id, ActionState::Accepted, observation, None);
    let accepted = controller.ledger.transitioned(id, ActionState::Accepted, observation, None).0;
    lemma_first_where(controller.ledger.records, |r: ActionRecordView| r.id == id);
    lemma_first_where(accepted.records, |r: ActionRecordView| r.id == id);
    lemma_transition_found(accepted, id, ActionState::Executing, observation, None);
    let executing = accepted.transitioned(id, ActionState::Executing, observation, None).0;
    lemma_first_where(executing.records, |r: ActionRecordView| r.id == id);
}

/// Each count goes up by one where it is due and nowhere else: a success is completed, a
/// failure is failed, and the counts of other sources stay.
pub proof fn law_counts_go_up_by_one(
    stats: StatsTable,
    source: ControllerSource,
    other: ControllerSource,
    success: bool,
    count: u64,
)
    requires
        stats.of(source).completed < u64::MAX,
        stats.of(source).failed < u64::MAX,
        stats.of(source).executed < u64::MAX,
        stats.of(source).accepted < u64::MAX,
        stats.of(source).suppressed < u64::MAX,
        stats.of(source).fallbacks < u64::MAX,
        stats.of(source).proposed + count <= u64::MAX,
        stats.of(source).rejected + count <= u64::MAX,
    ensures
        ({
            let before = stats.of(source);
            let ended = stats.one_outcome(source, success).of(source);
            let executed = stats.one_executed(source).of(source);
            let accepted = stats.one_accepted(source).of(source);
            let suppressed = stats.one_suppressed(source).of(source);
            let proposed = stats.more_proposed(source, count).of(source);
            let rejected = stats.more_rejected(source, count).of(source);
            &&& success ==> ended == (ControllerStats {
                completed: (before.completed + 1) as u64,
                ..before
            })
            &&& !success ==> ended == (ControllerStats {
                failed: (before.failed + 1) as u64,
                ..before
            })
            &&& executed == (ControllerStats { executed: (before.executed + 1) as u64, ..before })
            &&& accepted == (ControllerStats { accepted: (before.accepted + 1) as u64, ..before })
            &&& suppressed == (ControllerStats {
                suppressed: (before.suppressed + 1) as u64,
                ..before
            })
            &&& proposed == (ControllerStats {
                proposed: (before.proposed + count) as u64,
                ..before
            })
            &&& rejected == (ControllerStats {
                rejected: (before.rejected + count) as u64,
                ..before
            })
            &&& stats.after_round(source, true).of(source) == (ControllerStats {
                fallbacks: (before.fallbacks + 1) as u64,
                ..before
            })
            &&& stats.after_round(source, false) == stats
            &&& other != source ==> {
                &&& stats.one_outcome(source, success).of(other) == stats.of(other)
                &&& stats.one_executed(source).of(other) == stats.of(other)
                &&& stats.one_accepted(source).of(other) == stats.of(other)
                &&& stats.one_suppressed(source).of(other) == stats.of(other)
                &&& stats.more_proposed(source, count).of(other) == stats.of(other)
                &&& stats.more_rejected(source, count).of(other) == stats.of(other)
                &&& stats.after_round(source, success).of(other) == stats.of(other)
            }
        }),
{
}

/// What came of an action reaches the baseline once and in full: a receipt for it brings
/// its own outcome, and any other reply counts as a failure of it. The answer tells the
/// cases apart.
pub proof fn law_replies_reach_the_baseline(
    controller: ControllerView,
    id: ActionId,
    observation: ActionObservation,
    reply: Result<ActuatorReceipt, ActuationError>,
)
    requires
        controller.begun(id, observation).1 is Ok,
    ensures
        ({
            let (begun, started) = controller.begun(id, observation);
            let (done, result) = begun.finished(started->Ok_0, observation, reply);
            let action = started->Ok_0.action;
            let record = done.ledger.find(id);
            let failure = ActionOutcome {
                result: ActionResult::Failed,
                observed_benefit: ExpectedBenefit::of(0, 0, 0, 0, 0, 0, 0, 0, 0, 0),
                duration: Duration { nanos: 0 },
                cost: ActionCost::none(),
            };
            &&& started->Ok_0.id == id
            &&& begun.baseline == controller.baseline
            &&& reply matches Ok(receipt) ==> {
                &&& receipt.action_id == id ==> done.baseline == controller.baseline.settled(
                    action,
                    receipt.outcome,
                ) && result is Ok
                &&& receipt.action_id != id ==> done.baseline == controller.baseline.settled(
                    action,
                    failure,
                ) && result == Err::<ActionRecordView, _>(ActuationError::MismatchedReceipt)
                    && (record matches Some(r) && r.state is Failed && r.actual_outcome == Some(
                    failure,
                ))
            }
            &&& reply is Err ==> done.baseline == controller.baseline.settled(action, failure)
                && result == Err::<ActionRecordView, _>(ActuationError::Rejected) && (
            record matches Some(r) && r.state is Failed && r.actual_outcome == Some(failure))
        }),
{
    lemma_found_id(controller.ledger, id);
    lemma_transition_found(controller.ledger, id, ActionState::Accepted, observation, None);
    let accepted = controller.ledger.transitioned(id, ActionState::Accepted, observation, None).0;
    lemma_first_where(controller.ledger.records, |r: ActionRecordView| r.id == id);
    lemma_first_where(accepted.records, |r: ActionRecordView| r.id == id);
    lemma_transition_found(accepted, id, ActionState::Executing, observation, None);
    let executing = accepted.transitioned(id, ActionState::Executing, observation, None).0;
    lemma_first_where(executing.records, |r: ActionRecordView| r.id == id);
    lemma_transition_found(
        executing,
        id,
        ActionState::Failed,
        observation,
        Some(ControllerView::refused_outcome()),
    );
}

/// Every outcome teaches the learned controller at most once: after it there is no
/// feedback left for the action, and that of other actions stays.
pub proof fn law_outcomes_teach_once(
    controller: ControllerView,
    id: ActionId,
    action: ActionView,
    outcome: ActionOutcome,
    i: int,
)
    requires
        controller.well_formed(),
        0 <= i < controller.feedback.len(),
    ensures
        ({
            let after = controller.taught(id, action, outcome);
            &&& controller.feedback[i].id != id ==> after.feedback.contains(
                controller.feedback[i],
            )
            &&& controller.feedback[i].id == id ==> forall|k: int|
                0 <= k < after.feedback.len() ==> (#[trigger] after.feedback[k]).id != id
            &&& controller.feedback[i].id == id ==> after.feedback.len()
                == controller.feedback.len() - 1
            &&& controller.feedback[i].id == id && controller.learned is Some ==> after.learned
                == Some(
                controller.learned->0.taught(
                    controller.feedback[i].frame,
                    controller.feedback[i].context,
                    action,
                    outcome,
                    controller.envelope,
                ).0,
            )
        }),
{
    let wanted = |f: FeedbackView| f.id == id;
    lemma_first_where(controller.feedback, wanted);
    let after = controller.taught(id, action, outcome);
    match first_where(controller.feedback, wanted) {
        None => {
            assert(!wanted(controller.feedback[i]));
        },
        Some(at) => {
            assert(wanted(controller.feedback[at]));
            if controller.feedback[i].id == id && i != at {
                if i < at {
                    assert(controller.feedback[i].id.0 < controller.feedback[at].id.0);
                } else {
                    assert(controller.feedback[at].id.0 < controller.feedback[i].id.0);
                }
            }
            if i < at {
                assert(after.feedback[i] == controller.feedback[i]);
            } else if i > at {
                assert(after.feedback[i - 1] == controller.feedback[i]);
            }
            assert forall|k: int| 0 <= k < after.feedback.len() implies (
            #[trigger] after.feedback[k]).id != id by {
                if k < at {
                    assert(after.feedback[k] == controller.feedback[k]);
                    assert(controller.feedback[k].id.0 < controller.feedback[at].id.0);
                } else {
                    assert(after.feedback[k] == controller.feedback[k + 1]);
                    assert(controller.feedback[at].id.0 < controller.feedback[k + 1].id.0);
                }
            }
        },
    }
}

proof fn lemma_round_settles_every_action(
    start: Round,
    actions: Seq<ActionView>,
    reason: ActionReason,
    frame: ControllerFrameView,
    context: SafetyContextView,
)
    ensures
        ({
            let round = ControllerView::round_over(start, actions, reason, frame, context);
            let active = start.controller.config.mode == AdaptiveMode::Active;
            &&& round.controller.config == start.controller.config
            &&& active ==> round.shadow == start.shadow && round.active.len()
                + round.traces.len() == start.active.len() + start.traces.len() + actions.len()
            &&& !active ==> round.active == start.active && round.shadow == start.shadow
                + actions && round.traces.len() == start.traces.len() + actions.len()
        }),
    decreases actions.len(),
{
    if actions.len() > 0 {
        lemma_round_settles_every_action(start, actions.drop_last(), reason, frame, context);
        assert(actions =~= actions.drop_last().push(actions.last()));
        assert(start.shadow + actions =~= (start.shadow + actions.drop_last()).push(
            actions.last(),
        ));
    } else {
        assert(start.shadow + actions =~= start.shadow);
    }
}

/// No proposal is lost: in active mode every action that the baseline proposes is either
/// admitted or traced as suppressed, and in shadow mode every one of them is a shadow
/// action, in order.
pub proof fn law_every_proposal_is_settled(
    controller: ControllerView,
    frame: ControllerFrameView,
    context: SafetyContextView,
)
    requires
        controller.learned is None,
    ensures
        ({
            let proposal = controller.baseline.proposed(
                frame,
                context,
                controller.envelope,
            ).1;
            let decision = controller.decided(frame, context).1;
            &&& decision.fallback == proposal.fallback
            &&& controller.config.mode is Active ==> decision.shadow_actions.len() == 0
                && decision.active_actions.len() + decision.traces.len() == 1
                + proposal.actions.len()
            &&& controller.config.mode is Shadow ==> decision.shadow_actions == proposal.actions
                && decision.active_actions.len() == 0 && decision.traces.len() == 1
                + proposal.actions.len()
        }),
{
    let proposal = controller.baseline.proposed(frame, context, controller.envelope).1;
    let start = controller.first_round(frame, context);
    lemma_round_settles_every_action(
        start,
        proposal.actions,
        proposal.trace.reason,
        frame,
        context,
    );
    lemma_round_keeps_learned(start, proposal.actions, proposal.trace.reason, frame, context);
    assert(Seq::<ActionView>::empty() + proposal.actions =~= proposal.actions);
}

proof fn lemma_round_keeps_learned(
    start: Round,
    actions: Seq<ActionView>,
    reason: ActionReason,
    frame: ControllerFrameView,
    context: SafetyContextView,
)
    ensures
        ControllerView::round_over(start, actions, reason, frame, context).controller.learned
            == start.controller.learned,
    decreases actions.len(),
{
    if actions.len() > 0 {
        lemma_round_keeps_learned(start, actions.drop_last(), reason, frame, context);
    }
}

/// A receipt that arrives from outside is taken for any action that is not over yet, and
/// for no other.
pub proof fn law_receipts_end_live_actions(
    controller: ControllerView,
    receipt: ActuatorReceipt,
    observation: ActionObservation,
)
    ensures
        ({
            let record = controller.ledger.find(receipt.action_id);
            let result = controller.receipt_applied(receipt, observation).1;
            &&& record is None ==> result == Err::<ActionRecordView, _>(
                ActuationError::UnknownAction,
            )
            &&& record matches Some(r) ==> {
                &&& r.state.terminal() ==> result == Err::<ActionRecordView, _>(
                    ActuationError::IllegalState,
                ) && controller.receipt_applied(receipt, observation).0 == controller
                &&& !r.state.terminal() ==> {
                    &&& result matches Ok(after) && after.actual_outcome == Some(receipt.outcome)
                    &&& receipt.outcome.result.succeeded() ==> result->Ok_0.state is Completed
                    &&& !receipt.outcome.result.succeeded() ==> result->Ok_0.state is Failed
                    &&& controller.receipt_applied(receipt, observation).0.baseline
                        == controller.baseline.settled(r.action, receipt.outcome)
                }
            }
        }),
{
    let id = receipt.action_id;
    lemma_found_id(controller.ledger, id);
    lemma_first_where(controller.ledger.records, |r: ActionRecordView| r.id == id);
    lemma_transition_found(controller.ledger, id, ActionState::Accepted, observation, None);
    lemma_transition_found(controller.ledger, id, ActionState::Executing, observation, None);
    let accepted = controller.ledger.transitioned(id, ActionState::Accepted, observation, None).0;
    lemma_transition_found(accepted, id, ActionState::Executing, observation, None);
    if let Some(record) = controller.ledger.find(id) {
        let ledger = controller.brought_to_execution(record, observation).0;
        lemma_first_where(ledger.records, |r: ActionRecordView| r.id == id);
        lemma_first_where(accepted.records, |r: ActionRecordView| r.id == id);
    }
}

/// The learned controller only watches: what it suggests is at most one shadow action and
/// one trace more, and the actions that are admitted, the ledger and the policy state are
/// what they are without it.
pub proof fn law_suggestions_are_only_shadows(
    round: Round,
    frame: ControllerFrameView,
    context: SafetyContextView,
)
    ensures
        ({
            let (after, fell_back) = ControllerView::learned_round(round, frame, context);
            &&& after.active == round.active
            &&& after.controller.ledger == round.controller.ledger
            &&& after.controller.baseline == round.controller.baseline
            &&& after.controller.feedback == round.controller.feedback
            &&& after.controller.stats.baseline == round.controller.stats.baseline
            &&& round.controller.learned is None ==> after == round && !fell_back
            &&& round.controller.learned is Some ==> {
                &&& after.controller.learned is Some
                &&& after.traces.len() == round.traces.len() + 1
                &&& after.traces.take(round.traces.len() as int) == round.traces
                &&& round.shadow.len() <= after.shadow.len() <= round.shadow.len() + 1
                &&& after.traces.last().source is LearnedShadow
            }
        }),
{
    let (after, _) = ControllerView::learned_round(round, frame, context);
    if round.controller.learned is Some {
        assert(after.traces.take(round.traces.len() as int) =~= round.traces);
    }
}

/// A suggestion starts from the first admitted action, or from the first shadow where
/// none was admitted.
pub proof fn law_suggestions_start_from_the_lead(round: Round)
    ensures
        round.active.len() > 0 ==> ControllerView::lead(round) == Some(round.active[0].action),
        round.active.len() == 0 && round.shadow.len() > 0 ==> ControllerView::lead(round) == Some(
            round.shadow[0],
        ),
        round.active.len() == 0 && round.shadow.len() == 0 ==> ControllerView::lead(round)
            is None,
{
}

/// An action begins only if it is known and was proposed and not begun yet; then it
/// executes.
pub proof fn law_only_proposed_actions_begin(
    controller: ControllerView,
    id: ActionId,
    observation: ActionObservation,
)
    requires
        controller.config.mode is Active,
    ensures
        ({
            let (after, result) = controller.begun(id, observation);
            let record = controller.ledger.find(id);
            &&& record is None ==> result == Err::<ActionRecordView, _>(
                ActuationError::UnknownAction,
            ) && after == controller
            &&& record matches Some(r) ==> {
                &&& !(r.state is Proposed) ==> result == Err::<ActionRecordView, _>(
                    ActuationError::IllegalState,
                ) && after == controller
                &&& r.state is Proposed ==> result == Ok::<_, ActuationError>(r) && (
                after.ledger.find(id) matches Some(now) && now.state is Executing && now.action
                    == r.action)
            }
        }),
{
    lemma_found_id(controller.ledger, id);
    lemma_first_where(controller.ledger.records, |r: ActionRecordView| r.id == id);
    lemma_transition_found(controller.ledger, id, ActionState::Accepted, observation, None);
    let accepted = controller.ledger.transitioned(id, ActionState::Accepted, observation, None).0;
    lemma_first_where(accepted.records, |r: ActionRecordView| r.id == id);
    lemma_transition_found(accepted, id, ActionState::Executing, observation, None);
}

/// Feedback is kept for every admitted action while there is a learned controller to
/// teach: with the frame and the context that it was admitted on, newest last.
pub proof fn law_feedback_is_kept_for_learning(
    controller: ControllerView,
    id: ActionId,
    frame: ControllerFrameView,
    context: SafetyContextView,
)
    requires
        controller.ledger.config.max_history >= 1,
    ensures
        ({
            let after = controller.feedback_kept(id, frame, context);
            &&& controller.learned is None ==> after == controller
            &&& controller.learned is Some ==> after.feedback.len() > 0 && after.feedback.last()
                == (FeedbackView { id, frame, context }) && after.feedback.len()
                <= controller.ledger.config.max_history
            &&& controller.learned is Some && controller.feedback.len()
                < controller.ledger.config.max_history ==> after.feedback.drop_last()
                == controller.feedback
        }),
{
    let after = controller.feedback_kept(id, frame, context);
    if controller.learned is Some && controller.feedback.len()
        < controller.ledger.config.max_history {
        assert(after.feedback.drop_last() =~= controller.feedback);
    }
}

/// A decision falls back exactly if the baseline proposed nothing or the learned
/// controller kept to the baseline, and its first trace is the baseline's.
pub proof fn law_decisions_tell_of_fallbacks(
    controller: ControllerView,
    frame: ControllerFrameView,
    context: SafetyContextView,
)
    ensures
        ({
            let proposal = controller.baseline.proposed(
                frame,
                context,
                controller.envelope,
            ).1;
            let decision = controller.decided(frame, context).1;
            let fell_back = ControllerView::learned_round(
                controller.baseline_round(frame, context),
                frame,
                context,
            ).1;
            &&& decision.fallback <==> proposal.fallback || fell_back
            &&& decision.traces.len() > 0
            &&& decision.traces[0] == proposal.trace
        }),
{
    let proposal = controller.baseline.proposed(frame, context, controller.envelope).1;
    let start = controller.first_round(frame, context);
    lemma_round_starts_with(start, proposal.actions, proposal.trace.reason, frame, context);
}

proof fn lemma_round_starts_with(
    start: Round,
    actions: Seq<ActionView>,
    reason: ActionReason,
    frame: ControllerFrameView,
    context: SafetyContextView,
)
    requires
        start.traces.len() > 0,
    ensures
        ({
            let round = ControllerView::round_over(start, actions, reason, frame, context);
            round.traces.len() > 0 && round.traces[0] == start.traces[0]
        }),
    decreases actions.len(),
{
    if actions.len() > 0 {
        lemma_round_starts_with(start, actions.drop_last(), reason, frame, context);
    }
}

} // verus!
