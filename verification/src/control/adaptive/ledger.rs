//! Bounded action history with duplicate, conflict and rate suppression.

use crate::bounded::{bounded_push, keep_newest, newest};
use crate::control::adaptive::action::{
    Action, ActionConflictKey, ActionConflictKeyView, ActionId, ActionKey, ActionKeyView,
    ActionObservation, ActionReason, ActionState, ActionView, ControllerSource,
};
use crate::control::adaptive::policy::{ActionOutcome, ExpectedBenefit};
use crate::control::adaptive::safety::SafetyViolation;
use crate::ids::{ObservationSequence, ObservationWindowId};
use crate::search::{
    first_where, lemma_first_where, lemma_first_where_absent, lemma_first_where_found,
};
use crate::wire::view_result;
use vstd::prelude::*;

verus! {

/// A complete bounded action record.
#[derive(Debug, PartialEq, Eq)]
pub struct ActionRecord {
    /// Ledger-assigned action identity.
    pub id: ActionId,
    /// Closed action payload.
    pub action: Action,
    /// Typed reason for the proposal.
    pub reason: ActionReason,
    /// Controller that proposed the action.
    pub source: ControllerSource,
    /// Current lifecycle state.
    pub state: ActionState,
    /// Observation identity used by the decision.
    pub observation: ActionObservation,
    /// Benefit expected before execution.
    pub expected_benefit: ExpectedBenefit,
    /// Benefit and cost observed after execution.
    pub actual_outcome: Option<ActionOutcome>,
    /// Newer action that superseded this one.
    pub superseded_by: Option<ActionId>,
    /// Older action that this one superseded.
    pub supersedes: Option<ActionId>,
}

/// What an [`ActionRecord`] says.
#[verifier::ext_equal]
pub struct ActionRecordView {
    pub id: ActionId,
    pub action: ActionView,
    pub reason: ActionReason,
    pub source: ControllerSource,
    pub state: ActionState,
    pub observation: ActionObservation,
    pub expected_benefit: ExpectedBenefit,
    pub actual_outcome: Option<ActionOutcome>,
    pub superseded_by: Option<ActionId>,
    pub supersedes: Option<ActionId>,
}

impl View for ActionRecord {
    type V = ActionRecordView;

    open spec fn view(&self) -> ActionRecordView {
        ActionRecordView {
            id: self.id,
            action: self.action@,
            reason: self.reason,
            source: self.source,
            state: self.state,
            observation: self.observation,
            expected_benefit: self.expected_benefit,
            actual_outcome: self.actual_outcome,
            superseded_by: self.superseded_by,
            supersedes: self.supersedes,
        }
    }
}

impl Clone for ActionRecord {
    fn clone(&self) -> (copy: Self)
        ensures
            copy@ == self@,
    {
        ActionRecord {
            id: self.id,
            action: self.action.clone(),
            reason: self.reason,
            source: self.source,
            state: self.state,
            observation: self.observation,
            expected_benefit: self.expected_benefit,
            actual_outcome: self.actual_outcome,
            superseded_by: self.superseded_by,
            supersedes: self.supersedes,
        }
    }
}

impl ActionRecord {
    /// Returns the exact action key.
    pub fn key(&self) -> (key: ActionKey)
        ensures
            key@ == self@.action.key(),
    {
        self.action.key()
    }

    /// Returns the action conflict key.
    pub fn conflict_key(&self) -> (key: ActionConflictKey)
        ensures
            key@ == self@.action.conflict_key(),
    {
        self.action.conflict_key()
    }
}

/// Trace status for one decision.
#[derive(Debug, Clone, Copy, PartialEq, Eq, Hash, Structural)]
pub enum TraceStatus {
    /// A proposal was generated.
    Proposed,
    /// A proposal entered the active ledger.
    Accepted,
    /// A proposal was rejected by safety or policy.
    Rejected,
    /// A proposal was suppressed as duplicate, conflicting, or rate limited.
    Suppressed,
    /// A learned controller fell back to baseline behavior.
    Fallback,
    /// A learned action was evaluated without actuation.
    Shadow,
    /// A newer action replaced the traced action.
    Superseded,
}

/// One explainable decision trace.
#[derive(Debug, PartialEq, Eq)]
pub struct DecisionTrace {
    /// Observation sequence used by the decision.
    pub sequence: ObservationSequence,
    /// Observation window used by the decision.
    pub window: ObservationWindowId,
    /// Observation version used by the decision.
    pub version: u64,
    /// Controller source.
    pub source: ControllerSource,
    /// Trace status.
    pub status: TraceStatus,
    /// Typed reason for the decision.
    pub reason: ActionReason,
    /// Exact action key, when an action was generated.
    pub action_key: Option<ActionKey>,
    /// Safety violation, when validation rejected an action.
    pub safety_violation: Option<SafetyViolation>,
    /// Ledger suppression reason, when applicable.
    pub ledger_rejection: Option<LedgerRejection>,
    /// Whether baseline fallback was used.
    pub fallback: bool,
}

/// What a [`DecisionTrace`] says.
#[verifier::ext_equal]
pub struct DecisionTraceView {
    pub sequence: ObservationSequence,
    pub window: ObservationWindowId,
    pub version: u64,
    pub source: ControllerSource,
    pub status: TraceStatus,
    pub reason: ActionReason,
    pub action_key: Option<ActionKeyView>,
    pub safety_violation: Option<SafetyViolation>,
    pub ledger_rejection: Option<LedgerRejection>,
    pub fallback: bool,
}

/// An optional value taken by its view.
pub open spec fn view_option<T: View>(value: Option<T>) -> Option<T::V> {
    match value {
        Some(value) => Some(value@),
        None => None,
    }
}

/// Copies an optional key.
pub fn clone_key(key: &Option<ActionKey>) -> (copy: Option<ActionKey>)
    ensures
        view_option(copy) == view_option(*key),
{
    match key {
        Some(key) => Some(key.clone()),
        None => None,
    }
}

impl View for DecisionTrace {
    type V = DecisionTraceView;

    open spec fn view(&self) -> DecisionTraceView {
        DecisionTraceView {
            sequence: self.sequence,
            window: self.window,
            version: self.version,
            source: self.source,
            status: self.status,
            reason: self.reason,
            action_key: view_option(self.action_key),
            safety_violation: self.safety_violation,
            ledger_rejection: self.ledger_rejection,
            fallback: self.fallback,
        }
    }
}

impl Clone for DecisionTrace {
    fn clone(&self) -> (copy: Self)
        ensures
            copy@ == self@,
    {
        DecisionTrace {
            sequence: self.sequence,
            window: self.window,
            version: self.version,
            source: self.source,
            status: self.status,
            reason: self.reason,
            action_key: clone_key(&self.action_key),
            safety_violation: self.safety_violation,
            ledger_rejection: self.ledger_rejection,
            fallback: self.fallback,
        }
    }
}

impl DecisionTraceView {
    /// A trace without violation, rejection or fallback.
    pub open spec fn plain(
        observation: ActionObservation,
        source: ControllerSource,
        status: TraceStatus,
        reason: ActionReason,
        action_key: Option<ActionKeyView>,
    ) -> Self {
        DecisionTraceView {
            sequence: observation.sequence,
            window: observation.window,
            version: observation.version,
            source,
            status,
            reason,
            action_key,
            safety_violation: None,
            ledger_rejection: None,
            fallback: false,
        }
    }
}

impl DecisionTrace {
    /// Creates a trace without violation, rejection or fallback.
    pub fn new(
        observation: ActionObservation,
        source: ControllerSource,
        status: TraceStatus,
        reason: ActionReason,
        action_key: Option<ActionKey>,
    ) -> (trace: Self)
        ensures
            trace@ == DecisionTraceView::plain(
                observation,
                source,
                status,
                reason,
                view_option(action_key),
            ),
    {
        DecisionTrace {
            sequence: observation.sequence,
            window: observation.window,
            version: observation.version,
            source,
            status,
            reason,
            action_key,
            safety_violation: None,
            ledger_rejection: None,
            fallback: false,
        }
    }
}

/// Action ledger retention and suppression configuration.
#[derive(Debug, Clone, Copy, PartialEq, Eq, Structural)]
pub struct ActionLedgerConfig {
    /// Maximum retained action records.
    pub max_history: usize,
    /// Maximum retained traces.
    pub max_traces: usize,
    /// Maximum actions admitted in one observation window.
    pub max_actions_per_window: u32,
    /// Observation windows for which a conflict key is suppressed.
    pub conflict_cooldown_windows: u64,
    /// Observation windows for which an exact key is suppressed.
    pub duplicate_cooldown_windows: u64,
}

impl ActionLedgerConfig {
    /// The configuration that a ledger starts with.
    pub open spec fn standard() -> Self {
        ActionLedgerConfig {
            max_history: 256,
            max_traces: 512,
            max_actions_per_window: 8,
            conflict_cooldown_windows: 2,
            duplicate_cooldown_windows: 8,
        }
    }
}

impl Default for ActionLedgerConfig {
    fn default() -> (config: Self)
        ensures
            config == Self::standard(),
    {
        ActionLedgerConfig {
            max_history: 256,
            max_traces: 512,
            max_actions_per_window: 8,
            conflict_cooldown_windows: 2,
            duplicate_cooldown_windows: 8,
        }
    }
}

/// Why the action ledger refused a proposal.
#[derive(Debug, Clone, Copy, PartialEq, Eq, Structural)]
pub enum LedgerRejection {
    /// The exact action key is still active or within duplicate cooldown.
    Duplicate,
    /// Another policy for the same conflict key is active or cooling down.
    Conflict,
    /// The observation window action-rate ceiling was reached.
    RateLimit,
    /// The action was rejected by the safety validator.
    Safety,
    /// The requested action identifier is not retained.
    UnknownAction,
    /// The requested lifecycle transition is illegal.
    IllegalTransition,
    /// The ledger reached its action identifier space.
    IdExhausted,
}

/// How many of `records` belong to `window`.
pub open spec fn count_in_window(records: Seq<ActionRecordView>, window: ObservationWindowId) -> nat
    decreases records.len(),
{
    if records.len() == 0 {
        0
    } else {
        count_in_window(records.drop_last(), window) + if records.last().observation.window
            == window {
            1nat
        } else {
            0nat
        }
    }
}

/// Whether `window` is at most `windows` after the window of `record`.
pub open spec fn within(record: ActionRecordView, window: u64, windows: u64) -> bool {
    let recorded = record.observation.window.0;
    window >= recorded && window - recorded <= windows
}

/// What an [`ActionLedger`] holds.
#[verifier::ext_equal]
pub struct LedgerView {
    pub config: ActionLedgerConfig,
    pub records: Seq<ActionRecordView>,
    pub traces: Seq<DecisionTraceView>,
    pub next_id: u64,
}

impl LedgerView {
    /// Bounded history and traces, identities that ascend and were all assigned.
    pub open spec fn well_formed(self) -> bool {
        &&& self.config.max_history >= 1
        &&& self.config.max_traces >= 1
        &&& self.records.len() <= self.config.max_history
        &&& self.traces.len() <= self.config.max_traces
        &&& forall|i: int, j: int|
            0 <= i < j < self.records.len() ==> (#[trigger] self.records[i]).id.0 < (
            #[trigger] self.records[j]).id.0
        &&& forall|i: int| 0 <= i < self.records.len() ==> (
            #[trigger] self.records[i]
        ).id.0 < self.next_id
    }

    /// The place of the record with identity `id`.
    pub open spec fn place(self, id: ActionId) -> Option<int> {
        first_where(self.records, |r: ActionRecordView| r.id == id)
    }

    /// The record with identity `id`.
    pub open spec fn find(self, id: ActionId) -> Option<ActionRecordView> {
        match self.place(id) {
            Some(at) => Some(self.records[at]),
            None => None,
        }
    }

    /// The ledger after one more trace.
    pub open spec fn traced(self, trace: DecisionTraceView) -> Self {
        LedgerView {
            traces: bounded_push(self.traces, trace, self.config.max_traces as nat),
            ..self
        }
    }

    /// Whether the exact key is active or cooling down.
    pub open spec fn repeats(self, key: ActionKeyView, window: u64) -> bool {
        exists|i: int|
            0 <= i < self.records.len() && (#[trigger] self.records[i]).action.key() == key && (
            !self.records[i].state.terminal() || within(
                self.records[i],
                window,
                self.config.duplicate_cooldown_windows,
            ))
    }

    /// Whether the conflict key is active or cooling down.
    pub open spec fn conflicts(self, key: ActionConflictKeyView, window: u64) -> bool {
        exists|i: int|
            0 <= i < self.records.len() && (#[trigger] self.records[i]).action.conflict_key() == key
                && (!self.records[i].state.terminal() || within(
                self.records[i],
                window,
                self.config.conflict_cooldown_windows,
            ))
    }

    /// The place of the oldest record in a terminal state.
    pub open spec fn oldest_terminal(self) -> Option<int> {
        first_where(self.records, |r: ActionRecordView| r.state.terminal())
    }

    /// Why a proposal for `action` is refused before room is made, if it is.
    pub open spec fn refusal(self, action: ActionView, window: ObservationWindowId) -> Option<
        LedgerRejection,
    > {
        if self.repeats(action.key(), window.0) {
            Some(LedgerRejection::Duplicate)
        } else if self.conflicts(action.conflict_key(), window.0) {
            Some(LedgerRejection::Conflict)
        } else if count_in_window(self.records, window) >= self.config.max_actions_per_window {
            Some(LedgerRejection::RateLimit)
        } else if self.records.len() >= self.config.max_history && self.oldest_terminal() is None {
            Some(LedgerRejection::RateLimit)
        } else {
            None
        }
    }

    /// The ledger with room for one record: a full one drops its oldest terminal
    /// record.
    pub open spec fn with_room(self) -> Self {
        if self.records.len() >= self.config.max_history {
            LedgerView { records: self.records.remove(self.oldest_terminal()->0), ..self }
        } else {
            self
        }
    }

    /// The record that an admission of `action` creates.
    pub open spec fn fresh_record(
        self,
        action: ActionView,
        reason: ActionReason,
        source: ControllerSource,
        observation: ActionObservation,
    ) -> ActionRecordView {
        ActionRecordView {
            id: ActionId(self.next_id),
            action,
            reason,
            source,
            state: ActionState::Proposed,
            observation,
            expected_benefit: action.benefit(),
            actual_outcome: None,
            superseded_by: None,
            supersedes: None,
        }
    }

    /// The trace of a suppressed proposal.
    pub open spec fn suppression(
        action: ActionView,
        reason: ActionReason,
        source: ControllerSource,
        observation: ActionObservation,
        rejection: LedgerRejection,
    ) -> DecisionTraceView {
        DecisionTraceView {
            ledger_rejection: Some(rejection),
            ..DecisionTraceView::plain(
                observation,
                source,
                TraceStatus::Suppressed,
                reason,
                Some(action.key()),
            )
        }
    }

    /// What an admission makes of the ledger, and what it returns.
    pub open spec fn admitted(
        self,
        action: ActionView,
        reason: ActionReason,
        source: ControllerSource,
        observation: ActionObservation,
    ) -> (Self, Result<ActionRecordView, LedgerRejection>) {
        match self.refusal(action, observation.window) {
            Some(rejection) => (
                self.traced(Self::suppression(action, reason, source, observation, rejection)),
                Err(rejection),
            ),
            None => if self.next_id == u64::MAX {
                (
                    self.with_room().traced(
                        Self::suppression(
                            action,
                            reason,
                            source,
                            observation,
                            LedgerRejection::IdExhausted,
                        ),
                    ),
                    Err(LedgerRejection::IdExhausted),
                )
            } else {
                let record = self.fresh_record(action, reason, source, observation);
                let room = self.with_room();
                (
                    LedgerView {
                        records: room.records.push(record),
                        next_id: (self.next_id + 1) as u64,
                        ..room
                    }.traced(
                        DecisionTraceView::plain(
                            observation,
                            source,
                            TraceStatus::Accepted,
                            reason,
                            Some(action.key()),
                        ),
                    ),
                    Ok(record),
                )
            },
        }
    }

    /// What a transition makes of the ledger, and what it returns.
    pub open spec fn transitioned(
        self,
        id: ActionId,
        next: ActionState,
        observation: ActionObservation,
        outcome: Option<ActionOutcome>,
    ) -> (Self, Result<ActionRecordView, LedgerRejection>) {
        match self.place(id) {
            None => (self, Err(LedgerRejection::UnknownAction)),
            Some(at) => if !self.records[at].state.allows(next) {
                (self, Err(LedgerRejection::IllegalTransition))
            } else {
                let record = ActionRecordView {
                    state: next,
                    actual_outcome: if outcome is Some {
                        outcome
                    } else {
                        self.records[at].actual_outcome
                    },
                    ..self.records[at]
                };
                (
                    LedgerView { records: self.records.update(at, record), ..self }.traced(
                        DecisionTraceView::plain(
                            observation,
                            record.source,
                            if next.terminal() {
                                TraceStatus::Accepted
                            } else {
                                TraceStatus::Proposed
                            },
                            record.reason,
                            Some(record.action.key()),
                        ),
                    ),
                    Ok(record),
                )
            },
        }
    }

    /// What recording an outcome makes of the ledger, and what it returns.
    pub open spec fn settled(
        self,
        id: ActionId,
        observation: ActionObservation,
        outcome: ActionOutcome,
    ) -> (Self, Result<ActionRecordView, LedgerRejection>) {
        match self.find(id) {
            None => (self, Err(LedgerRejection::UnknownAction)),
            Some(record) => if record.state != ActionState::Executing {
                (self, Err(LedgerRejection::IllegalTransition))
            } else {
                self.transitioned(
                    id,
                    if outcome.result.succeeded() {
                        ActionState::Completed
                    } else {
                        ActionState::Failed
                    },
                    observation,
                    Some(outcome),
                )
            },
        }
    }

    /// What superseding `old_id` by `new_id` makes of the ledger, and what it returns.
    pub open spec fn superseded(
        self,
        old_id: ActionId,
        new_id: ActionId,
        observation: ActionObservation,
    ) -> (Self, Result<(), LedgerRejection>) {
        if old_id == new_id {
            (self, Err(LedgerRejection::UnknownAction))
        } else {
            match (self.place(old_id), self.place(new_id)) {
                (Some(older), Some(newer)) => if self.records[older].state.terminal()
                    || self.records[newer].state.terminal() {
                    (self, Err(LedgerRejection::IllegalTransition))
                } else {
                    let replaced = ActionRecordView {
                        state: ActionState::Superseded,
                        superseded_by: Some(new_id),
                        ..self.records[older]
                    };
                    let replacing = ActionRecordView {
                        supersedes: Some(old_id),
                        ..self.records[newer]
                    };
                    (
                        LedgerView {
                            records: self.records.update(older, replaced).update(newer, replacing),
                            ..self
                        }.traced(
                            DecisionTraceView::plain(
                                observation,
                                replaced.source,
                                TraceStatus::Superseded,
                                replaced.reason,
                                None,
                            ),
                        ),
                        Ok(()),
                    )
                },
                _ => (self, Err(LedgerRejection::UnknownAction)),
            }
        }
    }
}

/// Bounded action history with duplicate, conflict and rate suppression.
#[derive(Debug, Clone)]
pub struct ActionLedger {
    pub(crate) config: ActionLedgerConfig,
    pub(crate) records: Vec<ActionRecord>,
    pub(crate) traces: Vec<DecisionTrace>,
    pub(crate) next_id: u64,
}

/// The views of a list of records.
pub open spec fn record_views(records: Seq<ActionRecord>) -> Seq<ActionRecordView> {
    Seq::new(records.len(), |i: int| records[i]@)
}

/// The views of a list of traces.
pub open spec fn trace_views(traces: Seq<DecisionTrace>) -> Seq<DecisionTraceView> {
    Seq::new(traces.len(), |i: int| traces[i]@)
}

impl View for ActionLedger {
    type V = LedgerView;

    open(crate) spec fn view(&self) -> LedgerView {
        LedgerView {
            config: self.config,
            records: record_views(self.records@),
            traces: trace_views(self.traces@),
            next_id: self.next_id,
        }
    }
}

impl Default for ActionLedger {
    fn default() -> (ledger: Self)
        ensures
            ledger@.well_formed(),
            ledger@ == (LedgerView {
                config: ActionLedgerConfig::standard(),
                records: Seq::empty(),
                traces: Seq::empty(),
                next_id: 1,
            }),
    {
        Self::new(ActionLedgerConfig::default())
    }
}

/// Appends a trace and drops the oldest ones beyond `cap`.
pub fn push_bounded(traces: &mut Vec<DecisionTrace>, trace: DecisionTrace, cap: usize)
    ensures
        trace_views(final(traces)@) == bounded_push(trace_views(old(traces)@), trace@, cap as nat),
{
    let ghost before = traces@;
    let ghost longer = before.push(trace);
    traces.push(trace);
    keep_newest(traces, cap);
    proof {
        assert(trace_views(longer) =~= trace_views(before).push(trace@));
        assert(trace_views(newest(longer, cap as nat)) =~= newest(trace_views(longer), cap as nat));
    }
}

impl ActionLedger {
    /// Creates an empty bounded ledger; each bound is at least one.
    pub fn new(config: ActionLedgerConfig) -> (ledger: Self)
        ensures
            ledger@.well_formed(),
            ledger@ == (LedgerView {
                config: ActionLedgerConfig {
                    max_history: if config.max_history >= 1 {
                        config.max_history
                    } else {
                        1
                    },
                    max_traces: if config.max_traces >= 1 {
                        config.max_traces
                    } else {
                        1
                    },
                    ..config
                },
                records: Seq::empty(),
                traces: Seq::empty(),
                next_id: 1,
            }),
    {
        let max_history: usize = if config.max_history >= 1 {
            config.max_history
        } else {
            1
        };
        let max_traces: usize = if config.max_traces >= 1 {
            config.max_traces
        } else {
            1
        };
        let ledger: ActionLedger = ActionLedger {
            config: ActionLedgerConfig { max_history, max_traces, ..config },
            records: Vec::new(),
            traces: Vec::new(),
            next_id: 1,
        };
        proof {
            assert(ledger@.records =~= Seq::empty());
            assert(ledger@.traces =~= Seq::empty());
        }
        ledger
    }

    /// Returns the ledger configuration.
    pub fn config(&self) -> (config: &ActionLedgerConfig)
        ensures
            *config == self@.config,
    {
        &self.config
    }

    /// Returns retained records in proposal order.
    pub fn records(&self) -> (records: &Vec<ActionRecord>)
        ensures
            record_views(records@) == self@.records,
    {
        &self.records
    }

    /// Returns retained traces in decision order.
    pub fn traces(&self) -> (traces: &Vec<DecisionTrace>)
        ensures
            trace_views(traces@) == self@.traces,
    {
        &self.traces
    }

    fn position(&self, id: ActionId) -> (place: Option<usize>)
        ensures
            match place {
                Some(at) => self@.place(id) == Some(at as int) && at < self.records.len()
                    && self.records@[at as int].id == id,
                None => self@.place(id) is None,
            },
    {
        let ghost wanted = |r: ActionRecordView| r.id == id;
        let mut at: usize = 0;
        while at < self.records.len()
            invariant
                at <= self.records.len(),
                wanted == (|r: ActionRecordView| r.id == id),
                forall|i: int| 0 <= i < at ==> !wanted(#[trigger] self@.records[i]),
            decreases self.records.len() - at,
        {
            if self.records[at].id == id {
                proof {
                    assert(wanted(self@.records[at as int]));
                    lemma_first_where_found(self@.records, wanted, at as int);
                }
                return Some(at);
            }
            proof {
                assert(!wanted(self@.records[at as int]));
            }
            at = at + 1;
        }
        proof {
            lemma_first_where_absent(self@.records, wanted);
        }
        None
    }

    /// Finds one retained record.
    pub fn record(&self, id: ActionId) -> (record: Option<&ActionRecord>)
        ensures
            match record {
                Some(r) => self@.find(id) == Some(r@),
                None => self@.find(id) is None,
            },
    {
        match self.position(id) {
            Some(at) => {
                proof {
                    assert(self@.records[at as int] == self.records@[at as int]@);
                }
                Some(&self.records[at])
            },
            None => None,
        }
    }

    /// Returns copies of the records that have not reached a terminal state.
    pub fn active_records(&self) -> (active: Vec<ActionRecord>)
        ensures
            record_views(active@) == self@.records.filter(
                |r: ActionRecordView| !r.state.terminal(),
            ),
    {
        let ghost live = |r: ActionRecordView| !r.state.terminal();
        let mut active: Vec<ActionRecord> = Vec::new();
        let mut at: usize = 0;
        proof {
            reveal(Seq::filter);
            assert(self@.records.take(0) =~= Seq::empty());
            assert(record_views(active@) =~= self@.records.take(0).filter(live));
        }
        while at < self.records.len()
            invariant
                at <= self.records.len(),
                live == (|r: ActionRecordView| !r.state.terminal()),
                record_views(active@) == self@.records.take(at as int).filter(live),
            decreases self.records.len() - at,
        {
            let ghost before = active@;
            if !self.records[at].state.is_terminal() {
                active.push(self.records[at].clone());
            }
            proof {
                reveal(Seq::filter);
                let longer = self@.records.take(at + 1);
                assert(longer.drop_last() =~= self@.records.take(at as int));
                assert(longer.last() == self.records@[at as int]@);
                if !self.records@[at as int].state.terminal() {
                    assert(record_views(active@) =~= record_views(before).push(longer.last()));
                }
            }
            at = at + 1;
        }
        proof {
            assert(self@.records.take(at as int) =~= self@.records);
        }
        active
    }

    fn blocked_by_key(&self, key: &ActionKey, window: u64) -> (blocked: bool)
        ensures
            blocked == self@.repeats(key@, window),
    {
        let mut at: usize = 0;
        while at < self.records.len()
            invariant
                at <= self.records.len(),
                forall|i: int|
                    0 <= i < at ==> !((#[trigger] self@.records[i]).action.key() == key@ && (
                    !self@.records[i].state.terminal() || within(
                        self@.records[i],
                        window,
                        self@.config.duplicate_cooldown_windows,
                    ))),
            decreases self.records.len() - at,
        {
            let record: &ActionRecord = &self.records[at];
            if record.key().same(key) && (!record.state.is_terminal() || Self::cooling(
                record,
                window,
                self.config.duplicate_cooldown_windows,
            )) {
                proof {
                    assert(self@.records[at as int] == record@);
                }
                return true;
            }
            at = at + 1;
        }
        false
    }

    fn blocked_by_conflict(&self, key: &ActionConflictKey, window: u64) -> (blocked: bool)
        ensures
            blocked == self@.conflicts(key@, window),
    {
        let mut at: usize = 0;
        while at < self.records.len()
            invariant
                at <= self.records.len(),
                forall|i: int|
                    0 <= i < at ==> !((#[trigger] self@.records[i]).action.conflict_key() == key@
                        && (!self@.records[i].state.terminal() || within(
                        self@.records[i],
                        window,
                        self@.config.conflict_cooldown_windows,
                    ))),
            decreases self.records.len() - at,
        {
            let record: &ActionRecord = &self.records[at];
            if record.conflict_key().same(key) && (!record.state.is_terminal() || Self::cooling(
                record,
                window,
                self.config.conflict_cooldown_windows,
            )) {
                proof {
                    assert(self@.records[at as int] == record@);
                }
                return true;
            }
            at = at + 1;
        }
        false
    }

    fn count_window(&self, window: ObservationWindowId) -> (count: usize)
        ensures
            count == count_in_window(self@.records, window),
    {
        let mut count: usize = 0;
        let mut at: usize = 0;
        proof {
            assert(self@.records.take(0) =~= Seq::empty());
        }
        while at < self.records.len()
            invariant
                at <= self.records.len(),
                count <= at,
                count == count_in_window(self@.records.take(at as int), window),
            decreases self.records.len() - at,
        {
            proof {
                let longer = self@.records.take(at + 1);
                assert(longer.drop_last() =~= self@.records.take(at as int));
                assert(longer.last() == self.records@[at as int]@);
            }
            if self.records[at].observation.window == window {
                count = count + 1;
            }
            at = at + 1;
        }
        proof {
            assert(self@.records.take(at as int) =~= self@.records);
        }
        count
    }

    fn first_terminal(&self) -> (place: Option<usize>)
        ensures
            match place {
                Some(at) => self@.oldest_terminal() == Some(at as int) && at < self.records.len()
                    && self@.records[at as int].state.terminal(),
                None => self@.oldest_terminal() is None,
            },
    {
        let ghost wanted = |r: ActionRecordView| r.state.terminal();
        let mut at: usize = 0;
        while at < self.records.len()
            invariant
                at <= self.records.len(),
                wanted == (|r: ActionRecordView| r.state.terminal()),
                forall|i: int| 0 <= i < at ==> !wanted(#[trigger] self@.records[i]),
            decreases self.records.len() - at,
        {
            if self.records[at].state.is_terminal() {
                proof {
                    assert(wanted(self@.records[at as int]));
                    lemma_first_where_found(self@.records, wanted, at as int);
                }
                return Some(at);
            }
            proof {
                assert(!wanted(self@.records[at as int]));
            }
            at = at + 1;
        }
        proof {
            lemma_first_where_absent(self@.records, wanted);
        }
        None
    }

    fn refuse(
        &mut self,
        key: ActionKey,
        reason: ActionReason,
        source: ControllerSource,
        observation: ActionObservation,
        rejection: LedgerRejection,
    )
        ensures
            final(self)@ == old(self)@.traced(
                DecisionTraceView {
                    ledger_rejection: Some(rejection),
                    ..DecisionTraceView::plain(
                        observation,
                        source,
                        TraceStatus::Suppressed,
                        reason,
                        Some(key@),
                    )
                },
            ),
    {
        let plain: DecisionTrace = DecisionTrace::new(
            observation,
            source,
            TraceStatus::Suppressed,
            reason,
            Some(key),
        );
        self.push_trace(DecisionTrace { ledger_rejection: Some(rejection), ..plain });
    }

    /// Admits a validated action to the bounded ledger.
    pub fn admit_action(
        &mut self,
        action: Action,
        reason: ActionReason,
        source: ControllerSource,
        observation: ActionObservation,
    ) -> (result: Result<ActionRecord, LedgerRejection>)
        requires
            old(self)@.well_formed(),
        ensures
            (final(self)@, view_result(result)) == old(self)@.admitted(
                action@,
                reason,
                source,
                observation,
            ),
            final(self)@.well_formed(),
    {
        let ghost before = self@;
        let key: ActionKey = action.key();
        let conflict: ActionConflictKey = action.conflict_key();
        let window: u64 = observation.window.as_u64();
        proof {
            lemma_admitted_well_formed(before, action@, reason, source, observation);
        }
        if self.blocked_by_key(&key, window) {
            self.refuse(key, reason, source, observation, LedgerRejection::Duplicate);
            return Err(LedgerRejection::Duplicate);
        }
        if self.blocked_by_conflict(&conflict, window) {
            self.refuse(key, reason, source, observation, LedgerRejection::Conflict);
            return Err(LedgerRejection::Conflict);
        }
        let in_window: usize = self.count_window(observation.window);
        if in_window as u64 >= self.config.max_actions_per_window as u64 {
            self.refuse(key, reason, source, observation, LedgerRejection::RateLimit);
            return Err(LedgerRejection::RateLimit);
        }
        if self.records.len() >= self.config.max_history {
            match self.first_terminal() {
                Some(oldest) => {
                    self.records.remove(oldest);
                    proof {
                        assert(self@.records =~= before.records.remove(oldest as int));
                    }
                },
                None => {
                    self.refuse(key, reason, source, observation, LedgerRejection::RateLimit);
                    return Err(LedgerRejection::RateLimit);
                },
            }
        }
        let ghost room = self@;
        proof {
            assert(room == before.with_room());
        }
        if self.next_id == u64::MAX {
            self.refuse(key, reason, source, observation, LedgerRejection::IdExhausted);
            return Err(LedgerRejection::IdExhausted);
        }
        let expected_benefit: ExpectedBenefit = action.expected_benefit();
        let record: ActionRecord = ActionRecord {
            id: ActionId::from_u64(self.next_id),
            action,
            reason,
            source,
            state: ActionState::Proposed,
            observation,
            expected_benefit,
            actual_outcome: None,
            superseded_by: None,
            supersedes: None,
        };
        self.next_id = self.next_id + 1;
        self.records.push(record.clone());
        proof {
            assert(self@.records =~= room.records.push(record@));
        }
        self.push_trace(
            DecisionTrace::new(observation, source, TraceStatus::Accepted, reason, Some(key)),
        );
        Ok(record)
    }

    /// Transitions one retained action.
    pub fn transition(
        &mut self,
        id: ActionId,
        next: ActionState,
        observation: ActionObservation,
        outcome: Option<ActionOutcome>,
    ) -> (result: Result<ActionRecord, LedgerRejection>)
        requires
            old(self)@.well_formed(),
        ensures
            (final(self)@, view_result(result)) == old(self)@.transitioned(
                id,
                next,
                observation,
                outcome,
            ),
            final(self)@.well_formed(),
    {
        let ghost before = self@;
        match self.position(id) {
            None => Err(LedgerRejection::UnknownAction),
            Some(at) => {
                proof {
                    assert(before.records[at as int] == self.records@[at as int]@);
                }
                if !self.records[at].state.can_transition_to(next) {
                    return Err(LedgerRejection::IllegalTransition);
                }
                let mut record: ActionRecord = self.records[at].clone();
                record.state = next;
                if outcome.is_some() {
                    record.actual_outcome = outcome;
                }
                let result: ActionRecord = record.clone();
                self.records.set(at, record);
                proof {
                    assert(self@.records =~= before.records.update(at as int, result@));
                }
                self.push_trace(
                    DecisionTrace::new(
                        observation,
                        result.source,
                        if next.is_terminal() {
                            TraceStatus::Accepted
                        } else {
                            TraceStatus::Proposed
                        },
                        result.reason,
                        Some(result.key()),
                    ),
                );
                Ok(result)
            },
        }
    }

    /// Records an execution outcome and moves the action to a terminal state.
    pub fn record_outcome(
        &mut self,
        id: ActionId,
        observation: ActionObservation,
        outcome: ActionOutcome,
    ) -> (result: Result<ActionRecord, LedgerRejection>)
        requires
            old(self)@.well_formed(),
        ensures
            (final(self)@, view_result(result)) == old(self)@.settled(id, observation, outcome),
            final(self)@.well_formed(),
    {
        match self.record(id) {
            None => return Err(LedgerRejection::UnknownAction),
            Some(record) => {
                if record.state != ActionState::Executing {
                    return Err(LedgerRejection::IllegalTransition);
                }
            },
        }
        let next: ActionState = if outcome.result.is_success() {
            ActionState::Completed
        } else {
            ActionState::Failed
        };
        self.transition(id, next, observation, Some(outcome))
    }

    /// Supersedes an active action and links both records.
    pub fn supersede(
        &mut self,
        old_id: ActionId,
        new_id: ActionId,
        observation: ActionObservation,
    ) -> (result: Result<(), LedgerRejection>)
        requires
            old(self)@.well_formed(),
        ensures
            (final(self)@, result) == old(self)@.superseded(old_id, new_id, observation),
            final(self)@.well_formed(),
    {
        let ghost before = self@;
        if old_id == new_id {
            return Err(LedgerRejection::UnknownAction);
        }
        let older: usize = match self.position(old_id) {
            Some(at) => at,
            None => return Err(LedgerRejection::UnknownAction),
        };
        let newer: usize = match self.position(new_id) {
            Some(at) => at,
            None => return Err(LedgerRejection::UnknownAction),
        };
        proof {
            assert(before.records[older as int] == self.records@[older as int]@);
            assert(before.records[newer as int] == self.records@[newer as int]@);
        }
        if self.records[older].state.is_terminal() || self.records[newer].state.is_terminal() {
            return Err(LedgerRejection::IllegalTransition);
        }
        let source: ControllerSource = self.records[older].source;
        let reason: ActionReason = self.records[older].reason;
        let mut replaced: ActionRecord = self.records[older].clone();
        replaced.state = ActionState::Superseded;
        replaced.superseded_by = Some(new_id);
        let mut replacing: ActionRecord = self.records[newer].clone();
        replacing.supersedes = Some(old_id);
        let ghost replaced_view = replaced@;
        let ghost replacing_view = replacing@;
        self.records.set(older, replaced);
        self.records.set(newer, replacing);
        proof {
            assert(self@.records =~= before.records.update(older as int, replaced_view).update(
                newer as int,
                replacing_view,
            ));
        }
        self.push_trace(
            DecisionTrace::new(observation, source, TraceStatus::Superseded, reason, None),
        );
        Ok(())
    }

    fn cooling(record: &ActionRecord, window: u64, windows: u64) -> (cooling: bool)
        ensures
            cooling == within(record@, window, windows),
    {
        let recorded: u64 = record.observation.window.as_u64();
        window >= recorded && window - recorded <= windows
    }

    fn push_trace(&mut self, trace: DecisionTrace)
        ensures
            final(self)@ == old(self)@.traced(trace@),
    {
        let cap: usize = self.config.max_traces;
        push_bounded(&mut self.traces, trace, cap);
    }
}

proof fn lemma_admitted_well_formed(
    ledger: LedgerView,
    action: ActionView,
    reason: ActionReason,
    source: ControllerSource,
    observation: ActionObservation,
)
    requires
        ledger.well_formed(),
    ensures
        ledger.admitted(action, reason, source, observation).0.well_formed(),
{
    lemma_first_where(ledger.records, |r: ActionRecordView| r.state.terminal());
}

/// Admission never evicts an action that is still active: whatever the outcome,
/// every record in a live state stays.
pub proof fn law_admission_keeps_active_records(
    ledger: LedgerView,
    action: ActionView,
    reason: ActionReason,
    source: ControllerSource,
    observation: ActionObservation,
    i: int,
)
    requires
        ledger.well_formed(),
        0 <= i < ledger.records.len(),
        !ledger.records[i].state.terminal(),
    ensures
        ledger.admitted(action, reason, source, observation).0.records.contains(ledger.records[i]),
{
    let wanted = |r: ActionRecordView| r.state.terminal();
    lemma_first_where(ledger.records, wanted);
    let after = ledger.admitted(action, reason, source, observation).0.records;
    let record = ledger.records[i];
    if ledger.refusal(action, observation.window) is None && ledger.records.len()
        >= ledger.config.max_history {
        let oldest = ledger.oldest_terminal()->0;
        assert(wanted(ledger.records[oldest]));
        if i < oldest {
            assert(after[i] == record);
        } else {
            assert(after[i - 1] == record);
        }
    } else {
        assert(after[i] == record);
    }
}

/// Identities are never reused: an admitted record has one that no earlier record has,
/// above all of them.
pub proof fn law_identities_are_fresh(
    ledger: LedgerView,
    action: ActionView,
    reason: ActionReason,
    source: ControllerSource,
    observation: ActionObservation,
)
    requires
        ledger.well_formed(),
    ensures
        ledger.admitted(action, reason, source, observation).1 matches Ok(record) ==> {
            &&& record.id.0 == ledger.next_id
            &&& forall|i: int|
                0 <= i < ledger.records.len() ==> (#[trigger] ledger.records[i]).id.0 < record.id.0
            &&& ledger.admitted(action, reason, source, observation).0.next_id > record.id.0
        },
{
}

/// A terminal record stays as it is: every transition of it is refused and changes
/// nothing.
pub proof fn law_terminal_records_are_final(
    ledger: LedgerView,
    id: ActionId,
    next: ActionState,
    observation: ActionObservation,
    outcome: Option<ActionOutcome>,
)
    requires
        ledger.find(id) matches Some(record) && record.state.terminal(),
    ensures
        ledger.transitioned(id, next, observation, outcome) == (
            ledger,
            Err::<ActionRecordView, _>(LedgerRejection::IllegalTransition),
        ),
{
}

/// Admission respects the rate ceiling: a window never gets more records than the
/// ceiling through it.
pub proof fn law_window_rate_is_bounded(
    ledger: LedgerView,
    action: ActionView,
    reason: ActionReason,
    source: ControllerSource,
    observation: ActionObservation,
)
    requires
        ledger.well_formed(),
    ensures
        ledger.admitted(action, reason, source, observation).1 is Ok ==> count_in_window(
            ledger.admitted(action, reason, source, observation).0.records,
            observation.window,
        ) <= ledger.config.max_actions_per_window,
{
    lemma_first_where(ledger.records, |r: ActionRecordView| r.state.terminal());
    if ledger.admitted(action, reason, source, observation).1 is Ok {
        let room = ledger.with_room().records;
        let record = ledger.fresh_record(action, reason, source, observation);
        assert(room.push(record).drop_last() =~= room);
        if ledger.records.len() >= ledger.config.max_history {
            lemma_count_after_remove(
                ledger.records,
                ledger.oldest_terminal()->0,
                observation.window,
            );
        }
    }
}

proof fn lemma_count_after_remove(
    records: Seq<ActionRecordView>,
    at: int,
    window: ObservationWindowId,
)
    requires
        0 <= at < records.len(),
    ensures
        count_in_window(records.remove(at), window) <= count_in_window(records, window),
    decreases records.len(),
{
    if at == records.len() - 1 {
        assert(records.remove(at) =~= records.drop_last());
    } else {
        let front = records.drop_last();
        lemma_count_after_remove(front, at, window);
        assert(records.remove(at).drop_last() =~= front.remove(at));
        assert(records.remove(at).last() == records.last());
    }
}

/// Right after an admission the same proposal is refused as a duplicate.
pub proof fn law_readmission_is_duplicate(
    ledger: LedgerView,
    action: ActionView,
    reason: ActionReason,
    source: ControllerSource,
    observation: ActionObservation,
)
    requires
        ledger.well_formed(),
        ledger.admitted(action, reason, source, observation).1 is Ok,
    ensures
        ledger.admitted(action, reason, source, observation).0.admitted(
            action,
            reason,
            source,
            observation,
        ).1 == Err::<ActionRecordView, _>(LedgerRejection::Duplicate),
{
    let after = ledger.admitted(action, reason, source, observation).0;
    let last = after.records.len() - 1;
    assert(after.records[last].action.key() == action.key());
    assert(!after.records[last].state.terminal());
}

/// A proposal is refused exactly where something stands against it, and the refusal says
/// what: the same action is under way or was recorded at most the duplicate cooldown
/// ago; or one that conflicts with it is, by the conflict cooldown.
pub proof fn law_cooling_actions_are_refused(
    ledger: LedgerView,
    action: ActionView,
    reason: ActionReason,
    source: ControllerSource,
    observation: ActionObservation,
    i: int,
)
    requires
        0 <= i < ledger.records.len(),
    ensures
        ({
            let record = ledger.records[i];
            let result = ledger.admitted(action, reason, source, observation).1;
            let since = observation.window.0 - record.observation.window.0;
            let running = record.state is Proposed || record.state is Accepted || record.state
                is Executing;
            &&& record.action.key() == action.key() && (running || 0 <= since
                <= ledger.config.duplicate_cooldown_windows) ==> result
                == Err::<ActionRecordView, _>(LedgerRejection::Duplicate)
            &&& record.action.conflict_key() == action.conflict_key() && (running || 0 <= since
                <= ledger.config.conflict_cooldown_windows) ==> result
                == Err::<ActionRecordView, _>(LedgerRejection::Conflict) || result
                == Err::<ActionRecordView, _>(LedgerRejection::Duplicate)
        }),
{
    assert(ledger.records[i].action.key() == ledger.records[i].action.key());
}

/// A proposal that nothing stands against is admitted as it was made: no record of its
/// conflict key is running or cooling down, the window has room, and so has the ledger.
pub proof fn law_unopposed_actions_are_admitted(
    ledger: LedgerView,
    action: ActionView,
    reason: ActionReason,
    source: ControllerSource,
    observation: ActionObservation,
)
    requires
        forall|i: int|
            0 <= i < ledger.records.len() && (#[trigger] ledger.records[i]).action.conflict_key()
                == action.conflict_key() ==> ledger.records[i].state.terminal() && (
            observation.window.0 < ledger.records[i].observation.window.0 || observation.window.0
                - ledger.records[i].observation.window.0
                > ledger.config.conflict_cooldown_windows && observation.window.0
                - ledger.records[i].observation.window.0
                > ledger.config.duplicate_cooldown_windows),
        count_in_window(ledger.records, observation.window)
            < ledger.config.max_actions_per_window,
        ledger.records.len() < ledger.config.max_history || exists|i: int|
            0 <= i < ledger.records.len() && (#[trigger] ledger.records[i]).state.terminal(),
        ledger.next_id < u64::MAX,
    ensures
        ledger.admitted(action, reason, source, observation).1 matches Ok(record) && {
            &&& record.id.0 == ledger.next_id
            &&& record.action == action
            &&& record.reason == reason
            &&& record.source == source
            &&& record.observation == observation
            &&& record.state is Proposed
            &&& record.expected_benefit == action.benefit()
            &&& record.actual_outcome is None
            &&& record.superseded_by is None
            &&& record.supersedes is None
            &&& ledger.admitted(action, reason, source, observation).0.records.last() == record
            &&& ledger.admitted(action, reason, source, observation).0.next_id == ledger.next_id
                + 1
        },
{
    lemma_first_where(ledger.records, |r: ActionRecordView| r.state.terminal());
    assert(!ledger.repeats(action.key(), observation.window.0)) by {
        assert forall|i: int|
            0 <= i < ledger.records.len() && (#[trigger] ledger.records[i]).action.key()
                == action.key() implies ledger.records[i].action.conflict_key()
            == action.conflict_key() by {}
    }
    if ledger.oldest_terminal() is None && ledger.records.len() >= ledger.config.max_history {
        let i = choose|i: int|
            0 <= i < ledger.records.len() && (#[trigger] ledger.records[i]).state.terminal();
        assert(!(|r: ActionRecordView| r.state.terminal())(ledger.records[i]));
    }
}

/// A ledger with room forgets nothing, and a full one forgets exactly its oldest record
/// that is over: the others stay, in their order.
pub proof fn law_the_oldest_finished_record_leaves(
    ledger: LedgerView,
    action: ActionView,
    reason: ActionReason,
    source: ControllerSource,
    observation: ActionObservation,
)
    requires
        ledger.admitted(action, reason, source, observation).1 is Ok,
    ensures
        ({
            let after = ledger.admitted(action, reason, source, observation).0.records;
            &&& ledger.records.len() < ledger.config.max_history ==> after.drop_last()
                == ledger.records
            &&& ledger.records.len() >= ledger.config.max_history ==> exists|k: int|
                0 <= k < ledger.records.len() && (#[trigger] ledger.records[k]).state.terminal()
                    && after.drop_last() == ledger.records.remove(k) && forall|i: int|
                    0 <= i < k ==> !(#[trigger] ledger.records[i]).state.terminal()
        }),
{
    let wanted = |r: ActionRecordView| r.state.terminal();
    lemma_first_where(ledger.records, wanted);
    let after = ledger.admitted(action, reason, source, observation).0.records;
    assert(after.drop_last() =~= ledger.with_room().records);
    if ledger.records.len() >= ledger.config.max_history {
        let k = ledger.oldest_terminal()->0;
        assert(wanted(ledger.records[k]));
        assert forall|i: int| 0 <= i < k implies !(
        #[trigger] ledger.records[i]).state.terminal() by {
            assert(!wanted(ledger.records[i]));
        }
    }
}

/// A transition moves one record and leaves every other alone; the record keeps all but
/// its state and, where there is one, its outcome.
pub proof fn law_transitions_move_one_record(
    ledger: LedgerView,
    id: ActionId,
    next: ActionState,
    observation: ActionObservation,
    outcome: Option<ActionOutcome>,
    i: int,
)
    requires
        ledger.well_formed(),
        0 <= i < ledger.records.len(),
        ledger.transitioned(id, next, observation, outcome).1 is Ok,
    ensures
        ({
            let before = ledger.records[i];
            let after = ledger.transitioned(id, next, observation, outcome).0.records[i];
            &&& ledger.transitioned(id, next, observation, outcome).0.records.len()
                == ledger.records.len()
            &&& ledger.transitioned(id, next, observation, outcome).0.next_id == ledger.next_id
            &&& before.id != id ==> after == before
            &&& before.id == id ==> {
                &&& before.state.allows(next)
                &&& after.id == id
                &&& after.action == before.action
                &&& after.reason == before.reason
                &&& after.source == before.source
                &&& after.observation == before.observation
                &&& after.expected_benefit == before.expected_benefit
                &&& after.superseded_by == before.superseded_by
                &&& after.supersedes == before.supersedes
                &&& after.state == next
                &&& outcome is Some ==> after.actual_outcome == outcome
                &&& outcome is None ==> after.actual_outcome == before.actual_outcome
                &&& ledger.transitioned(id, next, observation, outcome).1
                    == Ok::<_, LedgerRejection>(after)
            }
        }),
{
    let wanted = |r: ActionRecordView| r.id == id;
    lemma_first_where(ledger.records, wanted);
    let at = ledger.place(id)->0;
    assert(wanted(ledger.records[at]));
    if ledger.records[i].id == id && i != at {
        if i < at {
            assert(ledger.records[i].id.0 < ledger.records[at].id.0);
        } else {
            assert(ledger.records[at].id.0 < ledger.records[i].id.0);
        }
    }
}

/// Only an action under execution takes an outcome: a success completes it and anything
/// else fails it, and the outcome is kept with it.
pub proof fn law_outcomes_end_executions(
    ledger: LedgerView,
    id: ActionId,
    observation: ActionObservation,
    outcome: ActionOutcome,
)
    ensures
        ({
            let result = ledger.settled(id, observation, outcome).1;
            &&& ledger.find(id) is None ==> result == Err::<ActionRecordView, _>(
                LedgerRejection::UnknownAction,
            )
            &&& ledger.find(id) matches Some(record) ==> {
                &&& !(record.state is Executing) ==> result == Err::<ActionRecordView, _>(
                    LedgerRejection::IllegalTransition,
                ) && ledger.settled(id, observation, outcome).0 == ledger
                &&& record.state is Executing ==> (result matches Ok(after)
                    && after.actual_outcome == Some(outcome) && (outcome.result.succeeded()
                    ==> after.state is Completed) && (!outcome.result.succeeded() ==> after.state
                    is Failed))
            }
        }),
{
}

/// Superseding links two live records to each other, ends the older one and leaves every
/// other record alone.
pub proof fn law_supersession_links_both_records(
    ledger: LedgerView,
    old_id: ActionId,
    new_id: ActionId,
    observation: ActionObservation,
    i: int,
)
    requires
        ledger.well_formed(),
        0 <= i < ledger.records.len(),
        ledger.superseded(old_id, new_id, observation).1 is Ok,
    ensures
        ({
            let before = ledger.records[i];
            let after = ledger.superseded(old_id, new_id, observation).0.records[i];
            &&& old_id != new_id
            &&& after.id == before.id
            &&& after.action == before.action
            &&& before.id == old_id ==> !before.state.terminal() && after.state is Superseded
                && after.superseded_by == Some(new_id) && after.supersedes == before.supersedes
            &&& before.id == new_id ==> !before.state.terminal() && after.state == before.state
                && after.supersedes == Some(old_id) && after.superseded_by == before.superseded_by
            &&& before.id != old_id && before.id != new_id ==> after == before
        }),
{
    let older = |r: ActionRecordView| r.id == old_id;
    let newer = |r: ActionRecordView| r.id == new_id;
    lemma_first_where(ledger.records, older);
    lemma_first_where(ledger.records, newer);
    let a = ledger.place(old_id)->0;
    let b = ledger.place(new_id)->0;
    assert(older(ledger.records[a]));
    assert(newer(ledger.records[b]));
    if i != a && ledger.records[i].id == old_id {
        if i < a {
            assert(ledger.records[i].id.0 < ledger.records[a].id.0);
        } else {
            assert(ledger.records[a].id.0 < ledger.records[i].id.0);
        }
    }
    if i != b && ledger.records[i].id == new_id {
        if i < b {
            assert(ledger.records[i].id.0 < ledger.records[b].id.0);
        } else {
            assert(ledger.records[b].id.0 < ledger.records[i].id.0);
        }
    }
}

/// Every decision on a proposal leaves a trace, and the trace is the newest: it names the
/// proposal and, where it was refused, why.
pub proof fn law_admissions_are_traced(
    ledger: LedgerView,
    action: ActionView,
    reason: ActionReason,
    source: ControllerSource,
    observation: ActionObservation,
)
    requires
        ledger.well_formed(),
    ensures
        ({
            let after = ledger.admitted(action, reason, source, observation).0;
            let trace = after.traces.last();
            &&& 0 < after.traces.len() <= ledger.config.max_traces
            &&& trace.action_key == Some(action.key())
            &&& trace.reason == reason
            &&& trace.source == source
            &&& trace.window == observation.window
            &&& trace.sequence == observation.sequence
            &&& match ledger.admitted(action, reason, source, observation).1 {
                Ok(_) => trace.status is Accepted && trace.ledger_rejection is None,
                Err(rejection) => trace.status is Suppressed && trace.ledger_rejection == Some(
                    rejection,
                ),
            }
        }),
{
}

} // verus!
