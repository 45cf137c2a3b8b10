//! Deterministic virtual-time simulation of the controller.

use crate::bounded::newest;
use crate::control::adaptive::action::{
    Action, ActionId, ActionObservation, ActionState, ActionView,
};
use crate::control::adaptive::controller::{
    law_shadow_decisions_admit_nothing, lemma_decision_keeps_config, lemma_decision_size,
    lemma_decision_traced, lemma_newest_push, Actuator, ActuationError,
    ActuatorReceipt, AdaptiveController, AdaptiveDecision, AdaptiveDecisionView, AdaptiveMode,
    ControllerView,
};
use crate::control::adaptive::ledger::{
    push_bounded, record_views, trace_views, ActionRecord, ActionRecordView, DecisionTrace,
    DecisionTraceView,
};
use crate::control::adaptive::observation::{
    ControllerFrame, ControllerFrameView, ObservationSnapshot, ObservationSnapshotView,
};
use crate::control::adaptive::policy::capped_sum;
use crate::control::adaptive::safety::{SafetyContext, SafetyContextView};
use crate::ids::{ObservationSequence, ObservationWindowId};
use crate::time::{Duration, Ticks};
use vstd::prelude::*;

verus! {

/// One deterministic simulation input.
#[derive(Debug, Clone, PartialEq, Eq)]
pub struct SimulationInput {
    /// Typed observation snapshot.
    pub observation: ObservationSnapshot,
    /// Safety context paired with the snapshot.
    pub context: SafetyContext,
}

/// What a [`SimulationInput`] says.
#[verifier::ext_equal]
pub struct SimulationInputView {
    pub observation: ObservationSnapshotView,
    pub context: SafetyContextView,
}

impl View for SimulationInput {
    type V = SimulationInputView;

    open spec fn view(&self) -> SimulationInputView {
        SimulationInputView { observation: self.observation@, context: self.context@ }
    }
}

impl SimulationInput {
    /// Creates one simulation input.
    pub fn new(observation: ObservationSnapshot, context: SafetyContext) -> (input: Self)
        ensures
            input@ == (SimulationInputView { observation: observation@, context: context@ }),
    {
        SimulationInput { observation, context }
    }
}

/// A named, bounded simulation workload.
#[derive(Debug, Clone, PartialEq, Eq)]
pub struct SimulationWorkload {
    /// Seed used for deterministic scenario identity.
    pub seed: u64,
    /// Ordered scenario inputs.
    pub inputs: Vec<SimulationInput>,
}

/// The views of a list of inputs.
pub open spec fn input_views(inputs: Seq<SimulationInput>) -> Seq<SimulationInputView> {
    Seq::new(inputs.len(), |i: int| inputs[i]@)
}

impl SimulationWorkload {
    /// Creates a workload with a fixed seed and ordered inputs.
    pub fn new(seed: u64, inputs: Vec<SimulationInput>) -> (workload: Self)
        ensures
            workload.seed == seed,
            workload.inputs == inputs,
    {
        SimulationWorkload { seed, inputs }
    }

    /// Number of scenario steps.
    pub fn len(&self) -> (steps: usize)
        ensures
            steps == self.inputs@.len(),
    {
        self.inputs.len()
    }

    /// Whether the workload has no steps.
    pub fn is_empty(&self) -> (empty: bool)
        ensures
            empty == (self.inputs@.len() == 0),
    {
        self.inputs.len() == 0
    }
}

/// Public report from a deterministic controller simulation.
#[derive(Debug, Clone, PartialEq, Eq)]
pub struct SimulationReport {
    /// Workload seed.
    pub seed: u64,
    /// Number of steps processed.
    pub steps: usize,
    /// Number of actions proposed.
    pub proposed: u64,
    /// Number of actions admitted.
    pub admitted: u64,
    /// Number of actions executed.
    pub executed: u64,
    /// Number of successful outcomes.
    pub completed: u64,
    /// Number of failed outcomes.
    pub failed: u64,
    /// Number of shadow decisions generated.
    pub shadow: u64,
    /// Bounded final decision traces.
    pub traces: Vec<DecisionTrace>,
}

/// What a [`SimulationReport`] says.
#[verifier::ext_equal]
pub struct SimulationReportView {
    pub seed: u64,
    pub steps: nat,
    pub proposed: u64,
    pub admitted: u64,
    pub executed: u64,
    pub completed: u64,
    pub failed: u64,
    pub shadow: u64,
    pub traces: Seq<DecisionTraceView>,
}

impl View for SimulationReport {
    type V = SimulationReportView;

    open spec fn view(&self) -> SimulationReportView {
        SimulationReportView {
            seed: self.seed,
            steps: self.steps as nat,
            proposed: self.proposed,
            admitted: self.admitted,
            executed: self.executed,
            completed: self.completed,
            failed: self.failed,
            shadow: self.shadow,
            traces: trace_views(self.traces@),
        }
    }
}

/// Where virtual time stands.
#[derive(Debug, Clone, Copy, PartialEq, Eq, Structural)]
pub struct VirtualClock {
    /// Next observation sequence.
    pub sequence: ObservationSequence,
    /// Next observation window.
    pub window: ObservationWindowId,
    /// Current instant.
    pub ticks: Ticks,
}

impl VirtualClock {
    /// The clock one window later; counters that are exhausted stay.
    pub open spec fn later(self, period: Duration) -> Self {
        VirtualClock {
            sequence: if self.sequence.0 < u64::MAX {
                ObservationSequence((self.sequence.0 + 1) as u64)
            } else {
                self.sequence
            },
            window: if self.window.0 < u64::MAX {
                ObservationWindowId((self.window.0 + 1) as u64)
            } else {
                self.window
            },
            ticks: self.ticks.later(period),
        }
    }

    /// The frame of an input at this time.
    pub open spec fn frame(self, input: SimulationInputView) -> ControllerFrameView {
        ControllerFrameView {
            observation: input.observation,
            scope: input.context.scope,
            sequence: self.sequence,
            window: self.window,
            version: 1,
            at: self.ticks,
        }
    }
}

/// One request to an actuator, which took it from `before` to `after`, and its reply.
#[verifier::ext_equal]
pub struct Asking<A> {
    pub before: A,
    pub after: A,
    pub id: ActionId,
    pub action: ActionView,
    pub reply: Result<ActuatorReceipt, ActuationError>,
}

/// Whether the requests, one after the other, took an actuator from `before` to `after`.
pub open spec fn chained<A>(before: A, asked: Seq<Asking<A>>, after: A) -> bool
    decreases asked.len(),
{
    if asked.len() == 0 {
        before == after
    } else {
        chained(before, asked.drop_last(), asked.last().before) && asked.last().after == after
    }
}

/// A simulation in progress, with what an actuator was asked so far.
#[verifier::ext_equal]
pub struct Progress<A> {
    pub controller: ControllerView,
    pub report: SimulationReportView,
    pub clock: VirtualClock,
    pub asked: Seq<Asking<A>>,
}

/// Whether one execution of `id` leads from `before` to `after`: where it can begin, the
/// actuator is asked once for the action of the record, and its reply settles the rest.
#[verifier::opaque]
pub open spec fn executed_once<A>(
    before: Progress<A>,
    id: ActionId,
    observation: ActionObservation,
    after: Progress<A>,
) -> bool {
    let (begun, started) = before.controller.begun(id, observation);
    match started {
        Err(_) => after == (Progress { controller: begun, ..before }),
        Ok(record) => exists|asking: Asking<A>|
            {
                &&& asking.id == id
                &&& asking.action == record.action
                &&& after == told(
                    Progress { asked: before.asked.push(asking), ..before },
                    id,
                    #[trigger] begun.finished(record, observation, asking.reply),
                )
            },
    }
}

/// The progress after an execution that ended with `end`: only a success counts as an
/// execution, and the ledger says how it ended.
pub open spec fn told<A>(
    before: Progress<A>,
    id: ActionId,
    end: (ControllerView, Result<ActionRecordView, ActuationError>),
) -> Progress<A> {
    let (controller, result) = end;
    let report = before.report;
    if result is Err {
        Progress { controller, ..before }
    } else {
        let state = match controller.ledger.find(id) {
            Some(record) => Some(record.state),
            None => None,
        };
        Progress {
            controller,
            report: SimulationReportView {
                executed: capped_sum(report.executed, 1),
                completed: if state == Some(ActionState::Completed) {
                    capped_sum(report.completed, 1)
                } else {
                    report.completed
                },
                failed: if state == Some(ActionState::Failed) {
                    capped_sum(report.failed, 1)
                } else {
                    report.failed
                },
                ..report
            },
            ..before
        }
    }
}

/// Whether `path` goes from execution to execution of `records`.
pub open spec fn execution_path<A>(
    path: Seq<Progress<A>>,
    records: Seq<ActionRecordView>,
    observation: ActionObservation,
) -> bool {
    &&& path.len() == records.len() + 1
    &&& forall|i: int|
        0 <= i < records.len() ==> executed_once(
            path[i],
            (#[trigger] records[i]).id,
            observation,
            path[i + 1],
        )
}

/// Whether executing `records` in turn leads from `before` to `after`.
pub open spec fn executed_all<A>(
    before: Progress<A>,
    records: Seq<ActionRecordView>,
    observation: ActionObservation,
    after: Progress<A>,
) -> bool {
    exists|path: Seq<Progress<A>>| #[trigger]
        execution_path(path, records, observation) && path[0] == before && path.last() == after
}

/// The report after a decision was counted.
pub open spec fn counted_decision(
    report: SimulationReportView,
    decision: AdaptiveDecisionView,
) -> SimulationReportView {
    SimulationReportView {
        steps: report.steps + 1,
        proposed: capped_sum(
            report.proposed,
            (decision.active_actions.len() + decision.shadow_actions.len()) as u64,
        ),
        admitted: capped_sum(report.admitted, decision.active_actions.len() as u64),
        shadow: capped_sum(report.shadow, decision.shadow_actions.len() as u64),
        ..report
    }
}

/// Whether one input leads from `before` to `after`: decide, execute what was admitted,
/// keep the traces, advance the clock.
#[verifier::opaque]
pub open spec fn stepped<A>(
    before: Progress<A>,
    input: SimulationInputView,
    period: Duration,
    after: Progress<A>,
) -> bool {
    let frame = before.clock.frame(input);
    let (controller, decision) = before.controller.decided(frame, input.context);
    let counted = Progress {
        controller,
        report: counted_decision(before.report, decision),
        ..before
    };
    exists|mid: Progress<A>| #[trigger]
        executed_all(counted, decision.active_actions, frame.identity(), mid) && after == (
        Progress {
            controller: mid.controller,
            report: SimulationReportView {
                traces: newest(
                    mid.report.traces + decision.traces,
                    mid.controller.config.max_traces as nat,
                ),
                ..mid.report
            },
            clock: mid.clock.later(period),
            asked: mid.asked,
        })
}

/// Whether `path` goes from step to step of `inputs`.
pub open spec fn simulation_path<A>(
    path: Seq<Progress<A>>,
    inputs: Seq<SimulationInputView>,
    period: Duration,
) -> bool {
    &&& path.len() == inputs.len() + 1
    &&& forall|i: int|
        0 <= i < inputs.len() ==> stepped(path[i], #[trigger] inputs[i], period, path[i + 1])
}

/// Whether `inputs` in turn lead from `before` to `after`.
pub open spec fn simulated<A>(
    before: Progress<A>,
    inputs: Seq<SimulationInputView>,
    period: Duration,
    after: Progress<A>,
) -> bool {
    exists|path: Seq<Progress<A>>| #[trigger]
        simulation_path(path, inputs, period) && path[0] == before && path.last() == after
}

/// What holds of every report: its counters agree with each other and its traces are
/// bounded.
pub open spec fn coherent<A>(progress: Progress<A>) -> bool {
    let report = progress.report;
    &&& report.proposed == capped_sum(report.admitted, report.shadow)
    &&& report.executed <= report.admitted
    &&& report.completed <= report.executed
    &&& report.failed <= report.executed
    &&& report.traces.len() <= progress.controller.config.max_traces
}

/// Deterministic virtual-time simulation runner.
#[derive(Debug, Clone)]
pub struct ControllerSimulation {
    pub(crate) seed: u64,
    pub(crate) clock: VirtualClock,
    pub(crate) window_period: Duration,
}

impl ControllerSimulation {
    /// The fixed seed.
    pub open(crate) spec fn seed_of(self) -> u64 {
        self.seed
    }

    /// Where virtual time stands.
    pub open(crate) spec fn clock_of(self) -> VirtualClock {
        self.clock
    }

    /// The length of a window.
    pub open(crate) spec fn period_of(self) -> Duration {
        self.window_period
    }

    /// Creates a runner with explicit virtual identity and no wall clock.
    pub fn new(
        seed: u64,
        sequence: ObservationSequence,
        window: ObservationWindowId,
        ticks: Ticks,
        window_period: Duration,
    ) -> (simulation: Self)
        ensures
            simulation.seed_of() == seed,
            simulation.clock_of() == (VirtualClock { sequence, window, ticks }),
            simulation.period_of() == window_period,
    {
        ControllerSimulation {
            seed,
            clock: VirtualClock { sequence, window, ticks },
            window_period,
        }
    }

    /// Returns the fixed workload seed.
    pub fn seed(&self) -> (seed: u64)
        ensures
            seed == self.seed_of(),
    {
        self.seed
    }

    fn tick(&mut self)
        ensures
            final(self).clock_of() == old(self).clock_of().later(old(self).period_of()),
            final(self).seed_of() == old(self).seed_of(),
            final(self).period_of() == old(self).period_of(),
    {
        let sequence: ObservationSequence = match self.clock.sequence.next() {
            Some(next) => next,
            None => self.clock.sequence,
        };
        let window: ObservationWindowId = match self.clock.window.next() {
            Some(next) => next,
            None => self.clock.window,
        };
        let ticks: Ticks = self.clock.ticks.advance_by(self.window_period);
        self.clock = VirtualClock { sequence, window, ticks };
    }

    fn execute_admitted<A: Actuator>(
        controller: &mut AdaptiveController,
        actuator: &mut A,
        record: &ActionRecord,
        observation: ActionObservation,
        report: &mut SimulationReport,
        clock: VirtualClock,
        Ghost(first): Ghost<A>,
        Ghost(asked): Ghost<Seq<Asking<A>>>,
    ) -> (log: Ghost<Seq<Asking<A>>>)
        requires
            old(controller)@.well_formed(),
            chained(first, asked, *old(actuator)),
            forall|i: int|
                #![trigger asked[i]]
                0 <= i < asked.len() ==> exists|genuine: &mut A, given: Action|
                    #![trigger call_ensures(
                        A::execute,
                        (genuine, asked[i].id, &given),
                        asked[i].reply,
                    )]
                    {
                        &&& *genuine == asked[i].before
                        &&& *final(genuine) == asked[i].after
                        &&& given@ == asked[i].action
                        &&& call_ensures(
                            A::execute,
                            (genuine, asked[i].id, &given),
                            asked[i].reply,
                        )
                    },
        ensures
            executed_once(
                Progress { controller: old(controller)@, report: old(report)@, clock, asked },
                record@.id,
                observation,
                Progress {
                    controller: final(controller)@,
                    report: final(report)@,
                    clock,
                    asked: log@,
                },
            ),
            final(controller)@.well_formed(),
            chained(first, log@, *final(actuator)),
            forall|i: int|
                #![trigger log@[i]]
                0 <= i < log@.len() ==> exists|genuine: &mut A, given: Action|
                    #![trigger call_ensures(
                        A::execute,
                        (genuine, log@[i].id, &given),
                        log@[i].reply,
                    )]
                    {
                        &&& *genuine == log@[i].before
                        &&& *final(genuine) == log@[i].after
                        &&& given@ == log@[i].action
                        &&& call_ensures(
                            A::execute,
                            (genuine, log@[i].id, &given),
                            log@[i].reply,
                        )
                    },
    {
        let ghost before = Progress { controller: controller@, report: report@, clock, asked };
        let ghost held = *actuator;
        let (result, reply) = controller.carry_out(actuator, record.id, observation);
        let executed: bool = result.is_ok();
        let ghost after = controller@;
        if executed {
            report.executed = report.executed.saturating_add(1);
            if let Some(updated) = controller.ledger().record(record.id) {
                if updated.state == ActionState::Completed {
                    report.completed = report.completed.saturating_add(1);
                } else if updated.state == ActionState::Failed {
                    report.failed = report.failed.saturating_add(1);
                }
            }
        }
        let ghost started = before.controller.begun(record@.id, observation).1;
        let ghost mut log = asked;
        proof {
            if started is Ok {
                log = asked.push(
                    Asking {
                        before: held,
                        after: *actuator,
                        id: record.id,
                        action: started->Ok_0.action,
                        reply: reply->0,
                    },
                );
            }
            reveal(executed_once);
            let begun = before.controller.begun(record@.id, observation).0;
            if started is Ok {
                assert(log.drop_last() =~= asked);
                let end = Progress { controller: after, report: report@, clock, asked: log };
                assert(end =~= told(
                    Progress { asked: log, ..before },
                    record@.id,
                    begun.finished(started->Ok_0, observation, log.last().reply),
                ));
            }
        }
        proof {
            assert forall|i: int|
                #![trigger log[i]]
                0 <= i < log.len() implies exists|genuine: &mut A, given: Action|
                #![trigger call_ensures(A::execute, (genuine, log[i].id, &given), log[i].reply)]
                {
                    &&& *genuine == log[i].before
                    &&& *final(genuine) == log[i].after
                    &&& given@ == log[i].action
                    &&& call_ensures(A::execute, (genuine, log[i].id, &given), log[i].reply)
                } by {
                if i < asked.len() {
                    assert(log[i] == asked[i]);
                } else {
                    let (genuine, given) = choose|genuine: &mut A, given: Action|
                        #![trigger call_ensures(A::execute, (genuine, record.id, &given), reply->0)]
                        {
                            &&& *genuine == held
                            &&& *final(genuine) == *actuator
                            &&& given@ == started->Ok_0.action
                            &&& call_ensures(A::execute, (genuine, record.id, &given), reply->0)
                        };
                    assert(call_ensures(A::execute, (genuine, record.id, &given), reply->0));
                    assert(call_ensures(A::execute, (genuine, log[i].id, &given), log[i].reply));
                }
            }
        }
        Ghost(log)
    }

    /// Runs a workload and returns a deterministic report.
    ///
    /// The actuator is asked for every action that was admitted and could begin, and is free
    /// in its replies: the report and the controller are what the inputs, in turn, make of
    /// the start with what it replied.
    pub fn run<A: Actuator>(
        &mut self,
        controller: &mut AdaptiveController,
        workload: &SimulationWorkload,
        actuator: &mut A,
    ) -> (report: SimulationReport)
        requires
            old(controller)@.well_formed(),
        ensures
            exists|asked: Seq<Asking<A>>|
                #![trigger chained(*old(actuator), asked, *final(actuator))]
                {
                    &&& chained(*old(actuator), asked, *final(actuator))
                    &&& forall|i: int|
                        #![trigger asked[i]]
                        0 <= i < asked.len() ==> exists|genuine: &mut A, given: Action|
                            #![trigger call_ensures(
                                A::execute,
                                (genuine, asked[i].id, &given),
                                asked[i].reply,
                            )]
                            {
                                &&& *genuine == asked[i].before
                                &&& *final(genuine) == asked[i].after
                                &&& given@ == asked[i].action
                                &&& call_ensures(
                                    A::execute,
                                    (genuine, asked[i].id, &given),
                                    asked[i].reply,
                                )
                            }
                    &&& simulated(
                        Progress {
                            controller: old(controller)@,
                            report: SimulationReportView {
                                seed: if old(self).seed_of() <= workload.seed {
                                    old(self).seed_of()
                                } else {
                                    workload.seed
                                },
                                steps: 0,
                                proposed: 0,
                                admitted: 0,
                                executed: 0,
                                completed: 0,
                                failed: 0,
                                shadow: 0,
                                traces: Seq::empty(),
                            },
                            clock: old(self).clock_of(),
                            asked: Seq::empty(),
                        },
                        input_views(workload.inputs@),
                        old(self).period_of(),
                        Progress {
                            controller: final(controller)@,
                            report: report@,
                            clock: final(self).clock_of(),
                            asked,
                        },
                    )
                },
            report.steps == workload.inputs@.len(),
            final(controller)@.well_formed(),
            final(self).seed_of() == old(self).seed_of(),
            final(self).period_of() == old(self).period_of(),
    {
        let seed: u64 = if self.seed <= workload.seed {
            self.seed
        } else {
            workload.seed
        };
        let mut report: SimulationReport = SimulationReport {
            seed,
            steps: 0,
            proposed: 0,
            admitted: 0,
            executed: 0,
            completed: 0,
            failed: 0,
            shadow: 0,
            traces: Vec::new(),
        };
        let ghost first = *actuator;
        let ghost mut asked: Seq<Asking<A>> = Seq::empty();
        let ghost start = Progress {
            controller: controller@,
            report: report@,
            clock: self.clock_of(),
            asked,
        };
        let ghost views = input_views(workload.inputs@);
        let ghost period = self.window_period;
        let ghost mut path: Seq<Progress<A>> = seq![start];
        proof {
            assert(start.report.traces =~= Seq::empty());
        }
        let mut at: usize = 0;
        while at < workload.inputs.len()
            invariant
                at <= workload.inputs.len(),
                report.steps == at,
                views == input_views(workload.inputs@),
                period == self.period_of(),
                self.seed_of() == old(self).seed_of(),
                controller@.well_formed(),
                simulation_path(path, views.take(at as int), period),
                path[0] == start,
                path.last() == (Progress {
                    controller: controller@,
                    report: report@,
                    clock: self.clock_of(),
                    asked,
                }),
                chained(first, asked, *actuator),
                forall|i: int|
                    #![trigger asked[i]]
                    0 <= i < asked.len() ==> exists|genuine: &mut A, given: Action|
                        #![trigger call_ensures(
                            A::execute,
                            (genuine, asked[i].id, &given),
                            asked[i].reply,
                        )]
                        {
                            &&& *genuine == asked[i].before
                            &&& *final(genuine) == asked[i].after
                            &&& given@ == asked[i].action
                            &&& call_ensures(
                                A::execute,
                                (genuine, asked[i].id, &given),
                                asked[i].reply,
                            )
                        },
            decreases workload.inputs.len() - at,
        {
            let log: Ghost<Seq<Asking<A>>> = self.step(
                controller,
                &workload.inputs[at],
                actuator,
                &mut report,
                Ghost(first),
                Ghost(asked),
            );
            proof {
                asked = log@;
                let end = Progress {
                    controller: controller@,
                    report: report@,
                    clock: self.clock_of(),
                    asked,
                };
                let longer = path.push(end);
                assert forall|i: int| 0 <= i < at + 1 implies stepped(
                    longer[i],
                    #[trigger] views.take(at + 1)[i],
                    period,
                    longer[i + 1],
                ) by {
                    if i < at {
                        assert(views.take(at + 1)[i] == views.take(at as int)[i]);
                        assert(longer[i] == path[i] && longer[i + 1] == path[i + 1]);
                    }
                }
                path = longer;
            }
            at = at + 1;
        }
        proof {
            assert(views.take(at as int) =~= views);
        }
        report
    }

    /// Decides on one input at `clock` and counts the decision.
    fn decide_next(
        clock: VirtualClock,
        controller: &mut AdaptiveController,
        input: &SimulationInput,
        report: &mut SimulationReport,
    ) -> (next: (ActionObservation, AdaptiveDecision))
        requires
            old(controller)@.well_formed(),
            old(report).steps < usize::MAX,
        ensures
            next.0 == clock.frame(input@).identity(),
            (final(controller)@, next.1@) == old(controller)@.decided(
                clock.frame(input@),
                input@.context,
            ),
            final(report)@ == counted_decision(old(report)@, next.1@),
            final(report).steps == old(report).steps + 1,
            final(controller)@.well_formed(),
            next.1@.traces.len() > 0,
    {
        let ghost held = report@;
        let ghost before = controller@;
        let frame: ControllerFrame = ControllerFrame::new(
            input.observation.clone(),
            input.context.scope,
            clock.sequence,
            clock.window,
            1,
            clock.ticks,
        );
        let observation: ActionObservation = frame.action_observation();
        let decision: AdaptiveDecision = controller.decide(&frame, &input.context);
        let active: u64 = decision.active_actions.len() as u64;
        let shadow: u64 = decision.shadow_actions.len() as u64;
        proof {
            lemma_decision_size(before, frame@, input@.context);
            lemma_decision_traced(before, frame@, input@.context);
            assert(frame@ == clock.frame(input@));
        }
        report.steps = report.steps + 1;
        report.proposed = report.proposed.saturating_add(active.saturating_add(shadow));
        report.admitted = report.admitted.saturating_add(active);
        report.shadow = report.shadow.saturating_add(shadow);
        proof {
            assert(report@ =~= counted_decision(held, decision@));
        }
        (observation, decision)
    }

    fn step<A: Actuator>(
        &mut self,
        controller: &mut AdaptiveController,
        input: &SimulationInput,
        actuator: &mut A,
        report: &mut SimulationReport,
        Ghost(first): Ghost<A>,
        Ghost(asked): Ghost<Seq<Asking<A>>>,
    ) -> (log: Ghost<Seq<Asking<A>>>)
        requires
            old(controller)@.well_formed(),
            old(report).steps < usize::MAX,
            chained(first, asked, *old(actuator)),
            forall|i: int|
                #![trigger asked[i]]
                0 <= i < asked.len() ==> exists|genuine: &mut A, given: Action|
                    #![trigger call_ensures(
                        A::execute,
                        (genuine, asked[i].id, &given),
                        asked[i].reply,
                    )]
                    {
                        &&& *genuine == asked[i].before
                        &&& *final(genuine) == asked[i].after
                        &&& given@ == asked[i].action
                        &&& call_ensures(
                            A::execute,
                            (genuine, asked[i].id, &given),
                            asked[i].reply,
                        )
                    },
        ensures
            stepped(
                Progress {
                    controller: old(controller)@,
                    report: old(report)@,
                    clock: old(self).clock_of(),
                    asked,
                },
                input@,
                old(self).period_of(),
                Progress {
                    controller: final(controller)@,
                    report: final(report)@,
                    clock: final(self).clock_of(),
                    asked: log@,
                },
            ),
            chained(first, log@, *final(actuator)),
            forall|i: int|
                #![trigger log@[i]]
                0 <= i < log@.len() ==> exists|genuine: &mut A, given: Action|
                    #![trigger call_ensures(
                        A::execute,
                        (genuine, log@[i].id, &given),
                        log@[i].reply,
                    )]
                    {
                        &&& *genuine == log@[i].before
                        &&& *final(genuine) == log@[i].after
                        &&& given@ == log@[i].action
                        &&& call_ensures(
                            A::execute,
                            (genuine, log@[i].id, &given),
                            log@[i].reply,
                        )
                    },
            final(report).steps == old(report).steps + 1,
            final(controller)@.well_formed(),
            final(self).seed_of() == old(self).seed_of(),
            final(self).period_of() == old(self).period_of(),
    {
        let clock: VirtualClock = self.clock;
        let (observation, decision) = Self::decide_next(clock, controller, input, report);
        let ghost decided = decision@;
        let ghost counted = Progress {
            controller: controller@,
            report: report@,
            clock: self.clock_of(),
            asked,
        };
        let log: Ghost<Seq<Asking<A>>> = Self::execute_all(
            controller,
            actuator,
            &decision.active_actions,
            observation,
            report,
            clock,
            Ghost(first),
            Ghost(asked),
        );
        let ghost mid = Progress {
            controller: controller@,
            report: report@,
            clock: self.clock_of(),
            asked: log@,
        };
        let cap: usize = controller.config.max_traces;
        Self::keep_traces(report, &decision.traces, cap);
        self.tick();
        proof {
            reveal(stepped);
            assert(executed_all(counted, decided.active_actions, observation, mid));
        }
        log
    }

    fn execute_all<A: Actuator>(
        controller: &mut AdaptiveController,
        actuator: &mut A,
        records: &Vec<ActionRecord>,
        observation: ActionObservation,
        report: &mut SimulationReport,
        clock: VirtualClock,
        Ghost(first): Ghost<A>,
        Ghost(asked): Ghost<Seq<Asking<A>>>,
    ) -> (log: Ghost<Seq<Asking<A>>>)
        requires
            old(controller)@.well_formed(),
            chained(first, asked, *old(actuator)),
            forall|i: int|
                #![trigger asked[i]]
                0 <= i < asked.len() ==> exists|genuine: &mut A, given: Action|
                    #![trigger call_ensures(
                        A::execute,
                        (genuine, asked[i].id, &given),
                        asked[i].reply,
                    )]
                    {
                        &&& *genuine == asked[i].before
                        &&& *final(genuine) == asked[i].after
                        &&& given@ == asked[i].action
                        &&& call_ensures(
                            A::execute,
                            (genuine, asked[i].id, &given),
                            asked[i].reply,
                        )
                    },
        ensures
            executed_all(
                Progress { controller: old(controller)@, report: old(report)@, clock, asked },
                record_views(records@),
                observation,
                Progress {
                    controller: final(controller)@,
                    report: final(report)@,
                    clock,
                    asked: log@,
                },
            ),
            chained(first, log@, *final(actuator)),
            forall|i: int|
                #![trigger log@[i]]
                0 <= i < log@.len() ==> exists|genuine: &mut A, given: Action|
                    #![trigger call_ensures(
                        A::execute,
                        (genuine, log@[i].id, &given),
                        log@[i].reply,
                    )]
                    {
                        &&& *genuine == log@[i].before
                        &&& *final(genuine) == log@[i].after
                        &&& given@ == log@[i].action
                        &&& call_ensures(
                            A::execute,
                            (genuine, log@[i].id, &given),
                            log@[i].reply,
                        )
                    },
            final(controller)@.well_formed(),
            final(report).steps == old(report).steps,
            final(report)@.traces == old(report)@.traces,
            final(controller)@.config == old(controller)@.config,
    {
        let ghost views = record_views(records@);
        let ghost start = Progress { controller: controller@, report: report@, clock, asked };
        let ghost mut so_far: Seq<Asking<A>> = asked;
        let ghost mut path: Seq<Progress<A>> = seq![start];
        let mut at: usize = 0;
        while at < records.len()
            invariant
                at <= records.len(),
                views == record_views(records@),
                controller@.well_formed(),
                execution_path(path, views.take(at as int), observation),
                path[0] == start,
                path.last() == (Progress {
                    controller: controller@,
                    report: report@,
                    clock,
                    asked: so_far,
                }),
                chained(first, so_far, *actuator),
                forall|i: int|
                    #![trigger so_far[i]]
                    0 <= i < so_far.len() ==> exists|genuine: &mut A, given: Action|
                        #![trigger call_ensures(
                            A::execute,
                            (genuine, so_far[i].id, &given),
                            so_far[i].reply,
                        )]
                        {
                            &&& *genuine == so_far[i].before
                            &&& *final(genuine) == so_far[i].after
                            &&& given@ == so_far[i].action
                            &&& call_ensures(
                                A::execute,
                                (genuine, so_far[i].id, &given),
                                so_far[i].reply,
                            )
                        },
                report@.steps == start.report.steps,
                report@.traces == start.report.traces,
                controller@.config == start.controller.config,
            decreases records.len() - at,
        {
            let ghost mid = path.last();
            let log: Ghost<Seq<Asking<A>>> = Self::execute_admitted(
                controller,
                actuator,
                &records[at],
                observation,
                report,
                clock,
                Ghost(first),
                Ghost(so_far),
            );
            proof {
                so_far = log@;
                let end = Progress {
                    controller: controller@,
                    report: report@,
                    clock,
                    asked: so_far,
                };
                lemma_execution_frame(mid, records@[at as int]@.id, observation, end);
                let longer = path.push(end);
                assert forall|i: int| 0 <= i < at + 1 implies executed_once(
                    longer[i],
                    (#[trigger] views.take(at + 1)[i]).id,
                    observation,
                    longer[i + 1],
                ) by {
                    if i < at {
                        assert(views.take(at + 1)[i] == views.take(at as int)[i]);
                        assert(longer[i] == path[i] && longer[i + 1] == path[i + 1]);
                    }
                }
                path = longer;
            }
            at = at + 1;
        }
        proof {
            assert(views.take(at as int) =~= views);
        }
        Ghost(so_far)
    }

    fn keep_traces(report: &mut SimulationReport, traces: &Vec<DecisionTrace>, cap: usize)
        requires
            cap >= 1,
        ensures
            trace_views(traces@).len() > 0 ==> final(report)@ == (SimulationReportView {
                traces: newest(old(report)@.traces + trace_views(traces@), cap as nat),
                ..old(report)@
            }),
    {
        let ghost before = report@;
        let ghost views = trace_views(traces@);
        let mut at: usize = 0;
        while at < traces.len()
            invariant
                at <= traces.len(),
                cap >= 1,
                views == trace_views(traces@),
                at == 0 ==> report@ == before,
                at > 0 ==> report@ == (SimulationReportView {
                    traces: newest(before.traces + views.take(at as int), cap as nat),
                    ..before
                }),
            decreases traces.len() - at,
        {
            push_bounded(&mut report.traces, traces[at].clone(), cap);
            at = at + 1;
            proof {
                let so_far = before.traces + views.take(at - 1);
                lemma_newest_push(so_far, views[at - 1], cap as nat);
                assert(before.traces + views.take(at as int) =~= so_far.push(views[at - 1]));
                if at == 1 {
                    assert(so_far =~= before.traces);
                }
            }
        }
        proof {
            assert(views.take(at as int) =~= views);
        }
    }
}

proof fn lemma_execution_frame<A>(
    before: Progress<A>,
    id: ActionId,
    observation: ActionObservation,
    after: Progress<A>,
)
    requires
        executed_once(before, id, observation, after),
    ensures
        after.clock == before.clock,
        after.controller.config == before.controller.config,
        after.report == (SimulationReportView {
            executed: after.report.executed,
            completed: after.report.completed,
            failed: after.report.failed,
            ..before.report
        }),
        after.report.executed <= capped_sum(before.report.executed, 1),
        before.report.completed <= before.report.executed ==> after.report.completed
            <= after.report.executed,
        before.report.failed <= before.report.executed ==> after.report.failed
            <= after.report.executed,
{
    reveal(executed_once);
}

proof fn lemma_executions_frame<A>(
    path: Seq<Progress<A>>,
    records: Seq<ActionRecordView>,
    observation: ActionObservation,
    n: int,
)
    requires
        execution_path(path, records, observation),
        0 <= n <= records.len() <= 2,
    ensures
        path[n].clock == path[0].clock,
        path[n].controller.config == path[0].controller.config,
        path[n].report == (SimulationReportView {
            executed: path[n].report.executed,
            completed: path[n].report.completed,
            failed: path[n].report.failed,
            ..path[0].report
        }),
        path[n].report.executed <= capped_sum(path[0].report.executed, n as u64),
        path[0].report.completed <= path[0].report.executed ==> path[n].report.completed
            <= path[n].report.executed,
        path[0].report.failed <= path[0].report.executed ==> path[n].report.failed
            <= path[n].report.executed,
    decreases n,
{
    if n > 0 {
        lemma_executions_frame(path, records, observation, n - 1);
        lemma_execution_frame(path[n - 1], records[n - 1].id, observation, path[n]);
    }
}

proof fn lemma_step_is_coherent<A>(
    before: Progress<A>,
    input: SimulationInputView,
    period: Duration,
    after: Progress<A>,
)
    requires
        stepped(before, input, period, after),
    ensures
        coherent(before) ==> coherent(after),
        after.report.steps == before.report.steps + 1,
        after.controller.config == before.controller.config,
{
    reveal(stepped);
    let frame = before.clock.frame(input);
    let (controller, decision) = before.controller.decided(frame, input.context);
    let counted = Progress {
        controller,
        report: counted_decision(before.report, decision),
        ..before
    };
    lemma_decision_size(before.controller, frame, input.context);
    lemma_decision_keeps_config(before.controller, frame, input.context);
    let mid = choose|mid: Progress<A>| #[trigger]
        executed_all(counted, decision.active_actions, frame.identity(), mid) && after == (
        Progress {
            controller: mid.controller,
            report: SimulationReportView {
                traces: newest(
                    mid.report.traces + decision.traces,
                    mid.controller.config.max_traces as nat,
                ),
                ..mid.report
            },
            clock: mid.clock.later(period),
            asked: mid.asked,
        });
    let path = choose|path: Seq<Progress<A>>| #[trigger]
        execution_path(path, decision.active_actions, frame.identity()) && path[0] == counted
            && path.last() == mid;
    lemma_executions_frame(
        path,
        decision.active_actions,
        frame.identity(),
        decision.active_actions.len() as int,
    );
}

proof fn lemma_path_is_coherent<A>(
    path: Seq<Progress<A>>,
    inputs: Seq<SimulationInputView>,
    period: Duration,
    n: int,
)
    requires
        simulation_path(path, inputs, period),
        0 <= n <= inputs.len(),
    ensures
        coherent(path[0]) ==> coherent(path[n]),
        path[n].report.steps == path[0].report.steps + n,
        path[n].controller.config == path[0].controller.config,
    decreases n,
{
    if n > 0 {
        lemma_path_is_coherent(path, inputs, period, n - 1);
        lemma_step_is_coherent(path[n - 1], inputs[n - 1], period, path[n]);
    }
}

/// Every report of a simulation is coherent: what was proposed is what was admitted and
/// what was shadow, nothing was executed that was not admitted, and every outcome
/// belongs to an execution.
pub proof fn law_reports_are_coherent<A>(
    before: Progress<A>,
    inputs: Seq<SimulationInputView>,
    period: Duration,
    after: Progress<A>,
)
    requires
        coherent(before),
        simulated(before, inputs, period, after),
    ensures
        coherent(after),
        after.report.steps == before.report.steps + inputs.len(),
{
    let path = choose|path: Seq<Progress<A>>| #[trigger]
        simulation_path(path, inputs, period) && path[0] == before && path.last() == after;
    lemma_path_is_coherent(path, inputs, period, inputs.len() as int);
}

proof fn lemma_shadow_step<A>(
    before: Progress<A>,
    input: SimulationInputView,
    period: Duration,
    after: Progress<A>,
)
    requires
        before.controller.config.mode == AdaptiveMode::Shadow,
        stepped(before, input, period, after),
    ensures
        after.controller.ledger == before.controller.ledger,
        after.controller.config == before.controller.config,
        after.report.admitted == before.report.admitted,
        after.report.executed == before.report.executed,
        after.asked == before.asked,
{
    reveal(stepped);
    let frame = before.clock.frame(input);
    let (controller, decision) = before.controller.decided(frame, input.context);
    let counted = Progress {
        controller,
        report: counted_decision(before.report, decision),
        ..before
    };
    law_shadow_decisions_admit_nothing(before.controller, frame, input.context);
    lemma_decision_keeps_config(before.controller, frame, input.context);
    let mid = choose|mid: Progress<A>| #[trigger]
        executed_all(counted, decision.active_actions, frame.identity(), mid) && after == (
        Progress {
            controller: mid.controller,
            report: SimulationReportView {
                traces: newest(
                    mid.report.traces + decision.traces,
                    mid.controller.config.max_traces as nat,
                ),
                ..mid.report
            },
            clock: mid.clock.later(period),
            asked: mid.asked,
        });
    let path = choose|path: Seq<Progress<A>>| #[trigger]
        execution_path(path, decision.active_actions, frame.identity()) && path[0] == counted
            && path.last() == mid;
    assert(path.len() == 1);
    assert(mid == counted);
}

proof fn lemma_shadow_path<A>(
    path: Seq<Progress<A>>,
    inputs: Seq<SimulationInputView>,
    period: Duration,
    n: int,
)
    requires
        path[0].controller.config.mode == AdaptiveMode::Shadow,
        simulation_path(path, inputs, period),
        0 <= n <= inputs.len(),
    ensures
        path[n].controller.ledger == path[0].controller.ledger,
        path[n].controller.config == path[0].controller.config,
        path[n].report.admitted == path[0].report.admitted,
        path[n].report.executed == path[0].report.executed,
        path[n].asked == path[0].asked,
    decreases n,
{
    if n > 0 {
        lemma_shadow_path(path, inputs, period, n - 1);
        lemma_shadow_step(path[n - 1], inputs[n - 1], period, path[n]);
    }
}

/// In shadow mode a simulation admits and executes nothing, asks nothing of the actuator,
/// and leaves the ledger alone.
pub proof fn law_shadow_simulation_executes_nothing<A>(
    before: Progress<A>,
    inputs: Seq<SimulationInputView>,
    period: Duration,
    after: Progress<A>,
)
    requires
        before.controller.config.mode == AdaptiveMode::Shadow,
        simulated(before, inputs, period, after),
    ensures
        after.controller.ledger == before.controller.ledger,
        after.controller.config == before.controller.config,
        after.report.admitted == before.report.admitted,
        after.report.executed == before.report.executed,
        after.asked == before.asked,
{
    let path = choose|path: Seq<Progress<A>>| #[trigger]
        simulation_path(path, inputs, period) && path[0] == before && path.last() == after;
    lemma_shadow_path(path, inputs, period, inputs.len() as int);
}

/// Each step of a simulation is one observation later, in a window of its own, by the
/// period; a frame is what the clock and the input say.
pub proof fn law_steps_advance_the_clock(
    clock: VirtualClock,
    period: Duration,
    input: SimulationInputView,
)
    requires
        clock.sequence.0 < u64::MAX,
        clock.window.0 < u64::MAX,
    ensures
        clock.later(period).sequence.0 == clock.sequence.0 + 1,
        clock.later(period).window.0 == clock.window.0 + 1,
        clock.later(period).ticks == clock.ticks.later(period),
        clock.frame(input).observation == input.observation,
        clock.frame(input).scope == input.context.scope,
        clock.frame(input).sequence == clock.sequence,
        clock.frame(input).window == clock.window,
        clock.frame(input).at == clock.ticks,
{
}

/// A decision counts what it proposed: admitted and shadow actions, each in its own count
/// and both together.
pub proof fn law_decisions_are_counted(
    report: SimulationReportView,
    decision: AdaptiveDecisionView,
)
    requires
        decision.active_actions.len() <= 2,
        decision.shadow_actions.len() <= 3,
        report.proposed <= u64::MAX - 5,
        report.admitted <= u64::MAX - 5,
        report.shadow <= u64::MAX - 5,
    ensures
        ({
            let after = counted_decision(report, decision);
            &&& after.steps == report.steps + 1
            &&& after.admitted == report.admitted + decision.active_actions.len()
            &&& after.shadow == report.shadow + decision.shadow_actions.len()
            &&& after.proposed == report.proposed + decision.active_actions.len()
                + decision.shadow_actions.len()
            &&& after.executed == report.executed
            &&& after.completed == report.completed
            &&& after.failed == report.failed
            &&& after.seed == report.seed
            &&& after.traces == report.traces
        }),
{
}

/// An execution that went through is counted as what came of it, and one that did not is
/// not counted.
pub proof fn law_executions_count_as_they_ended<A>(
    before: Progress<A>,
    id: ActionId,
    controller: ControllerView,
    result: Result<ActionRecordView, ActuationError>,
)
    requires
        before.report.executed < u64::MAX,
        before.report.completed < u64::MAX,
        before.report.failed < u64::MAX,
    ensures
        ({
            let after = told(before, id, (controller, result)).report;
            let record = controller.ledger.find(id);
            &&& result is Err ==> after == before.report
            &&& result is Ok ==> after.executed == before.report.executed + 1
            &&& record matches Some(r) ==> {
                &&& result is Ok && r.state is Completed ==> after.completed
                    == before.report.completed + 1 && after.failed == before.report.failed
                &&& result is Ok && r.state is Failed ==> after.failed == before.report.failed
                    + 1 && after.completed == before.report.completed
            }
        }),
{
}

} // verus!
