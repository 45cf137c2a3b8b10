//! The deterministic core of a replicated tablet.
//!
//! Committed entries reach every replica in the same order. For each of them the core
//! says what is to be done ([`ReplicatedTablet::plan_entry`]): nothing more, because the
//! entry only moves the log or repeats a request that was answered before; or an
//! execution against the object store or the control image, whose result it then takes
//! ([`ReplicatedTablet::apply_entry`]), checks against the outcome that the proposal
//! carried, and records.

use crate::consensus::applied::AppliedPointer;
use crate::consensus::membership::{MembershipView, StoredMembership};
use crate::consensus::session::{
    clone_outcomes, clone_sessions, commit_of, commit_of_index, DurableOutcome,
    DurableOutcomeView, OutcomeKind, RetainedOutcome, RetainedView, SessionEntry,
    SessionEntryView, SessionState, SessionView,
};
use crate::ids::{
    CommitPosition, NamespaceId, NodeId, RequestSeq, SessionId, TabletAuthority, TabletId,
};
use crate::ranked::{
    beyond, count_beyond, find_ranked, gather, gathered, lemma_beyond, lemma_gathered,
    lemma_gathered_rising, lemma_placed, lemma_ranked, lemma_ranked_at, place, placed, ranked,
    rising, views, Ranked,
};
use crate::wire::{clone_bytes, same_bytes};
use vstd::prelude::*;

verus! {

/// How many unacknowledged outcomes a session may hold. Past this, a proposal is refused
/// rather than an outcome evicted that a retry might need.
pub const SESSION_OUTCOME_CAP: usize = 1024;

/// The session of requests without a retry contract. Together with sequence zero it is
/// no identity: such commands are executed and checked like others, and leave no outcome
/// behind.
pub const ANONYMOUS_SESSION: u128 = 0;

/// One committed tablet command.
#[derive(Debug, PartialEq, Eq)]
pub struct ReplicatedMutation {
    /// Namespace addressed.
    pub namespace: NamespaceId,
    /// Tablet addressed, and the generations that the proposer wrote under.
    pub authority: TabletAuthority,
    /// Session of the request.
    pub session: SessionId,
    /// Sequence of the request.
    pub seq: RequestSeq,
    /// Everything up to this sequence was acknowledged by the client.
    pub ack_floor: RequestSeq,
    /// Opcode of the request.
    pub opcode: u8,
    /// Deterministic mutation bytes.
    pub mutation: Vec<u8>,
    /// Canonical bytes of the outcome that the proposer computed.
    pub expected: Vec<u8>,
    /// Clock of the proposer in microseconds.
    pub now: u64,
}

/// What a [`ReplicatedMutation`] says.
#[verifier::ext_equal]
pub struct MutationView {
    pub namespace: NamespaceId,
    pub authority: TabletAuthority,
    pub session: SessionId,
    pub seq: RequestSeq,
    pub ack_floor: RequestSeq,
    pub opcode: u8,
    pub mutation: Seq<u8>,
    pub expected: Seq<u8>,
    pub now: u64,
}

impl View for ReplicatedMutation {
    type V = MutationView;

    open spec fn view(&self) -> MutationView {
        MutationView {
            namespace: self.namespace,
            authority: self.authority,
            session: self.session,
            seq: self.seq,
            ack_floor: self.ack_floor,
            opcode: self.opcode,
            mutation: self.mutation@,
            expected: self.expected@,
            now: self.now,
        }
    }
}

impl MutationView {
    /// Whether the command has no identity to retry under.
    pub open spec fn anonymous(self) -> bool {
        self.session.0 == ANONYMOUS_SESSION && self.seq.0 == 0
    }
}

/// What a log entry may command.
#[derive(Debug, PartialEq, Eq)]
pub enum ConsensusCommand {
    /// A write to a tablet.
    Tablet(ReplicatedMutation),
    /// A control-plane mutation, in canonical bytes.
    Control(Vec<u8>),
    /// A read fence, which orders reads and changes nothing.
    ReadSync {
        /// Tablet that the fence is for.
        tablet: TabletId,
    },
}

/// The sessions that a tablet hands to the one that takes over from it.
pub type TopologyCopy = Vec<SessionEntry>;

/// What a log entry carries.
#[derive(Debug, PartialEq, Eq)]
pub enum EntryPayload {
    /// Nothing.
    Blank,
    /// New members of the group.
    Membership(StoredMembership),
    /// A command.
    Normal(ConsensusCommand),
}

/// What executing a planned entry gave.
#[derive(Debug, PartialEq, Eq)]
pub enum Executed {
    /// Nothing was to be executed.
    Nothing,
    /// The object store applied the mutation, with this outcome.
    Stored(Vec<u8>),
    /// The object store refused the mutation.
    StoreFailed(String),
    /// The control plane applied the mutation; this is its new image.
    Controlled(Vec<u8>),
    /// The control plane refused the mutation.
    ControlRefused(String),
}

/// What is to be done for an entry before it can be applied.
#[derive(Debug, PartialEq, Eq)]
pub enum EntryStep {
    /// Nothing: the entry has this outcome.
    Settled(Option<Vec<u8>>),
    /// Apply the mutation to the object store.
    ExecuteStore,
    /// Apply the mutation to the control image.
    ExecuteControl,
}

/// What an [`EntryStep`] says.
#[verifier::ext_equal]
pub enum StepView {
    Settled(Option<Seq<u8>>),
    ExecuteStore,
    ExecuteControl,
}

/// Optional bytes, by their view.
pub open spec fn bytes_view(bytes: Option<Vec<u8>>) -> Option<Seq<u8>> {
    match bytes {
        Some(bytes) => Some(bytes@),
        None => None,
    }
}

impl View for EntryStep {
    type V = StepView;

    open spec fn view(&self) -> StepView {
        match self {
            EntryStep::Settled(outcome) => StepView::Settled(bytes_view(*outcome)),
            EntryStep::ExecuteStore => StepView::ExecuteStore,
            EntryStep::ExecuteControl => StepView::ExecuteControl,
        }
    }
}

/// The verdict on a proposal before anything replicates.
#[derive(Debug, Clone, PartialEq, Eq)]
pub enum ProposalGate {
    /// A fresh identity: prepare and propose.
    Admit,
    /// The identity already completed: reply with the stored outcome.
    Hit {
        /// The recorded outcome.
        outcome: Vec<u8>,
    },
    /// The identity is at or below the floor and can never execute again.
    Expired,
    /// The session holds too many outcomes.
    Overloaded,
}

/// What a [`ProposalGate`] says.
#[verifier::ext_equal]
pub enum GateView {
    Admit,
    Hit { outcome: Seq<u8> },
    Expired,
    Overloaded,
}

impl View for ProposalGate {
    type V = GateView;

    open spec fn view(&self) -> GateView {
        match self {
            ProposalGate::Admit => GateView::Admit,
            ProposalGate::Hit { outcome } => GateView::Hit { outcome: outcome@ },
            ProposalGate::Expired => GateView::Expired,
            ProposalGate::Overloaded => GateView::Overloaded,
        }
    }
}

/// Why an entry could not be applied. None of these is an ordinary client error.
#[derive(Debug, PartialEq, Eq)]
#[non_exhaustive]
#[allow(inconsistent_fields)]
pub enum StateMachineFault {
    /// Applying gave another outcome than the proposal carried.
    Divergence {
        /// Log index of the entry.
        index: u64,
        /// Outcome that the proposal carried.
        expected: Vec<u8>,
        /// Outcome that applying gave.
        found: Vec<u8>,
    },
    /// The retained outcome of the identity is not the one that the proposal carried.
    DedupDivergence {
        /// Log index of the entry.
        index: u64,
        /// Outcome retained for the identity.
        retained: Vec<u8>,
        /// Outcome that the proposal carried.
        expected: Vec<u8>,
    },
    /// The command names another namespace or tablet.
    Misrouted {
        /// Namespace named.
        namespace: u64,
        /// Tablet named.
        tablet: u64,
        /// Namespace of the replica.
        expected_namespace: u64,
        /// Tablet of the replica.
        expected_tablet: u64,
    },
    /// The command was proposed under other generations.
    AuthorityMismatch {
        /// Authority of the command.
        found: TabletAuthority,
        /// Authority of the replica.
        replica: TabletAuthority,
    },
    /// The identity is at or below the floor.
    ExpiredIdentity {
        /// Session.
        session: u128,
        /// Sequence.
        seq: u64,
        /// Floor.
        floor: u64,
        /// Log index of the entry.
        index: u64,
    },
    /// The session holds too many outcomes.
    SessionOverloaded {
        /// Session.
        session: u128,
        /// Log index of the entry.
        index: u64,
    },
    /// The object store refused the mutation.
    ApplyFailed {
        /// Log index of the entry.
        index: u64,
        /// Why.
        detail: String,
    },
    /// An outcome is retained that is not a completed one.
    CorruptState {
        /// Session.
        session: u128,
        /// Sequence.
        seq: u64,
    },
    /// The control plane refused the mutation.
    ControlRejected {
        /// Log index of the entry.
        index: u64,
        /// Why.
        detail: String,
    },
    /// A command reached the wrong kind of group.
    WrongGroup {
        /// Tablet that the command is for.
        tablet: u64,
        /// Log index of the entry.
        index: u64,
    },
}

/// What a [`StateMachineFault`] says.
#[verifier::ext_equal]
#[allow(inconsistent_fields)]
pub enum FaultView {
    Divergence { index: u64, expected: Seq<u8>, found: Seq<u8> },
    DedupDivergence { index: u64, retained: Seq<u8>, expected: Seq<u8> },
    Misrouted { namespace: u64, tablet: u64, expected_namespace: u64, expected_tablet: u64 },
    AuthorityMismatch { found: TabletAuthority, replica: TabletAuthority },
    ExpiredIdentity { session: u128, seq: u64, floor: u64, index: u64 },
    SessionOverloaded { session: u128, index: u64 },
    ApplyFailed { index: u64, detail: Seq<char> },
    CorruptState { session: u128, seq: u64 },
    ControlRejected { index: u64, detail: Seq<char> },
    WrongGroup { tablet: u64, index: u64 },
}

impl View for StateMachineFault {
    type V = FaultView;

    open spec fn view(&self) -> FaultView {
        match self {
            StateMachineFault::Divergence { index, expected, found } => FaultView::Divergence {
                index: *index,
                expected: expected@,
                found: found@,
            },
            StateMachineFault::DedupDivergence {
                index,
                retained,
                expected,
            } => FaultView::DedupDivergence {
                index: *index,
                retained: retained@,
                expected: expected@,
            },
            StateMachineFault::Misrouted {
                namespace,
                tablet,
                expected_namespace,
                expected_tablet,
            } => FaultView::Misrouted {
                namespace: *namespace,
                tablet: *tablet,
                expected_namespace: *expected_namespace,
                expected_tablet: *expected_tablet,
            },
            StateMachineFault::AuthorityMismatch { found, replica } => {
                FaultView::AuthorityMismatch { found: *found, replica: *replica }
            },
            StateMachineFault::ExpiredIdentity {
                session,
                seq,
                floor,
                index,
            } => FaultView::ExpiredIdentity {
                session: *session,
                seq: *seq,
                floor: *floor,
                index: *index,
            },
            StateMachineFault::SessionOverloaded { session, index } => {
                FaultView::SessionOverloaded { session: *session, index: *index }
            },
            StateMachineFault::ApplyFailed { index, detail } => FaultView::ApplyFailed {
                index: *index,
                detail: detail@,
            },
            StateMachineFault::CorruptState { session, seq } => FaultView::CorruptState {
                session: *session,
                seq: *seq,
            },
            StateMachineFault::ControlRejected { index, detail } => FaultView::ControlRejected {
                index: *index,
                detail: detail@,
            },
            StateMachineFault::WrongGroup { tablet, index } => FaultView::WrongGroup {
                tablet: *tablet,
                index: *index,
            },
        }
    }
}

/// A result by the views of its value and of its fault.
pub open spec fn outcome_view<T: View>(result: Result<T, StateMachineFault>) -> Result<
    T::V,
    FaultView,
> {
    match result {
        Ok(value) => Ok(value@),
        Err(fault) => Err(fault@),
    }
}

/// The deterministic state of a replica, without the objects themselves.
#[derive(Debug, PartialEq, Eq)]
pub struct ReplicatedTablet {
    pub(crate) namespace: NamespaceId,
    pub(crate) tablet: TabletId,
    pub(crate) authority: TabletAuthority,
    pub(crate) control_tablet: TabletId,
    pub(crate) sessions: Vec<SessionEntry>,
    pub(crate) applied: Option<AppliedPointer>,
    pub(crate) membership: StoredMembership,
    pub(crate) control: Vec<u8>,
}

/// What a [`ReplicatedTablet`] says.
#[verifier::ext_equal]
pub struct TabletView {
    /// Namespace of the replica.
    pub namespace: NamespaceId,
    /// Tablet replicated.
    pub tablet: TabletId,
    /// Authority that the replica accepts writes under.
    pub authority: TabletAuthority,
    /// The tablet id that the control group has.
    pub control_tablet: TabletId,
    /// Sessions, in order.
    pub sessions: Seq<SessionEntryView>,
    /// The last applied entry.
    pub applied: Option<AppliedPointer>,
    /// Members of the group.
    pub membership: MembershipView,
    /// The control image, in canonical bytes.
    pub control: Seq<u8>,
}

impl View for ReplicatedTablet {
    type V = TabletView;

    open(crate) spec fn view(&self) -> TabletView {
        TabletView {
            namespace: self.namespace,
            tablet: self.tablet,
            authority: self.authority,
            control_tablet: self.control_tablet,
            sessions: views(self.sessions@),
            applied: self.applied,
            membership: self.membership@,
            control: self.control@,
        }
    }
}

/// What is retained of a command that was executed with its outcome.
pub open spec fn recorded(index: u64, command: MutationView, outcome: Seq<u8>) -> RetainedView {
    RetainedView {
        seq: command.seq,
        commit: commit_of(index),
        opcode: command.opcode,
        outcome: DurableOutcomeView { kind: OutcomeKind::Completed, bytes: outcome },
    }
}

/// `sessions`, each rebuilt from its parts, so that its sequences are in order.
pub open spec fn rebuilt(sessions: Seq<SessionEntryView>) -> Seq<SessionEntryView> {
    Seq::new(
        sessions.len(),
        |i: int|
            SessionEntryView {
                state: SessionView {
                    outcomes: gathered(sessions[i].state.outcomes),
                    ..sessions[i].state
                },
                ..sessions[i]
            },
    )
}

impl TabletView {
    /// The state with the sessions of another tablet instead of its own.
    pub open spec fn copied(self, sessions: Seq<SessionEntryView>) -> Self {
        TabletView { sessions: gathered(rebuilt(sessions)), ..self }
    }

    /// Sessions and their outcomes are in order, and the members make a group.
    pub open spec fn well_formed(self) -> bool {
        &&& rising(self.sessions)
        &&& self.membership.well_formed()
        &&& forall|i: int|
            0 <= i < self.sessions.len() ==> (#[trigger] self.sessions[i]).state.well_formed()
    }

    /// A replica that has applied nothing.
    pub open spec fn empty(
        namespace: NamespaceId,
        tablet: TabletId,
        authority: TabletAuthority,
        control_tablet: TabletId,
    ) -> Self {
        TabletView {
            namespace,
            tablet,
            authority,
            control_tablet,
            sessions: Seq::empty(),
            applied: None,
            membership: MembershipView::none(),
            control: Seq::empty(),
        }
    }

    /// Whether this is the control group.
    pub open spec fn controls(self) -> bool {
        self.tablet == self.control_tablet
    }

    /// The state of a session, if the replica has seen it.
    pub open spec fn session_of(self, session: SessionId) -> Option<SessionView> {
        match ranked(self.sessions, session.0) {
            Some(entry) => Some(entry.state),
            None => None,
        }
    }

    /// What is retained of an identity: an outcome, nothing, or why it may not execute.
    pub open spec fn retained(
        self,
        session: SessionId,
        seq: RequestSeq,
        ack_floor: RequestSeq,
        index: u64,
    ) -> Result<Option<Seq<u8>>, FaultView> {
        match self.session_of(session) {
            None => Ok(None),
            Some(state) => {
                let floor = state.floor_after(ack_floor);
                if seq.0 <= floor.0 {
                    Err(
                        FaultView::ExpiredIdentity {
                            session: session.0,
                            seq: seq.0,
                            floor: floor.0,
                            index,
                        },
                    )
                } else {
                    match state.outcome_of(seq) {
                        Some(retained) => if retained.outcome.kind is Completed {
                            Ok(Some(retained.outcome.bytes))
                        } else {
                            Err(FaultView::CorruptState { session: session.0, seq: seq.0 })
                        },
                        None => if beyond(state.outcomes, floor.0 as u128).len()
                            >= SESSION_OUTCOME_CAP {
                            Err(FaultView::SessionOverloaded { session: session.0, index })
                        } else {
                            Ok(None)
                        },
                    }
                }
            },
        }
    }

    /// The verdict on a proposal.
    pub open spec fn gate(
        self,
        session: SessionId,
        seq: RequestSeq,
        ack_floor: RequestSeq,
    ) -> Result<GateView, FaultView> {
        match self.session_of(session) {
            None => Ok(GateView::Admit),
            Some(state) => {
                let floor = state.floor_after(ack_floor);
                if seq.0 <= floor.0 {
                    Ok(GateView::Expired)
                } else {
                    match state.outcome_of(seq) {
                        Some(retained) => if retained.outcome.kind is Completed {
                            Ok(GateView::Hit { outcome: retained.outcome.bytes })
                        } else {
                            Err(FaultView::CorruptState { session: session.0, seq: seq.0 })
                        },
                        None => if beyond(state.outcomes, floor.0 as u128).len()
                            >= SESSION_OUTCOME_CAP {
                            Ok(GateView::Overloaded)
                        } else {
                            Ok(GateView::Admit)
                        },
                    }
                }
            },
        }
    }

    /// What a tablet command asks for.
    pub open spec fn command_step(self, index: u64, command: MutationView) -> Result<
        StepView,
        FaultView,
    > {
        if command.namespace != self.namespace || command.authority.tablet != self.tablet {
            Err(
                FaultView::Misrouted {
                    namespace: command.namespace.0,
                    tablet: command.authority.tablet.0,
                    expected_namespace: self.namespace.0,
                    expected_tablet: self.tablet.0,
                },
            )
        } else if command.authority != self.authority {
            Err(FaultView::AuthorityMismatch { found: command.authority, replica: self.authority })
        } else if command.anonymous() {
            Ok(StepView::ExecuteStore)
        } else {
            match self.retained(command.session, command.seq, command.ack_floor, index) {
                Err(fault) => Err(fault),
                Ok(None) => Ok(StepView::ExecuteStore),
                Ok(Some(outcome)) => if outcome != command.expected {
                    Err(
                        FaultView::DedupDivergence {
                            index,
                            retained: outcome,
                            expected: command.expected,
                        },
                    )
                } else {
                    Ok(StepView::Settled(Some(outcome)))
                },
            }
        }
    }

    /// What an entry asks for.
    pub open spec fn step(self, index: u64, payload: EntryPayload) -> Result<StepView, FaultView> {
        match payload {
            EntryPayload::Blank => Ok(StepView::Settled(None)),
            EntryPayload::Membership(_) => Ok(StepView::Settled(None)),
            EntryPayload::Normal(ConsensusCommand::Tablet(command)) => if self.controls() {
                Err(FaultView::WrongGroup { tablet: command.authority.tablet.0, index })
            } else {
                self.command_step(index, command@)
            },
            EntryPayload::Normal(ConsensusCommand::Control(_)) => if !self.controls() {
                Err(FaultView::WrongGroup { tablet: self.tablet.0, index })
            } else {
                Ok(StepView::ExecuteControl)
            },
            EntryPayload::Normal(ConsensusCommand::ReadSync { tablet }) => if self.controls() {
                Err(FaultView::WrongGroup { tablet: tablet.0, index })
            } else if tablet != self.tablet {
                Err(
                    FaultView::Misrouted {
                        namespace: self.namespace.0,
                        tablet: tablet.0,
                        expected_namespace: self.namespace.0,
                        expected_tablet: self.tablet.0,
                    },
                )
            } else {
                Ok(StepView::Settled(None))
            },
        }
    }

    /// A session once a fresh command of it was executed with its outcome.
    pub open spec fn session_after(
        self,
        index: u64,
        command: MutationView,
        outcome: Seq<u8>,
    ) -> SessionView {
        let before = match self.session_of(command.session) {
            Some(state) => state,
            None => SessionView::fresh(),
        };
        let advanced = before.advanced(command.ack_floor);
        SessionView {
            outcomes: placed(advanced.outcomes, recorded(index, command, outcome)),
            ..advanced
        }
    }

    /// The state once a fresh command was executed with its outcome.
    pub open spec fn installed(self, index: u64, command: MutationView, outcome: Seq<u8>) -> Self {
        if command.anonymous() {
            self
        } else {
            TabletView {
                sessions: placed(
                    self.sessions,
                    SessionEntryView {
                        session: command.session,
                        state: self.session_after(index, command, outcome),
                    },
                ),
                ..self
            }
        }
    }

    /// Whether what was executed is what the entry asked for.
    pub open spec fn answers(self, index: u64, payload: EntryPayload, executed: Executed) -> bool {
        match self.step(index, payload) {
            Ok(StepView::ExecuteStore) => executed is Stored || executed is StoreFailed,
            Ok(StepView::ExecuteControl) => executed is Controlled || executed is ControlRefused,
            _ => true,
        }
    }

    /// The state after an entry and its outcome, or why it could not be applied, which
    /// leaves the state as it was.
    pub open spec fn applied_entry(
        self,
        log_id: AppliedPointer,
        payload: EntryPayload,
        executed: Executed,
    ) -> (Self, Result<Option<Seq<u8>>, FaultView>) {
        let index = log_id.index;
        match self.step(index, payload) {
            Err(fault) => (self, Err(fault)),
            Ok(StepView::Settled(outcome)) => {
                let moved = TabletView { applied: Some(log_id), ..self };
                match payload {
                    EntryPayload::Membership(members) => (
                        TabletView {
                            membership: MembershipView { log_id: Some(log_id), ..members@ },
                            ..moved
                        },
                        Ok(None),
                    ),
                    _ => (moved, Ok(outcome)),
                }
            },
            Ok(StepView::ExecuteStore) => {
                let command = payload->Normal_0->Tablet_0@;
                match executed {
                    Executed::Stored(found) => if found@ != command.expected {
                        (
                            self,
                            Err(
                                FaultView::Divergence {
                                    index,
                                    expected: command.expected,
                                    found: found@,
                                },
                            ),
                        )
                    } else {
                        (
                            TabletView {
                                applied: Some(log_id),
                                ..self.installed(index, command, found@)
                            },
                            Ok(Some(found@)),
                        )
                    },
                    Executed::StoreFailed(detail) => (
                        self,
                        Err(FaultView::ApplyFailed { index, detail: detail@ }),
                    ),
                    _ => (self, Ok(None)),
                }
            },
            Ok(StepView::ExecuteControl) => match executed {
                Executed::Controlled(image) => (
                    TabletView { applied: Some(log_id), control: image@, ..self },
                    Ok(None),
                ),
                Executed::ControlRefused(detail) => (
                    self,
                    Err(FaultView::ControlRejected { index, detail: detail@ }),
                ),
                _ => (self, Ok(None)),
            },
        }
    }

    /// The last applied commit position.
    pub open spec fn commit(self) -> CommitPosition {
        match self.applied {
            Some(pointer) => commit_of(pointer.index),
            None => CommitPosition(0),
        }
    }
}

/// The outcome of an applied entry, if it has one.
#[derive(Debug, PartialEq, Eq)]
pub struct ReplicatedOutcome {
    pub(crate) outcome: Option<Vec<u8>>,
}

impl View for ReplicatedOutcome {
    type V = Option<Seq<u8>>;

    open(crate) spec fn view(&self) -> Option<Seq<u8>> {
        bytes_view(self.outcome)
    }
}

impl ReplicatedOutcome {
    /// No outcome.
    pub fn none() -> (outcome: Self)
        ensures
            outcome@ is None,
    {
        ReplicatedOutcome { outcome: None }
    }

    /// An outcome.
    pub fn new(bytes: Vec<u8>) -> (outcome: Self)
        ensures
            outcome@ == Some(bytes@),
    {
        ReplicatedOutcome { outcome: Some(bytes) }
    }

    /// Returns the outcome.
    pub fn outcome(&self) -> (outcome: Option<&Vec<u8>>)
        ensures
            match outcome {
                Some(bytes) => self@ == Some(bytes@),
                None => self@ is None,
            },
    {
        match &self.outcome {
            Some(bytes) => Some(bytes),
            None => None,
        }
    }
}

impl ReplicatedTablet {
    /// Builds an empty replica. The control group is the one whose tablet is
    /// `control_tablet`.
    pub fn new(
        namespace: NamespaceId,
        tablet: TabletId,
        authority: TabletAuthority,
        control_tablet: TabletId,
    ) -> (replica: Self)
        ensures
            replica@ == TabletView::empty(namespace, tablet, authority, control_tablet),
            replica@.well_formed(),
    {
        let replica: ReplicatedTablet = ReplicatedTablet {
            namespace,
            tablet,
            authority,
            control_tablet,
            sessions: Vec::new(),
            applied: None,
            membership: StoredMembership::none(),
            control: Vec::new(),
        };
        proof {
            assert(replica@ =~= TabletView::empty(namespace, tablet, authority, control_tablet));
        }
        replica
    }

    /// Whether this is the control group.
    pub fn is_control(&self) -> (control: bool)
        ensures
            control == self@.controls(),
    {
        self.tablet == self.control_tablet
    }

    /// Returns the control image.
    pub fn control(&self) -> (image: &Vec<u8>)
        ensures
            image@ == self@.control,
    {
        &self.control
    }

    /// Returns the namespace.
    pub fn namespace(&self) -> (namespace: NamespaceId)
        ensures
            namespace == self@.namespace,
    {
        self.namespace
    }

    /// Returns the tablet.
    pub fn tablet(&self) -> (tablet: TabletId)
        ensures
            tablet == self@.tablet,
    {
        self.tablet
    }

    /// Returns the authority.
    pub fn authority(&self) -> (authority: TabletAuthority)
        ensures
            authority == self@.authority,
    {
        self.authority
    }

    /// Returns the last applied entry.
    pub fn applied(&self) -> (applied: Option<AppliedPointer>)
        ensures
            applied == self@.applied,
    {
        self.applied
    }

    /// Returns the last applied commit position.
    pub fn applied_commit(&self) -> (commit: CommitPosition)
        ensures
            commit == self@.commit(),
    {
        match self.applied {
            Some(pointer) => commit_of_index(pointer.index),
            None => CommitPosition::unassigned(),
        }
    }

    /// Returns the members of the group.
    pub fn membership(&self) -> (membership: &StoredMembership)
        ensures
            membership@ == self@.membership,
    {
        &self.membership
    }

    /// Returns the voters of the group.
    pub fn membership_voters(&self) -> (voters: Vec<NodeId>)
        ensures
            voters@ == self@.membership.voters(),
    {
        self.membership.voters()
    }

    /// Returns the state of a session, if the replica has seen it.
    pub fn session(&self, session: SessionId) -> (state: Option<&SessionState>)
        ensures
            match state {
                Some(state) => self@.session_of(session) == Some(state@),
                None => self@.session_of(session) is None,
            },
    {
        match find_ranked(&self.sessions, session.as_u128()) {
            Some(at) => Some(&self.sessions[at].state),
            None => None,
        }
    }

    /// Returns a copy of all sessions, for a tablet that takes over from this one.
    pub fn export_topology_copy(&self) -> (sessions: TopologyCopy)
        ensures
            views(sessions@) == self@.sessions,
    {
        clone_sessions(&self.sessions)
    }

    /// Replaces all sessions by those of the tablet that this one takes over from. Each is
    /// rebuilt from its parts.
    pub fn install_topology_copy(&mut self, sessions: TopologyCopy)
        ensures
            final(self)@ == old(self)@.copied(views(sessions@)),
            old(self)@.well_formed() ==> final(self)@.well_formed(),
    {
        let ghost given = rebuilt(views(sessions@));
        self.sessions = gather(rebuild_sessions(sessions));
        proof {
            lemma_gathered(given);
            assert forall|k: int| 0 <= k < given.len() implies (
            #[trigger] given[k]).state.well_formed() by {
                lemma_gathered(views(sessions@)[k].state.outcomes);
            }
            assert forall|i: int| 0 <= i < gathered(given).len() implies (
            #[trigger] gathered(given)[i]).state.well_formed() by {
                lemma_gathered_from(given, i);
            }
            assert(self@ =~= TabletView { sessions: gathered(given), ..old(self)@ });
        }
    }

    fn lookup(
        &self,
        session: SessionId,
        seq: RequestSeq,
        ack_floor: RequestSeq,
        index: u64,
    ) -> (retained: Result<Option<Vec<u8>>, StateMachineFault>)
        ensures
            match retained {
                Ok(outcome) => self@.retained(session, seq, ack_floor, index) == Ok::<
                    _,
                    FaultView,
                >(bytes_view(outcome)),
                Err(fault) => self@.retained(session, seq, ack_floor, index) == Err::<
                    Option<Seq<u8>>,
                    _,
                >(fault@),
            },
    {
        let state: &SessionState = match self.session(session) {
            None => return Ok(None),
            Some(state) => state,
        };
        let floor: RequestSeq = if ack_floor.as_u64() > state.floor.as_u64() {
            ack_floor
        } else {
            state.floor
        };
        if seq.as_u64() <= floor.as_u64() {
            return Err(
                StateMachineFault::ExpiredIdentity {
                    session: session.as_u128(),
                    seq: seq.as_u64(),
                    floor: floor.as_u64(),
                    index,
                },
            );
        }
        match find_ranked(&state.outcomes, seq.as_u64() as u128) {
            Some(at) => {
                if state.outcomes[at].outcome.kind == OutcomeKind::Completed {
                    Ok(Some(clone_bytes(&state.outcomes[at].outcome.bytes)))
                } else {
                    Err(
                        StateMachineFault::CorruptState {
                            session: session.as_u128(),
                            seq: seq.as_u64(),
                        },
                    )
                }
            },
            None => {
                if count_beyond(&state.outcomes, floor.as_u64() as u128) >= SESSION_OUTCOME_CAP {
                    Err(StateMachineFault::SessionOverloaded { session: session.as_u128(), index })
                } else {
                    Ok(None)
                }
            },
        }
    }

    /// Says, without changing anything, whether a proposal may be prepared, is answered
    /// from what was retained, or is to be rejected.
    pub fn check_proposal(
        &self,
        session: SessionId,
        seq: RequestSeq,
        ack_floor: RequestSeq,
    ) -> (gate: Result<ProposalGate, StateMachineFault>)
        ensures
            outcome_view(gate) == self@.gate(session, seq, ack_floor),
    {
        match self.lookup(session, seq, ack_floor, 0) {
            Ok(None) => Ok(ProposalGate::Admit),
            Ok(Some(outcome)) => Ok(ProposalGate::Hit { outcome }),
            Err(fault) => match fault {
                StateMachineFault::ExpiredIdentity { .. } => Ok(ProposalGate::Expired),
                StateMachineFault::SessionOverloaded { .. } => Ok(ProposalGate::Overloaded),
                other => Err(other),
            },
        }
    }

    fn plan_command(&self, index: u64, command: &ReplicatedMutation) -> (step: Result<
        EntryStep,
        StateMachineFault,
    >)
        ensures
            outcome_view(step) == self@.command_step(index, command@),
    {
        if command.namespace != self.namespace || command.authority.tablet != self.tablet {
            return Err(
                StateMachineFault::Misrouted {
                    namespace: command.namespace.as_u64(),
                    tablet: command.authority.tablet.as_u64(),
                    expected_namespace: self.namespace.as_u64(),
                    expected_tablet: self.tablet.as_u64(),
                },
            );
        }
        if command.authority != self.authority {
            return Err(
                StateMachineFault::AuthorityMismatch {
                    found: command.authority,
                    replica: self.authority,
                },
            );
        }
        if command.session.as_u128() == ANONYMOUS_SESSION && command.seq.as_u64() == 0 {
            return Ok(EntryStep::ExecuteStore);
        }
        match self.lookup(command.session, command.seq, command.ack_floor, index) {
            Err(fault) => Err(fault),
            Ok(None) => Ok(EntryStep::ExecuteStore),
            Ok(Some(outcome)) => {
                if same_bytes(&outcome, &command.expected) {
                    Ok(EntryStep::Settled(Some(outcome)))
                } else {
                    Err(
                        StateMachineFault::DedupDivergence {
                            index,
                            retained: outcome,
                            expected: clone_bytes(&command.expected),
                        },
                    )
                }
            },
        }
    }

    /// Says what is to be done for a committed entry.
    pub fn plan_entry(&self, index: u64, payload: &EntryPayload) -> (step: Result<
        EntryStep,
        StateMachineFault,
    >)
        ensures
            outcome_view(step) == self@.step(index, *payload),
    {
        match payload {
            EntryPayload::Blank => Ok(EntryStep::Settled(None)),
            EntryPayload::Membership(_) => Ok(EntryStep::Settled(None)),
            EntryPayload::Normal(ConsensusCommand::Tablet(command)) => {
                if self.is_control() {
                    Err(
                        StateMachineFault::WrongGroup {
                            tablet: command.authority.tablet.as_u64(),
                            index,
                        },
                    )
                } else {
                    self.plan_command(index, command)
                }
            },
            EntryPayload::Normal(ConsensusCommand::Control(_)) => {
                if self.is_control() {
                    Ok(EntryStep::ExecuteControl)
                } else {
                    Err(StateMachineFault::WrongGroup { tablet: self.tablet.as_u64(), index })
                }
            },
            EntryPayload::Normal(ConsensusCommand::ReadSync { tablet }) => {
                if self.is_control() {
                    Err(StateMachineFault::WrongGroup { tablet: tablet.as_u64(), index })
                } else if *tablet != self.tablet {
                    Err(
                        StateMachineFault::Misrouted {
                            namespace: self.namespace.as_u64(),
                            tablet: tablet.as_u64(),
                            expected_namespace: self.namespace.as_u64(),
                            expected_tablet: self.tablet.as_u64(),
                        },
                    )
                } else {
                    Ok(EntryStep::Settled(None))
                }
            },
        }
    }

    fn install(&mut self, index: u64, command: &ReplicatedMutation, outcome: Vec<u8>)
        ensures
            final(self)@ == old(self)@.installed(index, command@, outcome@),
    {
        if command.session.as_u128() == ANONYMOUS_SESSION && command.seq.as_u64() == 0 {
            return;
        }
        let mut state: SessionState = match self.session(command.session) {
            Some(state) => state.clone(),
            None => SessionState::default(),
        };
        state.advance_floor(command.ack_floor);
        let retained: RetainedOutcome = RetainedOutcome {
            seq: command.seq,
            commit: commit_of_index(index),
            opcode: command.opcode,
            outcome: DurableOutcome { kind: OutcomeKind::Completed, bytes: outcome },
        };
        place(&mut state.outcomes, retained);
        place(&mut self.sessions, SessionEntry { session: command.session, state });
    }

    /// Applies a committed entry, given what executing its plan gave.
    pub fn apply_entry(
        &mut self,
        log_id: AppliedPointer,
        payload: &EntryPayload,
        executed: Executed,
    ) -> (result: Result<ReplicatedOutcome, StateMachineFault>)
        requires
            old(self)@.answers(log_id.index, *payload, executed),
        ensures
            (final(self)@, outcome_view(result)) == old(self)@.applied_entry(
                log_id,
                *payload,
                executed,
            ),
    {
        let step: EntryStep = match self.plan_entry(log_id.index, payload) {
            Ok(step) => step,
            Err(fault) => return Err(fault),
        };
        match step {
            EntryStep::Settled(outcome) => {
                if let EntryPayload::Membership(members) = payload {
                    let mut membership: StoredMembership = members.clone();
                    membership.log_id = Some(log_id);
                    self.membership = membership;
                }
                self.applied = Some(log_id);
                Ok(ReplicatedOutcome { outcome })
            },
            EntryStep::ExecuteStore => match (payload, executed) {
                (
                    EntryPayload::Normal(ConsensusCommand::Tablet(command)),
                    Executed::Stored(found),
                ) => {
                    if !same_bytes(&found, &command.expected) {
                        return Err(
                            StateMachineFault::Divergence {
                                index: log_id.index,
                                expected: clone_bytes(&command.expected),
                                found,
                            },
                        );
                    }
                    let answer: Vec<u8> = clone_bytes(&found);
                    self.install(log_id.index, command, found);
                    self.applied = Some(log_id);
                    Ok(ReplicatedOutcome::new(answer))
                },
                (_, Executed::StoreFailed(detail)) => Err(
                    StateMachineFault::ApplyFailed { index: log_id.index, detail },
                ),
                (_, _) => Ok(ReplicatedOutcome::none()),
            },
            EntryStep::ExecuteControl => match executed {
                Executed::Controlled(image) => {
                    self.control = image;
                    self.applied = Some(log_id);
                    Ok(ReplicatedOutcome::none())
                },
                Executed::ControlRefused(detail) => Err(
                    StateMachineFault::ControlRejected { index: log_id.index, detail },
                ),
                _ => Ok(ReplicatedOutcome::none()),
            },
        }
    }
}

fn rebuild_sessions(sessions: Vec<SessionEntry>) -> (fresh: Vec<SessionEntry>)
    ensures
        views(fresh@) == rebuilt(views(sessions@)),
{
    let mut fresh: Vec<SessionEntry> = Vec::new();
    let mut at: usize = 0;
    while at < sessions.len()
        invariant
            at <= sessions.len(),
            fresh.len() == at,
            forall|i: int|
                0 <= i < at ==> (#[trigger] fresh@[i])@ == rebuilt(views(sessions@))[i],
        decreases sessions.len() - at,
    {
        let entry: &SessionEntry = &sessions[at];
        fresh.push(
            SessionEntry {
                session: entry.session,
                state: SessionState::from_parts(
                    entry.state.floor(),
                    clone_outcomes(entry.state.outcomes()),
                ),
            },
        );
        proof {
            assert(views(sessions@)[at as int] == entry@);
        }
        at = at + 1;
    }
    proof {
        assert(views(fresh@) =~= rebuilt(views(sessions@)));
    }
    fresh
}

proof fn lemma_gathered_from(items: Seq<SessionEntryView>, i: int)
    requires
        0 <= i < gathered(items).len(),
        forall|k: int| 0 <= k < items.len() ==> (#[trigger] items[k]).state.well_formed(),
    ensures
        gathered(items)[i].state.well_formed(),
    decreases items.len(),
{
    let front = items.drop_last();
    let before = gathered(front);
    lemma_gathered(front);
    lemma_placed(before, items.last());
    assert forall|k: int| 0 <= k < front.len() implies (
    #[trigger] front[k]).state.well_formed() by {
        assert(front[k] == items[k]);
    }
    let item = gathered(items)[i];
    if before.contains(item) {
        let k = choose|k: int| 0 <= k < before.len() && before[k] == item;
        lemma_gathered_from(front, k);
    } else {
        assert(item.rank() == items.last().rank());
        lemma_gathered(items);
        lemma_ranked_at(gathered(items), i);
        assert(item == items.last());
        assert(items[items.len() - 1] == items.last());
    }
}

/// The leader's check before a proposal and the check at apply time are one: a proposal
/// is let through if and only if the committed command executes.
pub proof fn law_gate_decides_as_apply_does(state: TabletView, index: u64, command: MutationView)
    requires
        command.namespace == state.namespace,
        command.authority.tablet == state.tablet,
        command.authority == state.authority,
        !command.anonymous(),
    ensures
        ({
            let gate = state.gate(command.session, command.seq, command.ack_floor);
            let step = state.command_step(index, command);
            &&& gate == Ok::<_, FaultView>(GateView::Admit) <==> step == Ok::<_, FaultView>(
                StepView::ExecuteStore,
            )
            &&& gate == Ok::<_, FaultView>(GateView::Expired) <==> (step matches Err(
                FaultView::ExpiredIdentity { .. },
            ))
            &&& gate == Ok::<_, FaultView>(GateView::Overloaded) <==> (step matches Err(
                FaultView::SessionOverloaded { .. },
            ))
            &&& gate == Ok::<_, FaultView>(GateView::Hit { outcome: command.expected })
                <==> step == Ok::<_, FaultView>(StepView::Settled(Some(command.expected)))
        }),
{
}

proof fn lemma_session_after(
    state: TabletView,
    index: u64,
    command: MutationView,
    outcome: Seq<u8>,
    session: SessionId,
)
    requires
        state.well_formed(),
        !command.anonymous(),
    ensures
        ({
            let after = state.installed(index, command, outcome);
            let before = match state.session_of(command.session) {
                Some(held) => held,
                None => SessionView::fresh(),
            };
            let advanced = before.advanced(command.ack_floor);
            &&& session != command.session ==> after.session_of(session) == state.session_of(
                session,
            )
            &&& before.well_formed()
            &&& advanced.well_formed()
            &&& after.session_of(command.session) == Some(
                state.session_after(index, command, outcome),
            )
            &&& after.session_of(command.session) matches Some(now)
            &&& now.floor == before.floor_after(command.ack_floor)
            &&& now.well_formed()
            &&& now.outcome_of(command.seq) matches Some(kept)
            &&& kept == recorded(index, command, outcome)
            &&& forall|seq: RequestSeq|
                seq != command.seq && seq.0 > now.floor.0 ==> #[trigger] now.outcome_of(seq)
                    == before.outcome_of(seq)
            &&& now.outcomes.len() <= advanced.outcomes.len() + 1
            &&& advanced.outcomes.len() <= before.outcomes.len()
        }),
{
    let before = match state.session_of(command.session) {
        Some(held) => held,
        None => SessionView::fresh(),
    };
    lemma_ranked(state.sessions, command.session.0);
    if let Some(entry) = ranked(state.sessions, command.session.0) {
        let k = choose|k: int| 0 <= k < state.sessions.len() && state.sessions[k] == entry;
        assert(state.sessions[k].state.well_formed());
    }
    let advanced = before.advanced(command.ack_floor);
    lemma_beyond(before.outcomes, command.ack_floor.0 as u128);
    let kept = recorded(index, command, outcome);
    lemma_placed(advanced.outcomes, kept);
    let now = state.session_after(index, command, outcome);
    let entry = SessionEntryView { session: command.session, state: now };
    lemma_placed(state.sessions, entry);
    let after = state.installed(index, command, outcome);
    assert(ranked(after.sessions, command.session.0) == Some(entry));
    assert(ranked(now.outcomes, command.seq.0 as u128) == Some(kept));
    if session != command.session {
        assert(ranked(after.sessions, session.0) == ranked(state.sessions, session.0));
    }
    assert forall|seq: RequestSeq| seq != command.seq && seq.0 > now.floor.0 implies
        #[trigger] now.outcome_of(seq) == before.outcome_of(seq) by {
        assert(ranked(now.outcomes, seq.0 as u128) == ranked(advanced.outcomes, seq.0 as u128));
    }
}

/// Entries keep sessions and outcomes in order.
pub proof fn law_entries_keep_the_invariant(
    state: TabletView,
    log_id: AppliedPointer,
    payload: EntryPayload,
    executed: Executed,
)
    requires
        state.well_formed(),
        payload matches EntryPayload::Membership(members) ==> (MembershipView {
            log_id: Some(log_id),
            ..members@
        }).well_formed(),
    ensures
        state.applied_entry(log_id, payload, executed).0.well_formed(),
{
    let after = state.applied_entry(log_id, payload, executed).0;
    if state.step(log_id.index, payload) == Ok::<_, FaultView>(StepView::ExecuteStore) {
        let command = payload->Normal_0->Tablet_0@;
        if let Executed::Stored(found) = executed {
            if found@ == command.expected && !command.anonymous() {
                lemma_session_after(
                    state,
                    log_id.index,
                    command,
                    found@,
                    command.session,
                );
                let entry = SessionEntryView {
                    session: command.session,
                    state: state.session_after(log_id.index, command, found@),
                };
                lemma_placed(state.sessions, entry);
                assert(after.sessions == placed(state.sessions, entry));
                assert forall|i: int| 0 <= i < after.sessions.len() implies (
                #[trigger] after.sessions[i]).state.well_formed() by {
                    let item = after.sessions[i];
                    if item.rank() == entry.rank() {
                        lemma_ranked_at(after.sessions, i);
                    } else {
                        assert(state.sessions.contains(item));
                        let k = choose|k: int|
                            0 <= k < state.sessions.len() && state.sessions[k] == item;
                        assert(state.sessions[k].state.well_formed());
                    }
                }
            }
        }
    }
}

/// An entry that fails changes nothing, and one that is applied becomes the last applied
/// one.
pub proof fn law_entries_apply_wholly_or_not_at_all(
    state: TabletView,
    log_id: AppliedPointer,
    payload: EntryPayload,
    executed: Executed,
)
    requires
        state.answers(log_id.index, payload, executed),
    ensures
        ({
            let (after, result) = state.applied_entry(log_id, payload, executed);
            match result {
                Err(_) => after == state,
                Ok(_) => after.applied == Some(log_id) && after.commit() == commit_of(log_id.index),
            }
        }),
{
}

/// Exactly once: as long as the client has not acknowledged a request, repeating it
/// executes nothing and gives the outcome that it had the first time.
pub proof fn law_retries_return_the_original(
    state: TabletView,
    log_id: AppliedPointer,
    payload: EntryPayload,
    found: Vec<u8>,
    retry: MutationView,
    retry_index: u64,
)
    requires
        state.well_formed(),
        payload matches EntryPayload::Normal(ConsensusCommand::Tablet(command)) && {
            &&& !command@.anonymous()
            &&& command@.seq.0 > command@.ack_floor.0
            &&& retry.namespace == command@.namespace
            &&& retry.authority == command@.authority
            &&& retry.session == command@.session
            &&& retry.seq == command@.seq
            &&& retry.expected == command@.expected
            &&& retry.ack_floor.0 < command@.seq.0
        },
        state.step(log_id.index, payload) == Ok::<_, FaultView>(StepView::ExecuteStore),
        state.applied_entry(log_id, payload, Executed::Stored(found)).1 is Ok,
    ensures
        ({
            let after = state.applied_entry(log_id, payload, Executed::Stored(found)).0;
            &&& after.command_step(retry_index, retry) == Ok::<_, FaultView>(
                StepView::Settled(Some(found@)),
            )
            &&& after.gate(retry.session, retry.seq, retry.ack_floor) == Ok::<_, FaultView>(
                GateView::Hit { outcome: found@ },
            )
        }),
{
    let command = payload->Normal_0->Tablet_0@;
    lemma_session_after(state, log_id.index, command, found@, command.session);
}

/// What one session does leaves every other session as it was.
pub proof fn law_sessions_are_independent(
    state: TabletView,
    log_id: AppliedPointer,
    payload: EntryPayload,
    executed: Executed,
    session: SessionId,
)
    requires
        state.well_formed(),
        payload matches EntryPayload::Normal(ConsensusCommand::Tablet(command))
            ==> command@.session != session || command@.anonymous(),
    ensures
        state.applied_entry(log_id, payload, executed).0.session_of(session) == state.session_of(
            session,
        ),
{
    if state.step(log_id.index, payload) == Ok::<_, FaultView>(StepView::ExecuteStore) {
        let command = payload->Normal_0->Tablet_0@;
        if let Executed::Stored(found) = executed {
            if found@ == command.expected && !command.anonymous() {
                lemma_session_after(state, log_id.index, command, found@, session);
            }
        }
    }
}

/// A session that was seen stays, its floor never falls, and what it retains above the
/// floor stays as it is.
pub proof fn law_floors_never_fall(
    state: TabletView,
    log_id: AppliedPointer,
    payload: EntryPayload,
    executed: Executed,
    session: SessionId,
    seq: RequestSeq,
)
    requires
        state.well_formed(),
        state.session_of(session) is Some,
    ensures
        ({
            let before = state.session_of(session)->0;
            let after = state.applied_entry(log_id, payload, executed).0.session_of(session);
            &&& after matches Some(now)
            &&& now.floor.0 >= before.floor.0
            &&& seq.0 > now.floor.0 && before.outcome_of(seq) is Some ==> now.outcome_of(seq)
                == before.outcome_of(seq)
        }),
{
    if state.step(log_id.index, payload) == Ok::<_, FaultView>(StepView::ExecuteStore) {
        let command = payload->Normal_0->Tablet_0@;
        if let Executed::Stored(found) = executed {
            if found@ == command.expected && !command.anonymous() {
                lemma_session_after(state, log_id.index, command, found@, session);
            }
        }
    }
}

/// No session ever retains more outcomes than its cap allows.
pub proof fn law_retention_is_bounded(
    state: TabletView,
    log_id: AppliedPointer,
    payload: EntryPayload,
    executed: Executed,
    session: SessionId,
)
    requires
        state.well_formed(),
        state.session_of(session) matches Some(before) ==> before.outcomes.len()
            <= SESSION_OUTCOME_CAP && beyond(before.outcomes, before.floor.0 as u128)
            == before.outcomes,
        payload matches EntryPayload::Normal(ConsensusCommand::Tablet(command))
            ==> command@.seq.0 > command@.ack_floor.0,
    ensures
        state.applied_entry(log_id, payload, executed).0.session_of(session) matches Some(now)
            ==> now.outcomes.len() <= SESSION_OUTCOME_CAP && beyond(
            now.outcomes,
            now.floor.0 as u128,
        ) == now.outcomes,
{
    if state.step(log_id.index, payload) == Ok::<_, FaultView>(StepView::ExecuteStore) {
        let command = payload->Normal_0->Tablet_0@;
        if let Executed::Stored(found) = executed {
            if found@ == command.expected && !command.anonymous() {
                lemma_session_after(state, log_id.index, command, found@, session);
                if session == command.session {
                    let before = match state.session_of(session) {
                        Some(held) => held,
                        None => SessionView::fresh(),
                    };
                    let advanced = before.advanced(command.ack_floor);
                    let now = state.installed(log_id.index, command, found@).session_of(session)->0;
                    lemma_beyond(before.outcomes, before.floor.0 as u128);
                    lemma_beyond(before.outcomes, command.ack_floor.0 as u128);
                    assert(before.outcomes == beyond(before.outcomes, before.floor.0 as u128)
                        || state.session_of(session) is None);
                    assert(state.session_of(session) is None ==> before.outcomes.len() == 0);
                    assert forall|i: int| 0 <= i < advanced.outcomes.len() implies (
                    #[trigger] advanced.outcomes[i]).rank() > advanced.floor.0 by {}
                    let kept = recorded(log_id.index, command, found@);
                    lemma_placed(advanced.outcomes, kept);
                    lemma_ranked(now.outcomes, command.seq.0 as u128);
                    assert(now.outcomes == placed(advanced.outcomes, kept));
                    assert forall|i: int| 0 <= i < now.outcomes.len() implies (
                    #[trigger] now.outcomes[i]).rank() > now.floor.0 by {
                        let item = now.outcomes[i];
                        if item.rank() != kept.rank() {
                            let k = choose|k: int|
                                0 <= k < advanced.outcomes.len() && advanced.outcomes[k] == item;
                            assert(advanced.outcomes[k].rank() > advanced.floor.0);
                        }
                    }
                    lemma_all_beyond(now.outcomes, now.floor.0 as u128);
                }
            }
        }
    }
}

proof fn lemma_all_beyond(outcomes: Seq<RetainedView>, floor: u128)
    requires
        forall|i: int| 0 <= i < outcomes.len() ==> (#[trigger] outcomes[i]).rank() > floor,
    ensures
        beyond(outcomes, floor) == outcomes,
    decreases outcomes.len(),
{
    if outcomes.len() > 0 {
        let front = outcomes.drop_last();
        assert forall|i: int| 0 <= i < front.len() implies (#[trigger] front[i]).rank() > floor by {
            assert(front[i] == outcomes[i]);
        }
        lemma_all_beyond(front, floor);
        assert(outcomes[outcomes.len() - 1].rank() > floor);
        assert(front.push(outcomes.last()) =~= outcomes);
    }
}

/// A request without an identity always executes and is never recorded.
pub proof fn law_anonymous_commands_leave_no_trace(
    state: TabletView,
    index: u64,
    command: MutationView,
    outcome: Seq<u8>,
)
    requires
        command.anonymous(),
        command.namespace == state.namespace,
        command.authority.tablet == state.tablet,
        command.authority == state.authority,
    ensures
        state.command_step(index, command) == Ok::<_, FaultView>(StepView::ExecuteStore),
        state.installed(index, command, outcome) == state,
{
}

/// A tablet that takes over the sessions of another one answers retries as that one would:
/// what was executed there is never executed again here.
pub proof fn law_copies_answer_as_their_source(
    source: TabletView,
    target: TabletView,
    session: SessionId,
    seq: RequestSeq,
    ack_floor: RequestSeq,
    index: u64,
)
    requires
        source.well_formed(),
    ensures
        ({
            let copied = target.copied(source.sessions);
            &&& copied.sessions == source.sessions
            &&& copied.gate(session, seq, ack_floor) == source.gate(session, seq, ack_floor)
            &&& copied.retained(session, seq, ack_floor, index) == source.retained(
                session,
                seq,
                ack_floor,
                index,
            )
        }),
{
    lemma_gathered_rising(source.sessions);
    assert forall|i: int| 0 <= i < source.sessions.len() implies rebuilt(source.sessions)[i]
        == #[trigger] source.sessions[i] by {
        assert(source.sessions[i].state.well_formed());
        lemma_gathered_rising(source.sessions[i].state.outcomes);
    }
    assert(rebuilt(source.sessions) =~= source.sessions);
}

/// A read fence changes nothing but the last applied entry.
pub proof fn law_read_fences_only_order(
    state: TabletView,
    log_id: AppliedPointer,
    tablet: TabletId,
    executed: Executed,
)
    requires
        !state.controls(),
        tablet == state.tablet,
    ensures
        state.applied_entry(
            log_id,
            EntryPayload::Normal(ConsensusCommand::ReadSync { tablet }),
            executed,
        ) == (TabletView { applied: Some(log_id), ..state }, Ok::<_, FaultView>(None::<Seq<u8>>)),
{
}

/// Every membership entry replaces the members, whichever were held before: after it the
/// group has exactly the voters and nodes that the entry carries, installed by that entry.
/// Nothing else changes but the last applied entry.
pub proof fn law_members_are_those_of_the_last_change(
    state: TabletView,
    log_id: AppliedPointer,
    members: StoredMembership,
    executed: Executed,
)
    ensures
        ({
            let (after, outcome) = state.applied_entry(
                log_id,
                EntryPayload::Membership(members),
                executed,
            );
            &&& outcome == Ok::<Option<Seq<u8>>, FaultView>(None)
            &&& after.membership.log_id == Some(log_id)
            &&& after.membership.configs == members@.configs
            &&& after.membership.nodes == members@.nodes
            &&& after.applied == Some(log_id)
            &&& after.sessions == state.sessions
            &&& after.control == state.control
            &&& after.namespace == state.namespace
            &&& after.tablet == state.tablet
            &&& after.authority == state.authority
            &&& after.control_tablet == state.control_tablet
        }),
{
}

/// No other entry touches the members.
pub proof fn law_only_membership_entries_change_members(
    state: TabletView,
    log_id: AppliedPointer,
    payload: EntryPayload,
    executed: Executed,
)
    requires
        !(payload is Membership),
    ensures
        state.applied_entry(log_id, payload, executed).0.membership == state.membership,
{
}

/// What identifies a replica never changes: no entry moves it to another tablet, namespace or
/// generation.
pub proof fn law_entries_keep_the_identity(
    state: TabletView,
    log_id: AppliedPointer,
    payload: EntryPayload,
    executed: Executed,
)
    ensures
        ({
            let after = state.applied_entry(log_id, payload, executed).0;
            &&& after.namespace == state.namespace
            &&& after.tablet == state.tablet
            &&& after.authority == state.authority
            &&& after.control_tablet == state.control_tablet
        }),
{
}

/// An applied entry is the last applied one: whatever came before, the pointer is its own.
pub proof fn law_applied_entries_are_the_last(
    state: TabletView,
    log_id: AppliedPointer,
    payload: EntryPayload,
    executed: Executed,
)
    requires
        state.answers(log_id.index, payload, executed),
        state.applied_entry(log_id, payload, executed).1 is Ok,
    ensures
        state.applied_entry(log_id, payload, executed).0.applied == Some(log_id),
{
}

/// An applied control mutation installs the image that executing it gave, whichever was held
/// before, and leaves the sessions alone.
pub proof fn law_control_images_are_the_executed_ones(
    state: TabletView,
    log_id: AppliedPointer,
    mutation: Vec<u8>,
    image: Vec<u8>,
)
    requires
        state.tablet == state.control_tablet,
    ensures
        ({
            let (after, outcome) = state.applied_entry(
                log_id,
                EntryPayload::Normal(ConsensusCommand::Control(mutation)),
                Executed::Controlled(image),
            );
            &&& outcome == Ok::<Option<Seq<u8>>, FaultView>(None)
            &&& after.control == image@
            &&& after.sessions == state.sessions
            &&& after.applied == Some(log_id)
        }),
{
}

/// Groups do not take each other's commands: the control group executes no write to a
/// tablet, and a tablet no control mutation.
pub proof fn law_groups_take_their_own_commands(
    state: TabletView,
    log_id: AppliedPointer,
    command: ConsensusCommand,
    executed: Executed,
)
    requires
        (state.tablet == state.control_tablet) != (command is Control),
    ensures
        state.applied_entry(log_id, EntryPayload::Normal(command), executed).1 is Err,
{
}

/// A write is applied only where it names this replica: its namespace, its tablet and the
/// generations that it serves under.
pub proof fn law_writes_name_their_replica(
    state: TabletView,
    log_id: AppliedPointer,
    command: ReplicatedMutation,
    executed: Executed,
)
    requires
        state.applied_entry(
            log_id,
            EntryPayload::Normal(ConsensusCommand::Tablet(command)),
            executed,
        ).1 is Ok,
    ensures
        command@.namespace == state.namespace,
        command@.authority == state.authority,
        command@.authority.tablet == state.tablet,
{
}

/// A fresh write that the store executed is answered with what the store gave, and only where
/// that is what the proposer expected.
pub proof fn law_executed_writes_answer_as_expected(
    state: TabletView,
    log_id: AppliedPointer,
    command: ReplicatedMutation,
    found: Vec<u8>,
)
    requires
        state.step(
            log_id.index,
            EntryPayload::Normal(ConsensusCommand::Tablet(command)),
        ) == Ok::<StepView, FaultView>(StepView::ExecuteStore),
    ensures
        ({
            let (after, outcome) = state.applied_entry(
                log_id,
                EntryPayload::Normal(ConsensusCommand::Tablet(command)),
                Executed::Stored(found),
            );
            &&& outcome is Ok <==> found@ == command@.expected
            &&& outcome is Ok ==> outcome == Ok::<Option<Seq<u8>>, FaultView>(Some(found@))
            &&& outcome is Err ==> after == state
        }),
{
}

/// A session that was never seen is admitted. One that was seen answers nothing at or below
/// the higher of its floor and what the client acknowledged; above it, a retained outcome is
/// the answer, and what was not retained is admitted while there is room.
pub proof fn law_the_gate_reads_the_session(
    state: TabletView,
    session: SessionId,
    seq: RequestSeq,
    ack_floor: RequestSeq,
)
    requires
        state.well_formed(),
    ensures
        state.session_of(session) is None ==> state.gate(session, seq, ack_floor) == Ok::<
            GateView,
            FaultView,
        >(GateView::Admit),
        state.session_of(session) matches Some(held) ==> {
            let gate = state.gate(session, seq, ack_floor);
            let passed = seq.0 > held.floor.0 && seq.0 > ack_floor.0;
            &&& !passed <==> gate == Ok::<GateView, FaultView>(GateView::Expired)
            &&& passed && held.outcome_of(seq) is Some ==> {
                let kept = held.outcome_of(seq)->0.outcome;
                &&& kept.kind is Completed ==> gate == Ok::<GateView, FaultView>(
                    GateView::Hit { outcome: kept.bytes },
                )
                &&& !(kept.kind is Completed) ==> gate is Err
            }
            &&& passed && held.outcome_of(seq) is None && held.outcomes.len()
                < SESSION_OUTCOME_CAP ==> gate == Ok::<GateView, FaultView>(GateView::Admit)
            &&& gate == Ok::<GateView, FaultView>(GateView::Overloaded) ==> held.outcomes.len()
                >= SESSION_OUTCOME_CAP
        },
{
    if let Some(held) = state.session_of(session) {
        lemma_beyond(held.outcomes, held.floor_after(ack_floor).0 as u128);
    }
}

/// What was executed is retained as it was answered: under its sequence stand the outcome, the
/// opcode and the commit position of its entry; and the client's acknowledgement moves the
/// floor of its session and drops what lies at or below it.
pub proof fn law_executed_writes_are_retained(
    state: TabletView,
    log_id: AppliedPointer,
    command: ReplicatedMutation,
    found: Vec<u8>,
    seq: RequestSeq,
)
    requires
        state.well_formed(),
        !command@.anonymous(),
        state.step(
            log_id.index,
            EntryPayload::Normal(ConsensusCommand::Tablet(command)),
        ) == Ok::<StepView, FaultView>(StepView::ExecuteStore),
        found@ == command@.expected,
    ensures
        ({
            let after = state.applied_entry(
                log_id,
                EntryPayload::Normal(ConsensusCommand::Tablet(command)),
                Executed::Stored(found),
            ).0;
            let before = match state.session_of(command@.session) {
                Some(held) => held,
                None => SessionView::fresh(),
            };
            &&& after.session_of(command@.session) matches Some(now)
            &&& now.outcome_of(command@.seq) matches Some(kept)
            &&& kept.outcome.bytes == found@
            &&& kept.outcome.kind is Completed
            &&& kept.opcode == command@.opcode
            &&& kept.commit == commit_of(log_id.index)
            &&& now.floor.0 >= command@.ack_floor.0
            &&& now.floor.0 >= before.floor.0
            &&& now.floor == before.floor || now.floor == command@.ack_floor
            &&& seq != command@.seq && command@.ack_floor.0 > before.floor.0 && seq.0
                <= command@.ack_floor.0 ==> now.outcome_of(seq) is None
            &&& seq != command@.seq && seq.0 > now.floor.0 ==> now.outcome_of(seq)
                == before.outcome_of(seq)
        }),
{
    lemma_session_after(state, log_id.index, command@, found@, command@.session);
    let before = match state.session_of(command@.session) {
        Some(held) => held,
        None => SessionView::fresh(),
    };
    let advanced = before.advanced(command@.ack_floor);
    if state.session_of(command@.session) is Some {
        lemma_ranked(state.sessions, command@.session.0);
        let entry = ranked(state.sessions, command@.session.0)->0;
        let k = choose|k: int| 0 <= k < state.sessions.len() && state.sessions[k] == entry;
        assert(state.sessions[k].state.well_formed());
    }
    lemma_beyond(before.outcomes, command@.ack_floor.0 as u128);
    lemma_placed(advanced.outcomes, recorded(log_id.index, command@, found@));
}

/// A command that may not be applied is refused for the first thing that is wrong: the
/// replica that it names, then the authority that it was proposed under, then its
/// identity.
pub proof fn law_commands_are_refused_for_a_reason(
    state: TabletView,
    index: u64,
    command: MutationView,
)
    ensures
        ({
            let step = state.command_step(index, command);
            let routed = command.namespace == state.namespace && command.authority.tablet
                == state.tablet;
            &&& !routed ==> step == Err::<StepView, _>(
                FaultView::Misrouted {
                    namespace: command.namespace.0,
                    tablet: command.authority.tablet.0,
                    expected_namespace: state.namespace.0,
                    expected_tablet: state.tablet.0,
                },
            )
            &&& routed && command.authority != state.authority ==> step == Err::<StepView, _>(
                FaultView::AuthorityMismatch {
                    found: command.authority,
                    replica: state.authority,
                },
            )
            &&& routed && command.authority == state.authority && !command.anonymous() && (
            state.session_of(command.session) matches Some(held) && (command.seq.0
                <= held.floor.0 || command.seq.0 <= command.ack_floor.0)) ==> (step matches Err(
                FaultView::ExpiredIdentity { session, seq, index: at, .. },
            ) && session == command.session.0 && seq == command.seq.0 && at == index)
        }),
{
}

/// A retry that disagrees with what was answered the first time is refused, with both
/// answers.
pub proof fn law_diverging_retries_are_refused(
    state: TabletView,
    index: u64,
    command: MutationView,
)
    requires
        command.namespace == state.namespace,
        command.authority == state.authority,
        command.authority.tablet == state.tablet,
        !command.anonymous(),
        state.session_of(command.session) matches Some(held) && command.seq.0 > held.floor.0
            && command.seq.0 > command.ack_floor.0 && (held.outcome_of(command.seq) matches Some(
            kept,
        ) && kept.outcome.kind is Completed && kept.outcome.bytes != command.expected),
    ensures
        state.command_step(index, command) == Err::<StepView, _>(
            FaultView::DedupDivergence {
                index,
                retained: state.session_of(command.session)->0.outcome_of(
                    command.seq,
                )->0.outcome.bytes,
                expected: command.expected,
            },
        ),
{
}

/// A write whose execution failed, or gave something else than was expected, changes
/// nothing, and the fault tells which.
pub proof fn law_failed_writes_change_nothing(
    state: TabletView,
    log_id: AppliedPointer,
    command: ReplicatedMutation,
    found: Vec<u8>,
    detail: String,
)
    requires
        state.step(
            log_id.index,
            EntryPayload::Normal(ConsensusCommand::Tablet(command)),
        ) == Ok::<StepView, FaultView>(StepView::ExecuteStore),
    ensures
        state.applied_entry(
            log_id,
            EntryPayload::Normal(ConsensusCommand::Tablet(command)),
            Executed::StoreFailed(detail),
        ) == (
            state,
            Err::<Option<Seq<u8>>, _>(
                FaultView::ApplyFailed { index: log_id.index, detail: detail@ },
            ),
        ),
        found@ != command@.expected ==> state.applied_entry(
            log_id,
            EntryPayload::Normal(ConsensusCommand::Tablet(command)),
            Executed::Stored(found),
        ) == (
            state,
            Err::<Option<Seq<u8>>, _>(
                FaultView::Divergence {
                    index: log_id.index,
                    expected: command@.expected,
                    found: found@,
                },
            ),
        ),
{
}

/// A new replica has applied nothing, knows no session and has no members.
pub proof fn law_new_replicas_are_empty(
    namespace: NamespaceId,
    tablet: TabletId,
    authority: TabletAuthority,
    control_tablet: TabletId,
    session: SessionId,
)
    ensures
        ({
            let state = TabletView::empty(namespace, tablet, authority, control_tablet);
            &&& state.applied is None
            &&& state.commit().0 == 0
            &&& state.session_of(session) is None
            &&& state.membership.configs.len() == 0
            &&& state.membership.nodes.len() == 0
            &&& state.control.len() == 0
            &&& state.well_formed()
        }),
{
}

} // verus!
