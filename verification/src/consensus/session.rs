//! Replicated deduplication of one client session.
//!
//! A session keeps a floor, below which its client never retries, and the outcomes
//! above it, from which a retry is answered without executing anything again.

use crate::ids::{CommitPosition, RequestSeq, SessionId};
use crate::ranked::{
    beyond, gather, gathered, keep_beyond, lemma_beyond, ranked, rising, views, HasRank, Ranked,
};
use crate::wire::clone_bytes;
use vstd::prelude::*;

verus! {

/// The commit position of a log index: one more than the index, because position zero
/// names no log slot.
pub open spec fn commit_of(index: u64) -> CommitPosition {
    CommitPosition(
        if index < u64::MAX {
            (index + 1) as u64
        } else {
            u64::MAX
        },
    )
}

/// Converts an applied log index into its commit position.
pub fn commit_of_index(index: u64) -> (commit: CommitPosition)
    ensures
        commit == commit_of(index),
{
    CommitPosition::from_u64(index.saturating_add(1))
}

/// The log index that a commit position names, if it names one.
pub open spec fn index_of(commit: CommitPosition) -> Option<u64> {
    if commit.0 == 0 {
        None
    } else {
        Some((commit.0 - 1) as u64)
    }
}

/// Inverts [`commit_of_index`].
pub fn index_of_commit(commit: CommitPosition) -> (index: Option<u64>)
    ensures
        index == index_of(commit),
{
    if commit.as_u64() == 0 {
        None
    } else {
        Some(commit.as_u64() - 1)
    }
}

/// Positions and indexes invert each other, up to the last index, which shares its
/// position with the one before it.
pub proof fn law_commit_positions_invert(index: u64, commit: CommitPosition)
    requires
        index < u64::MAX,
    ensures
        index_of(commit_of(index)) == Some(index),
        index_of(commit) matches Some(named) ==> commit_of(named) == commit,
{
}

/// Positions keep the order of the log.
pub proof fn law_commit_positions_follow_the_log(a: u64, b: u64)
    requires
        a < b < u64::MAX,
    ensures
        commit_of(a).0 < commit_of(b).0,
        commit_of(a) != CommitPosition(0),
{
}

/// How an operation ended.
#[derive(Debug, Clone, Copy, PartialEq, Eq, Structural)]
pub enum OutcomeKind {
    /// It was executed.
    Completed,
    /// It was rejected.
    Rejected,
    /// It ran out of object versions.
    VersionExhausted,
}

/// A recorded outcome: how the operation ended, and the canonical bytes of its result.
#[derive(Debug, PartialEq, Eq)]
pub struct DurableOutcome {
    /// How the operation ended.
    pub kind: OutcomeKind,
    /// The canonical bytes of the outcome.
    pub bytes: Vec<u8>,
}

/// What a [`DurableOutcome`] says.
#[verifier::ext_equal]
pub struct DurableOutcomeView {
    pub kind: OutcomeKind,
    pub bytes: Seq<u8>,
}

impl View for DurableOutcome {
    type V = DurableOutcomeView;

    open spec fn view(&self) -> DurableOutcomeView {
        DurableOutcomeView { kind: self.kind, bytes: self.bytes@ }
    }
}

impl Clone for DurableOutcome {
    fn clone(&self) -> (copy: Self)
        ensures
            copy@ == self@,
    {
        DurableOutcome { kind: self.kind, bytes: clone_bytes(&self.bytes) }
    }
}

/// One retained outcome: enough to answer a retried identity byte for byte.
#[derive(Debug, PartialEq, Eq)]
pub struct RetainedOutcome {
    /// Sequence of the request in its session.
    pub seq: RequestSeq,
    /// Commit position that installed this outcome.
    pub commit: CommitPosition,
    /// Opcode that the request came with.
    pub opcode: u8,
    /// The recorded outcome.
    pub outcome: DurableOutcome,
}

/// What a [`RetainedOutcome`] says.
#[verifier::ext_equal]
pub struct RetainedView {
    pub seq: RequestSeq,
    pub commit: CommitPosition,
    pub opcode: u8,
    pub outcome: DurableOutcomeView,
}

impl View for RetainedOutcome {
    type V = RetainedView;

    open spec fn view(&self) -> RetainedView {
        RetainedView {
            seq: self.seq,
            commit: self.commit,
            opcode: self.opcode,
            outcome: self.outcome@,
        }
    }
}

impl Clone for RetainedOutcome {
    fn clone(&self) -> (copy: Self)
        ensures
            copy@ == self@,
    {
        RetainedOutcome {
            seq: self.seq,
            commit: self.commit,
            opcode: self.opcode,
            outcome: self.outcome.clone(),
        }
    }
}

impl Ranked for RetainedView {
    open spec fn rank(self) -> u128 {
        self.seq.0 as u128
    }
}

impl HasRank<RetainedView> for RetainedOutcome {
    fn rank_number(&self) -> u128 {
        self.seq.as_u64() as u128
    }
}

/// The deduplication state of one session.
#[derive(Debug, PartialEq, Eq)]
pub struct SessionState {
    pub(crate) floor: RequestSeq,
    pub(crate) outcomes: Vec<RetainedOutcome>,
}

/// What a [`SessionState`] says.
#[verifier::ext_equal]
pub struct SessionView {
    /// The acknowledgement floor.
    pub floor: RequestSeq,
    /// The retained outcomes, in the order of their sequences.
    pub outcomes: Seq<RetainedView>,
}

impl View for SessionState {
    type V = SessionView;

    open(crate) spec fn view(&self) -> SessionView {
        SessionView { floor: self.floor, outcomes: views(self.outcomes@) }
    }
}

impl SessionView {
    /// The state of a session that was never seen.
    pub open spec fn fresh() -> Self {
        SessionView { floor: RequestSeq(0), outcomes: Seq::empty() }
    }

    /// Sequences occur once and in order.
    pub open spec fn well_formed(self) -> bool {
        rising(self.outcomes)
    }

    /// The outcome retained for a sequence.
    pub open spec fn outcome_of(self, seq: RequestSeq) -> Option<RetainedView> {
        ranked(self.outcomes, seq.0 as u128)
    }

    /// The floor once `ack` was acknowledged.
    pub open spec fn floor_after(self, ack: RequestSeq) -> RequestSeq {
        if ack.0 > self.floor.0 {
            ack
        } else {
            self.floor
        }
    }

    /// The state once `ack` was acknowledged: outcomes up to a new floor are dropped.
    pub open spec fn advanced(self, ack: RequestSeq) -> Self {
        if ack.0 > self.floor.0 {
            SessionView { floor: ack, outcomes: beyond(self.outcomes, ack.0 as u128) }
        } else {
            self
        }
    }
}

/// Copies a list of retained outcomes.
pub fn clone_outcomes(outcomes: &Vec<RetainedOutcome>) -> (copy: Vec<RetainedOutcome>)
    ensures
        views(copy@) == views(outcomes@),
{
    let mut copy: Vec<RetainedOutcome> = Vec::new();
    let mut at: usize = 0;
    while at < outcomes.len()
        invariant
            at <= outcomes.len(),
            copy.len() == at,
            forall|i: int| 0 <= i < at ==> (#[trigger] copy@[i])@ == outcomes@[i]@,
        decreases outcomes.len() - at,
    {
        copy.push(outcomes[at].clone());
        at = at + 1;
    }
    proof {
        assert(views(copy@) =~= views(outcomes@));
    }
    copy
}

impl Default for SessionState {
    /// The state of a session that was never seen.
    fn default() -> (state: Self)
        ensures
            state@ == SessionView::fresh(),
    {
        let state: SessionState = SessionState {
            floor: RequestSeq::from_u64(0),
            outcomes: Vec::new(),
        };
        proof {
            assert(state@ =~= SessionView::fresh());
        }
        state
    }
}

impl SessionState {
    /// Advances the floor over acknowledged sequences and drops the outcomes that the
    /// client will never ask for again.
    pub fn advance_floor(&mut self, ack: RequestSeq)
        ensures
            final(self)@ == old(self)@.advanced(ack),
    {
        if ack.as_u64() > self.floor.as_u64() {
            self.floor = ack;
            keep_beyond(&mut self.outcomes, ack.as_u64() as u128);
        }
    }

    /// Returns the acknowledgement floor.
    pub fn floor(&self) -> (floor: RequestSeq)
        ensures
            floor == self@.floor,
    {
        self.floor
    }

    /// Returns the retained outcomes in the order of their sequences.
    pub fn outcomes(&self) -> (outcomes: &Vec<RetainedOutcome>)
        ensures
            views(outcomes@) == self@.outcomes,
    {
        &self.outcomes
    }

    /// Rebuilds a session from exported parts. Of two outcomes with one sequence the
    /// later one stays.
    pub fn from_parts(floor: RequestSeq, outcomes: Vec<RetainedOutcome>) -> (state: Self)
        ensures
            state@ == (SessionView { floor, outcomes: gathered(views(outcomes@)) }),
            state@.well_formed(),
    {
        SessionState { floor, outcomes: gather(outcomes) }
    }
}

impl Clone for SessionState {
    fn clone(&self) -> (copy: Self)
        ensures
            copy@ == self@,
    {
        SessionState { floor: self.floor, outcomes: clone_outcomes(&self.outcomes) }
    }
}

/// A session and its state.
#[derive(Debug, PartialEq, Eq)]
pub struct SessionEntry {
    /// The session.
    pub session: SessionId,
    /// Its state.
    pub state: SessionState,
}

/// What a [`SessionEntry`] says.
#[verifier::ext_equal]
pub struct SessionEntryView {
    pub session: SessionId,
    pub state: SessionView,
}

impl View for SessionEntry {
    type V = SessionEntryView;

    open spec fn view(&self) -> SessionEntryView {
        SessionEntryView { session: self.session, state: self.state@ }
    }
}

impl Clone for SessionEntry {
    fn clone(&self) -> (copy: Self)
        ensures
            copy@ == self@,
    {
        SessionEntry { session: self.session, state: self.state.clone() }
    }
}

impl Ranked for SessionEntryView {
    open spec fn rank(self) -> u128 {
        self.session.0
    }
}

impl HasRank<SessionEntryView> for SessionEntry {
    fn rank_number(&self) -> u128 {
        self.session.as_u128()
    }
}

/// Copies a list of sessions.
pub fn clone_sessions(sessions: &Vec<SessionEntry>) -> (copy: Vec<SessionEntry>)
    ensures
        views(copy@) == views(sessions@),
{
    let mut copy: Vec<SessionEntry> = Vec::new();
    let mut at: usize = 0;
    while at < sessions.len()
        invariant
            at <= sessions.len(),
            copy.len() == at,
            forall|i: int| 0 <= i < at ==> (#[trigger] copy@[i])@ == sessions@[i]@,
        decreases sessions.len() - at,
    {
        copy.push(sessions[at].clone());
        at = at + 1;
    }
    proof {
        assert(views(copy@) =~= views(sessions@));
    }
    copy
}

/// An acknowledgement forgets what it covers and nothing else: outcomes up to it are gone
/// and later ones are kept. The floor never falls, and an acknowledgement that is not
/// above it changes nothing.
pub proof fn law_acknowledged_outcomes_are_forgotten(
    session: SessionView,
    ack: RequestSeq,
    seq: RequestSeq,
)
    ensures
        session.advanced(ack).floor.0 >= session.floor.0,
        session.advanced(ack).floor.0 >= ack.0,
        session.advanced(ack).floor.0 == session.floor.0 || session.advanced(ack).floor.0
            == ack.0,
        session.advanced(ack).floor == session.floor_after(ack),
        ack.0 <= session.floor.0 ==> session.advanced(ack) == session,
        ack.0 > session.floor.0 && seq.0 <= ack.0 ==> session.advanced(ack).outcome_of(seq)
            is None,
        seq.0 > ack.0 ==> session.advanced(ack).outcome_of(seq) == session.outcome_of(seq),
        session.well_formed() ==> session.advanced(ack).well_formed(),
{
    lemma_beyond(session.outcomes, ack.0 as u128);
}

/// Acknowledgements may come in any order, and twice.
pub proof fn law_acknowledgements_commute(
    session: SessionView,
    first: RequestSeq,
    second: RequestSeq,
    seq: RequestSeq,
)
    ensures
        session.advanced(first).advanced(second).floor == session.advanced(second).advanced(
            first,
        ).floor,
        session.advanced(first).advanced(first).floor == session.advanced(first).floor,
        seq.0 > first.0 && seq.0 > second.0 ==> session.advanced(first).advanced(
            second,
        ).outcome_of(seq) == session.outcome_of(seq),
{
    lemma_beyond(session.outcomes, first.0 as u128);
    lemma_beyond(session.advanced(first).outcomes, second.0 as u128);
}

/// The position of an index is the next number, so that the first index has position one
/// and position zero names nothing.
pub proof fn law_positions_are_one_ahead(index: u64)
    requires
        index < u64::MAX,
    ensures
        commit_of(index).0 == index + 1,
        index_of(CommitPosition(0)) is None,
        index_of(CommitPosition((index + 1) as u64)) == Some(index),
{
}

} // verus!
