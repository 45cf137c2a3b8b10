//! Snapshots of replicated tablets.
//!
//! A tablet snapshot is the identity of the replica, its last applied entry, its members,
//! its objects in key order, its sessions, and its prepared transactions. A snapshot of
//! the control group holds the control image in place of the last three. The two kinds
//! have different magics, so that neither is ever read as the other.

use crate::consensus::applied::{
    flagged_bytes, lemma_holds_flagged, lemma_holds_pointer, pointer_at, pointer_bytes, put_flagged,
    AppliedPointer,
};
use crate::consensus::image::{
    body_of, crc32c_of, frame_image, framed, holds, law_images_read_back, lemma_holds,
    lemma_holds_byte, lemma_holds_whole, lemma_holds_split, lemma_holds_u64, unframe_image,
    unframed,
};
use crate::consensus::keyorder::{
    entries_of, in_key_order, keys_differ, law_key_order_is_canonical, sort_entries, KeyedEntry,
    KeyedView,
};
use crate::consensus::membership::{
    count_at, law_flat_members_vote_alike, law_membership_round_trip, members_at, membership_at,
    MembershipView, StoredMembership,
};
use crate::consensus::object::{Piece, Reading};
use crate::consensus::sections::{
    answered, decode_intents, decode_object_entries, decode_sessions, encode_intents,
    encode_object_entries, encode_sessions, get_size, intents_at, intents_bytes, intents_tapes,
    law_intent_questions_are_few, law_intents_round_trip, law_object_entries_round_trip,
    law_object_questions_are_few, law_session_questions_are_few, law_sessions_round_trip,
    object_entries_at, object_entries_bytes, object_entries_tapes, of_intent, put_answer,
    sessions_at, sessions_bytes, sessions_tapes, size_at, tape_of, EntryView, IntentView,
    ObjectEntry, SnapshotFlaw, SnapshotHalt, TxnIntent, MAX_SNAPSHOT_INTENTS,
};
use crate::consensus::session::{OutcomeKind, SessionEntry, SessionEntryView};
use crate::consensus::tablet::{EntryPayload, Executed, ReplicatedTablet, TabletView};
use crate::ids::{
    NamespaceId, RequestSeq, SessionId, TabletEpoch, TabletId, WriteGuardGeneration,
};
use crate::ranked::{gather, gathered, lemma_gathered, lemma_gathered_rising, rising, views};
use crate::wire::{
    copy_bytes, get_u64, group_fields, lemma_u64_field, put_bytes, put_u64, u16_bytes, u32_bytes,
    u64_at, u64_bytes,
};
use vstd::prelude::*;

verus! {

/// Magic of tablet snapshots.
pub const SNAPSHOT_MAGIC: u32 = 0x4D53_564B;

/// Version of tablet snapshots.
pub const SNAPSHOT_VERSION: u16 = 2;

/// Magic of control snapshots.
pub const CONTROL_SNAPSHOT_MAGIC: u32 = 0x4353_564B;

/// Version of control snapshots.
pub const CONTROL_SNAPSHOT_VERSION: u16 = 1;

/// What the decoders of the pieces of a snapshot said so far.
#[derive(Debug, PartialEq, Eq)]
pub struct SnapshotTapes {
    /// For each object, the readings of its pieces.
    pub objects: Vec<Vec<Reading>>,
    /// For each session, how its outcomes ended; `None` for a malformed one.
    pub sessions: Vec<Vec<Option<OutcomeKind>>>,
    /// For each prepared transaction, the readings of its pieces.
    pub intents: Vec<Vec<Reading>>,
    /// Whether the control image is sound, once that is known.
    pub control: Option<bool>,
}

/// What [`SnapshotTapes`] say.
#[verifier::ext_equal]
pub struct TapesView {
    pub objects: Seq<Seq<Reading>>,
    pub sessions: Seq<Seq<Option<OutcomeKind>>>,
    pub intents: Seq<Seq<Reading>>,
    pub control: Option<bool>,
}

impl View for SnapshotTapes {
    type V = TapesView;

    open spec fn view(&self) -> TapesView {
        TapesView {
            objects: views(self.objects@),
            sessions: views(self.sessions@),
            intents: views(self.intents@),
            control: self.control,
        }
    }
}

/// What the decoder of a piece says of it.
#[derive(Debug, Clone, Copy, PartialEq, Eq, Structural)]
pub enum PieceAnswer {
    /// How far a piece of an object or of a prepared transaction reaches.
    Read(Reading),
    /// How an outcome ended; `None` for a malformed one.
    Ended(Option<OutcomeKind>),
    /// Whether the control image is sound.
    Judged(bool),
}

impl TapesView {
    /// Nothing was read yet.
    pub open spec fn blank() -> Self {
        TapesView {
            objects: Seq::empty(),
            sessions: Seq::empty(),
            intents: Seq::empty(),
            control: None,
        }
    }

    /// The tapes with the answer to a question. An answer that the piece does not call for
    /// is passed over.
    pub open spec fn with_answer(self, piece: Piece, item: int, answer: PieceAnswer) -> Self {
        match answer {
            PieceAnswer::Judged(sound) => if piece is Control {
                TapesView { control: Some(sound), ..self }
            } else {
                self
            },
            PieceAnswer::Ended(kind) => if piece is Outcome {
                TapesView { sessions: answered(self.sessions, item, kind), ..self }
            } else {
                self
            },
            PieceAnswer::Read(reading) => match piece {
                Piece::Control => self,
                Piece::Outcome => self,
                Piece::IntentKey => TapesView {
                    intents: answered(self.intents, item, reading),
                    ..self
                },
                Piece::Expectation => TapesView {
                    intents: answered(self.intents, item, reading),
                    ..self
                },
                Piece::Write => TapesView {
                    intents: answered(self.intents, item, reading),
                    ..self
                },
                Piece::IntentVersion => TapesView {
                    intents: answered(self.intents, item, reading),
                    ..self
                },
                _ => TapesView { objects: answered(self.objects, item, reading), ..self },
            },
        }
    }
}

impl SnapshotTapes {
    /// Tapes on which nothing was read yet.
    pub fn blank() -> (tapes: Self)
        ensures
            tapes@ == TapesView::blank(),
    {
        let tapes: SnapshotTapes = SnapshotTapes {
            objects: Vec::new(),
            sessions: Vec::new(),
            intents: Vec::new(),
            control: None,
        };
        proof {
            assert(tapes@ =~= TapesView::blank());
        }
        tapes
    }

    /// Puts down the answer to a question of a decoder: for which piece of which item.
    pub fn answer(&mut self, piece: Piece, item: usize, answer: PieceAnswer)
        ensures
            final(self)@ == old(self)@.with_answer(piece, item as int, answer),
    {
        match answer {
            PieceAnswer::Judged(sound) => {
                if let Piece::Control = piece {
                    self.control = Some(sound);
                }
            },
            PieceAnswer::Ended(kind) => {
                if let Piece::Outcome = piece {
                    put_answer(&mut self.sessions, item, kind);
                }
            },
            PieceAnswer::Read(reading) => match piece {
                Piece::Control => {},
                Piece::Outcome => {},
                Piece::IntentKey => put_answer(&mut self.intents, item, reading),
                Piece::Expectation => put_answer(&mut self.intents, item, reading),
                Piece::Write => put_answer(&mut self.intents, item, reading),
                Piece::IntentVersion => put_answer(&mut self.intents, item, reading),
                _ => put_answer(&mut self.objects, item, reading),
            },
        }
    }
}

/// State decoded from a snapshot, before it is installed.
#[derive(Debug, PartialEq, Eq)]
pub struct DecodedSnapshot {
    /// Tablet generation at capture.
    pub epoch: TabletEpoch,
    /// Write-guard generation at capture.
    pub guard: WriteGuardGeneration,
    /// Last applied entry at capture.
    pub applied: Option<AppliedPointer>,
    /// Members at capture.
    pub membership: StoredMembership,
    /// Objects.
    pub objects: Vec<ObjectEntry>,
    /// Sessions.
    pub sessions: Vec<SessionEntry>,
    /// Whether the ordered index was kept.
    pub ordered_index: bool,
    /// Prepared transactions.
    pub intents: Vec<TxnIntent>,
    /// The control image; none in a tablet snapshot.
    pub control: Option<Vec<u8>>,
}

/// What a [`DecodedSnapshot`] says.
#[verifier::ext_equal]
pub struct SnapshotView {
    pub epoch: TabletEpoch,
    pub guard: WriteGuardGeneration,
    pub applied: Option<AppliedPointer>,
    pub membership: MembershipView,
    pub objects: Seq<EntryView>,
    pub sessions: Seq<SessionEntryView>,
    pub ordered_index: bool,
    pub intents: Seq<IntentView>,
    pub control: Option<Seq<u8>>,
}

impl View for DecodedSnapshot {
    type V = SnapshotView;

    open spec fn view(&self) -> SnapshotView {
        SnapshotView {
            epoch: self.epoch,
            guard: self.guard,
            applied: self.applied,
            membership: self.membership@,
            objects: views(self.objects@),
            sessions: views(self.sessions@),
            ordered_index: self.ordered_index,
            intents: views(self.intents@),
            control: match self.control {
                Some(image) => Some(image@),
                None => None,
            },
        }
    }
}

/// The last applied entry that three words stand for: none where all are zero.
pub open spec fn applied_of(pointer: AppliedPointer) -> Option<AppliedPointer> {
    if pointer.term == 0 && pointer.leader == 0 && pointer.index == 0 {
        None
    } else {
        Some(pointer)
    }
}

/// The three words that stand for a last applied entry.
pub open spec fn words_of(applied: Option<AppliedPointer>) -> AppliedPointer {
    match applied {
        Some(pointer) => pointer,
        None => AppliedPointer { term: 0, leader: 0, index: 0 },
    }
}

/// The head of a tablet snapshot.
#[derive(Debug, Clone, Copy, PartialEq, Eq, Structural)]
pub struct SnapshotHead {
    /// Tablet generation.
    pub epoch: TabletEpoch,
    /// Write-guard generation.
    pub guard: WriteGuardGeneration,
    /// Last applied entry.
    pub applied: Option<AppliedPointer>,
    /// Log entry that installed the members.
    pub membership_log: Option<AppliedPointer>,
}

/// The replica that a body names first, which must be the expected one.
pub open spec fn routed(body: Seq<u8>, namespace: NamespaceId, tablet: TabletId) -> Result<
    (),
    SnapshotHalt,
> {
    if body.len() < 16 {
        Err(SnapshotHalt::Corrupt(SnapshotFlaw::Truncated))
    } else if u64_at(body, 0) != namespace.0 || u64_at(body, 8) != tablet.0 {
        Err(
            SnapshotHalt::Misrouted {
                namespace: u64_at(body, 0),
                tablet: u64_at(body, 8),
                expected_namespace: namespace.0,
                expected_tablet: tablet.0,
            },
        )
    } else {
        Ok(())
    }
}

/// The head of a tablet snapshot's body and where it ends.
pub open spec fn head_of(body: Seq<u8>, namespace: NamespaceId, tablet: TabletId) -> Result<
    (SnapshotHead, int),
    SnapshotHalt,
> {
    match routed(body, namespace, tablet) {
        Err(halt) => Err(halt),
        Ok(_) => if body.len() < 57 {
            Err(SnapshotHalt::Corrupt(SnapshotFlaw::Truncated))
        } else if body[56] > 1 {
            Err(SnapshotHalt::Corrupt(SnapshotFlaw::MembershipTag))
        } else if body[56] == 1 && body.len() < 81 {
            Err(SnapshotHalt::Corrupt(SnapshotFlaw::Truncated))
        } else {
            Ok(
                (
                    SnapshotHead {
                        epoch: TabletEpoch(u64_at(body, 16)),
                        guard: WriteGuardGeneration(u64_at(body, 24)),
                        applied: applied_of(pointer_at(body, 32)),
                        membership_log: if body[56] == 1 {
                            Some(pointer_at(body, 57))
                        } else {
                            None
                        },
                    },
                    if body[56] == 1 {
                        81
                    } else {
                        57
                    },
                ),
            )
        },
    }
}

/// The members at `at` and where they end.
pub open spec fn members_of(body: Seq<u8>, at: int, log_id: Option<AppliedPointer>) -> Result<
    (MembershipView, int),
    SnapshotHalt,
> {
    match membership_at(body, at, log_id) {
        Err(fault) => Err(SnapshotHalt::Corrupt(SnapshotFlaw::Membership(fault))),
        Ok((membership, next)) => Ok((membership, next)),
    }
}

/// The objects at `at`, behind their number, and where they end.
pub open spec fn objects_of(body: Seq<u8>, at: int, tapes: Seq<Seq<Reading>>) -> Result<
    (Seq<EntryView>, int),
    SnapshotHalt,
> {
    match size_at(body, at) {
        Err(halt) => Err(halt),
        Ok((count, here)) => object_entries_at(body, here, count as nat, tapes),
    }
}

/// The sessions at `at`, behind their number, and where they end.
pub open spec fn sessions_of(
    body: Seq<u8>,
    at: int,
    tapes: Seq<Seq<Option<OutcomeKind>>>,
) -> Result<(Seq<SessionEntryView>, int), SnapshotHalt> {
    match size_at(body, at) {
        Err(halt) => Err(halt),
        Ok((count, here)) => sessions_at(body, here, count as nat, tapes),
    }
}

/// The flag of the ordered index at `at` and where it ends.
pub open spec fn ordered_of(body: Seq<u8>, at: int) -> Result<(bool, int), SnapshotHalt> {
    if at >= body.len() {
        Err(SnapshotHalt::Corrupt(SnapshotFlaw::Truncated))
    } else if body[at] > 1 {
        Err(SnapshotHalt::Corrupt(SnapshotFlaw::OrderedIndexTag))
    } else {
        Ok((body[at] == 1, at + 1))
    }
}

/// The prepared transactions at `at`, behind their number, and where they end.
pub open spec fn intents_of(body: Seq<u8>, at: int, tapes: Seq<Seq<Reading>>) -> Result<
    (Seq<IntentView>, int),
    SnapshotHalt,
> {
    match size_at(body, at) {
        Err(halt) => Err(halt),
        Ok((count, here)) => if count > MAX_SNAPSHOT_INTENTS {
            Err(SnapshotHalt::Corrupt(SnapshotFlaw::IntentCount))
        } else {
            intents_at(body, here, count as nat, tapes)
        },
    }
}

/// The snapshot with the given tablet body, or why there is none.
pub open spec fn tablet_snapshot(
    body: Seq<u8>,
    namespace: NamespaceId,
    tablet: TabletId,
    tapes: TapesView,
) -> Result<SnapshotView, SnapshotHalt> {
    match head_of(body, namespace, tablet) {
        Err(halt) => Err(halt),
        Ok((head, p1)) => match members_of(body, p1, head.membership_log) {
            Err(halt) => Err(halt),
            Ok((membership, p2)) => match objects_of(body, p2, tapes.objects) {
                Err(halt) => Err(halt),
                Ok((objects, p3)) => match sessions_of(body, p3, tapes.sessions) {
                    Err(halt) => Err(halt),
                    Ok((sessions, p4)) => match ordered_of(body, p4) {
                        Err(halt) => Err(halt),
                        Ok((ordered_index, p5)) => match intents_of(body, p5, tapes.intents) {
                            Err(halt) => Err(halt),
                            Ok((intents, end)) => if end != body.len() {
                                Err(SnapshotHalt::Corrupt(SnapshotFlaw::TrailingBytes))
                            } else {
                                Ok(
                                    SnapshotView {
                                        epoch: head.epoch,
                                        guard: head.guard,
                                        applied: head.applied,
                                        membership,
                                        objects,
                                        sessions,
                                        ordered_index,
                                        intents,
                                        control: None,
                                    },
                                )
                            },
                        },
                    },
                },
            },
        },
    }
}

/// The log entry that installed the members of a control snapshot, and where it ends.
pub open spec fn control_log_of(body: Seq<u8>) -> Result<
    (Option<AppliedPointer>, int),
    SnapshotHalt,
> {
    if body.len() < 41 {
        Err(SnapshotHalt::Corrupt(SnapshotFlaw::Truncated))
    } else if body[40] == 0 {
        Ok((None, 41))
    } else if body.len() < 65 {
        Err(SnapshotHalt::Corrupt(SnapshotFlaw::Truncated))
    } else {
        Ok((Some(pointer_at(body, 41)), 65))
    }
}

/// The snapshot with the given control body, or why there is none.
pub open spec fn control_snapshot(
    body: Seq<u8>,
    namespace: NamespaceId,
    tablet: TabletId,
    sound: Option<bool>,
) -> Result<SnapshotView, SnapshotHalt> {
    match routed(body, namespace, tablet) {
        Err(halt) => Err(halt),
        Ok(_) => match control_log_of(body) {
            Err(halt) => Err(halt),
            Ok((log_id, p1)) => match members_of(body, p1, log_id) {
                Err(halt) => Err(halt),
                Ok((membership, p2)) => match size_at(body, p2) {
                    Err(halt) => Err(halt),
                    Ok((len, p3)) => if p3 + len > body.len() {
                        Err(SnapshotHalt::Corrupt(SnapshotFlaw::Truncated))
                    } else if p3 + len != body.len() {
                        Err(SnapshotHalt::Corrupt(SnapshotFlaw::TrailingBytes))
                    } else {
                        match sound {
                            None => Err(
                                SnapshotHalt::Pending {
                                    piece: Piece::Control,
                                    at: p3 as usize,
                                    item: 0,
                                },
                            ),
                            Some(false) => Err(SnapshotHalt::Corrupt(SnapshotFlaw::ControlImage)),
                            Some(true) => Ok(
                                SnapshotView {
                                    epoch: TabletEpoch(1),
                                    guard: WriteGuardGeneration(1),
                                    applied: applied_of(pointer_at(body, 16)),
                                    membership,
                                    objects: Seq::empty(),
                                    sessions: Seq::empty(),
                                    ordered_index: false,
                                    intents: Seq::empty(),
                                    control: Some(body.subrange(p3, p3 + len)),
                                },
                            ),
                        }
                    },
                },
            },
        },
    }
}

/// The snapshot in an image whose body has the checksum `computed`, or why there is none.
pub open spec fn snapshot_of(
    image: Seq<u8>,
    namespace: NamespaceId,
    tablet: TabletId,
    control_tablet: TabletId,
    tapes: TapesView,
    computed: u32,
) -> Result<SnapshotView, SnapshotHalt> {
    if tablet == control_tablet {
        match unframed(image, CONTROL_SNAPSHOT_MAGIC, CONTROL_SNAPSHOT_VERSION, computed) {
            Err(fault) => Err(SnapshotHalt::Corrupt(SnapshotFlaw::Framing(fault))),
            Ok(body) => control_snapshot(body, namespace, tablet, tapes.control),
        }
    } else {
        match unframed(image, SNAPSHOT_MAGIC, SNAPSHOT_VERSION, computed) {
            Err(fault) => Err(SnapshotHalt::Corrupt(SnapshotFlaw::Framing(fault))),
            Ok(body) => tablet_snapshot(body, namespace, tablet, tapes),
        }
    }
}

/// A result by the view of its value.
pub open spec fn decoded_view(result: Result<DecodedSnapshot, SnapshotHalt>) -> Result<
    SnapshotView,
    SnapshotHalt,
> {
    match result {
        Ok(snapshot) => Ok(snapshot@),
        Err(halt) => Err(halt),
    }
}

/// Whether a snapshot can be installed: members make a group, and outcomes are in order.
pub open spec fn installable(snapshot: SnapshotView) -> bool {
    &&& snapshot.membership.well_formed()
    &&& forall|i: int|
        0 <= i < snapshot.sessions.len() ==> (#[trigger] snapshot.sessions[i]).state.well_formed()
}

fn check_route(body: &[u8], namespace: NamespaceId, tablet: TabletId) -> (result: Result<
    (),
    SnapshotHalt,
>)
    ensures
        result == routed(body@, namespace, tablet),
{
    if body.len() < 16 {
        return Err(SnapshotHalt::Corrupt(SnapshotFlaw::Truncated));
    }
    let found_namespace: u64 = get_u64(body, 0);
    let found_tablet: u64 = get_u64(body, 8);
    if found_namespace != namespace.as_u64() || found_tablet != tablet.as_u64() {
        return Err(
            SnapshotHalt::Misrouted {
                namespace: found_namespace,
                tablet: found_tablet,
                expected_namespace: namespace.as_u64(),
                expected_tablet: tablet.as_u64(),
            },
        );
    }
    Ok(())
}

fn get_applied(body: &[u8], at: usize) -> (applied: Option<AppliedPointer>)
    requires
        at + 24 <= body.len(),
    ensures
        applied == applied_of(pointer_at(body@, at as int)),
{
    let pointer: AppliedPointer = AppliedPointer::decode(body, at);
    if pointer.term == 0 && pointer.leader == 0 && pointer.index == 0 {
        None
    } else {
        Some(pointer)
    }
}

/// Decodes the head of a tablet snapshot's body and says where it ends.
pub fn decode_snapshot_head(body: &[u8], namespace: NamespaceId, tablet: TabletId) -> (result:
    Result<(SnapshotHead, usize), SnapshotHalt>)
    ensures
        match result {
            Ok((head, next)) => head_of(body@, namespace, tablet) == Ok::<_, SnapshotHalt>(
                (head, next as int),
            ) && next <= body.len(),
            Err(halt) => head_of(body@, namespace, tablet) == Err::<(SnapshotHead, int), _>(halt),
        },
{
    if let Err(halt) = check_route(body, namespace, tablet) {
        return Err(halt);
    }
    if body.len() < 57 {
        return Err(SnapshotHalt::Corrupt(SnapshotFlaw::Truncated));
    }
    if body[56] > 1 {
        return Err(SnapshotHalt::Corrupt(SnapshotFlaw::MembershipTag));
    }
    let flagged: bool = body[56] == 1;
    if flagged && body.len() < 81 {
        return Err(SnapshotHalt::Corrupt(SnapshotFlaw::Truncated));
    }
    let head: SnapshotHead = SnapshotHead {
        epoch: TabletEpoch::from_u64(get_u64(body, 16)),
        guard: WriteGuardGeneration::from_u64(get_u64(body, 24)),
        applied: get_applied(body, 32),
        membership_log: if flagged {
            Some(AppliedPointer::decode(body, 57))
        } else {
            None
        },
    };
    Ok(
        (
            head,
            if flagged {
                81
            } else {
                57
            },
        ),
    )
}

fn decode_members(body: &[u8], at: usize, log_id: Option<AppliedPointer>) -> (result: Result<
    (StoredMembership, usize),
    SnapshotHalt,
>)
    requires
        at <= body.len(),
    ensures
        match result {
            Ok((membership, next)) => members_of(body@, at as int, log_id) == Ok::<
                _,
                SnapshotHalt,
            >((membership@, next as int)) && next <= body.len() && membership@.well_formed(),
            Err(halt) => members_of(body@, at as int, log_id) == Err::<(MembershipView, int), _>(
                halt,
            ),
        },
{
    match StoredMembership::decode(body, at, log_id) {
        Ok(found) => Ok(found),
        Err(fault) => Err(SnapshotHalt::Corrupt(SnapshotFlaw::Membership(fault))),
    }
}

/// Decodes the objects at `at`, behind their number.
pub fn decode_snapshot_objects(body: &[u8], at: usize, tapes: &Vec<Vec<Reading>>) -> (taken: Result<
    (Vec<ObjectEntry>, usize),
    SnapshotHalt,
>)
    requires
        at <= body.len(),
    ensures
        match taken {
            Ok((objects, next)) => objects_of(body@, at as int, views(tapes@)) == Ok::<
                _,
                SnapshotHalt,
            >((views(objects@), next as int)) && next <= body.len(),
            Err(halt) => objects_of(body@, at as int, views(tapes@)) == Err::<
                (Seq<EntryView>, int),
                _,
            >(halt),
        },
{
    match get_size(body, at) {
        Err(halt) => Err(halt),
        Ok((count, here)) => decode_object_entries(body, here, count, tapes),
    }
}

/// Decodes the sessions at `at`, behind their number.
pub fn decode_snapshot_sessions(
    body: &[u8],
    at: usize,
    tapes: &Vec<Vec<Option<OutcomeKind>>>,
) -> (taken: Result<(Vec<SessionEntry>, usize), SnapshotHalt>)
    requires
        at <= body.len(),
    ensures
        match taken {
            Ok((sessions, next)) => sessions_of(body@, at as int, views(tapes@)) == Ok::<
                _,
                SnapshotHalt,
            >((views(sessions@), next as int)) && next <= body.len() && forall|i: int|
                0 <= i < sessions.len() ==> (#[trigger] sessions@[i])@.state.well_formed(),
            Err(halt) => sessions_of(body@, at as int, views(tapes@)) == Err::<
                (Seq<SessionEntryView>, int),
                _,
            >(halt),
        },
{
    match get_size(body, at) {
        Err(halt) => Err(halt),
        Ok((count, here)) => decode_sessions(body, here, count, tapes),
    }
}

/// Decodes the prepared transactions at `at`, behind their number.
pub fn decode_snapshot_intents(body: &[u8], at: usize, tapes: &Vec<Vec<Reading>>) -> (taken: Result<
    (Vec<TxnIntent>, usize),
    SnapshotHalt,
>)
    requires
        at <= body.len(),
    ensures
        match taken {
            Ok((intents, next)) => intents_of(body@, at as int, views(tapes@)) == Ok::<
                _,
                SnapshotHalt,
            >((views(intents@), next as int)) && next <= body.len(),
            Err(halt) => intents_of(body@, at as int, views(tapes@)) == Err::<
                (Seq<IntentView>, int),
                _,
            >(halt),
        },
{
    match get_size(body, at) {
        Err(halt) => Err(halt),
        Ok((count, here)) => {
            if count as u64 > MAX_SNAPSHOT_INTENTS {
                Err(SnapshotHalt::Corrupt(SnapshotFlaw::IntentCount))
            } else {
                decode_intents(body, here, count, tapes)
            }
        },
    }
}

fn decode_ordered(body: &[u8], at: usize) -> (taken: Result<(bool, usize), SnapshotHalt>)
    requires
        at <= body.len(),
    ensures
        match taken {
            Ok((ordered, next)) => ordered_of(body@, at as int) == Ok::<_, SnapshotHalt>(
                (ordered, next as int),
            ) && next <= body.len(),
            Err(halt) => ordered_of(body@, at as int) == Err::<(bool, int), _>(halt),
        },
{
    if at >= body.len() {
        return Err(SnapshotHalt::Corrupt(SnapshotFlaw::Truncated));
    }
    if body[at] > 1 {
        return Err(SnapshotHalt::Corrupt(SnapshotFlaw::OrderedIndexTag));
    }
    Ok((body[at] == 1, at + 1))
}

/// Decodes the body of a tablet snapshot.
pub fn decode_tablet_body(
    body: &[u8],
    namespace: NamespaceId,
    tablet: TabletId,
    tapes: &SnapshotTapes,
) -> (result: Result<DecodedSnapshot, SnapshotHalt>)
    ensures
        decoded_view(result) == tablet_snapshot(body@, namespace, tablet, tapes@),
        result matches Ok(snapshot) ==> installable(snapshot@),
{
    let (head, p1): (SnapshotHead, usize) = match decode_snapshot_head(body, namespace, tablet) {
        Ok(found) => found,
        Err(halt) => return Err(halt),
    };
    let (membership, p2): (StoredMembership, usize) = match decode_members(
        body,
        p1,
        head.membership_log,
    ) {
        Ok(found) => found,
        Err(halt) => return Err(halt),
    };
    let (objects, p3): (Vec<ObjectEntry>, usize) = match decode_snapshot_objects(
        body,
        p2,
        &tapes.objects,
    ) {
        Ok(found) => found,
        Err(halt) => return Err(halt),
    };
    let (sessions, p4): (Vec<SessionEntry>, usize) = match decode_snapshot_sessions(
        body,
        p3,
        &tapes.sessions,
    ) {
        Ok(found) => found,
        Err(halt) => return Err(halt),
    };
    let (ordered_index, p5): (bool, usize) = match decode_ordered(body, p4) {
        Ok(found) => found,
        Err(halt) => return Err(halt),
    };
    let (intents, end): (Vec<TxnIntent>, usize) = match decode_snapshot_intents(
        body,
        p5,
        &tapes.intents,
    ) {
        Ok(found) => found,
        Err(halt) => return Err(halt),
    };
    if end != body.len() {
        return Err(SnapshotHalt::Corrupt(SnapshotFlaw::TrailingBytes));
    }
    Ok(
        DecodedSnapshot {
            epoch: head.epoch,
            guard: head.guard,
            applied: head.applied,
            membership,
            objects,
            sessions,
            ordered_index,
            intents,
            control: None,
        },
    )
}

fn decode_control_log(body: &[u8]) -> (taken: Result<(Option<AppliedPointer>, usize), SnapshotHalt>)
    ensures
        match taken {
            Ok((log_id, next)) => control_log_of(body@) == Ok::<_, SnapshotHalt>(
                (log_id, next as int),
            ) && 41 <= next <= body.len(),
            Err(halt) => control_log_of(body@) == Err::<(Option<AppliedPointer>, int), _>(halt),
        },
{
    if body.len() < 41 {
        return Err(SnapshotHalt::Corrupt(SnapshotFlaw::Truncated));
    }
    if body[40] == 0 {
        return Ok((None, 41));
    }
    if body.len() < 65 {
        return Err(SnapshotHalt::Corrupt(SnapshotFlaw::Truncated));
    }
    Ok((Some(AppliedPointer::decode(body, 41)), 65))
}

/// Decodes the body of a control snapshot.
pub fn decode_control_body(
    body: &[u8],
    namespace: NamespaceId,
    tablet: TabletId,
    sound: Option<bool>,
) -> (result: Result<DecodedSnapshot, SnapshotHalt>)
    ensures
        decoded_view(result) == control_snapshot(body@, namespace, tablet, sound),
        result matches Ok(snapshot) ==> installable(snapshot@),
{
    if let Err(halt) = check_route(body, namespace, tablet) {
        return Err(halt);
    }
    let (log_id, p1): (Option<AppliedPointer>, usize) = match decode_control_log(body) {
        Ok(found) => found,
        Err(halt) => return Err(halt),
    };
    let (membership, p2): (StoredMembership, usize) = match decode_members(body, p1, log_id) {
        Ok(found) => found,
        Err(halt) => return Err(halt),
    };
    let (len, p3): (usize, usize) = match get_size(body, p2) {
        Ok(found) => found,
        Err(halt) => return Err(halt),
    };
    if len > body.len() - p3 {
        return Err(SnapshotHalt::Corrupt(SnapshotFlaw::Truncated));
    }
    if p3 + len != body.len() {
        return Err(SnapshotHalt::Corrupt(SnapshotFlaw::TrailingBytes));
    }
    match sound {
        None => Err(SnapshotHalt::Pending { piece: Piece::Control, at: p3, item: 0 }),
        Some(false) => Err(SnapshotHalt::Corrupt(SnapshotFlaw::ControlImage)),
        Some(true) => {
            let snapshot: DecodedSnapshot = DecodedSnapshot {
                epoch: TabletEpoch::initial(),
                guard: WriteGuardGeneration::initial(),
                applied: get_applied(body, 16),
                membership,
                objects: Vec::new(),
                sessions: Vec::new(),
                ordered_index: false,
                intents: Vec::new(),
                control: Some(copy_bytes(body, p3, p3 + len)),
            };
            proof {
                assert(snapshot@.objects =~= Seq::empty());
                assert(snapshot@.sessions =~= Seq::empty());
                assert(snapshot@.intents =~= Seq::empty());
            }
            Ok(snapshot)
        },
    }
}

/// The canonical bytes of a tablet snapshot's head.
pub open spec fn head_bytes(state: TabletView) -> Seq<u8> {
    u64_bytes(state.namespace.0) + u64_bytes(state.tablet.0) + u64_bytes(state.authority.epoch.0)
        + u64_bytes(state.authority.guard.0) + pointer_bytes(words_of(state.applied))
        + flagged_bytes(state.membership.log_id)
}

/// The byte of a flag.
pub open spec fn flag_byte(flag: bool) -> u8 {
    if flag {
        1
    } else {
        0
    }
}

/// The canonical bytes of what follows the head.
pub open spec fn rest_bytes(
    state: TabletView,
    objects: Seq<EntryView>,
    ordered_index: bool,
    intents: Seq<IntentView>,
) -> Seq<u8> {
    state.membership.encoded() + u64_bytes(objects.len() as u64) + object_entries_bytes(objects)
        + u64_bytes(state.sessions.len() as u64) + sessions_bytes(state.sessions) + seq![
        flag_byte(ordered_index),
    ] + u64_bytes(intents.len() as u64) + intents_bytes(intents)
}

/// The canonical bytes of a tablet snapshot's body.
pub open spec fn tablet_body(
    state: TabletView,
    objects: Seq<EntryView>,
    ordered_index: bool,
    intents: Seq<IntentView>,
) -> Seq<u8> {
    head_bytes(state) + rest_bytes(state, objects, ordered_index, intents)
}

/// The canonical bytes of a control snapshot's body.
pub open spec fn control_body(state: TabletView) -> Seq<u8> {
    u64_bytes(state.namespace.0) + u64_bytes(state.tablet.0) + pointer_bytes(
        words_of(state.applied),
    ) + flagged_bytes(state.membership.log_id) + state.membership.encoded() + u64_bytes(
        state.control.len() as u64,
    ) + state.control
}

/// The image of a replica's snapshot, by the kind of its group.
pub open spec fn snapshot_image(
    state: TabletView,
    objects: Seq<EntryView>,
    ordered_index: bool,
    intents: Seq<IntentView>,
) -> Seq<u8> {
    if state.controls() {
        let body = control_body(state);
        framed(CONTROL_SNAPSHOT_MAGIC, CONTROL_SNAPSHOT_VERSION, body, crc32c_of(body))
    } else {
        let body = tablet_body(state, objects, ordered_index, intents);
        framed(SNAPSHOT_MAGIC, SNAPSHOT_VERSION, body, crc32c_of(body))
    }
}

impl TabletView {
    /// The state as a snapshot tells it: with flat members.
    pub open spec fn stored(self) -> Self {
        TabletView { membership: self.membership.flat(), ..self }
    }

    /// The state after a snapshot was installed. A control snapshot leaves the sessions.
    pub open spec fn restored(self, snapshot: SnapshotView) -> Self {
        match snapshot.control {
            Some(image) => TabletView {
                control: image,
                applied: snapshot.applied,
                membership: snapshot.membership,
                ..self
            },
            None => TabletView {
                sessions: gathered(snapshot.sessions),
                applied: snapshot.applied,
                membership: snapshot.membership,
                ..self
            },
        }
    }

    /// What the snapshot of this state says.
    pub open spec fn snapshot(
        self,
        objects: Seq<EntryView>,
        ordered_index: bool,
        intents: Seq<IntentView>,
    ) -> SnapshotView {
        if self.controls() {
            SnapshotView {
                epoch: TabletEpoch(1),
                guard: WriteGuardGeneration(1),
                applied: self.applied,
                membership: self.membership.flat(),
                objects: Seq::empty(),
                sessions: Seq::empty(),
                ordered_index: false,
                intents: Seq::empty(),
                control: Some(self.control),
            }
        } else {
            SnapshotView {
                epoch: self.authority.epoch,
                guard: self.authority.guard,
                applied: self.applied,
                membership: self.membership.flat(),
                objects,
                sessions: self.sessions,
                ordered_index,
                intents,
                control: None,
            }
        }
    }
}

/// What is read for the snapshot of a state.
pub open spec fn snapshot_tapes(
    state: TabletView,
    objects: Seq<EntryView>,
    intents: Seq<IntentView>,
) -> TapesView {
    TapesView {
        objects: object_entries_tapes(objects),
        sessions: sessions_tapes(state.sessions),
        intents: intents_tapes(intents),
        control: Some(true),
    }
}

impl ReplicatedTablet {
    /// Encodes the body of a tablet snapshot, with the objects in the order of their keys.
    pub fn encode_snapshot_body(
        &self,
        objects: Vec<KeyedEntry>,
        ordered_index: bool,
        intents: &Vec<TxnIntent>,
    ) -> (body: Vec<u8>)
        ensures
            body@ == tablet_body(
                self@,
                entries_of(in_key_order(views(objects@))),
                ordered_index,
                views(intents@),
            ),
    {
        let entries: Vec<ObjectEntry> = sort_entries(objects);
        let mut body: Vec<u8> = Vec::new();
        put_u64(&mut body, self.namespace.as_u64());
        put_u64(&mut body, self.tablet.as_u64());
        put_u64(&mut body, self.authority.epoch.as_u64());
        put_u64(&mut body, self.authority.guard.as_u64());
        let applied: AppliedPointer = match self.applied {
            Some(pointer) => pointer,
            None => AppliedPointer::new(0, 0, 0),
        };
        applied.encode(&mut body);
        put_flagged(&mut body, self.membership.log_id);
        self.membership.encode(&mut body);
        put_u64(&mut body, entries.len() as u64);
        encode_object_entries(&mut body, &entries);
        put_u64(&mut body, self.sessions.len() as u64);
        encode_sessions(&mut body, &self.sessions);
        let flag: u8 = if ordered_index {
            1
        } else {
            0
        };
        body.push(flag);
        put_u64(&mut body, intents.len() as u64);
        encode_intents(&mut body, intents);
        proof {
            assert(body@ =~= tablet_body(self@, views(entries@), ordered_index, views(intents@)));
        }
        body
    }

    /// Encodes the body of a control snapshot.
    pub fn encode_control_body(&self) -> (body: Vec<u8>)
        ensures
            body@ == control_body(self@),
    {
        let mut body: Vec<u8> = Vec::new();
        put_u64(&mut body, self.namespace.as_u64());
        put_u64(&mut body, self.tablet.as_u64());
        let applied: AppliedPointer = match self.applied {
            Some(pointer) => pointer,
            None => AppliedPointer::new(0, 0, 0),
        };
        applied.encode(&mut body);
        put_flagged(&mut body, self.membership.log_id);
        self.membership.encode(&mut body);
        put_u64(&mut body, self.control.len() as u64);
        put_bytes(&mut body, &self.control);
        proof {
            assert(body@ =~= control_body(self@));
        }
        body
    }

    /// Encodes the snapshot image of this replica. The objects may come in any order.
    pub fn encode_snapshot(
        &self,
        objects: Vec<KeyedEntry>,
        ordered_index: bool,
        intents: &Vec<TxnIntent>,
    ) -> (image: Vec<u8>)
        ensures
            image@ == snapshot_image(
                self@,
                entries_of(in_key_order(views(objects@))),
                ordered_index,
                views(intents@),
            ),
    {
        if self.is_control() {
            frame_image(
                CONTROL_SNAPSHOT_MAGIC,
                CONTROL_SNAPSHOT_VERSION,
                &self.encode_control_body(),
            )
        } else {
            frame_image(
                SNAPSHOT_MAGIC,
                SNAPSHOT_VERSION,
                &self.encode_snapshot_body(objects, ordered_index, intents),
            )
        }
    }

    /// Decodes a snapshot image of the given replica.
    pub fn decode_snapshot(
        image: &[u8],
        namespace: NamespaceId,
        tablet: TabletId,
        control_tablet: TabletId,
        tapes: &SnapshotTapes,
    ) -> (result: Result<DecodedSnapshot, SnapshotHalt>)
        ensures
            decoded_view(result) == snapshot_of(
                image@,
                namespace,
                tablet,
                control_tablet,
                tapes@,
                crc32c_of(body_of(image@)),
            ),
            result matches Ok(snapshot) ==> installable(snapshot@),
    {
        if tablet == control_tablet {
            match unframe_image(image, CONTROL_SNAPSHOT_MAGIC, CONTROL_SNAPSHOT_VERSION) {
                Err(fault) => Err(SnapshotHalt::Corrupt(SnapshotFlaw::Framing(fault))),
                Ok(body) => decode_control_body(body, namespace, tablet, tapes.control),
            }
        } else {
            match unframe_image(image, SNAPSHOT_MAGIC, SNAPSHOT_VERSION) {
                Err(fault) => Err(SnapshotHalt::Corrupt(SnapshotFlaw::Framing(fault))),
                Ok(body) => decode_tablet_body(body, namespace, tablet, tapes),
            }
        }
    }

    /// Installs a decoded snapshot and returns what belongs to the object store: the
    /// objects, the prepared transactions and whether the ordered index is kept. A control
    /// snapshot has nothing for it.
    pub fn install_decoded(&mut self, snapshot: DecodedSnapshot) -> (store: Option<
        (Vec<ObjectEntry>, Vec<TxnIntent>, bool),
    >)
        requires
            installable(snapshot@),
        ensures
            final(self)@ == old(self)@.restored(snapshot@),
            match store {
                Some((objects, intents, ordered)) => snapshot@.control is None && views(objects@)
                    == snapshot@.objects && views(intents@) == snapshot@.intents && ordered
                    == snapshot@.ordered_index,
                None => snapshot@.control is Some,
            },
    {
        self.applied = snapshot.applied;
        self.membership = snapshot.membership;
        match snapshot.control {
            Some(image) => {
                self.control = image;
                None
            },
            None => {
                self.sessions = gather(snapshot.sessions);
                Some((snapshot.objects, snapshot.intents, snapshot.ordered_index))
            },
        }
    }
}

/// Whether the parts of a snapshot fit their fields.
pub open spec fn snapshot_framable(
    state: TabletView,
    objects: Seq<EntryView>,
    intents: Seq<IntentView>,
) -> bool {
    &&& state.membership.framable()
    &&& objects.len() <= usize::MAX
    &&& objects.len() <= u64::MAX
    &&& forall|i: int| 0 <= i < objects.len() ==> (#[trigger] objects[i]).framable()
    &&& state.sessions.len() <= usize::MAX
    &&& state.sessions.len() <= u64::MAX
    &&& forall|i: int| 0 <= i < state.sessions.len() ==> (#[trigger] state.sessions[i]).framable()
    &&& intents.len() <= usize::MAX
    &&& intents.len() <= MAX_SNAPSHOT_INTENTS
    &&& forall|i: int| 0 <= i < intents.len() ==> (#[trigger] intents[i]).framable()
    &&& state.control.len() <= usize::MAX
    &&& state.control.len() <= u64::MAX
    &&& state.applied != Some(AppliedPointer { term: 0, leader: 0, index: 0 })
}

proof fn lemma_head(body: Seq<u8>, state: TabletView, rest: Seq<u8>)
    requires
        body == head_bytes(state) + rest,
        state.applied != Some(AppliedPointer { term: 0, leader: 0, index: 0 }),
    ensures
        ({
            let next = 56 + flagged_bytes(state.membership.log_id).len();
            &&& head_of(body, state.namespace, state.tablet) == Ok::<_, SnapshotHalt>(
                (
                    SnapshotHead {
                        epoch: state.authority.epoch,
                        guard: state.authority.guard,
                        applied: state.applied,
                        membership_log: state.membership.log_id,
                    },
                    next as int,
                ),
            )
            &&& holds(body, next as int, rest)
            &&& body.len() == next + rest.len()
        }),
{
    broadcast use group_fields;

    let a = u64_bytes(state.namespace.0);
    let b = u64_bytes(state.tablet.0);
    let c = u64_bytes(state.authority.epoch.0);
    let d = u64_bytes(state.authority.guard.0);
    let e = pointer_bytes(words_of(state.applied));
    let f = flagged_bytes(state.membership.log_id);
    lemma_holds_whole(body);
    lemma_holds_split(body, 0, a + b + c + d + e + f, rest);
    lemma_holds_split(body, 0, a + b + c + d + e, f);
    lemma_holds_split(body, 0, a + b + c + d, e);
    lemma_holds_split(body, 0, a + b + c, d);
    lemma_holds_split(body, 0, a + b, c);
    lemma_holds_split(body, 0, a, b);
    lemma_holds_u64(body, 0, state.namespace.0);
    lemma_holds_u64(body, 8, state.tablet.0);
    lemma_holds_u64(body, 16, state.authority.epoch.0);
    lemma_holds_u64(body, 24, state.authority.guard.0);
    lemma_holds_pointer(body, 32, words_of(state.applied));
    lemma_holds_flagged(body, 56, state.membership.log_id);
}

proof fn lemma_pieces(
    body: Seq<u8>,
    at: int,
    a: Seq<u8>,
    b: Seq<u8>,
    c: Seq<u8>,
    d: Seq<u8>,
    e: Seq<u8>,
    f: Seq<u8>,
    g: Seq<u8>,
    h: Seq<u8>,
)
    requires
        holds(body, at, a + b + c + d + e + f + g + h),
    ensures
        holds(body, at, a),
        holds(body, at + a.len(), b),
        holds(body, at + a.len() + b.len(), c),
        holds(body, at + a.len() + b.len() + c.len(), d),
        holds(body, at + a.len() + b.len() + c.len() + d.len(), e),
        holds(body, at + a.len() + b.len() + c.len() + d.len() + e.len(), f),
        holds(body, at + a.len() + b.len() + c.len() + d.len() + e.len() + f.len(), g),
        holds(body, at + a.len() + b.len() + c.len() + d.len() + e.len() + f.len() + g.len(), h),
{
    lemma_holds_split(body, at, a + b + c + d + e + f + g, h);
    lemma_holds_split(body, at, a + b + c + d + e + f, g);
    lemma_holds_split(body, at, a + b + c + d + e, f);
    lemma_holds_split(body, at, a + b + c + d, e);
    lemma_holds_split(body, at, a + b + c, d);
    lemma_holds_split(body, at, a + b, c);
    lemma_holds_split(body, at, a, b);
}

proof fn lemma_lists(
    body: Seq<u8>,
    at: int,
    objects: Seq<EntryView>,
    sessions: Seq<SessionEntryView>,
)
    requires
        holds(body, at, u64_bytes(objects.len() as u64)),
        holds(body, at + 8, object_entries_bytes(objects)),
        holds(body, at + 8 + object_entries_bytes(objects).len(), u64_bytes(sessions.len() as u64)),
        holds(body, at + 16 + object_entries_bytes(objects).len(), sessions_bytes(sessions)),
        objects.len() <= usize::MAX,
        objects.len() <= u64::MAX,
        forall|i: int| 0 <= i < objects.len() ==> (#[trigger] objects[i]).framable(),
        sessions.len() <= usize::MAX,
        sessions.len() <= u64::MAX,
        forall|i: int| 0 <= i < sessions.len() ==> (#[trigger] sessions[i]).framable(),
    ensures
        objects_of(body, at, object_entries_tapes(objects)) == Ok::<_, SnapshotHalt>(
            (objects, at + 8 + object_entries_bytes(objects).len()),
        ),
        sessions_of(
            body,
            at + 8 + object_entries_bytes(objects).len(),
            sessions_tapes(sessions),
        ) == Ok::<_, SnapshotHalt>(
            (
                sessions,
                at + 16 + object_entries_bytes(objects).len() + sessions_bytes(sessions).len(),
            ),
        ),
{
    lemma_holds_u64(body, at, objects.len() as u64);
    law_object_entries_round_trip(body, at + 8, objects, object_entries_tapes(objects));
    let here = at + 8 + object_entries_bytes(objects).len();
    lemma_holds_u64(body, here, sessions.len() as u64);
    law_sessions_round_trip(body, here + 8, sessions, sessions_tapes(sessions));
}

proof fn lemma_tail(body: Seq<u8>, at: int, ordered_index: bool, intents: Seq<IntentView>)
    requires
        holds(body, at, seq![flag_byte(ordered_index)]),
        holds(body, at + 1, u64_bytes(intents.len() as u64)),
        holds(body, at + 9, intents_bytes(intents)),
        intents.len() <= usize::MAX,
        intents.len() <= MAX_SNAPSHOT_INTENTS,
        forall|i: int| 0 <= i < intents.len() ==> (#[trigger] intents[i]).framable(),
    ensures
        ordered_of(body, at) == Ok::<_, SnapshotHalt>((ordered_index, at + 1)),
        intents_of(body, at + 1, intents_tapes(intents)) == Ok::<_, SnapshotHalt>(
            (intents, at + 9 + intents_bytes(intents).len()),
        ),
{
    lemma_holds_byte(body, at, flag_byte(ordered_index));
    lemma_holds_u64(body, at + 1, intents.len() as u64);
    law_intents_round_trip(body, at + 9, intents, intents_tapes(intents));
}

proof fn lemma_rest(
    body: Seq<u8>,
    at: int,
    state: TabletView,
    objects: Seq<EntryView>,
    ordered_index: bool,
    intents: Seq<IntentView>,
)
    requires
        holds(body, at, rest_bytes(state, objects, ordered_index, intents)),
        body.len() <= usize::MAX,
        state.membership.well_formed(),
        snapshot_framable(state, objects, intents),
    ensures
        ({
            let p2 = at + state.membership.encoded().len();
            let p3 = p2 + 8 + object_entries_bytes(objects).len();
            let p4 = p3 + 8 + sessions_bytes(state.sessions).len();
            let end = p4 + 9 + intents_bytes(intents).len();
            &&& members_of(body, at, state.membership.log_id) == Ok::<_, SnapshotHalt>(
                (state.membership.flat(), p2),
            )
            &&& objects_of(body, p2, object_entries_tapes(objects)) == Ok::<_, SnapshotHalt>(
                (objects, p3),
            )
            &&& sessions_of(body, p3, sessions_tapes(state.sessions)) == Ok::<_, SnapshotHalt>(
                (state.sessions, p4),
            )
            &&& ordered_of(body, p4) == Ok::<_, SnapshotHalt>((ordered_index, p4 + 1))
            &&& intents_of(body, p4 + 1, intents_tapes(intents)) == Ok::<_, SnapshotHalt>(
                (intents, end),
            )
            &&& end == at + rest_bytes(state, objects, ordered_index, intents).len()
        }),
{
    let m = state.membership.encoded();
    let ob = object_entries_bytes(objects);
    let sb = sessions_bytes(state.sessions);
    let ib = intents_bytes(intents);
    lemma_pieces(
        body,
        at,
        m,
        u64_bytes(objects.len() as u64),
        ob,
        u64_bytes(state.sessions.len() as u64),
        sb,
        seq![flag_byte(ordered_index)],
        u64_bytes(intents.len() as u64),
        ib,
    );
    lemma_u64_field(objects.len() as u64);
    lemma_u64_field(state.sessions.len() as u64);
    lemma_u64_field(intents.len() as u64);
    law_membership_round_trip(body, at, state.membership);
    lemma_lists(body, at + m.len(), objects, state.sessions);
    lemma_tail(body, at + m.len() + 16 + ob.len() + sb.len(), ordered_index, intents);
}

proof fn lemma_assemble(
    body: Seq<u8>,
    namespace: NamespaceId,
    tablet: TabletId,
    tapes: TapesView,
    head: SnapshotHead,
    membership: MembershipView,
    objects: Seq<EntryView>,
    sessions: Seq<SessionEntryView>,
    ordered_index: bool,
    intents: Seq<IntentView>,
    p1: int,
    p2: int,
    p3: int,
    p4: int,
    p5: int,
)
    requires
        head_of(body, namespace, tablet) == Ok::<_, SnapshotHalt>((head, p1)),
        members_of(body, p1, head.membership_log) == Ok::<_, SnapshotHalt>((membership, p2)),
        objects_of(body, p2, tapes.objects) == Ok::<_, SnapshotHalt>((objects, p3)),
        sessions_of(body, p3, tapes.sessions) == Ok::<_, SnapshotHalt>((sessions, p4)),
        ordered_of(body, p4) == Ok::<_, SnapshotHalt>((ordered_index, p5)),
        intents_of(body, p5, tapes.intents) == Ok::<_, SnapshotHalt>((intents, body.len() as int)),
    ensures
        tablet_snapshot(body, namespace, tablet, tapes) == Ok::<_, SnapshotHalt>(
            SnapshotView {
                epoch: head.epoch,
                guard: head.guard,
                applied: head.applied,
                membership,
                objects,
                sessions,
                ordered_index,
                intents,
                control: None,
            },
        ),
{
}

proof fn lemma_tablet_body(
    state: TabletView,
    objects: Seq<EntryView>,
    ordered_index: bool,
    intents: Seq<IntentView>,
)
    requires
        state.well_formed(),
        snapshot_framable(state, objects, intents),
        tablet_body(state, objects, ordered_index, intents).len() <= usize::MAX,
        !state.controls(),
    ensures
        tablet_snapshot(
            tablet_body(state, objects, ordered_index, intents),
            state.namespace,
            state.tablet,
            snapshot_tapes(state, objects, intents),
        ) == Ok::<_, SnapshotHalt>(state.snapshot(objects, ordered_index, intents)),
{
    let body = tablet_body(state, objects, ordered_index, intents);
    let rest = rest_bytes(state, objects, ordered_index, intents);
    lemma_head(body, state, rest);
    let p1 = (56 + flagged_bytes(state.membership.log_id).len()) as int;
    lemma_rest(body, p1, state, objects, ordered_index, intents);
    let p2 = p1 + state.membership.encoded().len();
    let p3 = p2 + 8 + object_entries_bytes(objects).len();
    let p4 = p3 + 8 + sessions_bytes(state.sessions).len();
    lemma_assemble(
        body,
        state.namespace,
        state.tablet,
        snapshot_tapes(state, objects, intents),
        SnapshotHead {
            epoch: state.authority.epoch,
            guard: state.authority.guard,
            applied: state.applied,
            membership_log: state.membership.log_id,
        },
        state.membership.flat(),
        objects,
        state.sessions,
        ordered_index,
        intents,
        p1,
        p2,
        p3,
        p4,
        p4 + 1,
    );
}

proof fn lemma_control_body(state: TabletView)
    requires
        state.well_formed(),
        state.membership.framable(),
        state.control.len() <= usize::MAX,
        state.control.len() <= u64::MAX,
        state.applied != Some(AppliedPointer { term: 0, leader: 0, index: 0 }),
        control_body(state).len() <= usize::MAX,
        state.controls(),
    ensures
        control_snapshot(control_body(state), state.namespace, state.tablet, Some(true)) == Ok::<
            _,
            SnapshotHalt,
        >(state.snapshot(Seq::empty(), false, Seq::empty())),
{
    broadcast use group_fields;

    let body = control_body(state);
    let a = u64_bytes(state.namespace.0);
    let b = u64_bytes(state.tablet.0);
    let e = pointer_bytes(words_of(state.applied));
    let f = flagged_bytes(state.membership.log_id);
    let m = state.membership.encoded();
    let c = u64_bytes(state.control.len() as u64);
    lemma_holds_whole(body);
    lemma_holds_split(body, 0, a + b + e + f + m + c, state.control);
    lemma_holds_split(body, 0, a + b + e + f + m, c);
    lemma_holds_split(body, 0, a + b + e + f, m);
    lemma_holds_split(body, 0, a + b + e, f);
    lemma_holds_split(body, 0, a + b, e);
    lemma_holds_split(body, 0, a, b);
    lemma_holds_u64(body, 0, state.namespace.0);
    lemma_holds_u64(body, 8, state.tablet.0);
    lemma_holds_pointer(body, 16, words_of(state.applied));
    lemma_holds_flagged(body, 40, state.membership.log_id);
    if let Some(pointer) = state.membership.log_id {
        lemma_holds_split(body, 40, seq![1u8], pointer_bytes(pointer));
        lemma_holds_pointer(body, 41, pointer);
    }
    let p1 = (40 + f.len()) as int;
    law_membership_round_trip(body, p1, state.membership);
    let p2 = p1 + m.len();
    lemma_holds_u64(body, p2, state.control.len() as u64);
    lemma_holds(body, p2 + 8, state.control);
    assert(p2 + 8 + state.control.len() == body.len());
}

/// A snapshot image reads back as what was captured: objects, sessions, prepared
/// transactions, members and last applied entry.
pub proof fn law_snapshots_read_back(
    state: TabletView,
    objects: Seq<EntryView>,
    ordered_index: bool,
    intents: Seq<IntentView>,
)
    requires
        state.well_formed(),
        snapshot_framable(state, objects, intents),
        snapshot_image(state, objects, ordered_index, intents).len() <= usize::MAX,
    ensures
        ({
            let image = snapshot_image(state, objects, ordered_index, intents);
            snapshot_of(
                image,
                state.namespace,
                state.tablet,
                state.control_tablet,
                snapshot_tapes(state, objects, intents),
                crc32c_of(body_of(image)),
            ) == Ok::<_, SnapshotHalt>(state.snapshot(objects, ordered_index, intents))
        }),
{
    broadcast use group_fields;

    if state.controls() {
        let body = control_body(state);
        law_images_read_back(
            CONTROL_SNAPSHOT_MAGIC,
            CONTROL_SNAPSHOT_VERSION,
            body,
            crc32c_of(body),
        );
        lemma_control_body(state);
        assert(state.snapshot(objects, ordered_index, intents) == state.snapshot(
            Seq::empty(),
            false,
            Seq::empty(),
        ));
    } else {
        let body = tablet_body(state, objects, ordered_index, intents);
        law_images_read_back(SNAPSHOT_MAGIC, SNAPSHOT_VERSION, body, crc32c_of(body));
        lemma_tablet_body(state, objects, ordered_index, intents);
    }
}

/// A state has one image: in whichever order its store hands the objects out, the bytes are
/// the same.
pub proof fn law_snapshot_bytes_are_canonical(
    state: TabletView,
    a: Seq<KeyedView>,
    b: Seq<KeyedView>,
    ordered_index: bool,
    intents: Seq<IntentView>,
)
    requires
        keys_differ(a),
        keys_differ(b),
        forall|x: KeyedView| #[trigger] a.contains(x) <==> b.contains(x),
    ensures
        tablet_body(state, entries_of(in_key_order(a)), ordered_index, intents) == tablet_body(
            state,
            entries_of(in_key_order(b)),
            ordered_index,
            intents,
        ),
        snapshot_image(state, entries_of(in_key_order(a)), ordered_index, intents)
            == snapshot_image(state, entries_of(in_key_order(b)), ordered_index, intents),
{
    law_key_order_is_canonical(a, b);
}

/// A replica that installs the snapshot of another one of its group has the same
/// sessions, voters, nodes, control image and last applied entry, so that encoding it again
/// gives the same bytes.
pub proof fn law_installed_snapshots_agree(
    source: TabletView,
    target: TabletView,
    objects: Seq<EntryView>,
    ordered_index: bool,
    intents: Seq<IntentView>,
)
    requires
        source.well_formed(),
        target.namespace == source.namespace,
        target.tablet == source.tablet,
        target.authority == source.authority,
        target.control_tablet == source.control_tablet,
        source.controls() ==> target.sessions == source.sessions,
        !source.controls() ==> target.control == source.control,
    ensures
        target.restored(source.snapshot(objects, ordered_index, intents)) == source.stored(),
        snapshot_image(
            target.restored(source.snapshot(objects, ordered_index, intents)),
            objects,
            ordered_index,
            intents,
        ) == snapshot_image(source, objects, ordered_index, intents),
{
    lemma_gathered_rising(source.sessions);
    law_flat_members_vote_alike(source.membership);
    assert(target.restored(source.snapshot(objects, ordered_index, intents)) =~= source.stored());
}

/// A replica that was restored from a snapshot goes on as the one that it was captured
/// from: it asks the same of an entry, gives the same outcome, comes to a state that is
/// stored alike, and answers retries alike.
pub proof fn law_restored_replicas_go_on_alike(
    source: TabletView,
    target: TabletView,
    objects: Seq<EntryView>,
    ordered_index: bool,
    intents: Seq<IntentView>,
    log_id: AppliedPointer,
    payload: EntryPayload,
    executed: Executed,
    retry: (SessionId, RequestSeq, RequestSeq),
)
    requires
        source.well_formed(),
        target.namespace == source.namespace,
        target.tablet == source.tablet,
        target.authority == source.authority,
        target.control_tablet == source.control_tablet,
        source.controls() ==> target.sessions == source.sessions,
        !source.controls() ==> target.control == source.control,
    ensures
        ({
            let restored = target.restored(source.snapshot(objects, ordered_index, intents));
            &&& restored.step(log_id.index, payload) == source.step(log_id.index, payload)
            &&& restored.applied_entry(log_id, payload, executed).1 == source.applied_entry(
                log_id,
                payload,
                executed,
            ).1
            &&& restored.applied_entry(log_id, payload, executed).0.stored()
                == source.applied_entry(log_id, payload, executed).0.stored()
            &&& restored.gate(retry.0, retry.1, retry.2) == source.gate(retry.0, retry.1, retry.2)
        }),
{
    law_installed_snapshots_agree(source, target, objects, ordered_index, intents);
    law_flat_members_vote_alike(source.membership);
}

/// A snapshot of another replica is refused, whatever else it holds.
pub proof fn law_foreign_snapshots_are_refused(
    state: TabletView,
    objects: Seq<EntryView>,
    ordered_index: bool,
    intents: Seq<IntentView>,
    namespace: NamespaceId,
    tablet: TabletId,
    tapes: TapesView,
)
    requires
        !state.controls(),
        namespace != state.namespace || tablet != state.tablet,
        tablet != state.control_tablet,
    ensures
        ({
            let image = snapshot_image(state, objects, ordered_index, intents);
            snapshot_of(
                image,
                namespace,
                tablet,
                state.control_tablet,
                tapes,
                crc32c_of(body_of(image)),
            ) == Err::<SnapshotView, _>(
                SnapshotHalt::Misrouted {
                    namespace: state.namespace.0,
                    tablet: state.tablet.0,
                    expected_namespace: namespace.0,
                    expected_tablet: tablet.0,
                },
            )
        }),
{
    broadcast use group_fields;

    let body = tablet_body(state, objects, ordered_index, intents);
    law_images_read_back(SNAPSHOT_MAGIC, SNAPSHOT_VERSION, body, crc32c_of(body));
    assert(body.subrange(0, 8) =~= u64_bytes(state.namespace.0));
    assert(body.subrange(8, 16) =~= u64_bytes(state.tablet.0));
}

proof fn lemma_members_forward(input: Seq<u8>, at: int, count: nat)
    ensures
        members_at(input, at, count) matches Ok((_, next)) ==> at <= next,
    decreases count,
{
    if count > 0 {
        lemma_members_forward(input, at, (count - 1) as nat);
    }
}

/// Decoding never asks on and on: an object or a prepared transaction is asked for four
/// pieces at most, a session for fewer outcomes than the image has bytes, and the control
/// image once. Every answer that is put down brings it nearer to its end.
pub proof fn law_questions_come_to_an_end(
    image: Seq<u8>,
    namespace: NamespaceId,
    tablet: TabletId,
    control_tablet: TabletId,
    tapes: TapesView,
    computed: u32,
)
    requires
        image.len() <= usize::MAX,
    ensures
        snapshot_of(image, namespace, tablet, control_tablet, tapes, computed) matches Err(
            SnapshotHalt::Pending { piece, item, .. },
        ) ==> {
            if piece is Control {
                tapes.control is None
            } else if piece is Outcome {
                tape_of(tapes.sessions, item as int).len() < image.len()
            } else if of_intent(piece) {
                tape_of(tapes.intents, item as int).len() < 4
            } else {
                tape_of(tapes.objects, item as int).len() < 4
            }
        },
{
    if tablet != control_tablet {
        if let Ok(body) = unframed(image, SNAPSHOT_MAGIC, SNAPSHOT_VERSION, computed) {
            lemma_questions(body, namespace, tablet, tapes);
        }
    }
}

proof fn lemma_questions(
    body: Seq<u8>,
    namespace: NamespaceId,
    tablet: TabletId,
    tapes: TapesView,
)
    ensures
        tablet_snapshot(body, namespace, tablet, tapes) matches Err(
            SnapshotHalt::Pending { piece, item, .. },
        ) ==> {
            &&& !(piece is Control)
            &&& if piece is Outcome {
                tape_of(tapes.sessions, item as int).len() < body.len()
            } else if of_intent(piece) {
                tape_of(tapes.intents, item as int).len() < 4
            } else {
                tape_of(tapes.objects, item as int).len() < 4
            }
        },
{
    if let Ok((head, p1)) = head_of(body, namespace, tablet) {
        if let Ok((membership, p2)) = members_of(body, p1, head.membership_log) {
            if let Ok((voters, here)) = count_at(body, p1, 8) {
                if let Ok((nodes, start)) = count_at(body, here + 8 * voters, 12) {
                    lemma_members_forward(body, start, nodes as nat);
                }
            }
            assert(p1 <= p2);
            if let Ok((objects, o)) = size_at(body, p2) {
                law_object_questions_are_few(body, o, objects as nat, tapes.objects);
                if let Ok((_, p3)) = objects_of(body, p2, tapes.objects) {
                    if let Ok((sessions, q)) = size_at(body, p3) {
                        law_session_questions_are_few(body, q, sessions as nat, tapes.sessions);
                        if let Ok((_, p4)) = sessions_of(body, p3, tapes.sessions) {
                            if let Ok((_, p5)) = ordered_of(body, p4) {
                                if let Ok((intents, r)) = size_at(body, p5) {
                                    law_intent_questions_are_few(
                                        body,
                                        r,
                                        intents as nat,
                                        tapes.intents,
                                    );
                                }
                            }
                        }
                    }
                }
            }
        }
    }
}

/// A snapshot's body starts with the replica that it belongs to, and goes on with its
/// authority, its last applied entry and the entry that installed its members.
pub proof fn law_snapshot_head_layout(state: TabletView)
    ensures
        ({
            let head = head_bytes(state);
            &&& u64_at(head, 0) == state.namespace.0
            &&& u64_at(head, 8) == state.tablet.0
            &&& u64_at(head, 16) == state.authority.epoch.0
            &&& u64_at(head, 24) == state.authority.guard.0
            &&& state.applied matches Some(pointer) ==> u64_at(head, 32) == pointer.term
                && u64_at(head, 40) == pointer.leader && u64_at(head, 48) == pointer.index
            &&& state.applied is None ==> u64_at(head, 32) == 0 && u64_at(head, 40) == 0
                && u64_at(head, 48) == 0
            &&& state.membership.log_id is None ==> head.len() == 57 && head[56] == 0
            &&& state.membership.log_id matches Some(pointer) ==> {
                &&& head.len() == 81
                &&& head[56] == 1
                &&& u64_at(head, 57) == pointer.term
                &&& u64_at(head, 65) == pointer.leader
                &&& u64_at(head, 73) == pointer.index
            }
        }),
{
    broadcast use group_fields;

    let head = head_bytes(state);
    let words = words_of(state.applied);
    assert(head.subrange(0, 8) =~= u64_bytes(state.namespace.0));
    assert(head.subrange(8, 16) =~= u64_bytes(state.tablet.0));
    assert(head.subrange(16, 24) =~= u64_bytes(state.authority.epoch.0));
    assert(head.subrange(24, 32) =~= u64_bytes(state.authority.guard.0));
    assert(head.subrange(32, 40) =~= u64_bytes(words.term));
    assert(head.subrange(40, 48) =~= u64_bytes(words.leader));
    assert(head.subrange(48, 56) =~= u64_bytes(words.index));
    if let Some(pointer) = state.membership.log_id {
        assert(head.subrange(57, 65) =~= u64_bytes(pointer.term));
        assert(head.subrange(65, 73) =~= u64_bytes(pointer.leader));
        assert(head.subrange(73, 81) =~= u64_bytes(pointer.index));
    }
}

/// A replica that restores a snapshot has what the snapshot says and keeps its identity
/// and its authority; a control group takes the control image and a tablet the sessions.
pub proof fn law_restored_replicas_have_the_snapshot(state: TabletView, snapshot: SnapshotView)
    ensures
        ({
            let after = state.restored(snapshot);
            &&& after.namespace == state.namespace
            &&& after.tablet == state.tablet
            &&& after.authority == state.authority
            &&& after.control_tablet == state.control_tablet
            &&& after.applied == snapshot.applied
            &&& after.membership == snapshot.membership
            &&& snapshot.control matches Some(image) ==> after.control == image
                && after.sessions == state.sessions
            &&& snapshot.control is None ==> after.control == state.control
                && rising(after.sessions) && (rising(snapshot.sessions) ==> after.sessions
                == snapshot.sessions)
        }),
{
    lemma_gathered(snapshot.sessions);
    if rising(snapshot.sessions) {
        lemma_gathered_rising(snapshot.sessions);
    }
}

/// A body of another replica is refused before anything of it is read, and the refusal
/// names both.
pub proof fn law_misrouted_bodies_are_named(
    body: Seq<u8>,
    namespace: NamespaceId,
    tablet: TabletId,
)
    requires
        body.len() >= 16,
    ensures
        routed(body, namespace, tablet) is Ok <==> u64_at(body, 0) == namespace.0 && u64_at(
            body,
            8,
        ) == tablet.0,
        routed(body, namespace, tablet) is Err ==> head_of(body, namespace, tablet) == Err::<
            (SnapshotHead, int),
            _,
        >(
            SnapshotHalt::Misrouted {
                namespace: u64_at(body, 0),
                tablet: u64_at(body, 8),
                expected_namespace: namespace.0,
                expected_tablet: tablet.0,
            },
        ),
{
}

/// The body of a control snapshot starts with the group that it belongs to and its last
/// applied entry, and ends with the control image behind its length.
pub proof fn law_control_body_layout(state: TabletView)
    requires
        state.control.len() <= u64::MAX,
    ensures
        ({
            let body = control_body(state);
            let end = body.len() - state.control.len();
            &&& u64_at(body, 0) == state.namespace.0
            &&& u64_at(body, 8) == state.tablet.0
            &&& state.applied matches Some(pointer) ==> u64_at(body, 16) == pointer.term
                && u64_at(body, 24) == pointer.leader && u64_at(body, 32) == pointer.index
            &&& body[40] == if state.membership.log_id is Some {
                1u8
            } else {
                0u8
            }
            &&& u64_at(body, end - 8) == state.control.len()
            &&& body.skip(end) == state.control
        }),
{
    broadcast use group_fields;

    let body = control_body(state);
    let words = words_of(state.applied);
    let end = body.len() - state.control.len();
    assert(body.subrange(0, 8) =~= u64_bytes(state.namespace.0));
    assert(body.subrange(8, 16) =~= u64_bytes(state.tablet.0));
    assert(body.subrange(16, 24) =~= u64_bytes(words.term));
    assert(body.subrange(24, 32) =~= u64_bytes(words.leader));
    assert(body.subrange(32, 40) =~= u64_bytes(words.index));
    assert(body.subrange(end - 8, end) =~= u64_bytes(state.control.len() as u64));
    assert(body.skip(end) =~= state.control);
}

/// Snapshots of a tablet and of a control group are told apart by their magic, and each
/// has a version of its own.
pub proof fn law_snapshot_kinds_have_their_magic(
    state: TabletView,
    objects: Seq<EntryView>,
    ordered_index: bool,
    intents: Seq<IntentView>,
)
    ensures
        ({
            let image = snapshot_image(state, objects, ordered_index, intents);
            &&& state.tablet == state.control_tablet ==> image.subrange(0, 4) == u32_bytes(
                0x4353_564B,
            ) && image.subrange(4, 6) == u16_bytes(1)
            &&& state.tablet != state.control_tablet ==> image.subrange(0, 4) == u32_bytes(
                0x4D53_564B,
            ) && image.subrange(4, 6) == u16_bytes(2)
        }),
{
    broadcast use group_fields;

    let image = snapshot_image(state, objects, ordered_index, intents);
    let magic = if state.controls() {
        CONTROL_SNAPSHOT_MAGIC
    } else {
        SNAPSHOT_MAGIC
    };
    let version = if state.controls() {
        CONTROL_SNAPSHOT_VERSION
    } else {
        SNAPSHOT_VERSION
    };
    assert(image.subrange(0, 4) =~= u32_bytes(magic));
    assert(image.subrange(4, 6) =~= u16_bytes(version));
}

} // verus!
