//! The lists inside snapshots: objects, sessions and prepared transactions.

use crate::consensus::image::{
    blob, blob_at, get_blob, holds, lemma_holds, lemma_holds_blob, lemma_holds_byte,
    lemma_holds_split, lemma_holds_u128, lemma_holds_u64, put_blob, ImageFault,
};
use crate::consensus::object::{
    decode_object, encode_object, good, law_object_round_trip, lemma_holds_piece, object_at,
    piece_at, take_piece, ObjectHalt, ObjectView, Piece, Reading, StoredObject,
};
use crate::consensus::session::{
    DurableOutcome, DurableOutcomeView, OutcomeKind, RetainedOutcome, RetainedView, SessionEntry,
    SessionEntryView, SessionState, SessionView,
};
use crate::ids::{CommitPosition, RequestSeq, SessionId, TabletId};
use crate::ranked::{gathered, lemma_gathered_rising, views};
use crate::wire::{
    get_digest, get_u128, get_u64, group_fields, put_bytes, put_u128, put_u64, u128_at, u128_bytes,
    u64_at, u64_bytes,
};
use vstd::prelude::*;

verus! {

/// Prepared transactions that a snapshot may hold.
pub const MAX_SNAPSHOT_INTENTS: u64 = 1_000_000;

/// What is wrong with a snapshot.
#[derive(Debug, Clone, Copy, PartialEq, Eq, Structural)]
#[non_exhaustive]
pub enum SnapshotFlaw {
    /// The frame.
    Framing(ImageFault),
    /// The body ends too early.
    Truncated,
    /// A count exceeds the address space.
    CountOverflow,
    /// The flag of the members' log entry.
    MembershipTag,
    /// The members.
    Membership(ImageFault),
    /// A key.
    Key,
    /// An object.
    Object(ImageFault),
    /// The length of a recorded outcome.
    OutcomeBlob,
    /// A recorded outcome.
    Outcome,
    /// The flag of the ordered index.
    OrderedIndexTag,
    /// The number of prepared transactions.
    IntentCount,
    /// The key of a prepared transaction.
    IntentKey,
    /// What a prepared transaction expects.
    IntentExpectation,
    /// What a prepared transaction writes.
    IntentWrite,
    /// The version that a prepared transaction observed.
    IntentVersion,
    /// The flag of that version.
    IntentObservedTag,
    /// Bytes follow the last field.
    TrailingBytes,
    /// The control image.
    ControlImage,
}

/// Why decoding a snapshot stopped.
#[derive(Debug, Clone, Copy, PartialEq, Eq, Structural)]
pub enum SnapshotHalt {
    /// A piece is to be read first.
    Pending {
        /// The piece.
        piece: Piece,
        /// Where it starts in the body.
        at: usize,
        /// Which object, session or prepared transaction it belongs to.
        item: usize,
    },
    /// The snapshot is of another replica.
    Misrouted {
        /// Namespace found.
        namespace: u64,
        /// Tablet found.
        tablet: u64,
        /// Namespace of the replica.
        expected_namespace: u64,
        /// Tablet of the replica.
        expected_tablet: u64,
    },
    /// The snapshot is corrupt.
    Corrupt(SnapshotFlaw),
}

/// A piece that could not be taken, as a reason to stop.
pub open spec fn lifted(halt: ObjectHalt, flaw: SnapshotFlaw) -> SnapshotHalt {
    match halt {
        ObjectHalt::Pending { piece, at } => SnapshotHalt::Pending { piece, at, item: 0 },
        ObjectHalt::Fault(_) => SnapshotHalt::Corrupt(flaw),
    }
}

fn lift(halt: ObjectHalt, flaw: SnapshotFlaw) -> (stop: SnapshotHalt)
    ensures
        stop == lifted(halt, flaw),
{
    match halt {
        ObjectHalt::Pending { piece, at } => SnapshotHalt::Pending { piece, at, item: 0 },
        ObjectHalt::Fault(_) => SnapshotHalt::Corrupt(flaw),
    }
}

/// A reason to stop, as one of an item of a list.
pub open spec fn numbered(halt: SnapshotHalt, item: int) -> SnapshotHalt {
    match halt {
        SnapshotHalt::Pending { piece, at, .. } => SnapshotHalt::Pending {
            piece,
            at,
            item: item as usize,
        },
        _ => halt,
    }
}

fn number(halt: SnapshotHalt, item: usize) -> (stop: SnapshotHalt)
    ensures
        stop == numbered(halt, item as int),
{
    match halt {
        SnapshotHalt::Pending { piece, at, .. } => SnapshotHalt::Pending { piece, at, item },
        _ => halt,
    }
}

/// The word at `at` and where it ends.
pub open spec fn word_at(body: Seq<u8>, at: int) -> Result<(u64, int), SnapshotHalt> {
    if at + 8 > body.len() {
        Err(SnapshotHalt::Corrupt(SnapshotFlaw::Truncated))
    } else {
        Ok((u64_at(body, at), at + 8))
    }
}

/// The count at `at` and where it ends.
pub open spec fn size_at(body: Seq<u8>, at: int) -> Result<(u64, int), SnapshotHalt> {
    if at + 8 > body.len() {
        Err(SnapshotHalt::Corrupt(SnapshotFlaw::Truncated))
    } else if u64_at(body, at) > usize::MAX {
        Err(SnapshotHalt::Corrupt(SnapshotFlaw::CountOverflow))
    } else {
        Ok((u64_at(body, at), at + 8))
    }
}

/// Reads the count at `at`.
pub fn get_size(body: &[u8], at: usize) -> (found: Result<(usize, usize), SnapshotHalt>)
    requires
        at <= body.len(),
    ensures
        match found {
            Ok((size, next)) => size_at(body@, at as int) == Ok::<_, SnapshotHalt>(
                (size as u64, next as int),
            ) && next == at + 8 && next <= body.len(),
            Err(halt) => size_at(body@, at as int) == Err::<(u64, int), _>(halt),
        },
{
    if body.len() - at < 8 {
        return Err(SnapshotHalt::Corrupt(SnapshotFlaw::Truncated));
    }
    let size: u64 = get_u64(body, at);
    if size > usize::MAX as u64 {
        return Err(SnapshotHalt::Corrupt(SnapshotFlaw::CountOverflow));
    }
    Ok((size as usize, at + 8))
}

/// What was read for element `i` of a list.
pub open spec fn tape_of<T>(tapes: Seq<Seq<T>>, i: int) -> Seq<T> {
    if 0 <= i < tapes.len() {
        tapes[i]
    } else {
        Seq::empty()
    }
}

/// `tapes` with one more answer for `item`; the tapes before it that are missing are empty.
pub open spec fn answered<T>(tapes: Seq<Seq<T>>, item: int, answer: T) -> Seq<Seq<T>> {
    let long = if tapes.len() > item {
        tapes
    } else {
        tapes + Seq::new((item + 1 - tapes.len()) as nat, |i: int| Seq::<T>::empty())
    };
    long.update(item, long[item].push(answer))
}

/// Puts down one more answer for `item`.
pub fn put_answer<T>(tapes: &mut Vec<Vec<T>>, item: usize, answer: T)
    ensures
        views(final(tapes)@) == answered(views(old(tapes)@), item as int, answer),
{
    let ghost start = views(tapes@);
    while tapes.len() <= item
        invariant
            start == views(old(tapes)@),
            start.len() <= tapes.len(),
            start.len() > item ==> tapes.len() == start.len(),
            start.len() <= item ==> tapes.len() <= item + 1,
            views(tapes@) == start + Seq::new(
                (tapes.len() - start.len()) as nat,
                |i: int| Seq::<T>::empty(),
            ),
        decreases item + 1 - tapes.len(),
    {
        let empty: Vec<T> = Vec::new();
        let ghost before = tapes@;
        tapes.push(empty);
        proof {
            assert(empty@ =~= Seq::empty());
            assert(views(tapes@) =~= views(before).push(Seq::empty()));
            assert(views(tapes@) =~= start + Seq::new(
                (tapes.len() - start.len()) as nat,
                |i: int| Seq::<T>::empty(),
            ));
        }
    }
    let ghost long = tapes@;
    proof {
        assert(start.len() > item ==> views(long) =~= start);
    }
    let mut tape: Vec<T> = Vec::new();
    std::mem::swap(&mut tape, &mut tapes[item]);
    let ghost held = tape@;
    tape.push(answer);
    tapes.set(item, tape);
    proof {
        assert(views(tapes@) =~= views(long).update(item as int, held.push(answer)));
    }
}

/// An answer goes to the item that it is for, behind its earlier ones, and no other item
/// gets one.
pub proof fn law_answers_go_to_their_item<T>(
    tapes: Seq<Seq<T>>,
    item: int,
    answer: T,
    other: int,
)
    requires
        0 <= item,
        0 <= other,
    ensures
        tape_of(answered(tapes, item, answer), other) == if other == item {
            tape_of(tapes, item).push(answer)
        } else {
            tape_of(tapes, other)
        },
{
}

/// An object under its key, which is held in its own encoding.
#[derive(Debug, PartialEq, Eq)]
pub struct ObjectEntry {
    /// The key.
    pub key: Vec<u8>,
    /// The object.
    pub object: StoredObject,
}

/// What an [`ObjectEntry`] says.
#[verifier::ext_equal]
pub struct EntryView {
    pub key: Seq<u8>,
    pub object: ObjectView,
}

impl View for ObjectEntry {
    type V = EntryView;

    open spec fn view(&self) -> EntryView {
        EntryView { key: self.key@, object: self.object@ }
    }
}

impl EntryView {
    /// The canonical bytes.
    pub open spec fn encoded(self) -> Seq<u8> {
        self.key + self.object.encoded()
    }

    /// What the decoders of its pieces read, in order.
    pub open spec fn readings(self) -> Seq<Reading> {
        seq![good(self.key)] + self.object.readings()
    }

    /// Its pieces fit the address space.
    pub open spec fn framable(self) -> bool {
        &&& self.key.len() <= usize::MAX
        &&& self.object.framable()
    }
}

/// The object entry at `at` and where it ends, or why decoding stopped.
pub open spec fn object_entry_at(body: Seq<u8>, at: int, readings: Seq<Reading>) -> Result<
    (EntryView, int),
    SnapshotHalt,
> {
    match piece_at(body, at, readings, 0, Piece::Key, ImageFault::BadKey, ImageFault::BadKey) {
        Err(halt) => Err(lifted(halt, SnapshotFlaw::Key)),
        Ok((key, here)) => match object_at(body, here, readings, 1) {
            Err(ObjectHalt::Fault(fault)) => Err(
                SnapshotHalt::Corrupt(SnapshotFlaw::Object(fault)),
            ),
            Err(ObjectHalt::Pending { piece, at }) => Err(
                SnapshotHalt::Pending { piece, at, item: 0 },
            ),
            Ok((object, next)) => Ok((EntryView { key, object }, next)),
        },
    }
}

/// Decodes the object entry at `at`.
pub fn decode_object_entry(body: &[u8], at: usize, readings: &Vec<Reading>) -> (taken: Result<
    (ObjectEntry, usize),
    SnapshotHalt,
>)
    requires
        at <= body.len(),
    ensures
        match taken {
            Ok((entry, next)) => object_entry_at(body@, at as int, readings@) == Ok::<
                _,
                SnapshotHalt,
            >((entry@, next as int)) && next <= body.len(),
            Err(halt) => object_entry_at(body@, at as int, readings@) == Err::<
                (EntryView, int),
                _,
            >(halt),
        },
{
    let (key, here): (Vec<u8>, usize) = match take_piece(
        body,
        at,
        readings,
        0,
        Piece::Key,
        ImageFault::BadKey,
        ImageFault::BadKey,
    ) {
        Ok(taken) => taken,
        Err(halt) => return Err(lift(halt, SnapshotFlaw::Key)),
    };
    match decode_object(body, here, readings, 1) {
        Ok((object, next)) => Ok((ObjectEntry { key, object }, next)),
        Err(ObjectHalt::Fault(fault)) => Err(SnapshotHalt::Corrupt(SnapshotFlaw::Object(fault))),
        Err(ObjectHalt::Pending { piece, at: place }) => Err(
            SnapshotHalt::Pending { piece, at: place, item: 0 },
        ),
    }
}

/// Appends the canonical bytes of an object entry.
pub fn encode_object_entry(out: &mut Vec<u8>, entry: &ObjectEntry)
    ensures
        final(out)@ == old(out)@ + entry@.encoded(),
{
    let ghost start = out@;
    put_bytes(out, &entry.key);
    encode_object(out, &entry.object);
    proof {
        assert(out@ =~= start + entry@.encoded());
    }
}

/// An object entry reads back from its canonical bytes, wherever these stand.
pub proof fn law_object_entry_round_trip(body: Seq<u8>, at: int, entry: EntryView)
    requires
        holds(body, at, entry.encoded()),
        entry.framable(),
    ensures
        object_entry_at(body, at, entry.readings()) == Ok::<_, SnapshotHalt>(
            (entry, at + entry.encoded().len()),
        ),
{
    lemma_holds_split(body, at, entry.key, entry.object.encoded());
    lemma_holds_piece(
        body,
        at,
        entry.readings(),
        0,
        Piece::Key,
        ImageFault::BadKey,
        ImageFault::BadKey,
        entry.key,
    );
    assert forall|i: int| 0 <= i < entry.object.readings().len() implies entry.readings()[1 + i]
        == #[trigger] entry.object.readings()[i] by {}
    law_object_round_trip(body, at + entry.key.len(), entry.readings(), 1, entry.object);
}

/// The first `count` object entries from `at` on and where they end, or why decoding stopped.
pub open spec fn object_entries_at(
    body: Seq<u8>,
    at: int,
    count: nat,
    tapes: Seq<Seq<Reading>>,
) -> Result<
    (Seq<EntryView>, int),
    SnapshotHalt,
>
    decreases count,
{
    if count == 0 {
        Ok((Seq::empty(), at))
    } else {
        match object_entries_at(body, at, (count - 1) as nat, tapes) {
            Err(halt) => Err(halt),
            Ok((before, here)) => match object_entry_at(body, here, tape_of(tapes, count - 1)) {
                Err(halt) => Err(numbered(halt, count - 1)),
                Ok((object_entry, next)) => Ok((before.push(object_entry), next)),
            },
        }
    }
}

/// The canonical bytes of a list of object entries.
pub open spec fn object_entries_bytes(object_entries: Seq<EntryView>) -> Seq<u8>
    decreases object_entries.len(),
{
    if object_entries.len() == 0 {
        Seq::empty()
    } else {
        object_entries_bytes(object_entries.drop_last()) + object_entries.last().encoded()
    }
}

/// What is read for a list of object entries.
pub open spec fn object_entries_tapes(object_entries: Seq<EntryView>) -> Seq<Seq<Reading>> {
    Seq::new(object_entries.len(), |i: int| object_entries[i].readings())
}

proof fn lemma_object_entries_stop(
    body: Seq<u8>,
    at: int,
    n: nat,
    count: nat,
    tapes: Seq<Seq<Reading>>,
    halt: SnapshotHalt,
)
    requires
        n <= count,
        object_entries_at(body, at, n, tapes) == Err::<(Seq<EntryView>, int), _>(halt),
    ensures
        object_entries_at(body, at, count, tapes) == Err::<(Seq<EntryView>, int), _>(halt),
    decreases count,
{
    if n < count {
        lemma_object_entries_stop(body, at, n, (count - 1) as nat, tapes, halt);
    }
}

/// Decodes `count` object entries from `at` on.
pub fn decode_object_entries(
    body: &[u8],
    at: usize,
    count: usize,
    tapes: &Vec<Vec<Reading>>,
) -> (taken:
    Result<(Vec<ObjectEntry>, usize), SnapshotHalt>)
    requires
        at <= body.len(),
    ensures
        match taken {
            Ok((object_entries, next)) => object_entries_at(
                body@,
                at as int,
                count as nat,
                views(tapes@),
            ) == Ok::<
                _,
                SnapshotHalt,
            >((views(object_entries@), next as int)) && next <= body.len(),
            Err(halt) => object_entries_at(body@, at as int, count as nat, views(tapes@)) == Err::<
                (Seq<EntryView>, int),
                _,
            >(halt),
        },
{
    let none: Vec<Reading> = Vec::new();
    let mut object_entries: Vec<ObjectEntry> = Vec::new();
    let mut here: usize = at;
    let mut done: usize = 0;
    proof {
        assert(views(object_entries@) =~= Seq::empty());
    }
    while done < count
        invariant
            done <= count,
            none@.len() == 0,
            here <= body.len(),
            object_entries_at(
                body@,
                at as int,
                done as nat,
                views(tapes@),
            ) == Ok::<_, SnapshotHalt>(
                (views(object_entries@), here as int),
            ),
        decreases count - done,
    {
        let tape: &Vec<Reading> = if done < tapes.len() {
            &tapes[done]
        } else {
            &none
        };
        proof {
            assert(tape@ =~= tape_of(views(tapes@), done as int));
        }
        match decode_object_entry(body, here, tape) {
            Err(halt) => {
                let stop: SnapshotHalt = number(halt, done);
                proof {
                    lemma_object_entries_stop(
                        body@,
                        at as int,
                        (done + 1) as nat,
                        count as nat,
                        views(tapes@),
                        stop,
                    );
                }
                return Err(stop);
            },
            Ok((taken, next)) => {
                let ghost before = object_entries@;
                object_entries.push(taken);
                here = next;
                proof {
                    assert(views(object_entries@) =~= views(before).push(taken@));
                }
            },
        }
        done = done + 1;
    }
    Ok((object_entries, here))
}

/// Appends the canonical bytes of a list of object entries.
pub fn encode_object_entries(out: &mut Vec<u8>, object_entries: &Vec<ObjectEntry>)
    ensures
        final(out)@ == old(out)@ + object_entries_bytes(views(object_entries@)),
{
    let ghost start = out@;
    let ghost all = views(object_entries@);
    let mut at: usize = 0;
    proof {
        assert(all.take(0) =~= Seq::empty());
        assert(start + object_entries_bytes(all.take(0)) =~= start);
    }
    while at < object_entries.len()
        invariant
            at <= object_entries.len(),
            all == views(object_entries@),
            out@ == start + object_entries_bytes(all.take(at as int)),
        decreases object_entries.len() - at,
    {
        encode_object_entry(out, &object_entries[at]);
        at = at + 1;
        proof {
            let now = all.take(at as int);
            assert(now.drop_last() =~= all.take(at - 1));
            assert(now.last() == object_entries@[at - 1]@);
            assert(out@ =~= start + object_entries_bytes(now));
        }
    }
    proof {
        assert(all.take(at as int) =~= all);
    }
}

/// A list of object entries reads back from its canonical bytes, wherever these stand.
pub proof fn law_object_entries_round_trip(
    body: Seq<u8>,
    at: int,
    object_entries: Seq<EntryView>,
    tapes: Seq<Seq<Reading>>,
)
    requires
        holds(body, at, object_entries_bytes(object_entries)),
        forall|i: int| 0 <= i < object_entries.len() ==> (#[trigger] object_entries[i]).framable(),
        object_entries.len() <= tapes.len(),
        forall|i: int|
            0 <= i < object_entries.len() ==> #[trigger] tapes[i] == object_entries_tapes(
                object_entries,
            )[i],
    ensures
        object_entries_at(body, at, object_entries.len(), tapes) == Ok::<_, SnapshotHalt>(
            (object_entries, at + object_entries_bytes(object_entries).len()),
        ),
    decreases object_entries.len(),
{
    if object_entries.len() > 0 {
        let front = object_entries.drop_last();
        let last = object_entries.last();
        lemma_holds_split(body, at, object_entries_bytes(front), last.encoded());
        assert forall|i: int| 0 <= i < front.len() implies (#[trigger] front[i]).framable() by {
            assert(front[i] == object_entries[i]);
        }
        assert forall|i: int| 0 <= i < front.len() implies #[trigger] tapes[i]
            == object_entries_tapes(front)[i] by {
            assert(tapes[i] == object_entries_tapes(object_entries)[i]);
        }
        law_object_entries_round_trip(body, at, front, tapes);
        assert(object_entries[object_entries.len() - 1].framable());
        assert(
            tapes[object_entries.len() - 1] == object_entries_tapes(object_entries)[
                object_entries.len() - 1
            ]
        );
        law_object_entry_round_trip(body, at + object_entries_bytes(front).len(), last);
        assert(front.push(last) =~= object_entries);
    } else {
        assert(object_entries =~= Seq::empty());
    }
}

/// Whether a piece is asked for in an object.
pub open spec fn of_object(piece: Piece) -> bool {
    match piece {
        Piece::Outcome => false,
        Piece::IntentKey => false,
        Piece::Expectation => false,
        Piece::Write => false,
        Piece::IntentVersion => false,
        Piece::Control => false,
        _ => true,
    }
}

/// Whether a piece is asked for in a prepared transaction.
pub open spec fn of_intent(piece: Piece) -> bool {
    match piece {
        Piece::IntentKey => true,
        Piece::Expectation => true,
        Piece::Write => true,
        Piece::IntentVersion => true,
        _ => false,
    }
}

/// An object is asked for four pieces at most.
pub proof fn law_object_questions_are_few(
    body: Seq<u8>,
    at: int,
    count: nat,
    tapes: Seq<Seq<Reading>>,
)
    requires
        count <= usize::MAX,
    ensures
        match object_entries_at(body, at, count, tapes) {
            Ok((_, next)) => at <= next,
            Err(halt) => halt matches SnapshotHalt::Pending { piece, item, .. } ==> of_object(piece)
                && item < count && tape_of(tapes, item as int).len() < 4,
        },
    decreases count,
{
    if count > 0 {
        law_object_questions_are_few(body, at, (count - 1) as nat, tapes);
    }
}

impl RetainedView {
    /// The canonical bytes.
    pub open spec fn encoded(self) -> Seq<u8> {
        u64_bytes(self.seq.0) + u64_bytes(self.commit.0) + seq![self.opcode] + blob(
            self.outcome.bytes,
        )
    }
}

/// The canonical bytes of a list of outcomes.
pub open spec fn outcomes_bytes(outcomes: Seq<RetainedView>) -> Seq<u8>
    decreases outcomes.len(),
{
    if outcomes.len() == 0 {
        Seq::empty()
    } else {
        outcomes_bytes(outcomes.drop_last()) + outcomes.last().encoded()
    }
}

/// The first `count` outcomes from `at` on and where they end. How each of them ended is
/// what its decoder says, if it accepts it.
pub open spec fn outcomes_at(
    body: Seq<u8>,
    at: int,
    count: nat,
    kinds: Seq<Option<OutcomeKind>>,
) -> Result<(Seq<RetainedView>, int), SnapshotHalt>
    decreases count,
{
    if count == 0 {
        Ok((Seq::empty(), at))
    } else {
        match outcomes_at(body, at, (count - 1) as nat, kinds) {
            Err(halt) => Err(halt),
            Ok((before, here)) => match outcome_at(body, here, kinds, count - 1) {
                Err(halt) => Err(halt),
                Ok((outcome, next)) => Ok((before.push(outcome), next)),
            },
        }
    }
}

/// The outcome at `at`, which is number `turn`, and where it ends.
pub open spec fn outcome_at(
    body: Seq<u8>,
    at: int,
    kinds: Seq<Option<OutcomeKind>>,
    turn: int,
) -> Result<(RetainedView, int), SnapshotHalt> {
    if at + 17 > body.len() {
        Err(SnapshotHalt::Corrupt(SnapshotFlaw::Truncated))
    } else {
        match blob_at(body, at + 17) {
            None => Err(SnapshotHalt::Corrupt(SnapshotFlaw::OutcomeBlob)),
            Some((bytes, next)) => if turn >= kinds.len() {
                Err(
                    SnapshotHalt::Pending {
                        piece: Piece::Outcome,
                        at: (at + 17) as usize,
                        item: 0,
                    },
                )
            } else {
                match kinds[turn] {
                    None => Err(SnapshotHalt::Corrupt(SnapshotFlaw::Outcome)),
                    Some(kind) => Ok(
                        (
                            RetainedView {
                                seq: RequestSeq(u64_at(body, at)),
                                commit: CommitPosition(u64_at(body, at + 8)),
                                opcode: body[at + 16],
                                outcome: DurableOutcomeView { kind, bytes },
                            },
                            next,
                        ),
                    ),
                }
            },
        }
    }
}

proof fn lemma_outcomes_stop(
    body: Seq<u8>,
    at: int,
    n: nat,
    count: nat,
    kinds: Seq<Option<OutcomeKind>>,
    halt: SnapshotHalt,
)
    requires
        n <= count,
        outcomes_at(body, at, n, kinds) == Err::<(Seq<RetainedView>, int), _>(halt),
    ensures
        outcomes_at(body, at, count, kinds) == Err::<(Seq<RetainedView>, int), _>(halt),
    decreases count,
{
    if n < count {
        lemma_outcomes_stop(body, at, n, (count - 1) as nat, kinds, halt);
    }
}

fn decode_outcome(body: &[u8], at: usize, kinds: &Vec<Option<OutcomeKind>>, turn: usize) -> (taken:
    Result<(RetainedOutcome, usize), SnapshotHalt>)
    requires
        at <= body.len(),
    ensures
        match taken {
            Ok((outcome, next)) => outcome_at(body@, at as int, kinds@, turn as int) == Ok::<
                _,
                SnapshotHalt,
            >((outcome@, next as int)) && next <= body.len(),
            Err(halt) => outcome_at(body@, at as int, kinds@, turn as int) == Err::<
                (RetainedView, int),
                _,
            >(halt),
        },
{
    if body.len() - at < 17 {
        return Err(SnapshotHalt::Corrupt(SnapshotFlaw::Truncated));
    }
    match get_blob(body, at + 17) {
        None => Err(SnapshotHalt::Corrupt(SnapshotFlaw::OutcomeBlob)),
        Some((bytes, next)) => {
            if turn >= kinds.len() {
                return Err(
                    SnapshotHalt::Pending { piece: Piece::Outcome, at: at + 17, item: 0 },
                );
            }
            match kinds[turn] {
                None => Err(SnapshotHalt::Corrupt(SnapshotFlaw::Outcome)),
                Some(kind) => Ok(
                    (
                        RetainedOutcome {
                            seq: RequestSeq::from_u64(get_u64(body, at)),
                            commit: CommitPosition::from_u64(get_u64(body, at + 8)),
                            opcode: body[at + 16],
                            outcome: DurableOutcome { kind, bytes },
                        },
                        next,
                    ),
                ),
            }
        },
    }
}

fn decode_outcomes(
    body: &[u8],
    at: usize,
    count: usize,
    kinds: &Vec<Option<OutcomeKind>>,
) -> (taken:
    Result<(Vec<RetainedOutcome>, usize), SnapshotHalt>)
    requires
        at <= body.len(),
    ensures
        match taken {
            Ok((outcomes, next)) => outcomes_at(body@, at as int, count as nat, kinds@) == Ok::<
                _,
                SnapshotHalt,
            >((views(outcomes@), next as int)) && next <= body.len(),
            Err(halt) => outcomes_at(body@, at as int, count as nat, kinds@) == Err::<
                (Seq<RetainedView>, int),
                _,
            >(halt),
        },
{
    let mut outcomes: Vec<RetainedOutcome> = Vec::new();
    let mut here: usize = at;
    let mut done: usize = 0;
    proof {
        assert(views(outcomes@) =~= Seq::empty());
    }
    while done < count
        invariant
            done <= count,
            here <= body.len(),
            outcomes_at(body@, at as int, done as nat, kinds@) == Ok::<_, SnapshotHalt>(
                (views(outcomes@), here as int),
            ),
        decreases count - done,
    {
        match decode_outcome(body, here, kinds, done) {
            Err(halt) => {
                proof {
                    lemma_outcomes_stop(
                        body@,
                        at as int,
                        (done + 1) as nat,
                        count as nat,
                        kinds@,
                        halt,
                    );
                }
                return Err(halt);
            },
            Ok((outcome, next)) => {
                let ghost before = outcomes@;
                outcomes.push(outcome);
                here = next;
                proof {
                    assert(views(outcomes@) =~= views(before).push(outcome@));
                }
            },
        }
        done = done + 1;
    }
    Ok((outcomes, here))
}

proof fn lemma_outcomes_round_trip(
    body: Seq<u8>,
    at: int,
    outcomes: Seq<RetainedView>,
    kinds: Seq<Option<OutcomeKind>>,
)
    requires
        holds(body, at, outcomes_bytes(outcomes)),
        forall|i: int|
            0 <= i < outcomes.len() ==> (#[trigger] outcomes[i]).outcome.bytes.len() <= u32::MAX,
        outcomes.len() <= kinds.len(),
        forall|i: int|
            0 <= i < outcomes.len() ==> #[trigger] kinds[i] == Some(outcomes[i].outcome.kind),
    ensures
        outcomes_at(body, at, outcomes.len(), kinds) == Ok::<_, SnapshotHalt>(
            (outcomes, at + outcomes_bytes(outcomes).len()),
        ),
    decreases outcomes.len(),
{
    if outcomes.len() > 0 {
        broadcast use group_fields;

        let front = outcomes.drop_last();
        let last = outcomes.last();
        assert forall|i: int| 0 <= i < front.len() implies (
        #[trigger] front[i]).outcome.bytes.len() <= u32::MAX by {
            assert(front[i] == outcomes[i]);
        }
        assert forall|i: int| 0 <= i < front.len() implies #[trigger] kinds[i] == Some(
            front[i].outcome.kind,
        ) by {
            assert(front[i] == outcomes[i]);
        }
        lemma_holds_split(body, at, outcomes_bytes(front), last.encoded());
        lemma_outcomes_round_trip(body, at, front, kinds);
        let here = at + outcomes_bytes(front).len();
        let seq_word = u64_bytes(last.seq.0);
        let commit_word = u64_bytes(last.commit.0);
        let opcode = seq![last.opcode];
        let bytes = blob(last.outcome.bytes);
        lemma_holds_split(body, here, seq_word + commit_word + opcode, bytes);
        lemma_holds_split(body, here, seq_word + commit_word, opcode);
        lemma_holds_split(body, here, seq_word, commit_word);
        lemma_holds_u64(body, here, last.seq.0);
        lemma_holds_u64(body, here + 8, last.commit.0);
        lemma_holds_byte(body, here + 16, last.opcode);
        assert(outcomes[outcomes.len() - 1].outcome.bytes.len() <= u32::MAX);
        lemma_holds_blob(body, here + 17, last.outcome.bytes);
        assert(kinds[outcomes.len() - 1] == Some(last.outcome.kind));
        assert(front.push(last) =~= outcomes);
    } else {
        assert(outcomes =~= Seq::empty());
    }
}

impl SessionEntryView {
    /// The canonical bytes.
    pub open spec fn encoded(self) -> Seq<u8> {
        u128_bytes(self.session.0) + u64_bytes(self.state.floor.0) + u64_bytes(
            self.state.outcomes.len() as u64,
        ) + outcomes_bytes(self.state.outcomes)
    }

    /// How its outcomes ended, in order.
    pub open spec fn readings(self) -> Seq<Option<OutcomeKind>> {
        Seq::new(self.state.outcomes.len(), |i: int| Some(self.state.outcomes[i].outcome.kind))
    }

    /// Outcomes are in order, and they and their number fit their fields.
    pub open spec fn framable(self) -> bool {
        &&& self.state.well_formed()
        &&& self.state.outcomes.len() <= usize::MAX
        &&& self.state.outcomes.len() <= u64::MAX
        &&& forall|i: int|
            0 <= i < self.state.outcomes.len() ==> (
            #[trigger] self.state.outcomes[i]).outcome.bytes.len() <= u32::MAX
    }
}

/// The session at `at` and where it ends, or why decoding stopped. Of two outcomes with
/// one sequence the later one stays.
pub open spec fn session_at(body: Seq<u8>, at: int, kinds: Seq<Option<OutcomeKind>>) -> Result<
    (SessionEntryView, int),
    SnapshotHalt,
> {
    if at + 24 > body.len() {
        Err(SnapshotHalt::Corrupt(SnapshotFlaw::Truncated))
    } else {
        match size_at(body, at + 24) {
            Err(halt) => Err(halt),
            Ok((count, here)) => match outcomes_at(body, here, count as nat, kinds) {
                Err(halt) => Err(halt),
                Ok((outcomes, next)) => Ok(
                    (
                        SessionEntryView {
                            session: SessionId(u128_at(body, at)),
                            state: SessionView {
                                floor: RequestSeq(u64_at(body, at + 16)),
                                outcomes: gathered(outcomes),
                            },
                        },
                        next,
                    ),
                ),
            },
        }
    }
}

/// Decodes the session at `at`.
pub fn decode_session(body: &[u8], at: usize, kinds: &Vec<Option<OutcomeKind>>) -> (taken: Result<
    (SessionEntry, usize),
    SnapshotHalt,
>)
    requires
        at <= body.len(),
    ensures
        match taken {
            Ok((session, next)) => session_at(body@, at as int, kinds@) == Ok::<_, SnapshotHalt>(
                (session@, next as int),
            ) && next <= body.len() && session@.state.well_formed(),
            Err(halt) => session_at(body@, at as int, kinds@) == Err::<(SessionEntryView, int), _>(
                halt,
            ),
        },
{
    if body.len() - at < 24 {
        return Err(SnapshotHalt::Corrupt(SnapshotFlaw::Truncated));
    }
    let session: SessionId = SessionId::from_u128(get_u128(body, at));
    let floor: RequestSeq = RequestSeq::from_u64(get_u64(body, at + 16));
    let (count, here): (usize, usize) = match get_size(body, at + 24) {
        Ok(found) => found,
        Err(halt) => return Err(halt),
    };
    match decode_outcomes(body, here, count, kinds) {
        Err(halt) => Err(halt),
        Ok((outcomes, next)) => Ok(
            (SessionEntry { session, state: SessionState::from_parts(floor, outcomes) }, next),
        ),
    }
}

/// Appends the canonical bytes of a session.
pub fn encode_session(out: &mut Vec<u8>, entry: &SessionEntry)
    ensures
        final(out)@ == old(out)@ + entry@.encoded(),
{
    let ghost start = out@;
    let outcomes: &Vec<RetainedOutcome> = entry.state.outcomes();
    put_u128(out, entry.session.as_u128());
    put_u64(out, entry.state.floor().as_u64());
    put_u64(out, outcomes.len() as u64);
    let ghost head = out@;
    let ghost all = views(outcomes@);
    let mut at: usize = 0;
    proof {
        assert(all.take(0) =~= Seq::empty());
        assert(head + outcomes_bytes(all.take(0)) =~= head);
    }
    while at < outcomes.len()
        invariant
            at <= outcomes.len(),
            all == views(outcomes@),
            out@ == head + outcomes_bytes(all.take(at as int)),
        decreases outcomes.len() - at,
    {
        let ghost before = out@;
        put_u64(out, outcomes[at].seq.as_u64());
        put_u64(out, outcomes[at].commit.as_u64());
        out.push(outcomes[at].opcode);
        put_blob(out, &outcomes[at].outcome.bytes);
        at = at + 1;
        proof {
            let now = all.take(at as int);
            assert(now.drop_last() =~= all.take(at - 1));
            assert(now.last() == outcomes@[at - 1]@);
            assert(out@ =~= before + now.last().encoded());
            assert(out@ =~= head + outcomes_bytes(now));
        }
    }
    proof {
        assert(all.take(at as int) =~= all);
        assert(all.len() == outcomes.len());
        assert(out@ =~= start + entry@.encoded());
    }
}

/// A session reads back from its canonical bytes, wherever these stand.
pub proof fn law_session_round_trip(body: Seq<u8>, at: int, entry: SessionEntryView)
    requires
        holds(body, at, entry.encoded()),
        entry.framable(),
    ensures
        session_at(body, at, entry.readings()) == Ok::<_, SnapshotHalt>(
            (entry, at + entry.encoded().len()),
        ),
{
    broadcast use group_fields;

    let outcomes = entry.state.outcomes;
    let session = u128_bytes(entry.session.0);
    let floor = u64_bytes(entry.state.floor.0);
    let count = u64_bytes(outcomes.len() as u64);
    lemma_holds_split(body, at, session + floor + count, outcomes_bytes(outcomes));
    lemma_holds_split(body, at, session + floor, count);
    lemma_holds_split(body, at, session, floor);
    lemma_holds_u128(body, at, entry.session.0);
    lemma_holds_u64(body, at + 16, entry.state.floor.0);
    lemma_holds_u64(body, at + 24, outcomes.len() as u64);
    lemma_outcomes_round_trip(body, at + 32, outcomes, entry.readings());
    lemma_gathered_rising(outcomes);
}

/// The first `count` sessions from `at` on and where they end, or why decoding stopped.
pub open spec fn sessions_at(
    body: Seq<u8>,
    at: int,
    count: nat,
    tapes: Seq<Seq<Option<OutcomeKind>>>,
) -> Result<
    (Seq<SessionEntryView>, int),
    SnapshotHalt,
>
    decreases count,
{
    if count == 0 {
        Ok((Seq::empty(), at))
    } else {
        match sessions_at(body, at, (count - 1) as nat, tapes) {
            Err(halt) => Err(halt),
            Ok((before, here)) => match session_at(body, here, tape_of(tapes, count - 1)) {
                Err(halt) => Err(numbered(halt, count - 1)),
                Ok((session, next)) => Ok((before.push(session), next)),
            },
        }
    }
}

/// The canonical bytes of a list of sessions.
pub open spec fn sessions_bytes(sessions: Seq<SessionEntryView>) -> Seq<u8>
    decreases sessions.len(),
{
    if sessions.len() == 0 {
        Seq::empty()
    } else {
        sessions_bytes(sessions.drop_last()) + sessions.last().encoded()
    }
}

/// What is read for a list of sessions.
pub open spec fn sessions_tapes(sessions: Seq<SessionEntryView>) -> Seq<Seq<Option<OutcomeKind>>> {
    Seq::new(sessions.len(), |i: int| sessions[i].readings())
}

proof fn lemma_sessions_stop(
    body: Seq<u8>,
    at: int,
    n: nat,
    count: nat,
    tapes: Seq<Seq<Option<OutcomeKind>>>,
    halt: SnapshotHalt,
)
    requires
        n <= count,
        sessions_at(body, at, n, tapes) == Err::<(Seq<SessionEntryView>, int), _>(halt),
    ensures
        sessions_at(body, at, count, tapes) == Err::<(Seq<SessionEntryView>, int), _>(halt),
    decreases count,
{
    if n < count {
        lemma_sessions_stop(body, at, n, (count - 1) as nat, tapes, halt);
    }
}

/// Decodes `count` sessions from `at` on.
pub fn decode_sessions(
    body: &[u8],
    at: usize,
    count: usize,
    tapes: &Vec<Vec<Option<OutcomeKind>>>,
) -> (taken:
    Result<(Vec<SessionEntry>, usize), SnapshotHalt>)
    requires
        at <= body.len(),
    ensures
        match taken {
            Ok((sessions, next)) => sessions_at(
                body@,
                at as int,
                count as nat,
                views(tapes@),
            ) == Ok::<
                _,
                SnapshotHalt,
            >((views(sessions@), next as int)) && next <= body.len() && forall|i: int|
                0 <= i < sessions.len() ==> (#[trigger] sessions@[i])@.state.well_formed(),
            Err(halt) => sessions_at(body@, at as int, count as nat, views(tapes@)) == Err::<
                (Seq<SessionEntryView>, int),
                _,
            >(halt),
        },
{
    let none: Vec<Option<OutcomeKind>> = Vec::new();
    let mut sessions: Vec<SessionEntry> = Vec::new();
    let mut here: usize = at;
    let mut done: usize = 0;
    proof {
        assert(views(sessions@) =~= Seq::empty());
    }
    while done < count
        invariant
            done <= count,
            none@.len() == 0,
            here <= body.len(),
            sessions_at(body@, at as int, done as nat, views(tapes@)) == Ok::<_, SnapshotHalt>(
                (views(sessions@), here as int),
            ),
            forall|i: int|
                0 <= i < sessions.len() ==> (#[trigger] sessions@[i])@.state.well_formed(),
        decreases count - done,
    {
        let tape: &Vec<Option<OutcomeKind>> = if done < tapes.len() {
            &tapes[done]
        } else {
            &none
        };
        proof {
            assert(tape@ =~= tape_of(views(tapes@), done as int));
        }
        match decode_session(body, here, tape) {
            Err(halt) => {
                let stop: SnapshotHalt = number(halt, done);
                proof {
                    lemma_sessions_stop(
                        body@,
                        at as int,
                        (done + 1) as nat,
                        count as nat,
                        views(tapes@),
                        stop,
                    );
                }
                return Err(stop);
            },
            Ok((taken, next)) => {
                let ghost before = sessions@;
                sessions.push(taken);
                here = next;
                proof {
                    assert(views(sessions@) =~= views(before).push(taken@));
                }
            },
        }
        done = done + 1;
    }
    Ok((sessions, here))
}

/// Appends the canonical bytes of a list of sessions.
pub fn encode_sessions(out: &mut Vec<u8>, sessions: &Vec<SessionEntry>)
    ensures
        final(out)@ == old(out)@ + sessions_bytes(views(sessions@)),
{
    let ghost start = out@;
    let ghost all = views(sessions@);
    let mut at: usize = 0;
    proof {
        assert(all.take(0) =~= Seq::empty());
        assert(start + sessions_bytes(all.take(0)) =~= start);
    }
    while at < sessions.len()
        invariant
            at <= sessions.len(),
            all == views(sessions@),
            out@ == start + sessions_bytes(all.take(at as int)),
        decreases sessions.len() - at,
    {
        encode_session(out, &sessions[at]);
        at = at + 1;
        proof {
            let now = all.take(at as int);
            assert(now.drop_last() =~= all.take(at - 1));
            assert(now.last() == sessions@[at - 1]@);
            assert(out@ =~= start + sessions_bytes(now));
        }
    }
    proof {
        assert(all.take(at as int) =~= all);
    }
}

/// A list of sessions reads back from its canonical bytes, wherever these stand.
pub proof fn law_sessions_round_trip(
    body: Seq<u8>,
    at: int,
    sessions: Seq<SessionEntryView>,
    tapes: Seq<Seq<Option<OutcomeKind>>>,
)
    requires
        holds(body, at, sessions_bytes(sessions)),
        forall|i: int| 0 <= i < sessions.len() ==> (#[trigger] sessions[i]).framable(),
        sessions.len() <= tapes.len(),
        forall|i: int|
            0 <= i < sessions.len() ==> #[trigger] tapes[i] == sessions_tapes(sessions)[i],
    ensures
        sessions_at(body, at, sessions.len(), tapes) == Ok::<_, SnapshotHalt>(
            (sessions, at + sessions_bytes(sessions).len()),
        ),
    decreases sessions.len(),
{
    if sessions.len() > 0 {
        let front = sessions.drop_last();
        let last = sessions.last();
        lemma_holds_split(body, at, sessions_bytes(front), last.encoded());
        assert forall|i: int| 0 <= i < front.len() implies (#[trigger] front[i]).framable() by {
            assert(front[i] == sessions[i]);
        }
        assert forall|i: int| 0 <= i < front.len() implies #[trigger] tapes[i]
            == sessions_tapes(front)[i] by {
            assert(tapes[i] == sessions_tapes(sessions)[i]);
        }
        law_sessions_round_trip(body, at, front, tapes);
        assert(sessions[sessions.len() - 1].framable());
        assert(tapes[sessions.len() - 1] == sessions_tapes(sessions)[sessions.len() - 1]);
        law_session_round_trip(body, at + sessions_bytes(front).len(), last);
        assert(front.push(last) =~= sessions);
    } else {
        assert(sessions =~= Seq::empty());
    }
}

/// A prepared transaction that reserves a key. Its key, expectation, write and observed
/// version are held in their own encodings.
#[derive(Debug, PartialEq, Eq)]
pub struct TxnIntent {
    /// Identity of the transaction.
    pub id: u128,
    /// Tablet that coordinates it.
    pub coordinator: TabletId,
    /// Key reserved.
    pub key: Vec<u8>,
    /// What the write expects.
    pub expect: Vec<u8>,
    /// What the write does.
    pub write: Vec<u8>,
    /// Digest of the write set.
    pub digest: [u8; 32],
    /// Version observed at the time.
    pub observed: Option<Vec<u8>>,
    /// When it was prepared.
    pub prepared_at: u64,
}

/// What a [`TxnIntent`] says.
#[verifier::ext_equal]
pub struct IntentView {
    pub id: u128,
    pub coordinator: TabletId,
    pub key: Seq<u8>,
    pub expect: Seq<u8>,
    pub write: Seq<u8>,
    pub digest: Seq<u8>,
    pub observed: Option<Seq<u8>>,
    pub prepared_at: u64,
}

impl View for TxnIntent {
    type V = IntentView;

    open spec fn view(&self) -> IntentView {
        IntentView {
            id: self.id,
            coordinator: self.coordinator,
            key: self.key@,
            expect: self.expect@,
            write: self.write@,
            digest: self.digest@,
            observed: match self.observed {
                Some(version) => Some(version@),
                None => None,
            },
            prepared_at: self.prepared_at,
        }
    }
}

/// An optional version behind its flag.
pub open spec fn observed_bytes(observed: Option<Seq<u8>>) -> Seq<u8> {
    match observed {
        None => seq![0u8],
        Some(version) => seq![1u8] + version,
    }
}

impl IntentView {
    /// The canonical bytes.
    pub open spec fn encoded(self) -> Seq<u8> {
        u128_bytes(self.id) + u64_bytes(self.coordinator.0) + self.key + self.expect + self.write
            + self.digest + observed_bytes(self.observed) + u64_bytes(self.prepared_at)
    }

    /// What the decoders of its pieces read, in order.
    pub open spec fn readings(self) -> Seq<Reading> {
        let first = seq![good(self.key), good(self.expect), good(self.write)];
        match self.observed {
            Some(version) => first.push(good(version)),
            None => first,
        }
    }

    /// Its pieces fit the address space, and its digest has the length of one.
    pub open spec fn framable(self) -> bool {
        &&& self.encoded().len() <= usize::MAX
        &&& self.digest.len() == 32
    }
}

/// The optional version at `at`, whose reading is number `turn`, and where it ends.
pub open spec fn observed_at(body: Seq<u8>, at: int, readings: Seq<Reading>, turn: int) -> Result<
    (Option<Seq<u8>>, int),
    SnapshotHalt,
> {
    if at >= body.len() {
        Err(SnapshotHalt::Corrupt(SnapshotFlaw::Truncated))
    } else if body[at] == 0 {
        Ok((None, at + 1))
    } else if body[at] != 1 {
        Err(SnapshotHalt::Corrupt(SnapshotFlaw::IntentObservedTag))
    } else {
        match piece_at(
            body,
            at + 1,
            readings,
            turn,
            Piece::IntentVersion,
            ImageFault::BadVersion,
            ImageFault::BadVersion,
        ) {
            Err(halt) => Err(lifted(halt, SnapshotFlaw::IntentVersion)),
            Ok((version, next)) => Ok((Some(version), next)),
        }
    }
}

/// The prepared transaction at `at` and where it ends, or why decoding stopped.
pub open spec fn intent_at(body: Seq<u8>, at: int, readings: Seq<Reading>) -> Result<
    (IntentView, int),
    SnapshotHalt,
> {
    if at + 24 > body.len() {
        Err(SnapshotHalt::Corrupt(SnapshotFlaw::Truncated))
    } else {
        match piece_at(
            body,
            at + 24,
            readings,
            0,
            Piece::IntentKey,
            ImageFault::BadKey,
            ImageFault::BadKey,
        ) {
            Err(halt) => Err(lifted(halt, SnapshotFlaw::IntentKey)),
            Ok((key, after_key)) => match piece_at(
                body,
                after_key,
                readings,
                1,
                Piece::Expectation,
                ImageFault::BadBytes,
                ImageFault::BadBytes,
            ) {
                Err(halt) => Err(lifted(halt, SnapshotFlaw::IntentExpectation)),
                Ok((expect, after_expect)) => match piece_at(
                    body,
                    after_expect,
                    readings,
                    2,
                    Piece::Write,
                    ImageFault::BadBytes,
                    ImageFault::BadBytes,
                ) {
                    Err(halt) => Err(lifted(halt, SnapshotFlaw::IntentWrite)),
                    Ok((write, here)) => if here + 32 > body.len() {
                        Err(SnapshotHalt::Corrupt(SnapshotFlaw::Truncated))
                    } else {
                        match observed_at(body, here + 32, readings, 3) {
                            Err(halt) => Err(halt),
                            Ok((observed, there)) => match word_at(body, there) {
                                Err(halt) => Err(halt),
                                Ok((prepared_at, next)) => Ok(
                                    (
                                        IntentView {
                                            id: u128_at(body, at),
                                            coordinator: TabletId(u64_at(body, at + 16)),
                                            key,
                                            expect,
                                            write,
                                            digest: body.subrange(here, here + 32),
                                            observed,
                                            prepared_at,
                                        },
                                        next,
                                    ),
                                ),
                            },
                        }
                    },
                },
            },
        }
    }
}

fn decode_observed(body: &[u8], at: usize, readings: &Vec<Reading>, turn: usize) -> (taken: Result<
    (Option<Vec<u8>>, usize),
    SnapshotHalt,
>)
    requires
        at <= body.len(),
    ensures
        match taken {
            Ok((observed, next)) => observed_at(body@, at as int, readings@, turn as int) == Ok::<
                _,
                SnapshotHalt,
            >(
                (
                    match observed {
                        Some(version) => Some(version@),
                        None => None,
                    },
                    next as int,
                ),
            ) && next <= body.len(),
            Err(halt) => observed_at(body@, at as int, readings@, turn as int) == Err::<
                (Option<Seq<u8>>, int),
                _,
            >(halt),
        },
{
    if at >= body.len() {
        return Err(SnapshotHalt::Corrupt(SnapshotFlaw::Truncated));
    }
    if body[at] == 0 {
        return Ok((None, at + 1));
    }
    if body[at] != 1 {
        return Err(SnapshotHalt::Corrupt(SnapshotFlaw::IntentObservedTag));
    }
    match take_piece(
        body,
        at + 1,
        readings,
        turn,
        Piece::IntentVersion,
        ImageFault::BadVersion,
        ImageFault::BadVersion,
    ) {
        Err(halt) => Err(lift(halt, SnapshotFlaw::IntentVersion)),
        Ok((version, next)) => Ok((Some(version), next)),
    }
}

/// Decodes the prepared transaction at `at`.
pub fn decode_intent(body: &[u8], at: usize, readings: &Vec<Reading>) -> (taken: Result<
    (TxnIntent, usize),
    SnapshotHalt,
>)
    requires
        at <= body.len(),
    ensures
        match taken {
            Ok((intent, next)) => intent_at(body@, at as int, readings@) == Ok::<_, SnapshotHalt>(
                (intent@, next as int),
            ) && next <= body.len(),
            Err(halt) => intent_at(body@, at as int, readings@) == Err::<(IntentView, int), _>(
                halt,
            ),
        },
{
    if body.len() - at < 24 {
        return Err(SnapshotHalt::Corrupt(SnapshotFlaw::Truncated));
    }
    let id: u128 = get_u128(body, at);
    let coordinator: TabletId = TabletId::from_u64(get_u64(body, at + 16));
    let (key, after_key): (Vec<u8>, usize) = match take_piece(
        body,
        at + 24,
        readings,
        0,
        Piece::IntentKey,
        ImageFault::BadKey,
        ImageFault::BadKey,
    ) {
        Ok(taken) => taken,
        Err(halt) => return Err(lift(halt, SnapshotFlaw::IntentKey)),
    };
    let (expect, after_expect): (Vec<u8>, usize) = match take_piece(
        body,
        after_key,
        readings,
        1,
        Piece::Expectation,
        ImageFault::BadBytes,
        ImageFault::BadBytes,
    ) {
        Ok(taken) => taken,
        Err(halt) => return Err(lift(halt, SnapshotFlaw::IntentExpectation)),
    };
    let (write, here): (Vec<u8>, usize) = match take_piece(
        body,
        after_expect,
        readings,
        2,
        Piece::Write,
        ImageFault::BadBytes,
        ImageFault::BadBytes,
    ) {
        Ok(taken) => taken,
        Err(halt) => return Err(lift(halt, SnapshotFlaw::IntentWrite)),
    };
    if body.len() - here < 32 {
        return Err(SnapshotHalt::Corrupt(SnapshotFlaw::Truncated));
    }
    let digest: [u8; 32] = get_digest(body, here);
    let (observed, there): (Option<Vec<u8>>, usize) = match decode_observed(
        body,
        here + 32,
        readings,
        3,
    ) {
        Ok(taken) => taken,
        Err(halt) => return Err(halt),
    };
    if body.len() - there < 8 {
        return Err(SnapshotHalt::Corrupt(SnapshotFlaw::Truncated));
    }
    let prepared_at: u64 = get_u64(body, there);
    Ok(
        (
            TxnIntent { id, coordinator, key, expect, write, digest, observed, prepared_at },
            there + 8,
        ),
    )
}

/// Appends the canonical bytes of a prepared transaction.
pub fn encode_intent(out: &mut Vec<u8>, intent: &TxnIntent)
    ensures
        final(out)@ == old(out)@ + intent@.encoded(),
{
    let ghost start = out@;
    put_u128(out, intent.id);
    put_u64(out, intent.coordinator.as_u64());
    put_bytes(out, &intent.key);
    put_bytes(out, &intent.expect);
    put_bytes(out, &intent.write);
    put_bytes(out, &intent.digest);
    match &intent.observed {
        None => {
            out.push(0);
        },
        Some(version) => {
            out.push(1);
            put_bytes(out, version);
        },
    }
    put_u64(out, intent.prepared_at);
    proof {
        assert(out@ =~= start + intent@.encoded());
    }
}

proof fn lemma_observed_round_trip(
    body: Seq<u8>,
    at: int,
    observed: Option<Seq<u8>>,
    readings: Seq<Reading>,
    turn: int,
)
    requires
        holds(body, at, observed_bytes(observed)),
        0 <= turn,
        observed matches Some(version) ==> turn < readings.len() && readings[turn] == good(version)
            && version.len() <= usize::MAX,
    ensures
        observed_at(body, at, readings, turn) == Ok::<_, SnapshotHalt>(
            (observed, at + observed_bytes(observed).len()),
        ),
{
    match observed {
        None => {
            lemma_holds_byte(body, at, 0);
        },
        Some(version) => {
            lemma_holds_split(body, at, seq![1u8], version);
            lemma_holds_byte(body, at, 1);
            lemma_holds_piece(
                body,
                at + 1,
                readings,
                turn,
                Piece::IntentVersion,
                ImageFault::BadVersion,
                ImageFault::BadVersion,
                version,
            );
        },
    }
}

/// A prepared transaction reads back from its canonical bytes, wherever these stand.
pub proof fn law_intent_round_trip(body: Seq<u8>, at: int, intent: IntentView)
    requires
        holds(body, at, intent.encoded()),
        intent.framable(),
    ensures
        intent_at(body, at, intent.readings()) == Ok::<_, SnapshotHalt>(
            (intent, at + intent.encoded().len()),
        ),
{
    broadcast use group_fields;

    let id = u128_bytes(intent.id);
    let coordinator = u64_bytes(intent.coordinator.0);
    let observed = observed_bytes(intent.observed);
    let prepared = u64_bytes(intent.prepared_at);
    let p2 = id + coordinator;
    let p3 = p2 + intent.key;
    let p4 = p3 + intent.expect;
    let p5 = p4 + intent.write;
    let p6 = p5 + intent.digest;
    let p7 = p6 + observed;
    lemma_holds_split(body, at, p7, prepared);
    lemma_holds_split(body, at, p6, observed);
    lemma_holds_split(body, at, p5, intent.digest);
    lemma_holds_split(body, at, p4, intent.write);
    lemma_holds_split(body, at, p3, intent.expect);
    lemma_holds_split(body, at, p2, intent.key);
    lemma_holds_split(body, at, id, coordinator);
    lemma_holds_u128(body, at, intent.id);
    lemma_holds_u64(body, at + 16, intent.coordinator.0);
    let readings = intent.readings();
    lemma_holds_piece(
        body,
        at + p2.len(),
        readings,
        0,
        Piece::IntentKey,
        ImageFault::BadKey,
        ImageFault::BadKey,
        intent.key,
    );
    lemma_holds_piece(
        body,
        at + p3.len(),
        readings,
        1,
        Piece::Expectation,
        ImageFault::BadBytes,
        ImageFault::BadBytes,
        intent.expect,
    );
    lemma_holds_piece(
        body,
        at + p4.len(),
        readings,
        2,
        Piece::Write,
        ImageFault::BadBytes,
        ImageFault::BadBytes,
        intent.write,
    );
    lemma_holds(body, at + p5.len(), intent.digest);
    lemma_observed_round_trip(body, at + p6.len(), intent.observed, readings, 3);
    lemma_holds_u64(body, at + p7.len(), intent.prepared_at);
}

/// The first `count` intents from `at` on and where they end, or why decoding stopped.
pub open spec fn intents_at(body: Seq<u8>, at: int, count: nat, tapes: Seq<Seq<Reading>>) -> Result<
    (Seq<IntentView>, int),
    SnapshotHalt,
>
    decreases count,
{
    if count == 0 {
        Ok((Seq::empty(), at))
    } else {
        match intents_at(body, at, (count - 1) as nat, tapes) {
            Err(halt) => Err(halt),
            Ok((before, here)) => match intent_at(body, here, tape_of(tapes, count - 1)) {
                Err(halt) => Err(numbered(halt, count - 1)),
                Ok((intent, next)) => Ok((before.push(intent), next)),
            },
        }
    }
}

/// The canonical bytes of a list of intents.
pub open spec fn intents_bytes(intents: Seq<IntentView>) -> Seq<u8>
    decreases intents.len(),
{
    if intents.len() == 0 {
        Seq::empty()
    } else {
        intents_bytes(intents.drop_last()) + intents.last().encoded()
    }
}

/// What is read for a list of intents.
pub open spec fn intents_tapes(intents: Seq<IntentView>) -> Seq<Seq<Reading>> {
    Seq::new(intents.len(), |i: int| intents[i].readings())
}

proof fn lemma_intents_stop(
    body: Seq<u8>,
    at: int,
    n: nat,
    count: nat,
    tapes: Seq<Seq<Reading>>,
    halt: SnapshotHalt,
)
    requires
        n <= count,
        intents_at(body, at, n, tapes) == Err::<(Seq<IntentView>, int), _>(halt),
    ensures
        intents_at(body, at, count, tapes) == Err::<(Seq<IntentView>, int), _>(halt),
    decreases count,
{
    if n < count {
        lemma_intents_stop(body, at, n, (count - 1) as nat, tapes, halt);
    }
}

/// Decodes `count` intents from `at` on.
pub fn decode_intents(body: &[u8], at: usize, count: usize, tapes: &Vec<Vec<Reading>>) -> (taken:
    Result<(Vec<TxnIntent>, usize), SnapshotHalt>)
    requires
        at <= body.len(),
    ensures
        match taken {
            Ok((intents, next)) => intents_at(
                body@,
                at as int,
                count as nat,
                views(tapes@),
            ) == Ok::<
                _,
                SnapshotHalt,
            >((views(intents@), next as int)) && next <= body.len(),
            Err(halt) => intents_at(body@, at as int, count as nat, views(tapes@)) == Err::<
                (Seq<IntentView>, int),
                _,
            >(halt),
        },
{
    let none: Vec<Reading> = Vec::new();
    let mut intents: Vec<TxnIntent> = Vec::new();
    let mut here: usize = at;
    let mut done: usize = 0;
    proof {
        assert(views(intents@) =~= Seq::empty());
    }
    while done < count
        invariant
            done <= count,
            none@.len() == 0,
            here <= body.len(),
            intents_at(body@, at as int, done as nat, views(tapes@)) == Ok::<_, SnapshotHalt>(
                (views(intents@), here as int),
            ),
        decreases count - done,
    {
        let tape: &Vec<Reading> = if done < tapes.len() {
            &tapes[done]
        } else {
            &none
        };
        proof {
            assert(tape@ =~= tape_of(views(tapes@), done as int));
        }
        match decode_intent(body, here, tape) {
            Err(halt) => {
                let stop: SnapshotHalt = number(halt, done);
                proof {
                    lemma_intents_stop(
                        body@,
                        at as int,
                        (done + 1) as nat,
                        count as nat,
                        views(tapes@),
                        stop,
                    );
                }
                return Err(stop);
            },
            Ok((taken, next)) => {
                let ghost before = intents@;
                intents.push(taken);
                here = next;
                proof {
                    assert(views(intents@) =~= views(before).push(taken@));
                }
            },
        }
        done = done + 1;
    }
    Ok((intents, here))
}

/// Appends the canonical bytes of a list of intents.
pub fn encode_intents(out: &mut Vec<u8>, intents: &Vec<TxnIntent>)
    ensures
        final(out)@ == old(out)@ + intents_bytes(views(intents@)),
{
    let ghost start = out@;
    let ghost all = views(intents@);
    let mut at: usize = 0;
    proof {
        assert(all.take(0) =~= Seq::empty());
        assert(start + intents_bytes(all.take(0)) =~= start);
    }
    while at < intents.len()
        invariant
            at <= intents.len(),
            all == views(intents@),
            out@ == start + intents_bytes(all.take(at as int)),
        decreases intents.len() - at,
    {
        encode_intent(out, &intents[at]);
        at = at + 1;
        proof {
            let now = all.take(at as int);
            assert(now.drop_last() =~= all.take(at - 1));
            assert(now.last() == intents@[at - 1]@);
            assert(out@ =~= start + intents_bytes(now));
        }
    }
    proof {
        assert(all.take(at as int) =~= all);
    }
}

/// A list of intents reads back from its canonical bytes, wherever these stand.
pub proof fn law_intents_round_trip(
    body: Seq<u8>,
    at: int,
    intents: Seq<IntentView>,
    tapes: Seq<Seq<Reading>>,
)
    requires
        holds(body, at, intents_bytes(intents)),
        forall|i: int| 0 <= i < intents.len() ==> (#[trigger] intents[i]).framable(),
        intents.len() <= tapes.len(),
        forall|i: int|
            0 <= i < intents.len() ==> #[trigger] tapes[i] == intents_tapes(intents)[i],
    ensures
        intents_at(body, at, intents.len(), tapes) == Ok::<_, SnapshotHalt>(
            (intents, at + intents_bytes(intents).len()),
        ),
    decreases intents.len(),
{
    if intents.len() > 0 {
        let front = intents.drop_last();
        let last = intents.last();
        lemma_holds_split(body, at, intents_bytes(front), last.encoded());
        assert forall|i: int| 0 <= i < front.len() implies (#[trigger] front[i]).framable() by {
            assert(front[i] == intents[i]);
        }
        assert forall|i: int| 0 <= i < front.len() implies #[trigger] tapes[i]
            == intents_tapes(front)[i] by {
            assert(tapes[i] == intents_tapes(intents)[i]);
        }
        law_intents_round_trip(body, at, front, tapes);
        assert(intents[intents.len() - 1].framable());
        assert(tapes[intents.len() - 1] == intents_tapes(intents)[intents.len() - 1]);
        law_intent_round_trip(body, at + intents_bytes(front).len(), last);
        assert(front.push(last) =~= intents);
    } else {
        assert(intents =~= Seq::empty());
    }
}

/// A prepared transaction is asked for four pieces at most.
pub proof fn law_intent_questions_are_few(
    body: Seq<u8>,
    at: int,
    count: nat,
    tapes: Seq<Seq<Reading>>,
)
    requires
        count <= usize::MAX,
    ensures
        intents_at(body, at, count, tapes) matches Err(
            SnapshotHalt::Pending { piece, item, .. },
        ) ==> of_intent(piece) && item < count && tape_of(tapes, item as int).len() < 4,
    decreases count,
{
    if count > 0 {
        law_intent_questions_are_few(body, at, (count - 1) as nat, tapes);
    }
}

proof fn lemma_outcomes_take_room(
    body: Seq<u8>,
    at: int,
    count: nat,
    kinds: Seq<Option<OutcomeKind>>,
)
    requires
        0 <= at <= body.len(),
    ensures
        match outcomes_at(body, at, count, kinds) {
            Ok((_, next)) => at + count <= next <= body.len(),
            Err(halt) => halt matches SnapshotHalt::Pending { piece, .. } ==> piece is Outcome
                && kinds.len() < body.len(),
        },
    decreases count,
{
    if count > 0 {
        lemma_outcomes_take_room(body, at, (count - 1) as nat, kinds);
    }
}

/// A session is asked for the outcomes that it holds, of which there are fewer than bytes.
pub proof fn law_session_questions_are_few(
    body: Seq<u8>,
    at: int,
    count: nat,
    tapes: Seq<Seq<Option<OutcomeKind>>>,
)
    requires
        count <= usize::MAX,
        0 <= at <= body.len(),
    ensures
        match sessions_at(body, at, count, tapes) {
            Ok((_, next)) => at <= next <= body.len(),
            Err(halt) => halt matches SnapshotHalt::Pending { piece, item, .. } ==> piece is Outcome
                && item < count && tape_of(tapes, item as int).len() < body.len(),
        },
    decreases count,
{
    if count > 0 {
        law_session_questions_are_few(body, at, (count - 1) as nat, tapes);
        if let Ok((_, here)) = sessions_at(body, at, (count - 1) as nat, tapes) {
            if let Ok((outcomes, next)) = size_at(body, here + 24) {
                lemma_outcomes_take_room(body, next, outcomes as nat, tape_of(tapes, count - 1));
            }
        }
    }
}

/// A retained outcome is its sequence, its commit position, its opcode and its bytes
/// behind their length; a session is its identity, its floor and its outcomes behind
/// their number.
pub proof fn law_session_layout(retained: RetainedView, session: SessionEntryView)
    requires
        retained.outcome.bytes.len() <= u32::MAX,
        session.state.outcomes.len() <= u64::MAX,
    ensures
        u64_at(retained.encoded(), 0) == retained.seq.0,
        u64_at(retained.encoded(), 8) == retained.commit.0,
        retained.encoded()[16] == retained.opcode,
        retained.encoded().skip(21) == retained.outcome.bytes,
        u128_at(session.encoded(), 0) == session.session.0,
        u64_at(session.encoded(), 16) == session.state.floor.0,
        u64_at(session.encoded(), 24) == session.state.outcomes.len(),
        session.encoded().skip(32) == outcomes_bytes(session.state.outcomes),
{
    broadcast use group_fields;

    let one = retained.encoded();
    let all = session.encoded();
    assert(one.subrange(0, 8) =~= u64_bytes(retained.seq.0));
    assert(one.subrange(8, 16) =~= u64_bytes(retained.commit.0));
    assert(one.skip(21) =~= retained.outcome.bytes);
    assert(all.subrange(0, 16) =~= u128_bytes(session.session.0));
    assert(all.subrange(16, 24) =~= u64_bytes(session.state.floor.0));
    assert(all.subrange(24, 32) =~= u64_bytes(session.state.outcomes.len() as u64));
    assert(all.skip(32) =~= outcomes_bytes(session.state.outcomes));
}

/// A prepared transaction starts with its identity and its coordinator, and ends with the
/// position at which it was prepared; an observed version stands behind a flag.
pub proof fn law_intent_layout(intent: IntentView)
    ensures
        ({
            let bytes = intent.encoded();
            let key_end = 24 + intent.key.len();
            let expect_end = key_end + intent.expect.len();
            let write_end = expect_end + intent.write.len();
            let digest_end = write_end + intent.digest.len();
            &&& u128_at(bytes, 0) == intent.id
            &&& u64_at(bytes, 16) == intent.coordinator.0
            &&& bytes.subrange(24, key_end as int) == intent.key
            &&& bytes.subrange(key_end as int, expect_end as int) == intent.expect
            &&& bytes.subrange(expect_end as int, write_end as int) == intent.write
            &&& bytes.subrange(write_end as int, digest_end as int) == intent.digest
            &&& bytes[digest_end as int] == if intent.observed is Some {
                1u8
            } else {
                0u8
            }
            &&& u64_at(bytes, bytes.len() - 8) == intent.prepared_at
            &&& intent.observed matches Some(version) ==> bytes.subrange(
                digest_end + 1int,
                bytes.len() - 8,
            ) == version
            &&& intent.observed is None ==> bytes.len() == digest_end + 9
        }),
{
    broadcast use group_fields;

    let bytes = intent.encoded();
    let key_end = 24int + intent.key.len();
    let expect_end = key_end + intent.expect.len();
    let write_end = expect_end + intent.write.len();
    let digest_end = write_end + intent.digest.len();
    assert(bytes.subrange(0, 16) =~= u128_bytes(intent.id));
    assert(bytes.subrange(16, 24) =~= u64_bytes(intent.coordinator.0));
    assert(bytes.subrange(24, key_end) =~= intent.key);
    assert(bytes.subrange(key_end, expect_end) =~= intent.expect);
    assert(bytes.subrange(expect_end, write_end) =~= intent.write);
    assert(bytes.subrange(write_end, digest_end) =~= intent.digest);
    assert(bytes.subrange(bytes.len() - 8, bytes.len() as int) =~= u64_bytes(
        intent.prepared_at,
    ));
    if let Some(version) = intent.observed {
        assert(bytes.subrange(digest_end + 1, bytes.len() - 8) =~= version);
    }
}

} // verus!
