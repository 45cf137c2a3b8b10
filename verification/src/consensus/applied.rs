//! What a replica applied last, and the file that says so.
//!
//! The applied file holds the last applied entry, the members of the group and the name
//! of the snapshot that was sealed with them, so that they survive the loss of every
//! snapshot.

use crate::consensus::image::{
    blob, blob_at, get_blob, holds, lemma_holds_blob, lemma_holds_byte, lemma_holds_split,
    lemma_holds_u64, lemma_holds_whole, put_blob, ImageFault,
};
use crate::consensus::membership::{
    law_membership_round_trip, membership_at, MembershipView, StoredMembership,
};
use crate::text::text_of_bytes;
use crate::wire::{get_u64, group_fields, put_u64, u64_at, u64_bytes};
use vstd::prelude::*;
use vstd::utf8::*;

verus! {

/// The last log entry that a state machine applied.
#[derive(Debug, Clone, Copy, PartialEq, Eq, Structural)]
pub struct AppliedPointer {
    /// Term of the entry.
    pub term: u64,
    /// Leader of the entry.
    pub leader: u64,
    /// Index of the entry.
    pub index: u64,
}

/// The three words of a log position.
pub open spec fn pointer_bytes(pointer: AppliedPointer) -> Seq<u8> {
    u64_bytes(pointer.term) + u64_bytes(pointer.leader) + u64_bytes(pointer.index)
}

/// The log position at `at`.
pub open spec fn pointer_at(input: Seq<u8>, at: int) -> AppliedPointer {
    AppliedPointer {
        term: u64_at(input, at),
        leader: u64_at(input, at + 8),
        index: u64_at(input, at + 16),
    }
}

/// A log position that stands in its place reads back.
pub proof fn lemma_holds_pointer(input: Seq<u8>, at: int, pointer: AppliedPointer)
    requires
        holds(input, at, pointer_bytes(pointer)),
    ensures
        pointer_bytes(pointer).len() == 24,
        at + 24 <= input.len(),
        pointer_at(input, at) == pointer,
{
    broadcast use group_fields;

    let term = u64_bytes(pointer.term);
    let leader = u64_bytes(pointer.leader);
    let index = u64_bytes(pointer.index);
    lemma_holds_split(input, at, term + leader, index);
    lemma_holds_split(input, at, term, leader);
    lemma_holds_u64(input, at, pointer.term);
    lemma_holds_u64(input, at + 8, pointer.leader);
    lemma_holds_u64(input, at + 16, pointer.index);
}

impl AppliedPointer {
    /// Builds a pointer from its parts.
    pub fn new(term: u64, leader: u64, index: u64) -> (pointer: Self)
        ensures
            pointer == (AppliedPointer { term, leader, index }),
    {
        AppliedPointer { term, leader, index }
    }

    /// Appends the three words.
    pub fn encode(self, out: &mut Vec<u8>)
        ensures
            final(out)@ == old(out)@ + pointer_bytes(self),
    {
        let ghost start = out@;
        put_u64(out, self.term);
        put_u64(out, self.leader);
        put_u64(out, self.index);
        proof {
            assert(out@ =~= start + pointer_bytes(self));
        }
    }

    /// Reads the three words at `at`.
    pub fn decode(input: &[u8], at: usize) -> (pointer: Self)
        requires
            at + 24 <= input.len(),
        ensures
            pointer == pointer_at(input@, at as int),
    {
        AppliedPointer {
            term: get_u64(input, at),
            leader: get_u64(input, at + 8),
            index: get_u64(input, at + 16),
        }
    }
}

/// An optional log position behind its flag.
pub open spec fn flagged_bytes(pointer: Option<AppliedPointer>) -> Seq<u8> {
    match pointer {
        None => seq![0u8],
        Some(pointer) => seq![1u8] + pointer_bytes(pointer),
    }
}

/// The optional log position at `at` and where it ends.
pub open spec fn flagged_at(input: Seq<u8>, at: int) -> Result<
    (Option<AppliedPointer>, int),
    ImageFault,
> {
    if at >= input.len() {
        Err(ImageFault::Truncated)
    } else if input[at] == 0 {
        Ok((None, at + 1))
    } else if input[at] != 1 {
        Err(ImageFault::BadValueTag { tag: input[at] })
    } else if at + 25 > input.len() {
        Err(ImageFault::Truncated)
    } else {
        Ok((Some(pointer_at(input, at + 1)), at + 25))
    }
}

/// An optional log position that stands in its place reads back.
pub proof fn lemma_holds_flagged(input: Seq<u8>, at: int, pointer: Option<AppliedPointer>)
    requires
        holds(input, at, flagged_bytes(pointer)),
    ensures
        flagged_at(input, at) == Ok::<_, ImageFault>((pointer, at + flagged_bytes(pointer).len())),
        flagged_bytes(pointer).len() == if pointer is Some {
            25nat
        } else {
            1nat
        },
        input[at] == if pointer is Some {
            1u8
        } else {
            0u8
        },
{
    match pointer {
        None => {
            lemma_holds_byte(input, at, 0);
        },
        Some(pointer) => {
            lemma_holds_split(input, at, seq![1u8], pointer_bytes(pointer));
            lemma_holds_byte(input, at, 1);
            lemma_holds_pointer(input, at + 1, pointer);
        },
    }
}

/// Appends an optional log position behind its flag.
pub fn put_flagged(out: &mut Vec<u8>, pointer: Option<AppliedPointer>)
    ensures
        final(out)@ == old(out)@ + flagged_bytes(pointer),
{
    let ghost start = out@;
    match pointer {
        None => {
            out.push(0);
        },
        Some(pointer) => {
            out.push(1);
            pointer.encode(out);
        },
    }
    proof {
        assert(out@ =~= start + flagged_bytes(pointer));
    }
}

fn get_flagged(input: &[u8], at: usize) -> (found: Result<
    (Option<AppliedPointer>, usize),
    ImageFault,
>)
    requires
        at <= input.len(),
    ensures
        match found {
            Ok((pointer, next)) => flagged_at(input@, at as int) == Ok::<_, ImageFault>(
                (pointer, next as int),
            ) && next <= input.len(),
            Err(fault) => flagged_at(input@, at as int) == Err::<(Option<AppliedPointer>, int), _>(
                fault,
            ),
        },
{
    if at >= input.len() {
        return Err(ImageFault::Truncated);
    }
    let tag: u8 = input[at];
    if tag == 0 {
        return Ok((None, at + 1));
    }
    if tag != 1 {
        return Err(ImageFault::BadValueTag { tag });
    }
    if input.len() - at < 25 {
        return Err(ImageFault::Truncated);
    }
    Ok((Some(AppliedPointer::decode(input, at + 1)), at + 25))
}

/// The contents of an applied file.
#[derive(Debug, PartialEq, Eq)]
pub struct AppliedFile {
    /// The last applied entry.
    pub applied: Option<AppliedPointer>,
    /// The members of the group.
    pub membership: StoredMembership,
    /// Name of the snapshot that was sealed with them.
    pub snapshot: String,
}

/// What an [`AppliedFile`] says.
#[verifier::ext_equal]
pub struct AppliedFileView {
    pub applied: Option<AppliedPointer>,
    pub membership: MembershipView,
    pub snapshot: Seq<char>,
}

impl View for AppliedFile {
    type V = AppliedFileView;

    open spec fn view(&self) -> AppliedFileView {
        AppliedFileView {
            applied: self.applied,
            membership: self.membership@,
            snapshot: self.snapshot@,
        }
    }
}

/// The canonical bytes of an applied file's body.
pub open spec fn applied_body(
    applied: Option<AppliedPointer>,
    membership: MembershipView,
    snapshot: Seq<char>,
) -> Seq<u8> {
    flagged_bytes(applied) + flagged_bytes(membership.log_id) + membership.encoded() + blob(
        encode_utf8(snapshot),
    )
}

/// The applied prefix of a body and where it ends, or what is wrong with it.
pub open spec fn applied_prefix(body: Seq<u8>) -> Result<
    ((Option<AppliedPointer>, MembershipView), int),
    ImageFault,
> {
    match flagged_at(body, 0) {
        Err(fault) => Err(fault),
        Ok((applied, here)) => match flagged_at(body, here) {
            Err(fault) => Err(fault),
            Ok((log_id, there)) => match membership_at(body, there, log_id) {
                Err(fault) => Err(fault),
                Ok((membership, next)) => Ok(((applied, membership), next)),
            },
        },
    }
}

/// The applied file with the given body, or what is wrong with it.
pub open spec fn applied_file(body: Seq<u8>) -> Result<AppliedFileView, ImageFault> {
    match applied_prefix(body) {
        Err(fault) => Err(fault),
        Ok(((applied, membership), here)) => match blob_at(body, here) {
            None => Err(ImageFault::BadAddress),
            Some((name, end)) => if end != body.len() {
                Err(ImageFault::TrailingBytes)
            } else if !valid_utf8(name) {
                Err(ImageFault::BadAddress)
            } else {
                Ok(AppliedFileView { applied, membership, snapshot: decode_utf8(name) })
            },
        },
    }
}

/// Encodes the body of an applied file.
pub fn encode_applied_file_body(
    applied: Option<AppliedPointer>,
    membership: &StoredMembership,
    snapshot: &str,
) -> (body: Vec<u8>)
    ensures
        body@ == applied_body(applied, membership@, snapshot@),
{
    let mut body: Vec<u8> = Vec::new();
    put_flagged(&mut body, applied);
    put_flagged(&mut body, membership.log_id);
    membership.encode(&mut body);
    put_blob(&mut body, snapshot.as_bytes());
    proof {
        assert(body@ =~= applied_body(applied, membership@, snapshot@));
    }
    body
}

/// Decodes the prefix of an applied file's body and says where it ends.
pub fn decode_applied_prefix(body: &[u8]) -> (result: Result<
    ((Option<AppliedPointer>, StoredMembership), usize),
    ImageFault,
>)
    ensures
        match result {
            Ok(((applied, membership), next)) => applied_prefix(body@) == Ok::<_, ImageFault>(
                ((applied, membership@), next as int),
            ) && next <= body.len() && membership@.well_formed(),
            Err(fault) => applied_prefix(body@) == Err::<
                ((Option<AppliedPointer>, MembershipView), int),
                _,
            >(fault),
        },
{
    let (applied, here): (Option<AppliedPointer>, usize) = match get_flagged(body, 0) {
        Ok(found) => found,
        Err(fault) => return Err(fault),
    };
    let (log_id, there): (Option<AppliedPointer>, usize) = match get_flagged(body, here) {
        Ok(found) => found,
        Err(fault) => return Err(fault),
    };
    match StoredMembership::decode(body, there, log_id) {
        Ok((membership, next)) => Ok(((applied, membership), next)),
        Err(fault) => Err(fault),
    }
}

/// Decodes the body of an applied file.
pub fn decode_applied_file_body(body: &[u8]) -> (result: Result<AppliedFile, ImageFault>)
    ensures
        match result {
            Ok(file) => applied_file(body@) == Ok::<_, ImageFault>(file@)
                && file@.membership.well_formed(),
            Err(fault) => applied_file(body@) == Err::<AppliedFileView, _>(fault),
        },
{
    let ((applied, membership), here): ((Option<AppliedPointer>, StoredMembership), usize) =
        match decode_applied_prefix(body) {
        Ok(found) => found,
        Err(fault) => return Err(fault),
    };
    match get_blob(body, here) {
        None => Err(ImageFault::BadAddress),
        Some((name, end)) => {
            if end != body.len() {
                return Err(ImageFault::TrailingBytes);
            }
            match text_of_bytes(name) {
                None => Err(ImageFault::BadAddress),
                Some(snapshot) => Ok(AppliedFile { applied, membership, snapshot }),
            }
        },
    }
}

/// An applied file reads back from its canonical bytes.
pub proof fn law_applied_file_round_trip(
    applied: Option<AppliedPointer>,
    membership: MembershipView,
    snapshot: Seq<char>,
)
    requires
        membership.well_formed(),
        membership.framable(),
        encode_utf8(snapshot).len() <= u32::MAX,
        applied_body(applied, membership, snapshot).len() <= usize::MAX,
    ensures
        applied_file(applied_body(applied, membership, snapshot)) == Ok::<_, ImageFault>(
            AppliedFileView { applied, membership: membership.flat(), snapshot },
        ),
{
    let body = applied_body(applied, membership, snapshot);
    let first = flagged_bytes(applied);
    let second = flagged_bytes(membership.log_id);
    let third = membership.encoded();
    let name = encode_utf8(snapshot);
    lemma_holds_whole(body);
    lemma_holds_split(body, 0, first + second + third, blob(name));
    lemma_holds_split(body, 0, first + second, third);
    lemma_holds_split(body, 0, first, second);
    lemma_holds_flagged(body, 0, applied);
    lemma_holds_flagged(body, first.len() as int, membership.log_id);
    law_membership_round_trip(body, (first.len() + second.len()) as int, membership);
    lemma_holds_blob(body, (first.len() + second.len() + third.len()) as int, name);
    encode_utf8_valid_utf8(snapshot);
    encode_utf8_decode_utf8(snapshot);
}

/// A pointer is its term, its leader and its index, in this order; an optional one stands
/// behind a flag.
pub proof fn law_pointer_layout(pointer: AppliedPointer)
    ensures
        pointer_bytes(pointer).len() == 24,
        u64_at(pointer_bytes(pointer), 0) == pointer.term,
        u64_at(pointer_bytes(pointer), 8) == pointer.leader,
        u64_at(pointer_bytes(pointer), 16) == pointer.index,
        flagged_bytes(None) == seq![0u8],
        flagged_bytes(Some(pointer))[0] == 1,
        flagged_bytes(Some(pointer)).skip(1) == pointer_bytes(pointer),
{
    broadcast use group_fields;

    let bytes = pointer_bytes(pointer);
    assert(bytes.subrange(0, 8) =~= u64_bytes(pointer.term));
    assert(bytes.subrange(8, 16) =~= u64_bytes(pointer.leader));
    assert(bytes.subrange(16, 24) =~= u64_bytes(pointer.index));
    assert(flagged_bytes(Some(pointer)).skip(1) =~= bytes);
}

/// A file starts with the applied pointer, goes on with the pointer of the members, and
/// a flag that is neither zero nor one is refused wherever it stands.
pub proof fn law_applied_files_start_with_their_pointer(
    applied: Option<AppliedPointer>,
    membership: MembershipView,
    snapshot: Seq<char>,
    body: Seq<u8>,
)
    ensures
        applied_body(applied, membership, snapshot).take(flagged_bytes(applied).len() as int)
            == flagged_bytes(applied),
        applied_body(applied, membership, snapshot).subrange(
            flagged_bytes(applied).len() as int,
            (flagged_bytes(applied).len() + flagged_bytes(membership.log_id).len()) as int,
        ) == flagged_bytes(membership.log_id),
        body.len() > 0 && body[0] > 1 ==> applied_file(body) == Err::<AppliedFileView, _>(
            ImageFault::BadValueTag { tag: body[0] },
        ),
        body.len() == 0 ==> applied_file(body) == Err::<AppliedFileView, _>(
            ImageFault::Truncated,
        ),
{
    let all = applied_body(applied, membership, snapshot);
    let first = flagged_bytes(applied);
    let second = flagged_bytes(membership.log_id);
    assert(all.take(first.len() as int) =~= first);
    assert(all.subrange(first.len() as int, (first.len() + second.len()) as int) =~= second);
}

} // verus!
