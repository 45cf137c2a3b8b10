//! Stored objects inside snapshots.
//!
//! Keys, versions, expiries and most values have encodings of their own, which end where
//! their decoders say. So decoding here goes hand in hand with those decoders: it takes
//! what they read so far, in order, and either gets to the end of the object or names the
//! piece, and the place, that is to be read next.

use crate::consensus::image::{
    blob, blob_at, get_blob, holds, lemma_holds, lemma_holds_blob, lemma_holds_byte,
    lemma_holds_split, lemma_holds_u64, put_blob, ImageFault,
};
use crate::wire::{
    bits_i64, clone_bytes, copy_bytes, get_i64, group_fields, i64_bits, lemma_i64_bits, put_bytes,
    put_i64, u64_at, u64_bytes,
};
use vstd::prelude::*;

verus! {

/// Tag of a byte string.
pub const VALUE_BYTES: u8 = 1;

/// Tag of a chunked root.
pub const VALUE_CHUNKED: u8 = 2;

/// Tag of a strict counter.
pub const VALUE_COUNTER: u8 = 3;

/// Tag of a commutative counter.
pub const VALUE_COMMUTATIVE: u8 = 4;

/// Tag of a bounded counter.
pub const VALUE_BOUNDED: u8 = 5;

/// Tag of a semaphore.
pub const VALUE_SEMAPHORE: u8 = 6;

/// Tag of a lease.
pub const VALUE_LEASE: u8 = 7;

/// Tag of a stream shard.
pub const VALUE_STREAM_SHARD: u8 = 8;

/// Tag of a fabric root.
pub const VALUE_FABRIC: u8 = 9;

/// A piece with an encoding of its own.
#[derive(Debug, Clone, Copy, PartialEq, Eq, Structural)]
pub enum Piece {
    /// A key.
    Key,
    /// A chunked root.
    Chunked,
    /// A fabric root.
    Fabric,
    /// A bounded counter.
    Bounded,
    /// A semaphore.
    Semaphore,
    /// A lease.
    Lease,
    /// A stream shard.
    StreamShard,
    /// An object version.
    Version,
    /// An expiry.
    Expiry,
    /// A recorded outcome.
    Outcome,
    /// The key of a prepared write.
    IntentKey,
    /// What a prepared write expects.
    Expectation,
    /// What a prepared write does.
    Write,
    /// The version that a prepared write observed.
    IntentVersion,
    /// The control image.
    Control,
}

/// What the decoder of a piece said of the bytes from some place on.
#[derive(Debug, Clone, Copy, PartialEq, Eq, Structural)]
pub enum Reading {
    /// They are malformed.
    Bad,
    /// The piece takes this many bytes.
    Good {
        /// The number of bytes.
        len: usize,
    },
    /// The piece takes this many bytes, and what it describes breaks its own rules.
    Unsound {
        /// The number of bytes.
        len: usize,
    },
}

/// Why decoding stopped.
#[derive(Debug, Clone, Copy, PartialEq, Eq, Structural)]
pub enum ObjectHalt {
    /// A piece is to be read first.
    Pending {
        /// The piece.
        piece: Piece,
        /// Where it starts.
        at: usize,
    },
    /// The object is malformed.
    Fault(ImageFault),
}

/// A logical value. Values with an encoding of their own are held in it.
#[derive(Debug, PartialEq, Eq)]
pub enum LogicalValue {
    /// A byte string.
    Bytes(Vec<u8>),
    /// A chunked root: a manifest reference.
    Chunked(Vec<u8>),
    /// A strict counter.
    StrictCounter(i64),
    /// A commutative counter.
    CommutativeCounter(i64),
    /// A bounded counter.
    BoundedCounter(Vec<u8>),
    /// A semaphore.
    Semaphore(Vec<u8>),
    /// A lease.
    Lease(Vec<u8>),
    /// A stream shard.
    StreamShard(Vec<u8>),
    /// A fabric root: a fabric reference.
    Fabric(Vec<u8>),
}

/// What a [`LogicalValue`] says.
#[verifier::ext_equal]
pub enum ValueView {
    Bytes(Seq<u8>),
    Chunked(Seq<u8>),
    StrictCounter(i64),
    CommutativeCounter(i64),
    BoundedCounter(Seq<u8>),
    Semaphore(Seq<u8>),
    Lease(Seq<u8>),
    StreamShard(Seq<u8>),
    Fabric(Seq<u8>),
}

impl View for LogicalValue {
    type V = ValueView;

    open spec fn view(&self) -> ValueView {
        match self {
            LogicalValue::Bytes(bytes) => ValueView::Bytes(bytes@),
            LogicalValue::Chunked(bytes) => ValueView::Chunked(bytes@),
            LogicalValue::StrictCounter(value) => ValueView::StrictCounter(*value),
            LogicalValue::CommutativeCounter(value) => ValueView::CommutativeCounter(*value),
            LogicalValue::BoundedCounter(bytes) => ValueView::BoundedCounter(bytes@),
            LogicalValue::Semaphore(bytes) => ValueView::Semaphore(bytes@),
            LogicalValue::Lease(bytes) => ValueView::Lease(bytes@),
            LogicalValue::StreamShard(bytes) => ValueView::StreamShard(bytes@),
            LogicalValue::Fabric(bytes) => ValueView::Fabric(bytes@),
        }
    }
}

impl ValueView {
    /// The canonical bytes: the tag and the value.
    pub open spec fn encoded(self) -> Seq<u8> {
        match self {
            ValueView::Bytes(bytes) => seq![VALUE_BYTES] + blob(bytes),
            ValueView::Chunked(bytes) => seq![VALUE_CHUNKED] + bytes,
            ValueView::StrictCounter(value) => seq![VALUE_COUNTER] + u64_bytes(i64_bits(value)),
            ValueView::CommutativeCounter(value) => seq![VALUE_COMMUTATIVE] + u64_bytes(
                i64_bits(value),
            ),
            ValueView::BoundedCounter(bytes) => seq![VALUE_BOUNDED] + bytes,
            ValueView::Semaphore(bytes) => seq![VALUE_SEMAPHORE] + bytes,
            ValueView::Lease(bytes) => seq![VALUE_LEASE] + bytes,
            ValueView::StreamShard(bytes) => seq![VALUE_STREAM_SHARD] + bytes,
            ValueView::Fabric(bytes) => seq![VALUE_FABRIC] + bytes,
        }
    }

    /// What the decoder of the value reads, if the value has one of its own.
    pub open spec fn readings(self) -> Seq<Reading> {
        match self {
            ValueView::Chunked(bytes) => seq![good(bytes)],
            ValueView::BoundedCounter(bytes) => seq![good(bytes)],
            ValueView::Semaphore(bytes) => seq![good(bytes)],
            ValueView::Lease(bytes) => seq![good(bytes)],
            ValueView::StreamShard(bytes) => seq![good(bytes)],
            ValueView::Fabric(bytes) => seq![good(bytes)],
            _ => Seq::empty(),
        }
    }
}

/// The reading of a piece with these bytes.
pub open spec fn good(bytes: Seq<u8>) -> Reading {
    Reading::Good { len: bytes.len() as usize }
}

/// A stored object: its value, version and expiry, the last two in their own encodings.
#[derive(Debug, PartialEq, Eq)]
pub struct StoredObject {
    /// The value.
    pub value: LogicalValue,
    /// The version.
    pub version: Vec<u8>,
    /// The expiry.
    pub expiry: Vec<u8>,
}

/// What a [`StoredObject`] says.
#[verifier::ext_equal]
pub struct ObjectView {
    pub value: ValueView,
    pub version: Seq<u8>,
    pub expiry: Seq<u8>,
}

impl View for StoredObject {
    type V = ObjectView;

    open spec fn view(&self) -> ObjectView {
        ObjectView { value: self.value@, version: self.version@, expiry: self.expiry@ }
    }
}

impl ObjectView {
    /// The canonical bytes.
    pub open spec fn encoded(self) -> Seq<u8> {
        self.value.encoded() + self.version + self.expiry
    }

    /// What the decoders of its pieces read, in order.
    pub open spec fn readings(self) -> Seq<Reading> {
        self.value.readings() + seq![good(self.version), good(self.expiry)]
    }

    /// Its pieces fit the address space, and a byte string its length field.
    pub open spec fn framable(self) -> bool {
        &&& self.encoded().len() <= usize::MAX
        &&& self.value matches ValueView::Bytes(bytes) ==> bytes.len() <= u32::MAX
    }
}

/// The piece at `at`, whose decoder's reading is number `turn`, and where it ends.
pub open spec fn piece_at(
    input: Seq<u8>,
    at: int,
    readings: Seq<Reading>,
    turn: int,
    piece: Piece,
    bad: ImageFault,
    unsound: ImageFault,
) -> Result<(Seq<u8>, int), ObjectHalt> {
    if turn >= readings.len() {
        Err(ObjectHalt::Pending { piece, at: at as usize })
    } else {
        match readings[turn] {
            Reading::Bad => Err(ObjectHalt::Fault(bad)),
            Reading::Unsound { .. } => Err(ObjectHalt::Fault(unsound)),
            Reading::Good { len } => if at + len > input.len() {
                Err(ObjectHalt::Fault(bad))
            } else {
                Ok((input.subrange(at, at + len), at + len))
            },
        }
    }
}

/// The value at `at`, where it ends and the number of the next reading.
pub open spec fn value_at(input: Seq<u8>, at: int, readings: Seq<Reading>, turn: int) -> Result<
    (ValueView, int, int),
    ObjectHalt,
> {
    let tag = input[at];
    if at >= input.len() {
        Err(ObjectHalt::Fault(ImageFault::Truncated))
    } else if tag == VALUE_BYTES {
        match blob_at(input, at + 1) {
            None => Err(ObjectHalt::Fault(ImageFault::BadBytes)),
            Some((bytes, next)) => Ok((ValueView::Bytes(bytes), next, turn)),
        }
    } else if tag == VALUE_COUNTER || tag == VALUE_COMMUTATIVE {
        if at + 9 > input.len() {
            Err(ObjectHalt::Fault(ImageFault::Truncated))
        } else {
            let value = bits_i64(u64_at(input, at + 1));
            Ok(
                (
                    if tag == VALUE_COUNTER {
                        ValueView::StrictCounter(value)
                    } else {
                        ValueView::CommutativeCounter(value)
                    },
                    at + 9,
                    turn,
                ),
            )
        }
    } else {
        match own_piece(tag) {
            None => Err(ObjectHalt::Fault(ImageFault::BadValueTag { tag })),
            Some((piece, bad)) => match piece_at(
                input,
                at + 1,
                readings,
                turn,
                piece,
                bad,
                ImageFault::BadValueTag { tag },
            ) {
                Err(halt) => Err(halt),
                Ok((bytes, next)) => Ok((own_value(piece, bytes), next, turn + 1)),
            },
        }
    }
}

/// The piece behind a tag, and the fault when it is malformed.
pub open spec fn own_piece(tag: u8) -> Option<(Piece, ImageFault)> {
    if tag == VALUE_CHUNKED {
        Some((Piece::Chunked, ImageFault::BadChunkedRef))
    } else if tag == VALUE_FABRIC {
        Some((Piece::Fabric, ImageFault::BadFabricRef))
    } else if tag == VALUE_BOUNDED {
        Some((Piece::Bounded, ImageFault::BadBytes))
    } else if tag == VALUE_SEMAPHORE {
        Some((Piece::Semaphore, ImageFault::BadBytes))
    } else if tag == VALUE_LEASE {
        Some((Piece::Lease, ImageFault::BadBytes))
    } else if tag == VALUE_STREAM_SHARD {
        Some((Piece::StreamShard, ImageFault::BadBytes))
    } else {
        None
    }
}

/// The value that a piece makes.
pub open spec fn own_value(piece: Piece, bytes: Seq<u8>) -> ValueView {
    match piece {
        Piece::Chunked => ValueView::Chunked(bytes),
        Piece::Fabric => ValueView::Fabric(bytes),
        Piece::Bounded => ValueView::BoundedCounter(bytes),
        Piece::Semaphore => ValueView::Semaphore(bytes),
        Piece::Lease => ValueView::Lease(bytes),
        _ => ValueView::StreamShard(bytes),
    }
}

/// The object at `at`, whose first reading is number `turn`, and where it ends.
pub open spec fn object_at(input: Seq<u8>, at: int, readings: Seq<Reading>, turn: int) -> Result<
    (ObjectView, int),
    ObjectHalt,
> {
    match value_at(input, at, readings, turn) {
        Err(halt) => Err(halt),
        Ok((value, here, next_turn)) => match piece_at(
            input,
            here,
            readings,
            next_turn,
            Piece::Version,
            ImageFault::BadVersion,
            ImageFault::BadVersion,
        ) {
            Err(halt) => Err(halt),
            Ok((version, there)) => match piece_at(
                input,
                there,
                readings,
                next_turn + 1,
                Piece::Expiry,
                ImageFault::BadExpiry,
                ImageFault::BadExpiry,
            ) {
                Err(halt) => Err(halt),
                Ok((expiry, end)) => Ok((ObjectView { value, version, expiry }, end)),
            },
        },
    }
}

/// Takes the piece at `at`.
pub fn take_piece(
    input: &[u8],
    at: usize,
    readings: &Vec<Reading>,
    turn: usize,
    piece: Piece,
    bad: ImageFault,
    unsound: ImageFault,
) -> (taken: Result<(Vec<u8>, usize), ObjectHalt>)
    requires
        at <= input.len(),
    ensures
        match taken {
            Ok((bytes, next)) => piece_at(
                input@,
                at as int,
                readings@,
                turn as int,
                piece,
                bad,
                unsound,
            ) == Ok::<_, ObjectHalt>((bytes@, next as int)) && at <= next <= input.len() && turn
                < readings.len(),
            Err(halt) => piece_at(
                input@,
                at as int,
                readings@,
                turn as int,
                piece,
                bad,
                unsound,
            ) == Err::<(Seq<u8>, int), _>(halt),
        },
{
    if turn >= readings.len() {
        return Err(ObjectHalt::Pending { piece, at });
    }
    match readings[turn] {
        Reading::Bad => Err(ObjectHalt::Fault(bad)),
        Reading::Unsound { .. } => Err(ObjectHalt::Fault(unsound)),
        Reading::Good { len } => {
            if len > input.len() - at {
                Err(ObjectHalt::Fault(bad))
            } else {
                Ok((copy_bytes(input, at, at + len), at + len))
            }
        },
    }
}

fn decode_value(input: &[u8], at: usize, readings: &Vec<Reading>, turn: usize) -> (taken: Result<
    (LogicalValue, usize, usize),
    ObjectHalt,
>)
    requires
        at <= input.len(),
    ensures
        match taken {
            Ok((value, next, next_turn)) => value_at(
                input@,
                at as int,
                readings@,
                turn as int,
            ) == Ok::<_, ObjectHalt>((value@, next as int, next_turn as int)) && at < next
                <= input.len() && turn <= next_turn && (turn == next_turn || next_turn
                <= readings.len()),
            Err(halt) => value_at(input@, at as int, readings@, turn as int) == Err::<
                (ValueView, int, int),
                _,
            >(halt),
        },
{
    if at >= input.len() {
        return Err(ObjectHalt::Fault(ImageFault::Truncated));
    }
    let tag: u8 = input[at];
    if tag == VALUE_BYTES {
        return match get_blob(input, at + 1) {
            None => Err(ObjectHalt::Fault(ImageFault::BadBytes)),
            Some((bytes, next)) => Ok((LogicalValue::Bytes(bytes), next, turn)),
        };
    }
    if tag == VALUE_COUNTER || tag == VALUE_COMMUTATIVE {
        if input.len() - at < 9 {
            return Err(ObjectHalt::Fault(ImageFault::Truncated));
        }
        let value: i64 = get_i64(input, at + 1);
        if tag == VALUE_COUNTER {
            return Ok((LogicalValue::StrictCounter(value), at + 9, turn));
        }
        return Ok((LogicalValue::CommutativeCounter(value), at + 9, turn));
    }
    let (piece, bad): (Piece, ImageFault) = if tag == VALUE_CHUNKED {
        (Piece::Chunked, ImageFault::BadChunkedRef)
    } else if tag == VALUE_FABRIC {
        (Piece::Fabric, ImageFault::BadFabricRef)
    } else if tag == VALUE_BOUNDED {
        (Piece::Bounded, ImageFault::BadBytes)
    } else if tag == VALUE_SEMAPHORE {
        (Piece::Semaphore, ImageFault::BadBytes)
    } else if tag == VALUE_LEASE {
        (Piece::Lease, ImageFault::BadBytes)
    } else if tag == VALUE_STREAM_SHARD {
        (Piece::StreamShard, ImageFault::BadBytes)
    } else {
        return Err(ObjectHalt::Fault(ImageFault::BadValueTag { tag }));
    };
    match take_piece(
        input,
        at + 1,
        readings,
        turn,
        piece,
        bad,
        ImageFault::BadValueTag { tag },
    ) {
        Err(halt) => Err(halt),
        Ok((bytes, next)) => {
            let value: LogicalValue = match piece {
                Piece::Chunked => LogicalValue::Chunked(bytes),
                Piece::Fabric => LogicalValue::Fabric(bytes),
                Piece::Bounded => LogicalValue::BoundedCounter(bytes),
                Piece::Semaphore => LogicalValue::Semaphore(bytes),
                Piece::Lease => LogicalValue::Lease(bytes),
                _ => LogicalValue::StreamShard(bytes),
            };
            Ok((value, next, turn + 1))
        },
    }
}

/// Decodes the object at `at`, whose first reading is number `turn`.
pub fn decode_object(input: &[u8], at: usize, readings: &Vec<Reading>, turn: usize) -> (taken:
    Result<(StoredObject, usize), ObjectHalt>)
    requires
        at <= input.len(),
        turn <= usize::MAX - 2,
    ensures
        match taken {
            Ok((object, next)) => object_at(input@, at as int, readings@, turn as int) == Ok::<
                _,
                ObjectHalt,
            >((object@, next as int)) && at < next <= input.len(),
            Err(halt) => object_at(input@, at as int, readings@, turn as int) == Err::<
                (ObjectView, int),
                _,
            >(halt),
        },
{
    let (value, here, next_turn): (LogicalValue, usize, usize) = match decode_value(
        input,
        at,
        readings,
        turn,
    ) {
        Ok(taken) => taken,
        Err(halt) => return Err(halt),
    };
    let (version, there): (Vec<u8>, usize) = match take_piece(
        input,
        here,
        readings,
        next_turn,
        Piece::Version,
        ImageFault::BadVersion,
        ImageFault::BadVersion,
    ) {
        Ok(taken) => taken,
        Err(halt) => return Err(halt),
    };
    match take_piece(
        input,
        there,
        readings,
        next_turn + 1,
        Piece::Expiry,
        ImageFault::BadExpiry,
        ImageFault::BadExpiry,
    ) {
        Ok((expiry, end)) => Ok((StoredObject { value, version, expiry }, end)),
        Err(halt) => Err(halt),
    }
}

/// Appends the canonical bytes of an object.
pub fn encode_object(out: &mut Vec<u8>, object: &StoredObject)
    ensures
        final(out)@ == old(out)@ + object@.encoded(),
{
    let ghost start = out@;
    match &object.value {
        LogicalValue::Bytes(bytes) => {
            out.push(VALUE_BYTES);
            put_blob(out, bytes);
        },
        LogicalValue::Chunked(bytes) => {
            out.push(VALUE_CHUNKED);
            put_bytes(out, bytes);
        },
        LogicalValue::StrictCounter(value) => {
            out.push(VALUE_COUNTER);
            put_i64(out, *value);
        },
        LogicalValue::CommutativeCounter(value) => {
            out.push(VALUE_COMMUTATIVE);
            put_i64(out, *value);
        },
        LogicalValue::BoundedCounter(bytes) => {
            out.push(VALUE_BOUNDED);
            put_bytes(out, bytes);
        },
        LogicalValue::Semaphore(bytes) => {
            out.push(VALUE_SEMAPHORE);
            put_bytes(out, bytes);
        },
        LogicalValue::Lease(bytes) => {
            out.push(VALUE_LEASE);
            put_bytes(out, bytes);
        },
        LogicalValue::StreamShard(bytes) => {
            out.push(VALUE_STREAM_SHARD);
            put_bytes(out, bytes);
        },
        LogicalValue::Fabric(bytes) => {
            out.push(VALUE_FABRIC);
            put_bytes(out, bytes);
        },
    }
    proof {
        assert(out@ =~= start + object.value@.encoded());
    }
    put_bytes(out, &object.version);
    put_bytes(out, &object.expiry);
    proof {
        assert(out@ =~= start + object@.encoded());
    }
}

/// A piece that stands in its place is taken as its decoder read it.
pub proof fn lemma_holds_piece(
    input: Seq<u8>,
    at: int,
    readings: Seq<Reading>,
    turn: int,
    piece: Piece,
    bad: ImageFault,
    unsound: ImageFault,
    bytes: Seq<u8>,
)
    requires
        holds(input, at, bytes),
        0 <= turn < readings.len(),
        bytes.len() <= usize::MAX,
        readings[turn] == good(bytes),
    ensures
        piece_at(input, at, readings, turn, piece, bad, unsound) == Ok::<_, ObjectHalt>(
            (bytes, at + bytes.len()),
        ),
{
    lemma_holds(input, at, bytes);
}

proof fn lemma_holds_value(
    input: Seq<u8>,
    at: int,
    readings: Seq<Reading>,
    turn: int,
    value: ValueView,
)
    requires
        holds(input, at, value.encoded()),
        0 <= turn,
        turn + value.readings().len() <= readings.len(),
        forall|i: int|
            0 <= i < value.readings().len() ==> readings[turn + i]
                == #[trigger] value.readings()[i],
        value.encoded().len() <= usize::MAX,
        value matches ValueView::Bytes(bytes) ==> bytes.len() <= u32::MAX,
    ensures
        value_at(input, at, readings, turn) == Ok::<_, ObjectHalt>(
            (value, at + value.encoded().len(), turn + value.readings().len()),
        ),
{
    broadcast use {group_fields, lemma_i64_bits};

    if value.readings().len() > 0 {
        assert(readings[turn + 0] == value.readings()[0]);
    }
    match value {
        ValueView::Bytes(bytes) => {
            lemma_holds_split(input, at, seq![VALUE_BYTES], blob(bytes));
            lemma_holds_byte(input, at, VALUE_BYTES);
            lemma_holds_blob(input, at + 1, bytes);
        },
        ValueView::StrictCounter(number) => {
            lemma_holds_split(input, at, seq![VALUE_COUNTER], u64_bytes(i64_bits(number)));
            lemma_holds_byte(input, at, VALUE_COUNTER);
            lemma_holds_u64(input, at + 1, i64_bits(number));
        },
        ValueView::CommutativeCounter(number) => {
            lemma_holds_split(input, at, seq![VALUE_COMMUTATIVE], u64_bytes(i64_bits(number)));
            lemma_holds_byte(input, at, VALUE_COMMUTATIVE);
            lemma_holds_u64(input, at + 1, i64_bits(number));
        },
        ValueView::Chunked(bytes) => {
            lemma_own_value(input, at, readings, turn, VALUE_CHUNKED, bytes, value);
        },
        ValueView::BoundedCounter(bytes) => {
            lemma_own_value(input, at, readings, turn, VALUE_BOUNDED, bytes, value);
        },
        ValueView::Semaphore(bytes) => {
            lemma_own_value(input, at, readings, turn, VALUE_SEMAPHORE, bytes, value);
        },
        ValueView::Lease(bytes) => {
            lemma_own_value(input, at, readings, turn, VALUE_LEASE, bytes, value);
        },
        ValueView::StreamShard(bytes) => {
            lemma_own_value(input, at, readings, turn, VALUE_STREAM_SHARD, bytes, value);
        },
        ValueView::Fabric(bytes) => {
            lemma_own_value(input, at, readings, turn, VALUE_FABRIC, bytes, value);
        },
    }
}

proof fn lemma_own_value(
    input: Seq<u8>,
    at: int,
    readings: Seq<Reading>,
    turn: int,
    tag: u8,
    bytes: Seq<u8>,
    value: ValueView,
)
    requires
        holds(input, at, seq![tag] + bytes),
        own_piece(tag) matches Some((piece, _)) && value == own_value(piece, bytes),
        value.readings() == seq![good(bytes)],
        value.encoded() == seq![tag] + bytes,
        0 <= turn < readings.len(),
        readings[turn] == good(bytes),
        value.encoded().len() <= usize::MAX,
    ensures
        value_at(input, at, readings, turn) == Ok::<_, ObjectHalt>(
            (value, at + value.encoded().len(), turn + value.readings().len()),
        ),
{
    lemma_holds_split(input, at, seq![tag], bytes);
    lemma_holds_byte(input, at, tag);
    let (piece, bad) = own_piece(tag)->0;
    lemma_holds_piece(
        input,
        at + 1,
        readings,
        turn,
        piece,
        bad,
        ImageFault::BadValueTag { tag },
        bytes,
    );
}

/// An object reads back from its canonical bytes, wherever these stand.
pub proof fn law_object_round_trip(
    input: Seq<u8>,
    at: int,
    readings: Seq<Reading>,
    turn: int,
    object: ObjectView,
)
    requires
        holds(input, at, object.encoded()),
        object.framable(),
        0 <= turn,
        turn + object.readings().len() <= readings.len(),
        forall|i: int|
            0 <= i < object.readings().len() ==> readings[turn + i]
                == #[trigger] object.readings()[i],
    ensures
        object_at(input, at, readings, turn) == Ok::<_, ObjectHalt>(
            (object, at + object.encoded().len()),
        ),
{
    let value = object.value;
    let count = value.readings().len() as int;
    lemma_holds_split(input, at, value.encoded() + object.version, object.expiry);
    lemma_holds_split(input, at, value.encoded(), object.version);
    assert forall|i: int| 0 <= i < count implies readings[turn + i]
        == #[trigger] value.readings()[i] by {
        assert(object.readings()[i] == value.readings()[i]);
    }
    assert(object.readings()[count] == good(object.version));
    assert(object.readings()[count + 1] == good(object.expiry));
    lemma_holds_value(input, at, readings, turn, value);
    let here = at + value.encoded().len();
    lemma_holds_piece(
        input,
        here,
        readings,
        turn + count,
        Piece::Version,
        ImageFault::BadVersion,
        ImageFault::BadVersion,
        object.version,
    );
    lemma_holds_piece(
        input,
        here + object.version.len(),
        readings,
        turn + count + 1,
        Piece::Expiry,
        ImageFault::BadExpiry,
        ImageFault::BadExpiry,
        object.expiry,
    );
}

impl Clone for LogicalValue {
    fn clone(&self) -> (copy: Self)
        ensures
            copy@ == self@,
    {
        match self {
            LogicalValue::Bytes(bytes) => LogicalValue::Bytes(clone_bytes(bytes)),
            LogicalValue::Chunked(bytes) => LogicalValue::Chunked(clone_bytes(bytes)),
            LogicalValue::StrictCounter(value) => LogicalValue::StrictCounter(*value),
            LogicalValue::CommutativeCounter(value) => LogicalValue::CommutativeCounter(*value),
            LogicalValue::BoundedCounter(bytes) => LogicalValue::BoundedCounter(clone_bytes(bytes)),
            LogicalValue::Semaphore(bytes) => LogicalValue::Semaphore(clone_bytes(bytes)),
            LogicalValue::Lease(bytes) => LogicalValue::Lease(clone_bytes(bytes)),
            LogicalValue::StreamShard(bytes) => LogicalValue::StreamShard(clone_bytes(bytes)),
            LogicalValue::Fabric(bytes) => LogicalValue::Fabric(clone_bytes(bytes)),
        }
    }
}

/// How the base of a range patch is represented.
#[derive(Debug, Clone, Copy, PartialEq, Eq, Structural)]
pub enum RangeBase {
    /// There is no live object.
    Absent,
    /// A byte string, which can be patched in place.
    Inline,
    /// Another value, which takes no range patch.
    NonBytes,
    /// A chunked root, which has to be staged again first.
    Chunked,
}

/// The base that a live value is.
pub open spec fn base_of(value: Option<ValueView>) -> RangeBase {
    match value {
        None => RangeBase::Absent,
        Some(ValueView::Bytes(_)) => RangeBase::Inline,
        Some(ValueView::Chunked(_)) => RangeBase::Chunked,
        Some(_) => RangeBase::NonBytes,
    }
}

/// Says which base a live value is.
pub fn range_base(value: Option<&LogicalValue>) -> (base: RangeBase)
    ensures
        base == base_of(
            match value {
                Some(value) => Some(value@),
                None => None,
            },
        ),
{
    match value {
        None => RangeBase::Absent,
        Some(LogicalValue::Bytes(_)) => RangeBase::Inline,
        Some(LogicalValue::Chunked(_)) => RangeBase::Chunked,
        Some(_) => RangeBase::NonBytes,
    }
}

/// Each kind of value has a tag of its own, and the tag comes first.
pub proof fn law_values_start_with_their_tag(value: ValueView)
    ensures
        value is Bytes ==> value.encoded()[0] == 1,
        value is Chunked ==> value.encoded()[0] == 2,
        value is StrictCounter ==> value.encoded()[0] == 3 && value.encoded().len() == 9,
        value is CommutativeCounter ==> value.encoded()[0] == 4 && value.encoded().len() == 9,
        value is BoundedCounter ==> value.encoded()[0] == 5,
        value is Semaphore ==> value.encoded()[0] == 6,
        value is Lease ==> value.encoded()[0] == 7,
        value is StreamShard ==> value.encoded()[0] == 8,
        value is Fabric ==> value.encoded()[0] == 9,
        value matches ValueView::StrictCounter(n) ==> value.encoded().skip(1) == u64_bytes(
            i64_bits(n),
        ),
        value matches ValueView::CommutativeCounter(n) ==> value.encoded().skip(1) == u64_bytes(
            i64_bits(n),
        ),
        value matches ValueView::Bytes(bytes) ==> value.encoded().skip(5) == bytes,
{
    broadcast use group_fields;

    match value {
        ValueView::StrictCounter(n) => {
            assert(value.encoded().skip(1) =~= u64_bytes(i64_bits(n)));
        },
        ValueView::CommutativeCounter(n) => {
            assert(value.encoded().skip(1) =~= u64_bytes(i64_bits(n)));
        },
        ValueView::Bytes(bytes) => {
            assert(value.encoded().skip(5) =~= bytes);
        },
        _ => {},
    }
}

/// An object that is read is made of what stands in the input: its value, then its
/// version, then its expiry, one directly behind the other.
pub proof fn law_objects_are_read_in_order(
    input: Seq<u8>,
    at: int,
    readings: Seq<Reading>,
    turn: int,
)
    requires
        0 <= at < input.len(),
        0 <= turn,
    ensures
        object_at(input, at, readings, turn) matches Ok((object, end)) ==> {
            &&& at < end <= input.len()
            &&& object.expiry.len() + object.version.len() < end - at
            &&& input.subrange(end - object.expiry.len(), end) == object.expiry
            &&& input.subrange(
                end - object.expiry.len() - object.version.len(),
                end - object.expiry.len(),
            ) == object.version
        },
        input[at] == 0 || input[at] > 9 ==> object_at(input, at, readings, turn) == Err::<
            (ObjectView, int),
            _,
        >(ObjectHalt::Fault(ImageFault::BadValueTag { tag: input[at] })),
{
}

/// A range write knows what it lands on: nothing, a byte string held inline, a chunked
/// one, or something that is no byte string.
pub proof fn law_bases_tell_values_apart(value: Option<ValueView>)
    ensures
        base_of(value) is Absent <==> value is None,
        base_of(value) is Inline <==> value matches Some(ValueView::Bytes(_)),
        base_of(value) is Chunked <==> value matches Some(ValueView::Chunked(_)),
{
}

} // verus!
