//! Framing of durable images.
//!
//! An image is `magic u32, version u16, body, checksum u32`, with the CRC-32C of the
//! body as its checksum. Bodies are made of little-endian words and length-prefixed
//! byte strings.

use crate::wire::{
    copy_bytes, get_u16, get_u32, group_fields, len_prefix, put_bytes, put_u16,
    put_u32, u128_at, u128_bytes, u16_at, u16_bytes, u32_at, u32_bytes, u64_at, u64_bytes, wire_len,
};
use vstd::prelude::*;
use vstd::slice::slice_subrange;

verus! {

/// Why an image is not what it should be.
#[derive(Debug, Clone, Copy, PartialEq, Eq, Structural)]
#[non_exhaustive]
#[allow(inconsistent_fields)]
pub enum ImageFault {
    /// The bytes end too early.
    Truncated,
    /// A count asks for more bytes than there are.
    Oversized {
        /// The bytes asked for.
        len: usize,
    },
    /// Another kind of image.
    BadMagic {
        /// The magic found.
        found: u32,
    },
    /// Another version of the image.
    UnsupportedVersion {
        /// The version found.
        found: u16,
    },
    /// The body is not the one that was sealed.
    BadCrc {
        /// The checksum found.
        found: u32,
        /// The checksum of the body.
        computed: u32,
    },
    /// Bytes follow the last field.
    TrailingBytes,
    /// A key is malformed.
    BadKey,
    /// A value is malformed.
    BadBytes,
    /// A tag names nothing.
    BadValueTag {
        /// The tag found.
        tag: u8,
    },
    /// A recorded outcome is malformed.
    BadOutcome,
    /// An object version is malformed.
    BadVersion,
    /// An expiry is malformed.
    BadExpiry,
    /// A chunked root is malformed.
    BadChunkedRef,
    /// A fabric root is malformed.
    BadFabricRef,
    /// A member address or a name is malformed.
    BadAddress,
}

/// The CRC-32C of `bytes`.
pub uninterp spec fn crc32c_of(bytes: Seq<u8>) -> u32;

/// Computes the checksum of `bytes`, through `crc32c::crc32c`, which returns the CRC-32C
/// of the bytes: a function of the bytes alone.
#[verifier::external_body]
fn checksum(bytes: &[u8]) -> (sum: u32)
    ensures
        sum == crc32c_of(bytes@),
{
    crc32c::crc32c(bytes)
}

/// The image of `body` with the given checksum.
pub open spec fn framed(magic: u32, version: u16, body: Seq<u8>, sum: u32) -> Seq<u8> {
    u32_bytes(magic) + u16_bytes(version) + body + u32_bytes(sum)
}

/// The body of an image whose body has the checksum `computed`, or why there is none.
pub open spec fn unframed(input: Seq<u8>, magic: u32, version: u16, computed: u32) -> Result<
    Seq<u8>,
    ImageFault,
> {
    let end = input.len() - 4;
    if input.len() < 10 {
        Err(ImageFault::Truncated)
    } else if u32_at(input, 0) != magic {
        Err(ImageFault::BadMagic { found: u32_at(input, 0) })
    } else if u16_at(input, 4) != version {
        Err(ImageFault::UnsupportedVersion { found: u16_at(input, 4) })
    } else if u32_at(input, end) != computed {
        Err(ImageFault::BadCrc { found: u32_at(input, end), computed })
    } else {
        Ok(input.subrange(6, end))
    }
}

/// The bytes between the head and the checksum of an image.
pub open spec fn body_of(input: Seq<u8>) -> Seq<u8> {
    input.subrange(6, input.len() - 4)
}

/// Frames `body` with a checksum.
pub fn frame_with(magic: u32, version: u16, body: &[u8], sum: u32) -> (image: Vec<u8>)
    ensures
        image@ == framed(magic, version, body@, sum),
{
    let mut image: Vec<u8> = Vec::new();
    put_u32(&mut image, magic);
    put_u16(&mut image, version);
    put_bytes(&mut image, body);
    put_u32(&mut image, sum);
    proof {
        assert(image@ =~= framed(magic, version, body@, sum));
    }
    image
}

/// Frames `body`.
pub fn frame_image(magic: u32, version: u16, body: &[u8]) -> (image: Vec<u8>)
    ensures
        image@ == framed(magic, version, body@, crc32c_of(body@)),
{
    frame_with(magic, version, body, checksum(body))
}

/// Checks an image whose body has the checksum `computed`, and returns the body.
pub fn unframe_with<'a>(input: &'a [u8], magic: u32, version: u16, computed: u32) -> (body: Result<
    &'a [u8],
    ImageFault,
>)
    ensures
        match body {
            Ok(body) => unframed(input@, magic, version, computed) == Ok::<_, ImageFault>(body@),
            Err(fault) => unframed(input@, magic, version, computed) == Err::<Seq<u8>, _>(fault),
        },
{
    if input.len() < 10 {
        return Err(ImageFault::Truncated);
    }
    let found_magic: u32 = get_u32(input, 0);
    if found_magic != magic {
        return Err(ImageFault::BadMagic { found: found_magic });
    }
    let found_version: u16 = get_u16(input, 4);
    if found_version != version {
        return Err(ImageFault::UnsupportedVersion { found: found_version });
    }
    let end: usize = input.len() - 4;
    let found: u32 = get_u32(input, end);
    if found != computed {
        return Err(ImageFault::BadCrc { found, computed });
    }
    Ok(slice_subrange(input, 6, end))
}

/// Checks an image and returns its body.
pub fn unframe_image<'a>(input: &'a [u8], magic: u32, version: u16) -> (body: Result<
    &'a [u8],
    ImageFault,
>)
    ensures
        match body {
            Ok(body) => unframed(input@, magic, version, crc32c_of(body_of(input@))) == Ok::<
                _,
                ImageFault,
            >(body@),
            Err(fault) => unframed(input@, magic, version, crc32c_of(body_of(input@))) == Err::<
                Seq<u8>,
                _,
            >(fault),
        },
{
    if input.len() < 10 {
        return Err(ImageFault::Truncated);
    }
    let computed: u32 = checksum(slice_subrange(input, 6, input.len() - 4));
    unframe_with(input, magic, version, computed)
}

/// A framed body reads back under its own magic and version.
pub proof fn law_images_read_back(magic: u32, version: u16, body: Seq<u8>, sum: u32)
    ensures
        unframed(framed(magic, version, body, sum), magic, version, sum) == Ok::<_, ImageFault>(
            body,
        ),
        body_of(framed(magic, version, body, sum)) == body,
{
    broadcast use group_fields;

    let image = framed(magic, version, body, sum);
    let end = image.len() - 4;
    assert(image.subrange(0, 4) =~= u32_bytes(magic));
    assert(image.subrange(4, 6) =~= u16_bytes(version));
    assert(image.subrange(end, end + 4) =~= u32_bytes(sum));
    assert(image.subrange(6, end) =~= body);
}

/// An image of one kind is never read as one of another kind or version.
pub proof fn law_images_never_alias(
    magic: u32,
    version: u16,
    body: Seq<u8>,
    sum: u32,
    other_magic: u32,
    other_version: u16,
)
    requires
        magic != other_magic || version != other_version,
    ensures
        unframed(framed(magic, version, body, sum), other_magic, other_version, sum) is Err,
{
    broadcast use group_fields;

    let image = framed(magic, version, body, sum);
    assert(image.subrange(0, 4) =~= u32_bytes(magic));
    assert(image.subrange(4, 6) =~= u16_bytes(version));
}

/// A damaged body is refused unless it has the checksum of the sealed one.
pub proof fn law_damage_is_refused(magic: u32, version: u16, body: Seq<u8>, damaged: Seq<u8>)
    requires
        crc32c_of(damaged) != crc32c_of(body),
    ensures
        ({
            let image = framed(magic, version, damaged, crc32c_of(body));
            unframed(image, magic, version, crc32c_of(body_of(image))) is Err
        }),
{
    law_images_read_back(magic, version, damaged, crc32c_of(body));
    broadcast use group_fields;

    let image = framed(magic, version, damaged, crc32c_of(body));
    let end = image.len() - 4;
    assert(image.subrange(end, end + 4) =~= u32_bytes(crc32c_of(body)));
}

/// Whether `piece` stands in `input` at `at`.
#[verifier::opaque]
pub open spec fn holds(input: Seq<u8>, at: int, piece: Seq<u8>) -> bool {
    &&& 0 <= at
    &&& at + piece.len() <= input.len()
    &&& input.subrange(at, at + piece.len()) == piece
}

/// What `holds` says.
pub proof fn lemma_holds(input: Seq<u8>, at: int, piece: Seq<u8>)
    ensures
        holds(input, at, piece) == (0 <= at && at + piece.len() <= input.len() && input.subrange(
            at,
            at + piece.len(),
        ) == piece),
{
    reveal(holds);
}

/// A sequence stands in itself.
pub proof fn lemma_holds_whole(input: Seq<u8>)
    ensures
        holds(input, 0, input),
{
    reveal(holds);
    assert(input.subrange(0, input.len() as int) =~= input);
}

/// Where two pieces stand one after the other, each stands in its place.
pub proof fn lemma_holds_split(input: Seq<u8>, at: int, a: Seq<u8>, b: Seq<u8>)
    requires
        holds(input, at, a + b),
    ensures
        holds(input, at, a),
        holds(input, at + a.len(), b),
{
    reveal(holds);
    let both = input.subrange(at, at + a.len() + b.len());
    assert(both == a + b);
    assert(input.subrange(at, at + a.len()) =~= a) by {
        assert(both.subrange(0, a.len() as int) =~= a);
    }
    assert(input.subrange(at + a.len(), at + a.len() + b.len()) =~= b) by {
        assert(both.subrange(a.len() as int, both.len() as int) =~= b);
    }
}

/// A word that stands in its place reads back.
pub proof fn lemma_holds_u64(input: Seq<u8>, at: int, value: u64)
    requires
        holds(input, at, u64_bytes(value)),
    ensures
        at + 8 <= input.len(),
        u64_at(input, at) == value,
{
    reveal(holds);
    broadcast use group_fields;

}

/// A half word that stands in its place reads back.
pub proof fn lemma_holds_u32(input: Seq<u8>, at: int, value: u32)
    requires
        holds(input, at, u32_bytes(value)),
    ensures
        at + 4 <= input.len(),
        u32_at(input, at) == value,
{
    reveal(holds);
    broadcast use group_fields;

}

/// A double word that stands in its place reads back.
pub proof fn lemma_holds_u128(input: Seq<u8>, at: int, value: u128)
    requires
        holds(input, at, u128_bytes(value)),
    ensures
        at + 16 <= input.len(),
        u128_at(input, at) == value,
{
    reveal(holds);
    broadcast use group_fields;

}

/// A byte that stands in its place reads back.
pub proof fn lemma_holds_byte(input: Seq<u8>, at: int, value: u8)
    requires
        holds(input, at, seq![value]),
    ensures
        at + 1 <= input.len(),
        input[at] == value,
{
    reveal(holds);
    assert(input.subrange(at, at + 1)[0] == value);
}

/// A byte string behind its length.
pub open spec fn blob(bytes: Seq<u8>) -> Seq<u8> {
    u32_bytes(wire_len(bytes.len())) + bytes
}

/// The byte string at `at` and where it ends, if there is one.
pub open spec fn blob_at(input: Seq<u8>, at: int) -> Option<(Seq<u8>, int)> {
    let len = u32_at(input, at) as int;
    if at + 4 > input.len() || at + 4 + len > input.len() {
        None
    } else {
        Some((input.subrange(at + 4, at + 4 + len), at + 4 + len))
    }
}

/// A byte string that stands in its place reads back.
pub proof fn lemma_holds_blob(input: Seq<u8>, at: int, bytes: Seq<u8>)
    requires
        holds(input, at, blob(bytes)),
        bytes.len() <= u32::MAX,
    ensures
        blob_at(input, at) == Some((bytes, at + blob(bytes).len())),
        blob(bytes).len() == 4 + bytes.len(),
{
    reveal(holds);
    broadcast use group_fields;

    lemma_holds_split(input, at, u32_bytes(wire_len(bytes.len())), bytes);
    lemma_holds_u32(input, at, wire_len(bytes.len()));
}

/// Appends a byte string behind its length.
pub fn put_blob(out: &mut Vec<u8>, bytes: &[u8])
    ensures
        final(out)@ == old(out)@ + blob(bytes@),
{
    let ghost start = out@;
    put_u32(out, len_prefix(bytes.len()));
    put_bytes(out, bytes);
    proof {
        assert(out@ =~= start + blob(bytes@));
    }
}

/// Reads the byte string at `at`.
pub fn get_blob(input: &[u8], at: usize) -> (found: Option<(Vec<u8>, usize)>)
    requires
        at <= input.len(),
    ensures
        match found {
            Some((bytes, next)) => blob_at(input@, at as int) == Some((bytes@, next as int)) && at
                < next <= input.len(),
            None => blob_at(input@, at as int) is None,
        },
{
    if input.len() - at < 4 {
        return None;
    }
    let len: u32 = get_u32(input, at);
    if ((input.len() - at - 4) as u64) < len as u64 {
        return None;
    }
    let next: usize = at + 4 + len as usize;
    Some((copy_bytes(input, at + 4, next), next))
}

/// An image is its magic, its version, its body and the checksum, in this order; it is
/// ten bytes longer than its body.
pub proof fn law_image_layout(magic: u32, version: u16, body: Seq<u8>, sum: u32)
    ensures
        framed(magic, version, body, sum).len() == body.len() + 10,
        u32_at(framed(magic, version, body, sum), 0) == magic,
        u16_at(framed(magic, version, body, sum), 4) == version,
        framed(magic, version, body, sum).subrange(6, 6 + body.len() as int) == body,
        u32_at(framed(magic, version, body, sum), 6 + body.len() as int) == sum,
{
    broadcast use group_fields;

    let image = framed(magic, version, body, sum);
    let end = 6 + body.len() as int;
    assert(image.subrange(0, 4) =~= u32_bytes(magic));
    assert(image.subrange(4, 6) =~= u16_bytes(version));
    assert(image.subrange(6, end) =~= body);
    assert(image.subrange(end, end + 4) =~= u32_bytes(sum));
}

/// The first thing that is wrong with an image names its fault: its length, its magic,
/// its version, and last its checksum.
pub proof fn law_image_faults_are_told_apart(
    input: Seq<u8>,
    magic: u32,
    version: u16,
    computed: u32,
)
    ensures
        ({
            let result = unframed(input, magic, version, computed);
            let stored = u32_at(input, input.len() - 4);
            &&& input.len() < 10 <==> result == Err::<Seq<u8>, _>(ImageFault::Truncated)
            &&& input.len() >= 10 && u32_at(input, 0) != magic ==> result == Err::<Seq<u8>, _>(
                ImageFault::BadMagic { found: u32_at(input, 0) },
            )
            &&& input.len() >= 10 && u32_at(input, 0) == magic && u16_at(input, 4) != version
                ==> result == Err::<Seq<u8>, _>(
                ImageFault::UnsupportedVersion { found: u16_at(input, 4) },
            )
            &&& input.len() >= 10 && u32_at(input, 0) == magic && u16_at(input, 4) == version
                && stored != computed ==> result == Err::<Seq<u8>, _>(
                ImageFault::BadCrc { found: stored, computed },
            )
            &&& input.len() >= 10 && u32_at(input, 0) == magic && u16_at(input, 4) == version
                && stored == computed ==> result == Ok::<_, ImageFault>(body_of(input))
        }),
{
}

/// A blob is its length and its bytes, and reads as far as its length says.
pub proof fn law_blobs_stand_behind_their_length(input: Seq<u8>, at: int)
    requires
        0 <= at <= input.len(),
    ensures
        blob_at(input, at) matches Some((bytes, next)) ==> {
            &&& bytes.len() == u32_at(input, at)
            &&& next == at + 4 + bytes.len()
            &&& next <= input.len()
            &&& bytes == input.subrange(at + 4, next)
        },
        at + 4 <= input.len() && at + 4 + u32_at(input, at) <= input.len() ==> blob_at(input, at)
            is Some,
{
}

} // verus!
