//! Little-endian fields of the canonical encodings.
//!
//! Every persisted record is a concatenation of fixed-width little-endian
//! integers, single bytes and length-prefixed byte strings. This module says
//! what one such field is, writes it and reads it back.

use vstd::prelude::*;

verus! {

/// The `width` low bytes of `value`, least significant first.
pub open spec fn le_bytes(value: nat, width: nat) -> Seq<u8>
    decreases width,
{
    if width == 0 {
        Seq::empty()
    } else {
        seq![(value % 256) as u8] + le_bytes(value / 256, (width - 1) as nat)
    }
}

/// The number that `bytes` spell, least significant byte first.
pub open spec fn le_value(bytes: Seq<u8>) -> nat
    decreases bytes.len(),
{
    if bytes.len() == 0 {
        0
    } else {
        bytes[0] as nat + 256 * le_value(bytes.drop_first())
    }
}

/// How many values fit in `width` bytes.
pub open spec fn byte_capacity(width: nat) -> nat
    decreases width,
{
    if width == 0 {
        1
    } else {
        256 * byte_capacity((width - 1) as nat)
    }
}

/// A field has the width it was written with.
pub proof fn lemma_le_bytes_len(value: nat, width: nat)
    ensures
        le_bytes(value, width).len() == width,
    decreases width,
{
    if width > 0 {
        lemma_le_bytes_len(value / 256, (width - 1) as nat);
    }
}

/// Reading a field gives back what was written into it.
pub proof fn lemma_le_round_trip(value: nat, width: nat)
    requires
        value < byte_capacity(width),
    ensures
        le_value(le_bytes(value, width)) == value,
    decreases width,
{
    if width > 0 {
        let rest = le_bytes(value / 256, (width - 1) as nat);
        lemma_le_round_trip(value / 256, (width - 1) as nat);
        assert(le_bytes(value, width).drop_first() =~= rest);
    }
}

/// A field never spells a number beyond its width.
pub proof fn lemma_le_value_bound(bytes: Seq<u8>)
    ensures
        le_value(bytes) < byte_capacity(bytes.len()),
    decreases bytes.len(),
{
    if bytes.len() > 0 {
        lemma_le_value_bound(bytes.drop_first());
    }
}

/// Writing what was read gives the same bytes.
pub proof fn lemma_le_read_back(bytes: Seq<u8>)
    ensures
        le_bytes(le_value(bytes), bytes.len()) == bytes,
    decreases bytes.len(),
{
    if bytes.len() > 0 {
        lemma_le_read_back(bytes.drop_first());
        assert(le_bytes(le_value(bytes), bytes.len()) =~= bytes);
    }
}

proof fn lemma_byte_capacities()
    ensures
        byte_capacity(2) == 0x1_0000,
        byte_capacity(4) == 0x1_0000_0000,
        byte_capacity(8) == 0x1_0000_0000_0000_0000,
        byte_capacity(16) == 0x1_0000_0000_0000_0000_0000_0000_0000_0000,
{
    reveal_with_fuel(byte_capacity, 17);
}

/// The two bytes of a `u16` field.
pub open spec fn u16_bytes(value: u16) -> Seq<u8> {
    le_bytes(value as nat, 2)
}

/// The four bytes of a `u32` field.
pub open spec fn u32_bytes(value: u32) -> Seq<u8> {
    le_bytes(value as nat, 4)
}

/// The eight bytes of a `u64` field.
pub open spec fn u64_bytes(value: u64) -> Seq<u8> {
    le_bytes(value as nat, 8)
}

/// The sixteen bytes of a `u128` field.
pub open spec fn u128_bytes(value: u128) -> Seq<u8> {
    le_bytes(value as nat, 16)
}

/// The `u16` field that starts at `at`.
pub open spec fn u16_at(input: Seq<u8>, at: int) -> u16 {
    le_value(input.subrange(at, at + 2)) as u16
}

/// The `u32` field that starts at `at`.
pub open spec fn u32_at(input: Seq<u8>, at: int) -> u32 {
    le_value(input.subrange(at, at + 4)) as u32
}

/// The `u64` field that starts at `at`.
pub open spec fn u64_at(input: Seq<u8>, at: int) -> u64 {
    le_value(input.subrange(at, at + 8)) as u64
}

/// The `u128` field that starts at `at`.
pub open spec fn u128_at(input: Seq<u8>, at: int) -> u128 {
    le_value(input.subrange(at, at + 16)) as u128
}

/// A `u16` field reads back as the value it holds.
pub broadcast proof fn lemma_u16_field(value: u16)
    ensures
        (#[trigger] u16_bytes(value)).len() == 2,
        le_value(u16_bytes(value)) == value,
{
    lemma_byte_capacities();
    lemma_le_bytes_len(value as nat, 2);
    lemma_le_round_trip(value as nat, 2);
}

/// A `u32` field reads back as the value it holds.
pub broadcast proof fn lemma_u32_field(value: u32)
    ensures
        (#[trigger] u32_bytes(value)).len() == 4,
        le_value(u32_bytes(value)) == value,
{
    lemma_byte_capacities();
    lemma_le_bytes_len(value as nat, 4);
    lemma_le_round_trip(value as nat, 4);
}

/// A `u64` field reads back as the value it holds.
pub broadcast proof fn lemma_u64_field(value: u64)
    ensures
        (#[trigger] u64_bytes(value)).len() == 8,
        le_value(u64_bytes(value)) == value,
{
    lemma_byte_capacities();
    lemma_le_bytes_len(value as nat, 8);
    lemma_le_round_trip(value as nat, 8);
}

/// A `u128` field reads back as the value it holds.
pub broadcast proof fn lemma_u128_field(value: u128)
    ensures
        (#[trigger] u128_bytes(value)).len() == 16,
        le_value(u128_bytes(value)) == value,
{
    lemma_byte_capacities();
    lemma_le_bytes_len(value as nat, 16);
    lemma_le_round_trip(value as nat, 16);
}

pub broadcast group group_fields {
    lemma_u16_field,
    lemma_u32_field,
    lemma_u64_field,
    lemma_u128_field,
}

fn put_le(out: &mut Vec<u8>, value: u128, width: usize)
    requires
        width <= 16,
    ensures
        final(out)@ == old(out)@ + le_bytes(value as nat, width as nat),
{
    let mut rest: u128 = value;
    let mut written: usize = 0;
    let ghost start = out@;
    proof {
        assert(start + le_bytes(value as nat, width as nat) =~= out@ + le_bytes(
            rest as nat,
            width as nat,
        ));
    }
    while written < width
        invariant
            written <= width,
            width <= 16,
            out@ + le_bytes(rest as nat, (width - written) as nat) == start + le_bytes(
                value as nat,
                width as nat,
            ),
        decreases width - written,
    {
        let ghost before = out@;
        let byte: u8 = (rest % 256) as u8;
        out.push(byte);
        proof {
            assert(le_bytes(rest as nat, (width - written) as nat) == seq![byte] + le_bytes(
                (rest / 256) as nat,
                (width - written - 1) as nat,
            ));
            assert(out@ + le_bytes((rest / 256) as nat, (width - written - 1) as nat) =~= before + (
            seq![byte] + le_bytes((rest / 256) as nat, (width - written - 1) as nat)));
        }
        rest = rest / 256;
        written = written + 1;
    }
    proof {
        assert(out@ + le_bytes(rest as nat, 0) =~= out@);
    }
}

fn get_le(input: &[u8], at: usize, width: usize) -> (value: u128)
    requires
        width <= 16,
        at + width <= input.len(),
    ensures
        value == le_value(input@.subrange(at as int, at + width)),
        value < byte_capacity(width as nat),
{
    let mut value: u128 = 0;
    let mut left: usize = width;
    proof {
        lemma_byte_capacities();
        assert(input@.subrange(at + width, at + width) =~= Seq::<u8>::empty());
    }
    while left > 0
        invariant
            left <= width <= 16,
            at + width <= input.len(),
            value == le_value(input@.subrange(at + left, at + width)),
            value < byte_capacity((width - left) as nat),
            byte_capacity(16) == 0x1_0000_0000_0000_0000_0000_0000_0000_0000,
        decreases left,
    {
        left = left - 1;
        let byte: u8 = input[at + left];
        proof {
            let ghost tail = input@.subrange(at + left, at + width);
            assert(tail.drop_first() =~= input@.subrange(at + left + 1, at + width));
            assert(le_value(tail) == tail[0] as nat + 256 * le_value(tail.drop_first()));
            lemma_le_value_bound(tail);
            lemma_capacity_monotone((width - left) as nat, 16);
        }
        value = byte as u128 + 256 * value;
    }
    value
}

proof fn lemma_capacity_monotone(narrow: nat, wide: nat)
    requires
        narrow <= wide,
    ensures
        byte_capacity(narrow) <= byte_capacity(wide),
    decreases wide,
{
    if narrow < wide {
        lemma_capacity_monotone(narrow, (wide - 1) as nat);
        lemma_capacity_positive((wide - 1) as nat);
    }
}

proof fn lemma_capacity_positive(width: nat)
    ensures
        byte_capacity(width) > 0,
    decreases width,
{
    if width > 0 {
        lemma_capacity_positive((width - 1) as nat);
    }
}

/// Appends a `u16` field.
pub fn put_u16(out: &mut Vec<u8>, value: u16)
    ensures
        final(out)@ == old(out)@ + u16_bytes(value),
{
    put_le(out, value as u128, 2);
}

/// Appends a `u32` field.
pub fn put_u32(out: &mut Vec<u8>, value: u32)
    ensures
        final(out)@ == old(out)@ + u32_bytes(value),
{
    put_le(out, value as u128, 4);
}

/// Appends a `u64` field.
pub fn put_u64(out: &mut Vec<u8>, value: u64)
    ensures
        final(out)@ == old(out)@ + u64_bytes(value),
{
    put_le(out, value as u128, 8);
}

/// Appends a `u128` field.
pub fn put_u128(out: &mut Vec<u8>, value: u128)
    ensures
        final(out)@ == old(out)@ + u128_bytes(value),
{
    put_le(out, value, 16);
}

/// Reads the `u16` field that starts at `at`.
pub fn get_u16(input: &[u8], at: usize) -> (value: u16)
    requires
        at + 2 <= input.len(),
    ensures
        value == u16_at(input@, at as int),
        value == le_value(input@.subrange(at as int, at + 2)),
{
    proof {
        lemma_byte_capacities();
    }
    get_le(input, at, 2) as u16
}

/// Reads the `u32` field that starts at `at`.
pub fn get_u32(input: &[u8], at: usize) -> (value: u32)
    requires
        at + 4 <= input.len(),
    ensures
        value == u32_at(input@, at as int),
        value == le_value(input@.subrange(at as int, at + 4)),
{
    proof {
        lemma_byte_capacities();
    }
    get_le(input, at, 4) as u32
}

/// Reads the `u64` field that starts at `at`.
pub fn get_u64(input: &[u8], at: usize) -> (value: u64)
    requires
        at + 8 <= input.len(),
    ensures
        value == u64_at(input@, at as int),
        value == le_value(input@.subrange(at as int, at + 8)),
{
    proof {
        lemma_byte_capacities();
    }
    get_le(input, at, 8) as u64
}

/// Reads the `u128` field that starts at `at`.
pub fn get_u128(input: &[u8], at: usize) -> (value: u128)
    requires
        at + 16 <= input.len(),
    ensures
        value == u128_at(input@, at as int),
        value == le_value(input@.subrange(at as int, at + 16)),
{
    get_le(input, at, 16)
}

/// The unsigned number with the same 32 bits.
pub open spec fn i32_bits(value: i32) -> u32 {
    if value >= 0 {
        value as u32
    } else {
        (value + 0x1_0000_0000) as u32
    }
}

/// The signed number with the same 32 bits.
pub open spec fn bits_i32(bits: u32) -> i32 {
    if bits < 0x8000_0000 {
        bits as i32
    } else {
        (bits - 0x1_0000_0000) as i32
    }
}

/// Signed numbers survive the way through their bits.
pub broadcast proof fn lemma_i32_bits(value: i32)
    ensures
        bits_i32(#[trigger] i32_bits(value)) == value,
{
}

/// Appends an `i32` field.
pub fn put_i32(out: &mut Vec<u8>, value: i32)
    ensures
        final(out)@ == old(out)@ + u32_bytes(i32_bits(value)),
{
    let bits: u32 = if value >= 0 {
        value as u32
    } else {
        (value as i64 + 0x1_0000_0000) as u32
    };
    put_u32(out, bits);
}

/// Reads the `i32` field that starts at `at`.
pub fn get_i32(input: &[u8], at: usize) -> (value: i32)
    requires
        at + 4 <= input.len(),
    ensures
        value == bits_i32(u32_at(input@, at as int)),
{
    let bits: u32 = get_u32(input, at);
    if bits < 0x8000_0000 {
        bits as i32
    } else {
        (bits as i64 - 0x1_0000_0000) as i32
    }
}

/// The unsigned number with the same 64 bits.
pub open spec fn i64_bits(value: i64) -> u64 {
    if value >= 0 {
        value as u64
    } else {
        (value + 0x1_0000_0000_0000_0000) as u64
    }
}

/// The signed number with the same 64 bits.
pub open spec fn bits_i64(bits: u64) -> i64 {
    if bits < 0x8000_0000_0000_0000 {
        bits as i64
    } else {
        (bits - 0x1_0000_0000_0000_0000) as i64
    }
}

/// Signed numbers survive the way through their bits.
pub broadcast proof fn lemma_i64_bits(value: i64)
    ensures
        bits_i64(#[trigger] i64_bits(value)) == value,
{
}

/// Appends an `i64` field.
pub fn put_i64(out: &mut Vec<u8>, value: i64)
    ensures
        final(out)@ == old(out)@ + u64_bytes(i64_bits(value)),
{
    let bits: u64 = if value >= 0 {
        value as u64
    } else {
        (value as i128 + 0x1_0000_0000_0000_0000) as u64
    };
    put_u64(out, bits);
}

/// Reads the `i64` field that starts at `at`.
pub fn get_i64(input: &[u8], at: usize) -> (value: i64)
    requires
        at + 8 <= input.len(),
    ensures
        value == bits_i64(u64_at(input@, at as int)),
{
    let bits: u64 = get_u64(input, at);
    if bits < 0x8000_0000_0000_0000 {
        bits as i64
    } else {
        (bits as i128 - 0x1_0000_0000_0000_0000) as i64
    }
}

/// Appends raw bytes.
pub fn put_bytes(out: &mut Vec<u8>, bytes: &[u8])
    ensures
        final(out)@ == old(out)@ + bytes@,
{
    let ghost start = out@;
    out.extend_from_slice(bytes);
    proof {
        assert(out@ =~= start + bytes@);
    }
}

/// Copies the bytes from `from` up to `until`.
pub fn copy_bytes(input: &[u8], from: usize, until: usize) -> (bytes: Vec<u8>)
    requires
        from <= until <= input.len(),
    ensures
        bytes@ == input@.subrange(from as int, until as int),
{
    let mut bytes: Vec<u8> = Vec::new();
    let mut at: usize = from;
    while at < until
        invariant
            from <= at <= until <= input.len(),
            bytes@ == input@.subrange(from as int, at as int),
        decreases until - at,
    {
        bytes.push(input[at]);
        at = at + 1;
        proof {
            assert(input@.subrange(from as int, at as int) =~= input@.subrange(
                from as int,
                at - 1,
            ).push(input@[at - 1]));
        }
    }
    bytes
}

/// Copies all bytes.
pub fn clone_bytes(bytes: &[u8]) -> (copy: Vec<u8>)
    ensures
        copy@ == bytes@,
{
    let copy: Vec<u8> = copy_bytes(bytes, 0, bytes.len());
    proof {
        assert(copy@ =~= bytes@);
    }
    copy
}

/// Whether two byte strings are equal.
pub fn same_bytes(a: &[u8], b: &[u8]) -> (same: bool)
    ensures
        same == (a@ == b@),
{
    if a.len() != b.len() {
        return false;
    }
    let mut at: usize = 0;
    while at < a.len()
        invariant
            at <= a.len(),
            a.len() == b.len(),
            forall|i: int| 0 <= i < at ==> a@[i] == b@[i],
        decreases a.len() - at,
    {
        if a[at] != b[at] {
            return false;
        }
        at = at + 1;
    }
    proof {
        assert(a@ =~= b@);
    }
    true
}

/// Reads the 32-byte digest that starts at `at`.
pub fn get_digest(input: &[u8], at: usize) -> (digest: [u8; 32])
    requires
        at + 32 <= input.len(),
    ensures
        digest@ == input@.subrange(at as int, at + 32),
{
    let mut digest: [u8; 32] = [0u8; 32];
    let mut index: usize = 0;
    while index < 32
        invariant
            index <= 32,
            at + 32 <= input.len(),
            forall|i: int| 0 <= i < index ==> digest@[i] == input@[at + i],
        decreases 32 - index,
    {
        digest[index] = input[at + index];
        index = index + 1;
    }
    proof {
        assert(digest@ =~= input@.subrange(at as int, at + 32));
    }
    digest
}

/// Whether every byte of `bytes` is zero.
pub open spec fn all_zero(bytes: Seq<u8>) -> bool {
    forall|i: int| 0 <= i < bytes.len() ==> bytes[i] == 0
}

/// Whether a digest is the all-zero sentinel.
pub fn is_zero_digest(digest: &[u8; 32]) -> (zero: bool)
    ensures
        zero == all_zero(digest@),
{
    let mut index: usize = 0;
    while index < 32
        invariant
            index <= 32,
            forall|i: int| 0 <= i < index ==> digest@[i] == 0,
        decreases 32 - index,
    {
        if digest[index] != 0 {
            return false;
        }
        index = index + 1;
    }
    true
}

/// A result with its value taken by its view.
pub open spec fn view_result<T: View, E>(result: Result<T, E>) -> Result<T::V, E> {
    match result {
        Ok(value) => Ok(value@),
        Err(error) => Err(error),
    }
}

/// A length as the `u32` that is written for it: lengths beyond `u32` are
/// written as the largest one.
pub open spec fn wire_len(len: nat) -> u32 {
    if len > u32::MAX {
        u32::MAX
    } else {
        len as u32
    }
}

/// The length prefix of a collection with `len` elements.
pub fn len_prefix(len: usize) -> (prefix: u32)
    ensures
        prefix == wire_len(len as nat),
{
    if len as u64 > u32::MAX as u64 {
        u32::MAX
    } else {
        len as u32
    }
}

/// Fields are little-endian: the first byte of a field counts ones, and each next byte
/// counts 256 times as much as the one before it.
pub proof fn law_fields_are_little_endian(input: Seq<u8>, at: int)
    ensures
        0 <= at && at + 2 <= input.len() ==> u16_at(input, at) == input[at] + 0x100 * input[at
            + 1],
        0 <= at && at + 4 <= input.len() ==> u32_at(input, at) == input[at] + 0x100 * input[at
            + 1] + 0x1_0000 * input[at + 2] + 0x100_0000 * input[at + 3],
        0 <= at && at + 8 <= input.len() ==> u64_at(input, at) == u32_at(input, at)
            + 0x1_0000_0000 * u32_at(input, at + 4),
        0 <= at && at + 16 <= input.len() ==> u128_at(input, at) == u64_at(input, at)
            + 0x1_0000_0000_0000_0000 * u64_at(input, at + 8),
{
    reveal_with_fuel(le_value, 17);
    lemma_byte_capacities();
    if 0 <= at && at + 2 <= input.len() {
        let two = input.subrange(at, at + 2);
        assert(two.drop_first()[0] == input[at + 1]);
    }
    if 0 <= at && at + 4 <= input.len() {
        lemma_four_bytes(input, at);
    }
    if 0 <= at && at + 8 <= input.len() {
        let eight = input.subrange(at, at + 8);
        lemma_four_bytes(input, at);
        lemma_four_bytes(input, at + 4);
        assert(eight.skip(4) =~= input.subrange(at + 4, at + 8));
        assert(eight.take(4) =~= input.subrange(at, at + 4));
        lemma_value_splits(eight, 4);
        lemma_le_value_bound(eight);
    }
    if 0 <= at && at + 16 <= input.len() {
        let all = input.subrange(at, at + 16);
        assert(all.skip(8) =~= input.subrange(at + 8, at + 16));
        assert(all.take(8) =~= input.subrange(at, at + 8));
        lemma_value_splits(all, 8);
        lemma_le_value_bound(all);
        lemma_le_value_bound(all.take(8));
        lemma_le_value_bound(all.skip(8));
    }
}

proof fn lemma_four_bytes(input: Seq<u8>, at: int)
    requires
        0 <= at,
        at + 4 <= input.len(),
    ensures
        le_value(input.subrange(at, at + 4)) == input[at] + 0x100 * input[at + 1] + 0x1_0000
            * input[at + 2] + 0x100_0000 * input[at + 3],
{
    reveal_with_fuel(le_value, 5);
    let four = input.subrange(at, at + 4);
    assert(four.drop_first()[0] == input[at + 1]);
    assert(four.drop_first().drop_first()[0] == input[at + 2]);
    assert(four.drop_first().drop_first().drop_first()[0] == input[at + 3]);
}

/// A number is its low bytes and, above them, its high bytes.
proof fn lemma_value_splits(bytes: Seq<u8>, width: nat)
    requires
        width <= bytes.len(),
    ensures
        le_value(bytes) == le_value(bytes.take(width as int)) + byte_capacity(width) * le_value(
            bytes.skip(width as int),
        ),
    decreases width,
{
    if width == 0 {
        assert(bytes.skip(0) =~= bytes);
        assert(byte_capacity(0) == 1);
    } else {
        let rest = bytes.drop_first();
        let narrow = (width - 1) as nat;
        lemma_value_splits(rest, narrow);
        assert(bytes.take(width as int).drop_first() =~= rest.take(narrow as int));
        assert(bytes.skip(width as int) =~= rest.skip(narrow as int));
        let capacity = byte_capacity(narrow);
        let high = le_value(rest.skip(narrow as int));
        assert(256 * (capacity * high) == (256 * capacity) * high) by (nonlinear_arith);
    }
}

/// A signed field is its two's complement: nonnegative numbers are themselves and minus
/// one has every bit set.
pub proof fn law_signed_fields_are_twos_complement(small: i32, large: i64)
    ensures
        small >= 0 ==> i32_bits(small) == small,
        small < 0 ==> i32_bits(small) + (-small) == 0x1_0000_0000,
        large >= 0 ==> i64_bits(large) == large,
        large < 0 ==> i64_bits(large) + (-large) == 0x1_0000_0000_0000_0000,
{
}

/// What a field reads as encodes to the bytes of the field.
pub proof fn lemma_u64_read(input: Seq<u8>, at: int)
    requires
        0 <= at,
        at + 8 <= input.len(),
    ensures
        u64_bytes(u64_at(input, at)) == input.subrange(at, at + 8),
{
    let field = input.subrange(at, at + 8);
    lemma_le_value_bound(field);
    lemma_le_read_back(field);
    lemma_byte_capacities();
}

} // verus!
