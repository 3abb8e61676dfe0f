//! Little-endian integers: what a run of bytes means as a number, and the
//! calls into `byteorder` that convert between the two.

use byteorder::ByteOrder;
use byteorder::LittleEndian;
use vstd::prelude::*;

verus! {

/// The number of values that `width` bytes can tell apart: 256 to the power `width`.
pub open spec fn radix(width: nat) -> nat
    decreases width,
{
    if width == 0 {
        1
    } else {
        256 * radix((width - 1) as nat)
    }
}

/// The unsigned number that `bytes` spell, least significant byte first.
pub open spec fn le_value(bytes: Seq<u8>) -> nat
    decreases bytes.len(),
{
    if bytes.len() == 0 {
        0
    } else {
        bytes[0] as nat + 256 * le_value(bytes.drop_first())
    }
}

/// The `width` bytes that spell `value` modulo `radix(width)`, least
/// significant byte first.
pub open spec fn le_bytes(value: nat, width: nat) -> Seq<u8>
    decreases width,
{
    if width == 0 {
        Seq::empty()
    } else {
        seq![(value % 256) as u8] + le_bytes(value / 256, (width - 1) as nat)
    }
}

/// The two's-complement reading of an unsigned `value` of `width` bytes.
pub open spec fn to_signed(value: nat, width: nat) -> int {
    if 2 * value >= radix(width) {
        value - radix(width)
    } else {
        value as int
    }
}

/// The unsigned `width`-byte number whose two's-complement reading is `value`.
pub open spec fn to_unsigned(value: int, width: nat) -> nat {
    if value < 0 {
        (value + radix(width)) as nat
    } else {
        value as nat
    }
}

/// The radix of each integer width that the wire format uses.
pub proof fn lemma_radix_values()
    ensures
        radix(1) == 0x100,
        radix(2) == 0x1_0000,
        radix(4) == 0x1_0000_0000,
        radix(8) == 0x1_0000_0000_0000_0000,
{
    reveal_with_fuel(radix, 9);
}

/// `le_bytes` yields exactly `width` bytes.
pub proof fn lemma_le_bytes_len(value: nat, width: nat)
    ensures
        le_bytes(value, width).len() == width,
    decreases width,
{
    if width > 0 {
        lemma_le_bytes_len(value / 256, (width - 1) as nat);
    }
}

/// A run of bytes spells a number below the radix of its length.
pub proof fn lemma_le_value_bound(bytes: Seq<u8>)
    ensures
        le_value(bytes) < radix(bytes.len()),
    decreases bytes.len(),
{
    if bytes.len() > 0 {
        lemma_le_value_bound(bytes.drop_first());
    }
}

/// Reading back the bytes of a number that fits in `width` bytes gives the number.
pub proof fn lemma_le_value_of_bytes(value: nat, width: nat)
    requires
        value < radix(width),
    ensures
        le_value(le_bytes(value, width)) == value,
    decreases width,
{
    if width > 0 {
        let rest = le_bytes(value / 256, (width - 1) as nat);
        let all = le_bytes(value, width);
        lemma_le_value_of_bytes(value / 256, (width - 1) as nat);
        assert(all.drop_first() =~= rest);
        assert(all[0] == (value % 256) as u8);
    }
}

/// Spelling the number that a run of bytes means gives the bytes back.
pub proof fn lemma_le_bytes_of_value(bytes: Seq<u8>)
    ensures
        le_bytes(le_value(bytes), bytes.len()) == bytes,
    decreases bytes.len(),
{
    if bytes.len() > 0 {
        let rest = bytes.drop_first();
        lemma_le_bytes_of_value(rest);
        let value = le_value(bytes);
        assert(value % 256 == bytes[0] as nat);
        assert(value / 256 == le_value(rest));
        assert(le_bytes(value, bytes.len()) =~= bytes);
    } else {
        assert(le_bytes(le_value(bytes), 0) =~= bytes);
    }
}

/// The two's-complement reading and its inverse undo each other on the
/// signed range of `width` bytes.
pub proof fn lemma_signed_round_trip(value: int, width: nat)
    requires
        width > 0,
        -(radix(width) as int) <= 2 * value < radix(width),
    ensures
        to_unsigned(value, width) < radix(width),
        to_signed(to_unsigned(value, width), width) == value,
{
}

/// An unsigned number of `width` bytes is the unsigned form of its
/// two's-complement reading, which lies in the signed range of that width.
pub proof fn lemma_unsigned_round_trip(value: nat, width: nat)
    requires
        width > 0,
        value < radix(width),
    ensures
        -(radix(width) as int) <= 2 * to_signed(value, width) < radix(width),
        to_unsigned(to_signed(value, width), width) == value,
{
}

/// `byteorder::LittleEndian::read_u16`: the first two bytes of `buf`, read as
/// an unsigned little-endian number. The call panics on a shorter buffer.
#[verifier::external_body]
pub(crate) fn read_u16(buf: &[u8]) -> (value: u16)
    requires
        buf@.len() >= 2,
    ensures
        value as nat == le_value(buf@.take(2)),
{
    LittleEndian::read_u16(buf)
}

/// `byteorder::LittleEndian::read_i16`: the first two bytes of `buf`, read as
/// a little-endian number in two's complement. The call panics on a shorter
/// buffer.
#[verifier::external_body]
pub(crate) fn read_i16(buf: &[u8]) -> (value: i16)
    requires
        buf@.len() >= 2,
    ensures
        value as int == to_signed(le_value(buf@.take(2)), 2),
{
    LittleEndian::read_i16(buf)
}

/// `byteorder::LittleEndian::read_i32`: the first four bytes of `buf`, read as
/// a little-endian number in two's complement. The call panics on a shorter
/// buffer.
#[verifier::external_body]
pub(crate) fn read_i32(buf: &[u8]) -> (value: i32)
    requires
        buf@.len() >= 4,
    ensures
        value as int == to_signed(le_value(buf@.take(4)), 4),
{
    LittleEndian::read_i32(buf)
}

/// `byteorder::LittleEndian::read_i64`: the first eight bytes of `buf`, read
/// as a little-endian number in two's complement. The call panics on a shorter
/// buffer.
#[verifier::external_body]
pub(crate) fn read_i64(buf: &[u8]) -> (value: i64)
    requires
        buf@.len() >= 8,
    ensures
        value as int == to_signed(le_value(buf@.take(8)), 8),
{
    LittleEndian::read_i64(buf)
}

/// `byteorder::LittleEndian::write_u16`, on a buffer of two bytes: the bytes
/// that spell `value`, least significant first.
#[verifier::external_body]
pub(crate) fn write_u16(value: u16) -> (bytes: [u8; 2])
    ensures
        bytes@ == le_bytes(value as nat, 2),
{
    let mut bytes = [0u8; 2];
    LittleEndian::write_u16(&mut bytes, value);
    bytes
}

/// `byteorder::LittleEndian::write_i16`, on a buffer of two bytes: the bytes
/// that spell the two's complement of `value`, least significant first.
#[verifier::external_body]
pub(crate) fn write_i16(value: i16) -> (bytes: [u8; 2])
    ensures
        bytes@ == le_bytes(to_unsigned(value as int, 2), 2),
{
    let mut bytes = [0u8; 2];
    LittleEndian::write_i16(&mut bytes, value);
    bytes
}

/// `byteorder::LittleEndian::write_i32`, on a buffer of four bytes: the bytes
/// that spell the two's complement of `value`, least significant first.
#[verifier::external_body]
pub(crate) fn write_i32(value: i32) -> (bytes: [u8; 4])
    ensures
        bytes@ == le_bytes(to_unsigned(value as int, 4), 4),
{
    let mut bytes = [0u8; 4];
    LittleEndian::write_i32(&mut bytes, value);
    bytes
}

/// `byteorder::LittleEndian::write_i64`, on a buffer of eight bytes: the bytes
/// that spell the two's complement of `value`, least significant first.
#[verifier::external_body]
pub(crate) fn write_i64(value: i64) -> (bytes: [u8; 8])
    ensures
        bytes@ == le_bytes(to_unsigned(value as int, 8), 8),
{
    let mut bytes = [0u8; 8];
    LittleEndian::write_i64(&mut bytes, value);
    bytes
}

} // verus!
