//! Values that have a form on the wire: fixed-width little-endian integers,
//! and text as a count of UTF-16 code units followed by the units.

use crate::cursor::{Cursor, CursorView};
use crate::endian;
use crate::endian::{le_bytes, le_value, to_signed, to_unsigned};
use crate::error::CodecError;
use crate::text::{decode_utf16, encode_utf16, utf16_decode, utf16_encode};
use vstd::prelude::*;

verus! {

/// A type `T` whose values can be read from and written to a cursor.
///
/// `wire` and `parse` say what the two directions mean; `read` and `write`
/// carry them out; `lemma_round_trip` holds every implementation to the law
/// that what was written is read back unchanged.
pub trait Serializable<T: View> {
    /// The bytes that stand for `value`, or the reason why it has none.
    spec fn wire(value: T::V) -> Result<Seq<u8>, CodecError>;

    /// The value at the front of `bytes` and the number of bytes it takes up,
    /// or the reason why there is none.
    spec fn parse(bytes: Seq<u8>) -> Result<(T::V, nat), CodecError>;

    /// Reads one value at the cursor's position and moves the position behind
    /// it. On an error the cursor stays as it was.
    fn read(cursor: &mut Cursor) -> (result: Result<T, CodecError>)
        ensures
            match result {
                Ok(value) => {
                    &&& Self::parse(old(cursor)@.remaining()) is Ok
                    &&& value@ == Self::parse(old(cursor)@.remaining())->Ok_0.0
                    &&& final(cursor)@ == old(cursor)@.advance(
                        Self::parse(old(cursor)@.remaining())->Ok_0.1,
                    )
                },
                Err(error) => {
                    &&& Self::parse(old(cursor)@.remaining()) == Err::<(T::V, nat), CodecError>(
                        error,
                    )
                    &&& final(cursor)@ == old(cursor)@
                },
            },
    ;

    /// Writes `value` at the cursor's position and moves the position behind
    /// it. On an error the cursor stays as it was.
    fn write(cursor: &mut Cursor, value: T) -> (result: Result<(), CodecError>)
        ensures
            match result {
                Ok(_) => {
                    &&& Self::wire(value@) is Ok
                    &&& final(cursor)@ == old(cursor)@.put(Self::wire(value@)->Ok_0)
                },
                Err(error) => {
                    &&& Self::wire(value@) == Err::<Seq<u8>, CodecError>(error)
                    &&& final(cursor)@ == old(cursor)@
                },
            },
    ;

    /// The bytes of a value, with anything behind them, parse as that value
    /// and as nothing more.
    proof fn lemma_round_trip(value: T::V, rest: Seq<u8>)
        requires
            Self::wire(value) is Ok,
        ensures
            Self::parse(Self::wire(value)->Ok_0 + rest) == Ok::<(T::V, nat), CodecError>(
                (value, Self::wire(value)->Ok_0.len()),
            ),
    ;
}

/// The signed number of `width` bytes at the front of `bytes`.
pub open spec fn parse_signed(bytes: Seq<u8>, width: nat) -> Result<(int, nat), CodecError> {
    if bytes.len() < width {
        Err(CodecError::Truncated)
    } else {
        Ok((to_signed(le_value(bytes.take(width as int)), width), width))
    }
}

/// The `width` bytes of a signed number.
pub open spec fn wire_signed(value: int, width: nat) -> Seq<u8> {
    le_bytes(to_unsigned(value, width), width)
}

/// A signed number in the range of `width` bytes is read back from its bytes.
pub proof fn lemma_signed_wire_round_trip(value: int, width: nat, rest: Seq<u8>)
    requires
        width > 0,
        -(endian::radix(width) as int) <= 2 * value < endian::radix(width),
    ensures
        wire_signed(value, width).len() == width,
        parse_signed(wire_signed(value, width) + rest, width) == Ok::<(int, nat), CodecError>(
            (value, width),
        ),
{
    let bytes = wire_signed(value, width);
    endian::lemma_le_bytes_len(to_unsigned(value, width), width);
    endian::lemma_signed_round_trip(value, width);
    endian::lemma_le_value_of_bytes(to_unsigned(value, width), width);
    assert((bytes + rest).take(width as int) =~= bytes);
}

/// Conversely, a signed number is parsed from no other bytes than its own.
pub proof fn lemma_signed_parse_is_exact(bytes: Seq<u8>, width: nat)
    requires
        width > 0,
        parse_signed(bytes, width) is Ok,
    ensures
        wire_signed(parse_signed(bytes, width)->Ok_0.0, width) == bytes.take(width as int),
{
    let head = bytes.take(width as int);
    endian::lemma_le_value_bound(head);
    endian::lemma_unsigned_round_trip(le_value(head), width);
    endian::lemma_le_bytes_of_value(head);
}

impl Serializable<u8> for u8 {
    open spec fn wire(value: u8) -> Result<Seq<u8>, CodecError> {
        Ok(seq![value])
    }

    open spec fn parse(bytes: Seq<u8>) -> Result<(u8, nat), CodecError> {
        if bytes.len() < 1 {
            Err(CodecError::Truncated)
        } else {
            Ok((bytes[0], 1))
        }
    }

    fn read(cursor: &mut Cursor) -> (result: Result<u8, CodecError>) {
        let value = match cursor.peek(1) {
            Some(window) => window[0],
            None => {
                return Err(CodecError::Truncated);
            },
        };
        cursor.advance(1);
        Ok(value)
    }

    fn write(cursor: &mut Cursor, value: u8) -> (result: Result<(), CodecError>) {
        let bytes = [value];
        assert(bytes@ =~= seq![value]);
        cursor.put(bytes.as_slice());
        Ok(())
    }

    proof fn lemma_round_trip(value: u8, rest: Seq<u8>) {
    }
}

impl Serializable<i16> for i16 {
    open spec fn wire(value: i16) -> Result<Seq<u8>, CodecError> {
        Ok(wire_signed(value as int, 2))
    }

    open spec fn parse(bytes: Seq<u8>) -> Result<(i16, nat), CodecError> {
        match parse_signed(bytes, 2) {
            Ok((value, used)) => Ok((value as i16, used)),
            Err(error) => Err(error),
        }
    }

    fn read(cursor: &mut Cursor) -> (result: Result<i16, CodecError>) {
        let value = match cursor.peek(2) {
            Some(window) => {
                assert(window@.take(2) =~= window@);
                endian::read_i16(window)
            },
            None => {
                return Err(CodecError::Truncated);
            },
        };
        cursor.advance(2);
        Ok(value)
    }

    fn write(cursor: &mut Cursor, value: i16) -> (result: Result<(), CodecError>) {
        let bytes = endian::write_i16(value);
        cursor.put(bytes.as_slice());
        Ok(())
    }

    proof fn lemma_round_trip(value: i16, rest: Seq<u8>) {
        endian::lemma_radix_values();
        lemma_signed_wire_round_trip(value as int, 2, rest);
    }
}

impl Serializable<i32> for i32 {
    open spec fn wire(value: i32) -> Result<Seq<u8>, CodecError> {
        Ok(wire_signed(value as int, 4))
    }

    open spec fn parse(bytes: Seq<u8>) -> Result<(i32, nat), CodecError> {
        match parse_signed(bytes, 4) {
            Ok((value, used)) => Ok((value as i32, used)),
            Err(error) => Err(error),
        }
    }

    fn read(cursor: &mut Cursor) -> (result: Result<i32, CodecError>) {
        let value = match cursor.peek(4) {
            Some(window) => {
                assert(window@.take(4) =~= window@);
                endian::read_i32(window)
            },
            None => {
                return Err(CodecError::Truncated);
            },
        };
        cursor.advance(4);
        Ok(value)
    }

    fn write(cursor: &mut Cursor, value: i32) -> (result: Result<(), CodecError>) {
        let bytes = endian::write_i32(value);
        cursor.put(bytes.as_slice());
        Ok(())
    }

    proof fn lemma_round_trip(value: i32, rest: Seq<u8>) {
        endian::lemma_radix_values();
        lemma_signed_wire_round_trip(value as int, 4, rest);
    }
}

impl Serializable<i64> for i64 {
    open spec fn wire(value: i64) -> Result<Seq<u8>, CodecError> {
        Ok(wire_signed(value as int, 8))
    }

    open spec fn parse(bytes: Seq<u8>) -> Result<(i64, nat), CodecError> {
        match parse_signed(bytes, 8) {
            Ok((value, used)) => Ok((value as i64, used)),
            Err(error) => Err(error),
        }
    }

    fn read(cursor: &mut Cursor) -> (result: Result<i64, CodecError>) {
        let value = match cursor.peek(8) {
            Some(window) => {
                assert(window@.take(8) =~= window@);
                endian::read_i64(window)
            },
            None => {
                return Err(CodecError::Truncated);
            },
        };
        cursor.advance(8);
        Ok(value)
    }

    fn write(cursor: &mut Cursor, value: i64) -> (result: Result<(), CodecError>) {
        let bytes = endian::write_i64(value);
        cursor.put(bytes.as_slice());
        Ok(())
    }

    proof fn lemma_round_trip(value: i64, rest: Seq<u8>) {
        endian::lemma_radix_values();
        lemma_signed_wire_round_trip(value as int, 8, rest);
    }
}

/// The bytes of a run of code units: two for each, least significant first.
pub open spec fn units_wire(units: Seq<u16>) -> Seq<u8> {
    Seq::new(2 * units.len(), |k: int| le_bytes(units[k / 2] as nat, 2)[k % 2])
}

/// The `count` code units that the front of `bytes` spells.
pub open spec fn units_parse(bytes: Seq<u8>, count: nat) -> Seq<u16> {
    Seq::new(count, |i: int| le_value(bytes.subrange(2 * i, 2 * i + 2)) as u16)
}

/// The bytes of a text: the number of its UTF-16 code units as a signed
/// 32-bit integer, then the units. A text with more units than that integer
/// can hold has no bytes.
pub open spec fn text_wire(chars: Seq<char>) -> Result<Seq<u8>, CodecError> {
    let units = utf16_encode(chars);
    if units.len() > i32::MAX {
        Err(CodecError::TooLong)
    } else {
        Ok(wire_signed(units.len() as int, 4) + units_wire(units))
    }
}

/// The number of code units that a count field announces: a negative count
/// announces none.
pub open spec fn announced(count: int) -> nat {
    if count > 0 {
        count as nat
    } else {
        0
    }
}

/// The text at the front of `bytes`: a count, that many code units, and the
/// characters that the units stand for.
pub open spec fn text_parse(bytes: Seq<u8>) -> Result<(Seq<char>, nat), CodecError> {
    match parse_signed(bytes, 4) {
        Err(error) => Err(error),
        Ok((count, _)) => {
            let length = announced(count);
            if bytes.len() < 4 + 2 * length {
                Err(CodecError::Truncated)
            } else {
                match utf16_decode(units_parse(bytes.skip(4), length)) {
                    Some(chars) => Ok((chars, 4 + 2 * length)),
                    None => Err(CodecError::InvalidText),
                }
            }
        },
    }
}

/// Two bytes spell the code unit that they were made from.
pub proof fn lemma_unit_round_trip(unit: u16)
    ensures
        le_bytes(unit as nat, 2).len() == 2,
        le_value(le_bytes(unit as nat, 2)) == unit,
{
    endian::lemma_radix_values();
    endian::lemma_le_bytes_len(unit as nat, 2);
    endian::lemma_le_value_of_bytes(unit as nat, 2);
}

/// The bytes of a run of code units, with anything behind them, spell the run.
pub proof fn lemma_units_round_trip(units: Seq<u16>, rest: Seq<u8>)
    ensures
        units_wire(units).len() == 2 * units.len(),
        units_parse(units_wire(units) + rest, units.len()) == units,
{
    let bytes = units_wire(units) + rest;
    assert forall|i: int| 0 <= i < units.len() implies units_parse(bytes, units.len())[i]
        == units[i] by {
        let pair = bytes.subrange(2 * i, 2 * i + 2);
        lemma_unit_round_trip(units[i]);
        assert(pair =~= le_bytes(units[i] as nat, 2)) by {
            assert(pair[0] == units_wire(units)[2 * i]);
            assert(pair[1] == units_wire(units)[2 * i + 1]);
            assert((2 * i) / 2 == i && (2 * i) % 2 == 0);
            assert((2 * i + 1) / 2 == i && (2 * i + 1) % 2 == 1);
        }
    }
    assert(units_parse(bytes, units.len()) =~= units);
}

/// Conversely, the run of code units that bytes spell is spelt by no other
/// bytes.
pub proof fn lemma_units_parse_is_exact(bytes: Seq<u8>, count: nat)
    requires
        2 * count <= bytes.len(),
    ensures
        units_wire(units_parse(bytes, count)) == bytes.take(2 * count as int),
{
    let units = units_parse(bytes, count);
    let spelt = units_wire(units);
    endian::lemma_radix_values();
    assert forall|k: int| 0 <= k < 2 * count implies spelt[k] == bytes[k] by {
        let i = k / 2;
        let pair = bytes.subrange(2 * i, 2 * i + 2);
        endian::lemma_le_value_bound(pair);
        endian::lemma_le_bytes_of_value(pair);
        assert(units[i] == le_value(pair));
        assert(pair[k % 2] == bytes[k]);
    }
    assert(spelt =~= bytes.take(2 * count as int));
}

/// Conversely, a text is parsed from no other bytes than its own, but for a
/// negative count, which announces the empty text as a count of zero does.
pub proof fn lemma_text_parse_is_exact(bytes: Seq<u8>)
    requires
        text_parse(bytes) is Ok,
        parse_signed(bytes, 4)->Ok_0.0 >= 0,
    ensures
        text_wire(text_parse(bytes)->Ok_0.0) == Ok::<Seq<u8>, CodecError>(
            bytes.take(text_parse(bytes)->Ok_0.1 as int),
        ),
{
    let count = parse_signed(bytes, 4)->Ok_0.0;
    let length = announced(count);
    let units = units_parse(bytes.skip(4), length);
    let chars = text_parse(bytes)->Ok_0.0;
    endian::lemma_radix_values();
    endian::lemma_le_value_bound(bytes.take(4));
    crate::text::lemma_utf16_decode_is_exact(units);
    lemma_signed_parse_is_exact(bytes, 4);
    lemma_units_parse_is_exact(bytes.skip(4), length);
    assert(bytes.take(4) + bytes.skip(4).take(2 * length as int) =~= bytes.take(
        4 + 2 * length as int,
    ));
}

impl Serializable<String> for String {
    open spec fn wire(value: Seq<char>) -> Result<Seq<u8>, CodecError> {
        text_wire(value)
    }

    open spec fn parse(bytes: Seq<u8>) -> Result<(Seq<char>, nat), CodecError> {
        text_parse(bytes)
    }

    fn read(cursor: &mut Cursor) -> (result: Result<String, CodecError>) {
        let count = match cursor.peek(4) {
            Some(head) => {
                assert(head@.take(4) =~= head@);
                endian::read_i32(head)
            },
            None => {
                return Err(CodecError::Truncated);
            },
        };
        let length: usize = if count > 0 {
            count as usize
        } else {
            0
        };
        if length > (usize::MAX - 4) / 2 {
            proof {
                cursor.lemma_wf();
            }
            return Err(CodecError::Truncated);
        }
        let total: usize = 4 + 2 * length;
        let ghost bytes = cursor@.remaining();
        let window = match cursor.peek(total) {
            Some(window) => window,
            None => {
                return Err(CodecError::Truncated);
            },
        };
        let mut units: Vec<u16> = Vec::new();
        let mut i: usize = 0;
        while i < length
            invariant
                i <= length,
                total == 4 + 2 * length,
                window@ == bytes.take(total as int),
                total <= bytes.len(),
                units@ == units_parse(bytes.skip(4), i as nat),
            decreases length - i,
        {
            let pair = vstd::slice::slice_subrange(window, 4 + 2 * i, 6 + 2 * i);
            let unit = endian::read_u16(pair);
            proof {
                assert(pair@.take(2) =~= bytes.skip(4).subrange(2 * i, 2 * i + 2));
            }
            units.push(unit);
            i = i + 1;
            assert(units@ =~= units_parse(bytes.skip(4), i as nat));
        }
        match decode_utf16(units.as_slice()) {
            Some(text) => {
                cursor.advance(total);
                Ok(text)
            },
            None => Err(CodecError::InvalidText),
        }
    }

    fn write(cursor: &mut Cursor, value: String) -> (result: Result<(), CodecError>) {
        let units = encode_utf16(value.as_str());
        if units.len() > i32::MAX as usize {
            return Err(CodecError::TooLong);
        }
        let count = endian::write_i32(units.len() as i32);
        let mut bytes: Vec<u8> = Vec::new();
        bytes.push(count[0]);
        bytes.push(count[1]);
        bytes.push(count[2]);
        bytes.push(count[3]);
        proof {
            endian::lemma_le_bytes_len(to_unsigned(units.len() as int, 4), 4);
            assert(bytes@ =~= wire_signed(units.len() as int, 4) + units_wire(units@.take(0)));
        }
        let mut i: usize = 0;
        while i < units.len()
            invariant
                i <= units.len(),
                bytes@ == wire_signed(units.len() as int, 4) + units_wire(units@.take(i as int)),
                wire_signed(units.len() as int, 4).len() == 4,
            decreases units.len() - i,
        {
            let pair = endian::write_u16(units[i]);
            bytes.push(pair[0]);
            bytes.push(pair[1]);
            i = i + 1;
            proof {
                lemma_unit_round_trip(units[i - 1]);
                assert(bytes@ =~= wire_signed(units.len() as int, 4) + units_wire(
                    units@.take(i as int),
                ));
            }
        }
        proof {
            assert(units@.take(i as int) =~= units@);
        }
        cursor.put(bytes.as_slice());
        Ok(())
    }

    proof fn lemma_round_trip(value: Seq<char>, rest: Seq<u8>) {
        let units = utf16_encode(value);
        let head = wire_signed(units.len() as int, 4);
        let bytes = text_wire(value)->Ok_0 + rest;
        endian::lemma_radix_values();
        lemma_signed_wire_round_trip(units.len() as int, 4, units_wire(units) + rest);
        assert(head + (units_wire(units) + rest) =~= bytes);
        lemma_units_round_trip(units, rest);
        assert(bytes.skip(4) =~= units_wire(units) + rest);
        crate::text::lemma_utf16_round_trip(value);
    }
}

/// What is written at a position of a cursor is read back from that position:
/// for every type of the codec and every value of it that has bytes, a
/// `write` at a position, a return to that position and a `read` yield the
/// value that was written and leave the cursor behind it, where the write
/// left it.
pub proof fn lemma_write_then_read<T: Serializable<T> + View>(cursor: CursorView, value: T::V)
    requires
        cursor.wf(),
        T::wire(value) is Ok,
    ensures
        T::parse(cursor.put(T::wire(value)->Ok_0).at(cursor.position).remaining()) == Ok::<
            (T::V, nat),
            CodecError,
        >((value, T::wire(value)->Ok_0.len())),
        cursor.put(T::wire(value)->Ok_0).at(cursor.position).advance(T::wire(value)->Ok_0.len())
            == cursor.put(T::wire(value)->Ok_0),
{
    let bytes = T::wire(value)->Ok_0;
    let written = cursor.put(bytes);
    let rest = written.bytes.skip((cursor.position + bytes.len()) as int);
    assert(written.at(cursor.position).remaining() =~= bytes + rest);
    T::lemma_round_trip(value, rest);
}

} // verus!
