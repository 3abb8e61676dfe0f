//! Text on the wire is UTF-16: what a run of code units means as characters,
//! and the conversions between the two.

use vstd::prelude::*;
use vstd::string::StrSliceExecFns;

verus! {

/// `code` is a Unicode scalar value: a code point that is no surrogate.
pub open spec fn is_scalar_value(code: int) -> bool {
    0 <= code < 0xD800 || 0xE000 <= code <= 0x10FFFF
}

/// `unit` is the first half of a surrogate pair.
pub open spec fn is_high_surrogate(unit: u16) -> bool {
    0xD800 <= unit <= 0xDBFF
}

/// `unit` is the second half of a surrogate pair.
pub open spec fn is_low_surrogate(unit: u16) -> bool {
    0xDC00 <= unit <= 0xDFFF
}

/// The code point that a surrogate pair stands for.
pub open spec fn pair_value(high: u16, low: u16) -> int {
    0x10000 + (high - 0xD800) * 0x400 + (low - 0xDC00)
}

/// The one or two code units of a character.
pub open spec fn encode_char(c: char) -> Seq<u16> {
    let code = c as int;
    if code < 0x10000 {
        seq![code as u16]
    } else {
        seq![
            (0xD800 + (code - 0x10000) / 0x400) as u16,
            (0xDC00 + (code - 0x10000) % 0x400) as u16,
        ]
    }
}

/// The UTF-16 code units of a text, character by character.
pub open spec fn utf16_encode(chars: Seq<char>) -> Seq<u16>
    decreases chars.len(),
{
    if chars.len() == 0 {
        Seq::empty()
    } else {
        encode_char(chars[0]) + utf16_encode(chars.drop_first())
    }
}

/// `c` in front of a decoded rest, if there is one.
pub open spec fn prepend(c: char, rest: Option<Seq<char>>) -> Option<Seq<char>> {
    match rest {
        Some(chars) => Some(seq![c] + chars),
        None => None,
    }
}

/// The text that a run of UTF-16 code units stands for, or `None` where the
/// run holds a surrogate that is not part of a pair.
pub open spec fn utf16_decode(units: Seq<u16>) -> Option<Seq<char>>
    decreases units.len(),
{
    if units.len() == 0 {
        Some(Seq::empty())
    } else if !is_high_surrogate(units[0]) && !is_low_surrogate(units[0]) {
        prepend(units[0] as char, utf16_decode(units.skip(1)))
    } else if is_high_surrogate(units[0]) && units.len() >= 2 && is_low_surrogate(units[1]) {
        prepend(pair_value(units[0], units[1]) as char, utf16_decode(units.skip(2)))
    } else {
        None
    }
}

/// The code units of a text with one more character are those of the text,
/// then those of the character.
pub proof fn lemma_encode_push(chars: Seq<char>, c: char)
    ensures
        utf16_encode(chars.push(c)) == utf16_encode(chars) + encode_char(c),
    decreases chars.len(),
{
    if chars.len() == 0 {
        assert(chars.push(c).drop_first() =~= Seq::<char>::empty());
        assert(utf16_encode(chars.push(c).drop_first()) =~= Seq::<u16>::empty());
        assert(utf16_encode(chars) =~= Seq::<u16>::empty());
        assert(utf16_encode(chars.push(c)) =~= utf16_encode(chars) + encode_char(c));
    } else {
        lemma_encode_push(chars.drop_first(), c);
        assert(chars.push(c).drop_first() =~= chars.drop_first().push(c));
        assert(utf16_encode(chars.push(c)) =~= utf16_encode(chars) + encode_char(c));
    }
}

/// Decoding the code units of a character, followed by more units, gives the
/// character, followed by what the rest decodes to.
pub proof fn lemma_decode_char(c: char, rest: Seq<u16>)
    ensures
        utf16_decode(encode_char(c) + rest) == prepend(c, utf16_decode(rest)),
{
    let units = encode_char(c) + rest;
    let code = c as int;
    if code < 0x10000 {
        assert(units.skip(1) =~= rest);
        assert(units[0] as char == c);
    } else {
        assert(units.skip(2) =~= rest);
        let offset = code - 0x10000;
        assert(0 <= offset < 0x100000);
        assert(0 <= offset / 0x400 < 0x400);
        assert(pair_value(units[0], units[1]) == code);
    }
}

/// Every text survives the way into UTF-16 and back.
pub proof fn lemma_utf16_round_trip(chars: Seq<char>)
    ensures
        utf16_decode(utf16_encode(chars)) == Some(chars),
    decreases chars.len(),
{
    if chars.len() > 0 {
        let rest = chars.drop_first();
        lemma_utf16_round_trip(rest);
        lemma_decode_char(chars[0], utf16_encode(rest));
        assert(seq![chars[0]] + rest =~= chars);
    }
}

/// Conversely, code units that stand for a text are the code units of that
/// text: no two runs of units decode to the same text.
pub proof fn lemma_utf16_decode_is_exact(units: Seq<u16>)
    requires
        utf16_decode(units) is Some,
    ensures
        utf16_encode(utf16_decode(units)->Some_0) == units,
    decreases units.len(),
{
    let chars = utf16_decode(units)->Some_0;
    if units.len() == 0 {
        assert(utf16_encode(chars) =~= units);
    } else if !is_high_surrogate(units[0]) && !is_low_surrogate(units[0]) {
        let rest = units.skip(1);
        lemma_utf16_decode_is_exact(rest);
        let tail = utf16_decode(rest)->Some_0;
        assert(chars.drop_first() =~= tail);
        assert(utf16_encode(chars) =~= units);
    } else {
        let rest = units.skip(2);
        lemma_utf16_decode_is_exact(rest);
        let tail = utf16_decode(rest)->Some_0;
        let code = pair_value(units[0], units[1]);
        assert(0x10000 <= code <= 0x10FFFF);
        assert(chars.drop_first() =~= tail);
        assert((code - 0x10000) / 0x400 == units[0] - 0xD800);
        assert((code - 0x10000) % 0x400 == units[1] - 0xDC00);
        assert(utf16_encode(chars) =~= units);
    }
}

/// `char::from_u32`: the character with the given code, for every Unicode
/// scalar value and for no other number.
pub assume_specification[ char::from_u32 ](code: u32) -> (c: Option<char>)
    ensures
        c == (if is_scalar_value(code as int) {
            Some(code as char)
        } else {
            None::<char>
        }),
;

/// `String::push`: the text with `c` behind it.
pub assume_specification[ String::push ](text: &mut String, c: char)
    ensures
        final(text)@ == old(text)@.push(c),
;

/// The UTF-16 code units of `text`.
pub fn encode_utf16(text: &str) -> (units: Vec<u16>)
    ensures
        units@ == utf16_encode(text@),
{
    let count = text.unicode_len();
    let mut units: Vec<u16> = Vec::new();
    let mut i: usize = 0;
    while i < count
        invariant
            i <= count,
            count == text@.len(),
            units@ == utf16_encode(text@.take(i as int)),
        decreases count - i,
    {
        let c = text.get_char(i);
        let code: u32 = c as u32;
        proof {
            lemma_encode_push(text@.take(i as int), c);
            assert(text@.take(i + 1) =~= text@.take(i as int).push(c));
        }
        if code < 0x10000 {
            units.push(code as u16);
        } else {
            let offset: u32 = code - 0x10000;
            units.push((0xD800 + offset / 0x400) as u16);
            units.push((0xDC00 + offset % 0x400) as u16);
        }
        assert(units@ =~= utf16_encode(text@.take(i as int)) + encode_char(c));
        i = i + 1;
    }
    assert(text@.take(i as int) =~= text@);
    units
}

/// What has been decoded so far, in front of what the rest decodes to.
spec fn join(done: Seq<char>, rest: Option<Seq<char>>) -> Option<Seq<char>> {
    match rest {
        Some(chars) => Some(done + chars),
        None => None,
    }
}

/// The text that `units` stand for, or `None` where they are not valid UTF-16.
pub fn decode_utf16(units: &[u16]) -> (text: Option<String>)
    ensures
        match text {
            Some(text) => utf16_decode(units@) == Some(text@),
            None => utf16_decode(units@) is None,
        },
{
    let mut text = String::new();
    let mut i: usize = 0;
    assert(units@.skip(0) =~= units@);
    assert(join(text@, utf16_decode(units@)) =~= utf16_decode(units@)) by {
        match utf16_decode(units@) {
            Some(chars) => {
                assert(text@ + chars =~= chars);
            },
            None => {},
        }
    }
    while i < units.len()
        invariant
            i <= units.len(),
            utf16_decode(units@) == join(text@, utf16_decode(units@.skip(i as int))),
        decreases units.len() - i,
    {
        let ghost tail = units@.skip(i as int);
        let ghost done = text@;
        let unit: u16 = units[i];
        if unit < 0xD800 || unit > 0xDFFF {
            match char::from_u32(unit as u32) {
                Some(c) => {
                    text.push(c);
                    proof {
                        assert(tail.skip(1) =~= units@.skip(i + 1));
                        lemma_join_step(done, c, utf16_decode(tail.skip(1)));
                    }
                    i = i + 1;
                },
                None => {
                    return None;
                },
            }
        } else if unit <= 0xDBFF && i + 1 < units.len() && 0xDC00 <= units[i + 1]
            && units[i + 1] <= 0xDFFF {
            let high: u32 = (unit - 0xD800) as u32;
            let low: u32 = (units[i + 1] - 0xDC00) as u32;
            match char::from_u32(0x10000 + high * 0x400 + low) {
                Some(c) => {
                    text.push(c);
                    proof {
                        assert(tail.skip(2) =~= units@.skip(i + 2));
                        lemma_join_step(done, c, utf16_decode(tail.skip(2)));
                    }
                    i = i + 2;
                },
                None => {
                    return None;
                },
            }
        } else {
            return None;
        }
    }
    proof {
        assert(text@ + Seq::<char>::empty() =~= text@);
    }
    Some(text)
}

/// Moving one character from the rest to what is done changes nothing.
proof fn lemma_join_step(done: Seq<char>, c: char, rest: Option<Seq<char>>)
    ensures
        join(done, prepend(c, rest)) == join(done.push(c), rest),
{
    match rest {
        Some(chars) => {
            assert(done + (seq![c] + chars) =~= done.push(c) + chars);
        },
        None => {},
    }
}

} // verus!
