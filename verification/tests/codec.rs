use goldleaf_fs::cursor::Cursor;
use goldleaf_fs::error::CodecError;
use goldleaf_fs::traits::serializable::Serializable;

fn cursor_over(bytes: &[u8]) -> Cursor {
    Cursor::new(bytes.to_vec())
}

#[test]
fn i32_is_written_least_significant_byte_first() {
    let mut cursor = Cursor::new(Vec::new());
    <i32 as Serializable<i32>>::write(&mut cursor, 0x49434C47).unwrap();
    assert_eq!(cursor.get_ref(), &vec![0x47, 0x4C, 0x43, 0x49]);
    assert_eq!(cursor.position(), 4);
}

#[test]
fn i32_negative_is_twos_complement() {
    let mut cursor = Cursor::new(Vec::new());
    <i32 as Serializable<i32>>::write(&mut cursor, -2).unwrap();
    assert_eq!(cursor.get_ref(), &vec![0xFE, 0xFF, 0xFF, 0xFF]);
    let mut back = cursor_over(&[0xFE, 0xFF, 0xFF, 0xFF]);
    assert_eq!(<i32 as Serializable<i32>>::read(&mut back), Ok(-2));
}

#[test]
fn i16_round_trip_at_the_same_position() {
    for value in [0i16, 1, -1, 258, i16::MIN, i16::MAX] {
        let mut cursor = cursor_over(&[9, 9, 9]);
        cursor.set_position(1);
        <i16 as Serializable<i16>>::write(&mut cursor, value).unwrap();
        assert_eq!(cursor.position(), 3);
        cursor.set_position(1);
        assert_eq!(<i16 as Serializable<i16>>::read(&mut cursor), Ok(value));
        assert_eq!(cursor.position(), 3);
        assert_eq!(cursor.get_ref()[0], 9);
    }
}

#[test]
fn i64_round_trip_at_the_same_position() {
    for value in [0i64, 12345, -12345, i64::MIN, i64::MAX, 0x0102030405060708] {
        let mut cursor = Cursor::new(Vec::new());
        <i64 as Serializable<i64>>::write(&mut cursor, value).unwrap();
        assert_eq!(cursor.len(), 8);
        cursor.set_position(0);
        assert_eq!(<i64 as Serializable<i64>>::read(&mut cursor), Ok(value));
    }
}

#[test]
fn i64_bytes_are_little_endian() {
    let mut cursor = Cursor::new(Vec::new());
    <i64 as Serializable<i64>>::write(&mut cursor, 0x0102030405060708).unwrap();
    assert_eq!(cursor.get_ref(), &vec![8, 7, 6, 5, 4, 3, 2, 1]);
}

#[test]
fn u8_round_trip() {
    for value in [0u8, 1, 127, 128, 255] {
        let mut cursor = Cursor::new(Vec::new());
        <u8 as Serializable<u8>>::write(&mut cursor, value).unwrap();
        assert_eq!(cursor.get_ref(), &vec![value]);
        cursor.set_position(0);
        assert_eq!(<u8 as Serializable<u8>>::read(&mut cursor), Ok(value));
    }
}

#[test]
fn reading_past_the_end_is_truncated() {
    let mut cursor = cursor_over(&[1, 2, 3]);
    assert_eq!(<i32 as Serializable<i32>>::read(&mut cursor), Err(CodecError::Truncated));
    assert_eq!(cursor.position(), 0);
    assert_eq!(<i64 as Serializable<i64>>::read(&mut cursor), Err(CodecError::Truncated));
    assert_eq!(<i16 as Serializable<i16>>::read(&mut cursor), Ok(0x0201));
    assert_eq!(<i16 as Serializable<i16>>::read(&mut cursor), Err(CodecError::Truncated));
    assert_eq!(<u8 as Serializable<u8>>::read(&mut cursor), Ok(3));
    assert_eq!(<u8 as Serializable<u8>>::read(&mut cursor), Err(CodecError::Truncated));
}

#[test]
fn text_is_a_count_of_units_then_the_units() {
    let mut cursor = Cursor::new(Vec::new());
    <String as Serializable<String>>::write(&mut cursor, "Hi".to_string()).unwrap();
    assert_eq!(cursor.get_ref(), &vec![2, 0, 0, 0, b'H', 0, b'i', 0]);
}

#[test]
fn text_counts_code_units_not_bytes_nor_characters() {
    // U+00E9 is two bytes in UTF-8 and one unit in UTF-16; U+1F600 is four
    // bytes in UTF-8 and two units in UTF-16.
    let mut cursor = Cursor::new(Vec::new());
    <String as Serializable<String>>::write(&mut cursor, "\u{e9}\u{1F600}".to_string()).unwrap();
    assert_eq!(
        cursor.get_ref(),
        &vec![3, 0, 0, 0, 0xE9, 0x00, 0x3D, 0xD8, 0x00, 0xDE]
    );
}

#[test]
fn text_round_trip_at_the_same_position() {
    for text in ["", "C:/data", "na\u{ef}ve \u{4e2d}\u{6587}", "\u{1F600}\u{10FFFF}\u{FFFF}\u{E000}\u{D7FF}"] {
        let mut cursor = cursor_over(&[7, 7]);
        cursor.set_position(2);
        <String as Serializable<String>>::write(&mut cursor, text.to_string()).unwrap();
        let end = cursor.position();
        cursor.set_position(2);
        assert_eq!(<String as Serializable<String>>::read(&mut cursor), Ok(text.to_string()));
        assert_eq!(cursor.position(), end);
    }
}

#[test]
fn text_agrees_with_the_standard_encoding() {
    let text = "a\u{1F600}z\u{20AC}";
    let units: Vec<u16> = text.encode_utf16().collect();
    assert_eq!(goldleaf_fs::text::encode_utf16(text), units);
    assert_eq!(goldleaf_fs::text::decode_utf16(&units), Some(text.to_string()));
    assert_eq!(
        goldleaf_fs::text::decode_utf16(&units),
        String::from_utf16(&units).ok()
    );
}

#[test]
fn lone_surrogate_is_invalid_text() {
    // One unit, a high surrogate with nothing behind it.
    let mut cursor = cursor_over(&[1, 0, 0, 0, 0x00, 0xD8]);
    assert_eq!(<String as Serializable<String>>::read(&mut cursor), Err(CodecError::InvalidText));
    assert_eq!(cursor.position(), 0);
    // A low surrogate first.
    let mut cursor = cursor_over(&[2, 0, 0, 0, 0x00, 0xDC, 0x00, 0xD8]);
    assert_eq!(<String as Serializable<String>>::read(&mut cursor), Err(CodecError::InvalidText));
    // A high surrogate followed by an ordinary unit.
    let mut cursor = cursor_over(&[2, 0, 0, 0, 0x00, 0xD8, b'a', 0]);
    assert_eq!(<String as Serializable<String>>::read(&mut cursor), Err(CodecError::InvalidText));
    assert_eq!(goldleaf_fs::text::decode_utf16(&[0xD800]), None);
    assert_eq!(goldleaf_fs::text::decode_utf16(&[0xDC00, 0xD800]), None);
}

#[test]
fn text_shorter_than_its_count_is_truncated() {
    let mut cursor = cursor_over(&[3, 0, 0, 0, b'a', 0, b'b', 0, b'c']);
    assert_eq!(<String as Serializable<String>>::read(&mut cursor), Err(CodecError::Truncated));
    assert_eq!(cursor.position(), 0);
    let mut cursor = cursor_over(&[3, 0, 0]);
    assert_eq!(<String as Serializable<String>>::read(&mut cursor), Err(CodecError::Truncated));
    let mut cursor = cursor_over(&[0xFF, 0xFF, 0xFF, 0x7F, b'a', 0]);
    assert_eq!(<String as Serializable<String>>::read(&mut cursor), Err(CodecError::Truncated));
}

#[test]
fn text_with_a_negative_count_is_empty() {
    let mut cursor = cursor_over(&[0xFF, 0xFF, 0xFF, 0xFF, b'a', 0]);
    assert_eq!(<String as Serializable<String>>::read(&mut cursor), Ok(String::new()));
    assert_eq!(cursor.position(), 4);
}

#[test]
fn writing_overwrites_and_extends() {
    let mut cursor = cursor_over(&[1, 2, 3, 4, 5, 6]);
    cursor.set_position(1);
    <i16 as Serializable<i16>>::write(&mut cursor, 0x0B0A).unwrap();
    assert_eq!(cursor.get_ref(), &vec![1, 0x0A, 0x0B, 4, 5, 6]);
    cursor.set_position(4);
    <i32 as Serializable<i32>>::write(&mut cursor, 0x0D0C0B0A).unwrap();
    assert_eq!(cursor.get_ref(), &vec![1, 0x0A, 0x0B, 4, 0x0A, 0x0B, 0x0C, 0x0D]);
    assert_eq!(cursor.position(), 8);
}

#[test]
fn set_position_stops_at_the_end() {
    let mut cursor = cursor_over(&[1, 2, 3]);
    cursor.set_position(10);
    assert_eq!(cursor.position(), 3);
    assert!(!cursor.advance(1));
    cursor.set_position(1);
    assert!(cursor.advance(2));
    assert_eq!(cursor.position(), 3);
    assert_eq!(cursor.peek(0), Some(&[][..]));
    assert_eq!(cursor.peek(1), None);
}
