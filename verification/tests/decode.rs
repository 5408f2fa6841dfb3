use butterfly::bytes::{push_le_u64, read_be, read_le, store_le_u64};
use butterfly::decode::{read_code, read_text, TextError};
use butterfly::file::{File, FileError};

#[test]
fn little_and_big_endian_reads() {
    let bytes = vec![0x01, 0x02, 0x03, 0x04, 0x05, 0x06, 0x07, 0x08, 0x09];
    assert_eq!(read_le(&bytes, 0, 4), 0x0403_0201);
    assert_eq!(read_be(&bytes, 0, 4), 0x0102_0304);
    assert_eq!(read_le(&bytes, 1, 8), 0x0908_0706_0504_0302);
    assert_eq!(read_be(&bytes, 1, 8), 0x0203_0405_0607_0809);
    assert_eq!(read_le(&bytes, 8, 1), 9);
    assert_eq!(read_le(&bytes, 3, 0), 0);
}

#[test]
fn little_endian_writes() {
    let mut out = vec![0xaa];
    push_le_u64(&mut out, 0x1122_3344_5566_7788);
    assert_eq!(out, vec![0xaa, 0x88, 0x77, 0x66, 0x55, 0x44, 0x33, 0x22, 0x11]);
    store_le_u64(&mut out, 1, 0x10);
    assert_eq!(out, vec![0xaa, 0x10, 0, 0, 0, 0, 0, 0, 0]);
    assert_eq!(read_le(&out, 1, 8), 0x10);
}

#[test]
fn read_code_reads_each_length() {
    assert_eq!(read_code(&vec![0x41], 0, true), Ok((0x41, 1)));
    assert_eq!(read_code(&vec![0xc3, 0xa4], 0, true), Ok((0xe4, 2)));
    assert_eq!(read_code(&vec![0xe2, 0x82, 0xac], 0, true), Ok((0x20ac, 3)));
    assert_eq!(read_code(&vec![0xf0, 0x9f, 0xa6, 0x8b], 0, true), Ok((0x1f98b, 4)));
    assert_eq!(read_code(&vec![0x00, 0x41], 1, true), Ok((0x41, 2)));
}

#[test]
fn read_code_refuses_a_number_spelled_too_long() {
    // two bytes for what one byte spells
    assert_eq!(read_code(&vec![0xc0, 0x80], 0, true), Err(TextError::Malformed));
    assert_eq!(read_code(&vec![0xc1, 0x81], 0, true), Err(TextError::Malformed));
    assert_eq!(read_code(&vec![0xc1, 0xbf], 0, true), Err(TextError::Malformed));
    assert_eq!(read_code(&vec![0xc2, 0x80], 0, true), Ok((0x80, 2)));
    // three bytes for what two spell
    assert_eq!(read_code(&vec![0xe0, 0x80, 0x80], 0, true), Err(TextError::Malformed));
    assert_eq!(read_code(&vec![0xe0, 0x9f, 0xbf], 0, true), Err(TextError::Malformed));
    assert_eq!(read_code(&vec![0xe0, 0xa0, 0x80], 0, true), Ok((0x800, 3)));
    // four bytes for what three spell
    assert_eq!(read_code(&vec![0xf0, 0x80, 0x80, 0x80], 0, true), Err(TextError::Malformed));
    assert_eq!(read_code(&vec![0xf0, 0x8f, 0xbf, 0xbf], 0, true), Err(TextError::Malformed));
    assert_eq!(read_code(&vec![0xf0, 0x90, 0x80, 0x80], 0, true), Ok((0x1_0000, 4)));
    // a continuation byte that is missing or wrong is told first
    assert_eq!(read_code(&vec![0xe0, 0x80], 0, true), Err(TextError::OutOfBounds));
    assert_eq!(read_code(&vec![0xe0, 0x80, 0x41], 0, true), Err(TextError::Malformed));
}

#[test]
fn read_code_failures() {
    assert_eq!(read_code(&vec![], 0, true), Err(TextError::OutOfBounds));
    assert_eq!(read_code(&vec![0x41], 1, true), Err(TextError::OutOfBounds));
    assert_eq!(read_code(&vec![0x80], 0, true), Err(TextError::Malformed));
    assert_eq!(read_code(&vec![0xf8], 0, true), Err(TextError::Malformed));
    assert_eq!(read_code(&vec![0xc3], 0, true), Err(TextError::OutOfBounds));
    assert_eq!(read_code(&vec![0xc3, 0x41], 0, true), Err(TextError::Malformed));
    assert_eq!(read_code(&vec![0xe2, 0x82], 0, true), Err(TextError::OutOfBounds));
    assert_eq!(read_code(&vec![0xc3, 0xa4], 0, false), Err(TextError::NotAscii));
    assert_eq!(read_code(&vec![0x80], 0, false), Err(TextError::NotAscii));
}

#[test]
fn read_text_counted() {
    let bytes = "h\u{e4}llo w\u{f6}rld".as_bytes().to_vec();
    assert_eq!(read_text(&bytes, 0, Some(5), true), Ok((String::from("h\u{e4}llo"), 6)));
    assert_eq!(read_text(&bytes, 7, Some(2), true), Ok((String::from("w\u{f6}"), 3)));
    assert_eq!(read_text(&bytes, 0, Some(0), true), Ok((String::new(), 0)));
    assert_eq!(read_text(&bytes, 1000, Some(0), true), Ok((String::new(), 0)));
    assert_eq!(read_text(&bytes, 0, Some(100), true), Err(TextError::OutOfBounds));
    assert_eq!(read_text(&bytes, 1000, Some(1), true), Err(TextError::OutOfBounds));
}

#[test]
fn read_text_counted_keeps_zero_characters() {
    assert_eq!(read_text(&vec![0x61, 0x00, 0x62], 0, Some(3), true), Ok((String::from("a\0b"), 3)));
}

#[test]
fn read_text_up_to_zero() {
    let bytes = vec![0x61, 0x62, 0x00, 0x63];
    assert_eq!(read_text(&bytes, 0, None, true), Ok((String::from("ab"), 3)));
    assert_eq!(read_text(&bytes, 2, None, true), Ok((String::new(), 1)));
    assert_eq!(read_text(&bytes, 3, None, true), Err(TextError::OutOfBounds));
    // a zero that is spelled with two bytes ends no text
    assert_eq!(read_text(&vec![0x61, 0xc0, 0x80, 0x62], 0, None, true), Err(TextError::Malformed));
    assert_eq!(read_text(&vec![0xc1, 0x81], 0, Some(1), true), Err(TextError::Malformed));
}

#[test]
fn read_text_ascii() {
    assert_eq!(read_text(&vec![0x61, 0x62, 0x00], 0, None, false), Ok((String::from("ab"), 3)));
    assert_eq!(read_text(&vec![0x61, 0xc3, 0xa4, 0x00], 0, None, false), Err(TextError::NotAscii));
    assert_eq!(read_text(&vec![0x61, 0xff], 0, Some(2), false), Err(TextError::NotAscii));
}

#[test]
fn read_text_refuses_what_is_no_character() {
    // A surrogate, and a number above the last character.
    assert_eq!(read_text(&vec![0xed, 0xa0, 0x80], 0, Some(1), true), Err(TextError::Malformed));
    assert_eq!(read_text(&vec![0xf4, 0x90, 0x80, 0x80], 0, Some(1), true), Err(TextError::Malformed));
    assert_eq!(read_text(&vec![0xf4, 0x8f, 0xbf, 0xbf], 0, Some(1), true), Ok((String::from("\u{10ffff}"), 4)));
    assert_eq!(read_text(&vec![0xee, 0x80, 0x80], 0, Some(1), true), Ok((String::from("\u{e000}"), 3)));
}

#[test]
fn file_reads() {
    let file = File::new(vec![1, 2, 3, 4, 5]);
    assert_eq!(file.len(), 5);
    assert_eq!(file.read_u8(0), Ok(1));
    assert_eq!(file.read_u8(4), Ok(5));
    assert_eq!(file.read_u8(5), Err(FileError::ShortRead));
    let mut buffer = vec![0; 3];
    assert_eq!(file.read(1, &mut buffer), Ok(()));
    assert_eq!(buffer, vec![2, 3, 4]);
    let mut buffer = vec![9; 3];
    assert_eq!(file.read(3, &mut buffer), Err(FileError::ShortRead));
    assert_eq!(buffer, vec![4, 5, 9]);
    let mut buffer = vec![9; 2];
    assert_eq!(file.read(7, &mut buffer), Err(FileError::ShortRead));
    assert_eq!(buffer, vec![9, 9]);
    let mut empty: Vec<u8> = Vec::new();
    assert_eq!(file.read(7, &mut empty), Ok(()));
}

#[test]
fn file_writes() {
    let mut file = File::new(vec![1, 2, 3]);
    assert_eq!(file.write_u8(1, 9), Ok(()));
    assert_eq!(file.bytes(), &vec![1, 9, 3]);
    assert_eq!(file.write_u8(5, 7), Ok(()));
    assert_eq!(file.bytes(), &vec![1, 9, 3, 0, 0, 7]);
    assert_eq!(file.write_u8(u64::MAX, 7), Err(FileError::OutOfRange));
    assert_eq!(file.len(), 6);
    assert_eq!(FileError::ShortRead.message(), "Short read");
    assert_eq!(FileError::OutOfRange.message(), "Offset out of range");
}
