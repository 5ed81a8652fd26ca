//! Behavioral tests of classification and rendering.

use rdbview::classify::{classify, Classification};
use rdbview::hex::format_hex_ascii;
use rdbview::render::{format_ascii, format_ascii_u8, render, DisplayMode, RenderError};

#[test]
fn classify_empty_is_text() {
    assert_eq!(classify(b""), Classification::Text);
}

#[test]
fn classify_utf8_is_text() {
    assert_eq!(classify(b"hello"), Classification::Text);
    assert_eq!(classify("トカゲ".as_bytes()), Classification::Text);
}

#[test]
fn classify_invalid_utf8_is_blob() {
    assert_eq!(classify(&[0x00, 0xFF, 0x41]), Classification::Blob);
    assert_eq!(classify(&[0xC3]), Classification::Blob);
}

#[test]
fn ascii_images_of_bytes() {
    assert_eq!(format_ascii_u8(b'!'), '!');
    assert_eq!(format_ascii_u8(b'~'), '~');
    assert_eq!(format_ascii_u8(b'A'), 'A');
    assert_eq!(format_ascii_u8(b' '), '.');
    assert_eq!(format_ascii_u8(0x00), '.');
    assert_eq!(format_ascii_u8(0x7F), '.');
    assert_eq!(format_ascii_u8(0xFF), '.');
}

#[test]
fn ascii_image_of_sequence() {
    assert_eq!(format_ascii(&[0x00, b'o', b'k', 0xFF]), ".ok.");
    assert_eq!(format_ascii(b""), "");
}

#[test]
fn plain_round_trip_hello() {
    assert_eq!(render(b"hello", DisplayMode::Plain(64)).unwrap(), "hello");
}

#[test]
fn plain_blob_is_rendered_bytewise() {
    assert_eq!(render(&[0x00, 0xFF, 0x41], DisplayMode::Plain(64)).unwrap(), "..A");
}

#[test]
fn plain_truncates_and_marks() {
    assert_eq!(render(b"hello world", DisplayMode::Plain(5)).unwrap(), "hello\u{2026}");
}

#[test]
fn plain_exact_budget_has_no_mark() {
    assert_eq!(render(b"hello", DisplayMode::Plain(5)).unwrap(), "hello");
}

#[test]
fn plain_empty_value() {
    assert_eq!(render(b"", DisplayMode::Plain(64)).unwrap(), "");
}

#[test]
fn plain_truncation_can_split_a_codepoint() {
    // "é" is two bytes; keeping one leaves invalid UTF-8, so the prefix is
    // rendered byte-wise and then marked.
    let v = "é".as_bytes();
    assert_eq!(v.len(), 2);
    assert_eq!(render(v, DisplayMode::Plain(1)).unwrap(), ".\u{2026}");
}

#[test]
fn plain_blob_length_stays_within_budget() {
    let v: Vec<u8> = (0..70u8).map(|i| if i % 2 == 0 { 0x00 } else { 0xFF }).collect();
    let out = render(&v, DisplayMode::Plain(64)).unwrap();
    let chars: Vec<char> = out.chars().collect();
    assert_eq!(*chars.last().unwrap(), '\u{2026}');
    assert_eq!(chars.len() - 1, 64);
}

#[test]
fn json_pretty_prints() {
    let out = render(br#"{"a":1}"#, DisplayMode::Json).unwrap();
    assert_eq!(out, "{\n  \"a\": 1\n}\n");
}

#[test]
fn json_rejects_non_json_text() {
    assert!(matches!(render(b"not json", DisplayMode::Json), Err(RenderError::NotJson)));
}

#[test]
fn json_rejects_non_utf8() {
    assert!(matches!(render(&[0xFF, 0xFE], DisplayMode::Json), Err(RenderError::NotJson)));
}

#[test]
fn json_ignores_budget_entirely() {
    // Json mode uses the whole value however long it is.
    let mut s = String::from("[");
    for i in 0..200 {
        if i > 0 {
            s.push(',');
        }
        s.push_str(&i.to_string());
    }
    s.push(']');
    let out = render(s.as_bytes(), DisplayMode::Json).unwrap();
    assert!(out.contains("199"));
    assert!(!out.contains('\u{2026}'));
}

#[test]
fn hex_empty_is_empty() {
    assert_eq!(format_hex_ascii(b""), "");
}

#[test]
fn hex_single_full_row() {
    let bytes: Vec<u8> = (0u8..16).collect();
    let out = format_hex_ascii(&bytes);
    assert_eq!(
        out,
        " 00 01 02 03 04 05 06 07 08 09 0A 0B 0C 0D 0E 0F |................\n"
    );
}

#[test]
fn hex_partial_row_is_padded() {
    let out = format_hex_ascii(&[0x41, 0xAB]);
    let mut expected = String::from(" 41 AB");
    for _ in 0..14 {
        expected.push_str("   ");
    }
    expected.push_str(" |A.");
    for _ in 0..14 {
        expected.push(' ');
    }
    expected.push('\n');
    assert_eq!(out, expected);
}

#[test]
fn hex_rows_share_one_width() {
    let bytes: Vec<u8> = (0u8..41).collect();
    let out = format_hex_ascii(&bytes);
    let lines: Vec<&str> = out.split_terminator('\n').collect();
    assert_eq!(lines.len(), 3);
    for line in &lines {
        assert_eq!(line.chars().count(), 66);
        assert_eq!(&line[48..50], " |");
    }
}

#[test]
fn hex_mode_truncates_and_marks_after_dump() {
    let out = render(&[0x41, 0x42, 0x43], DisplayMode::Hex(2)).unwrap();
    assert!(out.ends_with("\n\u{2026}"));
    assert!(out.starts_with(" 41 42"));
    assert!(!out.contains("43"));
}

#[test]
fn hex_mode_without_truncation_has_no_mark() {
    let out = render(&[0x41], DisplayMode::Hex(16)).unwrap();
    assert!(out.ends_with('\n'));
    assert!(!out.contains('\u{2026}'));
}
