use encoding::{Encoding, EncoderTrap};
use xdown::codec::{DecoderTrap, LABELS};
use xdown::config::{decode_list, links, utf16_decode};

fn utf16(s: &str, big: bool) -> Vec<u8> {
    s.encode_utf16().flat_map(|unit| if big { unit.to_be_bytes() } else { unit.to_le_bytes() }).collect()
}

fn ok(s: &str) -> Result<String, String> {
    Ok(s.to_string())
}

#[test]
fn utf16_is_read_in_either_order() {
    let s = "http://h/文件 🦀\n";
    assert_eq!(utf16_decode(&utf16(s, false), DecoderTrap::Strict, false), ok(s));
    assert_eq!(utf16_decode(&utf16(s, true), DecoderTrap::Strict, true), ok(s));
    assert_eq!(utf16_decode(&[], DecoderTrap::Strict, true), ok(""));
}

#[test]
fn byte_order_mark_stays_in_the_text() {
    assert_eq!(utf16_decode(&[0xff, 0xfe, 0x61, 0x00], DecoderTrap::Strict, false), ok("\u{feff}a"));
}

#[test]
fn flawed_utf16_is_refused() {
    let invalid: Result<String, String> = Err("invalid sequence".to_string());
    let incomplete: Result<String, String> = Err("incomplete sequence".to_string());
    assert_eq!(utf16_decode(&[0x61], DecoderTrap::Strict, true), incomplete);
    assert_eq!(utf16_decode(&[0x00, 0x61, 0x00], DecoderTrap::Strict, true), incomplete);
    assert_eq!(utf16_decode(&[0xd8, 0x00], DecoderTrap::Strict, true), incomplete);
    assert_eq!(utf16_decode(&[0xd8, 0x00, 0xdc], DecoderTrap::Strict, true), incomplete);
    assert_eq!(utf16_decode(&[0xdc, 0x00, 0x00, 0x61], DecoderTrap::Strict, true), invalid);
    assert_eq!(utf16_decode(&[0xd8, 0x00, 0x00, 0x61], DecoderTrap::Strict, true), invalid);
}

#[test]
fn flawed_utf16_is_mended() {
    let bytes = [0x00, 0x61, 0xd8, 0x00, 0x00, 0x62, 0xdc, 0x00, 0x00, 0x63, 0x00];
    assert_eq!(utf16_decode(&bytes, DecoderTrap::Replace, true), ok("a\u{fffd}b\u{fffd}c\u{fffd}"));
    assert_eq!(utf16_decode(&bytes, DecoderTrap::Ignore, true), ok("abc"));
    assert_eq!(utf16_decode(&[0xd8, 0x00, 0xdc], DecoderTrap::Replace, true), ok("\u{fffd}"));
    assert_eq!(utf16_decode(&[0xd8, 0x00, 0xd8, 0x00, 0xdc, 0x00], DecoderTrap::Replace, true), ok("\u{fffd}\u{10000}"));
}

#[test]
fn utf8_list_is_read_whatever_the_order() {
    let s = "https://例子/一.zip\r\nhttps://h/2";
    assert_eq!(decode_list(s.as_bytes(), false), Some(s.to_string()));
    assert_eq!(decode_list(s.as_bytes(), true), Some(s.to_string()));
    assert_eq!(decode_list(&[], false), Some(String::new()));
}

#[test]
fn utf16_list_is_read_where_it_is_no_utf8() {
    let s = "链接";
    assert_eq!(decode_list(&utf16(s, false), false), Some(s.to_string()));
    assert_eq!(decode_list(&utf16(s, true), true), Some(s.to_string()));
}

#[test]
fn gbk_list_of_odd_length_is_read() {
    let s = "链接a";
    let bytes = encoding::all::GBK.encode(s, EncoderTrap::Strict).unwrap();
    assert_eq!(bytes.len() % 2, 1);
    assert_eq!(decode_list(&bytes, false), Some(s.to_string()));
}

#[test]
fn later_label_is_tried_where_the_first_do_not_fit() {
    assert_eq!(decode_list(&[0xff], false), Some("\u{a0}".to_string()));
    let position = LABELS.iter().position(|label| *label == "866").unwrap();
    assert_eq!(position, 3);
}

#[test]
fn labels_name_encodings() {
    assert_eq!(LABELS.len(), 15);
    for label in LABELS {
        assert!(encoding::label::encoding_from_whatwg_label(label).is_some());
    }
}

#[test]
fn links_are_the_lines_that_are_not_empty() {
    assert_eq!(links("a\n\nb\r\n\r\nc"), vec!["a", "b", "c"]);
    assert_eq!(links("\n\n"), Vec::<String>::new());
    assert_eq!(links(" \na\r"), vec![" ", "a\r"]);
}
