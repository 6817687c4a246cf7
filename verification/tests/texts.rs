use xdown::number::{parse_u64, push_decimal};
use xdown::text::{behind_last, char_is_space, chars_of, drop_char, find_from, lines_of, same_text, text_of, trim};

fn trimmed(s: &str) -> String {
    let v = chars_of(s);
    trim(&v, 0, v.len())
}

#[test]
fn characters_come_in_order() {
    assert_eq!(chars_of("aé文🦀"), vec!['a', 'é', '文', '🦀']);
    assert_eq!(text_of(&chars_of("aé文🦀"), 1, 3), "é文");
    assert_eq!(text_of(&chars_of("abc"), 2, 2), "");
}

#[test]
fn white_space_is_that_of_unicode() {
    for code in 0..0x110000u32 {
        if let Some(c) = char::from_u32(code) {
            assert_eq!(char_is_space(c), c.is_whitespace());
        }
    }
}

#[test]
fn trimming_agrees_with_the_standard_library() {
    for s in ["", " ", "a", " a ", "\t a b \r\n", "\u{3000}文\u{a0}", "\u{200b}x", "  \u{2028}"] {
        assert_eq!(trimmed(s), s.trim());
    }
}

#[test]
fn lines_agree_with_the_standard_library() {
    for s in ["", "\n", "a", "a\n", "a\r\n", "a\r", "a\nb", "a\n\nb\r\n\r\nc\r", "\r\n", "a\r\r\nb", "文\n件"] {
        let expected: Vec<String> = s.lines().map(|line| line.to_string()).collect();
        assert_eq!(lines_of(s), expected);
    }
}

#[test]
fn dropping_a_character_leaves_the_others() {
    assert_eq!(drop_char("a-b-c", '-'), "abc");
    assert_eq!(drop_char("---", '-'), "");
    assert_eq!(drop_char("abc", '-'), "abc");
}

#[test]
fn places_are_found_from_either_end() {
    let v = chars_of("a:b:c");
    assert_eq!(find_from(&v, 0, ':'), 1);
    assert_eq!(find_from(&v, 2, ':'), 3);
    assert_eq!(find_from(&v, 4, ':'), 5);
    assert_eq!(behind_last(&v, ':'), 4);
    assert_eq!(behind_last(&v, 'x'), 0);
}

#[test]
fn texts_are_compared_whole() {
    assert!(same_text("none", "none"));
    assert!(!same_text("none", "None"));
    assert!(!same_text("none", "non"));
}

#[test]
fn numbers_agree_with_the_standard_library() {
    for s in [
        "", "+", "-", "0", "+0", "00", "7", "+7", "-7", "++7", "007", "18446744073709551615", "18446744073709551616",
        "+18446744073709551615", "99999999999999999999999", "1x", "x1", " 1", "1 ", "１",
        "000000000000000000000000000000000001", "18446744073709551615x",
    ] {
        assert_eq!(parse_u64(s), s.parse::<u64>().ok(), "{}", s);
    }
}

#[test]
fn decimal_digits_are_those_of_the_number() {
    for n in [0, 1, 9, 10, 11, 99, 100, 1024, 65535, 10_000_000_000, u64::MAX - 1, u64::MAX] {
        let mut s = "n=".to_string();
        push_decimal(&mut s, n);
        assert_eq!(s, format!("n={}", n));
    }
}

#[test]
fn decimal_digits_read_back() {
    for n in [0, 5, 10, 4096, u64::MAX] {
        let mut s = String::new();
        push_decimal(&mut s, n);
        assert_eq!(parse_u64(&s), Some(n));
    }
}
