use rdpweb::bytes::{push_le, read_le};
use rdpweb::text::{
    contains_char, is_blank, is_white_space, push_number, starts_with_char,
};

#[test]
fn numbers_are_written_low_byte_first() {
    let mut bytes = vec![7];
    push_le(&mut bytes, 0x0102_0304, 4);
    push_le(&mut bytes, 0xffff, 1);
    assert_eq!(bytes, vec![7, 4, 3, 2, 1, 0xff]);
}

#[test]
fn numbers_are_read_back() {
    for value in [0u64, 1, 255, 256, 0x1234_5678_9abc_def0, u64::MAX] {
        let mut bytes = vec![0xaa, 0xbb];
        push_le(&mut bytes, value, 8);
        assert_eq!(read_le(&bytes, 2, 8), value);
    }
    assert_eq!(read_le(&[1, 2, 3], 3, 0), 0);
    assert_eq!(read_le(&[1, 2, 3], 1, 2), 0x0302);
}

#[test]
fn numbers_have_no_leading_zeros() {
    for value in [0u64, 9, 10, 99, 100, 65_535, u64::MAX] {
        let mut decimal = String::from("=");
        push_number(&mut decimal, value, 10);
        assert_eq!(decimal, format!("={value}"));
        let mut hexadecimal = String::new();
        push_number(&mut hexadecimal, value, 16);
        assert_eq!(hexadecimal, format!("{value:x}"));
    }
}

#[test]
fn characters_are_found() {
    assert!(contains_char("a:b", ':'));
    assert!(!contains_char("ab", ':'));
    assert!(!contains_char("", ':'));
    assert!(starts_with_char("[a", '['));
    assert!(!starts_with_char("a[", '['));
    assert!(!starts_with_char("", '['));
}

#[test]
fn white_space_is_that_of_unicode() {
    for code in 0..=0x10_ffffu32 {
        if let Some(c) = char::from_u32(code) {
            assert_eq!(is_white_space(c), c.is_whitespace(), "{code:x}");
        }
    }
}

#[test]
fn blank_text_is_empty_when_trimmed() {
    for text in ["", " ", "\t\n", " a ", "a", "\u{3000}\u{85}", "\u{200b}"] {
        assert_eq!(is_blank(text), text.trim().is_empty(), "{text:?}");
    }
}
