use judge::submit::failure::failure_reason;
use judge::text::{chars_of, decimal, same_bytes, same_text, same_trimmed, text_of, trimmed_range};

#[test]
fn numbers_are_written_in_decimal() {
    assert_eq!(decimal(0), "0");
    assert_eq!(decimal(7), "7");
    assert_eq!(decimal(10), "10");
    assert_eq!(decimal(1204), "1204");
    assert_eq!(decimal(9_876_543_210), "9876543210");
    assert_eq!(decimal(usize::MAX), usize::MAX.to_string());
}

#[test]
fn bytes_are_compared_one_by_one() {
    assert!(same_bytes(b"", b""));
    assert!(same_bytes(b"abc", b"abc"));
    assert!(!same_bytes(b"abc", b"abd"));
    assert!(!same_bytes(b"abc", b"ab"));
    assert!(!same_bytes(b"", b"a"));
}

#[test]
fn texts_are_compared_as_they_are() {
    assert!(same_text("9", "9"));
    assert!(!same_text("9", "9 "));
    assert!(!same_text("e\u{301}", "\u{e9}"));
}

#[test]
fn trimmed_texts_are_compared_without_their_ends() {
    assert!(same_trimmed(" 9\n", "9"));
    assert!(same_trimmed("", " \t\r\n"));
    assert!(!same_trimmed("9 9", "99"));
    assert!(!same_trimmed("a", "b"));
}

#[test]
fn bytes_are_read_as_text_only_if_they_are_utf8() {
    assert_eq!(text_of(b"plain"), Some("plain"));
    assert_eq!(text_of(b""), Some(""));
    assert_eq!(text_of("\u{20ac}".as_bytes()), Some("\u{20ac}"));
    assert_eq!(text_of(&[0xe2, 0x82]), None);
    assert_eq!(text_of(&[0xed, 0xa0, 0x80]), None);
    assert_eq!(text_of(&[0xc0, 0xaf]), None);
}

#[test]
fn failure_reason_numbers_the_causes() {
    assert_eq!(failure_reason(&[]), "");
    assert_eq!(
        failure_reason(&["failed to judge submission".to_string(), "failed to run test".to_string(), "No such file".to_string()]),
        "0: failed to judge submission\n1: failed to run test\n2: No such file\n"
    );
    let many: Vec<String> = (0..12).map(|i| format!("cause {}", i)).collect();
    assert!(failure_reason(&many).ends_with("10: cause 10\n11: cause 11\n"));
}

#[test]
fn characters_are_listed_in_order() {
    assert_eq!(chars_of(""), Vec::<char>::new());
    assert_eq!(chars_of("a\u{e9}\u{20ac}\u{1f600}"), vec!['a', '\u{e9}', '\u{20ac}', '\u{1f600}']);
}

#[test]
fn trimmed_range_leaves_out_the_whitespace_at_the_ends() {
    let range = |text: &str| trimmed_range(&chars_of(text));
    assert_eq!(range(""), (0, 0));
    assert_eq!(range("abc"), (0, 3));
    assert_eq!(range("  a b\t\n"), (2, 5));
    assert_eq!(range(" \n\t "), (4, 4));
    assert_eq!(range("\u{a0}x\u{3000}"), (1, 2));
    assert_eq!(range("\u{200b}x"), (0, 2));
}

#[test]
fn trimming_goes_by_the_same_whitespace_as_the_standard_library() {
    for text in ["", " ", "a", " a ", "\r\n a b \u{85}", "\u{2028}\u{2029}q\u{205f}", "\u{feff}a", "\u{180e}a "] {
        let chars = chars_of(text);
        let (low, high) = trimmed_range(&chars);
        let trimmed: String = chars[low..high].iter().collect();
        assert_eq!(trimmed, text.trim());
        assert!(same_trimmed(text, text.trim()));
    }
}

#[test]
fn whitespace_is_the_same_as_the_standard_librarys_for_every_character() {
    let listed = |code: u32| {
        matches!(
            code,
            0x0009..=0x000d
                | 0x0020
                | 0x0085
                | 0x00a0
                | 0x1680
                | 0x2000..=0x200a
                | 0x2028
                | 0x2029
                | 0x202f
                | 0x205f
                | 0x3000
        )
    };
    let mut found = 0;
    for code in 0..=0x10ffffu32 {
        if let Some(c) = char::from_u32(code) {
            assert_eq!(c.is_whitespace(), listed(code));
            let range = trimmed_range(&[c]);
            assert_eq!(range, if listed(code) { (1, 1) } else { (0, 1) });
            if listed(code) {
                found += 1;
            }
        }
    }
    assert_eq!(found, 25);
}
