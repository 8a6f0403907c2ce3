use keyboard_debouncer::text::{
    decimal, find, has_prefix, padded, parse_number, same_text, split, trim, trim_start,
};

#[test]
fn white_space_is_trimmed() {
    assert_eq!(trim("  a b\t\r\n"), "a b");
    assert_eq!(trim(" \t "), "");
    assert_eq!(trim("\u{2003}x\u{85}"), "x");
    assert_eq!(trim("\u{200b}x"), "\u{200b}x");
    assert_eq!(trim_start("  a "), "a ");
}

#[test]
fn trimming_agrees_with_the_standard_library() {
    for code in 0..0x11_0000u32 {
        if let Some(c) = char::from_u32(code) {
            if code < 0x3100 || c.is_whitespace() {
                let s = format!("{c}a{c}");
                assert_eq!(trim(&s), s.trim());
            }
        }
    }
}

#[test]
fn text_is_split_at_each_separator() {
    assert_eq!(split("a,b,,c", ','), vec!["a", "b", "", "c"]);
    assert_eq!(split("", ','), vec![""]);
    assert_eq!(split(",", ','), vec!["", ""]);
    assert_eq!(split("äö", ','), vec!["äö"]);
}

#[test]
fn text_is_searched_by_characters() {
    assert_eq!(find("äb=c=", '='), Some(2));
    assert_eq!(find("abc", '='), None);
    assert!(same_text("abc", "abc"));
    assert!(!same_text("abc", "abd"));
    assert!(has_prefix("event3", "event"));
    assert!(!has_prefix("even", "event"));
    assert!(has_prefix("x", ""));
}

#[test]
fn numbers_are_read() {
    for s in ["0", "7", "+7", "007", "30", "18446744073709551615", "000018446744073709551615"] {
        assert_eq!(parse_number(s), s.parse::<u64>().ok());
        assert!(parse_number(s).is_some());
    }
    for s in ["", "+", "++1", "-0", " 1", "1 ", "1_000", "0x1", "18446744073709551616", "٣"] {
        assert_eq!(parse_number(s), s.parse::<u64>().ok());
        assert!(parse_number(s).is_none());
    }
}

#[test]
fn numbers_are_written() {
    for n in [0, 9, 10, 99, 100, 12345, u64::MAX] {
        assert_eq!(decimal(n), n.to_string());
        assert_eq!(parse_number(&decimal(n)), Some(n));
    }
    assert_eq!(padded(7, 3), "007");
    assert_eq!(padded(1234, 3), "1234");
    assert_eq!(padded(0, 0), "0");
}
