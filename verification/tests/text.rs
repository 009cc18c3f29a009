use nova_wayland::text::{
    append_decimal, append_digits, chars_of, decimal_text, parse_i32, same_text, starts_with, trim,
};

#[test]
fn integers_are_written_in_decimal() {
    for n in [0, 7, 10, -1, -10, 1999, i64::MAX, i64::MIN] {
        assert_eq!(decimal_text(n), n.to_string());
    }
}

#[test]
fn numbers_are_written_behind_a_text() {
    let mut text = "a".to_string();
    append_digits(&mut text, 120);
    append_decimal(&mut text, -3);
    assert_eq!(text, "a120-3");
}

#[test]
fn integers_read_back() {
    for n in [0, 1, -1, 42, -2147483648, 2147483647] {
        assert_eq!(parse_i32(&decimal_text(n)), Some(n as i32));
    }
}

#[test]
fn integers_are_read_as_std_reads_them() {
    for text in [
        "", "-", "+", "+5", "-5", "--5", "+-5", " 5", "5 ", "5.0", "0005", "-0", "2147483648",
        "-2147483649", "+2147483648", "99999999999999999999", "0x10", "é", "１", "12a",
    ] {
        assert_eq!(parse_i32(text), text.parse::<i32>().ok(), "{text}");
    }
}

#[test]
fn whitespace_is_trimmed_as_std_trims_it() {
    for text in [
        "", " ", "a", " a ", "\t\na b\r\n", "\u{85}x\u{a0}", "\u{1680}\u{2003}x\u{3000}",
        "\u{200b}x", "\u{2028}x\u{2029}", "\u{202f}x\u{205f}", "\u{b}\u{c}x",
    ] {
        assert_eq!(trim(text), text.trim(), "{text:?}");
    }
}

#[test]
fn whitespace_is_what_std_takes_for_it() {
    for n in 0..0x11_0000u32 {
        if let Some(c) = char::from_u32(n) {
            if c.is_whitespace() {
                assert_eq!(trim(&c.to_string()), "", "{n:x}");
            }
        }
    }
}

#[test]
fn texts_are_compared() {
    assert!(same_text("é", "é"));
    assert!(same_text("", ""));
    assert!(!same_text("a", "b"));
    assert!(!same_text("a", "ab"));
    assert!(starts_with("abc", "ab"));
    assert!(starts_with("abc", ""));
    assert!(!starts_with("ab", "abc"));
    assert!(!starts_with("xbc", "ab"));
}

#[test]
fn characters_are_taken_apart() {
    assert_eq!(chars_of("aé€"), vec!['a', 'é', '€']);
}
