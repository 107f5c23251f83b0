use gigaam::text::{
    decimal_text, is_white_space, parse_number, replace_char, same_text, split_lines, trim,
    trims_to_nothing,
};

#[test]
fn white_space_is_that_of_unicode() {
    for u in 0u32..=0x10ffff {
        if let Some(c) = char::from_u32(u) {
            assert_eq!(is_white_space(c), c.is_whitespace(), "U+{:04X}", u);
        }
    }
}

#[test]
fn trimming_takes_white_space_off_both_ends() {
    for s in ["", " ", "a", " a ", "\t\u{a0}при вет\u{3000}\n", "a b", "\u{200b}x\u{200b}"] {
        assert_eq!(trim(s), s.trim());
    }
    assert_eq!(trim(" да "), "да");
}

#[test]
fn trimming_twice_is_trimming_once() {
    let once = trim("  раз два  ");
    assert_eq!(trim(&once), once);
}

#[test]
fn blank_texts_trim_to_nothing() {
    assert!(trims_to_nothing(""));
    assert!(trims_to_nothing(" \t\n"));
    assert!(!trims_to_nothing(" x "));
}

#[test]
fn lines_end_with_line_feed_or_both() {
    for s in ["", "\n", "a", "a\n", "a\r\nb", "a\n\nb\r", "\r\n\r\n", "a\rb\nc\r"] {
        let expected: Vec<&str> = s.lines().collect();
        assert_eq!(split_lines(s), expected, "{:?}", s);
    }
    assert_eq!(split_lines("а 0\r\nб 1"), vec!["а 0", "б 1"]);
}

#[test]
fn numbers_are_read_in_decimal() {
    let max = usize::MAX.to_string();
    let over = format!("{}0", max);
    for s in [
        "", "+", "-", "0", "7", "+7", "-7", "++7", "007", "12a", " 1", "1024", "٣", &max, &over,
    ] {
        assert_eq!(parse_number(s), s.parse::<usize>().ok(), "{:?}", s);
    }
    assert_eq!(parse_number("1024"), Some(1024));
}

#[test]
fn one_more_than_the_greatest_number_is_refused() {
    let max = usize::MAX.to_string();
    assert_eq!(parse_number(&max), Some(usize::MAX));
    let mut digits: Vec<u8> = max.into_bytes();
    let last = digits.len() - 1;
    digits[last] += 1;
    let over = String::from_utf8(digits).unwrap();
    assert_eq!(parse_number(&over), None);
}

#[test]
fn digits_of_a_number_denote_it() {
    for n in [0usize, 9, 10, 320, 1_000_000, usize::MAX] {
        assert_eq!(decimal_text(n), n.to_string());
        assert_eq!(parse_number(&decimal_text(n)), Some(n));
    }
}

#[test]
fn characters_are_replaced() {
    assert_eq!(replace_char("▁да▁нет", '\u{2581}', " "), " да нет");
    assert_eq!(replace_char("", 'x', " "), "");
}

#[test]
fn texts_are_compared_by_their_characters() {
    assert!(same_text("да", "да"));
    assert!(!same_text("да", "нет"));
}
