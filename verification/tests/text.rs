use pseudocode::text::{
    chars_of, count_text, digit, integer_text, less_text, letter, line_break, name_part,
    name_start, read_isize, read_usize, trim_line_end, whitespace,
};

fn chars(text: &str) -> Vec<char> {
    text.chars().collect()
}

#[test]
fn numerals_of_integers() {
    assert_eq!(integer_text(0), "0");
    assert_eq!(integer_text(7), "7");
    assert_eq!(integer_text(10), "10");
    assert_eq!(integer_text(-1), "-1");
    assert_eq!(integer_text(1234567890), "1234567890");
    assert_eq!(integer_text(isize::MAX), isize::MAX.to_string());
    assert_eq!(integer_text(isize::MIN), isize::MIN.to_string());
    assert_eq!(count_text(0), "0");
    assert_eq!(count_text(usize::MAX), usize::MAX.to_string());
}

#[test]
fn integers_of_numerals() {
    assert_eq!(read_isize(&chars("0")), Some(0));
    assert_eq!(read_isize(&chars("42")), Some(42));
    assert_eq!(read_isize(&chars("-42")), Some(-42));
    assert_eq!(read_isize(&chars("+42")), Some(42));
    assert_eq!(read_isize(&chars("007")), Some(7));
    assert_eq!(read_isize(&chars("-0")), Some(0));
    assert_eq!(read_isize(&chars(&isize::MAX.to_string())), Some(isize::MAX));
    assert_eq!(read_isize(&chars(&isize::MIN.to_string())), Some(isize::MIN));
}

#[test]
fn texts_that_are_no_numerals() {
    for text in ["", "-", "+", "1.5", " 1", "1 ", "one", "--1", "1-", "0x10", "١"] {
        assert_eq!(read_isize(&chars(text)), None, "{:?}", text);
        assert_eq!(text.parse::<isize>().ok(), None, "{:?}", text);
    }
}

#[test]
fn numerals_that_do_not_fit() {
    let above = format!("{}", isize::MAX as i128 + 1);
    let below = format!("{}", isize::MIN as i128 - 1);
    assert_eq!(read_isize(&chars(&above)), None);
    assert_eq!(read_isize(&chars(&below)), None);
    assert_eq!(read_isize(&chars("99999999999999999999999999999999999999999999")), None);
    let above = format!("{}", usize::MAX as u128 + 1);
    assert_eq!(read_usize(&chars(&above)), None);
    assert_eq!(read_usize(&chars("99999999999999999999999999999999999999999999")), None);
}

#[test]
fn counts_of_numerals() {
    assert_eq!(read_usize(&chars("0")), Some(0));
    assert_eq!(read_usize(&chars("15")), Some(15));
    assert_eq!(read_usize(&chars(&usize::MAX.to_string())), Some(usize::MAX));
    assert_eq!(read_usize(&chars("-1")), None);
    assert_eq!(read_usize(&chars("+1")), None);
    assert_eq!(read_usize(&chars("")), None);
}

#[test]
fn the_order_of_strings() {
    assert!(less_text("a", "b"));
    assert!(!less_text("b", "a"));
    assert!(!less_text("a", "a"));
    assert!(less_text("", "a"));
    assert!(!less_text("", ""));
    assert!(less_text("ab", "abc"));
    assert!(!less_text("abc", "ab"));
    assert!(less_text("Z", "a"));
    assert!(less_text("a", "\u{e9}"));
    for (a, b) in [("apple", "apply"), ("10", "9"), ("\u{1F600}", "\u{FFFF}"), ("x", "")] {
        assert_eq!(less_text(a, b), a < b, "{:?} {:?}", a, b);
    }
}

#[test]
fn the_end_of_a_line() {
    assert_eq!(trim_line_end("line\n"), "line");
    assert_eq!(trim_line_end("line\r\n"), "line");
    assert_eq!(trim_line_end("line"), "line");
    assert_eq!(trim_line_end("  line  \n"), "  line  ");
    assert_eq!(trim_line_end("two\nlines\n\n"), "two\nlines");
    assert_eq!(trim_line_end("\n"), "");
    assert_eq!(trim_line_end(""), "");
}

#[test]
fn characters_of_a_string() {
    assert_eq!(chars_of("a\u{e9}\u{1F600}"), vec!['a', '\u{e9}', '\u{1F600}']);
    assert_eq!(chars_of(""), Vec::<char>::new());
}

#[test]
fn classes_of_characters() {
    for c in ['\0', '\t', '\n', ' ', '0', '9', 'a', 'Z', '_', '/', '\u{a0}', '\u{2028}', '\u{e9}'] {
        assert_eq!(digit(c), c.is_ascii_digit(), "{:?}", c);
        assert_eq!(letter(c), c.is_ascii_alphabetic(), "{:?}", c);
        assert_eq!(name_start(c), c.is_ascii_alphabetic() || c == '_', "{:?}", c);
        assert_eq!(name_part(c), c.is_ascii_alphanumeric() || c == '_', "{:?}", c);
    }
    for code in 0..0x3100u32 {
        if let Some(c) = char::from_u32(code) {
            assert_eq!(whitespace(c), c.is_whitespace(), "{:?}", c);
        }
    }
    assert!(line_break('\n'));
    assert!(line_break('\r'));
    assert!(line_break('\u{b}'));
    assert!(line_break('\u{c}'));
    assert!(line_break('\u{85}'));
    assert!(line_break('\u{2028}'));
    assert!(line_break('\u{2029}'));
    assert!(!line_break(' '));
    assert!(!line_break('\t'));
}
