use node_debug::text::{
    decimal_chars, from_chars, join_chars, lines, padded_chars, parse_u32, push_all, push_text,
    same_text, split, starts_with, sub_chars, to_chars,
};

fn chars(text: &str) -> Vec<char> {
    text.chars().collect()
}

fn strings(parts: &[Vec<char>]) -> Vec<String> {
    parts.iter().map(|part| part.iter().collect()).collect()
}

#[test]
fn strings_and_characters_convert_both_ways() {
    assert_eq!(to_chars("h\u{e9}llo"), vec!['h', '\u{e9}', 'l', 'l', 'o']);
    assert_eq!(from_chars(&vec!['h', '\u{e9}', 'y']), "h\u{e9}y");
    assert_eq!(to_chars(""), Vec::<char>::new());
    assert_eq!(from_chars(&Vec::new()), "");
}

#[test]
fn texts_are_the_same_when_their_characters_are() {
    assert!(same_text("show", "show"));
    assert!(!same_text("show", "shown"));
    assert!(!same_text("s", "S"));
    assert!(same_text("", ""));
}

#[test]
fn part_of_a_text_is_copied_by_index() {
    assert_eq!(sub_chars(&chars("abcdef"), 2, 4), chars("cd"));
    assert_eq!(sub_chars(&chars("abcdef"), 0, 6), chars("abcdef"));
    assert_eq!(sub_chars(&chars("abcdef"), 3, 3), chars(""));
}

#[test]
fn prefix_is_told() {
    assert!(starts_with(&chars("e 1+2"), &chars("e ")));
    assert!(!starts_with(&chars("es 1"), &chars("e ")));
    assert!(!starts_with(&chars("e"), &chars("e ")));
    assert!(starts_with(&chars("abc"), &chars("")));
    assert!(starts_with(&chars("abc"), &chars("abc")));
}

#[test]
fn split_keeps_empty_pieces() {
    assert_eq!(strings(&split(&chars("a,b,,c"), ',')), vec!["a", "b", "", "c"]);
    assert_eq!(strings(&split(&chars(""), ',')), vec![""]);
    assert_eq!(strings(&split(&chars(","), ',')), vec!["", ""]);
    assert_eq!(strings(&split(&chars("abc"), ',')), vec!["abc"]);
    assert_eq!(strings(&split(&chars(";a;"), ';')), vec!["", "a", ""]);
}

#[test]
fn join_puts_the_separator_between_neighbours() {
    let parts = vec![chars("a"), chars(""), chars("bc")];
    assert_eq!(join_chars(&parts, &chars(", ")), chars("a, , bc"));
    assert_eq!(join_chars(&vec![chars("a")], &chars(", ")), chars("a"));
    assert_eq!(join_chars(&Vec::new(), &chars(", ")), chars(""));
    assert_eq!(join_chars(&split(&chars("x;y;;z"), ';'), &chars(";")), chars("x;y;;z"));
}

#[test]
fn lines_end_at_line_feeds() {
    assert_eq!(strings(&lines(&chars("a\nb\nc"))), vec!["a", "b", "c"]);
    assert_eq!(strings(&lines(&chars("a\nb\n"))), vec!["a", "b"]);
    assert_eq!(strings(&lines(&chars("a\n\nb"))), vec!["a", "", "b"]);
    assert_eq!(strings(&lines(&chars("\n"))), vec![""]);
    assert_eq!(strings(&lines(&chars("a\n\n"))), vec!["a", ""]);
    assert!(lines(&chars("")).is_empty());
    assert_eq!(strings(&lines(&chars("abc"))), vec!["abc"]);
}

#[test]
fn carriage_return_before_a_line_feed_is_dropped() {
    assert_eq!(strings(&lines(&chars("a\r\nb\r\n"))), vec!["a", "b"]);
    assert_eq!(strings(&lines(&chars("a\rb\nc\r"))), vec!["a\rb", "c\r"]);
    assert_eq!(strings(&lines(&chars("a\r\r\nb"))), vec!["a\r", "b"]);
    assert_eq!(strings(&lines(&chars("\r\n"))), vec![""]);
}

#[test]
fn lines_agree_with_the_standard_library() {
    for text in ["", "a", "a\n", "\n", "\n\n", "a\r\nb", "a\r", "\r", "x\n\ry\r\n\r\n", "one\ntwo\r\nthree\n"] {
        let expected: Vec<String> = text.lines().map(|line| line.to_string()).collect();
        assert_eq!(strings(&lines(&chars(text))), expected, "lines of {:?}", text);
    }
}

#[test]
fn characters_are_appended() {
    let mut text = chars("ab");
    push_all(&mut text, &chars("cd"));
    push_text(&mut text, "\u{e9}f");
    push_text(&mut text, "");
    assert_eq!(text, chars("abcd\u{e9}f"));
}

#[test]
fn numbers_are_written_in_decimal() {
    assert_eq!(decimal_chars(0), chars("0"));
    assert_eq!(decimal_chars(7), chars("7"));
    assert_eq!(decimal_chars(10), chars("10"));
    assert_eq!(decimal_chars(4096), chars("4096"));
    assert_eq!(decimal_chars(usize::MAX), chars(&usize::MAX.to_string()));
}

#[test]
fn numbers_are_padded_to_three_digits() {
    assert_eq!(padded_chars(0), chars("000"));
    assert_eq!(padded_chars(7), chars("007"));
    assert_eq!(padded_chars(42), chars("042"));
    assert_eq!(padded_chars(100), chars("100"));
    assert_eq!(padded_chars(12345), chars("12345"));
}

#[test]
fn numbers_are_read_from_decimal() {
    assert_eq!(parse_u32("0"), Some(0));
    assert_eq!(parse_u32("42"), Some(42));
    assert_eq!(parse_u32("+42"), Some(42));
    assert_eq!(parse_u32("007"), Some(7));
    assert_eq!(parse_u32("4294967295"), Some(4294967295));
    assert_eq!(parse_u32("4294967296"), None);
    assert_eq!(parse_u32("99999999999999999999999"), None);
    assert_eq!(parse_u32(""), None);
    assert_eq!(parse_u32("+"), None);
    assert_eq!(parse_u32("-1"), None);
    assert_eq!(parse_u32("++1"), None);
    assert_eq!(parse_u32(" 1"), None);
    assert_eq!(parse_u32("1 "), None);
    assert_eq!(parse_u32("12a"), None);
    assert_eq!(parse_u32("\u{663}"), None);
}

#[test]
fn reading_numbers_agrees_with_the_standard_library() {
    for text in ["0", "1", "+1", "-0", "+0", "00", "4294967295", "4294967296", "", "+", "1_000", "0x10", "١٢"] {
        assert_eq!(parse_u32(text), text.parse::<u32>().ok(), "number in {:?}", text);
    }
}
