use unix_socket_switcher::span::Span;
use unix_socket_switcher::text::{
    characters, contains, copy_texts, is_blank, is_white_space, log_line, parse_u64,
    DEFAULT_LOG_FILTER,
};

#[test]
fn white_space_agrees_with_the_standard_library_on_every_character() {
    let mut code: u32 = 0;
    while code <= 0x10ffff {
        if let Some(c) = char::from_u32(code) {
            assert_eq!(is_white_space(c), c.is_whitespace(), "U+{:04X}", code);
        }
        code += 1;
    }
}

#[test]
fn blank_text_is_what_trims_to_nothing() {
    for text in [
        "", " ", "\n", "\t\r\n ", "\u{3000}", "\u{200b}", "1", " 1 ", "\u{85}", "x\n", "\u{a0}\u{2029}",
    ] {
        assert_eq!(is_blank(text), text.trim().is_empty(), "{:?}", text);
    }
}

#[test]
fn numbers_are_read_like_the_standard_library_reads_them() {
    for text in [
        "",
        "+",
        "-",
        "0",
        "+0",
        "-0",
        "-1",
        "1",
        "+7",
        "++7",
        "+-7",
        "007",
        " 7",
        "7 ",
        "7_000",
        "1e3",
        "0x10",
        "\u{663}",
        "18446744073709551615",
        "+18446744073709551615",
        "18446744073709551616",
        "18446744073709551625",
        "00000000000000000000000000000018446744073709551615",
        "99999999999999999999999999",
        "184467440737095516150",
        "12a",
    ] {
        assert_eq!(parse_u64(text), text.parse::<u64>().ok(), "{:?}", text);
    }
    assert_eq!(parse_u64("18446744073709551615"), Some(18446744073709551615));
    assert_eq!(parse_u64("18446744073709551616"), None);
    assert_eq!(parse_u64("+42"), Some(42));
}

#[test]
fn substrings_are_found_wherever_they_stand() {
    for (text, needle) in [
        ("", ""),
        ("abc", ""),
        ("", "a"),
        ("abc", "abc"),
        ("abc", "abcd"),
        ("abc", "bc"),
        ("aab", "ab"),
        ("ababac", "abac"),
        ("abc", "ac"),
        ("unable to lock pid file, errno 11", "unable to lock pid file"),
        ("unable to open pid file, errno 2", "unable to lock pid file"),
        ("gr\u{fc}n", "\u{fc}n"),
    ] {
        assert_eq!(contains(text, needle), text.contains(needle), "{:?} {:?}", text, needle);
    }
}

#[test]
fn a_log_line_names_the_program_and_the_level() {
    assert_eq!(log_line("switcher", "INFO", "PID is: 7"), "switcher: INFO: PID is: 7\n");
    assert_eq!(log_line("", "WARN", ""), ": WARN: \n");
    assert_eq!(DEFAULT_LOG_FILTER, "info");
}

#[test]
fn a_copy_of_texts_holds_the_same_texts() {
    let texts = vec!["/a*".to_string(), String::new(), "/b".to_string()];
    assert_eq!(copy_texts(&texts), texts);
    assert_eq!(copy_texts(&[]), Vec::<String>::new());
}

#[test]
fn characters_come_in_order() {
    assert_eq!(characters("a\u{fc}\u{1f600}"), vec!['a', '\u{fc}', '\u{1f600}']);
    assert_eq!(characters(""), Vec::<char>::new());
}

#[test]
fn spans_convert_between_units() {
    let span = Span::from_millis(61_234);
    assert_eq!(span.secs(), 61);
    assert_eq!(span.subsec_nanos(), 234_000_000);
    assert_eq!(Span::from_secs(61), Span::from_millis(61_000));
    assert_eq!(Span::new(61, 234_000_000), span);
    let longest = Span::from_millis(u64::MAX);
    assert_eq!(longest.secs(), u64::MAX / 1000);
    assert_eq!(longest.subsec_nanos(), 615_000_000);
    assert!(Span::from_secs(0).is_zero());
    assert!(!Span::new(0, 1).is_zero());
    assert!(!Span::new(1, 0).is_zero());
}

#[test]
fn spans_subtract_across_seconds() {
    assert_eq!(Span::from_secs(1).minus(Span::from_millis(1)), Span::from_millis(999));
    assert_eq!(Span::from_millis(5).minus(Span::from_millis(5)), Span::from_secs(0));
    assert_eq!(
        Span::new(3, 200).minus(Span::new(1, 300)),
        Span::new(1, 999_999_900)
    );
    assert_eq!(Span::new(3, 300).minus(Span::new(1, 200)), Span::new(2, 100));
}
