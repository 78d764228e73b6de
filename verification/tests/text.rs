use chronos::decimal::{parse_unsigned, push_decimal};
use chronos::text::{
    chars_of, has_prefix, has_suffix, is_whitespace, join_words, same_text, split_on, split_words,
    string_of,
};

#[test]
fn chars_and_back() {
    let cs = chars_of("héllo");
    assert_eq!(cs, vec!['h', 'é', 'l', 'l', 'o']);
    assert_eq!(string_of(&cs), "héllo");
    assert!(same_text("abc", "abc"));
    assert!(!same_text("abc", "abd"));
    assert!(!same_text("abc", "ab"));
}

#[test]
fn whitespace_is_what_the_standard_library_says() {
    for n in 0u32..0x3100 {
        if let Some(c) = char::from_u32(n) {
            assert_eq!(is_whitespace(c), c.is_whitespace(), "code point {:x}", n);
        }
    }
}

#[test]
fn split_keeps_empty_fields() {
    assert_eq!(split_on("a:b:c", ':'), vec!["a", "b", "c"]);
    assert_eq!(split_on("", ':'), vec![""]);
    assert_eq!(split_on(":", ':'), vec!["", ""]);
    assert_eq!(split_on("a::b:", ':'), vec!["a", "", "b", ""]);
    assert_eq!(split_on("no colon", ':'), vec!["no colon"]);
    for s in ["a:b", "::", "x", "", "http://h:1:2"] {
        let mine = split_on(s, ':');
        let std: Vec<&str> = s.split(':').collect();
        assert_eq!(mine, std);
    }
}

#[test]
fn words_are_runs_without_whitespace() {
    assert_eq!(split_words("echo hello"), vec!["echo", "hello"]);
    assert_eq!(split_words("  a \t b\n\nc  "), vec!["a", "b", "c"]);
    assert!(split_words("").is_empty());
    assert!(split_words(" \t\n").is_empty());
    for s in ["one", " l", "t ", "a\u{a0}b\u{3000}c", "sh -c 'x  y'"] {
        let std: Vec<&str> = s.split_whitespace().collect();
        assert_eq!(split_words(s), std);
    }
}

#[test]
fn join_puts_single_spaces() {
    let v = |l: &[&str]| l.iter().map(|s| s.to_string()).collect::<Vec<String>>();
    assert_eq!(join_words(&v(&[])), "");
    assert_eq!(join_words(&v(&["a"])), "a");
    assert_eq!(join_words(&v(&["a", "b", "c"])), "a b c");
    assert_eq!(join_words(&v(&["", "b", ""])), " b ");
}

#[test]
fn words_of_joined_words() {
    let ws: Vec<String> = ["tar", "-x", "f.tgz"].iter().map(|s| s.to_string()).collect();
    assert_eq!(split_words(&join_words(&ws)), ws);
}

#[test]
fn prefix_and_suffix() {
    assert!(has_prefix("http://x", "http://"));
    assert!(!has_prefix("http:/", "http://"));
    assert!(has_prefix("abc", ""));
    assert!(has_suffix("a.conf", ".conf"));
    assert!(has_suffix(".conf", ".conf"));
    assert!(!has_suffix("conf", ".conf"));
    assert!(!has_suffix("a.conf.bak", ".conf"));
}

#[test]
fn decimal_with_padding() {
    let text = |n: u64, w: usize| {
        let mut v = vec!['>'];
        push_decimal(&mut v, n, w);
        v.into_iter().collect::<String>()
    };
    assert_eq!(text(0, 0), ">0");
    assert_eq!(text(0, 2), ">00");
    assert_eq!(text(7, 2), ">07");
    assert_eq!(text(42, 2), ">42");
    assert_eq!(text(123, 2), ">123");
    assert_eq!(text(2023, 4), ">2023");
    assert_eq!(text(u64::MAX, 3), format!(">{}", u64::MAX));
}

#[test]
fn unsigned_numbers() {
    assert_eq!(parse_unsigned("0", u32::MAX as u64), Some(0));
    assert_eq!(parse_unsigned("8080", u32::MAX as u64), Some(8080));
    assert_eq!(parse_unsigned("+12", u32::MAX as u64), Some(12));
    assert_eq!(parse_unsigned("0000000000000000000007", u32::MAX as u64), Some(7));
    assert_eq!(parse_unsigned("4294967295", u32::MAX as u64), Some(u32::MAX as u64));
    assert_eq!(parse_unsigned("4294967296", u32::MAX as u64), None);
    assert_eq!(parse_unsigned("99999999999999999999999999", u32::MAX as u64), None);
    assert_eq!(parse_unsigned("", u32::MAX as u64), None);
    assert_eq!(parse_unsigned("+", u32::MAX as u64), None);
    assert_eq!(parse_unsigned("-1", u32::MAX as u64), None);
    assert_eq!(parse_unsigned("12a", u32::MAX as u64), None);
    assert_eq!(parse_unsigned("1 ", u32::MAX as u64), None);
    assert_eq!(parse_unsigned("++1", u32::MAX as u64), None);
    assert_eq!(parse_unsigned("70", 65), None);
    for s in ["1", "+0", "65535", "65536", "x", "4294967295", "4294967296", "", "+", "１"] {
        assert_eq!(parse_unsigned(s, u32::MAX as u64), s.parse::<u32>().ok().map(u64::from), "{}", s);
    }
}
