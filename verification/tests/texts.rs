use persistent_workspaces::number;
use persistent_workspaces::paths::{absolute, join, quote};
use persistent_workspaces::text;

#[test]
fn texts_are_searched_and_cut() {
    assert!(text::contains("a STALE b", "STALE") && !text::contains("a", "STALE"));
    assert!(text::contains("", "") && text::starts_with("abc", "ab"));
    assert_eq!(text::strip_prefix("ew-x", "ew-").as_deref(), Some("x"));
    assert_eq!(text::strip_prefix("x", "ew-"), None);
    for sample in [" a b\t\n", "\u{2003}x\u{a0}", "", "   ", "a\u{200b}"] {
        assert_eq!(text::trim(sample), sample.trim());
    }
    assert_eq!(text::trim_line_end("a \r\n\n"), "a ");
    assert_eq!(text::split("a||b|", '|'), ["a", "", "b", ""]);
    assert_eq!(text::split("", '|'), [""]);
    for sample in ["a  b\u{3000}c\n", " ", "x"] {
        let expected: Vec<&str> = sample.split_whitespace().collect();
        assert_eq!(text::words(sample), expected);
    }
    for sample in ["a\r\nb\n\nc\r", "", "\n", "x", "x\n", "\r\n"] {
        let expected: Vec<&str> = sample.lines().collect();
        assert_eq!(text::lines(sample), expected, "{sample:?}");
    }
    for (sample, from) in [("aaaa", "aa"), ("xabyab", "ab"), ("none", "ab"), ("aab", "ab")] {
        assert_eq!(text::replace(sample, from, "<>"), sample.replace(from, "<>"));
    }
    assert_eq!(text::replace_char("a#b##", '#', "##"), "a##b####");
    let list = vec!["a".to_owned(), "b".to_owned()];
    assert_eq!(text::join(&list, ", "), "a, b");
    assert_eq!(text::join(&[], ", "), "");
    for (a, b) in [("a", "b"), ("a", "aa"), ("é", "z"), ("x", "x"), ("", "a")] {
        assert_eq!(text::before(a, b), a < b);
        assert_eq!(text::before(b, a), b < a);
    }
}

#[test]
fn numbers_are_written_and_read() {
    for n in [0, 7, 10, 909, u64::MAX] {
        assert_eq!(number::decimal(n), n.to_string());
        assert_eq!(number::hex(n, 16), format!("{n:016x}"));
        assert_eq!(number::parse(&n.to_string(), u64::MAX), Some(n));
    }
    for n in [0, -1, i32::MIN, i32::MAX] {
        assert_eq!(number::parse_signed(&n.to_string()), Some(n));
    }
    for sample in ["", "+", "-", "-5", "+5", "007", " 5", "5x", "18446744073709551616"] {
        assert_eq!(number::parse(sample, u64::MAX), sample.parse::<u64>().ok(), "{sample}");
    }
    for sample in ["", "+", "-", "--5", "+5", "-0", "2147483648", "-2147483648", "-2147483649"] {
        assert_eq!(number::parse_signed(sample), sample.parse::<i32>().ok(), "{sample}");
    }
    assert_eq!(number::parse("300", 255), None);
    assert_eq!(number::hex_bytes(&[0, 15, 255], " "), "00 0f ff");
}

#[test]
fn paths_are_joined_and_quoted() {
    assert!(absolute("/a") && !absolute("a") && !absolute(""));
    assert_eq!(join("/a", "b"), "/a/b");
    assert_eq!(join("/a/", "b"), "/a/b");
    assert_eq!(join("", "b"), "b");
    assert_eq!(join("/a", "/b"), "/b");
    assert_eq!(quote("it's $HOME; `x`"), "'it'\\''s $HOME; `x`'");
    assert_eq!(quote(""), "''");
}
