use symposium::collections::{StringMap, StringSet};
use symposium::error::Error;
use symposium::text::{
    contains, decimal_string, ends_with, eq_ignore_ascii_case, is_whitespace, join, less_than,
    lines, parse_u64, replace, slice, split_char, split_whitespace, starts_with, str_eq,
    strip_prefix, strip_suffix, to_ascii_uppercase, to_chars, trim, trim_char, trim_end_char,
    truncate, utf8_len,
};

const SAMPLES: [&str; 10] = [
    "", " ", "a", " a b ", "\u{a0}x\u{2003}", "one\ntwo\r\nthree\n", "a--b-", "ümläut", "\u{85}q\u{2028}",
    "x\r\r\n",
];

#[test]
fn white_space_is_that_of_std() {
    for code in 0..=0x10ffffu32 {
        if let Some(c) = char::from_u32(code) {
            assert_eq!(is_whitespace(c), c.is_whitespace(), "{code:x}");
        }
    }
}

#[test]
fn texts_are_cut_as_by_std() {
    for s in SAMPLES {
        assert_eq!(trim(s), s.trim());
        assert_eq!(split_whitespace(s), s.split_whitespace().collect::<Vec<_>>());
        assert_eq!(lines(s), s.lines().collect::<Vec<_>>());
        assert_eq!(split_char(s, '-'), s.split('-').collect::<Vec<_>>());
        assert_eq!(trim_char(s, '-'), s.trim_matches('-'));
        assert_eq!(trim_end_char(s, '-'), s.trim_end_matches('-'));
        assert_eq!(utf8_len(s), s.len() as u128);
        assert_eq!(to_ascii_uppercase(s), s.to_ascii_uppercase());
        assert_eq!(to_chars(s), s.chars().collect::<Vec<_>>());
        assert_eq!(replace(s, "-", "+-"), s.replace("-", "+-"));
        for t in SAMPLES {
            assert_eq!(contains(s, t), s.contains(t));
            assert_eq!(starts_with(s, t), s.starts_with(t));
            assert_eq!(ends_with(s, t), s.ends_with(t));
            assert_eq!(strip_prefix(s, t).as_deref(), s.strip_prefix(t));
            assert_eq!(strip_suffix(s, t).as_deref(), s.strip_suffix(t));
            assert_eq!(str_eq(s, t), s == t);
            assert_eq!(less_than(s, t), s < t);
            assert_eq!(eq_ignore_ascii_case(s, t), s.eq_ignore_ascii_case(t));
        }
    }
}

#[test]
fn numbers_are_written_and_read() {
    for n in [0, 7, 10, 42, 999, 1_000_000, u64::MAX] {
        assert_eq!(decimal_string(n), n.to_string());
    }
    for s in ["", "0", "7", "+7", "-7", "007", "18446744073709551615", "18446744073709551616", "1a", "+", " 1"] {
        assert_eq!(parse_u64(s), s.parse::<u64>().ok(), "{s}");
    }
}

#[test]
fn texts_are_joined_and_truncated() {
    assert_eq!(join(&vec!["a".to_string(), "b".to_string()], ", "), "a, b");
    assert_eq!(join(&vec![], ", "), "");
    assert_eq!(truncate("üüü", 2), "üü");
    assert_eq!(truncate("ab", 5), "ab");
    assert_eq!(slice(&to_chars("abc"), 1, 3), "bc");
}

#[test]
fn maps_keep_their_order() {
    let mut map: StringMap<u32> = StringMap::new();
    map.insert("b".to_string(), 1);
    map.insert("a".to_string(), 2);
    map.insert("b".to_string(), 3);
    assert_eq!(map.len(), 2);
    assert_eq!(map.get("b"), Some(&3));
    assert_eq!(map.entries[0].0, "b");
    assert_eq!(map.remove("b"), Some(3));
    assert_eq!(map.remove("b"), None);
    assert!(!map.contains_key("b"));
    let mut set = StringSet::new();
    assert!(set.insert("x".to_string()));
    assert!(!set.insert("x".to_string()));
    assert_eq!(set.len(), 1);
    assert!(set.contains("x"));
}

#[test]
fn errors_say_where_they_come_from() {
    let shown: Vec<String> = vec![
        Error::Config("x".into()),
        Error::ConfigParse("x".into()),
        Error::Workflow("x".into()),
        Error::Tracker("x".into()),
        Error::Mcp("x".into()),
        Error::Workspace("x".into()),
        Error::Agent("x".into()),
        Error::AgentProtocol("x".into()),
        Error::Prompt("x".into()),
        Error::Hook("x".into()),
        Error::Orchestrator("x".into()),
        Error::Server("x".into()),
        Error::Io("x".into()),
        Error::Json("x".into()),
        Error::Yaml("x".into()),
    ]
    .iter()
    .map(|e| e.message())
    .collect();
    assert!(shown.iter().all(|m| m.ends_with('x')));
    assert_eq!(shown[2], "workflow file error: x");
}
