use catch::json::json_string_of;
use catch::kv_store::{KeyValueStore, KvReply};
use catch::view::pretty_print_value;
use catch::text::{decimal_string, first_line, replace, starts_with, trim, trim_end};

#[test]
fn trim_matches_std() {
    for s in ["", "  a b  ", "\t\nx\r\n", "\u{a0}y\u{3000}", "   ", "z"] {
        assert_eq!(trim(s), s.trim());
        assert_eq!(trim_end(s), s.trim_end());
    }
}

#[test]
fn replace_matches_std() {
    for (s, p, r) in [("a//b//c", "//", ""), ("////", "//", "x"), ("abc", "d", "e"), ("a\nb", "\n", "\n# "), ("'x'", "'", "\\'")] {
        assert_eq!(replace(s, p, r), s.replace(p, r));
    }
}

#[test]
fn first_line_stops_at_line_feed() {
    assert_eq!(first_line("one\ntwo"), "one");
    assert_eq!(first_line("only"), "only");
    assert_eq!(first_line(""), "");
    assert_eq!(first_line("\nrest"), "");
}

#[test]
fn starts_with_and_decimal() {
    assert!(starts_with("x-forwarded-for", "x-forwarded"));
    assert!(!starts_with("x-forward", "x-forwarded"));
    assert_eq!(decimal_string(0), "0");
    assert_eq!(decimal_string(8111), "8111");
    assert_eq!(decimal_string(u64::MAX), u64::MAX.to_string());
}

#[test]
fn json_string_matches_serde_json() {
    for s in ["plain", "quote \" and \\ backslash", "line\nfeed\ttab\r", "\u{1}\u{8}\u{c}\u{1f}\u{7f}", "ünïcödé ✓"] {
        assert_eq!(json_string_of(s), serde_json::to_string(s).unwrap());
    }
}

#[test]
fn json_reformatting() {
    // Pretty printing goes through the JSON parser: values change form, other text stays.
    assert_eq!(pretty_print_value("{\"a\":1}"), "{\n  \"a\": 1\n}");
    assert_eq!(pretty_print_value("[1, 2]"), "[\n  1,\n  2\n]");
    assert_eq!(pretty_print_value(" 42 "), "42");
    assert_eq!(pretty_print_value("not json"), "not json");
    // Compact rendering answers reads of stored JSON documents.
    let mut store = KeyValueStore::new();
    store.insert("c", "doc", "{ \"b\" : [ 1 , 2 ] }");
    store.insert("c", "str", "\"s\"");
    assert!(matches!(store.get_reply("c", "doc"), KvReply::Json(t) if t == "{\"b\":[1,2]}"));
    assert!(matches!(store.get_reply("c", "str"), KvReply::Plain(t) if t == "\"s\""));
}
