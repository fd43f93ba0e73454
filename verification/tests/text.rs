use resync::clock::{now_millis, now_text, Timestamp};
use resync::digest::digest_text;
use resync::history::keep_newest;
use resync::json::Json;
use resync::paths::{
    file_name, has_extension, join_path, key_of, parent_of, same_path, starts_with_path,
};
use resync::random::poll_delay;
use resync::text::{
    ascii_lowercase, contains_text, decimal_text, head_text, join_text, lines_of, parse_number,
    replace_text, signed_text, split_text, strip_prefix_text, tail_text, text_before, trimmed,
};
use resync::text_map::{keys_of, names_of, TextMap};

#[test]
fn texts_are_taken_apart() {
    assert_eq!(trimmed(" \u{2003}a b\n"), "a b");
    assert_eq!(split_text("a//b", '/'), vec!["a", "", "b"]);
    assert_eq!(join_text(&vec!["a".to_owned(), "b".to_owned()], ", "), "a, b");
    assert_eq!(lines_of("a\r\nb\n\nc"), vec!["a", "b", "", "c"]);
    assert_eq!(lines_of(""), Vec::<String>::new());
    assert_eq!(strip_prefix_text("abc", "ab").as_deref(), Some("c"));
    assert_eq!(strip_prefix_text("abc", "b"), None);
    assert_eq!(head_text("h\u{e9}llo", 2), "h\u{e9}");
    assert_eq!(tail_text("hello", 2), "lo");
    assert_eq!(replace_text("aXbX", "X", "yy"), "ayybyy");
    assert!(contains_text("hello", "ll"));
    assert!(!contains_text("hello", "lo!"));
    assert_eq!(ascii_lowercase("A\u{c9}z"), "a\u{c9}z");
    assert!(text_before("a", "ab"));
    assert!(!text_before("b", "ab"));
}

#[test]
fn numbers_are_written_and_read() {
    assert_eq!(decimal_text(0), "0");
    assert_eq!(decimal_text(18446744073709551615), "18446744073709551615");
    assert_eq!(signed_text(-9223372036854775808), "-9223372036854775808");
    assert_eq!(parse_number("18446744073709551615"), Some(u64::MAX));
    assert_eq!(parse_number("18446744073709551616"), None);
    assert_eq!(parse_number(""), None);
    assert_eq!(parse_number("1a"), None);
}

#[test]
fn paths_are_compared_by_component() {
    assert_eq!(join_path("/a", "b"), "/a/b");
    assert_eq!(join_path("/a/", "b"), "/a/b");
    assert_eq!(join_path("/a", "/b"), "/b");
    assert!(same_path("/a//b/./c/", "/a/b/c"));
    assert!(!same_path("/a/b", "a/b"));
    assert_eq!(key_of("/a//b/"), "/a/b");
    assert_eq!(file_name("/a/b.json").as_deref(), Some("b.json"));
    assert_eq!(file_name("/a/.."), None);
    assert_eq!(parent_of("/a/b").as_deref(), Some("/a"));
    assert_eq!(parent_of("/"), None);
    assert!(has_extension("/a/b.json", "json"));
    assert!(!has_extension("/a/.json", "json"));
    assert!(starts_with_path("/a/b/c", "/a/b"));
    assert!(!starts_with_path("/a/bc", "/a/b"));
}

#[test]
fn maps_keep_one_value_per_key() {
    let mut map = TextMap::new();
    map.insert("b".to_owned(), "1".to_owned());
    map.insert("a".to_owned(), "2".to_owned());
    map.insert("b".to_owned(), "3".to_owned());
    assert_eq!(map.len(), 2);
    assert_eq!(map.get("b").map(|s| s.as_str()), Some("3"));
    assert_eq!(names_of(&map), vec!["a", "b"]);
    assert_eq!(keys_of(&map), vec!["a", "b"]);
    assert_eq!(map.remove("b").as_deref(), Some("3"));
    assert_eq!(map.remove("b"), None);
    assert!(!map.has("b"));
}

#[test]
fn documents_are_read() {
    let document = Json::Object(vec![
        ("n".to_owned(), Json::Number("42".to_owned())),
        ("t".to_owned(), Json::Text("x".to_owned())),
        ("f".to_owned(), Json::Number("1.5".to_owned())),
    ]);
    assert_eq!(document.number_at("n"), Some(42));
    assert_eq!(document.text_at("t"), Some("x"));
    assert_eq!(document.number_at("f"), None);
    assert_eq!(document.text_at("n"), None);
    assert!(document.get("missing").is_none());
}

#[test]
fn times_are_ordered() {
    let early = Timestamp { seconds: 1, nanos: 5 };
    let late = Timestamp { seconds: 1, nanos: 6 };
    assert!(early.not_after(&late));
    assert!(early.not_after(&early));
    assert!(!late.not_after(&early));
    assert_eq!(early.plus(2).unwrap().seconds, 3);
    assert!(Timestamp { seconds: i64::MAX, nanos: 0 }.plus(1).is_none());
    assert_eq!(Timestamp { seconds: 2, nanos: 3_000_000 }.millis(), 2003);
    assert!(now_millis() > 1_600_000_000_000);
    assert!(now_text().starts_with("20"));
    let wait = poll_delay(10_000);
    assert!((10_000..11_000).contains(&wait));
}

#[test]
fn digests_are_hexadecimal() {
    assert_eq!(
        digest_text("abc"),
        "ba7816bf8f01cfea414140de5dae2223b00361a396177a9cb410ff61f20015ad"
    );
}

#[test]
fn the_newest_records_are_kept() {
    let ages: Vec<String> = (0..130).map(|n| format!("2026-01-01T00:{:02}:{:02}Z", n / 60, n % 60)).collect();
    let sizes = vec![10u64; 130];
    let eligible = vec![true; 130];
    let kept = keep_newest(&ages, &sizes, &eligible, 0);
    assert_eq!(kept.iter().filter(|flag| **flag).count(), 128);
    assert!(!kept[0]);
    assert!(!kept[1]);
    assert!(kept[2]);
    assert!(kept[129]);
}

#[test]
fn unique_names_are_hyphenated_and_differ() {
    let one = resync::random::unique_name();
    let other = resync::random::unique_name();
    assert_ne!(one, other);
    assert_eq!(one.len(), 36);
    assert_eq!(one.split('-').map(str::len).collect::<Vec<_>>(), vec![8, 4, 4, 4, 12]);
    assert!(one.chars().all(|c| c == '-' || c.is_ascii_hexdigit() && !c.is_ascii_uppercase()));
}
