use temper_server::digest::{content_digest_of, hex_of, sha256_hex};
use temper_server::json::{Json, JsonNumber};
use temper_server::ordered::{is_text_before, sorted_keys, OrdMap, OrdSet};
use temper_server::text::{
    after_first_match, after_last_char, before_first_char, decimal_of, ends_with,
    is_ascii_alphanumeric, is_control, is_white_space, parse_signed_of, parse_unsigned_of,
    replace_all, signed_decimal_of, split_char, strip_prefix, to_lowercase, to_uppercase, trim,
};
use temper_server::time::{elapsed_nanos_of, Duration, Timestamp};

#[test]
fn characters_are_classed_as_by_the_standard_library() {
    for n in 0..=0x10ffffu32 {
        if let Some(c) = char::from_u32(n) {
            assert_eq!(is_white_space(c), c.is_whitespace(), "{n:x}");
            assert_eq!(is_control(c), c.is_control(), "{n:x}");
            assert_eq!(is_ascii_alphanumeric(c), c.is_ascii_alphanumeric(), "{n:x}");
        }
    }
}

#[test]
fn texts_are_cut_as_by_the_standard_library() {
    for s in ["", " a ", "\u{a0}x\t", "a,b,,c", "https://x/y", "A:b:C", "--"] {
        assert_eq!(trim(s), s.trim());
        assert_eq!(to_lowercase(s), s.to_ascii_lowercase());
        assert_eq!(to_uppercase(s), s.to_ascii_uppercase());
        assert_eq!(split_char(s, ','), s.split(',').collect::<Vec<_>>());
        assert_eq!(before_first_char(s, ':'), s.split(':').next().unwrap());
        assert_eq!(after_last_char(s, ':'), s.rsplit(':').next().unwrap());
        assert_eq!(after_first_match(s, "://"), s.split_once("://").map(|p| p.1.to_string()));
        assert_eq!(strip_prefix(s, "a"), s.strip_prefix("a").map(str::to_string));
        assert_eq!(ends_with(s, "c"), s.ends_with("c"));
        assert_eq!(replace_all(s, "b", "[x]"), s.replace("b", "[x]"));
    }
}

#[test]
fn numbers_are_written_and_read_as_by_the_standard_library() {
    for n in [0u64, 9, 10, 12_345, u64::MAX] {
        assert_eq!(decimal_of(n), n.to_string());
        assert_eq!(parse_unsigned_of(&n.to_string(), u64::MAX), Some(n));
    }
    for n in [0i64, -1, i64::MIN, i64::MAX] {
        assert_eq!(signed_decimal_of(n), n.to_string());
        assert_eq!(parse_signed_of(&n.to_string()), Some(n));
    }
    for s in ["", "+", "+5", "-5", "5x", "18446744073709551616", " 5", "05"] {
        assert_eq!(parse_unsigned_of(s, u64::MAX), s.parse::<u64>().ok(), "{s}");
        assert_eq!(parse_signed_of(s), s.parse::<i64>().ok(), "{s}");
    }
    assert_eq!(parse_unsigned_of("4294967296", u32::MAX as u64), None);
}

#[test]
fn texts_are_ordered_as_by_the_standard_library() {
    let texts = ["", "a", "B", "ab", "\u{e9}", "\u{10000}", "\u{ffff}", "b"];
    for a in texts {
        for b in texts {
            assert_eq!(is_text_before(a, b), a < b, "{a:?} {b:?}");
        }
    }
    let list: Vec<String> = texts.iter().map(|t| t.to_string()).collect();
    let mut expected = list.clone();
    expected.sort();
    assert_eq!(sorted_keys(&list), expected);
}

#[test]
fn a_set_keeps_each_item_once_in_order() {
    let mut set = OrdSet::new();
    assert!(set.insert("b".to_string()));
    assert!(set.insert("a".to_string()));
    assert!(!set.insert("b".to_string()));
    assert_eq!(set.items, vec!["a".to_string(), "b".to_string()]);
    assert!(set.remove(&"a".to_string()));
    assert!(!set.remove(&"a".to_string()));
    assert_eq!(set.len(), 1);
    assert_eq!(set.copy(), set);
}

#[test]
fn a_map_keeps_the_last_value_of_a_key() {
    let mut map: OrdMap<String, String> = OrdMap::new();
    map.insert("b".to_string(), "1".to_string());
    map.insert("a".to_string(), "2".to_string());
    map.insert("b".to_string(), "3".to_string());
    assert_eq!(map.keys, vec!["a".to_string(), "b".to_string()]);
    assert_eq!(map.get(&"b".to_string()), Some(&"3".to_string()));
    assert_eq!(map.take(&"b".to_string()), Some("3".to_string()));
    assert_eq!(map.get(&"b".to_string()), None);
    assert_eq!(map.len(), 1);
}

#[test]
fn digests_have_their_known_values() {
    assert_eq!(
        sha256_hex(b"abc"),
        "ba7816bf8f01cfea414140de5dae2223b00361a396177a9cb410ff61f20015ad"
    );
    assert_eq!(
        content_digest_of(b""),
        "sha256:e3b0c44298fc1c149afbf4c8996fb92427ae41e4649b934ca495991b7852b855"
    );
    assert_eq!(hex_of(&vec![0, 0x0f, 0xff]), "000fff");
}

#[test]
fn members_are_kept_in_order() {
    let mut value = Json::Object(Vec::new());
    value.put("b", Json::Bool(true));
    value.put("a", Json::Number(JsonNumber::Unsigned(1)));
    value.put("b", Json::Text("x".to_string()));
    assert_eq!(
        value,
        Json::Object(vec![
            ("a".to_string(), Json::Number(JsonNumber::Unsigned(1))),
            ("b".to_string(), Json::Text("x".to_string())),
        ])
    );
    assert_eq!(value.get_text("b"), Some("x"));
    assert_eq!(value.get_unsigned("a"), Some(1));
    assert_eq!(value.get_bool("b"), None);
    assert!(value.get("c").is_none());
    assert!(value.equals(&value.copy()));
    assert!(!value.equals(&Json::Null));
}

#[test]
fn instants_are_read_and_written() {
    let t = Timestamp::parse_rfc3339("2024-02-29T12:00:00.5+01:00").unwrap();
    assert_eq!(t, Timestamp { secs: 1_709_204_400, nanos: 500_000_000 });
    assert_eq!(t.to_rfc3339().unwrap(), "2024-02-29T11:00:00.500+00:00");
    assert_eq!(Timestamp::parse_rfc3339("yesterday"), None);
    assert_eq!(Timestamp { secs: i64::MAX, nanos: 0 }.to_rfc3339(), None);
    assert_eq!(
        Timestamp { secs: 0, nanos: 0 }.to_rfc3339().unwrap(),
        "1970-01-01T00:00:00+00:00"
    );
}

#[test]
fn durations_saturate() {
    assert_eq!(Duration::from_secs(2).saturating_sub(Duration::from_secs(3)), Duration::zero());
    assert_eq!(
        Duration::longest().saturating_add(Duration::from_nanos(1)),
        Duration::longest()
    );
    assert_eq!(Duration::from_millis(5).saturating_mul(3), Duration::from_millis(15));
    assert_eq!(Duration::from_millis(5).as_nanos(), 5_000_000);
    let a = Timestamp { secs: 10, nanos: 1 };
    let b = Timestamp { secs: 8, nanos: 2 };
    assert_eq!(elapsed_nanos_of(a, b), 1_999_999_999);
    assert_eq!(elapsed_nanos_of(b, a), 0);
}

#[test]
fn zeros_with_a_fraction_are_equal() {
    let float = |text: &str, floor: i64| {
        Json::Number(JsonNumber::Float { text: text.to_string(), floor })
    };
    assert!(float("0.0", 0).equals(&float("-0.0", 0)));
    assert!(!float("0.5", 0).equals(&float("-0.0", 0)));
    assert!(float("1.5", 1).equals(&float("1.5", 1)));
    assert!(!Json::Number(JsonNumber::Unsigned(0)).equals(&float("0.0", 0)));
    let list = |n: Json| Json::Array(vec![Json::Object(vec![("a".to_string(), n)])]);
    assert!(list(float("-0.0", 0)).equals(&list(float("0.0", 0))));
    assert!(!list(float("-0.0", 0)).equals(&list(float("1.0", 1))));
}
