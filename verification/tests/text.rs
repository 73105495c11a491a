use sherlock_rs::table::Table;
use sherlock_rs::text::{
    decimal_i64, decimal_u64, encode_hex, join, replace, str_contains, str_eq, str_starts_with,
    strip_prefix, take_before, to_ascii_lowercase, trim,
};

#[test]
fn texts_are_compared() {
    assert!(str_eq("é", "é"));
    assert!(!str_eq("a", "ab"));
    assert!(str_contains("abc", "bc"));
    assert!(str_contains("abc", ""));
    assert!(!str_contains("abc", "cb"));
    assert!(!str_contains("", "a"));
    assert!(str_starts_with("abc", "ab"));
    assert!(!str_starts_with("abc", "bc"));
    assert_eq!(strip_prefix("NET: x", "NET: "), Some("x".to_string()));
    assert_eq!(strip_prefix("x", "NET: "), None);
}

#[test]
fn texts_are_changed_as_std_does() {
    for s in ["", " a b ", "\u{a0}x\u{2003}", "\u{3000}", "\t\r\n", "é"] {
        assert_eq!(trim(s), s.trim());
    }
    for s in ["", "ÀBC", "already", "A1-Z"] {
        assert_eq!(to_ascii_lowercase(s), s.to_ascii_lowercase());
    }
    for (s, f, t) in [
        ("aaa", "aa", "b"),
        ("{}/{}", "{}", "x"),
        ("abc", "d", "e"),
        ("abab", "ab", "abab"),
    ] {
        assert_eq!(replace(s, f, t), s.replace(f, t));
    }
    assert_eq!(take_before("a/b/c", '/'), "a");
    assert_eq!(take_before("abc", '/'), "abc");
    assert_eq!(take_before("/abc", '/'), "");
    assert_eq!(
        join(&vec!["a".to_string(), "".to_string(), "b".to_string()], "; "),
        "a; ; b"
    );
}

#[test]
fn numbers_are_written_as_std_does() {
    for n in [0u64, 9, 10, 12345, u64::MAX] {
        assert_eq!(decimal_u64(n), n.to_string());
    }
    for n in [0i64, -1, 42, i64::MAX, i64::MIN] {
        assert_eq!(decimal_i64(n), n.to_string());
    }
    assert_eq!(encode_hex(&[0x00, 0x0f, 0xa0, 0xff]), "000fa0ff");
    assert_eq!(encode_hex(&[]), "");
}

#[test]
fn white_space_is_that_of_unicode() {
    for n in 0..0x3100u32 {
        if let Some(c) = char::from_u32(n) {
            let s = c.to_string();
            assert_eq!(trim(&s), s.trim());
        }
    }
}

#[test]
fn tables_keep_their_order() {
    let mut t: Table<u32> = Table::new();
    assert!(t.is_empty());
    t.insert("b".into(), 1);
    t.insert("a".into(), 2);
    t.insert("b".into(), 3);
    assert_eq!(t.len(), 2);
    assert_eq!(t.key(0), "b");
    assert_eq!(t.value(0), &3);
    assert_eq!(t.find("a"), Some(1));
    assert_eq!(t.get("c"), None);
    assert!(t.contains_key("a"));
    let u = t.clone();
    assert_eq!(
        u.into_entries(),
        vec![("b".to_string(), 3), ("a".to_string(), 2)]
    );
    let (k, v) = t.take_at(0);
    assert_eq!((k.as_str(), v), ("b", 3));
    t.put_at(1, "z".into(), 9);
    assert_eq!(t.key(1), "z");
}
