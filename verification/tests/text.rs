use oprc::text::chars::{bytes_of, chars_of, copy_texts, holds, join, pad_right, same, text_of};
use oprc::text::number::{parse_number, push_hex, to_decimal};
use oprc::text::order::is_le;
use oprc::text::ordered::insert_ordered;
use oprc::text::search::{
    contains_char, contains_text, find_text, space, split, split_at_last, split_once, starts_with,
    strip_prefix, to_lower, trim, trim_end_char,
};
use oprc::text_map::TextMap;

const SAMPLES: [&str; 14] = [
    "", " ", "a", "ab", "a b", " a ", "\t x\u{3000}", "ä=ö", "a,b,,c", ",", "Z", "\u{1F600}x", "\u{FFFF}", "aa/b//",
];

#[test]
fn white_space_is_that_of_unicode() {
    for code in 0..=0x10FFFFu32 {
        if let Some(c) = char::from_u32(code) {
            assert_eq!(space(c), c.is_whitespace(), "{:x}", code);
        }
    }
}

#[test]
fn text_operations_agree_with_std() {
    for s in SAMPLES {
        assert_eq!(trim(s), s.trim());
        assert_eq!(trim_end_char(s, '/'), s.trim_end_matches('/'));
        assert_eq!(to_lower(s), s.to_ascii_lowercase());
        assert_eq!(split(s, ','), s.split(',').map(String::from).collect::<Vec<_>>());
        assert_eq!(
            split_once(s, '='),
            s.split_once('=').map(|(a, b)| (a.to_string(), b.to_string()))
        );
        assert_eq!(
            split_at_last(s, '/'),
            s.rsplit_once('/').map(|(a, b)| (a.to_string(), b.to_string()))
        );
        assert_eq!(contains_char(s, 'b'), s.contains('b'));
        assert_eq!(bytes_of(s), s.as_bytes());
        assert_eq!(chars_of(s), s.chars().collect::<Vec<_>>());
        assert_eq!(pad_right(s, 7), format!("{:7}", s));
        for t in SAMPLES {
            assert_eq!(same(s, t), s == t);
            assert_eq!(is_le(s, t), s <= t, "{:?} {:?}", s, t);
            assert_eq!(contains_text(s, t), s.contains(t));
            assert_eq!(starts_with(s, t), s.starts_with(t));
            assert_eq!(strip_prefix(s, t), s.strip_prefix(t).map(String::from));
        }
    }
}

#[test]
fn text_is_found_at_its_first_place() {
    assert_eq!(find_text(&chars_of("abcabc"), &chars_of("ca")), Some(2));
    assert_eq!(find_text(&chars_of("abcabc"), &chars_of("abc")), Some(0));
    assert_eq!(find_text(&chars_of("abc"), &chars_of("abcd")), None);
    assert_eq!(text_of(&chars_of("häuser"), 1, 3), "äu");
}

#[test]
fn numbers_agree_with_std() {
    for n in [0u64, 7, 10, 65535, u64::MAX] {
        assert_eq!(to_decimal(n), n.to_string());
        assert_eq!(parse_number(&n.to_string(), 10, u64::MAX), Some(n));
    }
    for s in ["", "+", "-1", "+5", "00012", "1 ", "ff", "FF", "4294967295", "4294967296", "1_0"] {
        assert_eq!(
            parse_number(s, 16, u32::MAX as u64),
            u32::from_str_radix(s, 16).ok().map(|n| n as u64),
            "{}",
            s
        );
        assert_eq!(
            parse_number(s, 10, u32::MAX as u64),
            s.parse::<u32>().ok().map(|n| n as u64),
            "{}",
            s
        );
    }
    let mut text = String::new();
    push_hex(&mut text, 0);
    push_hex(&mut text, 0xAF);
    assert_eq!(text, "00AF");
}

#[test]
fn lists_of_texts() {
    let list = vec!["b".to_string(), "a".to_string()];
    assert!(holds(&list, "a"));
    assert!(!holds(&list, "c"));
    assert_eq!(copy_texts(&list), list);
    assert_eq!(join(&list, ", "), "b, a");
    assert_eq!(join(&vec![], ", "), "");
    let mut ordered: Vec<String> = vec![];
    for t in ["m", "a", "z", "m", "b"] {
        insert_ordered(&mut ordered, t.to_string());
    }
    assert_eq!(ordered, ["a", "b", "m", "z"]);
}

#[test]
fn map_keeps_one_value_per_key() {
    let mut map: TextMap<u32> = TextMap::new();
    assert!(map.is_empty());
    assert_eq!(map.insert("x".to_string(), 1), None);
    assert_eq!(map.insert("y".to_string(), 2), None);
    assert_eq!(map.insert("x".to_string(), 3), Some(1));
    assert_eq!(map.len(), 2);
    assert_eq!(map.get("x"), Some(&3));
    assert_eq!(map.get("z"), None);
    assert!(map.contains_key("y"));
    assert_eq!(map.keys(), ["x", "y"]);
    assert_eq!(map.remove("x"), Some(3));
    assert_eq!(map.remove("x"), None);
    assert_eq!(map.entries().len(), 1);
}

#[test]
fn map_overlay_prefers_the_other() {
    let mut a: TextMap<String> = TextMap::new();
    a.insert("k".to_string(), "base".to_string());
    a.insert("l".to_string(), "base".to_string());
    let mut b: TextMap<String> = TextMap::new();
    b.insert("k".to_string(), "over".to_string());
    b.insert("m".to_string(), "over".to_string());
    let copy = a.copy();
    a.extend(&b);
    assert_eq!(a.get("k").unwrap(), "over");
    assert_eq!(a.get("l").unwrap(), "base");
    assert_eq!(a.get("m").unwrap(), "over");
    assert_eq!(copy.get("k").unwrap(), "base");
    assert_eq!(copy.len(), 2);
}
