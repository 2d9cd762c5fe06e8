use acme_proxy::json::{Json, Number};
use acme_proxy::sorted::{precedes, StringMap, StringSet};
use acme_proxy::text::{
    join, lowercase, number, parse_u64, signed_number, split, strip_prefix, trim, uppercase,
};
use acme_proxy::time::Duration;

#[test]
fn white_space_is_unicodes() {
    for code in 0..0x11_0000_u32 {
        if let Some(c) = char::from_u32(code) {
            let padded = format!("{c}x{c}");
            assert_eq!(trim(&padded), padded.trim(), "{code:x}");
        }
    }
    assert_eq!(trim(""), "");
    assert_eq!(trim(" \t\n"), "");
    assert_eq!(trim("a b"), "a b");
}

#[test]
fn only_ascii_letters_change_case() {
    let all = "AZaz09ÄäßИ@[`{";
    assert_eq!(lowercase(all), all.to_ascii_lowercase());
    assert_eq!(uppercase(all), all.to_ascii_uppercase());
}

#[test]
fn splitting_and_joining() {
    for text in ["", ",", "a", "a,b", ",a,,b,"] {
        let parts = split(text, ',');
        assert_eq!(parts, text.split(',').collect::<Vec<_>>());
        assert_eq!(join(&parts, ","), text);
    }
    assert_eq!(join(&Vec::new(), ","), "");
}

#[test]
fn numbers_in_decimal() {
    for n in [0, 7, 10, 99, 100, u64::MAX as u128, u128::MAX] {
        assert_eq!(number(n), n.to_string());
    }
    for n in [0, -1, i64::MIN, i64::MAX] {
        assert_eq!(signed_number(n), n.to_string());
    }
}

#[test]
fn numbers_are_read_as_std_reads_them() {
    for text in ["", "0", "+0", "-0", "00042", "1_0", " 1", "18446744073709551615"] {
        assert_eq!(parse_u64(text), text.parse::<u64>().ok(), "{text}");
    }
    for text in ["18446744073709551616", "99999999999999999999999", "+", "++1", "१"] {
        assert_eq!(parse_u64(text), text.parse::<u64>().ok(), "{text}");
    }
}

#[test]
fn a_prefix_is_stripped_once() {
    assert_eq!(strip_prefix("aab", "a").as_deref(), Some("ab"));
    assert_eq!(strip_prefix("aab", "").as_deref(), Some("aab"));
    assert_eq!(strip_prefix("aab", "b"), None);
    assert_eq!(strip_prefix("a", "aa"), None);
}

#[test]
fn strings_are_ordered_as_std_orders_them() {
    let words = ["", "a", "ab", "b", "A", "ä", "\u{ffff}", "\u{10000}"];
    for x in words {
        for y in words {
            assert_eq!(precedes(x, y), x < y, "{x} {y}");
        }
    }
}

#[test]
fn sets_and_maps_keep_their_keys_in_order() {
    let mut set = StringSet::new();
    assert!(set.is_empty());
    assert!(set.insert("b".to_string()));
    assert!(set.insert("a".to_string()));
    assert!(!set.insert("b".to_string()));
    assert_eq!(set.to_vec(), vec!["a", "b"]);
    assert_eq!(set.len(), 2);
    assert!(set.contains("a") && !set.contains("c"));
    assert_eq!(set.clone(), set);

    let mut map = StringMap::new();
    map.insert("b".to_string(), 1);
    map.insert("a".to_string(), 2);
    map.insert("b".to_string(), 3);
    assert_eq!(map.len(), 2);
    assert_eq!((map.get("a"), map.get("b"), map.get("c")), (Some(&2), Some(&3), None));
    assert_eq!(map.keys(), vec!["a", "b"]);
    assert_eq!(map.entry(1), (&"b".to_string(), &3));
}

#[test]
fn an_object_is_searched_from_its_beginning() {
    let object = Json::Object(vec![
        ("a".to_string(), Json::Bool(true)),
        ("b".to_string(), Json::Number(Number::Whole(7))),
        ("a".to_string(), Json::Null),
    ]);
    assert_eq!(object.get("a"), Some(&Json::Bool(true)));
    assert_eq!(object.get("b").unwrap().as_u64(), Some(7));
    assert_eq!(object.get("c"), None);
    assert_eq!(Json::Null.get("a"), None);
    assert_eq!(Json::Null.as_str(), None);
}

#[test]
fn spans_stop_at_the_longest() {
    let longest = Duration::longest();
    assert_eq!(longest.as_nanos(), std::time::Duration::MAX.as_nanos());
    assert_eq!(longest.saturating_mul(2), longest);
    assert_eq!(longest.saturating_add(Duration::from_secs(1)), longest);
    assert_eq!(Duration::from_millis(1_500).as_secs(), 1);
    assert_eq!(Duration::from_secs(3).half(), Duration::from_millis(1_500));
    assert_eq!(Duration::from_secs(3).saturating_mul(3), Duration::from_secs(9));
    let (short, long) = (Duration::from_secs(1), Duration::from_secs(2));
    assert_eq!((short.min(long), short.max(long)), (short, long));
    assert!(Duration::zero().is_zero());
}
