//! Texts, numbers, orders and maps.

use bytes::Bytes;
use polku_gateway::number::{decimal_text, parse_number, signed_decimal_text, NumberError};
use polku_gateway::order::{comes_before, insert_ascending};
use polku_gateway::payload::to_vec;
use polku_gateway::stamp::{nanos_to_seconds, nanos_to_u64, timestamp_of};
use polku_gateway::string_map::StringMap;
use polku_gateway::text::{begins_with, join5, same_text};

#[test]
fn numbers_are_written_and_read() {
    for n in [0, 7, 10, 99, 100, 12345, u64::MAX] {
        assert_eq!(decimal_text(n), n.to_string());
        assert_eq!(parse_number(&decimal_text(n), u64::MAX), Ok(n));
    }
    for n in [0, -1, 1, i64::MIN, i64::MAX] {
        assert_eq!(signed_decimal_text(n), n.to_string());
    }
}

#[test]
fn numbers_are_read_as_the_standard_library_reads_them() {
    for s in [
        "", "+", "-", "0", "+5", "-5", "00012", "12x", "x12", " 1", "1 ", "255", "256", "99999999999",
        "256x", "٣",
    ] {
        let expected = s.parse::<u8>();
        let got = parse_number(s, 255);
        match expected {
            Ok(n) => assert_eq!(got, Ok(n as u64), "{s:?}"),
            Err(e) => assert_eq!(got.unwrap_err().to_text(), e.to_string(), "{s:?}"),
        }
    }
    assert_eq!(parse_number("", 9), Err(NumberError::Empty));
    assert_eq!(parse_number("a", 9), Err(NumberError::InvalidDigit));
    assert_eq!(parse_number("10", 9), Err(NumberError::TooLarge));
}

#[test]
fn texts_are_ordered_as_the_standard_library_orders_them() {
    let words = ["", "a", "ab", "abc", "b", "B", "ż", "z", "🦀", "é"];
    for a in words {
        for b in words {
            assert_eq!(comes_before(a, b), a < b, "{a:?} {b:?}");
            assert_eq!(same_text(a, b), a == b);
            assert_eq!(begins_with(a, b), a.starts_with(b));
        }
    }
}

#[test]
fn lists_stay_ascending() {
    let mut list = Vec::new();
    for s in ["m", "a", "z", "m", "b", "a"] {
        insert_ascending(&mut list, s.to_string());
    }
    assert_eq!(list, vec!["a", "b", "m", "z"]);
}

#[test]
fn maps_hold_their_entries() {
    let mut map: StringMap<u32> = StringMap::default();
    assert!(map.is_empty());
    map.insert("a".into(), 1);
    map.insert("b".into(), 2);
    map.insert("a".into(), 3);
    assert_eq!(map.len(), 2);
    assert_eq!(map.get("a"), Some(&3));
    assert_eq!(map.get("c"), None);
    assert_eq!(map.remove("a"), Some(3));
    assert_eq!(map.remove("a"), None);
    assert!(!map.contains_key("a"));
    let mut other = StringMap::new();
    other.insert("b".into(), 9);
    other.insert("c".into(), 8);
    map.extend(other);
    assert_eq!(map.get("b"), Some(&9));
    assert_eq!(map.get("c"), Some(&8));
    assert_eq!(map.key_at(0), "b");
    assert_eq!(map.value_at(1), &8);
}

#[test]
fn texts_are_joined() {
    assert_eq!(join5("a", "b", "", "c", "d"), "abcd");
}

#[test]
fn payloads_are_copied_out() {
    assert_eq!(to_vec(&Bytes::from("xyz")), b"xyz".to_vec());
}

#[test]
fn a_time_that_does_not_fit_is_zero() {
    assert_eq!(timestamp_of(Some(17)), 17);
    assert_eq!(timestamp_of(None), 0);
}

#[test]
fn spans_are_cut_and_counted_in_seconds() {
    assert_eq!(nanos_to_u64(17), 17);
    assert_eq!(nanos_to_u64((1u128 << 64) + 5), 5);
    assert_eq!(nanos_to_seconds(999_999_999), 0);
    assert_eq!(nanos_to_seconds(3_500_000_000), 3);
}
