use cubineer::fields::{natural, signed, strings, text, Fields};
use cubineer::json::Json;
use cubineer::number::{integer_rank, Number, Reading, Readings, Real};
use cubineer::numeral::{numeral, padded_numeral, parse_integer, signed_numeral};
use cubineer::pieces::{escape, join, lines, remove, replace, split};
use cubineer::pointer::pointer;
use cubineer::ranking::rank;
use cubineer::readable::numbers_in;
use cubineer::sorted::{insert, is_before};
use cubineer::text::{contains, starts_with, trim};
use cubineer::words::{first_characters, last_characters, last_word, lower};
use cubineer::written::to_text;

fn ranked(value: f64) -> Real {
    Real::from_bits(value.to_bits())
}

fn reading(value: f64) -> Reading {
    let whole = value.fract() == 0.0 && value >= -(2f64.powi(63)) && value < 2f64.powi(64);
    Reading {
        value: ranked(value),
        text: serde_json::to_string(&value).unwrap(),
        tenths: format!("{value:.1}"),
        units: format!("{value:.0}"),
        whole: if whole { Some(value as i128) } else { None },
        fractional: value.fract() != 0.0,
    }
}

fn convert(value: &serde_json::Value) -> Json {
    match value {
        serde_json::Value::Null => Json::Null,
        serde_json::Value::Bool(value) => Json::Bool(*value),
        serde_json::Value::Number(number) => {
            let shown = reading(number.as_f64().unwrap());
            if let Some(value) = number.as_u64() {
                Json::Number(Number::Integer(value as i128, Some(shown)))
            } else if let Some(value) = number.as_i64() {
                Json::Number(Number::Integer(value as i128, Some(shown)))
            } else {
                Json::Number(Number::Decimal(shown))
            }
        }
        serde_json::Value::String(value) => Json::Text(value.clone()),
        serde_json::Value::Array(items) => Json::Array(items.iter().map(convert).collect()),
        serde_json::Value::Object(fields) => Json::Object(
            fields.iter().map(|(key, value)| (key.clone(), convert(value))).collect(),
        ),
    }
}

fn json(text: &str) -> Json {
    convert(&serde_json::from_str(text).unwrap())
}

#[test]
fn numbers_keep_their_order() {
    let values = [f64::NEG_INFINITY, -2.5, -0.0, 0.25, 1.0, 2.0, 1e300, f64::INFINITY];
    for pair in values.windows(2) {
        assert!(ranked(pair[0]).rank < ranked(pair[1]).rank);
    }
    for value in [-2.5, 0.25, 1e300] {
        assert_eq!(f64::from_bits(ranked(value).to_bits()), value);
    }
    assert_eq!(ranked(-0.0).rank, ranked(0.0).rank);
    assert!(!ranked(f64::NAN).is_ordered());
    assert!(ranked(f64::INFINITY).is_ordered() && !ranked(f64::INFINITY).is_finite());
    for value in [0u64, 1, 3, 1000, 9007199254740992] {
        assert_eq!(integer_rank(value), ranked(value as f64).rank);
    }
    assert!(reading(-0.0).place() < reading(0.0).place());
}

#[test]
fn numerals_are_read_and_written() {
    assert_eq!(numeral(0), "0");
    assert_eq!(numeral(340282366920938463463374607431768211455), "340282366920938463463374607431768211455");
    assert_eq!(signed_numeral(-12), "-12");
    assert_eq!(padded_numeral(12, 6), "000012");
    assert_eq!(padded_numeral(1234567, 6), "1234567");
    assert_eq!(parse_integer("+7"), Some(7));
    assert_eq!(parse_integer("-7"), Some(-7));
    assert_eq!(parse_integer(""), None);
    assert_eq!(parse_integer("7.0"), None);
}

#[test]
fn texts_are_cut() {
    assert_eq!(trim("\u{2003} a b\t\n"), "a b");
    assert!(contains("abc", "bc") && !contains("abc", "ac") && contains("abc", ""));
    assert!(starts_with("abc", "ab") && !starts_with("a", "ab"));
    assert_eq!(replace("aaa", "aa", "b"), "ba");
    assert_eq!(remove("1,234%", ",%"), "1234");
    assert_eq!(split("a,,b", ','), vec!["a", "", "b"]);
    assert_eq!(join(&split("a,b", ','), "; "), "a; b");
    assert_eq!(lines("a\r\nb\n\nc"), vec!["a", "b", "", "c"]);
    assert_eq!(lines("a\n"), vec!["a"]);
    assert_eq!(lower("ABC\u{c4}"), "abc\u{c4}");
    assert_eq!(first_characters("\u{754c}bc", 2), "\u{754c}b");
    assert_eq!(last_characters("ab\u{754c}", 2), "b\u{754c}");
    assert_eq!(last_word(" a  bc "), Some("bc".to_string()));
    assert_eq!(last_word("  "), None);
}

#[test]
fn values_are_found_and_written() {
    let value = json("{\"a\": [1, {\"b\": \"\\u00e9\\n\"}], \"c\": 1.5}");
    assert_eq!(to_text(&value), "{\"a\":[1,{\"b\":\"\u{e9}\\n\"}],\"c\":1.5}");
    assert!(pointer(&value, "/a/1/b").unwrap().is_text("\u{e9}\n"));
    assert!(pointer(&value, "/a/01").is_none());
    assert!(value.at("a").item(0).is_integer(1));
    assert!(value.at("x").at("y").is_null());
    assert!(json("{\"a\": 1, \"b\": 2}").equals(&json("{\"b\": 2, \"a\": 1}")));
    assert!(!json("1").equals(&json("1.0")));
    assert_eq!(to_text(&signed(-3)), "-3");
    assert_eq!(to_text(&natural(18446744073709551615)), "18446744073709551615");
    assert_eq!(to_text(&strings(&vec!["a".to_string()])), "[\"a\"]");
    let mut fields = Fields::new().with("a", text("x")).with("b", text("y"));
    fields.set("a", Json::Null);
    fields.set("c", Json::Bool(true));
    assert!(fields.take("b").is_some());
    assert_eq!(to_text(&fields.object()), "{\"a\":null,\"c\":true}");
}

#[test]
fn readings_are_looked_up() {
    let table = Readings {
        entries: vec![("a".to_string(), None), ("1".to_string(), Some(reading(1.0)))],
    };
    assert!(matches!(table.read("a"), Some(None)));
    assert_eq!(table.read("1").unwrap().unwrap().units, "1");
    assert!(table.read("b").is_none());
}

#[test]
fn rankings_are_stable() {
    assert_eq!(rank(&vec![1, 3, 2, 3]), vec![1, 3, 2, 0]);
}

#[test]
fn texts_are_sorted_once() {
    let mut list = Vec::new();
    for name in ["b", "a", "b", "ab", ""] {
        insert(&mut list, name);
    }
    assert_eq!(list, vec!["", "a", "ab", "b"]);
    assert!(is_before("a", "ab") && !is_before("a", "a"));
}

#[test]
fn patterns_are_escaped() {
    let text: String = (0u8..128).map(char::from).chain("\u{e9}\u{754c}".chars()).collect();
    assert_eq!(escape(&text), regex::escape(&text));
    assert_eq!(escape("a.b\\"), "a\\.b\\\\");
}

#[test]
fn documents_hold_texts_that_can_be_read() {
    let value = Json::Object(vec![
        ("a".to_string(), Json::Array(vec![Json::Text(" 1,0_0% ".to_string()), Json::Null])),
        ("b".to_string(), Json::Text("2".to_string())),
    ]);
    assert_eq!(numbers_in(&value), vec![" 1,0_0% ", "10_0", "1,00%", "2", "2", "2"]);
}
