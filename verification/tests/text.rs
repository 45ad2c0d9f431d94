//! Text and JSON.

use outlay::json::Json;
use outlay::text::{
    contains, find_char, is_whitespace, lines, parse_number, split_char, strip_prefix, to_decimal,
    trim,
};

#[test]
fn white_space_is_that_of_unicode() {
    for n in 0..=0x10ffffu32 {
        if let Some(c) = char::from_u32(n) {
            assert_eq!(is_whitespace(c), c.is_whitespace(), "{n:x}");
        }
    }
}

#[test]
fn text_functions_agree_with_std() {
    for s in ["", " ", "a", " a b ", "\u{3000}x\t", "a,b,,c", ",", "é=ü=", "a\r\nb\n\nc\r", "\n"] {
        assert_eq!(trim(s), s.trim());
        assert_eq!(split_char(s, ','), s.split(',').collect::<Vec<_>>());
        assert_eq!(lines(s), s.lines().collect::<Vec<_>>());
        assert_eq!(
            find_char(s, '='),
            s.chars().position(|c| c == '='),
            "{s:?}"
        );
        assert_eq!(strip_prefix(s, "a"), s.strip_prefix("a"));
        assert_eq!(contains(s, "b,"), s.contains("b,"));
        assert_eq!(contains(s, ""), s.contains(""));
    }
}

#[test]
fn decimal_numbers() {
    for n in [0, 7, 10, 8086, u64::MAX] {
        assert_eq!(to_decimal(n), n.to_string());
        assert_eq!(parse_number(&n.to_string(), u64::MAX), Some(n));
    }
    for s in ["", "+", "-0", "1 ", "18446744073709551616", "+00012", "1_0", "٣"] {
        assert_eq!(parse_number(s, u64::MAX), s.parse::<u64>().ok(), "{s:?}");
    }
    assert_eq!(parse_number("300", 255), None);
}

fn value(text: &str) -> serde_json::Value {
    serde_json::from_str(text).unwrap()
}

#[test]
fn json_values_come_back() {
    let text = r#"{"a":[1,-2,3.5,true,null,"x\n\"\\\u0001é"],"b":{"c":{}},"d":18446744073709551615}"#;
    let v = value(text);
    let j = Json::from_value(v.clone());
    assert_eq!(j.to_value(), v);
    assert_eq!(j.text(), v.to_string());
    assert_eq!(j.pretty(), serde_json::to_string_pretty(&v).unwrap());
    assert_eq!(Json::parse(text.as_bytes()), Some(j.clone()));
    assert_eq!(j.get("b").unwrap().get("c"), Some(&Json::Object(vec![])));
    assert_eq!(j.get("z"), None);
    assert_eq!(Json::Null.get("z"), None);
}

#[test]
fn json_fields_by_kind() {
    let j = Json::from_value(value(r#"{"s":"t","b":true,"n":1}"#));
    assert_eq!(j.get_str("s"), Some("t"));
    assert_eq!(j.get_str("b"), None);
    assert_eq!(j.get_bool("b"), Some(true));
    assert_eq!(j.get_bool("s"), None);
    assert_eq!(j.get_bool("x"), None);
}

#[test]
fn a_later_field_counts() {
    let j = Json::Object(vec![
        ("a".into(), Json::Bool(false)),
        ("a".into(), Json::Bool(true)),
    ]);
    assert_eq!(j.get_bool("a"), Some(true));
    assert_eq!(j.to_value(), value(r#"{"a":true}"#));
    assert_eq!(j.text(), r#"{"a":true}"#);
}

#[test]
fn arrays_are_read() {
    assert_eq!(
        Json::parse_array(r#" ["a", null] "#),
        Some(vec![Json::Str("a".into()), Json::Null])
    );
    assert_eq!(Json::parse_array("[]"), Some(vec![]));
    assert_eq!(Json::parse_array("{}"), None);
    assert_eq!(Json::parse_array("[1] x"), None);
    assert_eq!(Json::parse(b"{"), None);
    assert_eq!(Json::parse(b"\xff"), None);
}

#[test]
fn strings_are_escaped_as_they_are_read() {
    let mut all = String::new();
    for n in 0..0x500u32 {
        if let Some(c) = char::from_u32(n) {
            all.push(c);
        }
    }
    let j = Json::Array(vec![Json::Str(all.clone()), Json::Bool(false)]);
    assert_eq!(
        Json::parse_array(&j.text()),
        Some(vec![Json::Str(all), Json::Bool(false)])
    );
}

#[test]
fn arrays_are_read_to_their_depth() {
    let mut j = Json::Array(vec![]);
    for _ in 1..127 {
        j = Json::Array(vec![j]);
    }
    assert!(Json::parse_array(&j.text()).is_some());
    let deeper = Json::Array(vec![j]);
    assert!(Json::parse_array(&deeper.text()).is_none());
}

#[test]
fn control_characters_are_escaped() {
    assert_eq!(
        Json::Str("\u{8}\u{c}\n\r\t\u{1}\u{1f}\"\\/\u{7f}é".into()).text(),
        "\"\\b\\f\\n\\r\\t\\u0001\\u001f\\\"\\\\/\u{7f}é\""
    );
    assert_eq!(
        Json::Array(vec![Json::Null, Json::Bool(true), Json::Array(vec![])]).text(),
        "[null,true,[]]"
    );
}

#[test]
fn whole_numbers_come_back() {
    let v = value(r#"{"a":[0,7,-7,18446744073709551615,-9223372036854775808],"b":{"c":[null]}}"#);
    let j = Json::from_value(v.clone());
    assert_eq!(Json::parse(j.text().as_bytes()).unwrap().to_value(), v);
    assert_eq!(Json::parse(j.pretty().as_bytes()).unwrap().to_value(), v);
    // a fraction never looks like a whole number
    assert_eq!(Json::from_value(value("1.0")).text(), "1.0");
    assert_eq!(Json::from_value(value("-0")).text(), "-0.0");
}

#[test]
fn a_reserved_field_is_not_read_back() {
    let key = "$serde_json::private::RawValue";
    let held = Json::Object(vec![(key.into(), Json::Bool(true))]);
    assert_eq!(held.get_bool(key), Some(true));
    assert_eq!(held.text(), r#"{"$serde_json::private::RawValue":true}"#);
    assert_eq!(Json::parse(held.text().as_bytes()), None);
    assert_eq!(Json::parse(held.pretty().as_bytes()), None);
    assert_eq!(Json::parse_array(&Json::Array(vec![held]).text()), None);
    // its text stands for the whole object
    let text = Json::Object(vec![(key.into(), Json::Str("[1]".into()))]);
    assert_eq!(Json::parse(text.text().as_bytes()).unwrap().text(), "[1]");
    // behind another field it is read as any field is
    assert_eq!(
        Json::parse(br#"{"a":1,"$serde_json::private::RawValue":true}"#)
            .unwrap()
            .get_bool(key),
        Some(true)
    );
}

#[test]
fn long_arrays_and_objects_keep_their_order() {
    let size: usize = 50_000;
    let items: Vec<String> = (0..size).map(|n| n.to_string()).collect();
    let text = format!("[{}]", items.join(","));
    let read = Json::parse_array(&text).unwrap();
    assert_eq!(read.len(), size);
    assert_eq!(Json::Array(read).text(), text);
    let fields: Vec<String> = (0..size).map(|n| format!(r#""{n:05}":{n}"#)).collect();
    let text = format!("{{{}}}", fields.join(","));
    assert_eq!(Json::parse(text.as_bytes()).unwrap().text(), text);
}
