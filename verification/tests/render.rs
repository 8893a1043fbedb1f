//! Rendering and parsing of structured values, the adapter, and the
//! demonstration counter type.

use tracing_json_layer::adapter::SerdeJsonAdapter;
use tracing_json_layer::fizzbuzz::FizzBuzz;
use tracing_json_layer::parse::parse_json;
use tracing_json_layer::record::CustomLayerTracedData;
use tracing_json_layer::ser::{int_token, uint_token, write_json};
use tracing_json_layer::value::JsonValue;
use tracing_json_layer::visitor::JsonAttributeVisitor;

fn b(s: &str) -> Vec<u8> {
    s.as_bytes().to_vec()
}

fn text(v: Vec<u8>) -> String {
    String::from_utf8(v).unwrap()
}

#[test]
fn scalar_tokens() {
    assert_eq!(text(write_json(&JsonValue::Null)), "null");
    assert_eq!(text(write_json(&JsonValue::Bool(true))), "true");
    assert_eq!(text(write_json(&JsonValue::Bool(false))), "false");
    assert_eq!(text(uint_token(0)), "0");
    assert_eq!(text(uint_token(1234567890123456789)), "1234567890123456789");
    assert_eq!(text(uint_token(u64::MAX)), "18446744073709551615");
    assert_eq!(text(int_token(-42)), "-42");
    assert_eq!(text(int_token(i64::MIN)), "-9223372036854775808");
    assert_eq!(text(int_token(7)), "7");
}

#[test]
fn string_escaping() {
    assert_eq!(text(write_json(&JsonValue::Str(b("plain")))), "\"plain\"");
    assert_eq!(text(write_json(&JsonValue::Str(b("a\"b")))), "\"a\\\"b\"");
    assert_eq!(text(write_json(&JsonValue::Str(b("a\\b")))), "\"a\\\\b\"");
    assert_eq!(text(write_json(&JsonValue::Str(b("a\nb")))), "\"a\\u000ab\"");
    assert_eq!(text(write_json(&JsonValue::Str(b("\u{1f}")))), "\"\\u001f\"");
}

#[test]
fn nested_values_keep_shape_and_order() {
    let v = JsonValue::Obj(vec![
        (b("y"), JsonValue::Arr(vec![JsonValue::UInt(1), JsonValue::UInt(2)])),
        (b("x"), JsonValue::Bool(true)),
    ]);
    assert_eq!(text(write_json(&v)), "{\"y\":[1,2],\"x\":true}");
}

#[test]
fn parse_classifies_numbers() {
    let v = parse_json(b"[0, -3, 18446744073709551615, 1.5]").unwrap();
    assert_eq!(
        v,
        JsonValue::Arr(vec![
            JsonValue::UInt(0),
            JsonValue::Int(-3),
            JsonValue::UInt(18446744073709551615),
            JsonValue::Float(b("1.5")),
        ])
    );
}

#[test]
fn parse_keeps_object_order() {
    let v = parse_json(b"{\"b\":1,\"a\":2}").unwrap();
    assert_eq!(
        v,
        JsonValue::Obj(vec![(b("b"), JsonValue::UInt(1)), (b("a"), JsonValue::UInt(2))])
    );
}

#[test]
fn parse_rejects_bad_text() {
    assert_eq!(parse_json(b"not json"), None);
    assert_eq!(parse_json(b"{\"a\":"), None);
}

#[test]
fn parse_then_render_round_trips_floats() {
    let v = parse_json(b"[1.5]").unwrap();
    assert_eq!(text(write_json(&v)), "[1.5]");
}

#[test]
fn adapter_fidelity_through_recording() {
    let doc = parse_json(b"{\"x\":true,\"y\":[1,2,3]}").unwrap();
    let adapter = SerdeJsonAdapter::new(doc);
    assert_eq!(adapter.map_size_hint(), (2, Some(2)));
    assert_eq!(adapter.list_size_hint(), (0, None));
    let mut v = JsonAttributeVisitor::with_data(CustomLayerTracedData::default());
    let value = adapter.as_value().clone();
    v.record_value(b("j"), value);
    let d = v.into_data();
    let mut out = Vec::new();
    out.extend_from_slice(b"{\"j\":");
    out.extend_from_slice(&write_json(d.get(b"j").unwrap()));
    out.push(b'}');
    assert_eq!(text(out), "{\"j\":{\"x\":true,\"y\":[1,2,3]}}");
}

#[test]
fn adapter_list_counts_are_exact() {
    let doc = parse_json(b"[10,20,30]").unwrap();
    let adapter = SerdeJsonAdapter::new(doc);
    assert_eq!(adapter.list_size_hint(), (3, Some(3)));
    assert_eq!(adapter.map_size_hint(), (0, None));
}

#[test]
fn empty_record_renders_as_empty_object() {
    let d = CustomLayerTracedData::default();
    let mut v = JsonAttributeVisitor::with_data(CustomLayerTracedData::default());
    v.record_value(b("e"), JsonValue::Obj(vec![]));
    assert_eq!(d.len(), 0);
    let inner = v.into_data();
    assert_eq!(text(write_json(inner.get(b"e").unwrap())), "{}");
}

#[test]
fn malformed_float_token_degrades_to_null() {
    let mut v = JsonAttributeVisitor::with_data(CustomLayerTracedData::default());
    v.record_float(b("bad"), b("}{"));
    v.record_float(b("nan"), b("null"));
    v.record_float(b("empty"), Vec::new());
    v.record_float(b("ok"), b("-1.25e-3"));
    let d = v.into_data();
    assert_eq!(d.get(b"bad"), Some(&JsonValue::Null));
    assert_eq!(d.get(b"nan"), Some(&JsonValue::Null));
    assert_eq!(d.get(b"empty"), Some(&JsonValue::Null));
    assert_eq!(d.get(b"ok"), Some(&JsonValue::Float(b("-1.25e-3"))));
}

#[test]
fn fizz_buzz_divisibility() {
    let fifteen = FizzBuzz::from(15);
    assert!(fifteen.is_fizz());
    assert!(fifteen.is_buzz());
    assert!(fifteen.is_fizz_buzz());
    let nine = FizzBuzz::from(9);
    assert!(nine.is_fizz());
    assert!(!nine.is_buzz());
    assert!(!nine.is_fizz_buzz());
    let seven = FizzBuzz::from(7);
    assert!(!seven.is_fizz_buzz());
}
