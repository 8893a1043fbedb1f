//! Behaviour of the capture layer: ordered records, the typed-field recorder,
//! the sentinel string path, event assembly, and the one-shot ancestor chain.

use tracing_json_layer::layer::{format_level, CustomJsonLayer, Level};
use tracing_json_layer::parse::parse_json;
use tracing_json_layer::record::CustomLayerTracedData;
use tracing_json_layer::scope::ScopeSerializer;
use tracing_json_layer::value::JsonValue;
use tracing_json_layer::visitor::{sentinel_encode, special_json_prefix, JsonAttributeVisitor};

fn b(s: &str) -> Vec<u8> {
    s.as_bytes().to_vec()
}

fn text(v: Vec<u8>) -> String {
    String::from_utf8(v).unwrap()
}

#[test]
fn insert_preserves_first_insertion_order() {
    let mut d = CustomLayerTracedData::default();
    assert_eq!(d.insert(b("a"), JsonValue::UInt(1)), None);
    assert_eq!(d.insert(b("b"), JsonValue::UInt(2)), None);
    let prev = d.insert(b("a"), JsonValue::UInt(3));
    assert_eq!(prev, Some(JsonValue::UInt(1)));
    let entries = d.entries();
    assert_eq!(entries.len(), 2);
    assert_eq!(entries[0].0, b("a"));
    assert_eq!(entries[0].1, JsonValue::UInt(3));
    assert_eq!(entries[1].0, b("b"));
    assert_eq!(entries[1].1, JsonValue::UInt(2));
}

#[test]
fn get_returns_most_recent_value() {
    let mut d = CustomLayerTracedData::default();
    d.insert(b("k"), JsonValue::Bool(false));
    d.insert(b("k"), JsonValue::Bool(true));
    assert_eq!(d.get(b"k"), Some(&JsonValue::Bool(true)));
    assert_eq!(d.get(b"missing"), None);
    assert_eq!(d.len(), 1);
}

#[test]
fn visitor_records_each_kind() {
    let mut v = JsonAttributeVisitor::with_data(CustomLayerTracedData::default());
    v.record_bool(b("b"), true);
    v.record_u64(b("u"), 7);
    v.record_i64(b("i"), -7);
    v.record_float(b("f"), b("1.5"));
    v.record_error(b("e"), b("boom"));
    v.record_debug(b("d"), b("Thing { x: 1 }"));
    let d = v.into_data();
    assert_eq!(d.get(b"b"), Some(&JsonValue::Bool(true)));
    assert_eq!(d.get(b"u"), Some(&JsonValue::UInt(7)));
    assert_eq!(d.get(b"i"), Some(&JsonValue::Int(-7)));
    assert_eq!(d.get(b"f"), Some(&JsonValue::Float(b("1.5"))));
    assert_eq!(d.get(b"e"), Some(&JsonValue::Str(b("boom"))));
    assert_eq!(d.get(b"d"), Some(&JsonValue::Str(b("Thing { x: 1 }"))));
}

#[test]
fn sentinel_string_round_trip() {
    let mut v = JsonAttributeVisitor::with_data(CustomLayerTracedData::default());
    let mut payload = special_json_prefix();
    payload.extend_from_slice(b"{\"a\":1}");
    v.record_str(b("x"), &payload);
    let d = v.into_data();
    let direct = parse_json(b"{\"a\":1}").unwrap();
    assert_eq!(d.get(b"x"), Some(&direct));
    assert_eq!(d.get(b"x"), Some(&JsonValue::Obj(vec![(b("a"), JsonValue::UInt(1))])));
}

#[test]
fn sentinel_string_bad_payload_stays_verbatim() {
    let mut v = JsonAttributeVisitor::with_data(CustomLayerTracedData::default());
    let raw = format!("{}not json", text(special_json_prefix()));
    v.record_str(b("x"), raw.as_bytes());
    let d = v.into_data();
    assert_eq!(d.get(b"x"), Some(&JsonValue::Str(b(&raw))));
}

#[test]
fn plain_string_is_recorded_unchanged() {
    let mut v = JsonAttributeVisitor::with_data(CustomLayerTracedData::default());
    v.record_str(b("x"), b"hello");
    let d = v.into_data();
    assert_eq!(d.get(b"x"), Some(&JsonValue::Str(b("hello"))));
}

#[test]
fn sentinel_encode_prefixes_payload() {
    let s = sentinel_encode(b"{\"n\":2}");
    assert_eq!(text(s), "!custom_layer_tracing_json!{\"n\":2}");
}

#[test]
fn new_span_records_target_and_name_first() {
    let layer = CustomJsonLayer::default();
    let mut v = layer.on_new_span(b("my::module"), b("my_span"));
    v.record_u64(b("n"), 1);
    let d = v.into_data();
    let entries = d.entries();
    assert_eq!(entries[0].0, b("target"));
    assert_eq!(entries[0].1, JsonValue::Str(b("my::module")));
    assert_eq!(entries[1].0, b("name"));
    assert_eq!(entries[1].1, JsonValue::Str(b("my_span")));
    assert_eq!(entries[2].0, b("n"));
}

#[test]
fn format_level_names() {
    assert_eq!(format_level(&Level::Trace), "TRACE");
    assert_eq!(format_level(&Level::Debug), "DEBUG");
    assert_eq!(format_level(&Level::Info), "INFO");
    assert_eq!(format_level(&Level::Warn), "WARN");
    assert_eq!(format_level(&Level::Error), "ERROR");
}

fn span_record(layer: &CustomJsonLayer, target: &str, name: &str) -> CustomLayerTracedData {
    layer.on_new_span(b(target), b(name)).into_data()
}

#[test]
fn event_line_fixed_field_order() {
    let layer = CustomJsonLayer::default();
    let mut fields = CustomLayerTracedData::default();
    fields.insert(b("message"), JsonValue::Str(b("hi")));
    let mut scope = ScopeSerializer::absent();
    let line = layer.on_event(
        b("2021-04-21T01:02:03.000000001Z"),
        Level::Info,
        b("my::mod"),
        &fields,
        None,
        &mut scope,
    );
    assert_eq!(
        text(line),
        "{\"timestamp\":\"2021-04-21T01:02:03.000000001Z\",\"level\":\"INFO\",\
         \"target\":\"my::mod\",\"fields\":{\"message\":\"hi\"}}\n"
    );
}

#[test]
fn event_line_ancestor_chain_root_first() {
    let layer = CustomJsonLayer::default();
    let root = span_record(&layer, "t", "root");
    let mid = span_record(&layer, "t", "mid");
    let leaf = span_record(&layer, "t", "leaf");
    let mut fields = CustomLayerTracedData::default();
    fields.insert(b("message"), JsonValue::Str(b("e")));
    let chain = vec![Some(root), Some(mid), Some(leaf.clone())];
    let mut scope = ScopeSerializer::new(chain);
    let line = layer.on_event(b("T"), Level::Warn, b("m"), &fields, Some(&leaf), &mut scope);
    assert_eq!(
        text(line),
        "{\"timestamp\":\"T\",\"level\":\"WARN\",\"target\":\"m\",\
         \"fields\":{\"message\":\"e\"},\
         \"span\":{\"target\":\"t\",\"name\":\"leaf\"},\
         \"spans\":[{\"target\":\"t\",\"name\":\"root\"},\
         {\"target\":\"t\",\"name\":\"mid\"},{\"target\":\"t\",\"name\":\"leaf\"}]}\n"
    );
}

#[test]
fn ancestor_without_record_is_skipped() {
    let layer = CustomJsonLayer::default();
    let root = span_record(&layer, "t", "root");
    let leaf = span_record(&layer, "t", "leaf");
    let chain = vec![Some(root), None, Some(leaf)];
    let mut scope = ScopeSerializer::new(chain);
    let spans = scope.serialize();
    assert_eq!(
        text(spans),
        "[{\"target\":\"t\",\"name\":\"root\"},{\"target\":\"t\",\"name\":\"leaf\"}]"
    );
}

#[test]
fn scope_serialization_consumes_exactly_once() {
    let layer = CustomJsonLayer::default();
    let root = span_record(&layer, "t", "root");
    let mut scope = ScopeSerializer::new(vec![Some(root)]);
    let first = scope.serialize();
    assert_eq!(text(first), "[{\"target\":\"t\",\"name\":\"root\"}]");
    let second = scope.serialize();
    assert_eq!(text(second), "[]");
}

#[test]
fn attribute_update_merges_into_existing_record() {
    let layer = CustomJsonLayer::default();
    let mut v = layer.on_new_span(b("t"), b("s"));
    v.record_u64(b("a"), 1);
    let stored = v.into_data();
    let mut v = layer.on_record(stored);
    v.record_u64(b("a"), 2);
    v.record_bool(b("late"), true);
    let d = v.into_data();
    let entries = d.entries();
    assert_eq!(entries.len(), 4);
    assert_eq!(entries[2].0, b("a"));
    assert_eq!(entries[2].1, JsonValue::UInt(2));
    assert_eq!(entries[3].0, b("late"));
}

#[test]
fn spans_present_even_when_leaf_has_no_record() {
    let layer = CustomJsonLayer::default();
    let root = span_record(&layer, "t", "root");
    let chain = vec![Some(root), None];
    let mut scope = ScopeSerializer::new(chain);
    let fields = CustomLayerTracedData::default();
    let line = layer.on_event(b("T"), Level::Error, b("m"), &fields, None, &mut scope);
    assert_eq!(
        text(line),
        "{\"timestamp\":\"T\",\"level\":\"ERROR\",\"target\":\"m\",\"fields\":{},\"spans\":[{\"target\":\"t\",\"name\":\"root\"}]}\n"
    );
}

#[test]
fn event_line_with_capture_time_is_wellformed() {
    let layer = CustomJsonLayer::default();
    let mut fields = CustomLayerTracedData::default();
    fields.insert(b("n"), JsonValue::UInt(3));
    let mut scope = ScopeSerializer::absent();
    let line = layer.on_event_now(Level::Debug, b("m"), &fields, None, &mut scope);
    let line = text(line);
    assert!(line.starts_with("{\"timestamp\":\""));
    assert!(line.ends_with("\",\"level\":\"DEBUG\",\"target\":\"m\",\"fields\":{\"n\":3}}\n"));
    let parsed: serde_json::Value = serde_json::from_str(line.trim_end()).unwrap();
    let ts = parsed["timestamp"].as_str().unwrap();
    assert_eq!(ts.len(), 30);
    assert_eq!(&ts[4..5], "-");
    assert_eq!(&ts[10..11], "T");
    assert_eq!(&ts[19..20], ".");
    assert_eq!(&ts[29..30], "Z");
    assert!(ts[20..29].bytes().all(|b| b.is_ascii_digit()));
}
