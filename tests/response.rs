use choko::envelope::{build_response, encode_response, error_response};
use choko::{Response, StringMap};
use serde_json::Value;

fn json(text: &str) -> Value {
    serde_json::from_str(text).unwrap()
}

#[test]
fn response_json_defaults_to_200() {
    let resp = Response::json(json("{\"ok\": true}"));
    assert_eq!(resp.status_code, 200);
    assert_eq!(resp.body, json("{\"ok\": true}"));
    assert!(resp.headers.is_empty());
}

#[test]
fn response_with_status() {
    let resp = Response::json(Value::Null).with_status(404);
    assert_eq!(resp.status_code, 404);
}

#[test]
fn response_with_header() {
    let resp = Response::json(Value::Null)
        .with_header("X-Custom", "value1")
        .with_header("X-Other", "value2");
    assert_eq!(resp.headers.get("X-Custom").unwrap(), "value1");
    assert_eq!(resp.headers.get("X-Other").unwrap(), "value2");
}

#[test]
fn header_names_are_lowered_and_bad_headers_dropped() {
    let resp = Response::json(Value::Null)
        .with_header("X-Custom", "v")
        .with_header("bad name", "v")
        .with_header("x-ctrl", "a\u{1}b")
        .with_header("x-tab", "a\tb")
        .with_header("x-utf8", "é")
        .with_header("nämé", "v");
    let out = build_response(&resp);
    assert_eq!(out.headers.get("x-custom").unwrap(), "v");
    assert!(out.headers.get("X-Custom").is_none());
    assert!(out.headers.get("bad name").is_none());
    assert!(out.headers.get("x-ctrl").is_none());
    assert_eq!(out.headers.get("x-tab").unwrap(), "a\tb");
    assert_eq!(out.headers.get("x-utf8").unwrap(), "é");
    assert!(out.headers.get("nämé").is_none());
    assert_eq!(out.body.as_deref(), Some("null"));
}

#[test]
fn response_header_overrides_content_type() {
    let resp = Response::json(Value::from("hi")).with_header("Content-Type", "text/plain");
    let out = build_response(&resp);
    assert_eq!(out.headers.get("content-type").unwrap(), "text/plain");
    assert_eq!(out.body.as_deref(), Some("\"hi\""));
}

#[test]
fn encode_keeps_status_and_body_text() {
    let out = encode_response(418, &StringMap::new(), "[1]".to_string());
    assert_eq!(out.status_code, 418);
    assert_eq!(out.body.as_deref(), Some("[1]"));
    assert_eq!(out.headers.get("content-type").unwrap(), "application/json");
}

#[test]
fn error_envelope_body() {
    let out = error_response(404, "Not Found");
    assert_eq!(out.status_code, 404);
    assert_eq!(out.body.as_deref(), Some("{\"error\":\"Not Found\"}"));
}

#[test]
fn string_map_later_value_wins() {
    let mut m = StringMap::new();
    assert!(m.is_empty());
    m.insert("a".to_string(), "1".to_string());
    m.insert("b".to_string(), "2".to_string());
    m.insert("a".to_string(), "3".to_string());
    assert_eq!(m.get("a").unwrap(), "3");
    assert_eq!(m.get("b").unwrap(), "2");
    assert!(m.get("c").is_none());
    assert_eq!(m.num_entries(), 3);
    assert_eq!(m.key_at(2), "a");
    assert_eq!(m.value_at(0), "1");
}
