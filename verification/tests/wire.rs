use rustwright::json::Json;
use rustwright::wire::{decode_wire_json, decode_wire_value};
use rustwright::Failure;

fn decoded(text: &str) -> String {
    match decode_wire_json(text) {
        Ok(json) => json.print(),
        Err(failure) => panic!("{:?}", failure),
    }
}

#[test]
fn values_are_parsed_and_printed() {
    let json = Json::parse(" { \"b\" : [ 1, -2, 2.5, true, null ], \"a\" : \"x\\ny\" } ").unwrap();
    assert_eq!(json.print(), "{\"a\":\"x\\ny\",\"b\":[1,-2,2.5,true,null]}");
    assert!(matches!(json.get("a"), Some(Json::Text(text)) if text == "x\ny"));
    assert!(json.get("c").is_none());
    assert!(Json::Null.get("a").is_none());
}

#[test]
fn trees_go_both_ways() {
    let value: serde_json::Value = serde_json::from_str("{\"k\":[{\"z\":1.5e300,\"a\":{}}],\"e\":[]}").unwrap();
    let json = Json::from_value(value.clone());
    assert_eq!(json.to_value(), value);
    assert_eq!(Json::number(18_446_744_073_709_551_615).to_value(), serde_json::Value::from(u64::MAX));
}

#[test]
fn texts_that_are_no_json_fail() {
    match Json::parse("{") {
        Err(Failure::Json(error)) => assert!(error.is_eof()),
        other => panic!("{:?}", other),
    }
    let expected = serde_json::from_slice::<serde_json::Value>(b"[1,]").unwrap_err().to_string();
    assert_eq!(Json::parse_bytes(b"[1,]").unwrap_err(), expected);
    assert_eq!(Json::parse_bytes(b"[1]").unwrap().print(), "[1]");
}

#[test]
fn values_agree_like_json() {
    let agree = |a: &str, b: &str| Json::parse(a).unwrap().agrees_with(&Json::parse(b).unwrap());
    assert!(agree("{\"a\":1,\"b\":[2]}", "{\"b\":[2],\"a\":1}"));
    assert!(agree("0.0", "-0.0"));
    assert!(agree("1e2", "100.0"));
    assert!(!agree("1", "1.0"));
    assert!(!agree("1", "-1"));
    assert!(!agree("[1,2]", "[1]"));
    assert!(!agree("{\"a\":1}", "{\"b\":1}"));
    assert!(!agree("{\"a\":1}", "{\"a\":2}"));
    assert!(!agree("\"1\"", "1"));
    assert!(!agree("true", "false"));
    assert!(agree("null", "null"));
    assert!(!agree("null", "[]"));
}

#[test]
fn plain_values_are_left_alone() {
    assert_eq!(decoded("{\"a\":[1,{\"b\":null}],\"c\":\"d\"}"), "{\"a\":[1,{\"b\":null}],\"c\":\"d\"}");
    assert_eq!(decoded("3"), "3");
}

#[test]
fn markers_without_a_value_become_null() {
    assert_eq!(decoded("{\"__rustwright_cdp_undefined__\":true}"), "null");
    assert_eq!(decoded("{\"__rustwright_cdp_symbol__\":\"s\"}"), "null");
    assert_eq!(decoded("{\"__rustwright_cdp_function__\":\"f\"}"), "null");
    assert_eq!(decoded("[{\"value\":true},{\"__rustwright_cdp_ref__\":1}]"), "[{\"value\":true},null]");
    assert_eq!(
        decoded("{\"__rustwright_cdp_date__\":\"d\",\"__rustwright_cdp_ref__\":1}"),
        "null"
    );
}

#[test]
fn payload_markers_become_their_payload() {
    assert_eq!(decoded("{\"__rustwright_cdp_date__\":\"2024-01-01T00:00:00.000Z\"}"), "\"2024-01-01T00:00:00.000Z\"");
    assert_eq!(decoded("{\"__rustwright_cdp_url__\":\"https://example.com/\"}"), "\"https://example.com/\"");
    assert_eq!(
        decoded("{\"__rustwright_cdp_url__\":\"u\",\"__rustwright_cdp_date__\":\"d\"}"),
        "\"d\""
    );
    assert_eq!(
        decoded("{\"__rustwright_cdp_date__\":{\"__rustwright_cdp_undefined__\":1}}"),
        "{\"__rustwright_cdp_undefined__\":1}"
    );
}

#[test]
fn container_markers_are_unwrapped_and_decoded() {
    assert_eq!(
        decoded("{\"__rustwright_cdp_array__\":1,\"items\":[{\"__rustwright_cdp_undefined__\":1},2]}"),
        "[null,2]"
    );
    assert_eq!(decoded("{\"__rustwright_cdp_array__\":1}"), "[]");
    assert_eq!(
        decoded("{\"__rustwright_cdp_object__\":1,\"entries\":{\"u\":{\"__rustwright_cdp_url__\":\"x\"}}}"),
        "{\"u\":\"x\"}"
    );
    assert_eq!(decoded("{\"__rustwright_cdp_object__\":1}"), "{}");
    assert_eq!(
        decoded("{\"__rustwright_cdp_array__\":1,\"__rustwright_cdp_object__\":2,\"items\":[1],\"entries\":{}}"),
        "[1]"
    );
}

#[test]
fn decoding_again_changes_nothing() {
    let text = "{\"a\":{\"__rustwright_cdp_array__\":1,\"items\":[{\"b\":{\"__rustwright_cdp_ref__\":2}}]}}";
    let once = decode_wire_value(Json::parse(text).unwrap()).print();
    assert_eq!(once, "{\"a\":[{\"b\":null}]}");
    assert_eq!(decode_wire_value(Json::parse(&once).unwrap()).print(), once);
}

#[test]
fn wire_texts_must_be_json() {
    assert!(matches!(decode_wire_json("undefined"), Err(Failure::Json(_))));
}
