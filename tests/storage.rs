use serde_json::Value;
use techclass::error::IpcError;
use techclass::path::AbsPath;
use techclass::storage::{decode_content, encode_content, load_plan, LoadAction};

fn round_trip(v: &Value) -> Value {
    let bytes = encode_content(v).unwrap();
    let text = String::from_utf8(bytes).unwrap();
    decode_content(&text).unwrap().unwrap()
}

#[test]
fn stored_values_come_back_equal() {
    let samples = [
        "null",
        "true",
        "false",
        "0",
        "-17",
        "2.5",
        "\"text with \\\"quotes\\\" and \\u00e9\"",
        "[]",
        "{}",
        "[1, [2, [3, null]], {\"k\": false}]",
        "{\"name\": \"pluginA\", \"size\": 12, \"nested\": {\"list\": [1.25, \"x\", null, true]}}",
    ];
    for s in samples {
        let v: Value = serde_json::from_str(s).unwrap();
        assert_eq!(round_trip(&v), v, "{}", s);
    }
}

#[test]
fn encoded_bytes_are_json_text() {
    let v: Value = serde_json::from_str("{\"a\": [1, 2]}").unwrap();
    assert_eq!(encode_content(&v).unwrap(), b"{\"a\":[1,2]}".to_vec());
}

#[test]
fn nothing_stored_reads_as_nothing_again_and_again() {
    assert!(decode_content("").unwrap().is_none());
    assert!(decode_content("").unwrap().is_none());
}

#[test]
fn stored_text_is_parsed() {
    let v = decode_content("{\"x\": 1}").unwrap().unwrap();
    assert_eq!(v, serde_json::from_str::<Value>("{\"x\":1}").unwrap());
}

#[test]
fn malformed_text_is_a_json_error() {
    match decode_content("{not json") {
        Err(IpcError::Json(m)) => assert!(!m.is_empty()),
        other => panic!("expected a JSON error, got {:?}", other),
    }
    assert!(matches!(decode_content("   "), Err(IpcError::Json(_))));
}

#[test]
fn loading_what_was_never_stored_creates_an_empty_file() {
    let file = AbsPath::parse("/data/config/pluginA/pluginA.config.json").unwrap();
    assert_eq!(
        load_plan(&file, false),
        LoadAction::CreateEmpty("/data/config/pluginA/pluginA.config.json".to_string())
    );
    assert_eq!(
        load_plan(&file, true),
        LoadAction::ReadText("/data/config/pluginA/pluginA.config.json".to_string())
    );
}

#[test]
fn encoding_always_succeeds() {
    let v: Value = serde_json::from_str("[{\"a\": {\"b\": [null, -0.0, 1e300]}}]").unwrap();
    assert!(encode_content(&v).is_ok());
}
