use jsonrpc_http_client::encode::encode_request;

#[test]
fn encodes_canonical_envelope() {
    let body = encode_request("hello", "[\"http\"]", 1);
    assert_eq!(
        body,
        b"{\"jsonrpc\":\"2.0\",\"method\":\"hello\",\"params\":[\"http\"],\"id\":1}".to_vec()
    );
}

#[test]
fn encodes_empty_method_and_null_params() {
    let body = encode_request("", "null", 7);
    assert_eq!(
        body,
        b"{\"jsonrpc\":\"2.0\",\"method\":\"\",\"params\":null,\"id\":7}".to_vec()
    );
}

#[test]
fn escapes_method_name() {
    let body = encode_request("a\"b\\c\nd\te\u{01}f", "[]", 2);
    let expected = format!(
        "{}{}{}",
        "{\"jsonrpc\":\"2.0\",\"method\":\"",
        "a\\\"b\\\\c\\nd\\te\\u0001f",
        "\",\"params\":[],\"id\":2}"
    );
    assert_eq!(body, expected.into_bytes());
}

#[test]
fn escapes_all_control_bytes_to_valid_json() {
    // Every control character must leave the method string parseable again.
    let method: String = (0u8..0x20u8).map(|b| b as char).collect();
    let body = encode_request(&method, "[]", 3);
    let text = String::from_utf8(body).expect("envelope must be UTF-8");
    let value: serde_json::Value = serde_json::from_str(&text).expect("envelope must parse");
    assert_eq!(value["method"].as_str().unwrap(), method);
    assert_eq!(value["jsonrpc"].as_str().unwrap(), "2.0");
    assert_eq!(value["id"].as_i64().unwrap(), 3);
}

#[test]
fn keeps_multibyte_method_names() {
    let body = encode_request("héllo", "[]", 4);
    let text = String::from_utf8(body).expect("envelope must be UTF-8");
    let value: serde_json::Value = serde_json::from_str(&text).expect("envelope must parse");
    assert_eq!(value["method"].as_str().unwrap(), "héllo");
}

#[test]
fn encodes_largest_identifier() {
    let body = encode_request("m", "[]", u64::MAX);
    let text = String::from_utf8(body).unwrap();
    assert!(text.ends_with(",\"id\":18446744073709551615}"));
}

#[test]
fn round_trips_through_host_parser() {
    let body = encode_request("hello", "[\"http\"]", 1);
    let parsed: jsonrpc_core::Request =
        serde_json::from_slice(&body).expect("request envelope must parse");
    match parsed {
        jsonrpc_core::Request::Single(jsonrpc_core::Call::MethodCall(call)) => {
            assert_eq!(call.method, "hello");
            assert_eq!(call.jsonrpc, Some(jsonrpc_core::Version::V2));
            assert_eq!(call.id, jsonrpc_core::Id::Num(1));
        }
        other => panic!("expected a single method call, got {:?}", other),
    }
}
