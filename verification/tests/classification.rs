use jsonrpc_http_client::classify::{classify_outcome, Classified, HttpOutcome};
use jsonrpc_http_client::errors::{RpcError, TransportFailure};

fn response(status: u16, body: &[u8]) -> HttpOutcome {
    HttpOutcome::Response {
        status,
        body: body.to_vec(),
    }
}

#[test]
fn delivers_success_value_verbatim() {
    let verdict = classify_outcome(response(
        200,
        b"{\"jsonrpc\":\"2.0\",\"result\":\"hello http\",\"id\":1}",
    ));
    match verdict {
        Classified::Done(Ok(value)) => {
            assert_eq!(value, serde_json::Value::String("hello http".to_string()));
        }
        other => panic!("expected success, got {:?}", other),
    }
}

#[test]
fn maps_server_error_to_application_error() {
    let verdict = classify_outcome(response(
        200,
        b"{\"jsonrpc\":\"2.0\",\"error\":{\"code\":-34,\"message\":\"Server error\"},\"id\":1}",
    ));
    match verdict {
        Classified::Done(Err(RpcError::Application {
            code,
            message,
            data,
        })) => {
            assert_eq!(code, -34);
            assert_eq!(message, "Server error");
            assert_eq!(data, None);
        }
        other => panic!("expected an application error, got {:?}", other),
    }
}

#[test]
fn carries_error_data_verbatim() {
    let verdict = classify_outcome(response(
        200,
        b"{\"jsonrpc\":\"2.0\",\"error\":{\"code\":-34,\"message\":\"Server error\",\"data\":[1,2]},\"id\":1}",
    ));
    match verdict {
        Classified::Done(Err(RpcError::Application { data, .. })) => {
            let expected = serde_json::Value::Array(vec![
                serde_json::Value::from(1),
                serde_json::Value::from(2),
            ]);
            assert_eq!(data, Some(expected));
        }
        other => panic!("expected an application error, got {:?}", other),
    }
}

#[test]
fn classifies_connection_failure_as_transport_error() {
    let verdict = classify_outcome(HttpOutcome::ConnectionFailed(
        "connection refused".to_string(),
    ));
    // A failed connection is a transport error — never a parse or
    // application error.
    match verdict {
        Classified::Done(Err(RpcError::Transport(TransportFailure::ConnectionFailed(cause)))) => {
            assert_eq!(cause, "connection refused");
        }
        other => panic!("expected a transport error, got {:?}", other),
    }
}

#[test]
fn classifies_failure_status_as_transport_error() {
    let verdict = classify_outcome(response(500, b"{\"jsonrpc\":\"2.0\",\"result\":1,\"id\":1}"));
    // The body of a non-success response is not parsed.
    assert_eq!(
        verdict,
        Classified::Done(Err(RpcError::Transport(TransportFailure::HttpStatus(500))))
    );
    let verdict = classify_outcome(response(404, b""));
    assert_eq!(
        verdict,
        Classified::Done(Err(RpcError::Transport(TransportFailure::HttpStatus(404))))
    );
}

#[test]
fn boundary_statuses_count_as_success() {
    let ok = classify_outcome(response(299, b"{\"jsonrpc\":\"2.0\",\"result\":5,\"id\":1}"));
    assert!(matches!(ok, Classified::Done(Ok(_))));
    let not_ok = classify_outcome(response(300, b"{\"jsonrpc\":\"2.0\",\"result\":5,\"id\":1}"));
    assert_eq!(
        not_ok,
        Classified::Done(Err(RpcError::Transport(TransportFailure::HttpStatus(300))))
    );
}

#[test]
fn classifies_garbage_body_as_parse_error() {
    let verdict = classify_outcome(response(200, b"it works"));
    match verdict {
        Classified::Done(Err(RpcError::Parse { text, diagnostic })) => {
            assert_eq!(text, "it works");
            assert!(!diagnostic.is_empty());
            // The diagnostic is the parser's own message, not the body.
            assert_ne!(diagnostic, text);
        }
        other => panic!("expected a parse error, got {:?}", other),
    }
}

#[test]
fn replaces_invalid_utf8_in_parse_error_text() {
    let verdict = classify_outcome(response(200, &[0xff, 0xfe, b'x']));
    match verdict {
        Classified::Done(Err(RpcError::Parse { text, .. })) => {
            // The raw text is the body decoded with replacement, not the
            // bytes themselves.
            assert_eq!(text, "\u{fffd}\u{fffd}x");
        }
        other => panic!("expected a parse error, got {:?}", other),
    }
}

#[test]
fn rejects_batch_envelope_as_protocol_violation() {
    let verdict = classify_outcome(response(
        200,
        b"[{\"jsonrpc\":\"2.0\",\"result\":1,\"id\":1}]",
    ));
    assert_eq!(verdict, Classified::ProtocolViolation);
}

#[test]
fn classifies_empty_body_as_parse_error() {
    let verdict = classify_outcome(response(200, b""));
    match verdict {
        Classified::Done(Err(RpcError::Parse { text, diagnostic })) => {
            assert_eq!(text, "");
            assert!(!diagnostic.is_empty());
        }
        other => panic!("expected a parse error, got {:?}", other),
    }
}

#[test]
fn rejects_empty_batch_envelope_as_protocol_violation() {
    let verdict = classify_outcome(response(200, b"[]"));
    assert_eq!(verdict, Classified::ProtocolViolation);
}

#[test]
fn classifies_wrong_shape_as_parse_error() {
    let verdict = classify_outcome(response(200, b"{\"unexpected\":true}"));
    assert!(matches!(
        verdict,
        Classified::Done(Err(RpcError::Parse { .. }))
    ));
}
