use jsonrpc_http_client::classify::{Classified, HttpOutcome};
use jsonrpc_http_client::dispatch::{
    CallDescriptor, Dispatcher, Submitted, DEFAULT_WINDOW,
};
use jsonrpc_http_client::encode::encode_request;
use jsonrpc_http_client::errors::RpcError;

fn call(method: &str) -> CallDescriptor {
    CallDescriptor {
        method: method.to_string(),
        params: "[]".to_string(),
    }
}

fn ok_response() -> HttpOutcome {
    HttpOutcome::Response {
        status: 200,
        body: b"{\"jsonrpc\":\"2.0\",\"result\":1,\"id\":1}".to_vec(),
    }
}

#[test]
fn holds_concurrency_window_under_burst() {
    // Twenty descriptors against the default window of eight: never more
    // than eight in flight at once.
    let mut d = Dispatcher::new(DEFAULT_WINDOW);
    let mut issued = 0;
    let mut queued = 0;
    for i in 0..20 {
        match d.submit(call(&format!("m{}", i))) {
            Submitted::Issued(_) => issued += 1,
            Submitted::Queued(_) => queued += 1,
            Submitted::Rejected => panic!("open queue must accept"),
        }
        assert!(d.in_flight_count() <= 8);
    }
    assert_eq!(issued, 8);
    assert_eq!(queued, 12);
    assert_eq!(d.in_flight_count(), 8);
    assert_eq!(d.pending_count(), 12);
}

#[test]
fn frees_slot_and_issues_next_queued_call() {
    let mut d = Dispatcher::new(2);
    let first = match d.submit(call("a")) {
        Submitted::Issued(c) => c,
        _ => panic!("first call must issue"),
    };
    let _second = match d.submit(call("b")) {
        Submitted::Issued(c) => c,
        _ => panic!("second call must issue"),
    };
    let third_id = match d.submit(call("c")) {
        Submitted::Queued(id) => id,
        _ => panic!("third call must queue behind the full window"),
    };
    // Completion order is not issuance order: resolve the first exchange.
    let step = d.resolve(first.id, ok_response()).expect("in flight");
    let next = step.next.expect("a queued call takes the freed slot");
    assert_eq!(next.id, third_id);
    assert_eq!(next.body, encode_request("c", "[]", third_id));
    assert_eq!(d.in_flight_count(), 2);
    assert_eq!(d.pending_count(), 0);
}

#[test]
fn resolves_each_call_exactly_once() {
    let mut d = Dispatcher::new(4);
    let c = match d.submit(call("a")) {
        Submitted::Issued(c) => c,
        _ => panic!("must issue"),
    };
    assert!(d.resolve(c.id, ok_response()).is_some());
    // A second resolution of the same identifier is refused.
    assert!(d.resolve(c.id, ok_response()).is_none());
    // An identifier that was never issued is refused as well.
    assert!(d.resolve(999, ok_response()).is_none());
}

#[test]
fn assigns_distinct_identifiers() {
    let mut d = Dispatcher::new(2);
    let mut ids = Vec::new();
    for i in 0..6 {
        match d.submit(call(&format!("m{}", i))) {
            Submitted::Issued(c) => ids.push(c.id),
            Submitted::Queued(id) => ids.push(id),
            Submitted::Rejected => panic!("open queue must accept"),
        }
    }
    let mut deduped = ids.clone();
    deduped.sort();
    deduped.dedup();
    assert_eq!(deduped.len(), ids.len());
}

#[test]
fn issued_body_is_the_encoded_envelope() {
    let mut d = Dispatcher::new(1);
    let c = match d.submit(CallDescriptor {
        method: "hello".to_string(),
        params: "[\"http\"]".to_string(),
    }) {
        Submitted::Issued(c) => c,
        _ => panic!("must issue"),
    };
    assert_eq!(c.body, encode_request("hello", "[\"http\"]", c.id));
}

#[test]
fn per_call_failure_never_stops_the_dispatcher() {
    // One failed exchange resolves only its own call; later descriptors
    // are served as before.
    let mut d = Dispatcher::new(2);
    let a = match d.submit(call("a")) {
        Submitted::Issued(c) => c,
        _ => panic!("must issue"),
    };
    let step = d
        .resolve(a.id, HttpOutcome::ConnectionFailed("refused".to_string()))
        .expect("in flight");
    assert!(matches!(
        step.verdict,
        Classified::Done(Err(RpcError::Transport(_)))
    ));
    let b = match d.submit(call("b")) {
        Submitted::Issued(c) => c,
        _ => panic!("dispatcher must keep serving"),
    };
    let step = d.resolve(b.id, ok_response()).expect("in flight");
    assert!(matches!(step.verdict, Classified::Done(Ok(_))));
}

#[test]
fn dispatcher_survives_abandoned_caller() {
    // Dropping interest in a result is the caller's business: the verdict
    // for an abandoned call is produced like any other, and the calls
    // around it are untouched.
    let mut d = Dispatcher::new(2);
    let abandoned = match d.submit(call("a")) {
        Submitted::Issued(c) => c,
        _ => panic!("must issue"),
    };
    let kept = match d.submit(call("b")) {
        Submitted::Issued(c) => c,
        _ => panic!("must issue"),
    };
    // The abandoned call still resolves exactly once...
    assert!(d.resolve(abandoned.id, ok_response()).is_some());
    // ...and the neighbouring call is unaffected.
    let step = d.resolve(kept.id, ok_response()).expect("in flight");
    assert!(matches!(step.verdict, Classified::Done(Ok(_))));
    let _ = match d.submit(call("c")) {
        Submitted::Issued(c) => c,
        _ => panic!("dispatcher must keep serving"),
    };
}

#[test]
fn closed_queue_accepts_nothing_and_drains() {
    let mut d = Dispatcher::new(2);
    let a = match d.submit(call("a")) {
        Submitted::Issued(c) => c,
        _ => panic!("must issue"),
    };
    d.close();
    assert!(matches!(d.submit(call("b")), Submitted::Rejected));
    assert!(!d.is_done());
    assert!(d.resolve(a.id, ok_response()).is_some());
    assert!(d.is_done());
}
