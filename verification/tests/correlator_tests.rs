use shvapp::correlator::{CallError, CallEvent, CallStep, RpcCall, find_claimed,
                         DEFAULT_RPC_CALL_TIMEOUT_MS};
use shvapp::heartbeat::{ping_answered, ping_receive_timeout_ms, ping_request,
                        ping_wait_abandoned};
use shvapp::message::Message;

fn response(id: i64) -> Message {
    Message::create_request(id, "", "x", None).prepare_response().unwrap()
}

#[test]
fn open_requires_a_request() {
    let rq = Message::create_request(7, "a/b", "get", None);
    let call = RpcCall::open(&rq, DEFAULT_RPC_CALL_TIMEOUT_MS).unwrap();
    assert_eq!(call.request_id, 7);
    assert_eq!(call.timeout_ms, 5000);
    let resp = response(7);
    assert_eq!(RpcCall::open(&resp, 5000), Err(CallError::NotRequest));
}

#[test]
fn claims_only_matching_request_id() {
    let rq = Message::create_request(7, "", "get", None);
    let call = RpcCall::open(&rq, 5000).unwrap();
    assert!(call.claims(&response(7)));
    assert!(!call.claims(&response(8)));
}

#[test]
fn step_resolves_on_own_id_only() {
    let rq = Message::create_request(7, "", "get", None);
    let call = RpcCall::open(&rq, 5000).unwrap();
    match call.step(CallEvent::Frame(response(8))) {
        CallStep::Pending => {},
        other => panic!("unrelated frame was not ignored: {:?}", other),
    }
    match call.step(CallEvent::Frame(response(7))) {
        CallStep::Resolved(m) => assert_eq!(m.request_id, Some(7)),
        other => panic!("matching frame not claimed: {:?}", other),
    }
}

#[test]
fn step_times_out_exactly_at_deadline() {
    let rq = Message::create_request(7, "", "get", None);
    let call = RpcCall::open(&rq, 5000).unwrap();
    match call.step(CallEvent::Elapsed(4999)) {
        CallStep::Pending => {},
        other => panic!("timed out early: {:?}", other),
    }
    match call.step(CallEvent::Elapsed(5000)) {
        CallStep::TimedOut(CallError::Timeout { request_id, timeout_ms }) => {
            assert_eq!(request_id, 7);
            assert_eq!(timeout_ms, 5000);
        },
        other => panic!("did not time out at deadline: {:?}", other),
    }
}

#[test]
fn concurrent_calls_each_claim_their_own_response() {
    let frames = vec![response(2), response(1), response(3)];
    let call1 = RpcCall { request_id: 1, timeout_ms: 5000 };
    let call2 = RpcCall { request_id: 2, timeout_ms: 5000 };
    let call9 = RpcCall { request_id: 9, timeout_ms: 5000 };
    assert_eq!(find_claimed(&call1, &frames), Some(1));
    assert_eq!(find_claimed(&call2, &frames), Some(0));
    assert_eq!(find_claimed(&call9, &frames), None);
}

#[test]
fn ping_request_shape() {
    let ping = ping_request(42);
    assert_eq!(ping.path.as_deref(), Some(".broker/app"));
    assert_eq!(ping.method.as_deref(), Some("ping"));
    assert_eq!(ping.request_id, Some(42));
    assert!(ping.params.is_none());
}

#[test]
fn ping_answered_by_matching_response_only() {
    let ping = ping_request(42);
    assert!(ping_answered(&ping, &response(42)));
    assert!(!ping_answered(&ping, &response(43)));
    // a request with the same id is not an answer
    assert!(!ping_answered(&ping, &Message::create_request(42, "", "y", None)));
}

#[test]
fn ping_wait_decisions() {
    assert_eq!(ping_receive_timeout_ms(60_000), 120_000);
    assert!(!ping_wait_abandoned(60_000, 60_000));
    assert!(ping_wait_abandoned(60_001, 60_000));
}
