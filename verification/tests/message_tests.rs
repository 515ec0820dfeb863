use shvapp::message::{Message, RpcError};
use shvapp::value::RpcValue;

#[test]
fn create_request_fields() {
    let rq = Message::create_request(5, "a/b", "get", Some(RpcValue::Int(1)));
    assert_eq!(rq.request_id, Some(5));
    assert_eq!(rq.path.as_deref(), Some("a/b"));
    assert_eq!(rq.method.as_deref(), Some("get"));
    assert!(matches!(rq.params, Some(RpcValue::Int(1))));
    assert!(rq.is_request());
    assert!(!rq.is_response());
}

#[test]
fn prepare_response_only_for_requests() {
    let rq = Message::create_request(5, "", "get", None);
    let resp = rq.prepare_response().unwrap();
    assert_eq!(resp.request_id, Some(5));
    assert!(resp.method.is_none());
    assert!(resp.is_response());
    assert!(resp.prepare_response().is_none());
}

#[test]
fn set_result_and_error() {
    let rq = Message::create_request(5, "", "get", None);
    let mut resp = rq.prepare_response().unwrap();
    resp.set_result(RpcValue::UInt(9));
    assert!(matches!(resp.result, Some(RpcValue::UInt(9))));
    resp.set_error(RpcError::new(8, "boom".to_string()));
    let e = resp.error.unwrap();
    assert_eq!(e.code, 8);
    assert_eq!(e.message, "boom");
}

#[test]
fn accessors_mirror_fields() {
    let rq = Message::create_request(5, "p", "m", None);
    assert_eq!(rq.request_id(), Some(5));
    assert_eq!(rq.shv_path().unwrap(), "p");
    assert_eq!(rq.method().unwrap(), "m");
    assert!(rq.params().is_none());
    assert!(rq.result().is_none());
    assert!(rq.error().is_none());
}
