use shvapp::client::{ConnectionParams, PasswordType, Protocol, hello_request, login_request,
                     login_succeeded};
use shvapp::message::Message;
use shvapp::utils::{sha1_hex, sha1_password_hash};
use shvapp::value::RpcValue;

fn params() -> ConnectionParams {
    ConnectionParams::new("localhost", 3755, "alice", "secret")
}

#[test]
fn password_type_names() {
    assert_eq!(PasswordType::PLAIN.to_str(), "PLAIN");
    assert_eq!(PasswordType::SHA1.to_str(), "SHA1");
}

#[test]
fn new_params_defaults() {
    let p = params();
    assert_eq!(p.host, "localhost");
    assert_eq!(p.port, 3755);
    assert_eq!(p.user, "alice");
    assert_eq!(p.password, "secret");
    assert!(p.password_type == PasswordType::PLAIN);
    assert!(p.protocol == Protocol::ChainPack);
    assert_eq!(p.heartbeat_interval, Some(60));
    assert_eq!(p.device_id, "");
    assert_eq!(p.mount_point, "");
}

#[test]
fn new_params_hashed_password_detected() {
    let hashed = "0123456789abcdef0123456789abcdef01234567";
    let p = ConnectionParams::new("h", 1, "u", hashed);
    assert!(p.password_type == PasswordType::SHA1);
}

#[test]
fn hashed_form_is_judged_by_byte_length() {
    // 40 non-ASCII characters are 80 bytes: not the hashed form.
    let long = "\u{e9}".repeat(40);
    let p = ConnectionParams::new("h", 1, "u", &long);
    assert!(p.password_type == PasswordType::PLAIN);
    let hello_result = RpcValue::Mapping(vec![(
        "nonce".to_string(),
        RpcValue::Str("12345".to_string()),
    )]);
    let up = p.upgraded_with_nonce(Some(&hello_result));
    assert!(up.password_type == PasswordType::SHA1);
    assert_eq!(up.password.len(), 40);
}

#[test]
fn sha1_hex_known_vector() {
    // SHA-1("abc") from the algorithm's published test vectors.
    let abc: Vec<u8> = vec![b'a', b'b', b'c'];
    assert_eq!(sha1_hex(&abc), "a9993e364706816aba3e25717850c26c9cd0d89d");
    assert_eq!(sha1_hex(&Vec::new()), "da39a3ee5e6b4b0d3255bfef95601890afd80709");
}

#[test]
fn login_hash_deterministic_and_not_plaintext() {
    let pw: Vec<u8> = b"secret".to_vec();
    let nonce: Vec<u8> = b"12345".to_vec();
    let h1 = sha1_password_hash(&pw, &nonce);
    let h2 = sha1_password_hash(&pw, &nonce);
    assert_eq!(h1, h2);
    assert_eq!(h1.len(), 40);
    assert_ne!(h1.as_bytes(), b"secret");
    let other = sha1_password_hash(&pw, &b"67890".to_vec());
    assert_ne!(h1, other);
}

#[test]
fn upgrade_uses_nonce_and_marks_hashed() {
    let p = params();
    let hello_result = RpcValue::Mapping(vec![(
        "nonce".to_string(),
        RpcValue::Str("12345".to_string()),
    )]);
    let up = p.upgraded_with_nonce(Some(&hello_result));
    assert!(up.password_type == PasswordType::SHA1);
    assert_eq!(up.password, sha1_password_hash(&b"secret".to_vec(), &b"12345".to_vec()));
    assert_eq!(up.user, "alice");
}

#[test]
fn upgrade_skipped_for_hashed_password() {
    let hashed = "0123456789abcdef0123456789abcdef01234567";
    let p = ConnectionParams::new("h", 1, "u", hashed);
    let hello_result = RpcValue::Mapping(vec![(
        "nonce".to_string(),
        RpcValue::Str("12345".to_string()),
    )]);
    let up = p.upgraded_with_nonce(Some(&hello_result));
    assert_eq!(up.password, hashed);
    assert!(up.password_type == PasswordType::SHA1);
}

#[test]
fn upgrade_tolerates_missing_nonce() {
    let p = params();
    let up = p.upgraded_with_nonce(Some(&RpcValue::Mapping(Vec::new())));
    assert_eq!(up.password, "secret");
    assert!(up.password_type == PasswordType::PLAIN);
    let up2 = p.upgraded_with_nonce(None);
    assert_eq!(up2.password, "secret");
}

fn get<'a>(v: &'a RpcValue, key: &str) -> &'a RpcValue {
    v.map_get(key).expect(key)
}

#[test]
fn login_param_shape() {
    let p = params();
    let v = p.to_rpcvalue();
    let login = get(&v, "login");
    assert_eq!(get(login, "user").as_str().unwrap(), "alice");
    assert_eq!(get(login, "password").as_str().unwrap(), "secret");
    assert_eq!(get(login, "type").as_str().unwrap(), "PLAIN");
    let options = get(&v, "options");
    assert!(matches!(get(options, "idleWatchDogTimeOut"), RpcValue::UInt(180)));
    assert!(options.map_get("device").is_none());
}

#[test]
fn login_param_device_id_precedes_mount_point() {
    let mut p = params();
    p.device_id = "dev7".to_string();
    p.mount_point = "test/mnt".to_string();
    let v = p.to_rpcvalue();
    let device = get(get(&v, "options"), "device");
    assert_eq!(get(device, "deviceId").as_str().unwrap(), "dev7");
    assert!(device.map_get("mountPoint").is_none());
}

#[test]
fn login_param_mount_point_when_no_device_id() {
    let mut p = params();
    p.mount_point = "test/mnt".to_string();
    let v = p.to_rpcvalue();
    let device = get(get(&v, "options"), "device");
    assert_eq!(get(device, "mountPoint").as_str().unwrap(), "test/mnt");
    assert!(device.map_get("deviceId").is_none());
}

#[test]
fn login_param_no_watchdog_without_heartbeat() {
    let mut p = params();
    p.heartbeat_interval = None;
    let v = p.to_rpcvalue();
    let options = get(&v, "options");
    assert!(options.map_get("idleWatchDogTimeOut").is_none());
}

#[test]
fn handshake_requests() {
    let hello = hello_request(1);
    assert_eq!(hello.method.as_deref(), Some("hello"));
    assert_eq!(hello.path.as_deref(), Some(""));
    assert_eq!(hello.request_id, Some(1));
    assert!(hello.params.is_none());
    let login = login_request(2, &params());
    assert_eq!(login.method.as_deref(), Some("login"));
    assert_eq!(login.request_id, Some(2));
    assert!(login.params.is_some());
}

#[test]
fn login_success_is_presence_of_result() {
    let mut resp = Message::create_request(1, "", "login", None).prepare_response().unwrap();
    assert!(!login_succeeded(&resp));
    resp.set_result(RpcValue::Bool(true));
    assert!(login_succeeded(&resp));
}
