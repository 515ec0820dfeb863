use shvapp::value::RpcValue;
use shvapp::strings::{str_eq, split_shv_path, join_shv_path};
use shvapp::utils::hex_encode;

#[test]
fn str_eq_compares_contents() {
    assert!(str_eq("abc", "abc"));
    assert!(str_eq("", ""));
    assert!(!str_eq("abc", "abd"));
    assert!(!str_eq("abc", "ab"));
}

#[test]
fn split_path_drops_empty_segments() {
    assert_eq!(split_shv_path("fs/a/b"), vec!["fs", "a", "b"]);
    assert_eq!(split_shv_path(""), Vec::<String>::new());
    assert_eq!(split_shv_path("a"), vec!["a"]);
    assert_eq!(split_shv_path("//x/"), vec!["x"]);
    assert_eq!(split_shv_path("/a//b/"), vec!["a", "b"]);
}

#[test]
fn join_path_puts_slashes_between() {
    assert_eq!(join_shv_path(&vec!["a".to_string(), "b".to_string()]), "a/b");
    assert_eq!(join_shv_path(&vec!["fs".to_string()]), "fs");
    assert_eq!(join_shv_path(&Vec::new()), "");
}

#[test]
fn hex_encode_two_digits_per_byte() {
    assert_eq!(hex_encode(&vec![0x00u8, 0xff, 0x2a]), "00ff2a");
    assert_eq!(hex_encode(&Vec::new()), "");
    assert_eq!(hex_encode(&vec![0x0fu8]), "0f");
}

#[test]
fn value_accessors() {
    let v = RpcValue::Str("hello".to_string());
    assert_eq!(v.as_str().unwrap(), "hello");
    assert!(!v.is_list());
    assert!(RpcValue::List(Vec::new()).is_list());
    assert!(RpcValue::Null.as_str().is_none());
}

#[test]
fn value_as_u32_reads_integers_in_range() {
    assert_eq!(RpcValue::Int(5).as_u32(), 5);
    assert_eq!(RpcValue::UInt(7).as_u32(), 7);
    assert_eq!(RpcValue::Int(-1).as_u32(), 0);
    assert_eq!(RpcValue::UInt(u64::MAX).as_u32(), 0);
    assert_eq!(RpcValue::Str("9".to_string()).as_u32(), 0);
}

#[test]
fn text_form_of_values() {
    assert_eq!(RpcValue::Null.to_text(), "null");
    assert_eq!(RpcValue::Bool(true).to_text(), "true");
    assert_eq!(RpcValue::Bool(false).to_text(), "false");
    assert_eq!(RpcValue::Int(0).to_text(), "0");
    assert_eq!(RpcValue::Int(-42).to_text(), "-42");
    assert_eq!(RpcValue::Int(i64::MIN).to_text(), "-9223372036854775808");
    assert_eq!(RpcValue::UInt(18446744073709551615).to_text(), "18446744073709551615");
    assert_eq!(RpcValue::Str("abc".to_string()).to_text(), "abc");
    let lst = RpcValue::List(vec![RpcValue::Int(1), RpcValue::Str("a".to_string())]);
    assert_eq!(lst.to_text(), "[1,a]");
    assert_eq!(RpcValue::List(Vec::new()).to_text(), "[]");
    let map = RpcValue::Mapping(vec![
        ("k".to_string(), RpcValue::Int(2)),
        ("l".to_string(), RpcValue::Null),
    ]);
    assert_eq!(map.to_text(), "{k:2,l:null}");
}

#[test]
fn map_get_finds_first_match() {
    let m = RpcValue::Mapping(vec![
        ("a".to_string(), RpcValue::Int(1)),
        ("b".to_string(), RpcValue::Int(2)),
        ("a".to_string(), RpcValue::Int(3)),
    ]);
    assert!(matches!(m.map_get("a"), Some(RpcValue::Int(1))));
    assert!(matches!(m.map_get("b"), Some(RpcValue::Int(2))));
    assert!(m.map_get("c").is_none());
    assert!(RpcValue::Null.map_get("a").is_none());
}
