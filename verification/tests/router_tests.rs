use shvapp::message::{Message, RPC_ERROR_METHOD_CALL_EXCEPTION};
use shvapp::metamethod::{MetaMethod, Signature};
use shvapp::shvnode::{run_cmd_command, DeviceNodeRequestProcessor, NodesTree, RoutingError,
                      RpcMethodProcessor, TreeNode};
use shvapp::value::RpcValue;

fn device_node(name: &str) -> TreeNode {
    TreeNode {
        name: name.to_string(),
        processors: vec![RpcMethodProcessor::Device(DeviceNodeRequestProcessor {
            app_name: "ShvAgent".to_string(),
            device_id: "dev1".to_string(),
        })],
        child_nodes: Vec::new(),
    }
}

fn tree_with_fs_child() -> NodesTree {
    let mut root = device_node("");
    root.add_child_node(device_node("fs"));
    NodesTree { root: Some(root) }
}

fn request(path: &str, method: &str, params: Option<RpcValue>) -> Message {
    Message::create_request(1, path, method, params)
}

fn names_of(v: &RpcValue) -> Vec<String> {
    let items = v.as_list().expect("a list result");
    items.iter().map(|it| it.as_str().expect("a name").clone()).collect()
}

#[test]
fn path_resolution_stops_at_deepest_match() {
    // "fs/a/b" resolves to the child "fs"; the unmatched suffix ["a", "b"]
    // becomes the local path, visible in the unknown-method error.
    let tree = tree_with_fs_child();
    let r = tree.process_request(&request("fs/a/b", "appName", None));
    match r {
        Err(RoutingError::UnknownMethod { method, path }) => {
            assert_eq!(method, "appName");
            assert_eq!(path, vec!["a", "b"]);
        },
        other => panic!("expected unknown method, got {:?}", other),
    }
}

#[test]
fn empty_path_resolves_to_root() {
    let tree = tree_with_fs_child();
    let r = tree.process_request(&request("", "appName", None)).unwrap();
    assert_eq!(r.unwrap().as_str().unwrap(), "ShvAgent");
}

#[test]
fn matched_path_reaches_the_child() {
    let tree = tree_with_fs_child();
    let r = tree.process_request(&request("fs", "deviceId", None)).unwrap();
    assert_eq!(r.unwrap().as_str().unwrap(), "dev1");
}

#[test]
fn dir_without_filter_lists_all_descriptors_in_order() {
    let tree = tree_with_fs_child();
    let r = tree.process_request(&request("", "dir", None)).unwrap().unwrap();
    assert_eq!(names_of(&r), vec!["dir", "ls", "appName", "deviceId", "runCmd"]);
}

#[test]
fn dir_with_filter_returns_first_exact_match_only() {
    let tree = tree_with_fs_child();
    let params = RpcValue::List(vec![RpcValue::Str("appName".to_string())]);
    let r = tree.process_request(&request("", "dir", Some(params))).unwrap().unwrap();
    assert_eq!(names_of(&r), vec!["appName"]);
    let params = RpcValue::List(vec![RpcValue::Str("nosuch".to_string())]);
    let r = tree.process_request(&request("", "dir", Some(params))).unwrap().unwrap();
    assert_eq!(r.as_list().unwrap().len(), 0);
}

#[test]
fn dir_bare_string_param_is_the_filter() {
    let tree = tree_with_fs_child();
    let params = RpcValue::Str("deviceId".to_string());
    let r = tree.process_request(&request("", "dir", Some(params))).unwrap().unwrap();
    assert_eq!(names_of(&r), vec!["deviceId"]);
}

#[test]
fn dir_attribute_mask_selects_fields() {
    let tree = tree_with_fs_child();
    let params = RpcValue::List(vec![
        RpcValue::Str("runCmd".to_string()),
        RpcValue::UInt(15),
    ]);
    let r = tree.process_request(&request("", "dir", Some(params))).unwrap().unwrap();
    let items = r.as_list().unwrap();
    assert_eq!(items.len(), 1);
    let entry = items[0].as_list().unwrap();
    // name, signature code, flags, access grant, description
    assert_eq!(entry.len(), 5);
    assert_eq!(entry[0].as_str().unwrap(), "runCmd");
    assert!(matches!(entry[1], RpcValue::UInt(3)));
    assert!(matches!(entry[2], RpcValue::UInt(0)));
    assert_eq!(entry[3].as_str().unwrap(), "wr");
    assert_eq!(entry[4].as_str().unwrap(), "");
}

#[test]
fn dir_rejects_non_string_list_head() {
    let tree = tree_with_fs_child();
    let params = RpcValue::List(vec![RpcValue::Int(3)]);
    let r = tree.process_request(&request("", "dir", Some(params)));
    assert!(matches!(r, Err(RoutingError::InvalidParam)));
}

#[test]
fn dir_scalar_param_text_is_the_filter() {
    // A single non-list parameter is answered, not refused: its text form
    // is the name filter. No method is named "3", so the listing is empty.
    let tree = tree_with_fs_child();
    let r = tree.process_request(&request("", "dir", Some(RpcValue::Int(3)))).unwrap().unwrap();
    assert_eq!(r.as_list().unwrap().len(), 0);
    let r = tree.process_request(&request("", "ls", Some(RpcValue::Bool(true)))).unwrap().unwrap();
    assert_eq!(r.as_list().unwrap().len(), 0);
}

#[test]
fn run_cmd_command_choice() {
    assert_eq!(run_cmd_command(Some(&RpcValue::Str("ls".to_string()))).unwrap(), "ls");
    let lst = RpcValue::List(vec![RpcValue::Str("echo".to_string()), RpcValue::Str("x".to_string())]);
    assert_eq!(run_cmd_command(Some(&lst)).unwrap(), "echo");
    assert_eq!(run_cmd_command(None).unwrap_err(), "No params");
    assert_eq!(run_cmd_command(Some(&RpcValue::List(Vec::new()))).unwrap_err(), "Param list is empty");
    assert_eq!(run_cmd_command(Some(&RpcValue::List(vec![RpcValue::Int(1)]))).unwrap_err(), "Invalid params");
    assert_eq!(run_cmd_command(Some(&RpcValue::Int(1))).unwrap_err(), "Invalid params");
}

#[test]
fn ls_names_and_has_children_pairs() {
    // The child "fs" is itself a non-leaf: it has a child of its own.
    let mut fs = device_node("fs");
    fs.add_child_node(device_node("sub"));
    let mut root = device_node("");
    root.add_child_node(fs);
    let tree = NodesTree { root: Some(root) };

    let r = tree.process_request(&request("", "ls", None)).unwrap().unwrap();
    assert_eq!(names_of(&r), vec!["fs"]);

    let params = RpcValue::List(vec![RpcValue::Str("".to_string()), RpcValue::UInt(1)]);
    let r = tree.process_request(&request("", "ls", Some(params))).unwrap().unwrap();
    let items = r.as_list().unwrap();
    assert_eq!(items.len(), 1);
    let pair = items[0].as_list().unwrap();
    assert_eq!(pair[0].as_str().unwrap(), "fs");
    assert!(matches!(pair[1], RpcValue::Bool(true)));
}

#[test]
fn ls_filter_keeps_matching_names_only() {
    let tree = tree_with_fs_child();
    let params = RpcValue::List(vec![RpcValue::Str("fs".to_string())]);
    let r = tree.process_request(&request("", "ls", Some(params))).unwrap().unwrap();
    assert_eq!(names_of(&r), vec!["fs"]);
    let params = RpcValue::List(vec![RpcValue::Str("nosuch".to_string())]);
    let r = tree.process_request(&request("", "ls", Some(params))).unwrap().unwrap();
    assert_eq!(r.as_list().unwrap().len(), 0);
}

#[test]
fn ls_leaf_child_reported_without_children() {
    let tree = tree_with_fs_child();
    let params = RpcValue::List(vec![RpcValue::Str("".to_string()), RpcValue::UInt(1)]);
    let r = tree.process_request(&request("", "ls", Some(params))).unwrap().unwrap();
    let items = r.as_list().unwrap();
    let pair = items[0].as_list().unwrap();
    assert_eq!(pair[0].as_str().unwrap(), "fs");
    assert!(matches!(pair[1], RpcValue::Bool(false)));
}

#[test]
fn run_cmd_is_deferred() {
    let tree = tree_with_fs_child();
    let params = RpcValue::Str("ls".to_string());
    let r = tree.process_request(&request("", "runCmd", Some(params))).unwrap();
    assert!(r.is_none());
}

#[test]
fn unknown_method_names_method_and_path() {
    let tree = tree_with_fs_child();
    let r = tree.process_request(&request("fs", "frobnicate", None));
    match r {
        Err(err) => {
            match &err {
                RoutingError::UnknownMethod { method, path } => {
                    assert_eq!(method, "frobnicate");
                    assert!(path.is_empty());
                },
                other => panic!("expected unknown method, got {:?}", other),
            }
            assert_eq!(err.text(), "Unknown method: frobnicate on path: ");
            let rpc_err = err.to_rpc_error();
            assert_eq!(rpc_err.code, RPC_ERROR_METHOD_CALL_EXCEPTION);
            assert!(rpc_err.message.contains("frobnicate"));
        },
        other => panic!("expected an error, got {:?}", other),
    }
}

#[test]
fn unknown_method_becomes_error_response_not_dropped() {
    let tree = tree_with_fs_child();
    let rq = request("", "frobnicate", None);
    let err = tree.process_request(&rq).unwrap_err();
    let mut resp = rq.prepare_response().unwrap();
    resp.set_error(err.to_rpc_error());
    assert_eq!(resp.request_id, rq.request_id);
    assert!(resp.error.is_some());
    assert!(resp.error.unwrap().message.contains("frobnicate"));
}

#[test]
fn non_request_is_rejected() {
    let tree = tree_with_fs_child();
    let resp = request("", "x", None).prepare_response().unwrap();
    assert!(matches!(tree.process_request(&resp), Err(RoutingError::NotRequest)));
}

#[test]
fn missing_root_is_an_error() {
    let tree = NodesTree { root: None };
    let r = tree.process_request(&request("", "dir", None));
    assert!(matches!(r, Err(RoutingError::RootMissing)));
    assert_eq!(r.unwrap_err().text(), "Root node is not set");
}

#[test]
fn meta_method_rendering() {
    let mm = MetaMethod::new("get", Signature::RetVoid, 2, "rd", "a getter");
    assert!(matches!(mm.dir_attributes(0), RpcValue::Str(s) if s == "get"));
    let v = mm.dir_attributes(1);
    let entry = v.as_list().unwrap();
    assert_eq!(entry.len(), 2);
    assert_eq!(entry[0].as_str().unwrap(), "get");
    assert!(matches!(entry[1], RpcValue::UInt(2)));
}

#[test]
fn node_is_leaf_depends_on_children() {
    let node = device_node("x");
    assert!(node.is_leaf());
    let mut parent = device_node("p");
    parent.add_child_node(device_node("c"));
    assert!(!parent.is_leaf());
}
