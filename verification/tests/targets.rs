use node_debug::http_client::{debuggers_url, parse_debuggers, select_debugger, websocket_url, Debugger};

const TARGET: &str = r#"{"description":"node.js instance","devtoolsFrontendUrl":"devtools://a","devtoolsFrontendUrlCompat":"devtools://b","faviconUrl":"https://nodejs.org/favicon.ico","id":"0f2c-77","title":"app.js","type":"node","url":"file:///app.js","webSocketDebuggerUrl":"ws://127.0.0.1:9229/0f2c-77"}"#;

#[test]
fn list_of_targets_is_read_member_by_member() {
    let list = parse_debuggers(&format!("[{}]", TARGET)).unwrap();
    assert_eq!(list.len(), 1);
    let target = &list[0];
    assert_eq!(target.description, "node.js instance");
    assert_eq!(target.devtools_frontend_url, "devtools://a");
    assert_eq!(target.devtools_frontend_url_compat, "devtools://b");
    assert_eq!(target.favicon_url, "https://nodejs.org/favicon.ico");
    assert_eq!(target.id, "0f2c-77");
    assert_eq!(target.title, "app.js");
    assert_eq!(target.kind, "node");
    assert_eq!(target.url, "file:///app.js");
    assert_eq!(target.web_socket_debugger_url, "ws://127.0.0.1:9229/0f2c-77");
}

#[test]
fn list_of_targets_may_be_empty_or_long() {
    assert!(parse_debuggers("[]").unwrap().is_empty());
    assert_eq!(parse_debuggers(&format!("[{},{}]", TARGET, TARGET)).unwrap().len(), 2);
}

#[test]
fn list_of_targets_has_to_be_an_array_of_targets() {
    assert!(parse_debuggers("").is_none());
    assert!(parse_debuggers("{}").is_none());
    assert!(parse_debuggers(TARGET).is_none());
    assert!(parse_debuggers(r#"[{"id":"x"}]"#).is_none());
    assert!(parse_debuggers(&format!("[{},5]", TARGET)).is_none());
}

#[test]
fn target_is_read_from_a_json_object() {
    let value: serde_json::Value = serde_json::from_str(TARGET).unwrap();
    assert_eq!(Debugger::from_value(&value).unwrap().id, "0f2c-77");
    let value: serde_json::Value = serde_json::from_str(r#"{"id":5}"#).unwrap();
    assert!(Debugger::from_value(&value).is_none());
}

#[test]
fn only_a_single_target_is_picked() {
    let one = parse_debuggers(&format!("[{}]", TARGET)).unwrap();
    assert_eq!(select_debugger(&one).unwrap().id, "0f2c-77");
    let two = parse_debuggers(&format!("[{},{}]", TARGET, TARGET)).unwrap();
    assert!(select_debugger(&two).is_none());
    assert!(select_debugger(&Vec::new()).is_none());
}

#[test]
fn addresses_are_built_from_host_port_and_id() {
    assert_eq!(debuggers_url("127.0.0.1", "9229"), "http://127.0.0.1:9229/json");
    assert_eq!(websocket_url("127.0.0.1", "9229", "0f2c-77"), "ws://127.0.0.1:9229/0f2c-77");
    assert_eq!(websocket_url("", "", ""), "ws://:/");
}
