use node_debug::cdt::client::ClientError;
use node_debug::cdt::models::{RuntimeRemoteObject, RuntimeRemoteObjectResultValue};
use node_debug::repl::evaluate_command::{rest_of_line, runtime_remote_object_to_string, show_evaluation};

fn object(payload: &str) -> RuntimeRemoteObject {
    let value: serde_json::Value = serde_json::from_str(payload).unwrap();
    RuntimeRemoteObject::from_value(&value).unwrap()
}

fn shown(payload: &str) -> String {
    runtime_remote_object_to_string(object(payload).result)
}

#[test]
fn number_is_shown_as_it_stands() {
    assert_eq!(shown(r#"{"type":"number","value":3}"#), "3");
    assert_eq!(shown(r#"{"type":"number","value":-17}"#), "-17");
    assert_eq!(shown(r#"{"type":"number","value":2.5}"#), "2.5");
    assert_eq!(shown(r#"{"type":"number","value":18446744073709551615}"#), "18446744073709551615");
}

#[test]
fn class_name_is_shown_in_brackets() {
    assert_eq!(shown(r#"{"type":"object","className":"Foo"}"#), "[class Foo]");
}

#[test]
fn object_without_anything_to_show_gets_the_marker() {
    assert_eq!(shown(r#"{"type":"object"}"#), "[<unknown object>]");
}

#[test]
fn string_is_shown_in_quotes() {
    assert_eq!(shown(r#"{"type":"string","value":"hello"}"#), "\"hello\"");
    assert_eq!(shown(r#"{"type":"string","value":""}"#), "\"\"");
}

#[test]
fn boolean_is_shown_by_name() {
    assert_eq!(shown(r#"{"type":"boolean","value":true}"#), "true");
    assert_eq!(shown(r#"{"type":"boolean","value":false}"#), "false");
}

#[test]
fn literal_goes_before_description_and_description_before_class_name() {
    assert_eq!(
        shown(r#"{"type":"number","value":3,"description":"three","className":"Number"}"#),
        "3"
    );
    assert_eq!(
        shown(r#"{"type":"object","description":"Foo {}","className":"Foo"}"#),
        "[description Foo {}]"
    );
}

#[test]
fn value_that_is_no_literal_is_passed_over() {
    assert_eq!(shown(r#"{"type":"object","value":null,"description":"null"}"#), "[description null]");
    assert_eq!(shown(r#"{"type":"object","value":{"a":1},"className":"Object"}"#), "[class Object]");
    assert_eq!(shown(r#"{"type":"object","value":[1,2]}"#), "[<unknown object>]");
}

#[test]
fn remote_object_needs_its_type() {
    let value: serde_json::Value = serde_json::from_str(r#"{"value":3}"#).unwrap();
    assert!(RuntimeRemoteObject::from_value(&value).is_none());
    let value: serde_json::Value = serde_json::from_str(r#"{"type":7}"#).unwrap();
    assert!(RuntimeRemoteObject::from_value(&value).is_none());
}

#[test]
fn literal_is_read_from_its_json_value() {
    let read = |text: &str| {
        let value: serde_json::Value = serde_json::from_str(text).unwrap();
        RuntimeRemoteObjectResultValue::from_value(&value)
    };
    assert!(matches!(read("true"), Some(RuntimeRemoteObjectResultValue::Bool(true))));
    assert!(matches!(read("\"a\""), Some(RuntimeRemoteObjectResultValue::String(text)) if text == "a"));
    assert!(matches!(read("12"), Some(RuntimeRemoteObjectResultValue::Number(text)) if text == "12"));
    assert!(read("null").is_none());
    assert!(read("[]").is_none());
    assert!(read("{}").is_none());
}

#[test]
fn answer_to_an_evaluation_is_shown_or_its_error_named() {
    assert_eq!(show_evaluation(Ok(object(r#"{"type":"number","value":3}"#))), "3");
    assert_eq!(show_evaluation(Err(ClientError::Transport)), "Error while evaluating: TransportError");
    assert_eq!(show_evaluation(Err(ClientError::Decode)), "Error while evaluating: DecodeError");
    assert_eq!(
        show_evaluation(Err(ClientError::ProtocolContract)),
        "Error while evaluating: ProtocolContractError"
    );
    assert_eq!(show_evaluation(Err(ClientError::NotPaused)), "Error while evaluating: NotPausedError");
}

#[test]
fn rest_of_a_line_skips_characters_not_bytes() {
    assert_eq!(rest_of_line("e 1 + 2", 2), "1 + 2");
    assert_eq!(rest_of_line("es x", 3), "x");
    assert_eq!(rest_of_line("e ", 2), "");
    assert_eq!(rest_of_line("e", 2), "");
    assert_eq!(rest_of_line("\u{e9}\u{e9}\u{e9}x", 3), "x");
}
