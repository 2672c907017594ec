use node_debug::cdt::client::{classify, parse_message, parse_method_message, parse_result_message, ClientError};
use node_debug::cdt::models::{Response, RuntimeRemoteObjectResultValue};

const SCRIPT_PARSED: &str = r#"{"method":"Debugger.scriptParsed","params":{"scriptId":"42","url":"file:///app.js","startLine":0,"startColumn":0,"endLine":10,"endColumn":3,"executionContextId":1,"hash":"abc","sourceMapURL":"","hasSourceURL":false,"isModule":false}}"#;

const PAUSED: &str = r#"{"method":"Debugger.paused","params":{"callFrames":[{"callFrameId":"frame-0","functionName":"main","functionLocation":{"scriptId":"42","lineNumber":1,"columnNumber":2},"location":{"scriptId":"42","lineNumber":3,"columnNumber":4},"url":"file:///app.js"}],"reason":"other"}}"#;

#[test]
fn script_parsed_event_is_read_field_by_field() {
    match parse_message(SCRIPT_PARSED) {
        Ok(Response::DebuggerScriptParsed(parsed)) => {
            assert_eq!(parsed.method, "Debugger.scriptParsed");
            assert_eq!(parsed.params.script_id, "42");
            assert_eq!(parsed.params.url, "file:///app.js");
            assert_eq!(parsed.params.start_line, 0);
            assert_eq!(parsed.params.start_column, 0);
            assert_eq!(parsed.params.end_line, 10);
            assert_eq!(parsed.params.end_column, 3);
            assert_eq!(parsed.params.execution_context_id, 1);
            assert_eq!(parsed.params.hash, "abc");
            assert_eq!(parsed.params.source_map_url, "");
            assert!(!parsed.params.has_source_url);
        }
        other => panic!("unexpected classification: {:?}", other),
    }
}

#[test]
fn paused_event_carries_its_call_frames() {
    match parse_message(PAUSED) {
        Ok(Response::DebuggerPaused(paused)) => {
            assert_eq!(paused.params.call_frames.len(), 1);
            let frame = &paused.params.call_frames[0];
            assert_eq!(frame.call_frame_id, "frame-0");
            assert_eq!(frame.function_name, "main");
            assert_eq!(frame.function_location.script_id, "42");
            assert_eq!(frame.function_location.line_number, 1);
            assert_eq!(frame.function_location.column_number, 2);
            assert_eq!(frame.location.script_id, "42");
            assert_eq!(frame.location.line_number, 3);
            assert_eq!(frame.location.column_number, 4);
        }
        other => panic!("unexpected classification: {:?}", other),
    }
}

#[test]
fn context_destroyed_event_names_its_context() {
    let frame = r#"{"method":"Runtime.executionContextDestroyed","params":{"executionContextId":7}}"#;
    match parse_message(frame) {
        Ok(Response::RuntimeExecutionContextDestroyed(destroyed)) => {
            assert_eq!(destroyed.params.execution_context_id, 7);
        }
        other => panic!("unexpected classification: {:?}", other),
    }
}

#[test]
fn event_of_an_unknown_name_is_kept() {
    let frame = r#"{"method":"Runtime.consoleAPICalled","params":{"type":"log"}}"#;
    let raw: serde_json::Value = serde_json::from_str(frame).unwrap();
    match parse_message(frame) {
        Ok(Response::UnknownEvent(kept)) => assert_eq!(kept, raw),
        other => panic!("unexpected classification: {:?}", other),
    }
}

#[test]
fn reply_with_script_source_is_a_script_source() {
    let frame = r#"{"id":1,"result":{"scriptSource":"var x=1;"}}"#;
    match parse_message(frame) {
        Ok(Response::ResultScriptSource(source)) => {
            assert_eq!(source.result.script_source, "var x=1;");
        }
        other => panic!("unexpected classification: {:?}", other),
    }
}

#[test]
fn reply_with_object_id_is_a_remote_object() {
    let frame = r#"{"id":1,"result":{"type":"object","objectId":"obj-1","className":"Foo","description":"Foo"}}"#;
    match parse_message(frame) {
        Ok(Response::ResultRuntimeRemoteObject(object)) => {
            assert_eq!(object.result.kind, "object");
            assert_eq!(object.result.object_id.as_deref(), Some("obj-1"));
            assert_eq!(object.result.class_name.as_deref(), Some("Foo"));
            assert_eq!(object.result.description.as_deref(), Some("Foo"));
            assert!(object.result.value.is_none());
        }
        other => panic!("unexpected classification: {:?}", other),
    }
}

#[test]
fn script_source_goes_before_object_id() {
    let frame = r#"{"id":1,"result":{"scriptSource":"x","objectId":"obj-1","type":"object"}}"#;
    assert!(matches!(parse_message(frame), Ok(Response::ResultScriptSource(_))));
}

#[test]
fn reply_with_other_keys_is_a_plain_result() {
    let frame = r#"{"id":1,"result":{"debuggerId":"abc"}}"#;
    let payload: serde_json::Value = serde_json::from_str(r#"{"debuggerId":"abc"}"#).unwrap();
    match parse_message(frame) {
        Ok(Response::Result(reply)) => assert_eq!(reply.result, payload),
        other => panic!("unexpected classification: {:?}", other),
    }
}

#[test]
fn object_that_is_neither_event_nor_reply_is_unknown() {
    let frame = r#"{"id":1,"error":{"code":-32601,"message":"not found"}}"#;
    let raw: serde_json::Value = serde_json::from_str(frame).unwrap();
    match parse_message(frame) {
        Ok(Response::Unknown(kept)) => assert_eq!(kept, raw),
        other => panic!("unexpected classification: {:?}", other),
    }
}

#[test]
fn method_goes_before_result() {
    let frame = r#"{"method":"Some.event","result":{"scriptSource":"x"}}"#;
    assert!(matches!(parse_message(frame), Ok(Response::UnknownEvent(_))));
}

#[test]
fn text_that_is_no_json_is_a_decode_error() {
    assert!(matches!(parse_message("{not json"), Err(ClientError::Decode)));
    assert!(matches!(parse_message(""), Err(ClientError::Decode)));
}

#[test]
fn json_that_is_no_object_is_a_decode_error() {
    assert!(matches!(parse_message("[1,2,3]"), Err(ClientError::Decode)));
    assert!(matches!(parse_message("\"text\""), Err(ClientError::Decode)));
    assert!(matches!(parse_message("17"), Err(ClientError::Decode)));
    assert!(matches!(parse_message("null"), Err(ClientError::Decode)));
}

#[test]
fn method_that_is_no_string_is_a_decode_error() {
    assert!(matches!(parse_message(r#"{"method":5}"#), Err(ClientError::Decode)));
}

#[test]
fn known_event_without_its_shape_is_a_decode_error() {
    assert!(matches!(
        parse_message(r#"{"method":"Debugger.paused","params":{}}"#),
        Err(ClientError::Decode)
    ));
    assert!(matches!(
        parse_message(r#"{"method":"Debugger.paused","params":{"callFrames":[{"callFrameId":"f"}]}}"#),
        Err(ClientError::Decode)
    ));
    assert!(matches!(
        parse_message(r#"{"method":"Debugger.scriptParsed","params":{"scriptId":"1"}}"#),
        Err(ClientError::Decode)
    ));
    assert!(matches!(
        parse_message(r#"{"method":"Runtime.executionContextDestroyed"}"#),
        Err(ClientError::Decode)
    ));
}

#[test]
fn script_source_that_is_no_string_is_a_decode_error() {
    assert!(matches!(
        parse_message(r#"{"id":1,"result":{"scriptSource":12}}"#),
        Err(ClientError::Decode)
    ));
}

#[test]
fn line_number_out_of_range_is_a_decode_error() {
    let frame = r#"{"method":"Debugger.paused","params":{"callFrames":[{"callFrameId":"f","functionName":"g","functionLocation":{"scriptId":"1","lineNumber":2147483648,"columnNumber":0},"location":{"scriptId":"1","lineNumber":0,"columnNumber":0}}]}}"#;
    assert!(matches!(parse_message(frame), Err(ClientError::Decode)));
}

#[test]
fn paused_event_may_have_no_call_frames() {
    match parse_message(r#"{"method":"Debugger.paused","params":{"callFrames":[]}}"#) {
        Ok(Response::DebuggerPaused(paused)) => assert!(paused.params.call_frames.is_empty()),
        other => panic!("unexpected classification: {:?}", other),
    }
}

#[test]
fn classify_takes_a_parsed_value() {
    let value: serde_json::Value = serde_json::from_str(PAUSED).unwrap();
    assert!(matches!(classify(value), Ok(Response::DebuggerPaused(_))));
    let value: serde_json::Value = serde_json::from_str("3").unwrap();
    assert!(matches!(classify(value), Err(ClientError::Decode)));
}

#[test]
fn event_and_reply_classifiers_refuse_what_lacks_their_key() {
    let value: serde_json::Value = serde_json::from_str(r#"{"result":{}}"#).unwrap();
    assert!(matches!(parse_method_message(value), Err(ClientError::Decode)));
    let value: serde_json::Value = serde_json::from_str(r#"{"method":"x"}"#).unwrap();
    assert!(matches!(parse_result_message(value), Err(ClientError::Decode)));
}

#[test]
fn remote_object_literal_is_read_by_its_type() {
    let frame = r#"{"id":1,"result":{"type":"number","objectId":"o","value":3}}"#;
    match parse_message(frame) {
        Ok(Response::ResultRuntimeRemoteObject(object)) => match object.result.value {
            Some(RuntimeRemoteObjectResultValue::Number(text)) => assert_eq!(text, "3"),
            other => panic!("unexpected literal: {:?}", other),
        },
        other => panic!("unexpected classification: {:?}", other),
    }
}
