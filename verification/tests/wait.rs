use node_debug::cdt::client::{
    gather, parse_message, Awaited, CDTClient, ClientError, Gathered, PendingRead, ReadStep,
};
use node_debug::cdt::models::Response;

const EVENT_ONE: &str = r#"{"method":"Runtime.consoleAPICalled","params":{"n":1}}"#;
const EVENT_TWO: &str = r#"{"method":"Runtime.consoleAPICalled","params":{"n":2}}"#;
const REPLY: &str = r#"{"id":1,"result":{}}"#;
const PAUSED: &str = r#"{"method":"Debugger.paused","params":{"callFrames":[]}}"#;
const DESTROYED: &str = r#"{"method":"Runtime.executionContextDestroyed","params":{"executionContextId":1}}"#;
const SOURCE: &str = r#"{"id":1,"result":{"scriptSource":"x"}}"#;

fn frames(list: &[&str]) -> Vec<String> {
    list.iter().map(|frame| frame.to_string()).collect()
}

fn raw(frame: &str) -> serde_json::Value {
    serde_json::from_str(frame).unwrap()
}

#[test]
fn wait_returns_the_events_and_the_reply_in_order() {
    let mut client = CDTClient::new(frames(&[EVENT_ONE, EVENT_TWO, REPLY]));
    let batch = client.read_messages_until(Awaited::Reply).unwrap();
    assert_eq!(batch.len(), 3);
    match &batch[0] {
        Response::UnknownEvent(kept) => assert_eq!(*kept, raw(EVENT_ONE)),
        other => panic!("unexpected message: {:?}", other),
    }
    match &batch[1] {
        Response::UnknownEvent(kept) => assert_eq!(*kept, raw(EVENT_TWO)),
        other => panic!("unexpected message: {:?}", other),
    }
    assert!(matches!(&batch[2], Response::Result(_)));
    assert_eq!(client.consumed, 3);
}

#[test]
fn wait_stops_at_the_first_accepted_message() {
    let mut client = CDTClient::new(frames(&[EVENT_ONE, REPLY, EVENT_TWO, REPLY]));
    let first = client.read_messages_until_result().unwrap();
    assert_eq!(first.len(), 2);
    assert_eq!(client.consumed, 2);
    let second = client.read_messages_until_result().unwrap();
    assert_eq!(second.len(), 2);
    assert!(matches!(&second[0], Response::UnknownEvent(_)));
    assert_eq!(client.consumed, 4);
}

#[test]
fn wait_for_run_state_passes_over_replies() {
    let mut client = CDTClient::new(frames(&[REPLY, SOURCE, PAUSED]));
    let batch = client.read_messages_until_paused_or_destroyed().unwrap();
    assert_eq!(batch.len(), 3);
    assert!(matches!(&batch[2], Response::DebuggerPaused(_)));
    let mut client = CDTClient::new(frames(&[REPLY, DESTROYED, PAUSED]));
    let batch = client.read_messages_until_paused_or_destroyed().unwrap();
    assert_eq!(batch.len(), 2);
    assert!(matches!(&batch[1], Response::RuntimeExecutionContextDestroyed(_)));
}

#[test]
fn wait_for_script_source_passes_over_other_replies() {
    let mut client = CDTClient::new(frames(&[REPLY, EVENT_ONE, SOURCE, REPLY]));
    let batch = client.read_messages_until_script_source().unwrap();
    assert_eq!(batch.len(), 3);
    assert!(matches!(&batch[2], Response::ResultScriptSource(_)));
    assert_eq!(client.consumed, 3);
}

#[test]
fn wait_ends_with_a_transport_error_when_the_frames_run_out() {
    let mut client = CDTClient::new(frames(&[EVENT_ONE, EVENT_TWO]));
    assert!(matches!(client.read_messages_until(Awaited::Reply), Err(ClientError::Transport)));
    assert_eq!(client.consumed, 2);
    let mut client = CDTClient::new(Vec::new());
    assert!(matches!(client.read_messages_until(Awaited::Reply), Err(ClientError::Transport)));
}

#[test]
fn wait_ends_with_a_decode_error_at_a_frame_that_cannot_be_read() {
    let mut client = CDTClient::new(frames(&[EVENT_ONE, "[]", REPLY]));
    assert!(matches!(client.read_messages_until(Awaited::Reply), Err(ClientError::Decode)));
    assert_eq!(client.consumed, 2);
    let batch = client.read_messages_until(Awaited::Reply).unwrap();
    assert_eq!(batch.len(), 1);
}

#[test]
fn wait_with_a_cursor_past_the_end_reads_nothing() {
    let mut client = CDTClient::new(frames(&[REPLY]));
    client.consumed = 5;
    assert!(matches!(client.read_messages_until(Awaited::Reply), Err(ClientError::Transport)));
    assert_eq!(client.consumed, 5);
}

#[test]
fn pending_read_gathers_frame_by_frame() {
    let pending = PendingRead::new(Awaited::PausedOrDestroyed);
    assert!(pending.messages.is_empty());
    let pending = match pending.accept_frame(EVENT_ONE) {
        Ok(ReadStep::Pending(pending)) => pending,
        other => panic!("unexpected step: {:?}", other),
    };
    assert_eq!(pending.messages.len(), 1);
    let pending = match pending.accept_frame(REPLY) {
        Ok(ReadStep::Pending(pending)) => pending,
        other => panic!("unexpected step: {:?}", other),
    };
    assert_eq!(pending.messages.len(), 2);
    assert_eq!(pending.awaited, Awaited::PausedOrDestroyed);
    match pending.accept_frame(PAUSED) {
        Ok(ReadStep::Done(batch)) => {
            assert_eq!(batch.len(), 3);
            assert!(matches!(&batch[0], Response::UnknownEvent(_)));
            assert!(matches!(&batch[1], Response::Result(_)));
            assert!(matches!(&batch[2], Response::DebuggerPaused(_)));
        }
        other => panic!("unexpected step: {:?}", other),
    }
}

#[test]
fn pending_read_fails_on_a_frame_that_cannot_be_read() {
    let pending = PendingRead::new(Awaited::Reply);
    assert!(matches!(pending.accept_frame("oops"), Err(ClientError::Decode)));
}

#[test]
fn each_wait_accepts_its_own_messages_only() {
    let reply = node_debug::cdt::client::parse_message(REPLY).unwrap();
    let source = node_debug::cdt::client::parse_message(SOURCE).unwrap();
    let paused = node_debug::cdt::client::parse_message(PAUSED).unwrap();
    let destroyed = node_debug::cdt::client::parse_message(DESTROYED).unwrap();
    let event = node_debug::cdt::client::parse_message(EVENT_ONE).unwrap();
    assert!(Awaited::Reply.accepts(&reply));
    assert!(Awaited::Reply.accepts(&source));
    assert!(!Awaited::Reply.accepts(&paused));
    assert!(!Awaited::Reply.accepts(&event));
    assert!(Awaited::PausedOrDestroyed.accepts(&paused));
    assert!(Awaited::PausedOrDestroyed.accepts(&destroyed));
    assert!(!Awaited::PausedOrDestroyed.accepts(&reply));
    assert!(Awaited::ScriptSource.accepts(&source));
    assert!(!Awaited::ScriptSource.accepts(&reply));
    assert!(!Awaited::ScriptSource.accepts(&destroyed));
}

#[test]
fn wait_takes_any_predicate_of_the_caller() {
    let mut client = CDTClient::new(frames(&[EVENT_ONE, EVENT_TWO, REPLY, PAUSED]));
    let second_event = raw(EVENT_TWO);
    let batch = client
        .read_messages_until_accepted(|message| matches!(message, Response::UnknownEvent(kept) if *kept == second_event))
        .unwrap();
    assert_eq!(batch.len(), 2);
    assert_eq!(client.consumed, 2);
    let batch = client.read_messages_until_accepted(|message| matches!(message, Response::Result(_))).unwrap();
    assert_eq!(batch.len(), 1);
    assert!(matches!(
        client.read_messages_until_accepted(|_| false),
        Err(ClientError::Transport)
    ));
    assert_eq!(client.consumed, 4);
    let mut client = CDTClient::new(frames(&[EVENT_ONE, "{", REPLY]));
    assert!(matches!(
        client.read_messages_until_accepted(|message| matches!(message, Response::Result(_))),
        Err(ClientError::Decode)
    ));
    assert_eq!(client.consumed, 2);
}

#[test]
fn wait_with_a_predicate_returns_the_events_and_the_reply_in_order() {
    let mut client = CDTClient::new(frames(&[EVENT_ONE, EVENT_TWO, REPLY]));
    let batch = client.read_messages_until_accepted(|message| matches!(message, Response::Result(_))).unwrap();
    assert_eq!(batch.len(), 3);
    assert!(matches!(&batch[0], Response::UnknownEvent(kept) if *kept == raw(EVENT_ONE)));
    assert!(matches!(&batch[1], Response::UnknownEvent(kept) if *kept == raw(EVENT_TWO)));
    assert!(matches!(&batch[2], Response::Result(_)));
}

#[test]
fn answer_of_the_predicate_alone_decides_whether_the_wait_is_over() {
    let batch = vec![parse_message(EVENT_ONE).unwrap()];
    match gather(batch, parse_message(REPLY).unwrap(), false) {
        Gathered::Pending(batch) => {
            assert_eq!(batch.len(), 2);
            assert!(matches!(&batch[0], Response::UnknownEvent(_)));
            assert!(matches!(&batch[1], Response::Result(_)));
        }
        other => panic!("unexpected step: {:?}", other),
    }
    match gather(Vec::new(), parse_message(EVENT_TWO).unwrap(), true) {
        Gathered::Done(batch) => {
            assert_eq!(batch.len(), 1);
            assert!(matches!(&batch[0], Response::UnknownEvent(kept) if *kept == raw(EVENT_TWO)));
        }
        other => panic!("unexpected step: {:?}", other),
    }
}
