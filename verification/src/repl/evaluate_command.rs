//! Evaluation of expressions in the active call frame: what is sent, and how
//! the answer is shown.

use crate::cdt::client::{
    error_name, error_text, object_view, CDTClientResult, ClientError, Command, CommandView,
};
use crate::cdt::models::{
    LiteralView, RemoteObjectView, RuntimeRemoteObject, RuntimeRemoteObjectResult,
    RuntimeRemoteObjectResultValue,
};
use crate::repl::plan::{Continuation, EffectView, Plan};
use crate::repl::repl_state::ReplState;
use crate::text::{from_chars, push_text, sub_chars, to_chars};
use vstd::prelude::*;

verus! {

/// How a remote object is shown. A literal goes first: a string in double
/// quotes, a number as it stands, a boolean as `true` or `false`. Without a
/// literal the description is shown, without that the class name, and without
/// either a marker for an unknown object.
pub open spec fn rendered(object: RemoteObjectView) -> Seq<char> {
    match object.value {
        Some(LiteralView::String(text)) => "\""@ + text + "\""@,
        Some(LiteralView::Number(text)) => text,
        Some(LiteralView::Bool(b)) => if b {
            "true"@
        } else {
            "false"@
        },
        None => match object.description {
            Some(description) => "[description "@ + description + "]"@,
            None => match object.class_name {
                Some(class_name) => "[class "@ + class_name + "]"@,
                None => "[<unknown object>]"@,
            },
        },
    }
}

/// Shows a remote object as text.
pub fn runtime_remote_object_to_string(obj: RuntimeRemoteObjectResult) -> (text: String)
    ensures
        text@ == rendered(obj@),
{
    let mut chars: Vec<char> = Vec::new();
    assert(chars@ == Seq::<char>::empty());
    match obj.value {
        Some(RuntimeRemoteObjectResultValue::String(text)) => {
            push_text(&mut chars, "\"");
            push_text(&mut chars, text.as_str());
            push_text(&mut chars, "\"");
            assert(chars@ == "\""@ + text@ + "\""@);
        },
        Some(RuntimeRemoteObjectResultValue::Number(text)) => {
            push_text(&mut chars, text.as_str());
            assert(chars@ == text@);
        },
        Some(RuntimeRemoteObjectResultValue::Bool(b)) => {
            if b {
                push_text(&mut chars, "true");
                assert(chars@ == "true"@);
            } else {
                push_text(&mut chars, "false");
                assert(chars@ == "false"@);
            }
        },
        None => match obj.description {
            Some(description) => {
                push_text(&mut chars, "[description ");
                push_text(&mut chars, description.as_str());
                push_text(&mut chars, "]");
                assert(chars@ == "[description "@ + description@ + "]"@);
            },
            None => match obj.class_name {
                Some(class_name) => {
                    push_text(&mut chars, "[class ");
                    push_text(&mut chars, class_name.as_str());
                    push_text(&mut chars, "]");
                    assert(chars@ == "[class "@ + class_name@ + "]"@);
                },
                None => {
                    push_text(&mut chars, "[<unknown object>]");
                    assert(chars@ == "[<unknown object>]"@);
                },
            },
        },
    }
    from_chars(&chars)
}

/// What is left of a line after its first `n` characters.
pub open spec fn rest_of(line: Seq<char>, n: nat) -> Seq<char> {
    if n <= line.len() {
        line.skip(n as int)
    } else {
        Seq::empty()
    }
}

/// What is left of a line after its first `n` characters.
pub fn rest_of_line(line: &str, n: usize) -> (rest: String)
    ensures
        rest@ == rest_of(line@, n as nat),
{
    let chars = to_chars(line);
    if n <= chars.len() {
        from_chars(&sub_chars(&chars, n, chars.len()))
    } else {
        String::new()
    }
}

/// The expression that asks for the JSON text of another.
pub open spec fn stringified(expression: Seq<char>) -> Seq<char> {
    "JSON.stringify("@ + expression + ")"@
}

/// The plan for the evaluation of an expression. With an active frame the
/// expression is sent to be evaluated there, and its value is waited for.
/// Without one the command is refused: nothing is sent and nothing shown.
pub open spec fn evaluation_plan(plan: Plan, expression: Seq<char>, repl_state: ReplState) -> bool {
    match repl_state.active_call_frame() {
        Some(frame) => plan.is(
            repl_state,
            seq![
                EffectView::Send(
                    CommandView::DebuggerEvaluateOnCallFrame(frame.call_frame_id@, expression),
                ),
            ],
            Some(Continuation::Evaluation),
        ),
        None => plan.refuses(repl_state, Seq::empty(), ClientError::NotPaused),
    }
}

/// Evaluates an expression in the active call frame.
pub fn evaluate_expression(expression: &str, repl_state: ReplState) -> (plan: Plan)
    ensures
        evaluation_plan(plan, expression@, repl_state),
{
    let command = match repl_state.get_active_call_frame() {
        Some(frame) => Some(
            Command::DebuggerEvaluateOnCallFrame(
                frame.call_frame_id.clone(),
                expression.to_owned(),
            ),
        ),
        None => None,
    };
    match command {
        Some(command) => Plan::ask(repl_state, command, Continuation::Evaluation),
        None => Plan::refuse_silently(repl_state, ClientError::NotPaused),
    }
}

/// Handles a line `e <expression>`: what follows the first two characters is
/// evaluated.
pub fn evaluate_expression_from_command(line: &str, repl_state: ReplState) -> (plan: Plan)
    ensures
        evaluation_plan(plan, rest_of(line@, 2), repl_state),
{
    let expression = rest_of_line(line, 2);
    evaluate_expression(expression.as_str(), repl_state)
}

/// Handles a line `es <expression>`: what follows the first three characters
/// is evaluated inside `JSON.stringify(..)`.
pub fn evalulate_and_stringify_command(line: &str, repl_state: ReplState) -> (plan: Plan)
    ensures
        evaluation_plan(plan, stringified(rest_of(line@, 3)), repl_state),
{
    let expression = rest_of_line(line, 3);
    let mut chars: Vec<char> = Vec::new();
    push_text(&mut chars, "JSON.stringify(");
    push_text(&mut chars, expression.as_str());
    push_text(&mut chars, ")");
    assert(chars@ == stringified(expression@));
    let expression = from_chars(&chars);
    evaluate_expression(expression.as_str(), repl_state)
}

/// What is shown once an evaluation has been answered: the value, or the
/// error that came in its place.
pub open spec fn evaluation_shown(answer: Result<RemoteObjectView, ClientError>) -> Seq<char> {
    match answer {
        Ok(object) => rendered(object),
        Err(e) => "Error while evaluating: "@ + error_name(e),
    }
}

/// Shows the answer to an evaluation.
pub fn show_evaluation(answer: CDTClientResult<RuntimeRemoteObject>) -> (text: String)
    ensures
        text@ == evaluation_shown(object_view(answer)),
{
    match answer {
        Ok(object) => runtime_remote_object_to_string(object.result),
        Err(e) => {
            let mut chars: Vec<char> = Vec::new();
            push_text(&mut chars, "Error while evaluating: ");
            push_text(&mut chars, error_text(e));
            from_chars(&chars)
        },
    }
}

} // verus!
