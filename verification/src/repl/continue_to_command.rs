//! The command that lets the debuggee run up to a line of the script that the
//! active frame is in.

use crate::cdt::client::{ClientError, Command, CommandView};
use crate::cdt::models::{DebuggerLocation, LocationView};
use crate::repl::evaluate_command::{rest_of, rest_of_line};
use crate::repl::plan::{Continuation, EffectView, Plan};
use crate::repl::repl_state::ReplState;
use crate::text::{from_chars, parse_u32, parsed_u32, push_text};
use vstd::prelude::*;

verus! {

/// The line that the text after the first three characters of a command
/// names: a number that a location can hold.
pub open spec fn target_line(line: Seq<char>) -> Option<i32> {
    match parsed_u32(rest_of(line, 3)) {
        Some(number) => if number <= i32::MAX {
            Some(number as i32)
        } else {
            None
        },
        None => None,
    }
}

/// The plan for the command. Without a number the user is told what was
/// expected; without an active frame the command is refused. Else the
/// debuggee is sent on to the start of that line, in the script of the active
/// frame, and its run state is waited for.
pub open spec fn continue_to_plan(plan: Plan, line: Seq<char>, repl_state: ReplState) -> bool {
    match target_line(line) {
        None => plan.is(
            repl_state,
            seq![EffectView::Print("Expected number, got "@ + rest_of(line, 3))],
            None,
        ),
        Some(number) => match repl_state.active_call_frame() {
            None => plan.refuses(
                repl_state,
                seq![EffectView::Print("Error: no active frame."@)],
                ClientError::NotPaused,
            ),
            Some(frame) => plan.is(
                repl_state,
                seq![
                    EffectView::Send(
                        CommandView::DebuggerContinueToLocation(
                            LocationView {
                                script_id: frame.location.script_id@,
                                line_number: number as int,
                                column_number: 0,
                            },
                        ),
                    ),
                ],
                Some(Continuation::RunState),
            ),
        },
    }
}

/// Handles a command that names a line after its first three characters.
pub fn continue_to_command(line: &str, repl_state: ReplState) -> (plan: Plan)
    ensures
        continue_to_plan(plan, line@, repl_state),
{
    let number_string = rest_of_line(line, 3);
    let number = match parse_u32(number_string.as_str()) {
        Some(number) if number <= 2147483647 => number as i32,
        _ => {
            let mut chars: Vec<char> = Vec::new();
            push_text(&mut chars, "Expected number, got ");
            push_text(&mut chars, number_string.as_str());
            let text = from_chars(&chars);
            return Plan::say(repl_state, text.as_str());
        },
    };
    let command = match repl_state.get_active_call_frame() {
        Some(frame) => Some(
            Command::DebuggerContinueToLocation(
                DebuggerLocation::new(frame.location.script_id.clone(), number),
            ),
        ),
        None => None,
    };
    match command {
        Some(command) => Plan::ask(repl_state, command, Continuation::RunState),
        None => Plan::refuse(repl_state, "Error: no active frame.", ClientError::NotPaused),
    }
}

} // verus!
