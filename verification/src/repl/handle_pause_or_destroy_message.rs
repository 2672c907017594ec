//! The one transition of the session state: what the debuggee reported at the
//! end of a wait for its run state decides the state that follows.

use crate::cdt::models::DebuggerPausedResponse;
use crate::repl::repl_state::{DebuggerState, ReplState, ReplStateCallFrame};
use vstd::prelude::*;

verus! {

/// Whether `state` is the state that follows a wait for the run state. A
/// paused debuggee gives `Paused`, with its call stack and the innermost frame
/// active; a pause that reports no frame gives `Paused` with no stack to look
/// at. A debuggee that is gone gives `Exited`.
pub open spec fn follows(state: ReplState, message: Option<DebuggerPausedResponse>) -> bool {
    match message {
        Some(paused) => {
            &&& state.debugger_state is Paused
            &&& if paused.params.call_frames@.len() > 0 {
                &&& state.call_frames matches Some(stack)
                &&& stack.call_frames == paused.params.call_frames
                &&& stack.active_id == 0
            } else {
                state.call_frames is None
            }
        },
        None => state.debugger_state is Exited && state.call_frames is None,
    }
}

/// The state that follows a wait for the run state.
pub fn handle_pause_or_destroy_message(message: Option<DebuggerPausedResponse>) -> (state:
    ReplState)
    ensures
        state.wf(),
        follows(state, message),
{
    match message {
        Some(message) => {
            let call_frames = message.params.call_frames;
            if call_frames.len() > 0 {
                ReplState {
                    call_frames: Some(ReplStateCallFrame { call_frames, active_id: 0 }),
                    debugger_state: DebuggerState::Paused,
                }
            } else {
                ReplState { call_frames: None, debugger_state: DebuggerState::Paused }
            }
        },
        None => ReplState { call_frames: None, debugger_state: DebuggerState::Exited },
    }
}

/// After a wait for the run state the session is paused or over, whatever
/// came back; a call stack, where one is held, has its innermost frame active;
/// and the state is well formed.
pub proof fn lemma_follows(state: ReplState, message: Option<DebuggerPausedResponse>)
    requires
        follows(state, message),
    ensures
        state.debugger_state is Paused || state.debugger_state is Exited,
        state.debugger_state is Paused <==> message is Some,
        state.call_frames matches Some(stack) ==> stack.active_id == 0,
        state.wf(),
{
}

} // verus!
