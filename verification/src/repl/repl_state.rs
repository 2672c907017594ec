//! The state of a debugging session.

use crate::cdt::models::DebuggerPausedCallFrame;
use vstd::prelude::*;

verus! {

/// Whether the debuggee runs under the session, and how.
#[derive(Debug, Clone, Copy, PartialEq, Eq, Structural)]
pub enum DebuggerState {
    /// The session has not yet heard from the debuggee.
    Uninitialized,
    /// The debuggee has paused.
    Paused,
    /// The debuggee is gone, or the user has quit. Nothing leads out of this
    /// state.
    Exited,
}

/// The call stack of a paused debuggee, innermost frame first, and the index
/// of the frame that commands act on.
#[derive(Debug, Clone)]
pub struct ReplStateCallFrame {
    pub call_frames: Vec<DebuggerPausedCallFrame>,
    pub active_id: usize,
}

/// The state of a session: the run state, and the call stack while there is
/// one to look at.
#[derive(Debug, Clone)]
pub struct ReplState {
    pub call_frames: Option<ReplStateCallFrame>,
    pub debugger_state: DebuggerState,
}

impl ReplState {
    /// A call stack is held only while the debuggee is paused, and the active
    /// index points into it.
    pub open spec fn wf(&self) -> bool {
        match self.call_frames {
            Some(stack) => self.debugger_state is Paused && stack.active_id
                < stack.call_frames@.len(),
            None => true,
        }
    }

    /// The active frame as a specification: the frame under the active index,
    /// where there is a stack and the index points into it.
    pub open spec fn active_call_frame(&self) -> Option<DebuggerPausedCallFrame> {
        match self.call_frames {
            Some(stack) => if stack.active_id < stack.call_frames@.len() {
                Some(stack.call_frames@[stack.active_id as int])
            } else {
                None
            },
            None => None,
        }
    }

    /// The state of a session that has not yet heard from the debuggee.
    pub open spec fn new_spec() -> ReplState {
        ReplState { call_frames: None, debugger_state: DebuggerState::Uninitialized }
    }

    /// The state of a session that has not yet heard from the debuggee.
    pub fn new() -> (state: ReplState)
        ensures
            state == ReplState::new_spec(),
            state.wf(),
    {
        ReplState { call_frames: None, debugger_state: DebuggerState::Uninitialized }
    }

    /// The frame that commands act on, if there is one.
    pub fn get_active_call_frame(&self) -> (frame: Option<&DebuggerPausedCallFrame>)
        ensures
            match self.active_call_frame() {
                Some(active) => frame == Some(&active),
                None => frame is None,
            },
    {
        match &self.call_frames {
            Some(stack) => if stack.active_id < stack.call_frames.len() {
                Some(&stack.call_frames[stack.active_id])
            } else {
                None
            },
            None => None,
        }
    }

    /// Whether the debuggee is paused.
    pub fn is_paused(&self) -> (paused: bool)
        ensures
            paused == (self.debugger_state is Paused),
    {
        matches!(self.debugger_state, DebuggerState::Paused)
    }

    /// Whether the session is over.
    pub fn is_exited(&self) -> (exited: bool)
        ensures
            exited == (self.debugger_state is Exited),
    {
        matches!(self.debugger_state, DebuggerState::Exited)
    }
}

} // verus!
