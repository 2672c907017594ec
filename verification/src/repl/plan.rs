//! What a command of the session comes to: the state it leaves, what the
//! driver is to send and to show, and what is to be made of the answer.
//!
//! The session touches neither the socket nor the terminal. It hands out a
//! plan; the driver carries out the effects in their order, and where the plan
//! waits for an answer it reads frames and hands them in until the wait is
//! over.

use crate::cdt::client::{Awaited, ClientError, Command, CommandView};
use crate::repl::repl_state::ReplState;
use vstd::prelude::*;

verus! {

/// One thing for the driver to do.
#[derive(Debug, Clone)]
pub enum Effect {
    /// Write the request of this command to the transport.
    Send(Command),
    /// Show this line to the user.
    Print(String),
    /// End the program with this status.
    Exit(i32),
}

/// An effect, as a specification sees it.
pub enum EffectView {
    Send(CommandView),
    Print(Seq<char>),
    Exit(i32),
}

impl View for Effect {
    type V = EffectView;

    open spec fn view(&self) -> EffectView {
        match self {
            Effect::Send(command) => EffectView::Send(command@),
            Effect::Print(text) => EffectView::Print(text@),
            Effect::Exit(status) => EffectView::Exit(*status),
        }
    }
}

/// The views of a list of effects.
pub open spec fn effect_views(effects: Seq<Effect>) -> Seq<EffectView> {
    effects.map_values(|effect: Effect| effect@)
}

/// What is to be made of the answer that a plan waits for.
#[derive(Debug, Clone, Copy, PartialEq, Eq, Structural)]
pub enum Continuation {
    /// The runtime domain is being enabled; the debugger domain is next.
    RuntimeEnabled,
    /// The debugger domain is being enabled; the profiler domain is next.
    DebuggerEnabled,
    /// The profiler domain is being enabled; next the debuggee is let run.
    ProfilerEnabled,
    /// The debuggee was let run for the first time: its run state opens the
    /// session.
    Initialized,
    /// The debuggee was let run: its run state becomes the state.
    RunState,
    /// An expression was sent: its value is shown.
    Evaluation,
    /// The script of the active frame was asked for: the original source
    /// around the frame is shown, or the generated code where that cannot be
    /// had.
    SourceCode,
    /// The script of the active frame was asked for: the generated code
    /// around the frame is shown.
    MinifiedSourceCode,
}

impl Continuation {
    /// The message that the wait before this continuation is for.
    pub open spec fn awaited_spec(self) -> Awaited {
        match self {
            Continuation::RuntimeEnabled => Awaited::Reply,
            Continuation::DebuggerEnabled => Awaited::Reply,
            Continuation::ProfilerEnabled => Awaited::Reply,
            Continuation::Evaluation => Awaited::Reply,
            Continuation::Initialized => Awaited::PausedOrDestroyed,
            Continuation::RunState => Awaited::PausedOrDestroyed,
            Continuation::SourceCode => Awaited::ScriptSource,
            Continuation::MinifiedSourceCode => Awaited::ScriptSource,
        }
    }

    /// The message that the wait before this continuation is for.
    pub fn awaited(&self) -> (awaited: Awaited)
        ensures
            awaited == self.awaited_spec(),
    {
        match self {
            Continuation::RuntimeEnabled => Awaited::Reply,
            Continuation::DebuggerEnabled => Awaited::Reply,
            Continuation::ProfilerEnabled => Awaited::Reply,
            Continuation::Evaluation => Awaited::Reply,
            Continuation::Initialized => Awaited::PausedOrDestroyed,
            Continuation::RunState => Awaited::PausedOrDestroyed,
            Continuation::SourceCode => Awaited::ScriptSource,
            Continuation::MinifiedSourceCode => Awaited::ScriptSource,
        }
    }
}

/// The outcome of a command or of an answer: the state that the session is in
/// from now on, the effects for the driver, the continuation for the answer
/// that is waited for, if any, and the error, where the command was refused or
/// the wait has failed.
#[derive(Debug)]
pub struct Plan {
    pub state: ReplState,
    pub effects: Vec<Effect>,
    pub next: Option<Continuation>,
    pub error: Option<ClientError>,
}

impl Plan {
    /// Whether the plan has the given state, exactly the given effects, goes
    /// on as given, and reports no error.
    pub open spec fn is(
        self,
        state: ReplState,
        effects: Seq<EffectView>,
        next: Option<Continuation>,
    ) -> bool {
        &&& self.state == state
        &&& effect_views(self.effects@) == effects
        &&& self.next == next
        &&& self.error is None
    }

    /// Whether the plan refuses a command: the state stays, the effects are
    /// exactly the given ones, nothing is waited for, and the error is
    /// reported.
    pub open spec fn refuses(
        self,
        state: ReplState,
        effects: Seq<EffectView>,
        e: ClientError,
    ) -> bool {
        &&& self.state == state
        &&& effect_views(self.effects@) == effects
        &&& self.next is None
        &&& self.error == Some(e)
    }

    /// A plan that only shows one line.
    pub fn say(state: ReplState, line: &str) -> (plan: Plan)
        ensures
            plan.is(state, seq![EffectView::Print(line@)], None),
    {
        let mut effects: Vec<Effect> = Vec::new();
        effects.push(Effect::Print(line.to_owned()));
        assert(effect_views(effects@) =~= seq![EffectView::Print(line@)]);
        Plan { state, effects, next: None, error: None }
    }

    /// A plan that does nothing.
    pub fn nothing(state: ReplState) -> (plan: Plan)
        ensures
            plan.is(state, Seq::empty(), None),
    {
        let effects: Vec<Effect> = Vec::new();
        assert(effect_views(effects@) =~= Seq::<EffectView>::empty());
        Plan { state, effects, next: None, error: None }
    }

    /// A plan that refuses a command and tells the user why.
    pub fn refuse(state: ReplState, line: &str, e: ClientError) -> (plan: Plan)
        ensures
            plan.refuses(state, seq![EffectView::Print(line@)], e),
    {
        let mut effects: Vec<Effect> = Vec::new();
        effects.push(Effect::Print(line.to_owned()));
        assert(effect_views(effects@) =~= seq![EffectView::Print(line@)]);
        Plan { state, effects, next: None, error: Some(e) }
    }

    /// A plan that refuses a command without a word.
    pub fn refuse_silently(state: ReplState, e: ClientError) -> (plan: Plan)
        ensures
            plan.refuses(state, Seq::empty(), e),
    {
        let effects: Vec<Effect> = Vec::new();
        assert(effect_views(effects@) =~= Seq::<EffectView>::empty());
        Plan { state, effects, next: None, error: Some(e) }
    }

    /// A plan that sends one command and waits for its answer.
    pub fn ask(state: ReplState, command: Command, next: Continuation) -> (plan: Plan)
        ensures
            plan.is(state, seq![EffectView::Send(command@)], Some(next)),
    {
        let mut effects: Vec<Effect> = Vec::new();
        effects.push(Effect::Send(command));
        assert(effect_views(effects@) =~= seq![EffectView::Send(command@)]);
        Plan { state, effects, next: Some(next), error: None }
    }
}

} // verus!
