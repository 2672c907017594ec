//! The session as a state machine: it takes in the lines that the user types
//! and the frames that the debuggee sends, and says after each what is to be
//! sent and shown.

use crate::cdt::client::{
    classified_text, error_name, error_text, expect_remote_object, expect_script_source, last_of,
    last_message, narrowed, remote_object, response_views, script_text,
    CDTClientResult, ClientError, Command, CommandView, PauseOnExceptions, PendingRead, ReadStep,
};
use crate::cdt::models::{RemoteObjectView, Response, ResponseView};
use crate::repl::continue_to_command::continue_to_plan;
use crate::repl::evaluate_command::{
    evaluate_expression, evaluate_expression_from_command, evaluation_plan, evaluation_shown,
    evalulate_and_stringify_command, rest_of, show_evaluation, stringified,
};
use crate::repl::handle_pause_or_destroy_message::{follows, handle_pause_or_destroy_message};
use crate::repl::plan::{effect_views, Continuation, Effect, EffectView, Plan};
use crate::repl::repl_state::{DebuggerState, ReplState};
use crate::repl::show_source_code_command::{
    minified_shown, show_minified_source, show_source, show_source_code_command, source_plan,
    source_shown,
};
use crate::text::{from_chars, push_text, same_text, starts_with, to_chars};
use vstd::prelude::*;

verus! {

/// A command that lets the debuggee run on.
#[derive(Debug, Clone, Copy, PartialEq, Eq, Structural)]
pub enum Step {
    /// Run on.
    Resume,
    /// Run to the next statement, over calls.
    Over,
    /// Run to the next statement, into a call.
    Into,
    /// Run to the end of the current call.
    Out,
}

/// What a step sends. Resuming and stepping over are sent and left at that,
/// so the command that waits for the run state is sent after them; stepping
/// into and out of a call wait for the run state themselves.
pub open spec fn step_effects(step: Step) -> Seq<EffectView> {
    match step {
        Step::Resume => seq![
            EffectView::Send(CommandView::DebuggerResume),
            EffectView::Send(CommandView::RuntimeRunIfWaitingForDebugger),
        ],
        Step::Over => seq![
            EffectView::Send(CommandView::DebuggerStepOver),
            EffectView::Send(CommandView::RuntimeRunIfWaitingForDebugger),
        ],
        Step::Into => seq![EffectView::Send(CommandView::DebuggerStepInto)],
        Step::Out => seq![EffectView::Send(CommandView::DebuggerStepOut)],
    }
}

/// The plan for a step. Only a paused debuggee can be stepped: otherwise the
/// command is refused, the user is told so, and nothing is sent.
pub open spec fn step_plan(plan: Plan, step: Step, repl_state: ReplState) -> bool {
    if repl_state.debugger_state is Paused {
        plan.is(repl_state, step_effects(step), Some(Continuation::RunState))
    } else {
        plan.refuses(
            repl_state,
            seq![EffectView::Print("Error: debugger is not paused"@)],
            ClientError::NotPaused,
        )
    }
}

/// Lets a paused debuggee run on, and waits for its run state.
pub fn step_command(step: Step, repl_state: ReplState) -> (plan: Plan)
    ensures
        step_plan(plan, step, repl_state),
{
    if !repl_state.is_paused() {
        return Plan::refuse(repl_state, "Error: debugger is not paused", ClientError::NotPaused);
    }
    let mut effects: Vec<Effect> = Vec::new();
    match step {
        Step::Resume => {
            effects.push(Effect::Send(Command::DebuggerResume));
            effects.push(Effect::Send(Command::RuntimeRunIfWaitingForDebugger));
        },
        Step::Over => {
            effects.push(Effect::Send(Command::DebuggerStepOver));
            effects.push(Effect::Send(Command::RuntimeRunIfWaitingForDebugger));
        },
        Step::Into => {
            effects.push(Effect::Send(Command::DebuggerStepInto));
        },
        Step::Out => {
            effects.push(Effect::Send(Command::DebuggerStepOut));
        },
    }
    assert(effect_views(effects@) =~= step_effects(step));
    Plan { state: repl_state, effects, next: Some(Continuation::RunState), error: None }
}

/// Handles `c` and `continue`.
pub fn continue_command(repl_state: ReplState) -> (plan: Plan)
    ensures
        step_plan(plan, Step::Resume, repl_state),
{
    step_command(Step::Resume, repl_state)
}

/// Handles `n` and `next`.
pub fn next_command(repl_state: ReplState) -> (plan: Plan)
    ensures
        step_plan(plan, Step::Over, repl_state),
{
    step_command(Step::Over, repl_state)
}

/// The plan that ends the session at the user's wish.
pub open spec fn quit_plan(plan: Plan) -> bool {
    &&& plan.state.debugger_state is Exited
    &&& plan.state.call_frames is None
    &&& effect_views(plan.effects@) == seq![EffectView::Print("Exiting, see ya!"@)]
    &&& plan.next is None
    &&& plan.error is None
}

/// Handles `q` and `quit`.
pub fn quit_command() -> (plan: Plan)
    ensures
        quit_plan(plan),
{
    Plan::say(
        ReplState { call_frames: None, debugger_state: DebuggerState::Exited },
        "Exiting, see ya!",
    )
}

/// The text that explains the commands.
pub const HELP: &'static str =
    "s / show                 show source code of the current call frame\n\
c / continue             resume the execution\n\
n / next                 step over in the execution\n\
q / quit                 quit the debugger\n\
h / help                 show this help\n\
es <expresssion>         evalute JS expression and stringify it in the current call frame\n\
e <expresssion>          evalute JS expression in the current call frame\n\
<expression>             evalute JS expression in the current call frame";

/// Handles `h` and `help`.
pub fn help_command(repl_state: ReplState) -> (plan: Plan)
    ensures
        plan.is(repl_state, seq![EffectView::Print(HELP@)], None),
{
    Plan::say(repl_state, HELP)
}

/// What a line of the user asks for.
#[derive(Debug, Clone, Copy, PartialEq, Eq, Structural)]
pub enum Keyword {
    Show,
    Continue,
    Evaluate,
    Stringify,
    Next,
    Quit,
    Help,
    /// No command: the line as a whole is an expression to evaluate.
    Expression,
}

/// How a line is read: a command word has to be the whole line, the prefixes
/// `e ` and `es ` take what follows them as an expression, and any other line
/// is an expression itself.
pub open spec fn keyword_of(line: Seq<char>) -> Keyword {
    if line == "s"@ || line == "show"@ {
        Keyword::Show
    } else if line == "c"@ || line == "continue"@ {
        Keyword::Continue
    } else if "e "@.is_prefix_of(line) {
        Keyword::Evaluate
    } else if "es "@.is_prefix_of(line) {
        Keyword::Stringify
    } else if line == "n"@ || line == "next"@ {
        Keyword::Next
    } else if line == "q"@ || line == "quit"@ {
        Keyword::Quit
    } else if line == "h"@ || line == "help"@ {
        Keyword::Help
    } else {
        Keyword::Expression
    }
}

/// Reads what a line asks for.
pub fn parse_command(line: &str) -> (keyword: Keyword)
    ensures
        keyword == keyword_of(line@),
{
    if same_text(line, "s") || same_text(line, "show") {
        Keyword::Show
    } else if same_text(line, "c") || same_text(line, "continue") {
        Keyword::Continue
    } else if starts_with(&to_chars(line), &to_chars("e ")) {
        Keyword::Evaluate
    } else if starts_with(&to_chars(line), &to_chars("es ")) {
        Keyword::Stringify
    } else if same_text(line, "n") || same_text(line, "next") {
        Keyword::Next
    } else if same_text(line, "q") || same_text(line, "quit") {
        Keyword::Quit
    } else if same_text(line, "h") || same_text(line, "help") {
        Keyword::Help
    } else {
        Keyword::Expression
    }
}

/// The plan for a line of the user.
pub open spec fn command_plan(plan: Plan, line: Seq<char>, repl_state: ReplState) -> bool {
    match keyword_of(line) {
        Keyword::Show => source_plan(plan, repl_state, Continuation::SourceCode),
        Keyword::Continue => step_plan(plan, Step::Resume, repl_state),
        Keyword::Evaluate => evaluation_plan(plan, rest_of(line, 2), repl_state),
        Keyword::Stringify => evaluation_plan(plan, stringified(rest_of(line, 3)), repl_state),
        Keyword::Next => step_plan(plan, Step::Over, repl_state),
        Keyword::Quit => quit_plan(plan),
        Keyword::Help => plan.is(repl_state, seq![EffectView::Print(HELP@)], None),
        Keyword::Expression => evaluation_plan(plan, line, repl_state),
    }
}

/// Handles a line of the user.
pub fn run_command(line: &str, repl_state: ReplState) -> (plan: Plan)
    ensures
        command_plan(plan, line@, repl_state),
{
    match parse_command(line) {
        Keyword::Show => show_source_code_command(repl_state),
        Keyword::Continue => continue_command(repl_state),
        Keyword::Evaluate => evaluate_expression_from_command(line, repl_state),
        Keyword::Stringify => evalulate_and_stringify_command(line, repl_state),
        Keyword::Next => next_command(repl_state),
        Keyword::Quit => quit_command(),
        Keyword::Help => help_command(repl_state),
        Keyword::Expression => evaluate_expression(line, repl_state),
    }
}

/// The line that reports an error.
pub open spec fn error_line(e: ClientError) -> Seq<char> {
    "Error: "@ + error_name(e)
}

/// The plan after a failure: the error is reported, the user is told, and
/// nothing more is waited for. A failure of the transport ends the session;
/// any other leaves the state as it is.
pub open spec fn failed(
    plan: Plan,
    repl_state: ReplState,
    shown: Seq<char>,
    e: ClientError,
) -> bool {
    &&& effect_views(plan.effects@) == seq![EffectView::Print(shown)]
    &&& plan.next is None
    &&& plan.error == Some(e)
    &&& if e is Transport {
        plan.state.debugger_state is Exited && plan.state.call_frames is None
    } else {
        plan.state == repl_state
    }
}

fn fail(repl_state: ReplState, shown: &str, e: ClientError) -> (plan: Plan)
    ensures
        failed(plan, repl_state, shown@, e),
{
    match e {
        ClientError::Transport => Plan::refuse(
            ReplState { call_frames: None, debugger_state: DebuggerState::Exited },
            shown,
            e,
        ),
        _ => Plan::refuse(repl_state, shown, e),
    }
}

fn report(repl_state: ReplState, e: ClientError) -> (plan: Plan)
    ensures
        failed(plan, repl_state, error_line(e), e),
{
    let mut chars: Vec<char> = Vec::new();
    push_text(&mut chars, "Error: ");
    push_text(&mut chars, error_text(e));
    let shown = from_chars(&chars);
    fail(repl_state, shown.as_str(), e)
}

/// The plan once the run state has come back. A paused debuggee and one that
/// is gone give the state that follows; at the opening of the session the
/// user is told of a debuggee that is gone, and the program ends with status
/// 1. Any other message breaks the protocol.
pub open spec fn run_state_entered(
    plan: Plan,
    opening: bool,
    last: Option<Response>,
    repl_state: ReplState,
) -> bool {
    match last {
        Some(Response::DebuggerPaused(paused)) => {
            &&& follows(plan.state, Some(paused))
            &&& effect_views(plan.effects@) == Seq::<EffectView>::empty()
            &&& plan.next is None
            &&& plan.error is None
        },
        Some(Response::RuntimeExecutionContextDestroyed(_)) => {
            &&& follows(plan.state, None)
            &&& effect_views(plan.effects@) == if opening {
                seq![EffectView::Print("Debugger context destroyed..."@), EffectView::Exit(1)]
            } else {
                Seq::<EffectView>::empty()
            }
            &&& plan.next is None
            &&& plan.error is None
        },
        _ => failed(
            plan,
            repl_state,
            error_line(ClientError::ProtocolContract),
            ClientError::ProtocolContract,
        ),
    }
}

/// The plan once the text of a script has come back: the source around the
/// active frame is shown.
pub open spec fn source_answered(
    plan: Plan,
    minified: bool,
    script: Result<Seq<char>, ClientError>,
    repl_state: ReplState,
) -> bool {
    match script {
        Ok(text) => match repl_state.active_call_frame() {
            Some(frame) => plan.is(
                repl_state,
                seq![
                    EffectView::Print(
                        if minified {
                            minified_shown(text, frame.location@)
                        } else {
                            source_shown(text, frame.location@)
                        },
                    ),
                ],
                None,
            ),
            None => plan.refuses(
                repl_state,
                seq![EffectView::Print("Error: no active call frame"@)],
                ClientError::NotPaused,
            ),
        },
        Err(e) => failed(plan, repl_state, error_line(e), e),
    }
}

/// The plan once the answer to an evaluation has come back: the value is
/// shown, or the error that stands in its place is reported.
pub open spec fn evaluation_answered(
    plan: Plan,
    object: Result<RemoteObjectView, ClientError>,
    repl_state: ReplState,
) -> bool {
    match object {
        Ok(_) => plan.is(repl_state, seq![EffectView::Print(evaluation_shown(object))], None),
        Err(e) => failed(plan, repl_state, evaluation_shown(object), e),
    }
}

/// The plan once a wait is over, for each continuation and each outcome of
/// the wait.
pub open spec fn resumed(
    plan: Plan,
    next: Continuation,
    answer: CDTClientResult<Vec<Response>>,
    repl_state: ReplState,
) -> bool {
    match answer {
        Err(e) => failed(
            plan,
            repl_state,
            if next is Evaluation {
                evaluation_shown(Err(e))
            } else {
                error_line(e)
            },
            e,
        ),
        Ok(messages) => match next {
            Continuation::RuntimeEnabled => plan.is(
                repl_state,
                seq![EffectView::Send(CommandView::DebuggerEnable)],
                Some(Continuation::DebuggerEnabled),
            ),
            Continuation::DebuggerEnabled => plan.is(
                repl_state,
                seq![
                    EffectView::Send(
                        CommandView::DebuggerSetPauseOnExceptions(PauseOnExceptions::Never),
                    ),
                    EffectView::Send(CommandView::ProfilerEnable),
                ],
                Some(Continuation::ProfilerEnabled),
            ),
            Continuation::ProfilerEnabled => plan.is(
                repl_state,
                seq![
                    EffectView::Send(CommandView::DebuggerResume),
                    EffectView::Print("Waiting for the debugger..."@),
                    EffectView::Send(CommandView::RuntimeRunIfWaitingForDebugger),
                ],
                Some(Continuation::Initialized),
            ),
            Continuation::Initialized => run_state_entered(
                plan,
                true,
                last_of(messages@),
                repl_state,
            ),
            Continuation::RunState => run_state_entered(
                plan,
                false,
                last_of(messages@),
                repl_state,
            ),
            Continuation::Evaluation => evaluation_answered(
                plan,
                narrowed(response_views(messages@), |last: ResponseView| remote_object(last)),
                repl_state,
            ),
            Continuation::SourceCode => source_answered(
                plan,
                false,
                narrowed(response_views(messages@), |last: ResponseView| script_text(last)),
                repl_state,
            ),
            Continuation::MinifiedSourceCode => source_answered(
                plan,
                true,
                narrowed(response_views(messages@), |last: ResponseView| script_text(last)),
                repl_state,
            ),
        },
    }
}

fn enter_run_state(opening: bool, messages: Vec<Response>, repl_state: ReplState) -> (plan: Plan)
    ensures
        run_state_entered(plan, opening, last_of(messages@), repl_state),
{
    match last_message(messages) {
        Ok(Response::DebuggerPaused(paused)) => Plan::nothing(
            handle_pause_or_destroy_message(Some(paused)),
        ),
        Ok(Response::RuntimeExecutionContextDestroyed(_)) => {
            let state = handle_pause_or_destroy_message(None);
            if opening {
                let mut effects: Vec<Effect> = Vec::new();
                let line = "Debugger context destroyed...";
                effects.push(Effect::Print(line.to_owned()));
                effects.push(Effect::Exit(1));
                assert(effect_views(effects@) =~= seq![
                    EffectView::Print("Debugger context destroyed..."@),
                    EffectView::Exit(1),
                ]);
                Plan { state, effects, next: None, error: None }
            } else {
                Plan::nothing(state)
            }
        },
        _ => report(repl_state, ClientError::ProtocolContract),
    }
}

fn answer_source(minified: bool, messages: Vec<Response>, repl_state: ReplState) -> (plan: Plan)
    ensures
        source_answered(
            plan,
            minified,
            narrowed(response_views(messages@), |last: ResponseView| script_text(last)),
            repl_state,
        ),
{
    let source = match expect_script_source(messages) {
        Ok(source) => source,
        Err(e) => {
            return report(repl_state, e);
        },
    };
    let shown = match repl_state.get_active_call_frame() {
        Some(frame) => Some(
            if minified {
                show_minified_source(source.result.script_source.as_str(), frame)
            } else {
                show_source(source.result.script_source.as_str(), frame)
            },
        ),
        None => None,
    };
    match shown {
        Some(text) => Plan::say(repl_state, text.as_str()),
        None => Plan::refuse(repl_state, "Error: no active call frame", ClientError::NotPaused),
    }
}

/// Goes on after a wait: makes of the answer what the continuation says.
pub fn resume(
    next: Continuation,
    answer: CDTClientResult<Vec<Response>>,
    repl_state: ReplState,
) -> (plan: Plan)
    ensures
        resumed(plan, next, answer, repl_state),
{
    let messages = match answer {
        Ok(messages) => messages,
        Err(e) => {
            return match next {
                Continuation::Evaluation => {
                    let shown = show_evaluation(Err(e));
                    fail(repl_state, shown.as_str(), e)
                },
                _ => report(repl_state, e),
            };
        },
    };
    match next {
        Continuation::RuntimeEnabled => Plan::ask(
            repl_state,
            Command::DebuggerEnable,
            Continuation::DebuggerEnabled,
        ),
        Continuation::DebuggerEnabled => {
            let mut effects: Vec<Effect> = Vec::new();
            effects.push(
                Effect::Send(Command::DebuggerSetPauseOnExceptions(PauseOnExceptions::Never)),
            );
            effects.push(Effect::Send(Command::ProfilerEnable));
            assert(effect_views(effects@) =~= seq![
                EffectView::Send(
                    CommandView::DebuggerSetPauseOnExceptions(PauseOnExceptions::Never),
                ),
                EffectView::Send(CommandView::ProfilerEnable),
            ]);
            Plan {
                state: repl_state,
                effects,
                next: Some(Continuation::ProfilerEnabled),
                error: None,
            }
        },
        Continuation::ProfilerEnabled => {
            let mut effects: Vec<Effect> = Vec::new();
            effects.push(Effect::Send(Command::DebuggerResume));
            let line = "Waiting for the debugger...";
            effects.push(Effect::Print(line.to_owned()));
            effects.push(Effect::Send(Command::RuntimeRunIfWaitingForDebugger));
            assert(effect_views(effects@) =~= seq![
                EffectView::Send(CommandView::DebuggerResume),
                EffectView::Print("Waiting for the debugger..."@),
                EffectView::Send(CommandView::RuntimeRunIfWaitingForDebugger),
            ]);
            Plan { state: repl_state, effects, next: Some(Continuation::Initialized), error: None }
        },
        Continuation::Initialized => enter_run_state(true, messages, repl_state),
        Continuation::RunState => enter_run_state(false, messages, repl_state),
        Continuation::Evaluation => {
            let object = expect_remote_object(messages);
            let error = match &object {
                Ok(_) => None,
                Err(e) => Some(*e),
            };
            let shown = show_evaluation(object);
            match error {
                None => Plan::say(repl_state, shown.as_str()),
                Some(e) => fail(repl_state, shown.as_str(), e),
            }
        },
        Continuation::SourceCode => answer_source(false, messages, repl_state),
        Continuation::MinifiedSourceCode => answer_source(true, messages, repl_state),
    }
}

/// The plan that opens a session: the state is fresh, and the runtime domain
/// is the first to be enabled.
pub fn start_repl() -> (plan: Plan)
    ensures
        plan.state.debugger_state is Uninitialized,
        plan.state.call_frames is None,
        effect_views(plan.effects@) == seq![EffectView::Send(CommandView::RuntimeEnable)],
        plan.next == Some(Continuation::RuntimeEnabled),
        plan.error is None,
{
    Plan::ask(ReplState::new(), Command::RuntimeEnable, Continuation::RuntimeEnabled)
}

/// The state that opens the session, from the first run state of the
/// debuggee.
pub fn initialize(messages: Vec<Response>) -> (plan: Plan)
    ensures
        resumed(plan, Continuation::Initialized, Ok(messages), ReplState::new_spec()),
{
    resume(Continuation::Initialized, Ok(messages), ReplState::new())
}

/// A wait under way, and what is to be made of its answer.
#[derive(Debug)]
pub struct Waiting {
    pub read: PendingRead,
    pub next: Continuation,
}

/// The session: its state, and the wait that is under way, if any.
#[derive(Debug)]
pub struct Repl {
    pub state: ReplState,
    pub waiting: Option<Waiting>,
}

/// What a turn of the session leaves for its driver: the effects to carry
/// out, and the error to report, if the turn ended in one.
#[derive(Debug)]
pub struct Turn {
    pub effects: Vec<Effect>,
    pub error: Option<ClientError>,
}

/// What the session needs next from its driver.
#[derive(Debug, Clone, Copy, PartialEq, Eq, Structural)]
pub enum Wants {
    /// The next frame from the debuggee.
    Frame,
    /// The next line from the user.
    Line,
    /// Nothing: the session is over.
    Nothing,
}

impl Repl {
    /// The state is well formed, a wait is for what its continuation expects,
    /// and a session that is over waits for nothing.
    pub open spec fn wf(self) -> bool {
        &&& self.state.wf()
        &&& self.waiting matches Some(waiting) ==> waiting.read.awaited
            == waiting.next.awaited_spec()
        &&& self.state.debugger_state is Exited ==> self.waiting is None
    }

    /// What the session needs next: a frame while a wait is under way, else a
    /// line, and nothing once it is over.
    pub open spec fn wants_spec(self) -> Wants {
        if self.waiting is Some {
            Wants::Frame
        } else if self.state.debugger_state is Exited {
            Wants::Nothing
        } else {
            Wants::Line
        }
    }

    /// The continuation of the wait that is under way.
    pub open spec fn next(self) -> Option<Continuation> {
        match self.waiting {
            Some(waiting) => Some(waiting.next),
            None => None,
        }
    }

    /// Whether the session and the effects are what a plan comes to: the
    /// state and the effects are the plan's, and a wait has begun where the
    /// plan waits, with nothing read yet.
    pub open spec fn adopts(self, turn: Turn, plan: Plan) -> bool {
        &&& self.state == plan.state
        &&& turn.effects == plan.effects
        &&& turn.error == plan.error
        &&& self.next() == plan.next
        &&& self.waiting matches Some(waiting) ==> waiting.read.messages@.len() == 0
            && waiting.read.awaited == waiting.next.awaited_spec()
    }

    /// The plan that a session and the turn on the way to it amount to.
    pub open spec fn plan_of(self, turn: Turn) -> Plan {
        Plan { state: self.state, effects: turn.effects, next: self.next(), error: turn.error }
    }

    /// Whether a turn has left nothing to do and nothing to report.
    pub open spec fn idle(turn: Turn) -> bool {
        turn.effects@.len() == 0 && turn.error is None
    }

    fn adopt(plan: Plan) -> (out: (Repl, Turn))
        ensures
            out.0.adopts(out.1, plan),
            out.0.plan_of(out.1) == plan,
    {
        let waiting = match plan.next {
            Some(next) => Some(Waiting { read: PendingRead::new(next.awaited()), next }),
            None => None,
        };
        (Repl { state: plan.state, waiting }, Turn { effects: plan.effects, error: plan.error })
    }

    /// Opens a session: the first command goes out, and its reply is waited
    /// for.
    pub fn start() -> (out: (Repl, Turn))
        ensures
            out.0.wf(),
            out.0.state == ReplState::new_spec(),
            out.0.next() == Some(Continuation::RuntimeEnabled),
            out.0.waiting->0.read.messages@.len() == 0,
            effect_views(out.1.effects@) == seq![EffectView::Send(CommandView::RuntimeEnable)],
            out.1.error is None,
    {
        Repl::adopt(start_repl())
    }

    /// What the session needs next.
    pub fn wants(&self) -> (wants: Wants)
        ensures
            wants == self.wants_spec(),
    {
        if self.waiting.is_some() {
            Wants::Frame
        } else if self.state.is_exited() {
            Wants::Nothing
        } else {
            Wants::Line
        }
    }

    /// Takes in a line of the user. While the session waits for a frame, or
    /// is over, the line changes nothing.
    pub fn on_line(self, line: &str) -> (out: (Repl, Turn))
        ensures
            self.wf() ==> out.0.wf(),
            if self.wants_spec() is Line {
                &&& command_plan(out.0.plan_of(out.1), line@, self.state)
                &&& out.0.adopts(out.1, out.0.plan_of(out.1))
            } else {
                out.0 == self && Repl::idle(out.1)
            },
    {
        match self.wants() {
            Wants::Line => Repl::adopt(run_command(line, self.state)),
            _ => (self, Turn { effects: Vec::new(), error: None }),
        }
    }

    /// Takes in a frame of the debuggee. The frame joins the wait that is
    /// under way; if it ends the wait, or cannot be classified, the session
    /// goes on as the continuation says. Without a wait the frame changes
    /// nothing.
    pub fn on_frame(self, frame: &str) -> (out: (Repl, Turn))
        ensures
            self.wf() ==> out.0.wf(),
            match self.waiting {
                None => out.0 == self && Repl::idle(out.1),
                Some(waiting) => match classified_text(frame@) {
                    Err(e) => {
                        &&& resumed(
                            out.0.plan_of(out.1),
                            waiting.next,
                            Err::<Vec<Response>, ClientError>(e),
                            self.state,
                        )
                        &&& out.0.adopts(out.1, out.0.plan_of(out.1))
                    },
                    Ok(message) => if waiting.read.awaited.accepts_view(message) {
                        &&& exists|messages: Vec<Response>|
                            #![trigger response_views(messages@)]
                            response_views(messages@) == response_views(
                                waiting.read.messages@,
                            ).push(message) && resumed(
                                out.0.plan_of(out.1),
                                waiting.next,
                                Ok::<Vec<Response>, ClientError>(messages),
                                self.state,
                            )
                        &&& out.0.adopts(out.1, out.0.plan_of(out.1))
                    } else {
                        &&& out.0.state == self.state
                        &&& Repl::idle(out.1)
                        &&& out.0.waiting matches Some(still)
                        &&& still.next == waiting.next
                        &&& still.read.awaited == waiting.read.awaited
                        &&& response_views(still.read.messages@) == response_views(
                            waiting.read.messages@,
                        ).push(message)
                    },
                },
            },
    {
        let Repl { state, waiting } = self;
        let waiting = match waiting {
            Some(waiting) => waiting,
            None => {
                return (Repl { state, waiting: None }, Turn { effects: Vec::new(), error: None });
            },
        };
        let Waiting { read, next } = waiting;
        match read.accept_frame(frame) {
            Err(e) => Repl::adopt(resume(next, Err(e), state)),
            Ok(ReadStep::Done(messages)) => Repl::adopt(resume(next, Ok(messages), state)),
            Ok(ReadStep::Pending(read)) => (
                Repl { state, waiting: Some(Waiting { read, next }) },
                Turn { effects: Vec::new(), error: None },
            ),
        }
    }

    /// Takes in the failure of the transport: the wait that is under way ends
    /// with it, and so does the session. Without a wait nothing changes.
    pub fn on_transport_failure(self) -> (out: (Repl, Turn))
        ensures
            self.wf() ==> out.0.wf(),
            match self.waiting {
                None => out.0 == self && Repl::idle(out.1),
                Some(waiting) => {
                    &&& resumed(
                        out.0.plan_of(out.1),
                        waiting.next,
                        Err::<Vec<Response>, ClientError>(ClientError::Transport),
                        self.state,
                    )
                    &&& out.0.waiting is None
                    &&& out.0.state.debugger_state is Exited
                    &&& out.1.error == Some(ClientError::Transport)
                },
            },
    {
        let Repl { state, waiting } = self;
        match waiting {
            Some(waiting) => Repl::adopt(resume(waiting.next, Err(ClientError::Transport), state)),
            None => (Repl { state, waiting: None }, Turn { effects: Vec::new(), error: None }),
        }
    }
}

/// A step from a paused session sends its commands and waits for the run
/// state; and once the wait is over, however it ended, the session is paused
/// or over. Where it is paused anew, the innermost frame of the new call stack
/// is the active one.
pub proof fn lemma_step_ends_paused_or_exited(
    step: Step,
    repl_state: ReplState,
    begun: Plan,
    answer: CDTClientResult<Vec<Response>>,
    ended: Plan,
)
    requires
        repl_state.wf(),
        repl_state.debugger_state is Paused,
        step_plan(begun, step, repl_state),
        resumed(ended, Continuation::RunState, answer, begun.state),
    ensures
        begun.next == Some(Continuation::RunState),
        begun.state == repl_state,
        ended.next is None,
        ended.state.wf(),
        ended.state.debugger_state is Paused || ended.state.debugger_state is Exited,
        ended.state != repl_state ==> (ended.state.call_frames matches Some(stack)
            ==> stack.active_id == 0),
        match answer {
            Ok(messages) => match last_of(messages@) {
                Some(Response::DebuggerPaused(_)) => ended.state.debugger_state is Paused,
                Some(Response::RuntimeExecutionContextDestroyed(_)) =>
                    ended.state.debugger_state is Exited,
                _ => ended.state == repl_state,
            },
            Err(e) => if e is Transport {
                ended.state.debugger_state is Exited
            } else {
                ended.state == repl_state
            },
        },
{
}

/// A session that is over wants nothing more: no line and no frame is taken
/// in, so nothing leads out of the state.
pub proof fn lemma_exited_wants_nothing(repl: Repl)
    requires
        repl.wf(),
        repl.state.debugger_state is Exited,
    ensures
        repl.wants_spec() == Wants::Nothing,
{
}

/// Running on to a line, from a paused session: either nothing is sent and
/// the state stays, or the run state is waited for, and once that wait is
/// over, however it ended, the session is paused or over.
pub proof fn lemma_continue_to_ends_paused_or_exited(
    line: Seq<char>,
    repl_state: ReplState,
    begun: Plan,
    answer: CDTClientResult<Vec<Response>>,
    ended: Plan,
)
    requires
        repl_state.wf(),
        repl_state.debugger_state is Paused,
        continue_to_plan(begun, line, repl_state),
        begun.next matches Some(next) ==> resumed(ended, next, answer, begun.state),
    ensures
        begun.state == repl_state,
        begun.next is None || begun.next == Some(Continuation::RunState),
        begun.next is Some ==> {
            &&& ended.next is None
            &&& ended.state.wf()
            &&& ended.state.debugger_state is Paused || ended.state.debugger_state is Exited
            &&& ended.state != repl_state ==> (ended.state.call_frames matches Some(stack)
                ==> stack.active_id == 0)
        },
{
}

} // verus!
