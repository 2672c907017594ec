//! The client side of the inspector protocol: inbound frames are classified,
//! a wait gathers them until the awaited one has come, and each command pairs
//! what is sent with what is waited for and with what is made of the answer.
//!
//! Nothing here touches a socket. A command is put down as a `Request` for the
//! transport to write, and inbound frames are handed in as text.

use crate::cdt::models::{
    describes_request, destroyed_of, member_location, paused_of, remote_object_of,
    script_parsed_of, script_source_of, CallFrameView, DebuggerCallFrameId, DebuggerLocation,
    LocationView,
    DebuggerPausedResponse, RemoteObjectView, Request, Response, ResponseView, ResultResponse,
    ResultScriptSourceResponse, RuntimeExecutionContextDestroyedResponse, RuntimeRemoteObject,
    RuntimeRemoteObjectId, RuntimeScriptId, ScriptParsedResponse,
};
use crate::json::{
    empty_object, from_str, get, json_member, json_parsed, json_pretty, json_shape, member_text,
    set_member, string_views, text_member, text_value, to_string_pretty, JsonShape,
};
use crate::text::same_text;
use vstd::prelude::*;

verus! {

/// What can go wrong between a command and its answer.
#[derive(Debug, Clone, Copy, PartialEq, Eq, Structural)]
pub enum ClientError {
    /// The transport failed or has nothing more to give.
    Transport,
    /// A frame is no JSON object, or names a known kind of message without
    /// having its shape.
    Decode,
    /// The awaited message came, but is not of the kind that the command
    /// expects.
    ProtocolContract,
    /// The command needs a paused debuggee, and there is none.
    NotPaused,
}

/// What a step of the client gives: a value, or the error that stands in its
/// place.
pub type CDTClientResult<T> = Result<T, ClientError>;

/// The name under which an error is reported.
pub open spec fn error_name(e: ClientError) -> Seq<char> {
    match e {
        ClientError::Transport => "TransportError"@,
        ClientError::Decode => "DecodeError"@,
        ClientError::ProtocolContract => "ProtocolContractError"@,
        ClientError::NotPaused => "NotPausedError"@,
    }
}

/// The name under which an error is reported.
pub fn error_text(e: ClientError) -> (name: &'static str)
    ensures
        name@ == error_name(e),
{
    match e {
        ClientError::Transport => "TransportError",
        ClientError::Decode => "DecodeError",
        ClientError::ProtocolContract => "ProtocolContractError",
        ClientError::NotPaused => "NotPausedError",
    }
}

/// How an event is classified: by its name, which has to be a string. A known
/// name asks for the shape that goes with it; any other name is kept as an
/// unknown event.
pub open spec fn classified_event(message: serde_json::Value) -> Result<ResponseView, ClientError> {
    match member_text(message, "method"@) {
        None => Err(ClientError::Decode),
        Some(name) => if name == "Debugger.scriptParsed"@ {
            match script_parsed_of(message) {
                Some(parsed) => Ok(ResponseView::DebuggerScriptParsed(parsed)),
                None => Err(ClientError::Decode),
            }
        } else if name == "Debugger.paused"@ {
            match paused_of(message) {
                Some(frames) => Ok(ResponseView::DebuggerPaused(frames)),
                None => Err(ClientError::Decode),
            }
        } else if name == "Runtime.executionContextDestroyed"@ {
            match destroyed_of(message) {
                Some(id) => Ok(ResponseView::RuntimeExecutionContextDestroyed(id)),
                None => Err(ClientError::Decode),
            }
        } else {
            Ok(ResponseView::UnknownEvent(message))
        },
    }
}

/// How a reply is classified: by the keys of its `result`. `scriptSource`
/// makes it a script source, else `objectId` a remote object, and any other
/// payload is kept as it is.
pub open spec fn classified_reply(message: serde_json::Value) -> Result<ResponseView, ClientError> {
    match json_member(message, "result"@) {
        None => Err(ClientError::Decode),
        Some(result) => if json_member(result, "scriptSource"@) is Some {
            match script_source_of(message) {
                Some(text) => Ok(ResponseView::ResultScriptSource(text)),
                None => Err(ClientError::Decode),
            }
        } else if json_member(result, "objectId"@) is Some {
            match remote_object_of(result) {
                Some(object) => Ok(ResponseView::ResultRuntimeRemoteObject(object)),
                None => Err(ClientError::Decode),
            }
        } else {
            Ok(ResponseView::Result(result))
        },
    }
}

/// How a JSON value is classified. Only an object is a message. One with a
/// `method` is an event, else one with a `result` is a reply, and anything else
/// is kept as unknown.
pub open spec fn classified(message: serde_json::Value) -> Result<ResponseView, ClientError> {
    if !(json_shape(message) is Object) {
        Err(ClientError::Decode)
    } else if json_member(message, "method"@) is Some {
        classified_event(message)
    } else if json_member(message, "result"@) is Some {
        classified_reply(message)
    } else {
        Ok(ResponseView::Unknown(message))
    }
}

/// How the text of a frame is classified: it has to be JSON first.
pub open spec fn classified_text(frame: Seq<char>) -> Result<ResponseView, ClientError> {
    match json_parsed(frame) {
        Some(message) => classified(message),
        None => Err(ClientError::Decode),
    }
}

/// The view of what a classification gave.
pub open spec fn outcome_view(outcome: CDTClientResult<Response>) -> Result<
    ResponseView,
    ClientError,
> {
    match outcome {
        Ok(response) => Ok(response@),
        Err(e) => Err(e),
    }
}

/// Classifies a message that has a `method`.
pub fn parse_method_message(message: serde_json::Value) -> (outcome: CDTClientResult<Response>)
    ensures
        outcome_view(outcome) == classified_event(message),
{
    let name = match text_member(&message, "method") {
        Some(name) => name,
        None => {
            return Err(ClientError::Decode);
        },
    };
    if same_text(name.as_str(), "Debugger.scriptParsed") {
        match ScriptParsedResponse::from_value(&message) {
            Some(parsed) => Ok(Response::DebuggerScriptParsed(parsed)),
            None => Err(ClientError::Decode),
        }
    } else if same_text(name.as_str(), "Debugger.paused") {
        match DebuggerPausedResponse::from_value(&message) {
            Some(paused) => Ok(Response::DebuggerPaused(paused)),
            None => Err(ClientError::Decode),
        }
    } else if same_text(name.as_str(), "Runtime.executionContextDestroyed") {
        match RuntimeExecutionContextDestroyedResponse::from_value(&message) {
            Some(destroyed) => Ok(Response::RuntimeExecutionContextDestroyed(destroyed)),
            None => Err(ClientError::Decode),
        }
    } else {
        Ok(Response::UnknownEvent(message))
    }
}

/// Classifies a message that has a `result`.
pub fn parse_result_message(message: serde_json::Value) -> (outcome: CDTClientResult<Response>)
    ensures
        outcome_view(outcome) == classified_reply(message),
{
    let result = match get(&message, "result") {
        Some(result) => result,
        None => {
            return Err(ClientError::Decode);
        },
    };
    if get(result, "scriptSource").is_some() {
        match ResultScriptSourceResponse::from_value(&message) {
            Some(source) => Ok(Response::ResultScriptSource(source)),
            None => Err(ClientError::Decode),
        }
    } else if get(result, "objectId").is_some() {
        match RuntimeRemoteObject::from_value(result) {
            Some(object) => Ok(Response::ResultRuntimeRemoteObject(object)),
            None => Err(ClientError::Decode),
        }
    } else {
        Ok(Response::Result(ResultResponse { result: result.clone() }))
    }
}

/// Classifies a JSON value.
pub fn classify(message: serde_json::Value) -> (outcome: CDTClientResult<Response>)
    ensures
        outcome_view(outcome) == classified(message),
{
    if !message.is_object() {
        Err(ClientError::Decode)
    } else if get(&message, "method").is_some() {
        parse_method_message(message)
    } else if get(&message, "result").is_some() {
        parse_result_message(message)
    } else {
        Ok(Response::Unknown(message))
    }
}

/// Reads one frame and classifies it.
pub fn parse_message(message: &str) -> (outcome: CDTClientResult<Response>)
    ensures
        outcome_view(outcome) == classified_text(message@),
{
    match from_str(message) {
        Ok(parsed_message) => classify(parsed_message),
        Err(_) => Err(ClientError::Decode),
    }
}

/// Whether a text is the frame of a command: the indented JSON of an object
/// with the command's id, method and parameters.
pub open spec fn is_frame_of(text: Seq<char>, request: Request) -> bool {
    exists|value: serde_json::Value| #[trigger]
        describes_request(value, request.id, request.method@, request.params) && text
            == json_pretty(value)
}

/// Writes a command as the frame that goes over the wire. Every command has
/// a frame.
pub fn json_to_message(request: &Request) -> (frame: CDTClientResult<String>)
    ensures
        frame matches Ok(text) && is_frame_of(text@, *request),
{
    let value = request.to_value();
    assert(describes_request(value, request.id, request.method@, request.params));
    match to_string_pretty(&value) {
        Ok(text) => Ok(text),
        Err(_) => Err(ClientError::Transport),
    }
}

/// What a wait is for: the kind of message that ends it.
#[derive(Debug, Clone, Copy, PartialEq, Eq, Structural)]
pub enum Awaited {
    /// Any reply.
    Reply,
    /// The event that the debuggee has paused, or the one that it is gone.
    PausedOrDestroyed,
    /// The reply that carries a script's text.
    ScriptSource,
}

impl Awaited {
    /// Whether a message ends the wait.
    pub open spec fn accepts_view(self, message: ResponseView) -> bool {
        match self {
            Awaited::Reply => message is Result || message is ResultScriptSource
                || message is ResultRuntimeRemoteObject,
            Awaited::PausedOrDestroyed => message is DebuggerPaused
                || message is RuntimeExecutionContextDestroyed,
            Awaited::ScriptSource => message is ResultScriptSource,
        }
    }

    /// Whether a message ends the wait.
    pub fn accepts(&self, message: &Response) -> (accepted: bool)
        ensures
            accepted == self.accepts_view(message@),
    {
        match *self {
            Awaited::Reply => matches!(
                message,
                Response::Result(_) | Response::ResultScriptSource(_)
                    | Response::ResultRuntimeRemoteObject(_)
            ),
            Awaited::PausedOrDestroyed => matches!(
                message,
                Response::DebuggerPaused(_) | Response::RuntimeExecutionContextDestroyed(_)
            ),
            Awaited::ScriptSource => matches!(message, Response::ResultScriptSource(_)),
        }
    }
}

/// The views of a batch of messages.
pub open spec fn response_views(messages: Seq<Response>) -> Seq<ResponseView> {
    messages.map_values(|message: Response| message@)
}

/// The view of what a wait gave.
pub open spec fn batch_view(outcome: CDTClientResult<Vec<Response>>) -> Result<
    Seq<ResponseView>,
    ClientError,
> {
    match outcome {
        Ok(messages) => Ok(response_views(messages@)),
        Err(e) => Err(e),
    }
}

/// What a wait gives on the frames that the transport delivers, in their
/// order: every message up to and including the first that is accepted. A
/// frame that cannot be classified ends the wait with its error, and so does
/// the end of the frames, as a failure of the transport.
pub open spec fn wait_outcome(frames: Seq<Seq<char>>, awaited: Awaited) -> Result<
    Seq<ResponseView>,
    ClientError,
>
    decreases frames.len(),
{
    if frames.len() == 0 {
        Err(ClientError::Transport)
    } else {
        match classified_text(frames[0]) {
            Err(e) => Err(e),
            Ok(message) => if awaited.accepts_view(message) {
                Ok(seq![message])
            } else {
                match wait_outcome(frames.skip(1), awaited) {
                    Ok(rest) => Ok(seq![message] + rest),
                    Err(e) => Err(e),
                }
            },
        }
    }
}

/// How many frames a wait takes: those up to and including the one that ends
/// it.
pub open spec fn wait_length(frames: Seq<Seq<char>>, awaited: Awaited) -> nat
    decreases frames.len(),
{
    if frames.len() == 0 {
        0
    } else {
        match classified_text(frames[0]) {
            Err(_) => 1,
            Ok(message) => if awaited.accepts_view(message) {
                1
            } else {
                1 + wait_length(frames.skip(1), awaited)
            },
        }
    }
}

/// Where a wait stands after a frame.
pub enum Progress {
    /// The awaited message has not come yet; these are gathered.
    Pending(Seq<ResponseView>),
    /// The awaited message is the last of these.
    Done(Seq<ResponseView>),
    /// A frame could not be classified.
    Failed(ClientError),
}

/// What one more frame makes of a wait that has gathered some messages: the
/// frame is classified and joins them, and ends the wait if it is the awaited
/// one. A frame that cannot be classified ends the wait with its error.
pub open spec fn progress(gathered: Seq<ResponseView>, awaited: Awaited, frame: Seq<char>) -> Progress {
    match classified_text(frame) {
        Err(e) => Progress::Failed(e),
        Ok(message) => if awaited.accepts_view(message) {
            Progress::Done(gathered.push(message))
        } else {
            Progress::Pending(gathered.push(message))
        },
    }
}

/// What a run of frames, taken in one after the other, makes of a wait. Once
/// the wait has ended no further frame is taken in.
pub open spec fn fed(gathered: Seq<ResponseView>, awaited: Awaited, frames: Seq<Seq<char>>) -> Progress
    decreases frames.len(),
{
    if frames.len() == 0 {
        Progress::Pending(gathered)
    } else {
        match progress(gathered, awaited, frames[0]) {
            Progress::Pending(more) => fed(more, awaited, frames.skip(1)),
            ended => ended,
        }
    }
}

/// A wait under way: what it is for, and the messages gathered so far.
#[derive(Debug)]
pub struct PendingRead {
    pub awaited: Awaited,
    pub messages: Vec<Response>,
}

/// Where a wait stands after a frame.
#[derive(Debug)]
pub enum ReadStep {
    /// The awaited message has not come yet: read another frame.
    Pending(PendingRead),
    /// The awaited message is the last of these.
    Done(Vec<Response>),
}

/// Where a batch stands once it is known whether its newest message is the
/// awaited one.
#[derive(Debug)]
pub enum Gathered {
    /// The message was not the awaited one: the wait goes on with these.
    Pending(Vec<Response>),
    /// The message was the awaited one: it is the last of these.
    Done(Vec<Response>),
}

/// Takes a message into a batch, given the answer to whether it is the
/// awaited one: the message joins the batch at its end, and the answer alone
/// decides whether the wait is over.
pub fn gather(messages: Vec<Response>, message: Response, accepted: bool) -> (gathered: Gathered)
    ensures
        match gathered {
            Gathered::Done(batch) => accepted && batch@ == messages@.push(message),
            Gathered::Pending(batch) => !accepted && batch@ == messages@.push(message),
        },
{
    let mut batch = messages;
    batch.push(message);
    if accepted {
        Gathered::Done(batch)
    } else {
        Gathered::Pending(batch)
    }
}

/// Whether `seen` are the messages of the first frames, in their order, and
/// the predicate has refused each of them.
pub open spec fn refused_all<F: Fn(&Response) -> bool>(
    predicate: F,
    frames: Seq<Seq<char>>,
    seen: Seq<Response>,
) -> bool {
    &&& seen.len() <= frames.len()
    &&& forall|i: int|
        0 <= i < seen.len() ==> classified_text(frames[i]) == Ok::<ResponseView, ClientError>(
            (#[trigger] seen[i])@,
        ) && call_ensures(predicate, (&seen[i],), false)
}

/// What a wait under the caller's predicate makes of the frames at hand, of
/// which `left` are left unread at its end. Where it ends well, the batch
/// holds the messages of the first frames: the predicate has accepted the
/// last and refused each one before. Where it ends badly, the predicate has
/// seen and refused the message of every frame up to the end of the frames,
/// which is a failure of the transport, or up to a frame that cannot be
/// classified, which is a decode error.
pub open spec fn waited<F: Fn(&Response) -> bool>(
    predicate: F,
    frames: Seq<Seq<char>>,
    left: Seq<Seq<char>>,
    messages: CDTClientResult<Vec<Response>>,
) -> bool {
    match messages {
        Ok(batch) => {
            &&& 1 <= batch@.len() <= frames.len()
            &&& left == frames.skip(batch@.len() as int)
            &&& refused_all(predicate, frames, batch@.drop_last())
            &&& classified_text(frames[batch@.len() - 1]) == Ok::<ResponseView, ClientError>(
                batch@.last()@,
            )
            &&& call_ensures(predicate, (&batch@.last(),), true)
        },
        Err(e) => exists|seen: Seq<Response>|
            {
                &&& #[trigger] refused_all(predicate, frames, seen)
                &&& if seen.len() == frames.len() {
                    e == ClientError::Transport && left.len() == 0
                } else {
                    &&& e == ClientError::Decode
                    &&& classified_text(frames[seen.len() as int]) is Err
                    &&& left == frames.skip(seen.len() as int + 1)
                }
            },
    }
}

/// The view of a step of a wait.
pub open spec fn step_view(step: CDTClientResult<ReadStep>) -> Progress {
    match step {
        Ok(ReadStep::Pending(pending)) => Progress::Pending(response_views(pending.messages@)),
        Ok(ReadStep::Done(messages)) => Progress::Done(response_views(messages@)),
        Err(e) => Progress::Failed(e),
    }
}

impl PendingRead {
    /// A wait that has seen no frame yet.
    pub fn new(awaited: Awaited) -> (pending: PendingRead)
        ensures
            pending.awaited == awaited,
            pending.messages@.len() == 0,
    {
        PendingRead { awaited, messages: Vec::new() }
    }

    /// Takes in the next frame. The frame is classified and joins the batch;
    /// if it is the awaited one the batch is handed out, else the wait goes on.
    /// A frame that cannot be classified ends the wait with its error.
    pub fn accept_frame(self, frame: &str) -> (step: CDTClientResult<ReadStep>)
        ensures
            step_view(step) == progress(response_views(self.messages@), self.awaited, frame@),
            step matches Ok(ReadStep::Pending(pending)) ==> pending.awaited == self.awaited,
    {
        let message = match parse_message(frame) {
            Ok(message) => message,
            Err(e) => {
                return Err(e);
            },
        };
        let accepted = self.awaited.accepts(&message);
        let awaited = self.awaited;
        let ghost before = self.messages@;
        match gather(self.messages, message, accepted) {
            Gathered::Done(messages) => {
                assert(response_views(messages@) =~= response_views(before).push(message@));
                Ok(ReadStep::Done(messages))
            },
            Gathered::Pending(messages) => {
                assert(response_views(messages@) =~= response_views(before).push(message@));
                Ok(ReadStep::Pending(PendingRead { awaited, messages }))
            },
        }
    }
}

/// Taking in frames one after the other comes to the same as a wait on all
/// of them: it ends with the same batch or the same error, and where the
/// frames run out before the awaited message has come, the wait is still
/// under way, where a wait on a transport that has no more to give has
/// failed.
pub proof fn lemma_feeding_is_waiting(
    gathered: Seq<ResponseView>,
    awaited: Awaited,
    frames: Seq<Seq<char>>,
)
    ensures
        match fed(gathered, awaited, frames) {
            Progress::Done(messages) => wait_outcome(frames, awaited) matches Ok(batch)
                && messages == gathered + batch,
            Progress::Failed(e) => wait_outcome(frames, awaited) == Err::<
                Seq<ResponseView>,
                ClientError,
            >(e) && e == ClientError::Decode,
            Progress::Pending(_) => wait_outcome(frames, awaited) == Err::<
                Seq<ResponseView>,
                ClientError,
            >(ClientError::Transport),
        },
    decreases frames.len(),
{
    if frames.len() > 0 {
        match classified_text(frames[0]) {
            Err(e) => {
                if json_parsed(frames[0]) is Some {
                    lemma_classification(json_parsed(frames[0])->0);
                }
            },
            Ok(message) => {
                if awaited.accepts_view(message) {
                    assert(gathered.push(message) == gathered + seq![message]);
                } else {
                    lemma_feeding_is_waiting(gathered.push(message), awaited, frames.skip(1));
                    match wait_outcome(frames.skip(1), awaited) {
                        Ok(rest) => {
                            assert(gathered.push(message) + rest == gathered + (seq![message]
                                + rest));
                        },
                        Err(_) => {},
                    }
                }
            },
        }
    }
}

/// When the debuggee is to pause on an exception.
#[derive(Debug, Clone, Copy, PartialEq, Eq, Structural)]
pub enum PauseOnExceptions {
    /// On no exception.
    Never,
    /// On an exception that nothing catches.
    Uncaught,
    /// On every exception.
    All,
}

impl PauseOnExceptions {
    /// The word for the policy in the protocol.
    pub open spec fn state(self) -> Seq<char> {
        match self {
            PauseOnExceptions::Never => "none"@,
            PauseOnExceptions::Uncaught => "uncaught"@,
            PauseOnExceptions::All => "all"@,
        }
    }

    /// The word for the policy in the protocol.
    pub fn state_text(&self) -> (word: &'static str)
        ensures
            word@ == self.state(),
    {
        match self {
            PauseOnExceptions::Never => "none",
            PauseOnExceptions::Uncaught => "uncaught",
            PauseOnExceptions::All => "all",
        }
    }
}

/// The commands that this client sends.
#[derive(Debug, Clone)]
pub enum Command {
    RuntimeRunIfWaitingForDebugger,
    RuntimeEnable,
    ProfilerEnable,
    DebuggerEnable,
    DebuggerResume,
    DebuggerSetPauseOnExceptions(PauseOnExceptions),
    DebuggerStepOver,
    DebuggerStepInto,
    DebuggerStepOut,
    DebuggerContinueToLocation(DebuggerLocation),
    DebuggerGetScriptSource(RuntimeScriptId),
    DebuggerEvaluateOnCallFrame(DebuggerCallFrameId, String),
    RuntimeGetProperties(RuntimeRemoteObjectId),
    DebuggerGetPossibleBreakpoints(RuntimeScriptId),
}

/// A command, as a specification sees it.
pub enum CommandView {
    RuntimeRunIfWaitingForDebugger,
    RuntimeEnable,
    ProfilerEnable,
    DebuggerEnable,
    DebuggerResume,
    DebuggerSetPauseOnExceptions(PauseOnExceptions),
    DebuggerStepOver,
    DebuggerStepInto,
    DebuggerStepOut,
    DebuggerContinueToLocation(LocationView),
    DebuggerGetScriptSource(Seq<char>),
    DebuggerEvaluateOnCallFrame(Seq<char>, Seq<char>),
    RuntimeGetProperties(Seq<char>),
    DebuggerGetPossibleBreakpoints(Seq<char>),
}

impl View for Command {
    type V = CommandView;

    open spec fn view(&self) -> CommandView {
        match self {
            Command::RuntimeRunIfWaitingForDebugger => CommandView::RuntimeRunIfWaitingForDebugger,
            Command::RuntimeEnable => CommandView::RuntimeEnable,
            Command::ProfilerEnable => CommandView::ProfilerEnable,
            Command::DebuggerEnable => CommandView::DebuggerEnable,
            Command::DebuggerResume => CommandView::DebuggerResume,
            Command::DebuggerSetPauseOnExceptions(policy) =>
                CommandView::DebuggerSetPauseOnExceptions(*policy),
            Command::DebuggerStepOver => CommandView::DebuggerStepOver,
            Command::DebuggerStepInto => CommandView::DebuggerStepInto,
            Command::DebuggerStepOut => CommandView::DebuggerStepOut,
            Command::DebuggerContinueToLocation(location) =>
                CommandView::DebuggerContinueToLocation(location@),
            Command::DebuggerGetScriptSource(script_id) => CommandView::DebuggerGetScriptSource(
                script_id@,
            ),
            Command::DebuggerEvaluateOnCallFrame(call_frame_id, expression) =>
                CommandView::DebuggerEvaluateOnCallFrame(call_frame_id@, expression@),
            Command::RuntimeGetProperties(object_id) => CommandView::RuntimeGetProperties(
                object_id@,
            ),
            Command::DebuggerGetPossibleBreakpoints(script_id) =>
                CommandView::DebuggerGetPossibleBreakpoints(script_id@),
        }
    }
}

/// Whether a JSON value is an object with exactly one member, a string.
pub open spec fn one_text(params: serde_json::Value, key: Seq<char>, text: Seq<char>) -> bool {
    &&& json_shape(params) is Object
    &&& json_shape(params)->Object_0.dom() == set![key]
    &&& member_text(params, key) == Some(text)
}

impl Command {
    /// The name of the method that the command calls.
    pub open spec fn method(self) -> Seq<char> {
        match self {
            Command::RuntimeRunIfWaitingForDebugger => "Runtime.runIfWaitingForDebugger"@,
            Command::RuntimeEnable => "Runtime.enable"@,
            Command::ProfilerEnable => "Profiler.enable"@,
            Command::DebuggerEnable => "Debugger.enable"@,
            Command::DebuggerResume => "Debugger.resume"@,
            Command::DebuggerSetPauseOnExceptions(_) => "Debugger.setPauseOnExceptions"@,
            Command::DebuggerStepOver => "Debugger.stepOver"@,
            Command::DebuggerStepInto => "Debugger.stepInto"@,
            Command::DebuggerStepOut => "Debugger.stepOut"@,
            Command::DebuggerContinueToLocation(_) => "Debugger.continueToLocation"@,
            Command::DebuggerGetScriptSource(_) => "Debugger.getScriptSource"@,
            Command::DebuggerEvaluateOnCallFrame(_, _) => "Debugger.evaluateOnCallFrame"@,
            Command::RuntimeGetProperties(_) => "Runtime.getProperties"@,
            Command::DebuggerGetPossibleBreakpoints(_) => "Debugger.getPossibleBreakpoints"@,
        }
    }

    /// Whether a JSON value holds the parameters of the command.
    pub open spec fn has_params(self, params: serde_json::Value) -> bool {
        match self {
            Command::DebuggerSetPauseOnExceptions(policy) => one_text(
                params,
                "state"@,
                policy.state(),
            ),
            Command::DebuggerContinueToLocation(location) => {
                &&& json_shape(params) is Object
                &&& json_shape(params)->Object_0.dom() == set!["location"@]
                &&& member_location(params, "location"@) == Some(location@)
            },
            Command::DebuggerGetScriptSource(script_id) => one_text(
                params,
                "scriptId"@,
                script_id@,
            ),
            Command::DebuggerEvaluateOnCallFrame(call_frame_id, expression) => {
                &&& json_shape(params) is Object
                &&& json_shape(params)->Object_0.dom() == set!["callFrameId"@, "expression"@]
                &&& member_text(params, "callFrameId"@) == Some(call_frame_id@)
                &&& member_text(params, "expression"@) == Some(expression@)
            },
            Command::RuntimeGetProperties(object_id) => one_text(params, "objectId"@, object_id@),
            Command::DebuggerGetPossibleBreakpoints(script_id) => one_text(
                params,
                "scriptId"@,
                script_id@,
            ),
            _ => json_shape(params) == JsonShape::Object(
                Map::<Seq<char>, serde_json::Value>::empty(),
            ),
        }
    }

    /// What the command waits for once it is sent; `None` for a command that
    /// is sent and left at that.
    pub open spec fn awaited_spec(self) -> Option<Awaited> {
        match self {
            Command::RuntimeEnable => Some(Awaited::Reply),
            Command::ProfilerEnable => Some(Awaited::Reply),
            Command::DebuggerEnable => Some(Awaited::Reply),
            Command::DebuggerEvaluateOnCallFrame(_, _) => Some(Awaited::Reply),
            Command::RuntimeRunIfWaitingForDebugger => Some(Awaited::PausedOrDestroyed),
            Command::DebuggerStepInto => Some(Awaited::PausedOrDestroyed),
            Command::DebuggerStepOut => Some(Awaited::PausedOrDestroyed),
            Command::DebuggerContinueToLocation(_) => Some(Awaited::PausedOrDestroyed),
            Command::DebuggerGetScriptSource(_) => Some(Awaited::ScriptSource),
            _ => None,
        }
    }

    /// Whether a request is the one that the command sends. Every command goes
    /// out under the id 1: one command is under way at a time, and replies are
    /// told apart by their shape.
    pub open spec fn sends(self, request: Request) -> bool {
        &&& request.id == 1
        &&& request.method@ == self.method()
        &&& self.has_params(request.params)
    }

    /// What the command waits for once it is sent.
    pub fn awaited(&self) -> (awaited: Option<Awaited>)
        ensures
            awaited == self.awaited_spec(),
    {
        match self {
            Command::RuntimeEnable => Some(Awaited::Reply),
            Command::ProfilerEnable => Some(Awaited::Reply),
            Command::DebuggerEnable => Some(Awaited::Reply),
            Command::DebuggerEvaluateOnCallFrame(_, _) => Some(Awaited::Reply),
            Command::RuntimeRunIfWaitingForDebugger => Some(Awaited::PausedOrDestroyed),
            Command::DebuggerStepInto => Some(Awaited::PausedOrDestroyed),
            Command::DebuggerStepOut => Some(Awaited::PausedOrDestroyed),
            Command::DebuggerContinueToLocation(_) => Some(Awaited::PausedOrDestroyed),
            Command::DebuggerGetScriptSource(_) => Some(Awaited::ScriptSource),
            _ => None,
        }
    }

    /// The request that the command sends.
    pub fn request(&self) -> (request: Request)
        ensures
            self.sends(request),
    {
        match self {
            Command::RuntimeRunIfWaitingForDebugger => Request::new(
                1,
                "Runtime.runIfWaitingForDebugger",
            ),
            Command::RuntimeEnable => Request::new(1, "Runtime.enable"),
            Command::ProfilerEnable => Request::new(1, "Profiler.enable"),
            Command::DebuggerEnable => Request::new(1, "Debugger.enable"),
            Command::DebuggerResume => Request::new(1, "Debugger.resume"),
            Command::DebuggerStepOver => Request::new(1, "Debugger.stepOver"),
            Command::DebuggerStepInto => Request::new(1, "Debugger.stepInto"),
            Command::DebuggerStepOut => Request::new(1, "Debugger.stepOut"),
            Command::DebuggerSetPauseOnExceptions(policy) => {
                let params = one_text_object("state", policy.state_text());
                with_params("Debugger.setPauseOnExceptions", params)
            },
            Command::DebuggerContinueToLocation(location) => {
                let mut params = empty_object();
                set_member(&mut params, "location", location.to_value());
                assert(json_shape(params)->Object_0.dom() =~= set!["location"@]);
                with_params("Debugger.continueToLocation", params)
            },
            Command::DebuggerGetScriptSource(script_id) => {
                let params = one_text_object("scriptId", script_id.as_str());
                with_params("Debugger.getScriptSource", params)
            },
            Command::DebuggerEvaluateOnCallFrame(call_frame_id, expression) => {
                let mut params = empty_object();
                set_member(&mut params, "callFrameId", text_value(call_frame_id.as_str()));
                set_member(&mut params, "expression", text_value(expression.as_str()));
                proof {
                    reveal_strlit("callFrameId");
                    reveal_strlit("expression");
                    assert("callFrameId"@.len() != "expression"@.len());
                    assert(json_shape(params)->Object_0.dom() =~= set![
                        "callFrameId"@,
                        "expression"@,
                    ]);
                }
                with_params("Debugger.evaluateOnCallFrame", params)
            },
            Command::RuntimeGetProperties(object_id) => {
                let params = one_text_object("objectId", object_id.as_str());
                with_params("Runtime.getProperties", params)
            },
            Command::DebuggerGetPossibleBreakpoints(script_id) => {
                let params = one_text_object("scriptId", script_id.as_str());
                with_params("Debugger.getPossibleBreakpoints", params)
            },
        }
    }
}

fn one_text_object(key: &str, text: &str) -> (params: serde_json::Value)
    ensures
        one_text(params, key@, text@),
{
    let mut params = empty_object();
    set_member(&mut params, key, text_value(text));
    assert(json_shape(params)->Object_0.dom() =~= set![key@]);
    params
}

fn with_params(method: &str, params: serde_json::Value) -> (request: Request)
    ensures
        request.id == 1,
        request.method@ == method@,
        request.params == params,
{
    Request { id: 1, method: method.to_owned(), params }
}

/// The last message of a batch: the one that ended the wait.
pub open spec fn last_of(messages: Seq<Response>) -> Option<Response> {
    if messages.len() > 0 {
        Some(messages.last())
    } else {
        None
    }
}

/// Hands out the message that ended a wait. An empty batch is no answer.
pub fn last_message(messages: Vec<Response>) -> (last: CDTClientResult<Response>)
    ensures
        match last_of(messages@) {
            Some(message) => last == Ok::<Response, ClientError>(message),
            None => last == Err::<Response, ClientError>(ClientError::ProtocolContract),
        },
{
    let mut messages = messages;
    match messages.pop() {
        Some(message) => Ok(message),
        None => Err(ClientError::ProtocolContract),
    }
}

/// What a message that ended a wait says of the run state: the call stack of
/// a paused debuggee, or `None` for one that is gone. Any other message breaks
/// the protocol.
pub open spec fn run_state(last: ResponseView) -> Result<Option<Seq<CallFrameView>>, ClientError> {
    match last {
        ResponseView::DebuggerPaused(frames) => Ok(Some(frames)),
        ResponseView::RuntimeExecutionContextDestroyed(_) => Ok(None),
        _ => Err(ClientError::ProtocolContract),
    }
}

/// The script text that a message carries; only a script-source reply has
/// one.
pub open spec fn script_text(last: ResponseView) -> Result<Seq<char>, ClientError> {
    match last {
        ResponseView::ResultScriptSource(text) => Ok(text),
        _ => Err(ClientError::ProtocolContract),
    }
}

/// The remote object that a reply describes: the one it was classified as, or
/// the one that the payload of a plain reply describes.
pub open spec fn remote_object(last: ResponseView) -> Result<RemoteObjectView, ClientError> {
    match last {
        ResponseView::ResultRuntimeRemoteObject(object) => Ok(object),
        ResponseView::Result(payload) => match remote_object_of(payload) {
            Some(object) => Ok(object),
            None => Err(ClientError::ProtocolContract),
        },
        _ => Err(ClientError::ProtocolContract),
    }
}

/// What is made of the last message of a batch; an empty batch is no answer.
pub open spec fn narrowed<T>(
    messages: Seq<ResponseView>,
    narrow: spec_fn(ResponseView) -> Result<T, ClientError>,
) -> Result<T, ClientError> {
    if messages.len() > 0 {
        narrow(messages.last())
    } else {
        Err(ClientError::ProtocolContract)
    }
}

/// What is made of the outcome of a wait.
pub open spec fn answered<T>(
    outcome: Result<Seq<ResponseView>, ClientError>,
    narrow: spec_fn(ResponseView) -> Result<T, ClientError>,
) -> Result<T, ClientError> {
    match outcome {
        Ok(messages) => narrowed(messages, narrow),
        Err(e) => Err(e),
    }
}

/// The view of a run state that was told from a batch.
pub open spec fn paused_view(outcome: CDTClientResult<Option<DebuggerPausedResponse>>) -> Result<
    Option<Seq<CallFrameView>>,
    ClientError,
> {
    match outcome {
        Ok(Some(paused)) => Ok(Some(paused@)),
        Ok(None) => Ok(None),
        Err(e) => Err(e),
    }
}

/// The view of a script source that was taken from a batch.
pub open spec fn source_view(outcome: CDTClientResult<ResultScriptSourceResponse>) -> Result<
    Seq<char>,
    ClientError,
> {
    match outcome {
        Ok(source) => Ok(source.result.script_source@),
        Err(e) => Err(e),
    }
}

/// The view of a remote object that was taken from a batch.
pub open spec fn object_view(outcome: CDTClientResult<RuntimeRemoteObject>) -> Result<
    RemoteObjectView,
    ClientError,
> {
    match outcome {
        Ok(object) => Ok(object@),
        Err(e) => Err(e),
    }
}

/// A batch and its views end alike.
proof fn lemma_last_view(messages: Seq<Response>)
    requires
        messages.len() > 0,
    ensures
        response_views(messages).len() == messages.len(),
        response_views(messages).last() == messages.last()@,
{
}

/// Tells from the message that ended a wait whether the debuggee has paused
/// or is gone.
pub fn ensure_paused_or_destroyed_message(messages: Vec<Response>) -> (state: CDTClientResult<
    Option<DebuggerPausedResponse>,
>)
    ensures
        paused_view(state) == narrowed(
            response_views(messages@),
            |last: ResponseView| run_state(last),
        ),
        match last_of(messages@) {
            Some(Response::DebuggerPaused(paused)) => state == Ok::<
                Option<DebuggerPausedResponse>,
                ClientError,
            >(Some(paused)),
            Some(Response::RuntimeExecutionContextDestroyed(_)) => state == Ok::<
                Option<DebuggerPausedResponse>,
                ClientError,
            >(None),
            _ => state == Err::<Option<DebuggerPausedResponse>, ClientError>(
                ClientError::ProtocolContract,
            ),
        },
{
    proof {
        if messages@.len() > 0 {
            lemma_last_view(messages@);
        }
    }
    match last_message(messages) {
        Ok(Response::DebuggerPaused(paused)) => Ok(Some(paused)),
        Ok(Response::RuntimeExecutionContextDestroyed(_)) => Ok(None),
        _ => Err(ClientError::ProtocolContract),
    }
}

/// Takes the script text out of the message that ended a wait.
pub fn expect_script_source(messages: Vec<Response>) -> (source: CDTClientResult<
    ResultScriptSourceResponse,
>)
    ensures
        source_view(source) == narrowed(
            response_views(messages@),
            |last: ResponseView| script_text(last),
        ),
        match last_of(messages@) {
            Some(Response::ResultScriptSource(held)) => source == Ok::<
                ResultScriptSourceResponse,
                ClientError,
            >(held),
            _ => source == Err::<ResultScriptSourceResponse, ClientError>(
                ClientError::ProtocolContract,
            ),
        },
{
    proof {
        if messages@.len() > 0 {
            lemma_last_view(messages@);
        }
    }
    match last_message(messages) {
        Ok(Response::ResultScriptSource(source)) => Ok(source),
        _ => Err(ClientError::ProtocolContract),
    }
}

/// Takes the remote object out of the message that ended a wait.
pub fn expect_remote_object(messages: Vec<Response>) -> (object: CDTClientResult<
    RuntimeRemoteObject,
>)
    ensures
        object_view(object) == narrowed(
            response_views(messages@),
            |last: ResponseView| remote_object(last),
        ),
{
    proof {
        if messages@.len() > 0 {
            lemma_last_view(messages@);
        }
    }
    match last_message(messages) {
        Ok(Response::ResultRuntimeRemoteObject(object)) => Ok(object),
        Ok(Response::Result(reply)) => match RuntimeRemoteObject::from_value(&reply.result) {
            Some(object) => Ok(object),
            None => Err(ClientError::ProtocolContract),
        },
        _ => Err(ClientError::ProtocolContract),
    }
}

/// A client over a session that is at hand as text: the frames that the
/// debuggee sent, in their order, of which the first `consumed` have been read,
/// and the requests that the client has put down for sending.
#[derive(Debug)]
pub struct CDTClient {
    pub inbound: Vec<String>,
    pub consumed: usize,
    pub sent: Vec<Request>,
}

/// The messages gathered so far, joined to what a wait makes of the frames
/// from there on.
spec fn prepend(
    before: Seq<ResponseView>,
    outcome: Result<Seq<ResponseView>, ClientError>,
) -> Result<Seq<ResponseView>, ClientError> {
    match outcome {
        Ok(rest) => Ok(before + rest),
        Err(e) => Err(e),
    }
}

impl CDTClient {
    /// The frames that have not been read yet.
    pub open spec fn unread(self) -> Seq<Seq<char>> {
        if self.consumed <= self.inbound@.len() {
            string_views(self.inbound@).skip(self.consumed as int)
        } else {
            Seq::empty()
        }
    }

    /// Whether `after` is `before` once `command` has been performed: the
    /// request has been put down, and the frames of the wait have been read.
    pub open spec fn performed(before: CDTClient, after: CDTClient, command: Command) -> bool {
        &&& after.inbound@ == before.inbound@
        &&& after.sent@.len() == before.sent@.len() + 1
        &&& after.sent@.drop_last() == before.sent@
        &&& command.sends(after.sent@.last())
        &&& after.unread() == match command.awaited_spec() {
            Some(awaited) => before.unread().skip(wait_length(before.unread(), awaited) as int),
            None => before.unread(),
        }
    }

    /// What the wait of `command` gives on the frames that `before` has not
    /// read.
    pub open spec fn reply(before: CDTClient, command: Command) -> Result<
        Seq<ResponseView>,
        ClientError,
    > {
        match command.awaited_spec() {
            Some(awaited) => wait_outcome(before.unread(), awaited),
            None => Ok(Seq::empty()),
        }
    }

    /// A client at the start of a session of which the inbound frames are
    /// given.
    pub fn new(inbound: Vec<String>) -> (client: CDTClient)
        ensures
            client.inbound == inbound,
            client.consumed == 0,
            client.sent@.len() == 0,
            client.unread() == string_views(inbound@),
    {
        CDTClient { inbound, consumed: 0, sent: Vec::new() }
    }

    /// Reads frames until the awaited message has come, and hands out all that
    /// were read, in their order.
    pub fn read_messages_until(&mut self, awaited: Awaited) -> (messages: CDTClientResult<
        Vec<Response>,
    >)
        ensures
            batch_view(messages) == wait_outcome(old(self).unread(), awaited),
            final(self).unread() == old(self).unread().skip(
                wait_length(old(self).unread(), awaited) as int,
            ),
            final(self).inbound == old(self).inbound,
            final(self).sent == old(self).sent,
    {
        let ghost all = self.unread();
        let ghost start = self.consumed as int;
        let mut pending = PendingRead::new(awaited);
        assert(all.skip(0) == all);
        assert(response_views(pending.messages@) == Seq::<ResponseView>::empty());
        assert(Seq::<ResponseView>::empty() + seq![] == Seq::<ResponseView>::empty());
        assert(wait_outcome(all, awaited) == prepend(
            response_views(pending.messages@),
            wait_outcome(all.skip(0), awaited),
        )) by {
            match wait_outcome(all, awaited) {
                Ok(rest) => {
                    assert(Seq::<ResponseView>::empty() + rest == rest);
                },
                Err(_) => {},
            }
        }
        while self.consumed < self.inbound.len()
            invariant
                self.inbound == old(self).inbound,
                self.sent == old(self).sent,
                all == old(self).unread(),
                start == old(self).consumed,
                start <= self.consumed,
                self.consumed - start <= all.len(),
                start <= self.inbound@.len() ==> all == string_views(self.inbound@).skip(start),
                pending.awaited == awaited,
                wait_outcome(all, awaited) == prepend(
                    response_views(pending.messages@),
                    wait_outcome(all.skip(self.consumed - start), awaited),
                ),
                wait_length(all, awaited) == (self.consumed - start) + wait_length(
                    all.skip(self.consumed - start),
                    awaited,
                ),
            decreases self.inbound.len() - self.consumed,
        {
            let ghost k = self.consumed - start;
            let ghost rest = all.skip(k);
            let ghost gathered = response_views(pending.messages@);
            assert(rest.len() > 0);
            assert(rest[0] == self.inbound@[self.consumed as int]@);
            assert(rest.skip(1) == all.skip(k + 1));
            let step = pending.accept_frame(self.inbound[self.consumed].as_str());
            self.consumed = self.consumed + 1;
            assert(self.unread() == all.skip(k + 1));
            match step {
                Err(e) => {
                    return Err(e);
                },
                Ok(ReadStep::Done(batch)) => {
                    proof {
                        let message = classified_text(rest[0])->Ok_0;
                        assert(gathered + seq![message] == gathered.push(message));
                    }
                    return Ok(batch);
                },
                Ok(ReadStep::Pending(next)) => {
                    pending = next;
                    proof {
                        let message = classified_text(rest[0])->Ok_0;
                        match wait_outcome(all.skip(k + 1), awaited) {
                            Ok(more) => {
                                assert(gathered + (seq![message] + more) == gathered.push(message)
                                    + more);
                            },
                            Err(_) => {},
                        }
                    }
                },
            }
        }
        proof {
            assert(all.skip(self.consumed - start).len() == 0);
            assert(self.unread().len() == 0);
            assert(self.unread() == all.skip(wait_length(all, awaited) as int));
        }
        Err(ClientError::Transport)
    }

    /// Reads frames until the caller's predicate accepts a message, and hands
    /// out all that were read, in their order: the accepted message is the
    /// last, and the predicate has refused each one before it. A frame that
    /// cannot be classified ends the wait with a decode error, and the end of
    /// the frames ends it as a failure of the transport; either way the
    /// predicate has seen and refused the message of every frame before.
    pub fn read_messages_until_accepted<F: Fn(&Response) -> bool>(
        &mut self,
        predicate: F,
    ) -> (messages: CDTClientResult<Vec<Response>>)
        requires
            forall|message: Response| call_requires(predicate, (&message,)),
        ensures
            final(self).inbound == old(self).inbound,
            final(self).sent == old(self).sent,
            waited(predicate, old(self).unread(), final(self).unread(), messages),
    {
        let ghost all = self.unread();
        let ghost start = self.consumed as int;
        let mut messages: Vec<Response> = Vec::new();
        assert(all.skip(0) == all);
        while self.consumed < self.inbound.len()
            invariant
                self.inbound == old(self).inbound,
                self.sent == old(self).sent,
                all == old(self).unread(),
                start == old(self).consumed,
                start <= self.consumed,
                self.consumed - start <= all.len(),
                start <= self.inbound@.len() ==> all == string_views(self.inbound@).skip(start),
                forall|message: Response| call_requires(predicate, (&message,)),
                messages@.len() == self.consumed - start,
                self.unread() == all.skip(self.consumed - start),
                refused_all(predicate, all, messages@),
            decreases self.inbound.len() - self.consumed,
        {
            let ghost k = self.consumed - start;
            let ghost seen = messages@;
            assert(all[k] == self.inbound@[self.consumed as int]@);
            let outcome = parse_message(self.inbound[self.consumed].as_str());
            self.consumed = self.consumed + 1;
            assert(self.unread() == all.skip(k + 1));
            let message = match outcome {
                Ok(message) => message,
                Err(e) => {
                    proof {
                        if json_parsed(all[k]) is Some {
                            lemma_classification(json_parsed(all[k])->0);
                        }
                        assert(classified_text(all[k]) is Err);
                        assert(refused_all(predicate, all, seen));
                    }
                    return Err(e);
                },
            };
            let accepted = predicate(&message);
            match gather(messages, message, accepted) {
                Gathered::Done(batch) => {
                    assert(batch@.drop_last() == seen);
                    return Ok(batch);
                },
                Gathered::Pending(batch) => {
                    messages = batch;
                    assert forall|i: int| 0 <= i < messages@.len() implies classified_text(all[i])
                        == Ok::<ResponseView, ClientError>((#[trigger] messages@[i])@)
                        && call_ensures(predicate, (&messages@[i],), false) by {
                        if i < k {
                            assert(messages@[i] == seen[i]);
                        }
                    }
                },
            }
        }
        proof {
            assert(self.unread().len() == 0);
            assert(messages@.len() == all.len());
            assert(refused_all(predicate, all, messages@));
        }
        Err(ClientError::Transport)
    }

    /// Waits for any reply.
    pub fn read_messages_until_result(&mut self) -> (messages: CDTClientResult<Vec<Response>>)
        ensures
            batch_view(messages) == wait_outcome(old(self).unread(), Awaited::Reply),
            final(self).unread() == old(self).unread().skip(
                wait_length(old(self).unread(), Awaited::Reply) as int,
            ),
            final(self).inbound == old(self).inbound,
            final(self).sent == old(self).sent,
    {
        self.read_messages_until(Awaited::Reply)
    }

    /// Waits for the debuggee to pause or to be gone.
    pub fn read_messages_until_paused_or_destroyed(&mut self) -> (messages: CDTClientResult<
        Vec<Response>,
    >)
        ensures
            batch_view(messages) == wait_outcome(old(self).unread(), Awaited::PausedOrDestroyed),
            final(self).unread() == old(self).unread().skip(
                wait_length(old(self).unread(), Awaited::PausedOrDestroyed) as int,
            ),
            final(self).inbound == old(self).inbound,
            final(self).sent == old(self).sent,
    {
        self.read_messages_until(Awaited::PausedOrDestroyed)
    }

    /// Waits for the reply that carries a script's text.
    pub fn read_messages_until_script_source(&mut self) -> (messages: CDTClientResult<
        Vec<Response>,
    >)
        ensures
            batch_view(messages) == wait_outcome(old(self).unread(), Awaited::ScriptSource),
            final(self).unread() == old(self).unread().skip(
                wait_length(old(self).unread(), Awaited::ScriptSource) as int,
            ),
            final(self).inbound == old(self).inbound,
            final(self).sent == old(self).sent,
    {
        self.read_messages_until(Awaited::ScriptSource)
    }

    /// Puts down the request of a command, then waits for what the command
    /// awaits. A command that awaits nothing gives an empty batch.
    pub fn perform(&mut self, command: &Command) -> (messages: CDTClientResult<Vec<Response>>)
        ensures
            CDTClient::performed(*old(self), *final(self), *command),
            batch_view(messages) == CDTClient::reply(*old(self), *command),
    {
        let ghost before = self.sent@;
        self.sent.push(command.request());
        assert(self.sent@.drop_last() == before);
        match command.awaited() {
            Some(awaited) => self.read_messages_until(awaited),
            None => {
                let batch: Vec<Response> = Vec::new();
                assert(response_views(batch@) == Seq::<ResponseView>::empty());
                Ok(batch)
            },
        }
    }
}

impl CDTClient {
    /// Lets the debuggee run if it waits for a debugger, and waits until it
    /// has paused or is gone.
    pub fn runtime_run_if_waiting_for_debugger(&mut self) -> (state: CDTClientResult<
        Option<DebuggerPausedResponse>,
    >)
        ensures
            CDTClient::performed(*old(self), *final(self), Command::RuntimeRunIfWaitingForDebugger),
            paused_view(state) == answered(
                CDTClient::reply(*old(self), Command::RuntimeRunIfWaitingForDebugger),
                |last: ResponseView| run_state(last),
            ),
    {
        let messages = self.perform(&Command::RuntimeRunIfWaitingForDebugger)?;
        ensure_paused_or_destroyed_message(messages)
    }

    /// Enables the runtime domain and waits for the reply.
    pub fn runtime_enable(&mut self) -> (reply: CDTClientResult<Response>)
        ensures
            CDTClient::performed(*old(self), *final(self), Command::RuntimeEnable),
            outcome_view(reply) == answered(
                CDTClient::reply(*old(self), Command::RuntimeEnable),
                |last: ResponseView| Ok::<ResponseView, ClientError>(last),
            ),
    {
        self.enable(&Command::RuntimeEnable)
    }

    /// Enables the profiler domain and waits for the reply.
    pub fn profiler_enable(&mut self) -> (reply: CDTClientResult<Response>)
        ensures
            CDTClient::performed(*old(self), *final(self), Command::ProfilerEnable),
            outcome_view(reply) == answered(
                CDTClient::reply(*old(self), Command::ProfilerEnable),
                |last: ResponseView| Ok::<ResponseView, ClientError>(last),
            ),
    {
        self.enable(&Command::ProfilerEnable)
    }

    /// Enables the debugger domain and waits for the reply.
    pub fn debugger_enable(&mut self) -> (reply: CDTClientResult<Response>)
        ensures
            CDTClient::performed(*old(self), *final(self), Command::DebuggerEnable),
            outcome_view(reply) == answered(
                CDTClient::reply(*old(self), Command::DebuggerEnable),
                |last: ResponseView| Ok::<ResponseView, ClientError>(last),
            ),
    {
        self.enable(&Command::DebuggerEnable)
    }

    fn enable(&mut self, command: &Command) -> (reply: CDTClientResult<Response>)
        ensures
            CDTClient::performed(*old(self), *final(self), *command),
            outcome_view(reply) == answered(
                CDTClient::reply(*old(self), *command),
                |last: ResponseView| Ok::<ResponseView, ClientError>(last),
            ),
    {
        let messages = self.perform(command)?;
        proof {
            if messages@.len() > 0 {
                lemma_last_view(messages@);
            }
        }
        last_message(messages)
    }

    /// Lets the debuggee go on. Nothing is waited for: the run state shows in
    /// a later wait.
    pub fn debugger_resume(&mut self) -> (sent: CDTClientResult<()>)
        ensures
            sent is Ok,
            CDTClient::performed(*old(self), *final(self), Command::DebuggerResume),
    {
        let _ = self.perform(&Command::DebuggerResume);
        Ok(())
    }

    /// Sends what `debugger_resume` sends, and waits for nothing either.
    pub fn debugger_pause(&mut self) -> (sent: CDTClientResult<()>)
        ensures
            sent is Ok,
            CDTClient::performed(*old(self), *final(self), Command::DebuggerResume),
    {
        let _ = self.perform(&Command::DebuggerResume);
        Ok(())
    }

    /// Asks for the text of a script and waits for the reply that carries it.
    pub fn debugger_get_script_source(&mut self, script_id: RuntimeScriptId) -> (source:
        CDTClientResult<ResultScriptSourceResponse>)
        ensures
            CDTClient::performed(
                *old(self),
                *final(self),
                Command::DebuggerGetScriptSource(script_id),
            ),
            source_view(source) == answered(
                CDTClient::reply(*old(self), Command::DebuggerGetScriptSource(script_id)),
                |last: ResponseView| script_text(last),
            ),
    {
        let messages = self.perform(&Command::DebuggerGetScriptSource(script_id))?;
        expect_script_source(messages)
    }

    /// Tells the debuggee not to pause on exceptions. Nothing is waited for.
    pub fn debugger_set_pause_on_exception(&mut self) -> (sent: CDTClientResult<()>)
        ensures
            sent is Ok,
            CDTClient::performed(
                *old(self),
                *final(self),
                Command::DebuggerSetPauseOnExceptions(PauseOnExceptions::Never),
            ),
    {
        self.debugger_set_pause_on_exception_policy(PauseOnExceptions::Never)
    }

    /// Tells the debuggee when to pause on an exception. Nothing is waited
    /// for.
    pub fn debugger_set_pause_on_exception_policy(&mut self, policy: PauseOnExceptions) -> (sent:
        CDTClientResult<()>)
        ensures
            sent is Ok,
            CDTClient::performed(
                *old(self),
                *final(self),
                Command::DebuggerSetPauseOnExceptions(policy),
            ),
    {
        let _ = self.perform(&Command::DebuggerSetPauseOnExceptions(policy));
        Ok(())
    }

    /// Evaluates an expression in a call frame and waits for the reply.
    pub fn debugger_evaluate_on_call_frame(
        &mut self,
        call_frame_id: DebuggerCallFrameId,
        expression: &str,
    ) -> (object: CDTClientResult<RuntimeRemoteObject>)
        ensures
            exists|command: Command|
                {
                    &&& command matches Command::DebuggerEvaluateOnCallFrame(id, text)
                    &&& id == call_frame_id
                    &&& text@ == expression@
                    &&& #[trigger] CDTClient::performed(*old(self), *final(self), command)
                    &&& object_view(object) == answered(
                        CDTClient::reply(*old(self), command),
                        |last: ResponseView| remote_object(last),
                    )
                },
    {
        let command = Command::DebuggerEvaluateOnCallFrame(call_frame_id, expression.to_owned());
        let ghost before = *self;
        let messages = match self.perform(&command) {
            Ok(messages) => messages,
            Err(e) => {
                assert(CDTClient::performed(before, *self, command));
                return Err(e);
            },
        };
        assert(CDTClient::performed(before, *self, command));
        expect_remote_object(messages)
    }

    /// Asks for the properties of an object. Nothing is waited for.
    pub fn runtime_get_properties(&mut self, object_id: RuntimeRemoteObjectId) -> (sent:
        CDTClientResult<()>)
        ensures
            sent is Ok,
            CDTClient::performed(
                *old(self),
                *final(self),
                Command::RuntimeGetProperties(object_id),
            ),
    {
        let _ = self.perform(&Command::RuntimeGetProperties(object_id));
        Ok(())
    }

    /// Asks where in a script breakpoints can be set. Nothing is waited for.
    pub fn debugger_get_possible_breakpoints(&mut self, script_id: RuntimeScriptId) -> (sent:
        CDTClientResult<()>)
        ensures
            sent is Ok,
            CDTClient::performed(
                *old(self),
                *final(self),
                Command::DebuggerGetPossibleBreakpoints(script_id),
            ),
    {
        let _ = self.perform(&Command::DebuggerGetPossibleBreakpoints(script_id));
        Ok(())
    }

    /// Steps over the next call. Nothing is waited for: the run state shows in
    /// a later wait.
    pub fn debugger_step_over(&mut self) -> (sent: CDTClientResult<()>)
        ensures
            sent is Ok,
            CDTClient::performed(*old(self), *final(self), Command::DebuggerStepOver),
    {
        let _ = self.perform(&Command::DebuggerStepOver);
        Ok(())
    }

    /// Steps into the next call, and waits until the debuggee has paused or is
    /// gone.
    pub fn debugger_step_into(&mut self) -> (state: CDTClientResult<Option<DebuggerPausedResponse>>)
        ensures
            CDTClient::performed(*old(self), *final(self), Command::DebuggerStepInto),
            paused_view(state) == answered(
                CDTClient::reply(*old(self), Command::DebuggerStepInto),
                |last: ResponseView| run_state(last),
            ),
    {
        let messages = self.perform(&Command::DebuggerStepInto)?;
        ensure_paused_or_destroyed_message(messages)
    }

    /// Steps out of the current call, and waits until the debuggee has paused
    /// or is gone.
    pub fn debugger_step_out(&mut self) -> (state: CDTClientResult<Option<DebuggerPausedResponse>>)
        ensures
            CDTClient::performed(*old(self), *final(self), Command::DebuggerStepOut),
            paused_view(state) == answered(
                CDTClient::reply(*old(self), Command::DebuggerStepOut),
                |last: ResponseView| run_state(last),
            ),
    {
        let messages = self.perform(&Command::DebuggerStepOut)?;
        ensure_paused_or_destroyed_message(messages)
    }

    /// Lets the debuggee run up to a location, and waits until it has paused
    /// or is gone.
    pub fn debugger_continue_to_location(&mut self, location: DebuggerLocation) -> (state:
        CDTClientResult<Option<DebuggerPausedResponse>>)
        ensures
            CDTClient::performed(
                *old(self),
                *final(self),
                Command::DebuggerContinueToLocation(location),
            ),
            paused_view(state) == answered(
                CDTClient::reply(*old(self), Command::DebuggerContinueToLocation(location)),
                |last: ResponseView| run_state(last),
            ),
    {
        let messages = self.perform(&Command::DebuggerContinueToLocation(location))?;
        ensure_paused_or_destroyed_message(messages)
    }

    /// Puts down a request for a method without parameters.
    pub fn send_method(&mut self, method: &str) -> (sent: CDTClientResult<()>)
        ensures
            sent is Ok,
            final(self).inbound == old(self).inbound,
            final(self).consumed == old(self).consumed,
            final(self).sent@.len() == old(self).sent@.len() + 1,
            final(self).sent@.drop_last() == old(self).sent@,
            final(self).sent@.last().id == 1,
            final(self).sent@.last().method@ == method@,
            json_shape(final(self).sent@.last().params) == JsonShape::Object(
                Map::<Seq<char>, serde_json::Value>::empty(),
            ),
    {
        let ghost before = self.sent@;
        self.sent.push(Request::new(1, method));
        assert(self.sent@.drop_last() == before);
        Ok(())
    }

    /// Puts down a request for a method with the given parameters.
    pub fn send_method_with_params(&mut self, method: &str, params: serde_json::Value) -> (sent:
        CDTClientResult<()>)
        ensures
            sent is Ok,
            final(self).inbound == old(self).inbound,
            final(self).consumed == old(self).consumed,
            final(self).sent@.len() == old(self).sent@.len() + 1,
            final(self).sent@.drop_last() == old(self).sent@,
            final(self).sent@.last().id == 1,
            final(self).sent@.last().method@ == method@,
            final(self).sent@.last().params == params,
    {
        let ghost before = self.sent@;
        self.sent.push(with_params(method, params));
        assert(self.sent@.drop_last() == before);
        Ok(())
    }
}

/// The three families of messages.
#[derive(Debug, Clone, Copy, PartialEq, Eq, Structural)]
pub enum Family {
    Event,
    Reply,
    Unknown,
}

/// The family of a message.
pub open spec fn family(message: ResponseView) -> Family {
    match message {
        ResponseView::DebuggerScriptParsed(_) => Family::Event,
        ResponseView::DebuggerPaused(_) => Family::Event,
        ResponseView::RuntimeExecutionContextDestroyed(_) => Family::Event,
        ResponseView::UnknownEvent(_) => Family::Event,
        ResponseView::ResultScriptSource(_) => Family::Reply,
        ResponseView::ResultRuntimeRemoteObject(_) => Family::Reply,
        ResponseView::Result(_) => Family::Reply,
        ResponseView::Unknown(_) => Family::Unknown,
    }
}

/// Whether an event has the shape that its name asks for. A name that is not
/// among the known ones asks for nothing.
pub open spec fn well_formed_event(message: serde_json::Value) -> bool {
    match member_text(message, "method"@) {
        Some(name) => {
            &&& name == "Debugger.scriptParsed"@ ==> script_parsed_of(message) is Some
            &&& name == "Debugger.paused"@ ==> paused_of(message) is Some
            &&& name == "Runtime.executionContextDestroyed"@ ==> destroyed_of(message) is Some
        },
        None => false,
    }
}

/// Whether a reply has the shape that its keys ask for. A payload with
/// neither of the known keys asks for nothing.
pub open spec fn well_formed_reply(message: serde_json::Value) -> bool {
    match json_member(message, "result"@) {
        Some(result) => if json_member(result, "scriptSource"@) is Some {
            script_source_of(message) is Some
        } else if json_member(result, "objectId"@) is Some {
            remote_object_of(result) is Some
        } else {
            true
        },
        None => false,
    }
}

/// Whether a JSON value is a well-formed frame: an object, and where it is an
/// event or a reply, one of the shape that its name or its keys ask for.
pub open spec fn well_formed_frame(message: serde_json::Value) -> bool {
    &&& json_shape(message) is Object
    &&& json_member(message, "method"@) is Some ==> well_formed_event(message)
    &&& json_member(message, "method"@) is None && json_member(message, "result"@) is Some
        ==> well_formed_reply(message)
}

proof fn distinct_event_names()
    ensures
        "Debugger.scriptParsed"@ != "Debugger.paused"@,
        "Debugger.scriptParsed"@ != "Runtime.executionContextDestroyed"@,
        "Debugger.paused"@ != "Runtime.executionContextDestroyed"@,
{
    reveal_strlit("Debugger.scriptParsed");
    reveal_strlit("Debugger.paused");
    reveal_strlit("Runtime.executionContextDestroyed");
    assert("Debugger.scriptParsed"@.len() == 21);
    assert("Debugger.paused"@.len() == 15);
    assert("Runtime.executionContextDestroyed"@.len() == 33);
}

/// Classification gives a message for exactly the well-formed frames, and the
/// family of the message goes by the frame alone: an event for a frame with a
/// `method`, else a reply for one with a `result`, else unknown. What is
/// well formed but not known by name is kept, never refused: an event of
/// another name, a reply with other keys, an object that is neither.
pub proof fn lemma_classification(message: serde_json::Value)
    ensures
        classified(message) is Ok <==> well_formed_frame(message),
        classified(message) matches Ok(response) ==> family(response) == (if json_member(
            message,
            "method"@,
        ) is Some {
            Family::Event
        } else if json_member(message, "result"@) is Some {
            Family::Reply
        } else {
            Family::Unknown
        }),
        classified(message) matches Err(e) ==> e == ClientError::Decode,
        ({
            &&& json_shape(message) is Object
            &&& member_text(message, "method"@) matches Some(name)
            &&& name != "Debugger.scriptParsed"@
            &&& name != "Debugger.paused"@
            &&& name != "Runtime.executionContextDestroyed"@
        }) ==> classified(message) == Ok::<ResponseView, ClientError>(
            ResponseView::UnknownEvent(message),
        ),
        ({
            &&& json_shape(message) is Object
            &&& json_member(message, "method"@) is None
            &&& json_member(message, "result"@) matches Some(result)
            &&& json_member(result, "scriptSource"@) is None
            &&& json_member(result, "objectId"@) is None
        }) ==> classified(message) == Ok::<ResponseView, ClientError>(
            ResponseView::Result(json_member(message, "result"@)->0),
        ),
        ({
            &&& json_shape(message) is Object
            &&& json_member(message, "method"@) is None
            &&& json_member(message, "result"@) is None
        }) ==> classified(message) == Ok::<ResponseView, ClientError>(
            ResponseView::Unknown(message),
        ),
{
    distinct_event_names();
}

/// A wait that ends well gives at least one message; the last is the awaited
/// one and none before it is. A wait that ends badly ends with a frame that
/// could not be read or with the failure of the transport. Either way it
/// takes no more frames than there are, and as many as it gives messages where
/// it ends well.
pub proof fn lemma_wait_outcome(frames: Seq<Seq<char>>, awaited: Awaited)
    ensures
        wait_length(frames, awaited) <= frames.len(),
        match wait_outcome(frames, awaited) {
            Ok(messages) => {
                &&& messages.len() >= 1
                &&& messages.len() == wait_length(frames, awaited)
                &&& awaited.accepts_view(messages.last())
                &&& forall|i: int|
                    0 <= i < messages.len() ==> classified_text(frames[i]) == Ok::<
                        ResponseView,
                        ClientError,
                    >(#[trigger] messages[i])
                &&& forall|i: int|
                    0 <= i < messages.len() - 1 ==> !awaited.accepts_view(#[trigger] messages[i])
            },
            Err(e) => e == ClientError::Transport || e == ClientError::Decode,
        },
    decreases frames.len(),
{
    if frames.len() > 0 {
        lemma_wait_outcome(frames.skip(1), awaited);
        match classified_text(frames[0]) {
            Err(e) => {
                if json_parsed(frames[0]) is Some {
                    lemma_classification(json_parsed(frames[0])->0);
                }
            },
            Ok(message) => {
                if !awaited.accepts_view(message) {
                    match wait_outcome(frames.skip(1), awaited) {
                        Ok(rest) => {
                            let messages = seq![message] + rest;
                            assert(messages.last() == rest.last());
                            assert forall|i: int| 0 <= i < messages.len() implies classified_text(
                                frames[i],
                            ) == Ok::<ResponseView, ClientError>(#[trigger] messages[i]) by {
                                if i > 0 {
                                    assert(messages[i] == rest[i - 1]);
                                    assert(frames.skip(1)[i - 1] == frames[i]);
                                }
                            }
                            assert forall|i: int|
                                0 <= i < messages.len() - 1 implies !awaited.accepts_view(
                                #[trigger] messages[i],
                            ) by {
                                if i > 0 {
                                    assert(messages[i] == rest[i - 1]);
                                }
                            }
                        },
                        Err(_) => {},
                    }
                }
            },
        }
    }
}

/// Where the transport delivers events that the wait is not for, each of
/// them readable, and then the awaited message, the wait gives the events and
/// that message, in the order of their arrival, and takes no frame beyond.
pub proof fn lemma_wait_gives_batch_in_order(
    frames: Seq<Seq<char>>,
    awaited: Awaited,
    events: Seq<ResponseView>,
    reply: ResponseView,
)
    requires
        frames.len() > events.len(),
        forall|i: int|
            0 <= i < events.len() ==> classified_text(#[trigger] frames[i]) == Ok::<
                ResponseView,
                ClientError,
            >(events[i]) && !awaited.accepts_view(events[i]),
        classified_text(frames[events.len() as int]) == Ok::<ResponseView, ClientError>(reply),
        awaited.accepts_view(reply),
    ensures
        wait_outcome(frames, awaited) == Ok::<Seq<ResponseView>, ClientError>(events.push(reply)),
        wait_length(frames, awaited) == events.len() + 1,
    decreases events.len(),
{
    if events.len() == 0 {
        assert(events.push(reply) == seq![reply]);
    } else {
        let later = frames.skip(1);
        let fewer = events.skip(1);
        assert forall|i: int| 0 <= i < fewer.len() implies classified_text(#[trigger] later[i])
            == Ok::<ResponseView, ClientError>(fewer[i]) && !awaited.accepts_view(fewer[i]) by {
            assert(later[i] == frames[i + 1]);
            assert(fewer[i] == events[i + 1]);
        }
        assert(later[fewer.len() as int] == frames[events.len() as int]);
        lemma_wait_gives_batch_in_order(later, awaited, fewer, reply);
        assert(classified_text(frames[0]) == Ok::<ResponseView, ClientError>(events[0]));
        assert(seq![events[0]] + fewer.push(reply) == events.push(reply));
    }
}

/// The same under a predicate of the caller that goes by what a message
/// holds: where the transport delivers events that the predicate refuses, each
/// of them readable, and then a message that it accepts, the wait gives the
/// events and that message, in the order of their arrival, and leaves every
/// frame beyond unread.
pub proof fn lemma_predicate_wait_gives_batch_in_order<F: Fn(&Response) -> bool>(
    predicate: F,
    accepts: spec_fn(ResponseView) -> bool,
    frames: Seq<Seq<char>>,
    left: Seq<Seq<char>>,
    messages: CDTClientResult<Vec<Response>>,
    events: Seq<ResponseView>,
    reply: ResponseView,
)
    requires
        forall|message: Response, answer: bool|
            call_ensures(predicate, (&message,), answer) ==> answer == accepts(message@),
        frames.len() > events.len(),
        forall|i: int|
            0 <= i < events.len() ==> classified_text(#[trigger] frames[i]) == Ok::<
                ResponseView,
                ClientError,
            >(events[i]) && !accepts(events[i]),
        classified_text(frames[events.len() as int]) == Ok::<ResponseView, ClientError>(reply),
        accepts(reply),
        waited(predicate, frames, left, messages),
    ensures
        messages matches Ok(batch) && response_views(batch@) == events.push(reply),
        left == frames.skip(events.len() as int + 1),
{
    let n = events.len() as int;
    match messages {
        Ok(batch) => {
            let last = batch@.len() - 1;
            let before = batch@.drop_last();
            if last > n {
                assert(before[n]@ == reply);
                assert(call_ensures(predicate, (&before[n],), false));
            }
            if last < n {
                assert(classified_text(frames[last]) == Ok::<ResponseView, ClientError>(
                    events[last],
                ));
            }
            assert(last == n);
            assert forall|i: int| 0 <= i < batch@.len() implies response_views(batch@)[i]
                == events.push(reply)[i] by {
                if i < n {
                    assert(before[i] == batch@[i]);
                    assert(classified_text(frames[i]) == Ok::<ResponseView, ClientError>(
                        events[i],
                    ));
                }
            }
            assert(response_views(batch@) =~= events.push(reply));
        },
        Err(e) => {
            let seen = choose|seen: Seq<Response>|
                {
                    &&& #[trigger] refused_all(predicate, frames, seen)
                    &&& if seen.len() == frames.len() {
                        e == ClientError::Transport && left.len() == 0
                    } else {
                        &&& e == ClientError::Decode
                        &&& classified_text(frames[seen.len() as int]) is Err
                        &&& left == frames.skip(seen.len() as int + 1)
                    }
                };
            if seen.len() > n {
                assert(seen[n]@ == reply);
                assert(call_ensures(predicate, (&seen[n],), false));
            } else if seen.len() < n {
                assert(classified_text(frames[seen.len() as int]) == Ok::<
                    ResponseView,
                    ClientError,
                >(events[seen.len() as int]));
            }
            assert(false);
        },
    }
}

} // verus!
