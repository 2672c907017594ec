//! The messages of the inspector protocol, and how each is read from JSON.

use crate::json::{
    bool_member, empty_object, get, i32_member, integer_value, json_compact,
    json_items, json_member, json_shape, member_bool, member_i32, member_text, set_member,
    text_member, text_value, to_compact, JsonShape,
};
use vstd::prelude::*;

verus! {

/// The id of an execution context.
pub type RuntimeExecutionContextId = i32;

/// The id of a script.
pub type RuntimeScriptId = String;

/// The id of a call frame: it names the scope in which expressions are
/// evaluated.
pub type DebuggerCallFrameId = String;

/// The id of an object that lives in the debuggee.
pub type RuntimeRemoteObjectId = String;

/// A position in a script. Lines and columns count from zero.
#[derive(Debug, Clone)]
pub struct DebuggerLocation {
    pub script_id: RuntimeScriptId,
    pub line_number: i32,
    pub column_number: i32,
}

/// A location, as a specification sees it.
pub struct LocationView {
    pub script_id: Seq<char>,
    pub line_number: int,
    pub column_number: int,
}

impl View for DebuggerLocation {
    type V = LocationView;

    open spec fn view(&self) -> LocationView {
        LocationView {
            script_id: self.script_id@,
            line_number: self.line_number as int,
            column_number: self.column_number as int,
        }
    }
}

/// The location that a JSON object describes.
pub open spec fn location_of(value: serde_json::Value) -> Option<LocationView> {
    if member_text(value, "scriptId"@) is Some && member_i32(value, "lineNumber"@) is Some
        && member_i32(value, "columnNumber"@) is Some {
        Some(
            LocationView {
                script_id: member_text(value, "scriptId"@)->0,
                line_number: member_i32(value, "lineNumber"@)->0 as int,
                column_number: member_i32(value, "columnNumber"@)->0 as int,
            },
        )
    } else {
        None
    }
}

impl DebuggerLocation {
    /// The start of a line of a script.
    pub fn new(script_id: RuntimeScriptId, line_number: i32) -> (location: DebuggerLocation)
        ensures
            location.script_id == script_id,
            location.line_number == line_number,
            location.column_number == 0,
    {
        DebuggerLocation { script_id, line_number, column_number: 0 }
    }

    /// Reads a location from a JSON object.
    pub fn from_value(value: &serde_json::Value) -> (location: Option<DebuggerLocation>)
        ensures
            match location {
                Some(l) => location_of(*value) == Some(l@),
                None => location_of(*value) is None,
            },
    {
        let script_id = match text_member(value, "scriptId") {
            Some(script_id) => script_id,
            None => {
                return None;
            },
        };
        let line_number = match i32_member(value, "lineNumber") {
            Some(line_number) => line_number,
            None => {
                return None;
            },
        };
        let column_number = match i32_member(value, "columnNumber") {
            Some(column_number) => column_number,
            None => {
                return None;
            },
        };
        Some(DebuggerLocation { script_id, line_number, column_number })
    }

    /// The JSON object that describes this location.
    pub fn to_value(&self) -> (value: serde_json::Value)
        ensures
            location_of(value) == Some(self@),
            json_shape(value) is Object,
            json_shape(value)->Object_0.dom() == set!["scriptId"@, "lineNumber"@, "columnNumber"@],
    {
        let mut value = empty_object();
        set_member(&mut value, "scriptId", text_value(self.script_id.as_str()));
        set_member(&mut value, "lineNumber", integer_value(self.line_number as i64));
        set_member(&mut value, "columnNumber", integer_value(self.column_number as i64));
        proof {
            distinct_location_keys();
            assert(json_shape(value)->Object_0.dom() =~= set![
                "scriptId"@,
                "lineNumber"@,
                "columnNumber"@,
            ]);
        }
        value
    }
}

proof fn distinct_location_keys()
    ensures
        "scriptId"@ != "lineNumber"@,
        "scriptId"@ != "columnNumber"@,
        "lineNumber"@ != "columnNumber"@,
{
    reveal_strlit("scriptId");
    reveal_strlit("lineNumber");
    reveal_strlit("columnNumber");
    assert("scriptId"@.len() == 8);
    assert("lineNumber"@.len() == 10);
    assert("columnNumber"@.len() == 12);
}

/// One frame of the paused call stack.
#[derive(Debug, Clone)]
pub struct DebuggerPausedCallFrame {
    pub call_frame_id: DebuggerCallFrameId,
    pub function_name: String,
    pub function_location: DebuggerLocation,
    pub location: DebuggerLocation,
}

/// A call frame, as a specification sees it.
pub struct CallFrameView {
    pub call_frame_id: Seq<char>,
    pub function_name: Seq<char>,
    pub function_location: LocationView,
    pub location: LocationView,
}

impl View for DebuggerPausedCallFrame {
    type V = CallFrameView;

    open spec fn view(&self) -> CallFrameView {
        CallFrameView {
            call_frame_id: self.call_frame_id@,
            function_name: self.function_name@,
            function_location: self.function_location@,
            location: self.location@,
        }
    }
}

/// The location that the member under a key describes.
pub open spec fn member_location(value: serde_json::Value, key: Seq<char>) -> Option<
    LocationView,
> {
    match json_member(value, key) {
        Some(member) => location_of(member),
        None => None,
    }
}

/// The call frame that a JSON object describes.
pub open spec fn frame_of(value: serde_json::Value) -> Option<CallFrameView> {
    if member_text(value, "callFrameId"@) is Some && member_text(value, "functionName"@) is Some
        && member_location(value, "functionLocation"@) is Some && member_location(
        value,
        "location"@,
    ) is Some {
        Some(
            CallFrameView {
                call_frame_id: member_text(value, "callFrameId"@)->0,
                function_name: member_text(value, "functionName"@)->0,
                function_location: member_location(value, "functionLocation"@)->0,
                location: member_location(value, "location"@)->0,
            },
        )
    } else {
        None
    }
}

/// The call frames that a list of JSON objects describes, if each of them
/// describes one.
pub open spec fn frames_of(items: Seq<serde_json::Value>) -> Option<Seq<CallFrameView>> {
    if forall|i: int| 0 <= i < items.len() ==> (#[trigger] frame_of(items[i])) is Some {
        Some(Seq::new(items.len(), |i: int| frame_of(items[i])->0))
    } else {
        None
    }
}

/// The views of a list of call frames.
pub open spec fn frame_views(frames: Seq<DebuggerPausedCallFrame>) -> Seq<CallFrameView> {
    frames.map_values(|frame: DebuggerPausedCallFrame| frame@)
}

fn location_member(value: &serde_json::Value, key: &str) -> (location: Option<DebuggerLocation>)
    ensures
        match location {
            Some(l) => member_location(*value, key@) == Some(l@),
            None => member_location(*value, key@) is None,
        },
{
    match get(value, key) {
        Some(member) => DebuggerLocation::from_value(member),
        None => None,
    }
}

impl DebuggerPausedCallFrame {
    /// Reads a call frame from a JSON object.
    pub fn from_value(value: &serde_json::Value) -> (frame: Option<DebuggerPausedCallFrame>)
        ensures
            match frame {
                Some(f) => frame_of(*value) == Some(f@),
                None => frame_of(*value) is None,
            },
    {
        let call_frame_id = match text_member(value, "callFrameId") {
            Some(call_frame_id) => call_frame_id,
            None => {
                return None;
            },
        };
        let function_name = match text_member(value, "functionName") {
            Some(function_name) => function_name,
            None => {
                return None;
            },
        };
        let function_location = match location_member(value, "functionLocation") {
            Some(function_location) => function_location,
            None => {
                return None;
            },
        };
        let location = match location_member(value, "location") {
            Some(location) => location,
            None => {
                return None;
            },
        };
        Some(DebuggerPausedCallFrame { call_frame_id, function_name, function_location, location })
    }
}

/// The parameters of a paused event.
#[derive(Debug, Clone)]
pub struct DebuggerPausedParams {
    pub call_frames: Vec<DebuggerPausedCallFrame>,
}

/// The event that the debuggee has paused: its call stack, innermost frame
/// first.
#[derive(Debug, Clone)]
pub struct DebuggerPausedResponse {
    pub params: DebuggerPausedParams,
}

impl View for DebuggerPausedResponse {
    type V = Seq<CallFrameView>;

    open spec fn view(&self) -> Seq<CallFrameView> {
        frame_views(self.params.call_frames@)
    }
}

/// The call stack that a paused event carries.
pub open spec fn paused_of(message: serde_json::Value) -> Option<Seq<CallFrameView>> {
    match json_member(message, "params"@) {
        Some(params) => match json_member(params, "callFrames"@) {
            Some(list) => match json_items(list) {
                Some(items) => frames_of(items),
                None => None,
            },
            None => None,
        },
        None => None,
    }
}

impl DebuggerPausedResponse {
    /// Reads a paused event from a JSON message.
    pub fn from_value(message: &serde_json::Value) -> (paused: Option<DebuggerPausedResponse>)
        ensures
            match paused {
                Some(p) => paused_of(*message) == Some(p@),
                None => paused_of(*message) is None,
            },
    {
        let params = match get(message, "params") {
            Some(params) => params,
            None => {
                return None;
            },
        };
        let list = match get(params, "callFrames") {
            Some(list) => list,
            None => {
                return None;
            },
        };
        let items = match list.as_array() {
            Some(items) => items,
            None => {
                return None;
            },
        };
        let mut call_frames: Vec<DebuggerPausedCallFrame> = Vec::new();
        let mut i: usize = 0;
        while i < items.len()
            invariant
                i <= items.len(),
                call_frames.len() == i,
                json_member(*message, "params"@) == Some(*params),
                json_member(*params, "callFrames"@) == Some(*list),
                json_items(*list) == Some(items@),
                forall|j: int|
                    0 <= j < i ==> frame_of(#[trigger] items@[j]) == Some(call_frames@[j]@),
            decreases items.len() - i,
        {
            match DebuggerPausedCallFrame::from_value(&items[i]) {
                Some(frame) => {
                    call_frames.push(frame);
                },
                None => {
                    assert(frames_of(items@) is None);
                    return None;
                },
            }
            i += 1;
        }
        assert(frames_of(items@) is Some);
        assert(frame_views(call_frames@) =~= frames_of(items@)->0);
        Some(DebuggerPausedResponse { params: DebuggerPausedParams { call_frames } })
    }
}

/// The parameters of a script-parsed event.
#[derive(Debug, Clone)]
pub struct DebuggerScriptParsedResponseParams {
    pub end_column: i32,
    pub end_line: i32,
    pub execution_context_id: RuntimeExecutionContextId,
    pub hash: String,
    pub script_id: RuntimeScriptId,
    pub start_column: i32,
    pub start_line: i32,
    pub url: String,
    pub source_map_url: String,
    pub has_source_url: bool,
}

/// The event that the debuggee has parsed a script.
#[derive(Debug, Clone)]
pub struct ScriptParsedResponse {
    pub method: String,
    pub params: DebuggerScriptParsedResponseParams,
}

/// A script-parsed event, as a specification sees it.
pub struct ScriptParsedView {
    pub method: Seq<char>,
    pub end_column: int,
    pub end_line: int,
    pub execution_context_id: int,
    pub hash: Seq<char>,
    pub script_id: Seq<char>,
    pub start_column: int,
    pub start_line: int,
    pub url: Seq<char>,
    pub source_map_url: Seq<char>,
    pub has_source_url: bool,
}

impl View for ScriptParsedResponse {
    type V = ScriptParsedView;

    open spec fn view(&self) -> ScriptParsedView {
        ScriptParsedView {
            method: self.method@,
            end_column: self.params.end_column as int,
            end_line: self.params.end_line as int,
            execution_context_id: self.params.execution_context_id as int,
            hash: self.params.hash@,
            script_id: self.params.script_id@,
            start_column: self.params.start_column as int,
            start_line: self.params.start_line as int,
            url: self.params.url@,
            source_map_url: self.params.source_map_url@,
            has_source_url: self.params.has_source_url,
        }
    }
}

/// Whether a JSON object has every member of the parameters of a
/// script-parsed event, each of its own type.
pub open spec fn has_script_params(params: serde_json::Value) -> bool {
    &&& member_i32(params, "endColumn"@) is Some
    &&& member_i32(params, "endLine"@) is Some
    &&& member_i32(params, "executionContextId"@) is Some
    &&& member_text(params, "hash"@) is Some
    &&& member_text(params, "scriptId"@) is Some
    &&& member_i32(params, "startColumn"@) is Some
    &&& member_i32(params, "startLine"@) is Some
    &&& member_text(params, "url"@) is Some
    &&& member_text(params, "sourceMapURL"@) is Some
    &&& member_bool(params, "hasSourceURL"@) is Some
}

/// The script-parsed event that a JSON message carries.
pub open spec fn script_parsed_of(message: serde_json::Value) -> Option<ScriptParsedView> {
    match (member_text(message, "method"@), json_member(message, "params"@)) {
        (Some(method), Some(params)) => if has_script_params(params) {
            Some(
                ScriptParsedView {
                    method,
                    end_column: member_i32(params, "endColumn"@)->0 as int,
                    end_line: member_i32(params, "endLine"@)->0 as int,
                    execution_context_id: member_i32(params, "executionContextId"@)->0 as int,
                    hash: member_text(params, "hash"@)->0,
                    script_id: member_text(params, "scriptId"@)->0,
                    start_column: member_i32(params, "startColumn"@)->0 as int,
                    start_line: member_i32(params, "startLine"@)->0 as int,
                    url: member_text(params, "url"@)->0,
                    source_map_url: member_text(params, "sourceMapURL"@)->0,
                    has_source_url: member_bool(params, "hasSourceURL"@)->0,
                },
            )
        } else {
            None
        },
        _ => None,
    }
}

impl ScriptParsedResponse {
    /// Reads a script-parsed event from a JSON message.
    pub fn from_value(message: &serde_json::Value) -> (parsed: Option<ScriptParsedResponse>)
        ensures
            match parsed {
                Some(p) => script_parsed_of(*message) == Some(p@),
                None => script_parsed_of(*message) is None,
            },
    {
        let method = match text_member(message, "method") {
            Some(method) => method,
            None => {
                return None;
            },
        };
        let params = match get(message, "params") {
            Some(params) => params,
            None => {
                return None;
            },
        };
        let end_column = match i32_member(params, "endColumn") {
            Some(end_column) => end_column,
            None => {
                return None;
            },
        };
        let end_line = match i32_member(params, "endLine") {
            Some(end_line) => end_line,
            None => {
                return None;
            },
        };
        let execution_context_id = match i32_member(params, "executionContextId") {
            Some(execution_context_id) => execution_context_id,
            None => {
                return None;
            },
        };
        let hash = match text_member(params, "hash") {
            Some(hash) => hash,
            None => {
                return None;
            },
        };
        let script_id = match text_member(params, "scriptId") {
            Some(script_id) => script_id,
            None => {
                return None;
            },
        };
        let start_column = match i32_member(params, "startColumn") {
            Some(start_column) => start_column,
            None => {
                return None;
            },
        };
        let start_line = match i32_member(params, "startLine") {
            Some(start_line) => start_line,
            None => {
                return None;
            },
        };
        let url = match text_member(params, "url") {
            Some(url) => url,
            None => {
                return None;
            },
        };
        let source_map_url = match text_member(params, "sourceMapURL") {
            Some(source_map_url) => source_map_url,
            None => {
                return None;
            },
        };
        let has_source_url = match bool_member(params, "hasSourceURL") {
            Some(has_source_url) => has_source_url,
            None => {
                return None;
            },
        };
        Some(
            ScriptParsedResponse {
                method,
                params: DebuggerScriptParsedResponseParams {
                    end_column,
                    end_line,
                    execution_context_id,
                    hash,
                    script_id,
                    start_column,
                    start_line,
                    url,
                    source_map_url,
                    has_source_url,
                },
            },
        )
    }
}

/// The parameters of a context-destroyed event.
#[derive(Debug, Clone)]
pub struct RuntimeExecutionContextDestroyedParams {
    pub execution_context_id: RuntimeExecutionContextId,
}

/// The event that the execution context is gone: the debuggee has run to its
/// end.
#[derive(Debug, Clone)]
pub struct RuntimeExecutionContextDestroyedResponse {
    pub params: RuntimeExecutionContextDestroyedParams,
}

/// The id of the context that a context-destroyed event names.
pub open spec fn destroyed_of(message: serde_json::Value) -> Option<i32> {
    match json_member(message, "params"@) {
        Some(params) => member_i32(params, "executionContextId"@),
        None => None,
    }
}

impl RuntimeExecutionContextDestroyedResponse {
    /// Reads a context-destroyed event from a JSON message.
    pub fn from_value(message: &serde_json::Value) -> (destroyed: Option<
        RuntimeExecutionContextDestroyedResponse,
    >)
        ensures
            match destroyed {
                Some(d) => destroyed_of(*message) == Some(d.params.execution_context_id),
                None => destroyed_of(*message) is None,
            },
    {
        let params = match get(message, "params") {
            Some(params) => params,
            None => {
                return None;
            },
        };
        match i32_member(params, "executionContextId") {
            Some(execution_context_id) => Some(
                RuntimeExecutionContextDestroyedResponse {
                    params: RuntimeExecutionContextDestroyedParams { execution_context_id },
                },
            ),
            None => None,
        }
    }
}

/// The payload of a script-source reply.
#[derive(Debug, Clone)]
pub struct ResultScriptSourceResponseResult {
    pub script_source: String,
}

/// The reply that carries the text of a script.
#[derive(Debug, Clone)]
pub struct ResultScriptSourceResponse {
    pub result: ResultScriptSourceResponseResult,
}

/// The script text that a reply carries.
pub open spec fn script_source_of(message: serde_json::Value) -> Option<Seq<char>> {
    match json_member(message, "result"@) {
        Some(result) => member_text(result, "scriptSource"@),
        None => None,
    }
}

impl ResultScriptSourceResponse {
    /// Reads a script-source reply from a JSON message.
    pub fn from_value(message: &serde_json::Value) -> (source: Option<ResultScriptSourceResponse>)
        ensures
            match source {
                Some(s) => script_source_of(*message) == Some(s.result.script_source@),
                None => script_source_of(*message) is None,
            },
    {
        let result = match get(message, "result") {
            Some(result) => result,
            None => {
                return None;
            },
        };
        match text_member(result, "scriptSource") {
            Some(script_source) => Some(
                ResultScriptSourceResponse {
                    result: ResultScriptSourceResponseResult { script_source },
                },
            ),
            None => None,
        }
    }
}

/// A literal that the debuggee hands back by value. A number is held as the
/// text that stands for it in JSON.
#[derive(Debug, Clone)]
pub enum RuntimeRemoteObjectResultValue {
    String(String),
    Number(String),
    Bool(bool),
}

/// A literal, as a specification sees it.
pub enum LiteralView {
    String(Seq<char>),
    Number(Seq<char>),
    Bool(bool),
}

impl View for RuntimeRemoteObjectResultValue {
    type V = LiteralView;

    open spec fn view(&self) -> LiteralView {
        match self {
            RuntimeRemoteObjectResultValue::String(text) => LiteralView::String(text@),
            RuntimeRemoteObjectResultValue::Number(text) => LiteralView::Number(text@),
            RuntimeRemoteObjectResultValue::Bool(b) => LiteralView::Bool(*b),
        }
    }
}

/// The literal that a JSON value stands for: a boolean, a string or a number.
/// Nothing else counts as a literal.
pub open spec fn literal_of(value: serde_json::Value) -> Option<LiteralView> {
    match json_shape(value) {
        JsonShape::Bool(b) => Some(LiteralView::Bool(b)),
        JsonShape::Text(text) => Some(LiteralView::String(text)),
        JsonShape::Integer(_) => Some(LiteralView::Number(json_compact(value))),
        JsonShape::Real => Some(LiteralView::Number(json_compact(value))),
        _ => None,
    }
}

/// The literal under a key.
pub open spec fn member_literal(value: serde_json::Value, key: Seq<char>) -> Option<LiteralView> {
    match json_member(value, key) {
        Some(member) => literal_of(member),
        None => None,
    }
}

impl RuntimeRemoteObjectResultValue {
    /// Reads a literal from a JSON value.
    pub fn from_value(value: &serde_json::Value) -> (literal: Option<
        RuntimeRemoteObjectResultValue,
    >)
        ensures
            match literal {
                Some(l) => literal_of(*value) == Some(l@),
                None => literal_of(*value) is None,
            },
    {
        if let Some(b) = value.as_bool() {
            Some(RuntimeRemoteObjectResultValue::Bool(b))
        } else if let Some(text) = value.as_str() {
            Some(RuntimeRemoteObjectResultValue::String(text.to_owned()))
        } else if value.is_number() {
            Some(RuntimeRemoteObjectResultValue::Number(to_compact(value)))
        } else {
            None
        }
    }
}

/// What the debuggee says of a value: its type, and what there is to show of
/// it.
#[derive(Debug, Clone)]
pub struct RuntimeRemoteObjectResult {
    pub kind: String,
    pub object_id: Option<RuntimeRemoteObjectId>,
    pub value: Option<RuntimeRemoteObjectResultValue>,
    pub description: Option<String>,
    pub class_name: Option<String>,
}

/// The reply to an evaluation.
#[derive(Debug, Clone)]
pub struct RuntimeRemoteObject {
    pub result: RuntimeRemoteObjectResult,
}

/// A remote object, as a specification sees it.
pub struct RemoteObjectView {
    pub kind: Seq<char>,
    pub object_id: Option<Seq<char>>,
    pub value: Option<LiteralView>,
    pub description: Option<Seq<char>>,
    pub class_name: Option<Seq<char>>,
}

/// The view of a text that may be missing.
pub open spec fn text_view(text: Option<String>) -> Option<Seq<char>> {
    match text {
        Some(t) => Some(t@),
        None => None,
    }
}

/// The view of a literal that may be missing.
pub open spec fn literal_view(literal: Option<RuntimeRemoteObjectResultValue>) -> Option<
    LiteralView,
> {
    match literal {
        Some(l) => Some(l@),
        None => None,
    }
}

impl View for RuntimeRemoteObjectResult {
    type V = RemoteObjectView;

    open spec fn view(&self) -> RemoteObjectView {
        RemoteObjectView {
            kind: self.kind@,
            object_id: text_view(self.object_id),
            value: literal_view(self.value),
            description: text_view(self.description),
            class_name: text_view(self.class_name),
        }
    }
}

impl View for RuntimeRemoteObject {
    type V = RemoteObjectView;

    open spec fn view(&self) -> RemoteObjectView {
        self.result@
    }
}

/// The remote object that the payload of a reply describes. Only the type is
/// needed; a member that is missing, or of another type than expected, is left
/// out.
pub open spec fn remote_object_of(payload: serde_json::Value) -> Option<RemoteObjectView> {
    match member_text(payload, "type"@) {
        Some(kind) => Some(
            RemoteObjectView {
                kind,
                object_id: member_text(payload, "objectId"@),
                value: member_literal(payload, "value"@),
                description: member_text(payload, "description"@),
                class_name: member_text(payload, "className"@),
            },
        ),
        None => None,
    }
}

impl RuntimeRemoteObject {
    /// Reads a remote object from the payload of a reply.
    pub fn from_value(payload: &serde_json::Value) -> (object: Option<RuntimeRemoteObject>)
        ensures
            match object {
                Some(o) => remote_object_of(*payload) == Some(o@),
                None => remote_object_of(*payload) is None,
            },
    {
        let kind = match text_member(payload, "type") {
            Some(kind) => kind,
            None => {
                return None;
            },
        };
        let object_id = text_member(payload, "objectId");
        let value = match get(payload, "value") {
            Some(member) => RuntimeRemoteObjectResultValue::from_value(member),
            None => None,
        };
        let description = text_member(payload, "description");
        let class_name = text_member(payload, "className");
        Some(
            RuntimeRemoteObject {
                result: RuntimeRemoteObjectResult {
                    kind,
                    object_id,
                    value,
                    description,
                    class_name,
                },
            },
        )
    }
}

/// A reply that carries nothing this crate knows by name.
#[derive(Debug, Clone)]
pub struct ResultResponse {
    pub result: serde_json::Value,
}

/// One inbound message, classified.
#[derive(Debug, Clone)]
pub enum Response {
    DebuggerScriptParsed(ScriptParsedResponse),
    DebuggerPaused(DebuggerPausedResponse),
    RuntimeExecutionContextDestroyed(RuntimeExecutionContextDestroyedResponse),
    /// An event whose name is not among the known ones; the message is kept.
    UnknownEvent(serde_json::Value),
    ResultScriptSource(ResultScriptSourceResponse),
    ResultRuntimeRemoteObject(RuntimeRemoteObject),
    Result(ResultResponse),
    /// Neither an event nor a reply; the message is kept.
    Unknown(serde_json::Value),
}

/// A classified message, as a specification sees it.
pub enum ResponseView {
    DebuggerScriptParsed(ScriptParsedView),
    DebuggerPaused(Seq<CallFrameView>),
    RuntimeExecutionContextDestroyed(i32),
    UnknownEvent(serde_json::Value),
    ResultScriptSource(Seq<char>),
    ResultRuntimeRemoteObject(RemoteObjectView),
    Result(serde_json::Value),
    Unknown(serde_json::Value),
}

impl View for Response {
    type V = ResponseView;

    open spec fn view(&self) -> ResponseView {
        match self {
            Response::DebuggerScriptParsed(parsed) => ResponseView::DebuggerScriptParsed(parsed@),
            Response::DebuggerPaused(paused) => ResponseView::DebuggerPaused(paused@),
            Response::RuntimeExecutionContextDestroyed(destroyed) =>
                ResponseView::RuntimeExecutionContextDestroyed(
                destroyed.params.execution_context_id,
            ),
            Response::UnknownEvent(message) => ResponseView::UnknownEvent(*message),
            Response::ResultScriptSource(source) => ResponseView::ResultScriptSource(
                source.result.script_source@,
            ),
            Response::ResultRuntimeRemoteObject(object) => ResponseView::ResultRuntimeRemoteObject(
                object@,
            ),
            Response::Result(reply) => ResponseView::Result(reply.result),
            Response::Unknown(message) => ResponseView::Unknown(*message),
        }
    }
}

impl Response {
    /// The script-source reply that this message is, if it is one.
    pub fn expect_result_script_source(&self) -> (source: Option<&ResultScriptSourceResponse>)
        ensures
            match *self {
                Response::ResultScriptSource(held) => source == Some(&held),
                _ => source is None,
            },
    {
        if let Response::ResultScriptSource(res) = self {
            Some(res)
        } else {
            None
        }
    }
}

/// The parameters that name a script.
#[derive(Debug, Clone)]
pub struct RuntimeRunScriptRequestParams {
    pub script_id: RuntimeScriptId,
}

impl RuntimeRunScriptRequestParams {
    /// The JSON object `{"scriptId": ..}`.
    pub fn to_value(&self) -> (value: serde_json::Value)
        ensures
            json_shape(value) is Object,
            json_shape(value)->Object_0.dom() == set!["scriptId"@],
            member_text(value, "scriptId"@) == Some(self.script_id@),
    {
        let mut value = empty_object();
        set_member(&mut value, "scriptId", text_value(self.script_id.as_str()));
        assert(json_shape(value)->Object_0.dom() =~= set!["scriptId"@]);
        value
    }
}

/// The parameters that name the location from which breakpoints are asked for.
#[derive(Debug, Clone)]
pub struct DebuggerGetPossibleBreakpointsParams {
    pub start: DebuggerLocation,
}

impl DebuggerGetPossibleBreakpointsParams {
    /// The JSON object `{"start": ..}`.
    pub fn to_value(&self) -> (value: serde_json::Value)
        ensures
            json_shape(value) is Object,
            json_shape(value)->Object_0.dom() == set!["start"@],
            member_location(value, "start"@) == Some(self.start@),
    {
        let mut value = empty_object();
        set_member(&mut value, "start", self.start.to_value());
        assert(json_shape(value)->Object_0.dom() =~= set!["start"@]);
        value
    }
}

/// One command: its id, the method it calls, and the parameters of the call.
#[derive(Debug, Clone)]
pub struct Request {
    pub id: i32,
    pub method: String,
    pub params: serde_json::Value,
}

/// Whether a JSON value is the frame of a command with the given id, method
/// and parameters: an object of exactly these three members.
pub open spec fn describes_request(
    value: serde_json::Value,
    id: i32,
    method: Seq<char>,
    params: serde_json::Value,
) -> bool {
    &&& json_shape(value) is Object
    &&& json_shape(value)->Object_0.dom() == set!["id"@, "method"@, "params"@]
    &&& member_i32(value, "id"@) == Some(id)
    &&& member_text(value, "method"@) == Some(method)
    &&& json_member(value, "params"@) == Some(params)
}

impl Request {
    /// A command without parameters: its `params` is the empty object.
    pub fn new(id: i32, method: &str) -> (request: Request)
        ensures
            request.id == id,
            request.method@ == method@,
            json_shape(request.params) == JsonShape::Object(
                Map::<Seq<char>, serde_json::Value>::empty(),
            ),
    {
        let params = empty_object();
        Request { id, method: method.to_owned(), params }
    }

    /// A command with the given parameters. This never fails.
    pub fn new_with_params(id: i32, method: &str, params: serde_json::Value) -> (request: Result<
        Request,
        serde_json::Error,
    >)
        ensures
            request matches Ok(r) && r.id == id && r.method@ == method@ && r.params == params,
    {
        Ok(Request { id, method: method.to_owned(), params })
    }

    /// The JSON object that goes over the wire for this command.
    pub fn to_value(&self) -> (value: serde_json::Value)
        ensures
            describes_request(value, self.id, self.method@, self.params),
    {
        let mut value = empty_object();
        set_member(&mut value, "id", integer_value(self.id as i64));
        set_member(&mut value, "method", text_value(self.method.as_str()));
        set_member(&mut value, "params", self.params.clone());
        proof {
            distinct_request_keys();
            assert(json_shape(value)->Object_0.dom() =~= set!["id"@, "method"@, "params"@]);
        }
        value
    }
}

proof fn distinct_request_keys()
    ensures
        "id"@ != "method"@,
        "id"@ != "params"@,
        "method"@ != "params"@,
{
    reveal_strlit("id");
    reveal_strlit("method");
    reveal_strlit("params");
    assert("id"@.len() == 2);
    assert("method"@[0] == 'm');
    assert("params"@[0] == 'p');
}

} // verus!
