//! The targets that a debuggee offers for debugging: how their list is read,
//! which of them is taken, and the addresses to reach it.

use crate::json::{from_str, json_items, json_parsed, member_text, text_member};
use crate::text::{from_chars, push_text};
use vstd::prelude::*;

verus! {

/// One target of the list that a debuggee serves.
#[derive(Debug, Clone)]
pub struct Debugger {
    pub description: String,
    pub devtools_frontend_url: String,
    pub devtools_frontend_url_compat: String,
    pub favicon_url: String,
    pub id: String,
    pub title: String,
    pub kind: String,
    pub url: String,
    pub web_socket_debugger_url: String,
}

/// A target, as a specification sees it.
pub struct DebuggerView {
    pub description: Seq<char>,
    pub devtools_frontend_url: Seq<char>,
    pub devtools_frontend_url_compat: Seq<char>,
    pub favicon_url: Seq<char>,
    pub id: Seq<char>,
    pub title: Seq<char>,
    pub kind: Seq<char>,
    pub url: Seq<char>,
    pub web_socket_debugger_url: Seq<char>,
}

impl View for Debugger {
    type V = DebuggerView;

    open spec fn view(&self) -> DebuggerView {
        DebuggerView {
            description: self.description@,
            devtools_frontend_url: self.devtools_frontend_url@,
            devtools_frontend_url_compat: self.devtools_frontend_url_compat@,
            favicon_url: self.favicon_url@,
            id: self.id@,
            title: self.title@,
            kind: self.kind@,
            url: self.url@,
            web_socket_debugger_url: self.web_socket_debugger_url@,
        }
    }
}

/// Whether a JSON object has every member of a target, each a string.
pub open spec fn has_debugger(value: serde_json::Value) -> bool {
    &&& member_text(value, "description"@) is Some
    &&& member_text(value, "devtoolsFrontendUrl"@) is Some
    &&& member_text(value, "devtoolsFrontendUrlCompat"@) is Some
    &&& member_text(value, "faviconUrl"@) is Some
    &&& member_text(value, "id"@) is Some
    &&& member_text(value, "title"@) is Some
    &&& member_text(value, "type"@) is Some
    &&& member_text(value, "url"@) is Some
    &&& member_text(value, "webSocketDebuggerUrl"@) is Some
}

/// The target that a JSON object describes.
pub open spec fn debugger_of(value: serde_json::Value) -> Option<DebuggerView> {
    if has_debugger(value) {
        Some(
            DebuggerView {
                description: member_text(value, "description"@)->0,
                devtools_frontend_url: member_text(value, "devtoolsFrontendUrl"@)->0,
                devtools_frontend_url_compat: member_text(value, "devtoolsFrontendUrlCompat"@)->0,
                favicon_url: member_text(value, "faviconUrl"@)->0,
                id: member_text(value, "id"@)->0,
                title: member_text(value, "title"@)->0,
                kind: member_text(value, "type"@)->0,
                url: member_text(value, "url"@)->0,
                web_socket_debugger_url: member_text(value, "webSocketDebuggerUrl"@)->0,
            },
        )
    } else {
        None
    }
}

/// The targets that a JSON text lists: an array of which every item describes
/// a target.
pub open spec fn debuggers_in(text: Seq<char>) -> Option<Seq<DebuggerView>> {
    match json_parsed(text) {
        Some(value) => match json_items(value) {
            Some(items) => if forall|i: int|
                0 <= i < items.len() ==> (#[trigger] debugger_of(items[i])) is Some {
                Some(Seq::new(items.len(), |i: int| debugger_of(items[i])->0))
            } else {
                None
            },
            None => None,
        },
        None => None,
    }
}

/// The views of a list of targets.
pub open spec fn debugger_views(debuggers: Seq<Debugger>) -> Seq<DebuggerView> {
    debuggers.map_values(|debugger: Debugger| debugger@)
}

impl Debugger {
    /// Reads a target from a JSON object.
    pub fn from_value(value: &serde_json::Value) -> (debugger: Option<Debugger>)
        ensures
            match debugger {
                Some(d) => debugger_of(*value) == Some(d@),
                None => debugger_of(*value) is None,
            },
    {
        let description = match text_member(value, "description") {
            Some(description) => description,
            None => {
                return None;
            },
        };
        let devtools_frontend_url = match text_member(value, "devtoolsFrontendUrl") {
            Some(devtools_frontend_url) => devtools_frontend_url,
            None => {
                return None;
            },
        };
        let devtools_frontend_url_compat = match text_member(value, "devtoolsFrontendUrlCompat") {
            Some(devtools_frontend_url_compat) => devtools_frontend_url_compat,
            None => {
                return None;
            },
        };
        let favicon_url = match text_member(value, "faviconUrl") {
            Some(favicon_url) => favicon_url,
            None => {
                return None;
            },
        };
        let id = match text_member(value, "id") {
            Some(id) => id,
            None => {
                return None;
            },
        };
        let title = match text_member(value, "title") {
            Some(title) => title,
            None => {
                return None;
            },
        };
        let kind = match text_member(value, "type") {
            Some(kind) => kind,
            None => {
                return None;
            },
        };
        let url = match text_member(value, "url") {
            Some(url) => url,
            None => {
                return None;
            },
        };
        let web_socket_debugger_url = match text_member(value, "webSocketDebuggerUrl") {
            Some(web_socket_debugger_url) => web_socket_debugger_url,
            None => {
                return None;
            },
        };
        Some(
            Debugger {
                description,
                devtools_frontend_url,
                devtools_frontend_url_compat,
                favicon_url,
                id,
                title,
                kind,
                url,
                web_socket_debugger_url,
            },
        )
    }
}

/// Reads the list of targets that a debuggee serves.
pub fn parse_debuggers(text: &str) -> (debuggers: Option<Vec<Debugger>>)
    ensures
        match debuggers {
            Some(list) => debuggers_in(text@) == Some(debugger_views(list@)),
            None => debuggers_in(text@) is None,
        },
{
    let value = match from_str(text) {
        Ok(value) => value,
        Err(_) => {
            return None;
        },
    };
    let items = match value.as_array() {
        Some(items) => items,
        None => {
            return None;
        },
    };
    let mut list: Vec<Debugger> = Vec::new();
    let mut i: usize = 0;
    while i < items.len()
        invariant
            i <= items.len(),
            list.len() == i,
            json_parsed(text@) == Some(value),
            json_items(value) == Some(items@),
            forall|j: int| 0 <= j < i ==> debugger_of(#[trigger] items@[j]) == Some(list@[j]@),
        decreases items.len() - i,
    {
        match Debugger::from_value(&items[i]) {
            Some(debugger) => {
                list.push(debugger);
            },
            None => {
                return None;
            },
        }
        i += 1;
    }
    assert(debugger_views(list@) =~= debuggers_in(text@)->0);
    Some(list)
}

/// Picks the target to debug: the only one of the list. A list of none or
/// of several leaves the choice open, and nothing is picked.
pub fn select_debugger(debuggers: &Vec<Debugger>) -> (chosen: Option<&Debugger>)
    ensures
        if debuggers@.len() == 1 {
            chosen == Some(&debuggers@[0])
        } else {
            chosen is None
        },
{
    if debuggers.len() != 1 {
        None
    } else {
        Some(&debuggers[0])
    }
}

/// The address under which a debuggee serves the list of its targets.
pub open spec fn list_address(host: Seq<char>, port: Seq<char>) -> Seq<char> {
    "http://"@ + host + ":"@ + port + "/json"@
}

/// The address of the socket of a target.
pub open spec fn socket_address(host: Seq<char>, port: Seq<char>, id: Seq<char>) -> Seq<char> {
    "ws://"@ + host + ":"@ + port + "/"@ + id
}

/// The address under which a debuggee serves the list of its targets.
pub fn debuggers_url(host: &str, port: &str) -> (url: String)
    ensures
        url@ == list_address(host@, port@),
{
    let mut chars: Vec<char> = Vec::new();
    push_text(&mut chars, "http://");
    push_text(&mut chars, host);
    push_text(&mut chars, ":");
    push_text(&mut chars, port);
    push_text(&mut chars, "/json");
    assert(chars@ =~= list_address(host@, port@));
    from_chars(&chars)
}

/// The address of the socket of a target.
pub fn websocket_url(host: &str, port: &str, id: &str) -> (url: String)
    ensures
        url@ == socket_address(host@, port@, id@),
{
    let mut chars: Vec<char> = Vec::new();
    push_text(&mut chars, "ws://");
    push_text(&mut chars, host);
    push_text(&mut chars, ":");
    push_text(&mut chars, port);
    push_text(&mut chars, "/");
    push_text(&mut chars, id);
    assert(chars@ =~= socket_address(host@, port@, id@));
    from_chars(&chars)
}

} // verus!
