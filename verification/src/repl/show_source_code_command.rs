//! Showing the source around the active call frame: what is asked of the
//! debuggee, and how the answer is laid out.

use crate::cdt::client::{ClientError, Command, CommandView};
use crate::cdt::models::{DebuggerPausedCallFrame, LocationView};
use crate::repl::code_preview::{
    code_preview_of, create_code_preview, create_preview, numbered_views, preview_of,
};
use crate::repl::plan::{Continuation, EffectView, Plan};
use crate::repl::repl_state::ReplState;
use crate::source_code::{source_code_of, SourceCode};
use crate::text::{
    from_chars, join, join_chars, lines_of, padded, padded_chars, push_all, push_text, texts,
};
use vstd::prelude::*;
use vstd::utf8::encode_utf8;

verus! {

/// One line of a preview as it is shown: its number, filled up to three
/// digits, a bar, and the text.
pub open spec fn pretty_line(line: (nat, Seq<char>)) -> Seq<char> {
    " "@ + padded(line.0) + " | "@ + line.1
}

/// A line set off in colour.
pub open spec fn highlighted(text: Seq<char>) -> Seq<char> {
    "\x1b[93m"@ + text + "\x1b[0m"@
}

/// The lines of a preview as they are shown. The line in the middle is set
/// off in colour; of an even number of lines it is the last of the first half.
pub open spec fn pretty_lines(lines: Seq<(nat, Seq<char>)>) -> Seq<Seq<char>> {
    Seq::new(
        lines.len(),
        |i: int|
            if i == (lines.len() - 1) / 2 {
                highlighted(pretty_line(lines[i]))
            } else {
                pretty_line(lines[i])
            },
    )
}

/// A preview as it is shown: its lines, one below the other.
pub open spec fn prettified(lines: Seq<(nat, Seq<char>)>) -> Seq<char> {
    join(pretty_lines(lines), seq!['\n'])
}

/// Lays out the lines of a preview.
pub fn get_prettified_code_preview(lines: &Vec<(usize, String)>) -> (text: String)
    ensures
        text@ == prettified(numbered_views(lines@)),
{
    let ghost views = numbered_views(lines@);
    let ghost want = pretty_lines(views);
    let n = lines.len();
    let mut rows: Vec<Vec<char>> = Vec::new();
    let mut i: usize = 0;
    while i < n
        invariant
            i <= n,
            n == lines.len(),
            views == numbered_views(lines@),
            want == pretty_lines(views),
            rows.len() == i,
            forall|k: int| 0 <= k < i ==> (#[trigger] rows@[k])@ == want[k],
        decreases n - i,
    {
        let mut row: Vec<char> = Vec::new();
        let middle = i == (n - 1) / 2;
        if middle {
            push_text(&mut row, "\x1b[93m");
        }
        let ghost start = row@;
        push_text(&mut row, " ");
        let number = padded_chars(lines[i].0);
        push_all(&mut row, &number);
        push_text(&mut row, " | ");
        push_text(&mut row, lines[i].1.as_str());
        assert(views[i as int] == (lines@[i as int].0 as nat, lines@[i as int].1@));
        assert(row@ == start + pretty_line(views[i as int]));
        if middle {
            push_text(&mut row, "\x1b[0m");
            assert(row@ == highlighted(pretty_line(views[i as int])));
        } else {
            assert(start == Seq::<char>::empty());
            assert(row@ == pretty_line(views[i as int]));
        }
        rows.push(row);
        i += 1;
    }
    assert(texts(rows@) =~= want);
    let newline = vec!['\n'];
    assert(newline@ == seq!['\n']);
    from_chars(&join_chars(&rows, &newline))
}

/// How wide a line is: the number of bytes that its text takes, as `str::len`
/// counts them.
pub open spec fn width(text: Seq<char>) -> usize {
    encode_utf8(text).len() as usize
}

/// The width of the widest of the lines, and zero where there is none.
pub open spec fn widest(lines: Seq<(nat, Seq<char>)>) -> nat
    decreases lines.len(),
{
    if lines.len() == 0 {
        0
    } else {
        let before = widest(lines.drop_last());
        if width(lines.last().1) > before {
            width(lines.last().1) as nat
        } else {
            before
        }
    }
}

/// A rule of `n` dashes.
pub open spec fn rule(n: nat) -> Seq<char> {
    Seq::new(n, |i: int| '\u{2014}')
}

/// A preview under its heading: the name of the file, set off in colour, and
/// the lines between two rules that are seven dashes longer than the widest
/// line.
pub open spec fn printed(file_name: Seq<char>, lines: Seq<(nat, Seq<char>)>) -> Seq<char> {
    "\x1b[90m"@ + file_name + "\x1b[0m"@ + seq!['\n'] + rule(widest(lines) + 7) + seq!['\n']
        + prettified(lines) + seq!['\n'] + rule(widest(lines) + 7)
}

fn max_width(lines: &Vec<(usize, String)>) -> (max: usize)
    ensures
        max == widest(numbered_views(lines@)),
{
    let ghost views = numbered_views(lines@);
    let mut max: usize = 0;
    let mut i: usize = 0;
    assert(views.take(0) == Seq::<(nat, Seq<char>)>::empty());
    while i < lines.len()
        invariant
            i <= lines.len(),
            views == numbered_views(lines@),
            max == widest(views.take(i as int)),
        decreases lines.len() - i,
    {
        let ghost upto = views.take(i + 1);
        assert(upto.drop_last() == views.take(i as int));
        assert(upto.last().1 == lines@[i as int].1@);
        let len = lines[i].1.as_str().len();
        if len > max {
            max = len;
        }
        i += 1;
    }
    assert(views.take(views.len() as int) == views);
    max
}

fn push_rule(chars: &mut Vec<char>, max: usize)
    ensures
        final(chars)@ == old(chars)@ + rule((max + 7) as nat),
{
    let ghost before = chars@;
    let mut i: usize = 0;
    assert(before + rule(0) == before);
    while i < max
        invariant
            i <= max,
            chars@ == before + rule(i as nat),
        decreases max - i,
    {
        chars.push('\u{2014}');
        assert(before + rule((i + 1) as nat) == (before + rule(i as nat)).push('\u{2014}'));
        i += 1;
    }
    let mut j: usize = 0;
    while j < 7
        invariant
            j <= 7,
            chars@ == before + rule((max + j) as nat),
        decreases 7 - j,
    {
        chars.push('\u{2014}');
        assert(before + rule((max + j + 1) as nat) == (before + rule((max + j) as nat)).push(
            '\u{2014}',
        ));
        j += 1;
    }
}

/// Lays out a preview under its heading.
pub fn print_code_preview(file_name: &str, code_preview_lines: &Vec<(usize, String)>) -> (text:
    String)
    ensures
        text@ == printed(file_name@, numbered_views(code_preview_lines@)),
{
    let max = max_width(code_preview_lines);
    let mut chars: Vec<char> = Vec::new();
    push_text(&mut chars, "\x1b[90m");
    push_text(&mut chars, file_name);
    push_text(&mut chars, "\x1b[0m");
    chars.push('\n');
    push_rule(&mut chars, max);
    chars.push('\n');
    let pretty = get_prettified_code_preview(code_preview_lines);
    push_text(&mut chars, pretty.as_str());
    chars.push('\n');
    push_rule(&mut chars, max);
    assert(chars@ =~= printed(file_name@, numbered_views(code_preview_lines@)));
    from_chars(&chars)
}

/// The plan for a command that shows source: with an active frame the text of
/// its script is asked for and waited for; without one the user is told so.
pub open spec fn source_plan(plan: Plan, repl_state: ReplState, next: Continuation) -> bool {
    match repl_state.active_call_frame() {
        Some(frame) => plan.is(
            repl_state,
            seq![EffectView::Send(CommandView::DebuggerGetScriptSource(frame.location.script_id@))],
            Some(next),
        ),
        None => plan.refuses(
            repl_state,
            seq![EffectView::Print("Error: no active call frame"@)],
            ClientError::NotPaused,
        ),
    }
}

fn ask_for_source(repl_state: ReplState, next: Continuation) -> (plan: Plan)
    ensures
        source_plan(plan, repl_state, next),
{
    let command = match repl_state.get_active_call_frame() {
        Some(frame) => Some(Command::DebuggerGetScriptSource(frame.location.script_id.clone())),
        None => None,
    };
    match command {
        Some(command) => Plan::ask(repl_state, command, next),
        None => Plan::refuse(repl_state, "Error: no active call frame", ClientError::NotPaused),
    }
}

/// Shows the original source around the active call frame.
pub fn show_source_code_command(repl_state: ReplState) -> (plan: Plan)
    ensures
        source_plan(plan, repl_state, Continuation::SourceCode),
{
    ask_for_source(repl_state, Continuation::SourceCode)
}

/// Shows the generated code around the active call frame.
pub fn show_minified_source_code_command(repl_state: ReplState) -> (plan: Plan)
    ensures
        source_plan(plan, repl_state, Continuation::MinifiedSourceCode),
{
    ask_for_source(repl_state, Continuation::MinifiedSourceCode)
}

/// The window of generated code around a line; a line before the first has
/// none.
pub open spec fn minified_preview(code: Seq<char>, line: int) -> Seq<(nat, Seq<char>)> {
    if line >= 0 {
        preview_of(lines_of(code), line as nat)
    } else {
        Seq::empty()
    }
}

/// What is shown of the generated code of a script around a location.
pub open spec fn minified_shown(script: Seq<char>, location: LocationView) -> Seq<char> {
    printed(
        "minified source code"@,
        minified_preview(source_code_of(script).code, location.line_number),
    )
}

/// What is shown of a script around a location: the original source where the
/// source map leads to it, and the generated code where it does not.
pub open spec fn source_shown(script: Seq<char>, location: LocationView) -> Seq<char> {
    match code_preview_of(source_code_of(script), location) {
        Ok((file_name, lines)) => printed(file_name, lines),
        Err(_) => minified_shown(script, location),
    }
}

fn minified_text(source_code: &SourceCode, call_frame: &DebuggerPausedCallFrame) -> (text: String)
    ensures
        text@ == printed(
            "minified source code"@,
            minified_preview(source_code@.code, call_frame.location@.line_number),
        ),
{
    let line = call_frame.location.line_number;
    let lines = if line >= 0 {
        create_preview(source_code.code.as_str(), line as usize)
    } else {
        let none: Vec<(usize, String)> = Vec::new();
        assert(numbered_views(none@) =~= Seq::<(nat, Seq<char>)>::empty());
        none
    };
    print_code_preview("minified source code", &lines)
}

/// Lays out the generated code of a script around a call frame.
pub fn show_minified_source(script: &str, call_frame: &DebuggerPausedCallFrame) -> (text: String)
    ensures
        text@ == minified_shown(script@, call_frame.location@),
{
    let source_code = SourceCode::from_str(script);
    minified_text(&source_code, call_frame)
}

/// Lays out the source of a script around a call frame: the original source
/// where the source map leads to it, the generated code where it does not.
pub fn show_source(script: &str, call_frame: &DebuggerPausedCallFrame) -> (text: String)
    ensures
        text@ == source_shown(script@, call_frame.location@),
{
    let source_code = SourceCode::from_str(script);
    match create_code_preview(&source_code, call_frame) {
        Ok((file_name, lines)) => print_code_preview(file_name.as_str(), &lines),
        Err(_) => minified_text(&source_code, call_frame),
    }
}

} // verus!
