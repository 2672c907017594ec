//! The original source around a call frame, as plain text.

use crate::cdt::models::{DebuggerPausedCallFrame, LocationView};
use crate::repl::code_preview::{code_preview_of, create_code_preview, numbered_views, PreviewError};
use crate::source_code::{SourceCode, SourceCodeView};
use crate::text::{from_chars, join, join_chars, texts, to_chars};
use vstd::prelude::*;

verus! {

/// The texts of a list of numbered lines.
pub open spec fn line_texts(lines: Seq<(nat, Seq<char>)>) -> Seq<Seq<char>> {
    Seq::new(lines.len(), |i: int| lines[i].1)
}

/// The window of original lines around the place that a location in the
/// generated code comes from, one line below the other.
pub open spec fn source_window(source: SourceCodeView, location: LocationView) -> Result<
    Seq<char>,
    PreviewError,
> {
    match code_preview_of(source, location) {
        Ok((_, lines)) => Ok(join(line_texts(lines), seq!['\n'])),
        Err(e) => Err(e),
    }
}

/// The view of what `show_source_code` gives.
pub open spec fn window_view(window: Result<String, PreviewError>) -> Result<
    Seq<char>,
    PreviewError,
> {
    match window {
        Ok(text) => Ok(text@),
        Err(e) => Err(e),
    }
}

/// Cuts the window of original lines around a call frame.
pub fn show_source_code(source_code: &SourceCode, call_frame: &DebuggerPausedCallFrame) -> (window:
    Result<String, PreviewError>)
    ensures
        window_view(window) == source_window(source_code@, call_frame.location@),
{
    let (_, lines) = match create_code_preview(source_code, call_frame) {
        Ok(preview) => preview,
        Err(e) => {
            return Err(e);
        },
    };
    let ghost want = line_texts(numbered_views(lines@));
    let mut rows: Vec<Vec<char>> = Vec::new();
    let mut i: usize = 0;
    while i < lines.len()
        invariant
            i <= lines.len(),
            rows.len() == i,
            want == line_texts(numbered_views(lines@)),
            forall|k: int| 0 <= k < i ==> (#[trigger] rows@[k])@ == want[k],
        decreases lines.len() - i,
    {
        let row = to_chars(lines[i].1.as_str());
        assert(numbered_views(lines@)[i as int].1 == lines@[i as int].1@);
        rows.push(row);
        i += 1;
    }
    assert(texts(rows@) =~= want);
    let newline = vec!['\n'];
    assert(newline@ == seq!['\n']);
    Ok(from_chars(&join_chars(&rows, &newline)))
}

} // verus!
