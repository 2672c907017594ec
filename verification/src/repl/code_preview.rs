//! The lines of the original source around the place where the debuggee has
//! paused.

use crate::cdt::models::{DebuggerPausedCallFrame, LocationView};
use crate::source_code::{SourceCode, SourceCodeView};
use crate::source_map::{lookup, token_at};
use crate::text::{from_chars, lines, lines_of, texts, to_chars};
use vstd::prelude::*;

verus! {

/// Why there is no preview of the original source.
#[derive(Debug, Clone, Copy, PartialEq, Eq, Structural)]
pub enum PreviewError {
    /// The script came without a source map.
    SourceMappingNotSet,
    /// The source map holds the content of no source.
    SourceViewNotFound,
    /// The source map has no token at or before the position.
    PositionNotMapped,
}

/// The window of `size` lines around line `line`, which counts from zero: the
/// line itself, the lines before it that fill half of what is left of the
/// window, rounded down, and the lines after it that fill the rest; all of
/// them as far as the text has them. Each line comes with its number, which
/// counts from one.
pub open spec fn window_of(lines: Seq<Seq<char>>, line: nat, size: nat) -> Seq<(nat, Seq<char>)> {
    if size == 0 {
        Seq::empty()
    } else {
        let first: int = line - (size - 1) / 2;
        let start: int = if first >= 0 {
            first
        } else {
            0
        };
        let end: int = if first + size <= lines.len() {
            first + size
        } else {
            lines.len() as int
        };
        if start < end {
            Seq::new((end - start) as nat, |i: int| ((start + i + 1) as nat, lines[start + i]))
        } else {
            Seq::empty()
        }
    }
}

/// The window of nine lines around line `line`: up to four lines before it,
/// the line itself, and up to four after it.
pub open spec fn preview_of(lines: Seq<Seq<char>>, line: nat) -> Seq<(nat, Seq<char>)> {
    window_of(lines, line, 9)
}

/// The views of a list of numbered lines.
pub open spec fn numbered_views(lines: Seq<(usize, String)>) -> Seq<(nat, Seq<char>)> {
    lines.map_values(|line: (usize, String)| (line.0 as nat, line.1@))
}

/// The window of `window_size` lines of `source` around line `line`.
pub fn create_preview_window(source: &str, line: usize, window_size: usize) -> (preview: Vec<
    (usize, String),
>)
    ensures
        numbered_views(preview@) == window_of(lines_of(source@), line as nat, window_size as nat),
{
    let ghost want = window_of(lines_of(source@), line as nat, window_size as nat);
    let mut preview: Vec<(usize, String)> = Vec::new();
    if window_size == 0 {
        assert(numbered_views(preview@) =~= want);
        return preview;
    }
    let chars = to_chars(source);
    let all = lines(&chars);
    let n = all.len();
    let above = (window_size - 1) / 2;
    let rest = window_size - above;
    let start = if line >= above {
        line - above
    } else {
        0
    };
    let end = if line < n && n - line > rest {
        line + rest
    } else {
        n
    };
    if start >= end {
        assert(numbered_views(preview@) =~= want);
        return preview;
    }
    let mut i: usize = start;
    while i < end
        invariant
            start <= i <= end <= n,
            n == all.len(),
            texts(all@) == lines_of(source@),
            want == window_of(lines_of(source@), line as nat, window_size as nat),
            want.len() == end - start,
            forall|k: int|
                0 <= k < want.len() ==> want[k] == ((start + k + 1) as nat, all@[start + k]@),
            preview.len() == i - start,
            forall|k: int|
                0 <= k < i - start ==> (#[trigger] preview@[k]).0 == start + k + 1 && preview@[k].1@
                    == all@[start + k]@,
        decreases end - i,
    {
        preview.push((i + 1, from_chars(&all[i])));
        i += 1;
    }
    assert(numbered_views(preview@) =~= want);
    preview
}

/// The window of nine lines of `source` around line `line`.
pub fn create_preview(source: &str, line: usize) -> (preview: Vec<(usize, String)>)
    ensures
        numbered_views(preview@) == preview_of(lines_of(source@), line as nat),
{
    create_preview_window(source, line, 9)
}

/// What holds of every window: it has no more lines than its size and than
/// the text; the numbers of its lines go up one by one; each line is the line
/// of the text under its number; it starts at the first line of the text where
/// the line in its middle is no further on than half the window; and the line
/// in its middle is among its lines wherever the text has that line.
pub proof fn lemma_window(lines: Seq<Seq<char>>, line: nat, size: nat)
    ensures
        window_of(lines, line, size).len() <= size,
        window_of(lines, line, size).len() <= lines.len(),
        forall|k: int|
            0 <= k < window_of(lines, line, size).len() ==> {
                let entry = #[trigger] window_of(lines, line, size)[k];
                &&& entry.0 == window_of(lines, line, size)[0].0 + k
                &&& 1 <= entry.0 <= lines.len()
                &&& entry.1 == lines[entry.0 - 1]
            },
        size > 0 && line < lines.len() ==> exists|k: int|
            0 <= k < window_of(lines, line, size).len() && (#[trigger] window_of(
                lines,
                line,
                size,
            )[k]).0 == line + 1,
        size > 0 && line <= (size - 1) / 2 && lines.len() > 0 ==> window_of(lines, line, size).len()
            > 0 && window_of(lines, line, size)[0].0 == 1,
{
    if size > 0 && line < lines.len() {
        let first: int = line - (size - 1) / 2;
        let start: int = if first >= 0 {
            first
        } else {
            0
        };
        assert(window_of(lines, line, size)[line - start].0 == line + 1);
    }
}

/// The window of nine lines in the middle of a text: around a line that has
/// four lines before it and four after it, the window holds exactly these
/// nine, in their order, each under its number, and the line in its middle is
/// the fifth.
pub proof fn lemma_preview_in_the_middle(lines: Seq<Seq<char>>, line: nat)
    requires
        line >= 4,
        line + 5 <= lines.len(),
    ensures
        preview_of(lines, line).len() == 9,
        forall|k: int|
            0 <= k < 9 ==> #[trigger] preview_of(lines, line)[k] == (
                (line - 3 + k) as nat,
                lines[line - 4 + k],
            ),
        preview_of(lines, line)[4] == ((line + 1) as nat, lines[line as int]),
{
}

/// The window of nine lines near the start of a text: around a line with
/// fewer than four lines before it, the window starts at the first line of the
/// text, holds the lines from there on in their order, each under its number,
/// and the line in its middle is among them.
pub proof fn lemma_preview_at_the_start(lines: Seq<Seq<char>>, line: nat)
    requires
        line < 4,
        line < lines.len(),
    ensures
        preview_of(lines, line).len() > line,
        preview_of(lines, line).len() == if line + 5 <= lines.len() {
            line + 5
        } else {
            lines.len()
        },
        preview_of(lines, line)[0].0 == 1,
        forall|k: int|
            0 <= k < preview_of(lines, line).len() ==> #[trigger] preview_of(lines, line)[k] == (
                (k + 1) as nat,
                lines[k],
            ),
{
}

/// The name of the generated file and the window of lines of the first
/// source around the place that a location in the generated code comes from.
pub open spec fn code_preview_of(source: SourceCodeView, location: LocationView) -> Result<
    (Seq<char>, Seq<(nat, Seq<char>)>),
    PreviewError,
> {
    match source.source_mapping {
        None => Err(PreviewError::SourceMappingNotSet),
        Some(mapping) => if mapping.sources_content.len() == 0 {
            Err(PreviewError::SourceViewNotFound)
        } else {
            match token_at(mapping.mappings, location.line_number, location.column_number) {
                None => Err(PreviewError::PositionNotMapped),
                Some(token) => Ok(
                    (
                        mapping.file,
                        preview_of(
                            lines_of(mapping.sources_content[0]),
                            token.original_line as nat,
                        ),
                    ),
                ),
            }
        },
    }
}

/// Where the source map sends a location to a line of the first source, the
/// preview is the name of the generated file and the window around that line:
/// in the middle of the source the nine lines from four before it to four
/// after it, and near its start the lines from the first on.
pub proof fn lemma_code_preview_window(source: SourceCodeView, location: LocationView)
    requires
        source.source_mapping is Some,
        source.source_mapping->0.sources_content.len() > 0,
        token_at(
            source.source_mapping->0.mappings,
            location.line_number,
            location.column_number,
        ) is Some,
    ensures
        ({
            let mapping = source.source_mapping->0;
            let lines = lines_of(mapping.sources_content[0]);
            let line = token_at(
                mapping.mappings,
                location.line_number,
                location.column_number,
            )->0.original_line as nat;
            &&& code_preview_of(source, location) == Ok::<
                (Seq<char>, Seq<(nat, Seq<char>)>),
                PreviewError,
            >((mapping.file, preview_of(lines, line)))
            &&& line >= 4 && line + 5 <= lines.len() ==> {
                &&& preview_of(lines, line).len() == 9
                &&& forall|k: int|
                    0 <= k < 9 ==> #[trigger] preview_of(lines, line)[k] == (
                        (line - 3 + k) as nat,
                        lines[line - 4 + k],
                    )
            }
            &&& line < 4 && line < lines.len() ==> {
                &&& preview_of(lines, line).len() > line
                &&& preview_of(lines, line)[0].0 == 1
                &&& forall|k: int|
                    0 <= k < preview_of(lines, line).len() ==> #[trigger] preview_of(
                        lines,
                        line,
                    )[k] == ((k + 1) as nat, lines[k])
            }
        }),
{
    let mapping = source.source_mapping->0;
    let lines = lines_of(mapping.sources_content[0]);
    let line = token_at(
        mapping.mappings,
        location.line_number,
        location.column_number,
    )->0.original_line as nat;
    if line >= 4 && line + 5 <= lines.len() {
        lemma_preview_in_the_middle(lines, line);
    }
    if line < 4 && line < lines.len() {
        lemma_preview_at_the_start(lines, line);
    }
}

/// The view of what `create_code_preview` gives.
pub open spec fn code_preview_view(
    preview: Result<(String, Vec<(usize, String)>), PreviewError>,
) -> Result<(Seq<char>, Seq<(nat, Seq<char>)>), PreviewError> {
    match preview {
        Ok((file, lines)) => Ok((file@, numbered_views(lines@))),
        Err(e) => Err(e),
    }
}

/// Maps the location of a call frame back to its line in the first source of
/// the map, and cuts the window of lines around it.
pub fn create_code_preview(
    source_code: &SourceCode,
    call_frame: &DebuggerPausedCallFrame,
) -> (preview: Result<(String, Vec<(usize, String)>), PreviewError>)
    ensures
        code_preview_view(preview) == code_preview_of(source_code@, call_frame.location@),
{
    let mapping = match &source_code.source_mapping {
        Some(mapping) => mapping,
        None => {
            return Err(PreviewError::SourceMappingNotSet);
        },
    };
    if mapping.sources_content.len() == 0 {
        return Err(PreviewError::SourceViewNotFound);
    }
    let token = match lookup(
        mapping.mappings.as_str(),
        call_frame.location.line_number,
        call_frame.location.column_number,
    ) {
        Some(token) => token,
        None => {
            return Err(PreviewError::PositionNotMapped);
        },
    };
    let lines = create_preview(
        mapping.sources_content[0].as_str(),
        token.original_line as usize,
    );
    Ok((mapping.file.clone(), lines))
}

} // verus!
