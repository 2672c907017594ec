//! Script text as the debuggee hands it out: the code itself and, where the
//! last line refers to one, the source map that comes with it.

use crate::json::{
    from_str, i32_member, json_parsed, member_i32, member_text, member_texts, string_views,
    text_member, texts_member,
};
use crate::text::{
    from_chars, join, join_chars, lemma_lines_with_last, lines, lines_of, starts_with, sub_chars,
    texts, to_chars,
};
use vstd::prelude::*;
use vstd::utf8::{decode_utf8, valid_utf8};

verus! {

/// `base64::DecodeError`, carried through and never looked into.
#[verifier::external_type_specification]
#[verifier::external_body]
pub struct ExBase64DecodeError(base64::DecodeError);

/// The bytes that `base64::decode` reads from a text, if it accepts the text.
pub uninterp spec fn base64_decoded(text: Seq<char>) -> Option<Seq<u8>>;

/// `base64::decode`: standard alphabet, with padding. The outcome depends on
/// the text alone.
#[verifier::external_body]
fn decode_base64(input: &str) -> (decoded: Result<Vec<u8>, base64::DecodeError>)
    ensures
        match decoded {
            Ok(bytes) => base64_decoded(input@) == Some(bytes@),
            Err(_) => base64_decoded(input@) is None,
        },
{
    base64::decode(input)
}

/// `String::from_utf8`: the text that the bytes encode, when they are valid
/// UTF-8, and nothing otherwise.
#[verifier::external_body]
fn utf8_string(bytes: Vec<u8>) -> (text: Option<String>)
    ensures
        match text {
            Some(t) => valid_utf8(bytes@) && t@ == decode_utf8(bytes@),
            None => !valid_utf8(bytes@),
        },
{
    String::from_utf8(bytes).ok()
}

/// A source map document.
#[derive(Debug, Clone)]
pub struct SourceMapping {
    pub file: String,
    pub mappings: String,
    pub names: Vec<String>,
    pub sources: Vec<String>,
    pub sources_content: Vec<String>,
    pub version: i32,
}

/// A source map document, as a specification sees it.
pub struct SourceMappingView {
    pub file: Seq<char>,
    pub mappings: Seq<char>,
    pub names: Seq<Seq<char>>,
    pub sources: Seq<Seq<char>>,
    pub sources_content: Seq<Seq<char>>,
    pub version: int,
}

impl View for SourceMapping {
    type V = SourceMappingView;

    open spec fn view(&self) -> SourceMappingView {
        SourceMappingView {
            file: self.file@,
            mappings: self.mappings@,
            names: string_views(self.names@),
            sources: string_views(self.sources@),
            sources_content: string_views(self.sources_content@),
            version: self.version as int,
        }
    }
}

impl SourceMappingView {
    /// Every original source has its content at the same index.
    pub open spec fn wf(self) -> bool {
        self.sources.len() == self.sources_content.len()
    }
}

/// Script text, and the source map its last line refers to.
#[derive(Debug)]
pub struct SourceCode {
    pub code: String,
    pub source_mapping: Option<SourceMapping>,
}

/// Script text and its source map, as a specification sees them.
pub struct SourceCodeView {
    pub code: Seq<char>,
    pub source_mapping: Option<SourceMappingView>,
}

/// The view of a source map that may be missing.
pub open spec fn mapping_view(mapping: Option<SourceMapping>) -> Option<SourceMappingView> {
    match mapping {
        Some(m) => Some(m@),
        None => None,
    }
}

impl View for SourceCode {
    type V = SourceCodeView;

    open spec fn view(&self) -> SourceCodeView {
        SourceCodeView { code: self.code@, source_mapping: mapping_view(self.source_mapping) }
    }
}

/// What marks a line as a reference to a source map.
pub const MAPPING_DIRECTIVE: &'static str = "//# sourceMappingURL=";

/// What marks a line as a source map given inline, in base64.
pub const INLINE_DIRECTIVE: &'static str =
    "//# sourceMappingURL=data:application/json;charset=utf-8;base64,";

/// What marks a line as a reference to a source map.
pub open spec fn mapping_directive() -> Seq<char> {
    MAPPING_DIRECTIVE@
}

/// What marks a line as a source map given inline, in base64.
pub open spec fn inline_directive() -> Seq<char> {
    INLINE_DIRECTIVE@
}

/// The source map that a JSON value describes. All six members are needed,
/// each of its own type, and as many contents as sources.
pub open spec fn mapping_of(value: serde_json::Value) -> Option<SourceMappingView> {
    if member_text(value, "file"@) is Some && member_text(value, "mappings"@) is Some
        && member_texts(value, "names"@) is Some && member_texts(value, "sources"@) is Some
        && member_texts(value, "sourcesContent"@) is Some && member_i32(value, "version"@) is Some
        && member_texts(value, "sources"@)->0.len() == member_texts(
        value,
        "sourcesContent"@,
    )->0.len() {
        Some(
            SourceMappingView {
                file: member_text(value, "file"@)->0,
                mappings: member_text(value, "mappings"@)->0,
                names: member_texts(value, "names"@)->0,
                sources: member_texts(value, "sources"@)->0,
                sources_content: member_texts(value, "sourcesContent"@)->0,
                version: member_i32(value, "version"@)->0 as int,
            },
        )
    } else {
        None
    }
}

/// The source map that a JSON text describes.
pub open spec fn mapping_in(text: Seq<char>) -> Option<SourceMappingView> {
    match json_parsed(text) {
        Some(value) => mapping_of(value),
        None => None,
    }
}

/// The text that a base64 payload encodes.
pub open spec fn decoded_text(payload: Seq<char>) -> Option<Seq<char>> {
    match base64_decoded(payload) {
        Some(bytes) => if valid_utf8(bytes) {
            Some(decode_utf8(bytes))
        } else {
            None
        },
        None => None,
    }
}

/// The source map that a base64 payload holds.
pub open spec fn inline_mapping(payload: Seq<char>) -> Option<SourceMappingView> {
    match decoded_text(payload) {
        Some(text) => mapping_in(text),
        None => None,
    }
}

/// How a script text falls into code and source map. The code is every line
/// but the last, joined by line feeds. The last line is looked at for the
/// map: an inline directive gives the map in its payload, a bare directive is
/// itself read as a map, and any other line gives none. A text without a line
/// has neither code nor map.
pub open spec fn source_code_of(input: Seq<char>) -> SourceCodeView {
    let all = lines_of(input);
    if all.len() == 0 {
        SourceCodeView { code: Seq::empty(), source_mapping: None }
    } else {
        let trailer = all.last();
        SourceCodeView {
            code: join(all.drop_last(), seq!['\n']),
            source_mapping: if inline_directive().is_prefix_of(trailer) {
                inline_mapping(trailer.skip(inline_directive().len() as int))
            } else if mapping_directive().is_prefix_of(trailer) {
                mapping_in(trailer)
            } else {
                None
            },
        }
    }
}

/// The inline directive holds no line feed.
proof fn lemma_directive_is_one_line()
    ensures
        !inline_directive().contains('\n'),
        inline_directive().len() > 0,
{
    reveal_strlit("//# sourceMappingURL=data:application/json;charset=utf-8;base64,");
    let directive = inline_directive();
    assert(directive.len() == 64);
    if directive.contains('\n') {
        let i = choose|i: int| 0 <= i < directive.len() && directive[i] == '\n';
        assert(directive[i] != '\n');
    }
}

/// Code that is followed by a last line with the inline directive and a
/// payload: the code is the lines before that line, which is the code as it
/// was given where it holds no carriage return, and the source map is the one
/// that the payload holds. So a payload that
/// is the base64 of a JSON document with the six members of a source map, as
/// many contents as sources, gives that map; and a payload that is no base64,
/// no UTF-8, no JSON or no such document gives none.
pub proof fn lemma_inline_mapping_is_recovered(code: Seq<char>, payload: Seq<char>)
    requires
        !payload.contains('\n'),
    ensures
        !code.contains('\r') ==> source_code_of(
            code + seq!['\n'] + inline_directive() + payload,
        ).code == code,
        source_code_of(code + seq!['\n'] + inline_directive() + payload).code == join(
            lines_of(code + seq!['\n'] + inline_directive() + payload).drop_last(),
            seq!['\n'],
        ),
        source_code_of(code + seq!['\n'] + inline_directive() + payload).source_mapping
            == inline_mapping(payload),
        base64_decoded(payload) is None ==> source_code_of(
            code + seq!['\n'] + inline_directive() + payload,
        ).source_mapping is None,
        forall|bytes: Seq<u8>, value: serde_json::Value|
            base64_decoded(payload) == Some(bytes) && valid_utf8(bytes) && json_parsed(
                decode_utf8(bytes),
            ) == Some(value) ==> #[trigger] source_code_of(
                code + seq!['\n'] + inline_directive() + payload,
            ).source_mapping == mapping_of(value),
{
    let trailer = inline_directive() + payload;
    let input = code + seq!['\n'] + inline_directive() + payload;
    lemma_directive_is_one_line();
    assert(!trailer.contains('\n')) by {
        if trailer.contains('\n') {
            let i = choose|i: int| 0 <= i < trailer.len() && trailer[i] == '\n';
            if i < inline_directive().len() {
                assert(inline_directive()[i] == '\n');
            } else {
                assert(payload[i - inline_directive().len()] == '\n');
            }
        }
    }
    assert(input == code + seq!['\n'] + trailer);
    lemma_lines_with_last(code, trailer);
    assert(trailer.subrange(0, inline_directive().len() as int) == inline_directive());
    assert(trailer.skip(inline_directive().len() as int) == payload);
}

impl SourceMapping {
    /// Reads a source map from a JSON value.
    pub fn from_value(value: &serde_json::Value) -> (mapping: Option<SourceMapping>)
        ensures
            mapping_view(mapping) == mapping_of(*value),
            mapping matches Some(m) ==> m@.wf(),
    {
        let file = match text_member(value, "file") {
            Some(file) => file,
            None => {
                return None;
            },
        };
        let mappings = match text_member(value, "mappings") {
            Some(mappings) => mappings,
            None => {
                return None;
            },
        };
        let names = match texts_member(value, "names") {
            Some(names) => names,
            None => {
                return None;
            },
        };
        let sources = match texts_member(value, "sources") {
            Some(sources) => sources,
            None => {
                return None;
            },
        };
        let sources_content = match texts_member(value, "sourcesContent") {
            Some(contents) => contents,
            None => {
                return None;
            },
        };
        let version = match i32_member(value, "version") {
            Some(version) => version,
            None => {
                return None;
            },
        };
        if sources.len() != sources_content.len() {
            return None;
        }
        Some(SourceMapping { file, mappings, names, sources, sources_content, version })
    }

    /// Reads a source map from a JSON text.
    pub fn from_text(text: &str) -> (mapping: Option<SourceMapping>)
        ensures
            mapping_view(mapping) == mapping_in(text@),
            mapping matches Some(m) ==> m@.wf(),
    {
        match from_str(text) {
            Ok(value) => SourceMapping::from_value(&value),
            Err(_) => None,
        }
    }
}

/// Decodes a base64 payload into the text it holds.
pub fn try_decode_mapping(input: &str) -> (text: Option<String>)
    ensures
        match text {
            Some(t) => decoded_text(input@) == Some(t@),
            None => decoded_text(input@) is None,
        },
{
    match decode_base64(input) {
        Ok(decoded) => utf8_string(decoded),
        Err(_) => None,
    }
}

impl SourceCode {
    /// Splits a script text into its code, every line but the last, and the
    /// source map that the last line refers to. A map that cannot be read is
    /// left out; nothing fails.
    pub fn from_str(input: &str) -> (source: SourceCode)
        ensures
            source@ == source_code_of(input@),
            source.source_mapping matches Some(m) ==> m@.wf(),
    {
        let chars = to_chars(input);
        let mut all = lines(&chars);
        if all.len() == 0 {
            return SourceCode { code: String::new(), source_mapping: None };
        }
        let ghost every = texts(all@);
        let trailer = all.pop().unwrap();
        assert(texts(all@) == every.drop_last());
        assert(trailer@ == every.last());
        let inline = to_chars(INLINE_DIRECTIVE);
        let directive = to_chars(MAPPING_DIRECTIVE);
        let newline = vec!['\n'];
        assert(newline@ == seq!['\n']);
        let code = from_chars(&join_chars(&all, &newline));
        let source_mapping = if starts_with(&trailer, &inline) {
            let payload = from_chars(&sub_chars(&trailer, inline.len(), trailer.len()));
            assert(payload@ == trailer@.skip(inline_directive().len() as int));
            match try_decode_mapping(payload.as_str()) {
                Some(text) => SourceMapping::from_text(text.as_str()),
                None => None,
            }
        } else if starts_with(&trailer, &directive) {
            let line = from_chars(&trailer);
            SourceMapping::from_text(line.as_str())
        } else {
            None
        };
        SourceCode { code, source_mapping }
    }
}

} // verus!
