//! The `mappings` member of a source map: how its text decodes into tokens,
//! and which token answers for a position in the generated code.
//!
//! The text holds one group per generated line, separated by `;`. A group
//! holds segments separated by `,`. A segment is a run of base64 digits that
//! spell one, four or five numbers, each relative to the number before it.

use crate::text::{split, split_on, texts, to_chars};
use vstd::prelude::*;

verus! {

/// One mapping: a position in the generated code, and the original position
/// that it came from. Lines and columns count from zero.
#[derive(Debug, Clone, Copy, PartialEq, Eq, Structural)]
pub struct Token {
    pub generated_line: u32,
    pub generated_column: u32,
    pub source_index: u32,
    pub original_line: u32,
    pub original_column: u32,
}

/// The value of a base64 digit.
pub open spec fn digit_of(c: char) -> Option<int> {
    if 'A' <= c <= 'Z' {
        Some(c as int - 'A' as int)
    } else if 'a' <= c <= 'z' {
        Some(c as int - 'a' as int + 26)
    } else if '0' <= c <= '9' {
        Some(c as int - '0' as int + 52)
    } else if c == '+' {
        Some(62)
    } else if c == '/' {
        Some(63)
    } else {
        None
    }
}

/// The power of 32 with exponent `n`.
pub open spec fn pow32(n: int) -> int
    decreases n,
{
    if n <= 0 {
        1
    } else {
        32 * pow32(n - 1)
    }
}

/// The most digits that one number may take.
pub open spec fn max_digits() -> int {
    7
}

/// Where the reading of a segment stands: the numbers read so far, and the
/// number under way, of which `digits` digits have brought in `acc`.
pub struct Fields {
    pub done: Seq<int>,
    pub acc: int,
    pub digits: int,
}

/// The number that a finished run of digits spells: the lowest bit is the
/// sign, the rest the magnitude.
pub open spec fn signed(acc: int) -> int {
    if acc % 2 == 1 {
        -(acc / 2)
    } else {
        acc / 2
    }
}

/// Takes in one more character. A digit gives its low five bits to the number
/// under way, least significant first; its sixth bit says that the number goes
/// on. Anything but a digit, or an eighth digit for one number, is refused.
pub open spec fn fields_step(state: Option<Fields>, c: char) -> Option<Fields> {
    match (state, digit_of(c)) {
        (Some(fields), Some(d)) => {
            if fields.digits >= max_digits() {
                None
            } else {
                let acc = fields.acc + (d % 32) * pow32(fields.digits);
                if d >= 32 {
                    Some(Fields { done: fields.done, acc, digits: fields.digits + 1 })
                } else {
                    Some(Fields { done: fields.done.push(signed(acc)), acc: 0, digits: 0 })
                }
            }
        },
        _ => None,
    }
}

/// Where the reading of a segment stands after all its characters.
pub open spec fn fields_fold(segment: Seq<char>) -> Option<Fields>
    decreases segment.len(),
{
    if segment.len() == 0 {
        Some(Fields { done: Seq::<int>::empty(), acc: 0, digits: 0 })
    } else {
        fields_step(fields_fold(segment.drop_last()), segment.last())
    }
}

/// The numbers that a segment spells, if it is well formed: digits only, and
/// no number left unfinished.
pub open spec fn segment_fields(segment: Seq<char>) -> Option<Seq<int>> {
    match fields_fold(segment) {
        Some(fields) => if fields.digits == 0 {
            Some(fields.done)
        } else {
            None
        },
        None => None,
    }
}

/// Where the reading of the groups stands: the tokens so far, the generated
/// column, and the original position that the next segment is relative to.
pub struct Reader {
    pub tokens: Seq<Token>,
    pub column: int,
    pub source: int,
    pub line: int,
    pub original_column: int,
}

/// Whether a position is within `u32`.
pub open spec fn fits(n: int) -> bool {
    0 <= n <= u32::MAX
}

/// Takes in one segment of the group for generated line `line`. An empty
/// segment changes nothing. One number moves the generated column. Four or
/// five move the original position too and give a token; the fifth, the index
/// of a name, is not kept. Every position has to stay within `u32`.
pub open spec fn segment_step(state: Option<Reader>, line: int, segment: Seq<char>) -> Option<
    Reader,
> {
    match state {
        None => None,
        Some(reader) => if segment.len() == 0 {
            Some(reader)
        } else {
            match segment_fields(segment) {
                None => None,
                Some(fields) => if fields.len() == 1 {
                    let column = reader.column + fields[0];
                    if fits(column) {
                        Some(Reader { column, ..reader })
                    } else {
                        None
                    }
                } else if fields.len() == 4 || fields.len() == 5 {
                    let column = reader.column + fields[0];
                    let source = reader.source + fields[1];
                    let original_line = reader.line + fields[2];
                    let original_column = reader.original_column + fields[3];
                    if fits(line) && fits(column) && fits(source) && fits(original_line) && fits(
                        original_column,
                    ) {
                        Some(
                            Reader {
                                tokens: reader.tokens.push(
                                    Token {
                                        generated_line: line as u32,
                                        generated_column: column as u32,
                                        source_index: source as u32,
                                        original_line: original_line as u32,
                                        original_column: original_column as u32,
                                    },
                                ),
                                column,
                                source,
                                line: original_line,
                                original_column,
                            },
                        )
                    } else {
                        None
                    }
                } else {
                    None
                },
            }
        },
    }
}

/// Where the reading of a group stands after the given segments.
pub open spec fn group_fold(start: Option<Reader>, line: int, segments: Seq<Seq<char>>) -> Option<
    Reader,
>
    decreases segments.len(),
{
    if segments.len() == 0 {
        start
    } else {
        segment_step(group_fold(start, line, segments.drop_last()), line, segments.last())
    }
}

/// Takes in the group of one generated line: the column starts over at zero,
/// the original position carries on.
pub open spec fn group_step(state: Option<Reader>, line: int, group: Seq<char>) -> Option<Reader> {
    match state {
        None => None,
        Some(reader) => group_fold(
            Some(Reader { column: 0, ..reader }),
            line,
            split_on(group, ','),
        ),
    }
}

/// Where the reading stands after the given groups, one for each generated
/// line from the first on.
pub open spec fn groups_fold(groups: Seq<Seq<char>>) -> Option<Reader>
    decreases groups.len(),
{
    if groups.len() == 0 {
        Some(
            Reader {
                tokens: Seq::<Token>::empty(),
                column: 0,
                source: 0,
                line: 0,
                original_column: 0,
            },
        )
    } else {
        group_step(groups_fold(groups.drop_last()), groups.len() - 1, groups.last())
    }
}

/// The tokens that a `mappings` text spells, in the order of the text, or
/// `None` where the text is malformed.
pub open spec fn tokens_of(mappings: Seq<char>) -> Option<Seq<Token>> {
    match groups_fold(split_on(mappings, ';')) {
        Some(reader) => Some(reader.tokens),
        None => None,
    }
}

/// Whether a token lies at or before a generated position.
pub open spec fn at_or_before(token: Token, line: u32, column: u32) -> bool {
    token.generated_line < line || (token.generated_line == line && token.generated_column
        <= column)
}

/// Whether `a` lies at or before the generated position of `b`.
pub open spec fn not_after(a: Token, b: Token) -> bool {
    at_or_before(a, b.generated_line, b.generated_column)
}

/// The index of the token that answers for a generated position: of the tokens
/// at or before it, the one furthest on, and of several at one position the
/// one that comes last in the list.
pub open spec fn nearest(tokens: Seq<Token>, line: u32, column: u32) -> Option<int>
    decreases tokens.len(),
{
    if tokens.len() == 0 {
        None
    } else {
        let before = nearest(tokens.drop_last(), line, column);
        let token = tokens.last();
        if at_or_before(token, line, column) && (before is None || not_after(
            tokens[before->0],
            token,
        )) {
            Some(tokens.len() - 1)
        } else {
            before
        }
    }
}

/// What `nearest` finds is in the list and at or before the position; no token
/// at or before the position lies after it; and where it finds nothing, no
/// token lies at or before the position.
pub proof fn lemma_nearest(tokens: Seq<Token>, line: u32, column: u32)
    ensures
        match nearest(tokens, line, column) {
            Some(i) => {
                &&& 0 <= i < tokens.len()
                &&& at_or_before(tokens[i], line, column)
                &&& forall|j: int|
                    0 <= j < tokens.len() && at_or_before(#[trigger] tokens[j], line, column)
                        ==> not_after(tokens[j], tokens[i])
            },
            None => forall|j: int|
                0 <= j < tokens.len() ==> !at_or_before(#[trigger] tokens[j], line, column),
        },
    decreases tokens.len(),
{
    if tokens.len() > 0 {
        let shorter = tokens.drop_last();
        lemma_nearest(shorter, line, column);
        assert(forall|j: int| 0 <= j < shorter.len() ==> shorter[j] == tokens[j]);
    }
}

fn digit(c: char) -> (d: Option<u64>)
    ensures
        match d {
            Some(v) => digit_of(c) == Some(v as int) && v < 64,
            None => digit_of(c) is None,
        },
{
    if 'A' <= c && c <= 'Z' {
        Some((c as u32 - 'A' as u32) as u64)
    } else if 'a' <= c && c <= 'z' {
        Some((c as u32 - 'a' as u32 + 26) as u64)
    } else if '0' <= c && c <= '9' {
        Some((c as u32 - '0' as u32 + 52) as u64)
    } else if c == '+' {
        Some(62)
    } else if c == '/' {
        Some(63)
    } else {
        None
    }
}

/// The numbers of a list, as integers.
pub open spec fn as_ints(numbers: Seq<i64>) -> Seq<int> {
    numbers.map_values(|n: i64| n as int)
}

/// Reads the numbers of one segment.
pub fn read_fields(segment: &Vec<char>) -> (fields: Option<Vec<i64>>)
    ensures
        match fields {
            Some(numbers) => segment_fields(segment@) == Some(as_ints(numbers@)),
            None => segment_fields(segment@) is None,
        },
{
    let mut done: Vec<i64> = Vec::new();
    let mut acc: u64 = 0;
    let mut scale: u64 = 1;
    let mut digits: u64 = 0;
    let mut i: usize = 0;
    assert(segment@.take(0) == Seq::<char>::empty());
    assert(as_ints(done@) == Seq::<int>::empty());
    while i < segment.len()
        invariant
            i <= segment.len(),
            digits <= 7,
            scale == pow32(digits as int),
            scale <= 34359738368,
            acc < scale,
            fields_fold(segment@.take(i as int)) == Some(
                Fields { done: as_ints(done@), acc: acc as int, digits: digits as int },
            ),
        decreases segment.len() - i,
    {
        let ghost upto = segment@.take(i + 1);
        assert(upto.drop_last() == segment@.take(i as int));
        assert(upto.last() == segment@[i as int]);
        let d = match digit(segment[i]) {
            Some(d) => d,
            None => {
                proof {
                    lemma_fold_refused(segment@, i + 1);
                }
                return None;
            },
        };
        if digits >= 7 {
            proof {
                lemma_fold_refused(segment@, i + 1);
            }
            return None;
        }
        assert(pow32(7) == 34359738368) by {
            reveal_with_fuel(pow32, 8);
        }
        assert(scale * 32 <= 34359738368) by {
            lemma_pow32_grows(digits as int + 1, 7);
        }
        let data = d % 32;
        assert(data * scale <= 31 * scale) by (nonlinear_arith)
            requires
                data <= 31,
                scale >= 0,
        ;
        acc = acc + data * scale;
        if d >= 32 {
            scale = scale * 32;
            digits = digits + 1;
        } else {
            let half = acc / 2;
            let value: i64 = if acc % 2 == 1 {
                -(half as i64)
            } else {
                half as i64
            };
            let ghost before = done@;
            done.push(value);
            assert(as_ints(done@) =~= as_ints(before).push(value as int));
            acc = 0;
            scale = 1;
            digits = 0;
        }
        i += 1;
    }
    assert(segment@.take(segment@.len() as int) == segment@);
    if digits == 0 {
        Some(done)
    } else {
        None
    }
}

proof fn lemma_pow32_grows(a: int, b: int)
    requires
        0 <= a <= b,
    ensures
        pow32(a) <= pow32(b),
        pow32(a) >= 1,
    decreases b,
{
    if a < b {
        lemma_pow32_grows(a, b - 1);
    } else if a > 0 {
        lemma_pow32_grows(a - 1, b - 1);
    }
}

/// Once a prefix of a segment is refused, the segment is.
proof fn lemma_fold_refused(segment: Seq<char>, n: int)
    requires
        0 <= n <= segment.len(),
        fields_fold(segment.take(n)) is None,
    ensures
        fields_fold(segment) is None,
        segment_fields(segment) is None,
    decreases segment.len() - n,
{
    if n < segment.len() {
        let longer = segment.take(n + 1);
        assert(longer.drop_last() == segment.take(n));
        lemma_fold_refused(segment, n + 1);
    } else {
        assert(segment.take(n) == segment);
    }
}

/// The generated column and the original position that the next segment is
/// relative to.
#[derive(Clone, Copy)]
struct Cursor {
    column: u32,
    source: u32,
    line: u32,
    original_column: u32,
}

spec fn reader_of(tokens: Seq<Token>, cursor: Cursor) -> Reader {
    Reader {
        tokens,
        column: cursor.column as int,
        source: cursor.source as int,
        line: cursor.line as int,
        original_column: cursor.original_column as int,
    }
}

fn advance(base: u32, delta: i64) -> (moved: Option<u32>)
    ensures
        moved == if fits(base + delta) {
            Some((base + delta) as u32)
        } else {
            None
        },
{
    let wide: i64 = base as i64;
    match wide.checked_add(delta) {
        Some(sum) => if 0 <= sum && sum <= 4294967295 {
            Some(sum as u32)
        } else {
            None
        },
        None => None,
    }
}

fn step_segment(
    tokens: &mut Vec<Token>,
    cursor: &mut Cursor,
    line: usize,
    segment: &Vec<char>,
) -> (ok: bool)
    ensures
        segment_step(Some(reader_of(old(tokens)@, *old(cursor))), line as int, segment@) == if ok {
            Some(reader_of(final(tokens)@, *final(cursor)))
        } else {
            None
        },
{
    if segment.len() == 0 {
        return true;
    }
    let fields = match read_fields(segment) {
        Some(fields) => fields,
        None => {
            return false;
        },
    };
    let ghost numbers = as_ints(fields@);
    if fields.len() == 1 {
        assert(numbers[0] == fields@[0] as int);
        match advance(cursor.column, fields[0]) {
            Some(column) => {
                cursor.column = column;
                true
            },
            None => false,
        }
    } else if fields.len() == 4 || fields.len() == 5 {
        assert(numbers[0] == fields@[0] as int);
        assert(numbers[1] == fields@[1] as int);
        assert(numbers[2] == fields@[2] as int);
        assert(numbers[3] == fields@[3] as int);
        if line > 4294967295 {
            return false;
        }
        let column = match advance(cursor.column, fields[0]) {
            Some(column) => column,
            None => {
                return false;
            },
        };
        let source = match advance(cursor.source, fields[1]) {
            Some(source) => source,
            None => {
                return false;
            },
        };
        let original_line = match advance(cursor.line, fields[2]) {
            Some(original_line) => original_line,
            None => {
                return false;
            },
        };
        let original_column = match advance(cursor.original_column, fields[3]) {
            Some(original_column) => original_column,
            None => {
                return false;
            },
        };
        tokens.push(
            Token {
                generated_line: line as u32,
                generated_column: column,
                source_index: source,
                original_line,
                original_column,
            },
        );
        *cursor = Cursor { column, source, line: original_line, original_column };
        true
    } else {
        false
    }
}

/// Once a prefix of a group is refused, the group is.
proof fn lemma_group_refused(start: Option<Reader>, line: int, segments: Seq<Seq<char>>, n: int)
    requires
        0 <= n <= segments.len(),
        group_fold(start, line, segments.take(n)) is None,
    ensures
        group_fold(start, line, segments) is None,
    decreases segments.len() - n,
{
    if n < segments.len() {
        let longer = segments.take(n + 1);
        assert(longer.drop_last() == segments.take(n));
        lemma_group_refused(start, line, segments, n + 1);
    } else {
        assert(segments.take(n) == segments);
    }
}

/// Once a prefix of the groups is refused, the whole text is.
proof fn lemma_groups_refused(groups: Seq<Seq<char>>, n: int)
    requires
        0 <= n <= groups.len(),
        groups_fold(groups.take(n)) is None,
    ensures
        groups_fold(groups) is None,
    decreases groups.len() - n,
{
    if n < groups.len() {
        let longer = groups.take(n + 1);
        assert(longer.drop_last() == groups.take(n));
        lemma_groups_refused(groups, n + 1);
    } else {
        assert(groups.take(n) == groups);
    }
}

/// Reads the tokens of a `mappings` text, in the order of the text.
pub fn decode_mappings(mappings: &str) -> (tokens: Option<Vec<Token>>)
    ensures
        match tokens {
            Some(list) => tokens_of(mappings@) == Some(list@),
            None => tokens_of(mappings@) is None,
        },
{
    let chars = to_chars(mappings);
    let groups = split(&chars, ';');
    let mut tokens: Vec<Token> = Vec::new();
    let mut cursor = Cursor { column: 0, source: 0, line: 0, original_column: 0 };
    let mut g: usize = 0;
    assert(texts(groups@).take(0) == Seq::<Seq<char>>::empty());
    while g < groups.len()
        invariant
            g <= groups.len(),
            texts(groups@) == split_on(mappings@, ';'),
            groups_fold(texts(groups@).take(g as int)) == Some(reader_of(tokens@, cursor)),
        decreases groups.len() - g,
    {
        let ghost upto = texts(groups@).take(g + 1);
        assert(upto.drop_last() == texts(groups@).take(g as int));
        assert(upto.last() == groups@[g as int]@);
        let segments = split(&groups[g], ',');
        cursor.column = 0;
        let ghost start = Some(reader_of(tokens@, cursor));
        let mut s: usize = 0;
        assert(texts(segments@).take(0) == Seq::<Seq<char>>::empty());
        assert(groups_fold(upto) == group_fold(start, g as int, texts(segments@)));
        while s < segments.len()
            invariant
                s <= segments.len(),
                g < groups.len(),
                texts(groups@) == split_on(mappings@, ';'),
                groups_fold(texts(groups@).take(g + 1)) == group_fold(
                    start,
                    g as int,
                    texts(segments@),
                ),
                group_fold(start, g as int, texts(segments@).take(s as int)) == Some(
                    reader_of(tokens@, cursor),
                ),
            decreases segments.len() - s,
        {
            let ghost some = texts(segments@).take(s + 1);
            assert(some.drop_last() == texts(segments@).take(s as int));
            assert(some.last() == segments@[s as int]@);
            if !step_segment(&mut tokens, &mut cursor, g, &segments[s]) {
                proof {
                    lemma_group_refused(start, g as int, texts(segments@), s + 1);
                    lemma_groups_refused(texts(groups@), g + 1);
                }
                return None;
            }
            s += 1;
        }
        assert(texts(segments@).take(segments@.len() as int) == texts(segments@));
        g += 1;
    }
    assert(texts(groups@).take(groups@.len() as int) == texts(groups@));
    Some(tokens)
}

/// Finds the token that answers for a generated position: a token at or
/// before the position that no other such token lies after. Where no token
/// lies at or before the position, none is found.
pub fn lookup_token(tokens: &Vec<Token>, line: u32, column: u32) -> (found: Option<Token>)
    ensures
        match nearest(tokens@, line, column) {
            Some(i) => 0 <= i < tokens.len() && found == Some(tokens@[i]),
            None => found is None,
        },
        match found {
            Some(token) => {
                &&& tokens@.contains(token)
                &&& at_or_before(token, line, column)
                &&& forall|j: int|
                    0 <= j < tokens.len() && at_or_before(#[trigger] tokens@[j], line, column)
                        ==> not_after(tokens@[j], token)
            },
            None => forall|j: int|
                0 <= j < tokens.len() ==> !at_or_before(#[trigger] tokens@[j], line, column),
        },
{
    proof {
        lemma_nearest(tokens@, line, column);
    }
    let mut best: Option<usize> = None;
    let mut i: usize = 0;
    assert(tokens@.take(0) == Seq::<Token>::empty());
    while i < tokens.len()
        invariant
            i <= tokens.len(),
            match best {
                Some(b) => b < i && nearest(tokens@.take(i as int), line, column) == Some(b as int),
                None => nearest(tokens@.take(i as int), line, column) is None,
            },
        decreases tokens.len() - i,
    {
        let ghost upto = tokens@.take(i + 1);
        assert(upto.drop_last() == tokens@.take(i as int));
        let token = tokens[i];
        if token.generated_line < line || (token.generated_line == line && token.generated_column
            <= column) {
            let further = match best {
                Some(b) => {
                    let held = tokens[b];
                    assert(upto[b as int] == held);
                    held.generated_line < token.generated_line || (held.generated_line
                        == token.generated_line && held.generated_column <= token.generated_column)
                },
                None => true,
            };
            if further {
                best = Some(i);
            }
        }
        i += 1;
    }
    assert(tokens@.take(tokens@.len() as int) == tokens@);
    match best {
        Some(b) => Some(tokens[b]),
        None => None,
    }
}

/// The token that a `mappings` text gives for a generated position. A
/// position off the range of `u32`, a malformed text and a position before the
/// first token all give none.
pub open spec fn token_at(mappings: Seq<char>, line: int, column: int) -> Option<Token> {
    if fits(line) && fits(column) {
        match tokens_of(mappings) {
            Some(tokens) => match nearest(tokens, line as u32, column as u32) {
                Some(i) => Some(tokens[i]),
                None => None,
            },
            None => None,
        }
    } else {
        None
    }
}

/// Looks up the token for a generated position in a `mappings` text.
pub fn lookup(mappings: &str, line: i32, column: i32) -> (token: Option<Token>)
    ensures
        token == token_at(mappings@, line as int, column as int),
{
    if line < 0 || column < 0 {
        return None;
    }
    match decode_mappings(mappings) {
        Some(tokens) => lookup_token(&tokens, line as u32, column as u32),
        None => None,
    }
}

} // verus!
