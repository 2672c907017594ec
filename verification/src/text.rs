//! Text as sequences of characters: the conversions to and from strings, and
//! the splitting and joining that the rest of the crate is built on.

use vstd::prelude::*;

verus! {

/// `String::push` appends one character.
pub assume_specification[ std::string::String::push ](s: &mut std::string::String, c: char)
    ensures
        final(s)@ == old(s)@.push(c),
;

/// The views of a list of character vectors.
pub open spec fn texts(parts: Seq<Vec<char>>) -> Seq<Seq<char>> {
    parts.map_values(|part: Vec<char>| part@)
}

/// The pieces of `s` between the occurrences of `sep`. There is always at
/// least one piece, and a separator at either end gives an empty piece there.
pub open spec fn split_on(s: Seq<char>, sep: char) -> Seq<Seq<char>>
    decreases s.len(),
{
    if s.len() == 0 {
        seq![Seq::<char>::empty()]
    } else {
        let before = split_on(s.drop_last(), sep);
        if s.last() == sep {
            before.push(Seq::<char>::empty())
        } else {
            before.drop_last().push(before.last().push(s.last()))
        }
    }
}

/// The parts in order, with `sep` between each two neighbours.
pub open spec fn join(parts: Seq<Seq<char>>, sep: Seq<char>) -> Seq<char>
    decreases parts.len(),
{
    if parts.len() == 0 {
        Seq::<char>::empty()
    } else if parts.len() == 1 {
        parts[0]
    } else {
        join(parts.drop_last(), sep) + sep + parts.last()
    }
}

/// A line without the carriage return that may end it.
pub open spec fn strip_cr(line: Seq<char>) -> Seq<char> {
    if line.len() > 0 && line.last() == '\r' {
        line.drop_last()
    } else {
        line
    }
}

/// The lines of a text. A line ends at a line feed, or at a carriage return
/// directly followed by one; neither belongs to the line. What follows the last
/// line feed is a line of its own unless it is empty.
pub open spec fn lines_of(s: Seq<char>) -> Seq<Seq<char>> {
    let pieces = split_on(s, '\n');
    let count = if pieces.last().len() == 0 {
        pieces.len() - 1
    } else {
        pieces.len() as int
    };
    Seq::new(
        count as nat,
        |i: int|
            if i < pieces.len() - 1 {
                strip_cr(pieces[i])
            } else {
                pieces[i]
            },
    )
}

/// The pieces of a text hold no separator, and joined with the separator they
/// give the text back.
pub proof fn lemma_split_on(s: Seq<char>, sep: char)
    ensures
        split_on(s, sep).len() >= 1,
        forall|i: int|
            0 <= i < split_on(s, sep).len() ==> !(#[trigger] split_on(s, sep)[i]).contains(sep),
        join(split_on(s, sep), seq![sep]) == s,
    decreases s.len(),
{
    let pieces = split_on(s, sep);
    if s.len() == 0 {
        assert(pieces[0] == Seq::<char>::empty());
        assert(join(pieces, seq![sep]) == s);
    } else {
        let before = split_on(s.drop_last(), sep);
        lemma_split_on(s.drop_last(), sep);
        let c = s.last();
        assert(s.drop_last().push(c) == s);
        if c == sep {
            assert(pieces.drop_last() == before);
            assert(pieces.last() == Seq::<char>::empty());
            assert(join(pieces, seq![sep]) == join(before, seq![sep]) + seq![sep] + pieces.last());
            assert(join(before, seq![sep]) + seq![sep] + Seq::<char>::empty() == s.drop_last().push(
                c,
            ));
        } else {
            let open = before.last().push(c);
            assert(pieces.last() == open);
            assert(pieces.drop_last() == before.drop_last());
            assert forall|i: int| 0 <= i < pieces.len() implies !(#[trigger] pieces[i]).contains(
                sep,
            ) by {
                if i < pieces.len() - 1 {
                    assert(pieces[i] == before[i]);
                } else {
                    assert(!before[i].contains(sep));
                    if open.contains(sep) {
                        let k = choose|k: int| 0 <= k < open.len() && open[k] == sep;
                        assert(before[i][k] == sep);
                    }
                }
            }
            if before.len() == 1 {
                assert(join(before, seq![sep]) == before[0]);
                assert(join(pieces, seq![sep]) == open);
            } else {
                assert(join(pieces, seq![sep]) == join(before.drop_last(), seq![sep]) + seq![sep]
                    + open);
                assert(join(before.drop_last(), seq![sep]) + seq![sep] + open == (join(
                    before.drop_last(),
                    seq![sep],
                ) + seq![sep] + before.last()).push(c));
            }
        }
    }
}

/// What follows the last separator of a text is its last piece, and the
/// pieces before it are those of what stands before that separator.
pub proof fn lemma_split_on_last(before: Seq<char>, sep: char, last: Seq<char>)
    requires
        !last.contains(sep),
    ensures
        split_on(before + seq![sep] + last, sep) == split_on(before, sep).push(last),
    decreases last.len(),
{
    let whole = before + seq![sep] + last;
    if last.len() == 0 {
        assert(whole.drop_last() == before);
        assert(whole.last() == sep);
        assert(last == Seq::<char>::empty());
    } else {
        let shorter = last.drop_last();
        assert(!shorter.contains(sep)) by {
            if shorter.contains(sep) {
                let i = choose|i: int| 0 <= i < shorter.len() && shorter[i] == sep;
                assert(last[i] == sep);
            }
        }
        lemma_split_on_last(before, sep, shorter);
        assert(whole.drop_last() == before + seq![sep] + shorter);
        assert(whole.last() == last.last());
        assert(last.last() != sep) by {
            assert(last[last.len() - 1] == last.last());
        }
        let pieces = split_on(before, sep).push(shorter);
        assert(pieces.drop_last() == split_on(before, sep));
        assert(pieces.last().push(last.last()) == last);
    }
}

/// A text that ends in a line of its own, after a line feed: that line is the
/// last of its lines, and the lines before it are those of what stands before
/// the line feed. Where that part holds no carriage return, its lines joined
/// by line feeds give it back.
pub proof fn lemma_lines_with_last(before: Seq<char>, last: Seq<char>)
    requires
        !last.contains('\n'),
        last.len() > 0,
    ensures
        lines_of(before + seq!['\n'] + last).len() == split_on(before, '\n').len() + 1,
        lines_of(before + seq!['\n'] + last).last() == last,
        !before.contains('\r') ==> join(
            lines_of(before + seq!['\n'] + last).drop_last(),
            seq!['\n'],
        ) == before,
{
    let whole = before + seq!['\n'] + last;
    let pieces = split_on(before, '\n');
    lemma_split_on_last(before, '\n', last);
    lemma_split_on(before, '\n');
    let all = lines_of(whole);
    assert(split_on(whole, '\n').last() == last);
    assert(all.len() == pieces.len() + 1);
    assert(all.last() == last);
    if !before.contains('\r') {
        assert forall|i: int| 0 <= i < pieces.len() implies all.drop_last()[i] == pieces[i] by {
            assert(split_on(whole, '\n')[i] == pieces[i]);
            let piece = pieces[i];
            if piece.len() > 0 && piece.last() == '\r' {
                lemma_piece_is_part(before, '\n', i, piece.len() - 1);
            }
        }
        assert(all.drop_last() =~= pieces);
    }
}

/// Every character of a piece of a text is a character of the text.
pub proof fn lemma_piece_is_part(s: Seq<char>, sep: char, i: int, k: int)
    requires
        0 <= i < split_on(s, sep).len(),
        0 <= k < split_on(s, sep)[i].len(),
    ensures
        s.contains(split_on(s, sep)[i][k]),
    decreases s.len(),
{
    if s.len() > 0 {
        let before = split_on(s.drop_last(), sep);
        let c = s.last();
        assert(s[s.len() - 1] == c);
        if c == sep {
            assert(split_on(s, sep) == before.push(Seq::<char>::empty()));
            lemma_piece_is_part(s.drop_last(), sep, i, k);
            let found = split_on(s, sep)[i][k];
            let j = choose|j: int| 0 <= j < s.drop_last().len() && s.drop_last()[j] == found;
            assert(s[j] == found);
        } else {
            let pieces = split_on(s, sep);
            assert(pieces == before.drop_last().push(before.last().push(c)));
            if i == pieces.len() - 1 && k == pieces[i].len() - 1 {
                assert(pieces[i][k] == c);
            } else {
                assert(pieces[i][k] == before[i][k]);
                lemma_piece_is_part(s.drop_last(), sep, i, k);
                let found = pieces[i][k];
                let j = choose|j: int| 0 <= j < s.drop_last().len() && s.drop_last()[j] == found;
                assert(s[j] == found);
            }
        }
    }
}

/// The characters of a string.
pub fn to_chars(s: &str) -> (chars: Vec<char>)
    ensures
        chars@ == s@,
{
    let mut chars: Vec<char> = Vec::new();
    for c in it: s.chars()
        invariant
            it.seq() == s@,
            chars@ == it.seq().take(it.index() as int),
    {
        chars.push(c);
        assert(it.seq().take(it.index() + 1) == it.seq().take(it.index() as int).push(c));
    }
    assert(s@.take(s@.len() as int) == s@);
    chars
}

/// The string made of the given characters.
pub fn from_chars(chars: &Vec<char>) -> (s: String)
    ensures
        s@ == chars@,
{
    let mut s = String::new();
    let mut i: usize = 0;
    while i < chars.len()
        invariant
            i <= chars.len(),
            s@ == chars@.take(i as int),
        decreases chars.len() - i,
    {
        s.push(chars[i]);
        assert(chars@.take(i + 1) == chars@.take(i as int).push(chars@[i as int]));
        i += 1;
    }
    assert(chars@.take(chars@.len() as int) == chars@);
    s
}

/// Whether two strings hold the same characters.
pub fn same_text(a: &str, b: &str) -> (same: bool)
    ensures
        same == (a@ == b@),
{
    a.to_owned() == b.to_owned()
}

/// A copy of the characters from index `from` up to, not including, `to`.
pub fn sub_chars(chars: &Vec<char>, from: usize, to: usize) -> (part: Vec<char>)
    requires
        from <= to <= chars.len(),
    ensures
        part@ == chars@.subrange(from as int, to as int),
{
    let mut part: Vec<char> = Vec::new();
    let mut i: usize = from;
    while i < to
        invariant
            from <= i <= to <= chars.len(),
            part@ == chars@.subrange(from as int, i as int),
        decreases to - i,
    {
        part.push(chars[i]);
        assert(chars@.subrange(from as int, i + 1) == chars@.subrange(from as int, i as int).push(
            chars@[i as int],
        ));
        i += 1;
    }
    part
}

/// Whether `text` begins with `prefix`.
pub fn starts_with(text: &Vec<char>, prefix: &Vec<char>) -> (b: bool)
    ensures
        b == prefix@.is_prefix_of(text@),
{
    if prefix.len() > text.len() {
        return false;
    }
    let mut i: usize = 0;
    while i < prefix.len()
        invariant
            i <= prefix.len() <= text.len(),
            forall|j: int| 0 <= j < i ==> prefix@[j] == text@[j],
        decreases prefix.len() - i,
    {
        if prefix[i] != text[i] {
            assert(text@.subrange(0, prefix@.len() as int)[i as int] != prefix@[i as int]);
            return false;
        }
        i += 1;
    }
    assert(text@.subrange(0, prefix@.len() as int) == prefix@);
    true
}

/// Splits a text at every occurrence of `sep`: the parts hold no separator,
/// and joined with it they give the text back.
pub fn split(s: &Vec<char>, sep: char) -> (parts: Vec<Vec<char>>)
    ensures
        texts(parts@) == split_on(s@, sep),
        parts.len() >= 1,
        forall|i: int| 0 <= i < parts.len() ==> !(#[trigger] parts@[i])@.contains(sep),
        join(texts(parts@), seq![sep]) == s@,
{
    let mut parts: Vec<Vec<char>> = Vec::new();
    let mut current: Vec<char> = Vec::new();
    let mut i: usize = 0;
    assert(s@.take(0) == Seq::<char>::empty());
    assert(texts(parts@).push(current@) == seq![Seq::<char>::empty()]);
    while i < s.len()
        invariant
            i <= s.len(),
            split_on(s@.take(i as int), sep) == texts(parts@).push(current@),
        decreases s.len() - i,
    {
        let ghost before = texts(parts@).push(current@);
        let ghost prefix = s@.take(i + 1);
        assert(prefix.drop_last() == s@.take(i as int));
        assert(prefix.last() == s@[i as int]);
        if s[i] == sep {
            let ghost done = parts@;
            parts.push(current);
            current = Vec::new();
            assert(texts(parts@) == before) by {
                assert(texts(parts@) =~= texts(done).push(parts@[parts@.len() - 1]@));
            }
        } else {
            let ghost open = current@;
            current.push(s[i]);
            assert(before.drop_last() == texts(parts@));
            assert(before.last() == open);
        }
        i += 1;
    }
    assert(s@.take(s@.len() as int) == s@);
    let ghost done = parts@;
    let ghost last = current@;
    parts.push(current);
    assert(texts(parts@) =~= texts(done).push(last));
    proof {
        lemma_split_on(s@, sep);
        assert forall|i: int| 0 <= i < parts.len() implies !(#[trigger] parts@[i])@.contains(
            sep,
        ) by {
            assert(texts(parts@)[i] == parts@[i]@);
        }
    }
    parts
}

/// Joins the parts with `sep` between them.
pub fn join_chars(parts: &Vec<Vec<char>>, sep: &Vec<char>) -> (joined: Vec<char>)
    ensures
        joined@ == join(texts(parts@), sep@),
{
    let mut joined: Vec<char> = Vec::new();
    let mut i: usize = 0;
    assert(texts(parts@).take(0) == Seq::<Seq<char>>::empty());
    while i < parts.len()
        invariant
            i <= parts.len(),
            joined@ == join(texts(parts@).take(i as int), sep@),
        decreases parts.len() - i,
    {
        let ghost sofar = joined@;
        let ghost upto = texts(parts@).take(i + 1);
        assert(upto.drop_last() == texts(parts@).take(i as int));
        assert(upto.last() == parts@[i as int]@);
        if i > 0 {
            let mut j: usize = 0;
            while j < sep.len()
                invariant
                    j <= sep.len(),
                    joined@ == sofar + sep@.take(j as int),
                decreases sep.len() - j,
            {
                joined.push(sep[j]);
                assert(sep@.take(j + 1) == sep@.take(j as int).push(sep@[j as int]));
                j += 1;
            }
            assert(sep@.take(sep@.len() as int) == sep@);
        }
        let ghost withsep = joined@;
        let part = &parts[i];
        let mut k: usize = 0;
        while k < part.len()
            invariant
                k <= part.len(),
                joined@ == withsep + part@.take(k as int),
            decreases part.len() - k,
        {
            joined.push(part[k]);
            assert(part@.take(k + 1) == part@.take(k as int).push(part@[k as int]));
            k += 1;
        }
        assert(part@.take(part@.len() as int) == part@);
        assert(joined@ == join(upto, sep@)) by {
            if i == 0 {
                assert(sofar == Seq::<char>::empty());
                assert(upto.len() == 1);
                assert(withsep + part@ == part@);
            }
        }
        i += 1;
    }
    assert(texts(parts@).take(parts@.len() as int) == texts(parts@));
    joined
}

/// The lines of a text.
pub fn lines(s: &Vec<char>) -> (found: Vec<Vec<char>>)
    ensures
        texts(found@) == lines_of(s@),
{
    let pieces = split(s, '\n');
    let n = pieces.len();
    let count = if pieces[n - 1].len() == 0 {
        n - 1
    } else {
        n
    };
    let ghost want = lines_of(s@);
    let mut found: Vec<Vec<char>> = Vec::new();
    let mut i: usize = 0;
    while i < count
        invariant
            i <= count <= n,
            n == pieces.len(),
            texts(pieces@) == split_on(s@, '\n'),
            want == lines_of(s@),
            want.len() == count,
            texts(found@) == want.take(i as int),
        decreases count - i,
    {
        let piece = &pieces[i];
        let len = piece.len();
        assert(texts(pieces@)[i as int] == piece@);
        let line = if i + 1 < n && len > 0 && piece[len - 1] == '\r' {
            sub_chars(piece, 0, len - 1)
        } else {
            sub_chars(piece, 0, len)
        };
        assert(line@ == want[i as int]) by {
            assert(piece@.subrange(0, len as int) == piece@);
            assert(piece@.subrange(0, len - 1) == piece@.drop_last());
        }
        let ghost done = found@;
        found.push(line);
        assert(texts(found@) =~= texts(done).push(line@));
        assert(want.take(i + 1) == want.take(i as int).push(want[i as int]));
        i += 1;
    }
    assert(want.take(count as int) == want);
    found
}

/// Appends the characters of `more` to `chars`.
pub fn push_all(chars: &mut Vec<char>, more: &Vec<char>)
    ensures
        final(chars)@ == old(chars)@ + more@,
{
    let ghost before = chars@;
    let mut i: usize = 0;
    assert(more@.take(0) == Seq::<char>::empty());
    assert(before + Seq::<char>::empty() == before);
    while i < more.len()
        invariant
            i <= more.len(),
            chars@ == before + more@.take(i as int),
        decreases more.len() - i,
    {
        chars.push(more[i]);
        assert(more@.take(i + 1) == more@.take(i as int).push(more@[i as int]));
        assert(before + more@.take(i + 1) == (before + more@.take(i as int)).push(more@[i as int]));
        i += 1;
    }
    assert(more@.take(more@.len() as int) == more@);
}

/// Appends the characters of a string to `chars`.
pub fn push_text(chars: &mut Vec<char>, more: &str)
    ensures
        final(chars)@ == old(chars)@ + more@,
{
    let more = to_chars(more);
    push_all(chars, &more);
}

/// The character of a decimal digit.
pub open spec fn digit_char(d: nat) -> char {
    if d == 0 {
        '0'
    } else if d == 1 {
        '1'
    } else if d == 2 {
        '2'
    } else if d == 3 {
        '3'
    } else if d == 4 {
        '4'
    } else if d == 5 {
        '5'
    } else if d == 6 {
        '6'
    } else if d == 7 {
        '7'
    } else if d == 8 {
        '8'
    } else {
        '9'
    }
}

/// The decimal numeral of a number, without leading zeros.
pub open spec fn decimal(n: nat) -> Seq<char>
    decreases n,
{
    if n < 10 {
        seq![digit_char(n)]
    } else {
        decimal(n / 10).push(digit_char(n % 10))
    }
}

/// The decimal numeral of a number, filled up with zeros in front to three
/// characters.
pub open spec fn padded(n: nat) -> Seq<char> {
    if n < 10 {
        seq!['0', '0'] + decimal(n)
    } else if n < 100 {
        seq!['0'] + decimal(n)
    } else {
        decimal(n)
    }
}

fn digit_to_char(d: usize) -> (c: char)
    requires
        d < 10,
    ensures
        c == digit_char(d as nat),
{
    if d == 0 {
        '0'
    } else if d == 1 {
        '1'
    } else if d == 2 {
        '2'
    } else if d == 3 {
        '3'
    } else if d == 4 {
        '4'
    } else if d == 5 {
        '5'
    } else if d == 6 {
        '6'
    } else if d == 7 {
        '7'
    } else if d == 8 {
        '8'
    } else {
        '9'
    }
}

/// Writes a number as its decimal numeral.
pub fn decimal_chars(n: usize) -> (digits: Vec<char>)
    ensures
        digits@ == decimal(n as nat),
    decreases n,
{
    if n < 10 {
        vec![digit_to_char(n)]
    } else {
        let mut digits = decimal_chars(n / 10);
        digits.push(digit_to_char(n % 10));
        digits
    }
}

/// Writes a number as its decimal numeral, filled up with zeros in front to
/// three characters.
pub fn padded_chars(n: usize) -> (digits: Vec<char>)
    ensures
        digits@ == padded(n as nat),
{
    let mut digits: Vec<char> = Vec::new();
    if n < 10 {
        digits.push('0');
        digits.push('0');
    } else if n < 100 {
        digits.push('0');
    }
    let numeral = decimal_chars(n);
    push_all(&mut digits, &numeral);
    assert(digits@ == padded(n as nat)) by {
        if n >= 100 {
            assert(Seq::<char>::empty() + numeral@ == numeral@);
        }
    }
    digits
}

/// The value of a decimal digit, if the character is one.
pub open spec fn digit_value(c: char) -> Option<nat> {
    if '0' <= c <= '9' {
        Some((c as nat - '0' as nat) as nat)
    } else {
        None
    }
}

/// Whether every character is a decimal digit.
pub open spec fn all_digits(s: Seq<char>) -> bool {
    forall|i: int| 0 <= i < s.len() ==> (#[trigger] digit_value(s[i])) is Some
}

/// The number that a run of decimal digits spells.
pub open spec fn numeral_value(s: Seq<char>) -> nat
    decreases s.len(),
{
    if s.len() == 0 {
        0
    } else {
        numeral_value(s.drop_last()) * 10 + match digit_value(s.last()) {
            Some(d) => d,
            None => 0,
        }
    }
}

/// A numeral without the plus sign that may stand before it.
pub open spec fn unsigned_part(s: Seq<char>) -> Seq<char> {
    if s.len() > 0 && s[0] == '+' {
        s.skip(1)
    } else {
        s
    }
}

/// The number that a text spells: decimal digits, at least one, with nothing
/// around them but a plus sign that may stand in front, and a value within
/// `u32`.
pub open spec fn parsed_u32(s: Seq<char>) -> Option<u32> {
    let digits = unsigned_part(s);
    if digits.len() > 0 && all_digits(digits) && numeral_value(digits) <= u32::MAX {
        Some(numeral_value(digits) as u32)
    } else {
        None
    }
}

proof fn lemma_numeral_grows(s: Seq<char>, n: int)
    requires
        0 <= n <= s.len(),
    ensures
        numeral_value(s.take(n)) <= numeral_value(s),
    decreases s.len() - n,
{
    if n < s.len() {
        let longer = s.take(n + 1);
        assert(longer.drop_last() == s.take(n));
        lemma_numeral_grows(s, n + 1);
    } else {
        assert(s.take(n) == s);
    }
}

/// Reads a number from a text.
pub fn parse_u32(text: &str) -> (number: Option<u32>)
    ensures
        number == parsed_u32(text@),
{
    let chars = to_chars(text);
    let start: usize = if chars.len() > 0 && chars[0] == '+' {
        1
    } else {
        0
    };
    let ghost digits = unsigned_part(text@);
    assert(digits == chars@.skip(start as int));
    if start >= chars.len() {
        return None;
    }
    let mut value: u64 = 0;
    let mut i: usize = start;
    assert(digits.take(0) == Seq::<char>::empty());
    while i < chars.len()
        invariant
            start <= i <= chars.len(),
            digits == chars@.skip(start as int),
            digits == unsigned_part(text@),
            value <= u32::MAX,
            value == numeral_value(digits.take(i - start)),
            forall|k: int| 0 <= k < i - start ==> (#[trigger] digit_value(digits[k])) is Some,
        decreases chars.len() - i,
    {
        let c = chars[i];
        assert(digits[i - start] == c);
        if !('0' <= c && c <= '9') {
            assert(digit_value(digits[i - start]) is None);
            return None;
        }
        let d = (c as u32 - '0' as u32) as u64;
        let ghost upto = digits.take(i - start + 1);
        assert(upto.drop_last() == digits.take(i - start));
        assert(upto.last() == c);
        value = value * 10 + d;
        assert(value == numeral_value(upto));
        if value > 4294967295 {
            proof {
                lemma_numeral_grows(digits, i - start + 1);
            }
            return None;
        }
        i += 1;
    }
    assert(digits.take(digits.len() as int) == digits);
    Some(value as u32)
}

} // verus!
