//! The layouts of printed text: lines, columns between blanks, fields between
//! delimiters, and the search for keywords.

use crate::scan::{
    find_in_class, is_whitespace, last_in_class_end, lemma_last_in_class_end,
    lemma_next_in_class, lemma_span_of_part, next_in_class, rfind_in_class_end, CharClass, Span,
};
use vstd::prelude::*;

verus! {

/// Where a stretch of a text starts and, after its last character, ends.
pub type Bounds = (int, int);

/// The characters of `s` within each of `bounds`.
pub open spec fn texts_at(s: Seq<char>, bounds: Seq<Bounds>) -> Seq<Seq<char>> {
    Seq::new(bounds.len(), |i: int| s.subrange(bounds[i].0, bounds[i].1))
}

/// Where a line ends that starts at `from` and has its line feed at `eol`:
/// before the carriage return that stands directly before the line feed, or
/// else at the line feed.
pub open spec fn line_end(s: Seq<char>, from: int, eol: int) -> int {
    if from < eol && s[eol - 1] == '\r' {
        eol - 1
    } else {
        eol
    }
}

/// The bounds of the lines of `s` that start at or after `from`, where `from`
/// is the start of a line.
pub open spec fn line_bounds_from(s: Seq<char>, from: int) -> Seq<Bounds>
    decreases s.len() - from,
{
    if from < 0 || from >= s.len() {
        Seq::empty()
    } else {
        let eol = next_in_class(s, from, CharClass::Newline);
        if eol >= s.len() {
            seq![(from, s.len() as int)]
        } else {
            proof {
                lemma_next_in_class(s, from, CharClass::Newline);
            }
            seq![(from, line_end(s, from, eol))] + line_bounds_from(s, eol + 1)
        }
    }
}

/// The bounds of the lines of `s`. A line ends at a line feed, which is no
/// part of it, nor is a carriage return directly before that line feed. What
/// follows the last line feed is a line of its own unless it is empty.
pub open spec fn line_bounds(s: Seq<char>) -> Seq<Bounds> {
    line_bounds_from(s, 0)
}

/// The lines of `s`.
pub open spec fn lines(s: Seq<char>) -> Seq<Seq<char>> {
    texts_at(s, line_bounds(s))
}

/// The bounds of the columns of `s` that start at or after `from`.
pub open spec fn column_bounds_from(s: Seq<char>, from: int) -> Seq<Bounds>
    decreases s.len() - from,
{
    if from < 0 || from >= s.len() {
        Seq::empty()
    } else {
        let start = next_in_class(s, from, CharClass::Visible);
        if start >= s.len() {
            Seq::empty()
        } else {
            let end = next_in_class(s, start, CharClass::Whitespace);
            proof {
                lemma_next_in_class(s, from, CharClass::Visible);
                lemma_next_in_class(s, start + 1, CharClass::Whitespace);
            }
            seq![(start, end)] + column_bounds_from(s, end)
        }
    }
}

/// The bounds of the columns of `s`: its longest stretches without white
/// space, from left to right.
pub open spec fn column_bounds(s: Seq<char>) -> Seq<Bounds> {
    column_bounds_from(s, 0)
}

/// The columns of `s`.
pub open spec fn split_whitespace(s: Seq<char>) -> Seq<Seq<char>> {
    texts_at(s, column_bounds(s))
}

/// The bounds of `s` without the white space at its start and at its end;
/// those of the empty stretch at the start where `s` is white space only.
pub open spec fn trim_bounds(s: Seq<char>) -> Bounds {
    let start = next_in_class(s, 0, CharClass::Visible);
    let end = last_in_class_end(s, s.len() as int, CharClass::Visible);
    if start >= end {
        (0, 0)
    } else {
        (start, end)
    }
}

/// `s` without the white space at its start and at its end.
pub open spec fn trim(s: Seq<char>) -> Seq<char> {
    s.subrange(trim_bounds(s).0, trim_bounds(s).1)
}

/// Whether `s` begins with `pattern`.
pub open spec fn starts_with(s: Seq<char>, pattern: Seq<char>) -> bool {
    pattern.len() <= s.len() && s.subrange(0, pattern.len() as int) == pattern
}

/// Whether `pattern` stands in `s` at position `at`.
pub open spec fn occurs_at(s: Seq<char>, pattern: Seq<char>, at: int) -> bool {
    0 <= at && at + pattern.len() <= s.len() && s.subrange(at, at + pattern.len()) == pattern
}

/// Whether `pattern` stands somewhere in `s`.
pub open spec fn contains(s: Seq<char>, pattern: Seq<char>) -> bool {
    exists|at: int| occurs_at(s, pattern, at)
}

/// The least position at or after `from` where `pattern` stands in `s`,
/// or the length of `s` where it stands nowhere from there on.
pub open spec fn next_occurrence(s: Seq<char>, pattern: Seq<char>, from: int) -> int
    decreases s.len() - from,
{
    if from < 0 || from >= s.len() || from + pattern.len() > s.len() {
        s.len() as int
    } else if occurs_at(s, pattern, from) {
        from
    } else {
        next_occurrence(s, pattern, from + 1)
    }
}

/// The bounds of the fields of `s` from `from` on, where `from` is the start of a field.
pub open spec fn field_bounds_from(s: Seq<char>, delimiter: Seq<char>, from: int) -> Seq<Bounds>
    decreases s.len() - from,
{
    if from < 0 || from > s.len() || delimiter.len() == 0 {
        Seq::empty()
    } else {
        let at = next_occurrence(s, delimiter, from);
        if at >= s.len() {
            seq![(from, s.len() as int)]
        } else {
            proof {
                lemma_next_occurrence(s, delimiter, from);
            }
            seq![(from, at)] + field_bounds_from(s, delimiter, at + delimiter.len())
        }
    }
}

/// The bounds of the fields of `s`: what stands between the occurrences of
/// `delimiter`, taken from left to right without overlap. There is one field
/// more than there are such occurrences, and a field may be empty. An empty
/// delimiter parts nothing: there are no fields then.
pub open spec fn field_bounds(s: Seq<char>, delimiter: Seq<char>) -> Seq<Bounds> {
    field_bounds_from(s, delimiter, 0)
}

/// The fields of `s`.
pub open spec fn split(s: Seq<char>, delimiter: Seq<char>) -> Seq<Seq<char>> {
    texts_at(s, field_bounds(s, delimiter))
}

/// The characters that each of `spans` covers in `s`.
pub open spec fn texts_of(s: Seq<char>, spans: Seq<Span>) -> Seq<Seq<char>> {
    Seq::new(spans.len(), |i: int| spans[i].of(s))
}

/// The bounds of `span`, counted from `origin`.
pub open spec fn bounds_of(span: Span, origin: int) -> Bounds {
    (span.start - origin, span.end - origin)
}

/// The bounds of each of `spans`, counted from `origin`.
pub open spec fn all_bounds_of(spans: Seq<Span>, origin: int) -> Seq<Bounds> {
    Seq::new(spans.len(), |i: int| bounds_of(spans[i], origin))
}

/// Whether each of `spans` lies in a text of `len` characters.
pub open spec fn all_in_text(spans: Seq<Span>, len: nat) -> bool {
    forall|i: int| 0 <= i < spans.len() ==> (#[trigger] spans[i]).within(len)
}

/// Whether each of `spans` lies in `part`.
pub open spec fn all_within(spans: Seq<Span>, part: Span) -> bool {
    forall|i: int|
        0 <= i < spans.len() ==> part.start <= (#[trigger] spans[i]).start <= spans[i].end
            <= part.end
}

/// Stretches of a part of a text cover the characters that their bounds,
/// counted from the start of the part, cover in the part.
pub proof fn lemma_texts_of_part(s: Seq<char>, part: Span, spans: Seq<Span>)
    requires
        part.within(s.len()),
        all_within(spans, part),
    ensures
        texts_of(s, spans) == texts_at(part.of(s), all_bounds_of(spans, part.start as int)),
{
    assert forall|i: int| 0 <= i < spans.len() implies texts_of(s, spans)[i] == texts_at(
        part.of(s),
        all_bounds_of(spans, part.start as int),
    )[i] by {
        lemma_span_of_part(s, part, spans[i]);
    }
    assert(texts_of(s, spans) =~= texts_at(part.of(s), all_bounds_of(spans, part.start as int)));
}

/// `next_occurrence` stays within the text and is a place where the pattern
/// stands, unless it is the end of the text.
pub proof fn lemma_next_occurrence(s: Seq<char>, pattern: Seq<char>, from: int)
    requires
        0 <= from <= s.len(),
    ensures
        from <= next_occurrence(s, pattern, from) <= s.len(),
        next_occurrence(s, pattern, from) < s.len() ==> occurs_at(
            s,
            pattern,
            next_occurrence(s, pattern, from),
        ),
        forall|k: int| from <= k < next_occurrence(s, pattern, from) ==> !occurs_at(s, pattern, k),
    decreases s.len() - from,
{
    if from < s.len() && from + pattern.len() <= s.len() && !occurs_at(s, pattern, from) {
        lemma_next_occurrence(s, pattern, from + 1);
    }
}

/// Whether `bounds` lie in a text of `len` characters at or after `from`.
pub open spec fn bounds_within(bounds: Bounds, from: int, len: nat) -> bool {
    from <= bounds.0 <= bounds.1 <= len
}

/// The lines from `from` on lie in the text at or after `from`, and no line
/// holds a line feed.
pub proof fn lemma_line_bounds_from(s: Seq<char>, from: int)
    requires
        0 <= from <= s.len(),
    ensures
        forall|i: int|
            0 <= i < line_bounds_from(s, from).len() ==> bounds_within(
                #[trigger] line_bounds_from(s, from)[i],
                from,
                s.len(),
            ),
        forall|i: int, k: int|
            0 <= i < line_bounds_from(s, from).len() && (#[trigger] line_bounds_from(
                s,
                from,
            )[i]).0 <= k < line_bounds_from(s, from)[i].1 ==> #[trigger] s[k] != '\n',
    decreases s.len() - from,
{
    if from < s.len() {
        let eol = next_in_class(s, from, CharClass::Newline);
        lemma_next_in_class(s, from, CharClass::Newline);
        if eol < s.len() {
            lemma_line_bounds_from(s, eol + 1);
            let rest = line_bounds_from(s, eol + 1);
            let all = line_bounds_from(s, from);
            assert forall|i: int| 0 <= i < all.len() implies bounds_within(
                #[trigger] all[i],
                from,
                s.len(),
            ) by {
                if i > 0 {
                    assert(all[i] == rest[i - 1]);
                }
            }
            assert forall|i: int, k: int|
                0 <= i < all.len() && (#[trigger] all[i]).0 <= k < all[i].1 implies #[trigger] s[k]
                != '\n' by {
                if i > 0 {
                    assert(all[i] == rest[i - 1]);
                }
            }
        }
    }
}

/// No line holds a line feed.
pub proof fn lemma_lines_hold_no_line_feed(s: Seq<char>)
    ensures
        forall|i: int, k: int|
            0 <= i < lines(s).len() && 0 <= k < (#[trigger] lines(s)[i]).len() ==> #[trigger] lines(
                s,
            )[i][k] != '\n',
{
    lemma_line_bounds_from(s, 0);
    let bounds = line_bounds(s);
    assert forall|i: int, k: int| 0 <= i < lines(s).len() && 0 <= k < (#[trigger] lines(
        s,
    )[i]).len() implies #[trigger] lines(s)[i][k] != '\n' by {
        assert(bounds_within(bounds[i], 0, s.len()));
        assert(lines(s)[i][k] == s[bounds[i].0 + k]);
    }
}

/// The columns from `from` on lie in the text at or after `from`; each holds
/// a character, and none of its characters is white space.
pub proof fn lemma_column_bounds_from(s: Seq<char>, from: int)
    requires
        0 <= from <= s.len(),
    ensures
        forall|i: int|
            0 <= i < column_bounds_from(s, from).len() ==> bounds_within(
                #[trigger] column_bounds_from(s, from)[i],
                from,
                s.len(),
            ) && column_bounds_from(s, from)[i].0 < column_bounds_from(s, from)[i].1,
        forall|i: int, k: int|
            0 <= i < column_bounds_from(s, from).len() && (#[trigger] column_bounds_from(
                s,
                from,
            )[i]).0 <= k < column_bounds_from(s, from)[i].1 ==> !is_whitespace(#[trigger] s[k]),
    decreases s.len() - from,
{
    if from < s.len() {
        let start = next_in_class(s, from, CharClass::Visible);
        lemma_next_in_class(s, from, CharClass::Visible);
        if start < s.len() {
            let end = next_in_class(s, start, CharClass::Whitespace);
            lemma_next_in_class(s, start, CharClass::Whitespace);
            lemma_next_in_class(s, start + 1, CharClass::Whitespace);
            lemma_column_bounds_from(s, end);
            let rest = column_bounds_from(s, end);
            let all = column_bounds_from(s, from);
            assert forall|i: int| 0 <= i < all.len() implies bounds_within(
                #[trigger] all[i],
                from,
                s.len(),
            ) && all[i].0 < all[i].1 by {
                if i > 0 {
                    assert(all[i] == rest[i - 1]);
                }
            }
            assert forall|i: int, k: int|
                0 <= i < all.len() && (#[trigger] all[i]).0 <= k < all[i].1 implies !is_whitespace(
                #[trigger] s[k],
            ) by {
                if i > 0 {
                    assert(all[i] == rest[i - 1]);
                }
            }
        }
    }
}

/// No column is empty, and no column holds white space.
pub proof fn lemma_columns_hold_no_white_space(s: Seq<char>)
    ensures
        forall|i: int|
            0 <= i < split_whitespace(s).len() ==> (#[trigger] split_whitespace(s)[i]).len() > 0,
        forall|i: int, k: int|
            0 <= i < split_whitespace(s).len() && 0 <= k < (#[trigger] split_whitespace(
                s,
            )[i]).len() ==> !is_whitespace(#[trigger] split_whitespace(s)[i][k]),
{
    lemma_column_bounds_from(s, 0);
    let bounds = column_bounds(s);
    assert forall|i: int| 0 <= i < split_whitespace(s).len() implies (#[trigger] split_whitespace(
        s,
    )[i]).len() > 0 by {
        assert(bounds_within(bounds[i], 0, s.len()));
    }
    assert forall|i: int, k: int|
        0 <= i < split_whitespace(s).len() && 0 <= k < (#[trigger] split_whitespace(
            s,
        )[i]).len() implies !is_whitespace(#[trigger] split_whitespace(s)[i][k]) by {
        assert(bounds_within(bounds[i], 0, s.len()));
        assert(split_whitespace(s)[i][k] == s[bounds[i].0 + k]);
    }
}

/// What is left of a text without the white space around it neither begins
/// nor ends with white space, and all that was taken away is white space.
pub proof fn lemma_trim_has_no_blank_ends(s: Seq<char>)
    ensures
        0 <= trim_bounds(s).0 <= trim_bounds(s).1 <= s.len(),
        trim(s).len() > 0 ==> !is_whitespace(trim(s).first()) && !is_whitespace(trim(s).last()),
        trim(s).len() > 0 ==> forall|k: int|
            0 <= k < s.len() && !(trim_bounds(s).0 <= k < trim_bounds(s).1) ==> is_whitespace(
                #[trigger] s[k],
            ),
        trim(s).len() == 0 ==> forall|k: int| 0 <= k < s.len() ==> is_whitespace(#[trigger] s[k]),
{
    lemma_next_in_class(s, 0, CharClass::Visible);
    lemma_last_in_class_end(s, s.len() as int, CharClass::Visible);
}

/// Finds the lines of `text`.
pub fn line_spans(text: &Vec<char>) -> (spans: Vec<Span>)
    ensures
        all_bounds_of(spans@, 0) == line_bounds(text@),
        texts_of(text@, spans@) == lines(text@),
        all_in_text(spans@, text@.len()),
{
    let whole = Span::whole(text);
    let mut spans: Vec<Span> = Vec::new();
    let mut from: usize = 0;
    assert(all_bounds_of(spans@, 0) + line_bounds_from(text@, 0) =~= line_bounds(text@));
    while from < text.len()
        invariant
            from <= text@.len(),
            whole.start == 0,
            whole.end == text@.len(),
            whole.of(text@) == text@,
            all_bounds_of(spans@, 0) + line_bounds_from(text@, from as int) == line_bounds(text@),
            all_within(spans@, whole),
        decreases text@.len() - from,
    {
        let eol = find_in_class(text, whole, from, CharClass::Newline);
        let ghost before = spans@;
        if eol >= text.len() {
            let line = Span { start: from, end: eol };
            spans.push(line);
            assert(all_bounds_of(spans@, 0) =~= all_bounds_of(before, 0) + seq![
                bounds_of(line, 0),
            ]);
            assert(all_bounds_of(before, 0) + line_bounds_from(text@, from as int)
                =~= all_bounds_of(spans@, 0) + line_bounds_from(text@, eol as int));
            from = eol;
        } else {
            let end = if eol > from && text[eol - 1] == '\r' {
                eol - 1
            } else {
                eol
            };
            let line = Span { start: from, end };
            spans.push(line);
            assert(all_bounds_of(spans@, 0) =~= all_bounds_of(before, 0) + seq![
                bounds_of(line, 0),
            ]);
            assert(all_bounds_of(before, 0) + line_bounds_from(text@, from as int)
                =~= all_bounds_of(spans@, 0) + line_bounds_from(text@, eol + 1));
            from = eol + 1;
        }
    }
    proof {
        assert(all_bounds_of(spans@, 0) + line_bounds_from(text@, from as int) =~= all_bounds_of(
            spans@,
            0,
        ));
        lemma_texts_of_part(text@, whole, spans@);
    }
    spans
}

/// Finds the columns of the `part` of `text`.
pub fn column_spans(text: &Vec<char>, part: Span) -> (spans: Vec<Span>)
    requires
        part.within(text@.len()),
    ensures
        all_bounds_of(spans@, part.start as int) == column_bounds(part.of(text@)),
        texts_of(text@, spans@) == split_whitespace(part.of(text@)),
        all_within(spans@, part),
{
    let ghost sub = part.of(text@);
    let ghost origin = part.start as int;
    let mut spans: Vec<Span> = Vec::new();
    let mut from: usize = part.start;
    assert(all_bounds_of(spans@, origin) + column_bounds_from(sub, 0) =~= column_bounds(sub));
    while from < part.end
        invariant
            part.within(text@.len()),
            sub == part.of(text@),
            origin == part.start,
            part.start <= from <= part.end,
            all_bounds_of(spans@, origin) + column_bounds_from(sub, from - origin)
                == column_bounds(sub),
            all_within(spans@, part),
        decreases part.end - from,
    {
        let start = find_in_class(text, part, from, CharClass::Visible);
        if start >= part.end {
            from = start;
        } else {
            let end = find_in_class(text, part, start, CharClass::Whitespace);
            let column = Span { start, end };
            let ghost before = spans@;
            spans.push(column);
            proof {
                lemma_next_in_class(sub, start - origin, CharClass::Whitespace);
                assert(all_bounds_of(spans@, origin) =~= all_bounds_of(before, origin) + seq![
                    bounds_of(column, origin),
                ]);
                assert(all_bounds_of(before, origin) + column_bounds_from(sub, from - origin)
                    =~= all_bounds_of(spans@, origin) + column_bounds_from(sub, end - origin));
            }
            from = end;
        }
    }
    proof {
        assert(all_bounds_of(spans@, origin) + column_bounds_from(sub, from - origin)
            =~= all_bounds_of(spans@, origin));
        lemma_texts_of_part(text@, part, spans@);
    }
    spans
}

/// Finds what is left of the `part` of `text` without the white space around it.
pub fn trim_span(text: &Vec<char>, part: Span) -> (trimmed: Span)
    requires
        part.within(text@.len()),
    ensures
        bounds_of(trimmed, part.start as int) == trim_bounds(part.of(text@)),
        trimmed.of(text@) == trim(part.of(text@)),
        part.start <= trimmed.start <= trimmed.end <= part.end,
{
    let start = find_in_class(text, part, part.start, CharClass::Visible);
    let end = rfind_in_class_end(text, part, part.end, CharClass::Visible);
    let trimmed = if start >= end {
        Span { start: part.start, end: part.start }
    } else {
        Span { start, end }
    };
    proof {
        lemma_span_of_part(text@, part, trimmed);
    }
    trimmed
}

/// Tells whether `pattern` stands in `text` at position `at` and ends within `part`.
pub fn span_has_at(text: &Vec<char>, part: Span, at: usize, pattern: &Vec<char>) -> (r: bool)
    requires
        part.within(text@.len()),
        part.start <= at <= part.end,
    ensures
        r == occurs_at(part.of(text@), pattern@, at - part.start),
{
    if pattern.len() > part.end - at {
        return false;
    }
    let ghost sub = part.of(text@);
    let ghost rel = at - part.start;
    let mut i: usize = 0;
    while i < pattern.len()
        invariant
            part.within(text@.len()),
            sub == part.of(text@),
            rel == at - part.start,
            part.start <= at,
            at + pattern@.len() <= part.end,
            i <= pattern@.len(),
            forall|k: int| 0 <= k < i ==> text@[at + k] == #[trigger] pattern@[k],
        decreases pattern@.len() - i,
    {
        if text[at + i] != pattern[i] {
            proof {
                assert(sub.subrange(rel, rel + pattern@.len())[i as int] == text@[at + i]);
            }
            return false;
        }
        i += 1;
    }
    assert(sub.subrange(rel, rel + pattern@.len()) =~= pattern@);
    true
}

/// Tells whether the `part` of `text` begins with `pattern`.
pub fn span_starts_with(text: &Vec<char>, part: Span, pattern: &Vec<char>) -> (r: bool)
    requires
        part.within(text@.len()),
    ensures
        r == starts_with(part.of(text@), pattern@),
{
    span_has_at(text, part, part.start, pattern)
}

/// Finds, in the `part` of `text`, the first place at or after `from` where
/// `pattern` stands. Positions are those of `text`; the result is the end of
/// `part` where there is none.
pub fn find_occurrence(text: &Vec<char>, part: Span, from: usize, pattern: &Vec<char>) -> (at:
    usize)
    requires
        part.within(text@.len()),
        part.start <= from <= part.end,
    ensures
        at - part.start == next_occurrence(part.of(text@), pattern@, from - part.start),
        from <= at <= part.end,
{
    let ghost sub = part.of(text@);
    let mut at: usize = from;
    while at < part.end
        invariant
            part.within(text@.len()),
            sub == part.of(text@),
            part.start <= from <= at <= part.end,
            next_occurrence(sub, pattern@, from - part.start) == next_occurrence(
                sub,
                pattern@,
                at - part.start,
            ),
        decreases part.end - at,
    {
        if pattern.len() > part.end - at {
            return part.end;
        }
        if span_has_at(text, part, at, pattern) {
            return at;
        }
        at += 1;
    }
    at
}

/// Tells whether `pattern` stands somewhere in the `part` of `text`.
pub fn span_contains(text: &Vec<char>, part: Span, pattern: &Vec<char>) -> (r: bool)
    requires
        part.within(text@.len()),
    ensures
        r == contains(part.of(text@), pattern@),
{
    if pattern.len() == 0 {
        assert(part.of(text@).subrange(0, 0) =~= pattern@);
        assert(occurs_at(part.of(text@), pattern@, 0));
        return true;
    }
    let at = find_occurrence(text, part, part.start, pattern);
    proof {
        lemma_next_occurrence(part.of(text@), pattern@, 0);
    }
    at < part.end
}

/// Finds the fields of the `part` of `text` between the occurrences of `delimiter`.
pub fn field_spans(text: &Vec<char>, part: Span, delimiter: &Vec<char>) -> (spans: Vec<Span>)
    requires
        part.within(text@.len()),
    ensures
        all_bounds_of(spans@, part.start as int) == field_bounds(part.of(text@), delimiter@),
        texts_of(text@, spans@) == split(part.of(text@), delimiter@),
        all_within(spans@, part),
        delimiter@.len() > 0 ==> spans@.len() >= 1,
{
    let ghost sub = part.of(text@);
    let ghost origin = part.start as int;
    let mut spans: Vec<Span> = Vec::new();
    if delimiter.len() == 0 {
        proof {
            assert(all_bounds_of(spans@, origin) =~= field_bounds(sub, delimiter@));
            lemma_texts_of_part(text@, part, spans@);
        }
        return spans;
    }
    let mut from: usize = part.start;
    assert(all_bounds_of(spans@, origin) + field_bounds_from(sub, delimiter@, 0) =~= field_bounds(
        sub,
        delimiter@,
    ));
    loop
        invariant_except_break
            part.within(text@.len()),
            sub == part.of(text@),
            origin == part.start,
            delimiter@.len() > 0,
            part.start <= from <= part.end,
            all_bounds_of(spans@, origin) + field_bounds_from(sub, delimiter@, from - origin)
                == field_bounds(sub, delimiter@),
            all_within(spans@, part),
        ensures
            all_bounds_of(spans@, origin) == field_bounds(sub, delimiter@),
            all_within(spans@, part),
            spans@.len() >= 1,
        decreases part.end - from,
    {
        let at = find_occurrence(text, part, from, delimiter);
        let field = Span { start: from, end: at };
        let ghost before = spans@;
        spans.push(field);
        proof {
            lemma_next_occurrence(sub, delimiter@, from - origin);
            assert(all_bounds_of(spans@, origin) =~= all_bounds_of(before, origin) + seq![
                bounds_of(field, origin),
            ]);
        }
        if at >= part.end {
            assert(all_bounds_of(before, origin) + field_bounds_from(
                sub,
                delimiter@,
                from - origin,
            ) =~= all_bounds_of(spans@, origin));
            break;
        }
        assert(all_bounds_of(before, origin) + field_bounds_from(sub, delimiter@, from - origin)
            =~= all_bounds_of(spans@, origin) + field_bounds_from(
            sub,
            delimiter@,
            at - origin + delimiter@.len(),
        ));
        from = at + delimiter.len();
    }
    proof {
        lemma_texts_of_part(text@, part, spans@);
    }
    spans
}

} // verus!
