//! Classes of characters and the search for the next character of a class.

use vstd::prelude::*;

verus! {

/// The classes of characters that the text layouts are built on.
#[derive(Clone, Copy, PartialEq, Eq, Structural, Debug)]
pub enum CharClass {
    /// The line feed.
    Newline,
    /// A character with the Unicode property `White_Space`.
    Whitespace,
    /// Any character without that property.
    Visible,
    /// An ASCII decimal digit.
    Digit,
    /// Anything but an ASCII decimal digit.
    NonDigit,
}

/// Whether `c` has the Unicode property `White_Space`.
pub open spec fn is_whitespace(c: char) -> bool {
    let u = c as u32;
    ||| 0x09 <= u <= 0x0D
    ||| u == 0x20
    ||| u == 0x85
    ||| u == 0xA0
    ||| u == 0x1680
    ||| 0x2000 <= u <= 0x200A
    ||| u == 0x2028
    ||| u == 0x2029
    ||| u == 0x202F
    ||| u == 0x205F
    ||| u == 0x3000
}

/// Whether `c` is one of `0` to `9`.
pub open spec fn is_digit(c: char) -> bool {
    0x30 <= c as u32 <= 0x39
}

/// Whether `c` belongs to `class`.
pub open spec fn in_class(c: char, class: CharClass) -> bool {
    match class {
        CharClass::Newline => c == '\n',
        CharClass::Whitespace => is_whitespace(c),
        CharClass::Visible => !is_whitespace(c),
        CharClass::Digit => is_digit(c),
        CharClass::NonDigit => !is_digit(c),
    }
}

/// The least position at or after `from` that holds a character of `class`,
/// or the length of `s` where there is none.
pub open spec fn next_in_class(s: Seq<char>, from: int, class: CharClass) -> int
    decreases s.len() - from,
{
    if from < 0 || from >= s.len() {
        s.len() as int
    } else if in_class(s[from], class) {
        from
    } else {
        next_in_class(s, from + 1, class)
    }
}

/// The end of the last character of `class` before `upto`, or 0 where there is none.
pub open spec fn last_in_class_end(s: Seq<char>, upto: int, class: CharClass) -> int
    decreases upto,
{
    if upto <= 0 || upto > s.len() {
        0
    } else if in_class(s[upto - 1], class) {
        upto
    } else {
        last_in_class_end(s, upto - 1, class)
    }
}

/// `next_in_class` stays within the text, and no character before it is of the class.
pub proof fn lemma_next_in_class(s: Seq<char>, from: int, class: CharClass)
    requires
        0 <= from <= s.len(),
    ensures
        from <= next_in_class(s, from, class) <= s.len(),
        next_in_class(s, from, class) < s.len() ==> in_class(
            s[next_in_class(s, from, class)],
            class,
        ),
        forall|k: int| from <= k < next_in_class(s, from, class) ==> !in_class(#[trigger] s[k], class),
    decreases s.len() - from,
{
    if from < s.len() && !in_class(s[from], class) {
        lemma_next_in_class(s, from + 1, class);
    }
}

/// A position is `next_in_class` when nothing before it is of the class
/// and it is the end of the text or holds a character of the class.
pub proof fn lemma_next_in_class_is(s: Seq<char>, from: int, at: int, class: CharClass)
    requires
        0 <= from <= at <= s.len(),
        forall|k: int| from <= k < at ==> !in_class(#[trigger] s[k], class),
        at < s.len() ==> in_class(s[at], class),
    ensures
        next_in_class(s, from, class) == at,
    decreases at - from,
{
    if from < at {
        lemma_next_in_class_is(s, from + 1, at, class);
    }
}

/// `last_in_class_end` stays within `upto`, and no character after it is of the class.
pub proof fn lemma_last_in_class_end(s: Seq<char>, upto: int, class: CharClass)
    requires
        0 <= upto <= s.len(),
    ensures
        0 <= last_in_class_end(s, upto, class) <= upto,
        last_in_class_end(s, upto, class) > 0 ==> in_class(
            s[last_in_class_end(s, upto, class) - 1],
            class,
        ),
        forall|k: int| last_in_class_end(s, upto, class) <= k < upto ==> !in_class(#[trigger] s[k], class),
    decreases upto,
{
    if upto > 0 && !in_class(s[upto - 1], class) {
        lemma_last_in_class_end(s, upto - 1, class);
    }
}

/// Tells whether `c` has the Unicode property `White_Space`.
pub fn char_is_whitespace(c: char) -> (r: bool)
    ensures
        r == is_whitespace(c),
{
    let u: u32 = c as u32;
    (0x09 <= u && u <= 0x0D) || u == 0x20 || u == 0x85 || u == 0xA0 || u == 0x1680 || (0x2000 <= u
        && u <= 0x200A) || u == 0x2028 || u == 0x2029 || u == 0x202F || u == 0x205F || u == 0x3000
}

/// Tells whether `c` is an ASCII decimal digit.
pub fn char_is_digit(c: char) -> (r: bool)
    ensures
        r == is_digit(c),
{
    let u: u32 = c as u32;
    0x30 <= u && u <= 0x39
}

/// Tells whether `c` belongs to `class`.
pub fn char_in_class(c: char, class: CharClass) -> (r: bool)
    ensures
        r == in_class(c, class),
{
    match class {
        CharClass::Newline => c == '\n',
        CharClass::Whitespace => char_is_whitespace(c),
        CharClass::Visible => !char_is_whitespace(c),
        CharClass::Digit => char_is_digit(c),
        CharClass::NonDigit => !char_is_digit(c),
    }
}

/// A stretch of a text: the characters from `start` up to, and without, `end`.
#[derive(Clone, Copy, PartialEq, Eq, Structural, Debug)]
pub struct Span {
    pub start: usize,
    pub end: usize,
}

impl Span {
    /// Whether the stretch lies in a text of `len` characters.
    pub open spec fn within(self, len: nat) -> bool {
        self.start <= self.end <= len
    }

    /// The characters of `s` that the stretch covers.
    pub open spec fn of(self, s: Seq<char>) -> Seq<char> {
        s.subrange(self.start as int, self.end as int)
    }

    /// The stretch that covers all of `text`.
    pub fn whole(text: &Vec<char>) -> (r: Span)
        ensures
            r.within(text@.len()),
            r.start == 0,
            r.end == text@.len(),
            r.of(text@) == text@,
    {
        assert(text@.subrange(0, text@.len() as int) =~= text@);
        Span { start: 0, end: text.len() }
    }
}

/// A stretch of a stretch, taken from the whole text, holds the same characters
/// as the stretch at the shifted positions in the part.
pub proof fn lemma_span_of_part(s: Seq<char>, part: Span, inner: Span)
    requires
        part.within(s.len()),
        part.start <= inner.start <= inner.end <= part.end,
    ensures
        inner.of(s) == part.of(s).subrange(inner.start - part.start, inner.end - part.start),
{
    assert(inner.of(s) =~= part.of(s).subrange(
        inner.start - part.start,
        inner.end - part.start,
    ));
}

/// Finds, in the `part` of `text`, the first character of `class` at or after `from`.
/// Positions are those of `text`; the result is the end of `part` where there is none.
pub fn find_in_class(text: &Vec<char>, part: Span, from: usize, class: CharClass) -> (at: usize)
    requires
        part.within(text@.len()),
        part.start <= from <= part.end,
    ensures
        at - part.start == next_in_class(part.of(text@), from - part.start, class),
        from <= at <= part.end,
{
    let mut at: usize = from;
    while at < part.end && !char_in_class(text[at], class)
        invariant
            part.within(text@.len()),
            part.start <= from <= at <= part.end,
            forall|k: int| from <= k < at ==> !in_class(#[trigger] text@[k], class),
        decreases part.end - at,
    {
        at += 1;
    }
    proof {
        let sub = part.of(text@);
        assert forall|k: int| from - part.start <= k < at - part.start implies !in_class(
            #[trigger] sub[k],
            class,
        ) by {
            assert(sub[k] == text@[k + part.start]);
        }
        lemma_next_in_class_is(sub, from - part.start, at - part.start, class);
    }
    at
}

/// Finds, in the `part` of `text`, the end of the last character of `class` before `upto`.
/// Positions are those of `text`; the result is the start of `part` where there is none.
pub fn rfind_in_class_end(text: &Vec<char>, part: Span, upto: usize, class: CharClass) -> (end:
    usize)
    requires
        part.within(text@.len()),
        part.start <= upto <= part.end,
    ensures
        end - part.start == last_in_class_end(part.of(text@), upto - part.start, class),
        part.start <= end <= upto,
{
    let mut end: usize = upto;
    while end > part.start && !char_in_class(text[end - 1], class)
        invariant
            part.within(text@.len()),
            part.start <= end <= upto <= part.end,
            last_in_class_end(part.of(text@), upto - part.start, class) == last_in_class_end(
                part.of(text@),
                end - part.start,
                class,
            ),
        decreases end,
    {
        assert(part.of(text@)[end - part.start - 1] == text@[end - 1]);
        end -= 1;
    }
    proof {
        if end > part.start {
            assert(part.of(text@)[end - part.start - 1] == text@[end - 1]);
        }
    }
    end
}

} // verus!
