//! Numbers as the tools print them: decimal integers, and the notation of
//! decimal fractions.

use crate::chars::to_chars;
use crate::scan::{
    char_is_digit, find_in_class, is_digit, lemma_next_in_class, lemma_span_of_part,
    next_in_class, CharClass, Span,
};
use vstd::prelude::*;

verus! {

/// The number that the digit `c` stands for.
pub open spec fn digit_value(c: char) -> nat {
    if is_digit(c) {
        (c as u32 - 0x30) as nat
    } else {
        0
    }
}

/// Whether `s` holds decimal digits only.
pub open spec fn all_digits(s: Seq<char>) -> bool {
    forall|i: int| 0 <= i < s.len() ==> is_digit(#[trigger] s[i])
}

/// The number that the digits of `s` write in base ten; 0 for no digits.
pub open spec fn digits_value(s: Seq<char>) -> nat
    decreases s.len(),
{
    if s.len() == 0 {
        0
    } else {
        digits_value(s.drop_last()) * 10 + digit_value(s.last())
    }
}

/// Whether `s` begins with a plus or a minus sign.
pub open spec fn has_sign(s: Seq<char>) -> bool {
    s.len() > 0 && (s[0] == '+' || s[0] == '-')
}

/// `s` without the sign that it begins with, if it begins with one.
pub open spec fn unsigned_part(s: Seq<char>) -> Seq<char> {
    if has_sign(s) {
        s.subrange(1, s.len() as int)
    } else {
        s
    }
}

/// The integer that `s` writes: an optional sign and then one decimal digit
/// or more, with nothing before, between or after them. `None` for any other text.
pub open spec fn decimal_integer(s: Seq<char>) -> Option<int> {
    let digits = unsigned_part(s);
    if digits.len() == 0 || !all_digits(digits) {
        None
    } else if s[0] == '-' {
        Some(-(digits_value(digits) as int))
    } else {
        Some(digits_value(digits) as int)
    }
}

/// The integer that `s` writes, where it fits in 64 bits with a sign.
pub open spec fn parse_i64(s: Seq<char>) -> Option<i64> {
    match decimal_integer(s) {
        Some(v) => if i64::MIN <= v <= i64::MAX {
            Some(v as i64)
        } else {
            None
        },
        None => None,
    }
}

/// Digits that begin a longer run of digits write no larger a number.
pub proof fn lemma_digits_value_prefix(s: Seq<char>, k: int)
    requires
        0 <= k <= s.len(),
    ensures
        digits_value(s.take(k)) <= digits_value(s),
    decreases s.len(),
{
    if k == s.len() {
        assert(s.take(k) =~= s);
    } else {
        assert(s.drop_last().take(k) =~= s.take(k));
        lemma_digits_value_prefix(s.drop_last(), k);
    }
}

/// Reads the `part` of `text` as a decimal integer of 64 bits.
pub fn span_parse_i64(text: &Vec<char>, part: Span) -> (r: Option<i64>)
    requires
        part.within(text@.len()),
    ensures
        r == parse_i64(part.of(text@)),
{
    let ghost s = part.of(text@);
    let run = skip_sign(text, part);
    if run.start >= run.end {
        return None;
    }
    let ghost digits = run.of(text@);
    assert(s[0] == text@[part.start as int]);
    let negative = text[part.start] == '-';
    // The number read so far; it is given up once it is beyond every 64-bit integer.
    let limit: i128 = 9223372036854775808;
    let mut acc: i128 = 0;
    let mut pos: usize = run.start;
    assert(digits.take(0) =~= Seq::<char>::empty());
    while pos < run.end
        invariant
            run.within(text@.len()),
            run.start <= pos <= run.end,
            s == part.of(text@),
            s.len() > 0,
            digits == run.of(text@),
            digits == unsigned_part(s),
            negative == (s[0] == '-'),
            limit == 9223372036854775808,
            0 <= acc <= limit,
            acc == digits_value(digits.take(pos - run.start)),
            all_digits(digits.take(pos - run.start)),
        decreases run.end - pos,
    {
        let c = text[pos];
        let ghost upto = digits.take(pos - run.start + 1);
        proof {
            assert(upto.drop_last() =~= digits.take(pos - run.start));
            assert(upto.last() == c);
            assert(digits[pos - run.start] == c);
        }
        if !char_is_digit(c) {
            return None;
        }
        let d: i128 = (c as u32 - 0x30) as i128;
        assert(d == digit_value(c));
        acc = acc * 10 + d;
        if acc > limit {
            proof {
                if all_digits(digits) {
                    lemma_digits_value_prefix(digits, pos - run.start + 1);
                }
            }
            return None;
        }
        pos += 1;
    }
    assert(digits.take(pos - run.start) =~= digits);
    if negative {
        Some((-acc) as i64)
    } else if acc == limit {
        None
    } else {
        Some(acc as i64)
    }
}

/// `c` as a small letter, where it is a capital letter of ASCII; else `c`.
pub open spec fn to_lower(c: char) -> char {
    if 0x41 <= c as u32 <= 0x5A {
        (c as u32 + 0x20) as char
    } else {
        c
    }
}

/// Whether `s` is `word` but for the case of its ASCII letters,
/// where `word` is written in small letters.
pub open spec fn is_word(s: Seq<char>, word: Seq<char>) -> bool {
    s.len() == word.len() && forall|i: int| 0 <= i < s.len() ==> to_lower(#[trigger] s[i]) == word[i]
}

/// Whether `s` is the exponent of a decimal fraction: the letter `e`, small
/// or capital, an optional sign, and one digit or more.
pub open spec fn is_exponent(s: Seq<char>) -> bool {
    s.len() > 0 && (s[0] == 'e' || s[0] == 'E') && {
        let digits = unsigned_part(s.subrange(1, s.len() as int));
        digits.len() > 0 && all_digits(digits)
    }
}

/// Whether `s` writes a number without a sign: digits with at most one point
/// before, between or after them, at least one digit in all, and then an
/// exponent or nothing.
pub open spec fn is_unsigned_decimal(s: Seq<char>) -> bool {
    let whole_end = next_in_class(s, 0, CharClass::NonDigit);
    let has_point = whole_end < s.len() && s[whole_end] == '.';
    let fraction_start = if has_point {
        whole_end + 1
    } else {
        whole_end
    };
    let fraction_end = next_in_class(s, fraction_start, CharClass::NonDigit);
    let digits = whole_end + (fraction_end - fraction_start);
    digits > 0 && (fraction_end >= s.len() || is_exponent(
        s.subrange(fraction_end, s.len() as int),
    ))
}

/// Whether `s` is in the notation of decimal fractions: an optional sign, and
/// then either a number as `is_unsigned_decimal` has it or one of the words
/// `inf`, `infinity` and `nan` in any case of letters.
pub open spec fn is_decimal_fraction(s: Seq<char>) -> bool {
    let body = unsigned_part(s);
    ||| is_unsigned_decimal(body)
    ||| is_word(body, "inf"@)
    ||| is_word(body, "infinity"@)
    ||| is_word(body, "nan"@)
}

/// `c` as a small letter, where it is a capital letter of ASCII.
pub fn char_to_lower(c: char) -> (r: char)
    ensures
        r == to_lower(c),
{
    if 'A' <= c && c <= 'Z' {
        let code: u8 = c as u8;
        (code + 0x20) as char
    } else {
        c
    }
}

/// Steps over the sign at the start of the `part` of `text`, if there is one.
pub fn skip_sign(text: &Vec<char>, part: Span) -> (rest: Span)
    requires
        part.within(text@.len()),
    ensures
        rest.of(text@) == unsigned_part(part.of(text@)),
        part.start <= rest.start <= rest.end,
        rest.end == part.end,
{
    if part.start < part.end && (text[part.start] == '+' || text[part.start] == '-') {
        let rest = Span { start: part.start + 1, end: part.end };
        proof {
            assert(part.of(text@)[0] == text@[part.start as int]);
            lemma_span_of_part(text@, part, rest);
        }
        rest
    } else {
        proof {
            if part.start < part.end {
                assert(part.of(text@)[0] == text@[part.start as int]);
            }
        }
        part
    }
}

/// Tells whether the `part` of `text` holds decimal digits only.
pub fn span_all_digits(text: &Vec<char>, part: Span) -> (r: bool)
    requires
        part.within(text@.len()),
    ensures
        r == all_digits(part.of(text@)),
{
    let at = find_in_class(text, part, part.start, CharClass::NonDigit);
    proof {
        lemma_next_in_class(part.of(text@), 0, CharClass::NonDigit);
    }
    at >= part.end
}

/// Tells whether the `part` of `text` is `word` but for the case of letters.
pub fn span_is_word(text: &Vec<char>, part: Span, word: &Vec<char>) -> (r: bool)
    requires
        part.within(text@.len()),
    ensures
        r == is_word(part.of(text@), word@),
{
    if part.end - part.start != word.len() {
        return false;
    }
    let ghost s = part.of(text@);
    let mut i: usize = 0;
    while i < word.len()
        invariant
            part.within(text@.len()),
            s == part.of(text@),
            part.end - part.start == word@.len(),
            i <= word@.len(),
            forall|k: int| 0 <= k < i ==> to_lower(#[trigger] s[k]) == word@[k],
        decreases word@.len() - i,
    {
        assert(s[i as int] == text@[part.start + i]);
        if char_to_lower(text[part.start + i]) != word[i] {
            return false;
        }
        i += 1;
    }
    true
}

/// Tells whether the `part` of `text` is the exponent of a decimal fraction.
pub fn span_is_exponent(text: &Vec<char>, part: Span) -> (r: bool)
    requires
        part.within(text@.len()),
    ensures
        r == is_exponent(part.of(text@)),
{
    if part.start >= part.end {
        return false;
    }
    assert(part.of(text@)[0] == text@[part.start as int]);
    if text[part.start] != 'e' && text[part.start] != 'E' {
        return false;
    }
    let tail = Span { start: part.start + 1, end: part.end };
    proof {
        lemma_span_of_part(text@, part, tail);
    }
    let digits = skip_sign(text, tail);
    digits.start < digits.end && span_all_digits(text, digits)
}

/// Tells whether the `part` of `text` writes a number without a sign.
pub fn span_is_unsigned_decimal(text: &Vec<char>, part: Span) -> (r: bool)
    requires
        part.within(text@.len()),
    ensures
        r == is_unsigned_decimal(part.of(text@)),
{
    let whole_end = find_in_class(text, part, part.start, CharClass::NonDigit);
    proof {
        if whole_end < part.end {
            assert(part.of(text@)[whole_end - part.start] == text@[whole_end as int]);
        }
    }
    let has_point = whole_end < part.end && text[whole_end] == '.';
    let fraction_start = if has_point {
        whole_end + 1
    } else {
        whole_end
    };
    let fraction_end = find_in_class(text, part, fraction_start, CharClass::NonDigit);
    if (whole_end - part.start) + (fraction_end - fraction_start) == 0 {
        return false;
    }
    if fraction_end >= part.end {
        return true;
    }
    let tail = Span { start: fraction_end, end: part.end };
    proof {
        lemma_span_of_part(text@, part, tail);
    }
    span_is_exponent(text, tail)
}

/// Tells whether the `part` of `text` is in the notation of decimal fractions.
pub fn span_is_decimal_fraction(text: &Vec<char>, part: Span) -> (r: bool)
    requires
        part.within(text@.len()),
    ensures
        r == is_decimal_fraction(part.of(text@)),
{
    let body = skip_sign(text, part);
    if span_is_unsigned_decimal(text, body) {
        return true;
    }
    let inf = to_chars("inf");
    let infinity = to_chars("infinity");
    let nan = to_chars("nan");
    span_is_word(text, body, &inf) || span_is_word(text, body, &infinity) || span_is_word(
        text,
        body,
        &nan,
    )
}

} // verus!
