//! Strings as sequences of characters.

use crate::scan::Span;
use vstd::prelude::*;
use vstd::string::StrSliceExecFns;

verus! {

/// The characters of `s`, in order.
pub fn to_chars(s: &str) -> (chars: Vec<char>)
    ensures
        chars@ == s@,
{
    let mut chars: Vec<char> = Vec::new();
    for c in it: s.chars()
        invariant
            chars@ == it.seq().take(it.index() as int),
    {
        chars.push(c);
    }
    chars
}

/// The characters of `s` that `span` covers, as a string of their own.
pub fn span_to_string(s: &str, span: Span) -> (r: String)
    requires
        span.within(s@.len()),
    ensures
        r@ == span.of(s@),
{
    s.substring_char(span.start, span.end).to_owned()
}

} // verus!
