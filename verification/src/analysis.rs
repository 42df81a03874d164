//! A rough summary of script source, made line by line from keywords.

use crate::chars::to_chars;
use crate::layout::{
    all_in_text, contains, line_spans, lines, span_contains, span_starts_with, starts_with,
    texts_of, trim, trim_span,
};
use vstd::prelude::*;

verus! {

/// What a line of source can count for.
#[derive(Clone, Copy, PartialEq, Eq, Structural, Debug)]
pub enum Marker {
    /// The line opens a function definition.
    Function,
    /// The line opens a class definition.
    Class,
    /// The line holds a branching keyword.
    Branch,
}

/// The summary of a piece of source.
#[derive(Clone, Copy, PartialEq, Eq, Structural, Debug)]
pub struct CodeMetrics {
    /// How many lines the source has.
    pub lines: usize,
    /// How many lines open a function definition.
    pub functions: usize,
    /// How many lines open a class definition.
    pub classes: usize,
    /// How many lines hold a branching keyword.
    pub complexity: usize,
}

/// Whether `line` counts for `marker`. A definition is known by the keyword
/// and a blank at the start of the line, white space aside. A branch is known
/// by one of four keywords, each with a blank behind it, anywhere in the line
/// without the white space around it, be it inside a longer word or a string.
pub open spec fn marks(line: Seq<char>, marker: Marker) -> bool {
    let body = trim(line);
    match marker {
        Marker::Function => starts_with(body, "def "@),
        Marker::Class => starts_with(body, "class "@),
        Marker::Branch => {
            ||| contains(body, "if "@)
            ||| contains(body, "for "@)
            ||| contains(body, "while "@)
            ||| contains(body, "except "@)
        },
    }
}

/// How many of `lines` count for `marker`.
pub open spec fn count_marked(lines: Seq<Seq<char>>, marker: Marker) -> nat
    decreases lines.len(),
{
    if lines.len() == 0 {
        0
    } else {
        count_marked(lines.drop_last(), marker) + if marks(lines.last(), marker) {
            1nat
        } else {
            0nat
        }
    }
}

/// No more lines are marked than there are.
pub proof fn lemma_count_marked_bound(lines: Seq<Seq<char>>, marker: Marker)
    ensures
        count_marked(lines, marker) <= lines.len(),
    decreases lines.len(),
{
    if lines.len() > 0 {
        lemma_count_marked_bound(lines.drop_last(), marker);
    }
}

/// No line opens both a function and a class definition.
pub proof fn lemma_function_excludes_class(line: Seq<char>)
    ensures
        !(marks(line, Marker::Function) && marks(line, Marker::Class)),
{
    reveal_strlit("def ");
    reveal_strlit("class ");
    let body = trim(line);
    if marks(line, Marker::Function) && marks(line, Marker::Class) {
        assert(body.subrange(0, 4)[0] == 'd');
        assert(body.subrange(0, 6)[0] == 'c');
    }
}

/// Summarises `code`: counts its lines, those that open a function or a class
/// definition, and those that hold a branching keyword.
pub fn analyze_code(code: &str) -> (metrics: CodeMetrics)
    ensures
        metrics.lines == lines(code@).len(),
        metrics.functions == count_marked(lines(code@), Marker::Function),
        metrics.classes == count_marked(lines(code@), Marker::Class),
        metrics.complexity == count_marked(lines(code@), Marker::Branch),
{
    let text = to_chars(code);
    let spans = line_spans(&text);
    let def_keyword = to_chars("def ");
    let class_keyword = to_chars("class ");
    let if_keyword = to_chars("if ");
    let for_keyword = to_chars("for ");
    let while_keyword = to_chars("while ");
    let except_keyword = to_chars("except ");
    proof {
        reveal_strlit("if ");
        reveal_strlit("for ");
        reveal_strlit("while ");
        reveal_strlit("except ");
    }
    let ghost all = lines(text@);
    let mut functions: usize = 0;
    let mut classes: usize = 0;
    let mut complexity: usize = 0;
    let mut i: usize = 0;
    while i < spans.len()
        invariant
            i <= spans@.len(),
            all == texts_of(text@, spans@),
            all_in_text(spans@, text@.len()),
            def_keyword@ == "def "@,
            class_keyword@ == "class "@,
            if_keyword@ == "if "@,
            for_keyword@ == "for "@,
            while_keyword@ == "while "@,
            except_keyword@ == "except "@,
            if_keyword@.len() > 0,
            for_keyword@.len() > 0,
            while_keyword@.len() > 0,
            except_keyword@.len() > 0,
            functions == count_marked(all.take(i as int), Marker::Function),
            classes == count_marked(all.take(i as int), Marker::Class),
            complexity == count_marked(all.take(i as int), Marker::Branch),
        decreases spans@.len() - i,
    {
        let body = trim_span(&text, spans[i]);
        proof {
            assert(all.take(i + 1).drop_last() =~= all.take(i as int));
            assert(all.take(i + 1).last() == spans@[i as int].of(text@));
            lemma_function_excludes_class(all[i as int]);
            lemma_count_marked_bound(all.take(i as int), Marker::Function);
            lemma_count_marked_bound(all.take(i as int), Marker::Class);
            lemma_count_marked_bound(all.take(i as int), Marker::Branch);
        }
        if span_starts_with(&text, body, &def_keyword) {
            functions += 1;
        } else if span_starts_with(&text, body, &class_keyword) {
            classes += 1;
        }
        if span_contains(&text, body, &if_keyword) || span_contains(&text, body, &for_keyword)
            || span_contains(&text, body, &while_keyword) || span_contains(
            &text,
            body,
            &except_keyword,
        ) {
            complexity += 1;
        }
        i += 1;
    }
    assert(all.take(i as int) =~= all);
    CodeMetrics { lines: spans.len(), functions, classes, complexity }
}

} // verus!
