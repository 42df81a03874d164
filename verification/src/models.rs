//! The models that the model manager lists.

use crate::chars::{span_to_string, to_chars};
use crate::command::{decode_text, CommandOutput, Invocation, SpawnError};
use crate::error::{context_message, CodeAssistantError};
use crate::layout::{
    all_in_text, column_spans, line_spans, lines, split_whitespace, texts_of,
};
use vstd::prelude::*;
use vstd::string::StringExecFns;
use vstd::utf8::{decode_utf8, valid_utf8};

verus! {

/// A model of the list.
#[derive(Debug)]
pub struct ModelEntry {
    pub name: String,
    pub size: String,
}

/// A model of the list as a value of the model.
pub struct ModelRow {
    pub name: Seq<char>,
    pub size: Seq<char>,
}

impl View for ModelEntry {
    type V = ModelRow;

    open spec fn view(&self) -> ModelRow {
        ModelRow { name: self.name@, size: self.size@ }
    }
}

/// The rows that `entries` stand for.
pub open spec fn rows_of(entries: Seq<ModelEntry>) -> Seq<ModelRow> {
    Seq::new(entries.len(), |i: int| entries[i]@)
}

/// The model that `line` tells of: its first two columns, where it has two or more.
pub open spec fn row_in(line: Seq<char>) -> Option<ModelRow> {
    let columns = split_whitespace(line);
    if columns.len() >= 2 {
        Some(ModelRow { name: columns[0], size: columns[1] })
    } else {
        None
    }
}

/// The models that `lines` tell of, in order; a line that tells of none is passed over.
pub open spec fn rows_in(lines: Seq<Seq<char>>) -> Seq<ModelRow>
    decreases lines.len(),
{
    if lines.len() == 0 {
        Seq::empty()
    } else {
        match row_in(lines.last()) {
            Some(row) => rows_in(lines.drop_last()).push(row),
            None => rows_in(lines.drop_last()),
        }
    }
}

/// The models that the list `output` tells of: those of its lines but the
/// first, which holds the headings.
pub open spec fn models_listed(output: Seq<char>) -> Seq<ModelRow> {
    let all = lines(output);
    if all.len() == 0 {
        Seq::empty()
    } else {
        rows_in(all.subrange(1, all.len() as int))
    }
}

/// The text of the failure to start the model manager.
pub open spec fn list_failure() -> Seq<char> {
    "Failed to execute ollama list command"@
}

/// What the run of the model manager comes to: the models that it listed,
/// or the message of the failure to start it. Output that is no UTF-8 lists
/// no model and is no failure.
pub open spec fn listing_of(run: Result<CommandOutput, SpawnError>) -> Result<
    Seq<ModelRow>,
    Seq<char>,
> {
    match run {
        Ok(output) => if valid_utf8(output.stdout@) {
            Ok(models_listed(decode_utf8(output.stdout@)))
        } else {
            Ok(Seq::empty())
        },
        Err(e) => Err(context_message(list_failure(), e.reason@)),
    }
}

/// The command that lists the models: `ollama list`.
pub fn models_probe() -> (probe: Invocation)
    ensures
        probe.program@ == "ollama"@,
        probe.argument_texts() == seq!["list"@],
{
    let mut arguments: Vec<String> = Vec::new();
    arguments.push(String::from_str("list"));
    Invocation { program: String::from_str("ollama"), arguments }
}

/// Reads the models from the list that the model manager printed.
pub fn parse_model_list(output: &str) -> (entries: Vec<ModelEntry>)
    ensures
        rows_of(entries@) == models_listed(output@),
        entries@.len() == models_listed(output@).len(),
{
    let text = to_chars(output);
    let all = line_spans(&text);
    let mut entries: Vec<ModelEntry> = Vec::new();
    if all.len() == 0 {
        assert(rows_of(entries@) =~= Seq::<ModelRow>::empty());
        return entries;
    }
    let ghost rows = lines(text@).subrange(1, all@.len() as int);
    let mut i: usize = 1;
    assert(rows.take(0) =~= Seq::<Seq<char>>::empty());
    assert(rows_of(entries@) =~= rows_in(rows.take(0)));
    while i < all.len()
        invariant
            1 <= i <= all@.len(),
            text@ == output@,
            texts_of(text@, all@) == lines(text@),
            all_in_text(all@, text@.len()),
            rows == lines(text@).subrange(1, all@.len() as int),
            rows_of(entries@) == rows_in(rows.take(i - 1)),
        decreases all@.len() - i,
    {
        let line = all[i];
        let columns = column_spans(&text, line);
        proof {
            assert(rows.take(i as int).drop_last() =~= rows.take(i - 1));
            assert(rows.take(i as int).last() == line.of(text@));
        }
        if columns.len() >= 2 {
            assert(columns@[0].of(text@) == texts_of(text@, columns@)[0]);
            assert(columns@[1].of(text@) == texts_of(text@, columns@)[1]);
            let ghost before = entries@;
            let entry = ModelEntry {
                name: span_to_string(output, columns[0]),
                size: span_to_string(output, columns[1]),
            };
            entries.push(entry);
            assert(rows_of(entries@) =~= rows_of(before).push(entry@));
        }
        i += 1;
    }
    assert(rows.take(i - 1) =~= rows);
    entries
}

/// Lists the models from the run of the model manager. Fails where it could
/// not be started, and on nothing else: a line that tells of no model is
/// passed over, and output that is no UTF-8 lists no model.
pub fn get_ollama_models(run: &Result<CommandOutput, SpawnError>) -> (r: Result<
    Vec<ModelEntry>,
    CodeAssistantError,
>)
    ensures
        listing_of(*run) matches Ok(rows) ==> r is Ok && rows_of(r->Ok_0@) == rows
            && r->Ok_0@.len() == rows.len(),
        listing_of(*run) matches Err(message) ==> r is Err && r->Err_0@ == message,
{
    match run {
        Ok(output) => match decode_text(output.stdout.as_slice()) {
            Some(text) => Ok(parse_model_list(text)),
            None => {
                let none: Vec<ModelEntry> = Vec::new();
                assert(rows_of(none@) =~= Seq::<ModelRow>::empty());
                Ok(none)
            },
        },
        Err(e) => Err(
            CodeAssistantError::with_context(
                "Failed to execute ollama list command",
                e.reason.as_str(),
            ),
        ),
    }
}

} // verus!
