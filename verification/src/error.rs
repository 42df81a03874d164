//! The error that the probes report.

use vstd::prelude::*;
use vstd::string::StringExecFns;

verus! {

/// A failure with the message that tells of it.
#[derive(Debug)]
pub struct CodeAssistantError(String);

impl View for CodeAssistantError {
    type V = Seq<char>;

    /// The message.
    closed spec fn view(&self) -> Seq<char> {
        self.0@
    }
}

/// The message that names what was being done and why it failed:
/// the two joined by a colon and a blank.
pub open spec fn context_message(context: Seq<char>, cause: Seq<char>) -> Seq<char> {
    context + seq![':', ' '] + cause
}

impl CodeAssistantError {
    /// A failure with `message`.
    pub fn new(message: String) -> (e: Self)
        ensures
            e@ == message@,
    {
        CodeAssistantError(message)
    }

    /// A failure of `context` for the reason `cause`.
    pub fn with_context(context: &str, cause: &str) -> (e: Self)
        ensures
            e@ == context_message(context@, cause@),
    {
        proof {
            reveal_strlit(": ");
        }
        CodeAssistantError(String::from_str(context).concat(": ").concat(cause))
    }

    /// The message.
    pub fn message(&self) -> (m: String)
        ensures
            m@ == self@,
    {
        self.0.clone()
    }
}

} // verus!
