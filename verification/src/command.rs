//! What a finished command leaves behind, and its output as text.

use vstd::prelude::*;
use vstd::string::StringSliceAdditionalSpecFns;
use vstd::utf8::{decode_utf8, encode_utf8_decode_utf8, valid_utf8};

verus! {

/// What a command that ran to its end left behind.
#[derive(Debug)]
pub struct CommandOutput {
    /// What it wrote to its standard output.
    pub stdout: Vec<u8>,
    /// What it wrote to its standard error.
    pub stderr: Vec<u8>,
    /// The status it ended with; `None` where a signal ended it.
    pub exit_code: Option<i32>,
}

/// A program to run, with the arguments to hand to it in order.
#[derive(Debug)]
pub struct Invocation {
    pub program: String,
    pub arguments: Vec<String>,
}

impl Invocation {
    /// The arguments as a value of the model.
    pub open spec fn argument_texts(&self) -> Seq<Seq<char>> {
        Seq::new(self.arguments@.len(), |i: int| self.arguments@[i]@)
    }
}

/// A command that could not be started.
#[derive(Debug)]
pub struct SpawnError {
    /// Why, in the words of the operating system.
    pub reason: String,
}

/// Calls `std::str::from_utf8`. The call succeeds on valid UTF-8 and on
/// nothing else, and then hands back the same bytes as a string.
#[verifier::external_body]
fn from_utf8(bytes: &[u8]) -> (r: Option<&str>)
    ensures
        r is Some <==> valid_utf8(bytes@),
        r matches Some(s) ==> s.spec_bytes() == bytes@,
{
    std::str::from_utf8(bytes).ok()
}

/// Reads `bytes` as UTF-8 text; `None` where they are none.
pub fn decode_text(bytes: &[u8]) -> (r: Option<&str>)
    ensures
        r is Some <==> valid_utf8(bytes@),
        r matches Some(s) ==> s@ == decode_utf8(bytes@),
{
    let r = from_utf8(bytes);
    proof {
        if let Some(s) = r {
            encode_utf8_decode_utf8(s@);
        }
    }
    r
}

} // verus!
