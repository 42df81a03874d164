//! The answer to a query for chunks of the index.

use vstd::prelude::*;
use vstd::string::StringExecFns;

verus! {

/// What a query asked for.
#[derive(Debug)]
pub struct RetrievalMetadata {
    pub query: String,
    pub n_results: usize,
}

/// The chunks found for a query, and what was asked for.
#[derive(Debug)]
pub struct RetrievalResult {
    pub results: Vec<String>,
    pub metadata: RetrievalMetadata,
}

/// Answers a query for `n_results` chunks. No index is kept, so no chunk is
/// found; the answer names the query and the number asked for.
pub fn retrieve_chunks(query: &str, n_results: usize) -> (r: RetrievalResult)
    ensures
        r.results@.len() == 0,
        r.metadata.query@ == query@,
        r.metadata.n_results == n_results,
{
    RetrievalResult {
        results: Vec::new(),
        metadata: RetrievalMetadata { query: String::from_str(query), n_results },
    }
}

} // verus!
