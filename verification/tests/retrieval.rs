use code_assistant_rust::error::CodeAssistantError;
use code_assistant_rust::retrieval::retrieve_chunks;

#[test]
fn a_query_finds_nothing_and_is_named_in_the_answer() {
    let answer = retrieve_chunks("how to parse", 5);
    assert!(answer.results.is_empty());
    assert_eq!(answer.metadata.query, "how to parse");
    assert_eq!(answer.metadata.n_results, 5);
}

#[test]
fn an_empty_query_for_no_results_is_answered_alike() {
    let answer = retrieve_chunks("", 0);
    assert!(answer.results.is_empty());
    assert_eq!(answer.metadata.query, "");
    assert_eq!(answer.metadata.n_results, 0);
    let answer = retrieve_chunks("\u{4e16}\u{754c}", usize::MAX);
    assert_eq!(answer.metadata.query, "\u{4e16}\u{754c}");
    assert_eq!(answer.metadata.n_results, usize::MAX);
}

#[test]
fn an_error_keeps_its_message() {
    let error = CodeAssistantError::new(String::from("it broke"));
    assert_eq!(error.message(), "it broke");
    assert_eq!(CodeAssistantError::new(String::new()).message(), "");
}

#[test]
fn an_error_with_context_joins_both_with_a_colon_and_a_blank() {
    let error = CodeAssistantError::with_context("Failed to execute code", "not found");
    assert_eq!(error.message(), "Failed to execute code: not found");
    assert_eq!(CodeAssistantError::with_context("", "").message(), ": ");
}
