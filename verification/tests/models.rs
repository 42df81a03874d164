use code_assistant_rust::command::{decode_text, CommandOutput, SpawnError};
use code_assistant_rust::models::{get_ollama_models, models_probe, parse_model_list};

fn listed(output: &str) -> Vec<(String, String)> {
    parse_model_list(output).into_iter().map(|m| (m.name, m.size)).collect()
}

fn pair(name: &str, size: &str) -> (String, String) {
    (String::from(name), String::from(size))
}

#[test]
fn two_rows_and_a_malformed_one_give_two_models() {
    let output = "NAME ID SIZE MODIFIED\nllama3:latest 365c0bd3c000\nmistral:7b 61e88e884507\nbroken\n";
    assert_eq!(
        listed(output),
        vec![pair("llama3:latest", "365c0bd3c000"), pair("mistral:7b", "61e88e884507")]
    );
}

#[test]
fn the_first_line_is_passed_over_whatever_it_holds() {
    assert_eq!(listed("a b\n"), vec![]);
    assert_eq!(listed("a b\nc d\n"), vec![pair("c", "d")]);
    assert_eq!(listed(""), vec![]);
    assert_eq!(listed("\n\n\n"), vec![]);
}

#[test]
fn further_columns_are_passed_over() {
    assert_eq!(
        listed("NAME\tID\tSIZE\n  phi3:mini \t 4f2222927938   2.2 GB   3 weeks ago  \r\n"),
        vec![pair("phi3:mini", "4f2222927938")]
    );
}

#[test]
fn malformed_lines_between_rows_are_passed_over() {
    assert_eq!(
        listed("h\na 1\n\nsingle\n   \nb 2"),
        vec![pair("a", "1"), pair("b", "2")]
    );
}

#[test]
fn models_probe_names_the_list_command() {
    let probe = models_probe();
    assert_eq!(probe.program, "ollama");
    assert_eq!(probe.arguments, vec!["list"]);
}

#[test]
fn models_come_from_a_finished_run() {
    let run = Ok(CommandOutput {
        stdout: b"NAME SIZE\nqwen2 4.4GB\n".to_vec(),
        stderr: Vec::new(),
        exit_code: Some(0),
    });
    let models = get_ollama_models(&run).unwrap();
    assert_eq!(models.len(), 1);
    assert_eq!(models[0].name, "qwen2");
    assert_eq!(models[0].size, "4.4GB");
}

#[test]
fn a_run_that_ended_with_another_status_is_still_read() {
    let run = Ok(CommandOutput {
        stdout: b"NAME SIZE\nqwen2 4.4GB\n".to_vec(),
        stderr: b"warning\n".to_vec(),
        exit_code: Some(1),
    });
    assert_eq!(get_ollama_models(&run).unwrap().len(), 1);
}

#[test]
fn a_manager_that_could_not_be_started_is_a_failure() {
    let run = Err(SpawnError { reason: String::from("No such file or directory (os error 2)") });
    let error = get_ollama_models(&run).unwrap_err();
    assert_eq!(
        error.message(),
        "Failed to execute ollama list command: No such file or directory (os error 2)"
    );
}

#[test]
fn output_that_is_no_utf8_lists_no_model_and_is_no_failure() {
    let run = Ok(CommandOutput {
        stdout: b"NAME SIZE\n\xFFqwen2 4.4GB\n".to_vec(),
        stderr: Vec::new(),
        exit_code: Some(0),
    });
    assert!(get_ollama_models(&run).unwrap().is_empty());
    let run = Ok(CommandOutput {
        stdout: b"NAME SIZE\nqwen2 4.4GB\nphi3 2.2GB\xE2\x82".to_vec(),
        stderr: Vec::new(),
        exit_code: Some(0),
    });
    assert!(get_ollama_models(&run).unwrap().is_empty());
}

#[test]
fn only_the_failure_to_start_the_manager_is_a_failure() {
    for stdout in [&b""[..], b"\n", b"NAME", b"\xFF", b"a b\nc\n", b"a b\nc d\n"] {
        let run = Ok(CommandOutput {
            stdout: stdout.to_vec(),
            stderr: b"error".to_vec(),
            exit_code: Some(2),
        });
        assert!(get_ollama_models(&run).is_ok());
    }
    let run = Err(SpawnError { reason: String::from("Permission denied (os error 13)") });
    assert!(get_ollama_models(&run).is_err());
}

#[test]
fn decode_text_takes_utf8_and_nothing_else() {
    assert_eq!(decode_text(b"plain"), Some("plain"));
    assert_eq!(decode_text(b""), Some(""));
    assert_eq!(decode_text("\u{10348}".as_bytes()), Some("\u{10348}"));
    assert_eq!(decode_text(b"ab\xE2\x82"), None);
    assert_eq!(decode_text(b"\xC0\x80"), None);
    assert_eq!(decode_text(b"\xED\xA0\x80"), None);
    assert_eq!(decode_text(b"\xF4\x90\x80\x80"), None);
}
