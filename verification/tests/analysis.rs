use code_assistant_rust::analysis::{analyze_code, CodeMetrics};

fn reference_metrics(code: &str) -> CodeMetrics {
    let mut functions = 0;
    let mut classes = 0;
    for line in code.lines() {
        let line = line.trim();
        if line.starts_with("def ") {
            functions += 1;
        } else if line.starts_with("class ") {
            classes += 1;
        }
    }
    let complexity = code
        .lines()
        .filter(|line| {
            let line = line.trim();
            line.contains("if ")
                || line.contains("for ")
                || line.contains("while ")
                || line.contains("except ")
        })
        .count();
    CodeMetrics { lines: code.lines().count(), functions, classes, complexity }
}

#[test]
fn empty_source_has_no_lines_and_counts_nothing() {
    assert_eq!(
        analyze_code(""),
        CodeMetrics { lines: 0, functions: 0, classes: 0, complexity: 0 }
    );
}

#[test]
fn three_lines_with_one_function_and_one_branch() {
    assert_eq!(
        analyze_code("def foo():\n    if x:\n        return 1"),
        CodeMetrics { lines: 3, functions: 1, classes: 0, complexity: 1 }
    );
}

#[test]
fn a_final_line_ending_adds_no_line() {
    assert_eq!(analyze_code("a\nb\n").lines, 2);
    assert_eq!(analyze_code("a\nb").lines, 2);
    assert_eq!(analyze_code("a\r\nb\r\n").lines, 2);
    assert_eq!(analyze_code("\n").lines, 1);
    assert_eq!(analyze_code("\n\n").lines, 2);
}

#[test]
fn definitions_are_known_at_the_start_of_the_trimmed_line() {
    let metrics = analyze_code("class A:\n\tdef m(self):\n  class B:\nundef f\ndefine\ndef\nclass\n x def y");
    assert_eq!(metrics.lines, 8);
    assert_eq!(metrics.functions, 1);
    assert_eq!(metrics.classes, 2);
    assert_eq!(metrics.complexity, 0);
}

#[test]
fn a_branching_keyword_counts_wherever_it_stands() {
    assert_eq!(analyze_code("s = \"if \"").complexity, 1);
    assert_eq!(analyze_code("elif x:").complexity, 1);
    assert_eq!(analyze_code("x = motif + 1").complexity, 1);
    assert_eq!(analyze_code("for i in r:\nwhile t:\nexcept E:\nif a:").complexity, 4);
}

#[test]
fn a_line_counts_once_however_many_keywords_it_holds() {
    assert_eq!(analyze_code("if a: for b in c: while d: pass").complexity, 1);
}

#[test]
fn a_keyword_needs_the_blank_behind_it() {
    assert_eq!(analyze_code("if").complexity, 0);
    assert_eq!(analyze_code("x if ").complexity, 0);
    assert_eq!(analyze_code("if(x):").complexity, 0);
    assert_eq!(analyze_code("except:").complexity, 0);
    assert_eq!(analyze_code("if\tx:").complexity, 0);
}

#[test]
fn a_definition_with_a_branch_counts_for_both() {
    let metrics = analyze_code("def f(): return 1 if x else 2");
    assert_eq!(metrics.functions, 1);
    assert_eq!(metrics.complexity, 1);
}

#[test]
fn analysis_agrees_with_the_line_by_line_reading_on_samples() {
    for code in [
        "",
        "\n",
        "def a():\n  pass\n\nclass B:\n    def c(self):\n        for x in y:\n            if x: pass\n",
        "\u{a0}def wide():\r\n\u{3000}class Wide:\r\n",
        "try:\n  x\nexcept E as e:\n  while True: break\n",
        "   \n\t\n",
        "def  two_blanks()\nclass\tTabbed",
        "défi if \nclass α:\n",
    ] {
        assert_eq!(analyze_code(code), reference_metrics(code), "{:?}", code);
    }
}

#[test]
fn analysis_agrees_with_the_line_by_line_reading_on_every_short_source() {
    let alphabet = ['d', 'e', 'f', 'i', ' ', '\n'];
    let mut last = vec![String::new()];
    for _ in 0..6 {
        let mut next = Vec::new();
        for code in &last {
            for c in alphabet {
                let mut longer = code.clone();
                longer.push(c);
                assert_eq!(analyze_code(&longer), reference_metrics(&longer), "{:?}", longer);
                next.push(longer);
            }
        }
        last = next;
    }
}
