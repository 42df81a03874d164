use code_assistant_rust::chars::to_chars;
use code_assistant_rust::number::{
    char_to_lower, skip_sign, span_all_digits, span_is_decimal_fraction, span_is_exponent,
    span_is_unsigned_decimal, span_is_word, span_parse_i64,
};
use code_assistant_rust::scan::Span;

const NUMBERS: [&str; 60] = [
    "",
    "0",
    "7",
    "42",
    "+42",
    "-42",
    "-0",
    "+0",
    "+",
    "-",
    "+-1",
    "--1",
    "1-",
    " 1",
    "1 ",
    "1_000",
    "0007",
    "00000000000000000000000000000000000000012",
    "9223372036854775807",
    "9223372036854775808",
    "+9223372036854775807",
    "-9223372036854775808",
    "-9223372036854775809",
    "-00009223372036854775808",
    "18446744073709551616",
    "99999999999999999999999999999999999999999999999",
    "-99999999999999999999999999999999999999999999999",
    "12a",
    "a12",
    "１２",
    "3.5",
    "3.",
    ".5",
    ".",
    "-.5",
    "+5.",
    "1e5",
    "1E5",
    "1e+5",
    "1e-5",
    "1e",
    "1e+",
    "e5",
    ".e5",
    "1.e5",
    "1.5e10x",
    "1..5",
    "1.5.2",
    "inf",
    "-INF",
    "+Infinity",
    "infinit",
    "infinityy",
    "nan",
    "NaN",
    "-nan",
    "nano",
    "0x10",
    "1,5",
    "12.5%",
];

fn whole_of(s: &str) -> (Vec<char>, Span) {
    let text = to_chars(s);
    let whole = Span::whole(&text);
    (text, whole)
}

#[test]
fn integers_agree_with_std_on_samples() {
    for s in NUMBERS {
        let (text, whole) = whole_of(s);
        assert_eq!(span_parse_i64(&text, whole), s.parse::<i64>().ok(), "{:?}", s);
    }
}

#[test]
fn integers_at_the_limits_of_64_bits() {
    let (text, whole) = whole_of("9223372036854775807");
    assert_eq!(span_parse_i64(&text, whole), Some(i64::MAX));
    let (text, whole) = whole_of("-9223372036854775808");
    assert_eq!(span_parse_i64(&text, whole), Some(i64::MIN));
    let (text, whole) = whole_of("9223372036854775808");
    assert_eq!(span_parse_i64(&text, whole), None);
    let (text, whole) = whole_of("-9223372036854775809");
    assert_eq!(span_parse_i64(&text, whole), None);
}

#[test]
fn integer_of_a_part_reads_the_part_only() {
    let text = to_chars("x-125y");
    assert_eq!(span_parse_i64(&text, Span { start: 1, end: 5 }), Some(-125));
    assert_eq!(span_parse_i64(&text, Span { start: 2, end: 4 }), Some(12));
    assert_eq!(span_parse_i64(&text, Span { start: 0, end: 5 }), None);
    assert_eq!(span_parse_i64(&text, Span { start: 3, end: 3 }), None);
}

#[test]
fn decimal_fractions_agree_with_std_on_samples() {
    for s in NUMBERS {
        let (text, whole) = whole_of(s);
        assert_eq!(
            span_is_decimal_fraction(&text, whole),
            s.parse::<f64>().is_ok(),
            "{:?}",
            s
        );
    }
}

#[test]
fn unsigned_decimal_takes_no_sign_and_no_word() {
    for (s, expected) in [
        ("1", true),
        ("1.5", true),
        (".5e-3", true),
        ("+1", false),
        ("inf", false),
        ("", false),
        ("e1", false),
    ] {
        let (text, whole) = whole_of(s);
        assert_eq!(span_is_unsigned_decimal(&text, whole), expected, "{:?}", s);
    }
}

#[test]
fn exponent_needs_the_letter_and_a_digit() {
    for (s, expected) in [
        ("e1", true),
        ("E-12", true),
        ("e+0", true),
        ("e", false),
        ("e-", false),
        ("1", false),
        ("e1.5", false),
        ("", false),
    ] {
        let (text, whole) = whole_of(s);
        assert_eq!(span_is_exponent(&text, whole), expected, "{:?}", s);
    }
}

#[test]
fn skip_sign_steps_over_one_sign() {
    let text = to_chars("+-1");
    assert_eq!(
        skip_sign(&text, Span { start: 0, end: 3 }),
        Span { start: 1, end: 3 }
    );
    assert_eq!(
        skip_sign(&text, Span { start: 2, end: 3 }),
        Span { start: 2, end: 3 }
    );
    assert_eq!(
        skip_sign(&text, Span { start: 3, end: 3 }),
        Span { start: 3, end: 3 }
    );
}

#[test]
fn all_digits_holds_of_the_empty_text() {
    for (s, expected) in [("", true), ("0123456789", true), ("12a", false), ("-1", false)] {
        let (text, whole) = whole_of(s);
        assert_eq!(span_all_digits(&text, whole), expected, "{:?}", s);
    }
}

#[test]
fn words_are_known_in_any_case_of_letters() {
    let word = to_chars("nan");
    for (s, expected) in [("nan", true), ("NaN", true), ("NAN", true), ("na", false), ("nan ", false), ("n\u{e1}n", false)] {
        let (text, whole) = whole_of(s);
        assert_eq!(span_is_word(&text, whole, &word), expected, "{:?}", s);
    }
}

#[test]
fn to_lower_changes_capital_ascii_letters_only() {
    for code in 0u32..=0x10FFFF {
        if let Some(c) = char::from_u32(code) {
            assert_eq!(char_to_lower(c), c.to_ascii_lowercase(), "U+{:04X}", code);
        }
    }
}

fn every_text_over(alphabet: &[char], longest: usize) -> Vec<String> {
    let mut all = vec![String::new()];
    let mut last = vec![String::new()];
    for _ in 0..longest {
        let mut next = Vec::new();
        for text in &last {
            for c in alphabet {
                let mut longer = text.clone();
                longer.push(*c);
                next.push(longer);
            }
        }
        all.extend(next.iter().cloned());
        last = next;
    }
    all
}

#[test]
fn integers_agree_with_std_on_every_short_text() {
    for s in every_text_over(&['+', '-', '0', '1', '9', ' ', 'a'], 5) {
        let (text, whole) = whole_of(&s);
        assert_eq!(span_parse_i64(&text, whole), s.parse::<i64>().ok(), "{:?}", s);
    }
}

#[test]
fn decimal_fractions_agree_with_std_on_every_short_text() {
    let alphabet = ['+', '-', '.', 'e', 'E', '0', '7', 'i', 'n', 'f', 'a', 'N', ' '];
    for s in every_text_over(&alphabet, 4) {
        let (text, whole) = whole_of(&s);
        assert_eq!(
            span_is_decimal_fraction(&text, whole),
            s.parse::<f64>().is_ok(),
            "{:?}",
            s
        );
    }
}

#[test]
fn decimal_fractions_agree_with_std_on_every_short_number() {
    for s in every_text_over(&['+', '-', '.', 'e', '1'], 7) {
        let (text, whole) = whole_of(&s);
        assert_eq!(
            span_is_decimal_fraction(&text, whole),
            s.parse::<f64>().is_ok(),
            "{:?}",
            s
        );
    }
}
