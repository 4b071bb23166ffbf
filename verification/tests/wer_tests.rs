use roomler_core::wer::{
    aggregate_wer, levenshtein_words, normalize_text, normalize_words, word_error_rate,
};

fn rate(reference: &str, hypothesis: &str) -> f64 {
    let r = word_error_rate(reference, hypothesis);
    r.rate_numerator as f64 / r.rate_denominator as f64
}

fn words(list: &[&str]) -> Vec<String> {
    list.iter().map(|w| w.to_string()).collect()
}

#[test]
fn test_wer_identical() {
    let wer = rate("hello world", "hello world");
    assert!((wer - 0.0).abs() < 0.001);
}

#[test]
fn test_wer_one_substitution() {
    let wer = rate("hello world", "hello earth");
    assert!((wer - 0.5).abs() < 0.01);
}

#[test]
fn test_wer_case_insensitive() {
    let wer = rate("Hello World", "hello world");
    assert!((wer - 0.0).abs() < 0.001);
}

#[test]
fn test_wer_ignores_punctuation() {
    let wer = rate("Hello, world!", "hello world");
    assert!((wer - 0.0).abs() < 0.001);
}

#[test]
fn test_wer_empty() {
    let wer = rate("", "");
    assert!((wer - 0.0).abs() < 0.001);
    let wer = rate("", "some text");
    assert!((wer - 1.0).abs() < 0.001);
}

#[test]
fn test_aggregate_wer() {
    let pairs = vec![
        ("hello world".to_string(), "hello world".to_string()),
        ("foo bar baz".to_string(), "foo baz".to_string()),
    ];
    let r = aggregate_wer(&pairs);
    let wer = r.rate_numerator as f64 / r.rate_denominator as f64;
    let (edits, total) = (r.edits, r.reference_words);
    assert!(wer > 0.0);
    assert!(total == 5);
    assert!(edits > 0);
}

#[test]
fn test_normalize_text() {
    assert_eq!(
        normalize_text("Hello, World!  How  Are You?"),
        "hello world how are you"
    );
}

#[test]
fn test_normalize_german() {
    assert_eq!(normalize_text("Österreich: 25°C!"), "österreich 25c");
}

#[test]
fn normalize_text_trims_and_collapses_whitespace() {
    assert_eq!(normalize_text("  \tA\n\nb  "), "a b");
    assert_eq!(normalize_text(""), "");
    assert_eq!(normalize_text(" ... !!! "), "");
}

#[test]
fn normalize_words_splits_the_normal_form() {
    assert_eq!(normalize_words("One, two;  THREE"), words(&["one", "two", "three"]));
    assert!(normalize_words("?!").is_empty());
}

#[test]
fn levenshtein_counts_word_edits() {
    assert_eq!(levenshtein_words(&words(&[]), &words(&[])), 0);
    assert_eq!(levenshtein_words(&words(&["a", "b"]), &words(&[])), 2);
    assert_eq!(levenshtein_words(&words(&[]), &words(&["a", "b", "c"])), 3);
    assert_eq!(levenshtein_words(&words(&["a", "b", "c"]), &words(&["a", "c"])), 1);
    assert_eq!(levenshtein_words(&words(&["a", "b", "c"]), &words(&["a", "x", "c"])), 1);
    assert_eq!(levenshtein_words(&words(&["a", "b"]), &words(&["b", "a"])), 2);
    assert_eq!(
        levenshtein_words(&words(&["the", "quick", "fox"]), &words(&["quick", "brown", "fox", "jumps"])),
        3
    );
}

#[test]
fn word_error_rate_reports_exact_counts() {
    let r = word_error_rate("foo bar baz", "foo baz");
    assert_eq!(r.edits, 1);
    assert_eq!(r.reference_words, 3);
    assert_eq!(r.rate_numerator, 1);
    assert_eq!(r.rate_denominator, 3);
    let empty_reference = word_error_rate("", "two words");
    assert_eq!(empty_reference.edits, 2);
    assert_eq!(empty_reference.reference_words, 0);
    assert_eq!(empty_reference.rate_numerator, 1);
    assert_eq!(empty_reference.rate_denominator, 1);
}

#[test]
fn aggregate_wer_of_nothing_is_zero() {
    let r = aggregate_wer(&Vec::new());
    assert_eq!((r.rate_numerator, r.rate_denominator, r.edits, r.reference_words), (0, 1, 0, 0));
    let only_empty_references = vec![("".to_string(), "noise".to_string())];
    let r = aggregate_wer(&only_empty_references);
    assert_eq!((r.rate_numerator, r.rate_denominator, r.edits, r.reference_words), (0, 1, 0, 0));
}

#[test]
fn aggregate_wer_adds_edits_and_words() {
    let pairs = vec![
        ("a b c d".to_string(), "a b c".to_string()),
        ("x y".to_string(), "x z".to_string()),
    ];
    let r = aggregate_wer(&pairs);
    assert_eq!(r.edits, 2);
    assert_eq!(r.reference_words, 6);
    assert_eq!(r.rate_numerator, 2);
    assert_eq!(r.rate_denominator, 6);
}
