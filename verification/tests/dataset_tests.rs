use lumina::ai_types::{DifficultyLevel, ValidationErrorType};
use lumina::dataset::{
    batch_count, check_example_given, check_examples, max_concurrent_trainings, validate_dataset,
    ExampleText,
};

fn example(prompt: &str, output: &str) -> ExampleText {
    ExampleText {
        prompt: prompt.to_string(),
        expected_output: output.to_string(),
        category: "platformer".to_string(),
        difficulty: DifficultyLevel::Beginner,
    }
}

fn sorted(v: &[(String, usize)]) -> Vec<(String, usize)> {
    let mut v = v.to_vec();
    v.sort();
    v
}

fn kind(t: &ValidationErrorType) -> &'static str {
    match t {
        ValidationErrorType::InvalidJson => "json",
        ValidationErrorType::MissingField => "missing",
        ValidationErrorType::InvalidFieldType => "field_type",
        ValidationErrorType::EmptyContent => "empty",
        ValidationErrorType::TooLarge => "large",
        ValidationErrorType::InvalidStructure => "structure",
    }
}

#[test]
fn good_examples_pass_every_check() {
    let examples = vec![
        example("Make a platformer", "{\"scenes\": []}"),
        example("  jump  ", "[1, 2, 3]"),
        example("x", "42"),
    ];
    let result = validate_dataset(&examples);
    assert!(result.is_valid);
    assert_eq!(result.total_examples, 3);
    assert_eq!(result.valid_examples, 3);
    assert!(result.validation_errors.is_empty());
}

#[test]
fn blank_prompt_is_empty_content() {
    let (valid, errors) = check_examples(&vec![example(" \t\n ", "{}")]);
    assert_eq!(valid, 0);
    assert_eq!(errors.len(), 1);
    assert_eq!(errors[0].example_index, 0);
    assert_eq!(kind(&errors[0].error_type), "empty");
    assert_eq!(errors[0].message, "Prompt is empty");
}

#[test]
fn output_that_is_not_json_is_invalid_json() {
    let (valid, errors) = check_examples(&vec![example("ok", "{}"), example("bad", "{not json")]);
    assert_eq!(valid, 1);
    assert_eq!(errors.len(), 1);
    assert_eq!(errors[0].example_index, 1);
    assert_eq!(kind(&errors[0].error_type), "json");
    let reason = serde_json::from_str::<serde_json::Value>("{not json").unwrap_err().to_string();
    assert_eq!(errors[0].message, format!("Invalid JSON: {}", reason));
}

#[test]
fn trailing_text_after_json_is_rejected() {
    let (valid, errors) = check_examples(&vec![example("p", "{} {}")]);
    assert_eq!(valid, 0);
    assert_eq!(kind(&errors[0].error_type), "json");
}

#[test]
fn output_over_the_limit_is_too_large() {
    let big = format!("\"{}\"", "a".repeat(50_000));
    let (valid, errors) = check_examples(&vec![example("p", &big)]);
    assert_eq!(valid, 0);
    assert_eq!(errors.len(), 1);
    assert_eq!(kind(&errors[0].error_type), "large");
    assert_eq!(errors[0].message, "Output too large: 50002 bytes");
}

#[test]
fn output_at_the_limit_is_accepted() {
    let exact = format!("\"{}\"", "a".repeat(49_998));
    assert_eq!(exact.len(), 50_000);
    let (valid, errors) = check_examples(&vec![example("p", &exact)]);
    assert_eq!(valid, 1);
    assert!(errors.is_empty());
}

#[test]
fn size_counts_utf8_bytes() {
    let wide = format!("\"{}\"", "é".repeat(25_000));
    let (_, errors) = check_examples(&vec![example("p", &wide)]);
    assert_eq!(errors.len(), 1);
    assert_eq!(errors[0].message, "Output too large: 50002 bytes");
}

#[test]
fn findings_come_per_example_in_check_order() {
    let big = "x".repeat(50_001);
    let examples = vec![example("fine", "{}"), example("", &big), example("ok", "null")];
    let result = validate_dataset(&examples);
    assert!(!result.is_valid);
    assert_eq!(result.total_examples, 3);
    assert_eq!(result.valid_examples, 2);
    let seen: Vec<(usize, &str)> =
        result.validation_errors.iter().map(|e| (e.example_index, kind(&e.error_type))).collect();
    assert_eq!(seen, vec![(1, "empty"), (1, "json"), (1, "large")]);
    assert_eq!(result.validation_errors[2].message, "Output too large: 50001 bytes");
}

#[test]
fn empty_dataset_is_valid() {
    let result = validate_dataset(&vec![]);
    assert!(result.is_valid);
    assert_eq!(result.total_examples, 0);
    assert_eq!(result.valid_examples, 0);
}

#[test]
fn structure_counts_categories_difficulties_and_sizes() {
    let mut a = example("a", "{\"x\": 1}");
    a.category = "puzzle".to_string();
    let mut b = example("b", "[]");
    b.difficulty = DifficultyLevel::Expert;
    let mut c = example("c", "not json at all");
    c.category = "puzzle".to_string();
    c.difficulty = DifficultyLevel::Expert;
    let d = example("d", "\"héllo\"");
    let result = validate_dataset(&vec![a, b, c, d]);
    let s = &result.structure_analysis;
    assert_eq!(
        sorted(&s.categories),
        vec![("platformer".to_string(), 2), ("puzzle".to_string(), 2)]
    );
    assert_eq!(
        sorted(&s.difficulty_distribution),
        vec![("Beginner".to_string(), 2), ("Expert".to_string(), 2)]
    );
    assert_eq!(s.min_output_length, 2);
    assert_eq!(s.max_output_length, 8);
    assert_eq!(result.valid_examples, 3);

    let none = validate_dataset(&vec![example("p", "oops")]);
    assert_eq!(none.structure_analysis.min_output_length, 0);
    assert_eq!(none.structure_analysis.max_output_length, 0);
}

#[test]
fn checks_follow_the_reported_json_result() {
    let mut errors = Vec::new();
    assert!(check_example_given(4, &example("p", "anything"), None, &mut errors));
    assert!(errors.is_empty());
    let valid = check_example_given(7, &example("", "{}"), Some("bad token".to_string()), &mut errors);
    assert!(!valid);
    let seen: Vec<(usize, &str, String)> =
        errors.iter().map(|e| (e.example_index, kind(&e.error_type), e.message.clone())).collect();
    assert_eq!(
        seen,
        vec![
            (7, "empty", "Prompt is empty".to_string()),
            (7, "json", "Invalid JSON: bad token".to_string()),
        ]
    );
}

#[test]
fn training_runs_at_most_three_models_at_once() {
    assert_eq!(max_concurrent_trainings(6, true), 3);
    assert_eq!(max_concurrent_trainings(2, true), 2);
    assert_eq!(max_concurrent_trainings(0, true), 0);
    assert_eq!(max_concurrent_trainings(6, false), 1);
}

#[test]
fn batches_hold_ten_examples() {
    assert_eq!(batch_count(0), 0);
    assert_eq!(batch_count(1), 1);
    assert_eq!(batch_count(10), 1);
    assert_eq!(batch_count(11), 2);
    assert_eq!(batch_count(usize::MAX), usize::MAX / 10 + 1);
}
