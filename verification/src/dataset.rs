//! Checks of a training dataset before it is used: every example needs a
//! prompt, an expected output that is one JSON document, and an output no
//! larger than the size limit.

use vstd::prelude::*;
use vstd::utf8::encode_utf8;
use crate::ai_types::{DifficultyLevel, ValidationError, ValidationErrorType};
use crate::lines::{trim_str, trimmed};
use crate::text::{append_decimal, decimal, owned, equals_str};

verus! {

broadcast use vstd::string::group_string_axioms;

/// Largest expected output, in bytes, that a training example may have.
pub const MAX_OUTPUT_BYTES: usize = 50000;

/// What `serde_json` reports when it reads `text` as one JSON value: `None`
/// where it parses, else the text of its error.
pub uninterp spec fn json_read_error(text: Seq<char>) -> Option<Seq<char>>;

/// `serde_json::from_str::<serde_json::Value>` on `text`: `None` where it
/// parses, else the error's text as `Display` writes it. Both come from
/// `text` alone and are only named here (`json_read_error`), not stated.
#[verifier::external_body]
pub(crate) fn json_error(text: &str) -> (r: Option<String>)
    ensures
        match r {
            Some(m) => json_read_error(text@) == Some(m@),
            None => json_read_error(text@) is None,
        },
{
    match serde_json::from_str::<serde_json::Value>(text) {
        Ok(_) => None,
        Err(e) => Some(e.to_string()),
    }
}

/// What the checks and statistics read of one training example.
pub struct ExampleText {
    pub prompt: String,
    pub expected_output: String,
    pub category: String,
    pub difficulty: DifficultyLevel,
}

/// A validation finding as plain values: the example's index, the kind of
/// problem and the message.
pub type Finding = (int, ValidationErrorType, Seq<char>);

/// The findings held in `v`.
pub open spec fn error_views(v: Seq<ValidationError>) -> Seq<Finding> {
    v.map_values(|e: ValidationError| (e.example_index as int, e.error_type, e.message@))
}

/// The size in bytes of `s` in UTF-8, as `str::len` reports it.
pub open spec fn utf8_size(s: Seq<char>) -> usize {
    encode_utf8(s).len() as usize
}

/// Whether the prompt is empty once surrounding whitespace is removed.
pub open spec fn prompt_is_blank(ex: ExampleText) -> bool {
    trimmed(ex.prompt@).len() == 0
}

/// Whether the expected output is over the size limit.
pub open spec fn output_too_large(ex: ExampleText) -> bool {
    utf8_size(ex.expected_output@) > MAX_OUTPUT_BYTES
}

/// What the checks find in the example at `index`, given what reading its
/// output as JSON reported (`None` where it parsed, else the error text),
/// in order: a blank prompt, an output that is not JSON, an output over the
/// size limit.
pub open spec fn findings_given(index: int, ex: ExampleText, json_error: Option<Seq<char>>) -> Seq<
    Finding,
> {
    let blank: Seq<Finding> = if prompt_is_blank(ex) {
        seq![(index, ValidationErrorType::EmptyContent, "Prompt is empty"@)]
    } else {
        seq![]
    };
    let json: Seq<Finding> = match json_error {
        Some(m) => seq![(index, ValidationErrorType::InvalidJson, "Invalid JSON: "@ + m)],
        None => seq![],
    };
    let large: Seq<Finding> = if output_too_large(ex) {
        seq![
            (
                index,
                ValidationErrorType::TooLarge,
                "Output too large: "@ + decimal(utf8_size(ex.expected_output@) as nat) + " bytes"@,
            ),
        ]
    } else {
        seq![]
    };
    blank + json + large
}

/// Whether the example passes every check, given what reading its output
/// as JSON reported.
pub open spec fn valid_given(ex: ExampleText, json_error: Option<Seq<char>>) -> bool {
    !prompt_is_blank(ex) && json_error is None && !output_too_large(ex)
}

/// What the checks find in the example at `index`.
pub open spec fn example_findings(index: int, ex: ExampleText) -> Seq<Finding> {
    findings_given(index, ex, json_read_error(ex.expected_output@))
}

/// Whether the example passes every check.
pub open spec fn example_is_valid(ex: ExampleText) -> bool {
    valid_given(ex, json_read_error(ex.expected_output@))
}

/// The findings of all examples, example by example.
pub open spec fn example_errors(examples: Seq<ExampleText>) -> Seq<Finding>
    decreases examples.len(),
{
    if examples.len() == 0 {
        seq![]
    } else {
        example_errors(examples.drop_last()) + example_findings(
            examples.len() - 1,
            examples.last(),
        )
    }
}

/// How many examples pass every check.
pub open spec fn valid_count(examples: Seq<ExampleText>) -> nat
    decreases examples.len(),
{
    if examples.len() == 0 {
        0
    } else {
        valid_count(examples.drop_last()) + if example_is_valid(examples.last()) {
            1nat
        } else {
            0nat
        }
    }
}

/// The plain value of what reading JSON reported.
pub open spec fn opt_view(e: Option<String>) -> Option<Seq<char>> {
    match e {
        Some(m) => Some(m@),
        None => None,
    }
}

/// Runs the checks on `ex`, the example at `index`, given `json_error`, what
/// reading its expected output as JSON reported (`None` where it parsed,
/// else the error text); appends what they find to `errors` and returns
/// whether the example passed them all.
pub fn check_example_given(
    index: usize,
    ex: &ExampleText,
    json_error: Option<String>,
    errors: &mut Vec<ValidationError>,
) -> (valid: bool)
    ensures
        error_views(final(errors)@) == error_views(old(errors)@) + findings_given(
            index as int,
            *ex,
            opt_view(json_error),
        ),
        valid == valid_given(*ex, opt_view(json_error)),
{
    let ghost start = error_views(errors@);
    let ghost reported = opt_view(json_error);
    let mut valid = true;
    let prompt = trim_str(ex.prompt.as_str());
    if prompt.is_empty() {
        errors.push(
            ValidationError {
                example_index: index,
                error_type: ValidationErrorType::EmptyContent,
                message: owned("Prompt is empty"),
            },
        );
        valid = false;
    }
    let ghost after_blank = error_views(errors@);
    match json_error {
        Some(e) => {
            let mut message = owned("Invalid JSON: ");
            message.append(e.as_str());
            errors.push(
                ValidationError { example_index: index, error_type: ValidationErrorType::InvalidJson, message },
            );
            valid = false;
        },
        None => {},
    }
    let size = ex.expected_output.as_str().len();
    if size > MAX_OUTPUT_BYTES {
        let mut message = owned("Output too large: ");
        append_decimal(&mut message, size as u128);
        message.append(" bytes");
        errors.push(
            ValidationError { example_index: index, error_type: ValidationErrorType::TooLarge, message },
        );
        valid = false;
    }
    proof {
        let f = findings_given(index as int, *ex, reported);
        assert(after_blank == start + (if prompt_is_blank(*ex) {
            seq![(index as int, ValidationErrorType::EmptyContent, "Prompt is empty"@)]
        } else {
            seq![]
        }));
        assert(error_views(errors@) =~= start + f);
    }
    valid
}

/// Runs the checks on `ex`, the example at `index`, reading its expected
/// output as JSON; appends what they find to `errors` and returns whether
/// it passed them all and whether the output parsed.
fn check_example(index: usize, ex: &ExampleText, errors: &mut Vec<ValidationError>) -> (r: (
    bool,
    bool,
))
    ensures
        error_views(final(errors)@) == error_views(old(errors)@) + example_findings(
            index as int,
            *ex,
        ),
        r.0 == example_is_valid(*ex),
        r.1 == (json_read_error(ex.expected_output@) is None),
{
    let reported = json_error(ex.expected_output.as_str());
    let parsed = reported.is_none();
    let valid = check_example_given(index, ex, reported, errors);
    (valid, parsed)
}

/// The name under which a difficulty is counted.
pub open spec fn difficulty_name(d: DifficultyLevel) -> Seq<char> {
    match d {
        DifficultyLevel::Beginner => "Beginner"@,
        DifficultyLevel::Intermediate => "Intermediate"@,
        DifficultyLevel::Advanced => "Advanced"@,
        DifficultyLevel::Expert => "Expert"@,
    }
}

/// The name under which a difficulty is counted.
fn difficulty_label(d: &DifficultyLevel) -> (r: &'static str)
    ensures
        r@ == difficulty_name(*d),
{
    match d {
        DifficultyLevel::Beginner => "Beginner",
        DifficultyLevel::Intermediate => "Intermediate",
        DifficultyLevel::Advanced => "Advanced",
        DifficultyLevel::Expert => "Expert",
    }
}

/// How often `k` occurs in `keys`.
pub open spec fn occurrences(keys: Seq<Seq<char>>, k: Seq<char>) -> nat
    decreases keys.len(),
{
    if keys.len() == 0 {
        0
    } else {
        occurrences(keys.drop_last(), k) + if keys.last() == k {
            1nat
        } else {
            0nat
        }
    }
}

/// Whether `t` counts `keys`: each key that occurs appears once in `t`,
/// with the number of times it occurs, and `t` holds no other key.
pub open spec fn counts_of(t: Seq<(Seq<char>, nat)>, keys: Seq<Seq<char>>) -> bool {
    &&& forall|i: int, j: int| 0 <= i < j < t.len() ==> t[i].0 != t[j].0
    &&& forall|i: int|
        0 <= i < t.len() ==> keys.contains(#[trigger] t[i].0) && t[i].1 == occurrences(keys, t[i].0)
    &&& forall|k: Seq<char>| keys.contains(k) ==> exists|i: int| 0 <= i < t.len() && #[trigger] t[i].0 == k
}

/// The plain values of a count table.
pub open spec fn count_views(v: Seq<(String, usize)>) -> Seq<(Seq<char>, nat)> {
    v.map_values(|e: (String, usize)| (e.0@, e.1 as nat))
}

/// The categories of the examples, in order.
pub open spec fn categories(examples: Seq<ExampleText>) -> Seq<Seq<char>> {
    examples.map_values(|e: ExampleText| e.category@)
}

/// The difficulty names of the examples, in order.
pub open spec fn difficulties(examples: Seq<ExampleText>) -> Seq<Seq<char>> {
    examples.map_values(|e: ExampleText| difficulty_name(e.difficulty))
}

/// The sizes in bytes of the expected outputs that parse as JSON, in order.
pub open spec fn parsed_sizes(examples: Seq<ExampleText>) -> Seq<usize>
    decreases examples.len(),
{
    if examples.len() == 0 {
        seq![]
    } else {
        let rest = parsed_sizes(examples.drop_last());
        let out = examples.last().expected_output@;
        if json_read_error(out) is None {
            rest.push(utf8_size(out))
        } else {
            rest
        }
    }
}

/// The smallest of `s`, or 0 when it is empty.
pub open spec fn smallest(s: Seq<usize>) -> usize
    decreases s.len(),
{
    if s.len() == 0 {
        0
    } else if s.len() == 1 {
        s[0]
    } else {
        let m = smallest(s.drop_last());
        if s.last() < m {
            s.last()
        } else {
            m
        }
    }
}

/// The largest of `s`, or 0 when it is empty.
pub open spec fn largest(s: Seq<usize>) -> usize
    decreases s.len(),
{
    if s.len() == 0 {
        0
    } else {
        let m = largest(s.drop_last());
        if s.last() > m {
            s.last()
        } else {
            m
        }
    }
}

proof fn lemma_occurrences_push(keys: Seq<Seq<char>>, k: Seq<char>, x: Seq<char>)
    ensures
        occurrences(keys.push(k), x) == occurrences(keys, x) + if k == x {
            1nat
        } else {
            0nat
        },
{
    assert(keys.push(k).drop_last() =~= keys);
}

proof fn lemma_occurrences_bound(keys: Seq<Seq<char>>, x: Seq<char>)
    ensures
        occurrences(keys, x) <= keys.len(),
        !keys.contains(x) ==> occurrences(keys, x) == 0,
    decreases keys.len(),
{
    if keys.len() > 0 {
        lemma_occurrences_bound(keys.drop_last(), x);
        if !keys.contains(x) {
            assert(!keys.drop_last().contains(x)) by {
                if keys.drop_last().contains(x) {
                    let i = choose|i: int| 0 <= i < keys.drop_last().len() && keys.drop_last()[i] == x;
                    assert(keys[i] == x);
                }
            }
            assert(keys[keys.len() - 1] == keys.last());
        }
    }
}

/// Counts `key` once more in `table`, which counts `seen`.
#[verifier::loop_isolation(false)]
fn count_key(table: &mut Vec<(String, usize)>, key: String, Ghost(seen): Ghost<Seq<Seq<char>>>)
    requires
        counts_of(count_views(old(table)@), seen),
        seen.len() < usize::MAX,
    ensures
        counts_of(count_views(final(table)@), seen.push(key@)),
{
    let ghost t0 = count_views(table@);
    let ghost seen2 = seen.push(key@);
    proof {
        lemma_occurrences_push(seen, key@, key@);
        lemma_occurrences_bound(seen, key@);
        assert forall|x: Seq<char>| seen.contains(x) implies #[trigger] seen2.contains(x) by {
            let i = choose|i: int| 0 <= i < seen.len() && seen[i] == x;
            assert(seen2[i] == x);
        }
        assert(seen2[seen.len() as int] == key@);
        assert(seen2.contains(key@));
    }
    let mut i: usize = 0;
    while i < table.len()
        invariant
            i <= table@.len(),
            table@ == old(table)@,
            forall|j: int| 0 <= j < i ==> (#[trigger] table@[j]).0@ != key@,
        decreases table@.len() - i,
    {
        if equals_str(&table[i].0, key.as_str()) {
            let c = table[i].1;
            proof {
                assert(t0[i as int].0 == key@);
                assert(c == occurrences(seen, key@));
            }
            table.set(i, (key, c + 1));
            proof {
                let t1 = count_views(table@);
                assert(t1 =~= t0.update(i as int, (key@, (c + 1) as nat)));
                assert forall|j: int| 0 <= j < t1.len() implies seen2.contains(#[trigger] t1[j].0)
                    && t1[j].1 == occurrences(seen2, t1[j].0) by {
                    lemma_occurrences_push(seen, key@, t1[j].0);
                    if j != i {
                        assert(t0[j].0 != t0[i as int].0);
                    }
                }
                assert forall|k: Seq<char>| seen2.contains(k) implies exists|j: int|
                    0 <= j < t1.len() && #[trigger] t1[j].0 == k by {
                    if k == key@ {
                        assert(t1[i as int].0 == k);
                    } else {
                        let m = choose|m: int| 0 <= m < seen2.len() && seen2[m] == k;
                        assert(seen[m] == k);
                        assert(seen.contains(k));
                        let j = choose|j: int| 0 <= j < t0.len() && #[trigger] t0[j].0 == k;
                        assert(t1[j].0 == k);
                    }
                }
            }
            return;
        }
        i = i + 1;
    }
    table.push((key, 1));
    proof {
        let t1 = count_views(table@);
        assert(t1 =~= t0.push((key@, 1nat)));
        assert(!seen.contains(key@)) by {
            if seen.contains(key@) {
                let j = choose|j: int| 0 <= j < t0.len() && #[trigger] t0[j].0 == key@;
                assert(table@[j].0@ == key@);
            }
        }
        assert forall|j: int| 0 <= j < t1.len() implies seen2.contains(#[trigger] t1[j].0) && t1[j].1
            == occurrences(seen2, t1[j].0) by {
            lemma_occurrences_push(seen, key@, t1[j].0);
            if j < t0.len() {
                assert(t0[j].0 != key@) by {
                    assert(seen.contains(t0[j].0));
                }
            }
        }
        assert forall|k: Seq<char>| seen2.contains(k) implies exists|j: int|
            0 <= j < t1.len() && #[trigger] t1[j].0 == k by {
            if k == key@ {
                assert(t1[t0.len() as int].0 == k);
            } else {
                let m = choose|m: int| 0 <= m < seen2.len() && seen2[m] == k;
                assert(seen[m] == k);
                assert(seen.contains(k));
                let j = choose|j: int| 0 <= j < t0.len() && #[trigger] t0[j].0 == k;
                assert(t1[j].0 == k);
            }
        }
    }
}

/// Figures about a dataset's contents.
pub struct DatasetStructureAnalysis {
    /// How many examples each category has.
    pub categories: Vec<(String, usize)>,
    /// How many examples each difficulty has, by its name.
    pub difficulty_distribution: Vec<(String, usize)>,
    /// The smallest size in bytes of an expected output that parses, or 0.
    pub min_output_length: usize,
    /// The largest size in bytes of an expected output that parses, or 0.
    pub max_output_length: usize,
}

/// The outcome of checking a dataset.
pub struct DatasetValidationResult {
    pub is_valid: bool,
    pub total_examples: usize,
    pub valid_examples: usize,
    pub validation_errors: Vec<ValidationError>,
    pub structure_analysis: DatasetStructureAnalysis,
}

/// Checks every example of a dataset and gathers figures about it; the
/// dataset is valid when nothing was found.
pub fn validate_dataset(examples: &Vec<ExampleText>) -> (r: DatasetValidationResult)
    ensures
        r.total_examples == examples@.len(),
        r.valid_examples == valid_count(examples@),
        error_views(r.validation_errors@) == example_errors(examples@),
        r.is_valid == (example_errors(examples@).len() == 0),
        counts_of(count_views(r.structure_analysis.categories@), categories(examples@)),
        counts_of(
            count_views(r.structure_analysis.difficulty_distribution@),
            difficulties(examples@),
        ),
        r.structure_analysis.min_output_length == smallest(parsed_sizes(examples@)),
        r.structure_analysis.max_output_length == largest(parsed_sizes(examples@)),
{
    let mut errors: Vec<ValidationError> = Vec::new();
    let mut valid: usize = 0;
    let mut cats: Vec<(String, usize)> = Vec::new();
    let mut diffs: Vec<(String, usize)> = Vec::new();
    let mut min_len: usize = 0;
    let mut max_len: usize = 0;
    let mut any_parsed = false;
    let mut i: usize = 0;
    while i < examples.len()
        invariant
            i <= examples.len(),
            valid <= i,
            valid == valid_count(examples@.take(i as int)),
            error_views(errors@) == example_errors(examples@.take(i as int)),
            counts_of(count_views(cats@), categories(examples@.take(i as int))),
            counts_of(count_views(diffs@), difficulties(examples@.take(i as int))),
            min_len == smallest(parsed_sizes(examples@.take(i as int))),
            max_len == largest(parsed_sizes(examples@.take(i as int))),
            any_parsed == (parsed_sizes(examples@.take(i as int)).len() > 0),
        decreases examples.len() - i,
    {
        let ex = &examples[i];
        let ghost before = examples@.take(i as int);
        let ghost after = examples@.take(i + 1);
        proof {
            assert(after.drop_last() =~= before);
            assert(after.last() == examples@[i as int]);
            assert(categories(after) =~= categories(before).push(ex.category@));
            assert(difficulties(after) =~= difficulties(before).push(difficulty_name(ex.difficulty)));
        }
        let (ok, parsed) = check_example(i, ex, &mut errors);
        if ok {
            valid = valid + 1;
        }
        count_key(&mut cats, owned(ex.category.as_str()), Ghost(categories(before)));
        count_key(&mut diffs, owned(difficulty_label(&ex.difficulty)), Ghost(difficulties(before)));
        if parsed {
            let size = ex.expected_output.as_str().len();
            proof {
                let rest = parsed_sizes(before);
                assert(parsed_sizes(after) == rest.push(size));
                assert(rest.push(size).drop_last() =~= rest);
            }
            if !any_parsed {
                min_len = size;
                max_len = size;
            } else {
                if size < min_len {
                    min_len = size;
                }
                if size > max_len {
                    max_len = size;
                }
            }
            any_parsed = true;
        }
        i = i + 1;
    }
    proof {
        assert(examples@.take(i as int) =~= examples@);
    }
    let is_valid = errors.len() == 0;
    DatasetValidationResult {
        is_valid,
        total_examples: examples.len(),
        valid_examples: valid,
        validation_errors: errors,
        structure_analysis: DatasetStructureAnalysis {
            categories: cats,
            difficulty_distribution: diffs,
            min_output_length: min_len,
            max_output_length: max_len,
        },
    }
}

/// Runs the checks on every example: how many pass them all, and what they
/// find, example by example and in the order of the checks.
pub fn check_examples(examples: &Vec<ExampleText>) -> (r: (usize, Vec<ValidationError>))
    ensures
        r.0 == valid_count(examples@),
        error_views(r.1@) == example_errors(examples@),
{
    let result = validate_dataset(examples);
    (result.valid_examples, result.validation_errors)
}

/// An example yields no finding exactly when it passes every check.
proof fn lemma_findings_empty_iff_valid(index: int, ex: ExampleText)
    ensures
        (example_findings(index, ex).len() == 0) == example_is_valid(ex),
{
}

/// A dataset yields no finding exactly when every one of its examples
/// passes every check; at most all of them pass.
pub proof fn law_valid_iff_no_findings(examples: Seq<ExampleText>)
    ensures
        valid_count(examples) <= examples.len(),
        (example_errors(examples).len() == 0) == (valid_count(examples) == examples.len()),
    decreases examples.len(),
{
    if examples.len() > 0 {
        law_valid_iff_no_findings(examples.drop_last());
        lemma_findings_empty_iff_valid(examples.len() - 1, examples.last());
    }
}


/// Most models trained at the same time.
pub const MAX_PARALLEL_TRAININGS: usize = 3;

/// Examples per training batch.
pub const BATCH_SIZE: usize = 10;

/// How many models are trained at the same time: with parallel training,
/// as many as there are models but at most `MAX_PARALLEL_TRAININGS`;
/// otherwise one.
pub fn max_concurrent_trainings(model_count: usize, parallel_training: bool) -> (r: usize)
    ensures
        r == if parallel_training {
            if model_count < MAX_PARALLEL_TRAININGS {
                model_count
            } else {
                MAX_PARALLEL_TRAININGS
            }
        } else {
            1
        },
{
    if parallel_training {
        if model_count < MAX_PARALLEL_TRAININGS {
            model_count
        } else {
            MAX_PARALLEL_TRAININGS
        }
    } else {
        1
    }
}

/// How many batches of `BATCH_SIZE` examples a dataset of `example_count`
/// examples makes, the last one possibly short.
pub fn batch_count(example_count: usize) -> (r: usize)
    ensures
        r == (example_count + BATCH_SIZE - 1) / (BATCH_SIZE as int),
{
    let whole = example_count / BATCH_SIZE;
    if example_count % BATCH_SIZE == 0 {
        whole
    } else {
        whole + 1
    }
}

} // verus!
