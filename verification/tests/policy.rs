use textgen::policy::{allowed_tokens_factory, full_vocabulary, DecodingPolicy};
use textgen::tokens::END_ID;

const THE: i64 = 1169;
const QUICK: i64 = 2068;
const BROWN: i64 = 7586;
const FOX: i64 = 21831;
const PERIOD: i64 = 13;
const NEWLINE: i64 = 198;

// A prompt of three tokens.
const PROMPT: [i64; 3] = [15496, 11, 995];

fn history(generated: &[i64]) -> Vec<i64> {
    let mut ids = PROMPT.to_vec();
    ids.extend_from_slice(generated);
    ids
}

#[test]
fn factory_binds_the_request() {
    let policy = allowed_tokens_factory(3, Some(2), None, Some(vec![vec![THE, QUICK]]));
    assert_eq!(policy.prompt_len, 3);
    assert_eq!(policy.generate_sentences, Some(2));
    assert_eq!(policy.generate_paragraphs, None);
    assert_eq!(policy.context_ids, Some(vec![vec![THE, QUICK]]));
}

#[test]
fn generated_ids_lie_behind_the_prompt() {
    let policy = allowed_tokens_factory(3, None, None, None);
    assert_eq!(policy.generated_ids(&history(&[THE, QUICK])), &[THE, QUICK]);
    assert_eq!(policy.generated_ids(&history(&[])), &[] as &[i64]);
    let policy = allowed_tokens_factory(0, None, None, None);
    assert_eq!(policy.generated_ids(&[THE]), &[THE]);
}

#[test]
fn reached_sentence_cap_forces_the_end() {
    let context = Some(vec![vec![THE, QUICK, BROWN, FOX]]);
    let policy = allowed_tokens_factory(3, Some(1), None, context);
    let previous = history(&[THE, PERIOD]);
    assert_eq!(policy.allowed_tokens(&previous, &[THE, PERIOD]), vec![END_ID]);
    let policy = allowed_tokens_factory(3, Some(1), None, None);
    assert_eq!(policy.allowed_tokens(&previous, &[THE, PERIOD]), vec![END_ID]);
}

#[test]
fn sentence_cap_counts_the_cleaned_text() {
    let policy = allowed_tokens_factory(3, Some(1), None, None);
    // Two periods were generated, one of them in an abbreviation that the
    // cleanup took out: one sentence, the cap is met.
    let previous = history(&[THE, PERIOD, QUICK, PERIOD]);
    assert_eq!(policy.allowed_tokens(&previous, &[THE, QUICK, PERIOD]), vec![END_ID]);
    // Counted on the raw ids there are two, and the cap of one is passed by.
    assert_eq!(
        policy.allowed_tokens(&previous, &[THE, PERIOD, QUICK, PERIOD]),
        full_vocabulary()
    );
}

#[test]
fn cap_is_met_by_equality_only() {
    let policy = allowed_tokens_factory(3, Some(1), None, Some(vec![vec![THE, QUICK, BROWN]]));
    let previous = history(&[THE]);
    assert_eq!(policy.allowed_tokens(&previous, &[THE]), vec![QUICK, END_ID]);
    assert_eq!(policy.allowed_tokens(&previous, &[PERIOD, PERIOD]), vec![QUICK, END_ID]);
}

#[test]
fn cap_of_zero_ends_at_the_first_step() {
    let policy = allowed_tokens_factory(3, Some(0), None, Some(vec![vec![THE, QUICK]]));
    assert_eq!(policy.allowed_tokens(&history(&[]), &[]), vec![END_ID]);
    let policy = allowed_tokens_factory(3, None, Some(0), None);
    assert_eq!(policy.allowed_tokens(&history(&[]), &[]), vec![END_ID]);
    let policy = allowed_tokens_factory(0, Some(0), Some(0), None);
    assert_eq!(policy.allowed_tokens(&[], &[]), vec![END_ID]);
}

#[test]
fn reached_paragraph_cap_forces_the_end() {
    let context = Some(vec![vec![THE, QUICK, BROWN, FOX]]);
    let policy = allowed_tokens_factory(3, Some(5), Some(2), context);
    let previous = history(&[THE, NEWLINE, QUICK, NEWLINE]);
    assert_eq!(
        policy.allowed_tokens(&previous, &[THE, NEWLINE, QUICK, NEWLINE]),
        vec![END_ID]
    );
    let policy = allowed_tokens_factory(3, None, Some(1), None);
    assert_eq!(policy.allowed_tokens(&history(&[628]), &[628]), vec![END_ID]);
}

#[test]
fn context_grounds_the_step() {
    let context = Some(vec![vec![THE, QUICK, BROWN, FOX]]);
    let policy = allowed_tokens_factory(3, Some(3), Some(1), context);
    assert_eq!(
        policy.allowed_tokens(&history(&[]), &[]),
        vec![THE, QUICK, BROWN, FOX, END_ID]
    );
    assert_eq!(
        policy.allowed_tokens(&history(&[THE, QUICK]), &[THE, QUICK]),
        vec![BROWN, END_ID]
    );
    assert_eq!(policy.allowed_tokens(&history(&[FOX, THE]), &[FOX, THE]), vec![END_ID]);
}

#[test]
fn prompt_tokens_are_no_part_of_the_match() {
    // The prompt ends with the snippet's first token; only what was
    // generated is searched for.
    let policy = allowed_tokens_factory(1, None, None, Some(vec![vec![THE, QUICK, BROWN]]));
    assert_eq!(policy.allowed_tokens(&[THE, QUICK], &[QUICK]), vec![BROWN, END_ID]);
}

#[test]
fn without_caps_and_context_the_vocabulary_is_free() {
    let policy = allowed_tokens_factory(3, None, None, None);
    let allowed = policy.allowed_tokens(&history(&[THE, PERIOD]), &[THE, PERIOD]);
    assert_eq!(allowed.len(), 50255);
    assert_eq!(allowed[0], 0);
    assert_eq!(allowed[13], 13);
    assert_eq!(allowed[50254], 50254);
    assert!(!allowed.contains(&END_ID));
    assert!(!allowed.contains(&50255));
    assert_eq!(allowed, full_vocabulary());
    assert_eq!(allowed, (0..50255).collect::<Vec<i64>>());
}

#[test]
fn unmet_caps_leave_the_vocabulary_free() {
    let policy = allowed_tokens_factory(3, Some(3), Some(1), None);
    let allowed = policy.allowed_tokens(&history(&[THE, PERIOD]), &[THE, PERIOD]);
    assert_eq!(allowed, full_vocabulary());
}

#[test]
fn step_gives_the_same_answer_again() {
    let policy = DecodingPolicy {
        prompt_len: 3,
        generate_sentences: Some(2),
        generate_paragraphs: None,
        context_ids: Some(vec![vec![THE, QUICK, BROWN, THE, FOX]]),
    };
    let previous = history(&[THE]);
    let first = policy.allowed_tokens(&previous, &[THE]);
    let second = policy.allowed_tokens(&previous, &[THE]);
    assert_eq!(first, second);
    assert_eq!(first, vec![QUICK, FOX, END_ID]);
}
