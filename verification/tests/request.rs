use textgen::config::{textgen_model_config, GenerationSettings};
use textgen::request::{
    completions, string_to_static_str, strip_prompt, TextGenQuery, MAX_BODY_BYTES,
};

#[test]
fn strip_prompt_takes_off_the_echo() {
    let prompt = "Once upon a time";
    let completion = "Once upon a time there was a fox.";
    assert_eq!(
        strip_prompt(completion, prompt.chars().count()),
        Some(" there was a fox.".to_string())
    );
    assert_eq!(strip_prompt(completion, 0), Some(completion.to_string()));
    assert_eq!(strip_prompt(prompt, prompt.chars().count()), Some(String::new()));
}

#[test]
fn strip_prompt_counts_characters() {
    let prompt = "héllo wörld";
    assert_eq!(prompt.chars().count(), 11);
    assert_eq!(prompt.len(), 13);
    let completion = "héllo wörld, ça va";
    assert_eq!(strip_prompt(completion, 11), Some(", ça va".to_string()));
}

#[test]
fn strip_prompt_has_nothing_for_a_short_completion() {
    assert_eq!(strip_prompt("abc", 4), None);
    assert_eq!(strip_prompt("", 1), None);
    assert_eq!(strip_prompt("héé", 4), None);
    assert_eq!(strip_prompt("héé", 3), Some(String::new()));
}

#[test]
fn completions_keep_their_order() {
    let prompt = "The fox";
    let outputs = vec![
        "The fox jumps.".to_string(),
        "The fox".to_string(),
        "The fox sleeps; the dog runs.".to_string(),
    ];
    assert_eq!(
        completions(prompt, &outputs),
        Some(vec![
            " jumps.".to_string(),
            String::new(),
            " sleeps; the dog runs.".to_string(),
        ])
    );
    assert_eq!(completions(prompt, &vec![]), Some(vec![]));
}

#[test]
fn completions_slice_by_length_alone() {
    // A completion that does not begin with the prompt loses as many
    // characters as the prompt has.
    let outputs = vec!["abcdef".to_string()];
    assert_eq!(completions("xyz", &outputs), Some(vec!["def".to_string()]));
}

#[test]
fn completions_have_nothing_where_one_is_short() {
    let outputs = vec!["The fox jumps.".to_string(), "The".to_string()];
    assert_eq!(completions("The fox", &outputs), None);
}

#[test]
fn prompt_and_rest_make_up_the_completion() {
    for (prompt, completion) in [("", ""), ("a", "ab"), ("日本", "日本語のテキスト"), ("x y", "x y z")] {
        let rest = strip_prompt(completion, prompt.chars().count()).unwrap();
        assert_eq!(format!("{}{}", prompt, rest), completion);
    }
}

#[test]
fn query_needs_a_prompt() {
    let query = TextGenQuery {
        prompt: "Hello".to_string(),
        context: None,
        generate_sentences: None,
        generate_paragraphs: None,
    };
    assert!(query.is_well_formed());
    let query = TextGenQuery {
        prompt: String::new(),
        context: Some(vec!["the quick brown fox".to_string()]),
        generate_sentences: Some(1),
        generate_paragraphs: Some(1),
    };
    assert!(!query.is_well_formed());
}

#[test]
fn body_limit_is_sixteen_kibibytes() {
    assert_eq!(MAX_BODY_BYTES, 16 * 1024);
}

#[test]
fn static_string_keeps_its_characters() {
    let leaked: &'static str = string_to_static_str("prompt — text".to_string());
    assert_eq!(leaked, "prompt — text");
    assert_eq!(string_to_static_str(String::new()), "");
}

#[test]
fn model_settings_are_fixed() {
    assert_eq!(
        textgen_model_config(),
        GenerationSettings { max_length: 200, do_sample: false, num_beams: 5, num_return_sequences: 5 }
    );
}
