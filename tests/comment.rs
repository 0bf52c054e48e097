use mindrig_parser::comment::{parse_comment, parse_folded_comment};
use mindrig_parser::walk::{contains_prompt_word, mentions_prompt};

#[test]
fn basic() {
    assert_eq!(parse_comment("@prompt"), Some(true));
    assert_eq!(parse_comment(" @prompt "), Some(true));
    assert_eq!(parse_comment("@prompt greeting"), Some(true));
    assert_eq!(parse_comment("greeting @prompt"), Some(true));
}

#[test]
fn extra() {
    assert_eq!(parse_comment("@prompt for user greeting"), Some(true));
    assert_eq!(parse_comment("This is a @prompt comment"), Some(true));
    assert_eq!(parse_comment("* @prompt"), Some(true));
    assert_eq!(parse_comment("*@prompt"), Some(true));
    assert_eq!(parse_comment("* @prompt greeting"), Some(true));
    assert_eq!(parse_comment("  * @prompt  "), Some(true));
}

#[test]
fn case() {
    assert_eq!(parse_comment("@PROMPT"), Some(true));
    assert_eq!(parse_comment("@Prompt"), Some(true));
    assert_eq!(parse_comment("@PrOmPt"), Some(true));
    assert_eq!(parse_comment("* @PROMPT"), Some(true));
    assert_eq!(parse_comment("@PROMPT for testing"), Some(true));
    assert_eq!(parse_comment("@Prompt with mixed case"), Some(true));
}

#[test]
fn not_exact() {
    assert_eq!(parse_comment("@prompting"), Some(false));
    assert_eq!(parse_comment("my@prompt"), Some(false));
    assert_eq!(parse_comment("@prompter"), Some(false));
    assert_eq!(parse_comment("@prompt_var"), Some(false));
    assert_eq!(parse_comment("* @prompting"), Some(false));
    assert_eq!(parse_comment("* my@prompt"), Some(false));
}

#[test]
fn unrelated_text() {
    assert_eq!(parse_comment("regular comment"), None);
    assert_eq!(parse_comment("* This is documentation"), None);
    assert_eq!(parse_comment("TODO: fix this"), None);
    assert_eq!(parse_comment(""), None);
    assert_eq!(parse_comment("   "), None);
}

#[test]
fn punctuation() {
    assert_eq!(parse_comment("@prompt!"), Some(true));
    assert_eq!(parse_comment("@prompt."), Some(true));
    assert_eq!(parse_comment("@prompt,"), Some(true));
    assert_eq!(parse_comment("(@prompt)"), Some(true));
}

#[test]
fn repeating() {
    assert_eq!(parse_comment("@prompt for @prompt usage"), Some(true));
}

#[test]
fn marker_boundary_examples() {
    assert_eq!(parse_comment("@prompt"), Some(true));
    assert_eq!(parse_comment("@prompting"), Some(false));
    assert_eq!(parse_comment("my@prompt"), Some(false));
    assert_eq!(parse_comment("unrelated"), None);
    assert_eq!(parse_comment("@prompt!"), Some(true));
}

#[test]
fn only_first_marker_is_checked() {
    assert_eq!(parse_comment("@prompting then @prompt"), Some(false));
    assert_eq!(parse_comment("x@prompt @prompt"), Some(false));
}

#[test]
fn digits_and_underscores_continue_words() {
    assert_eq!(parse_comment("1@prompt"), Some(false));
    assert_eq!(parse_comment("@prompt2"), Some(false));
    assert_eq!(parse_comment("_@prompt"), Some(false));
    assert_eq!(parse_comment("-@prompt-"), Some(true));
}

#[test]
fn unicode_letters_continue_words() {
    assert_eq!(parse_comment("é@prompt"), Some(false));
    assert_eq!(parse_comment("@promptß"), Some(false));
    assert_eq!(parse_comment("« @prompt »"), Some(true));
}

#[test]
fn folded_text_is_taken_as_is() {
    assert_eq!(parse_folded_comment("@prompt"), Some(true));
    assert_eq!(parse_folded_comment("@PROMPT"), None);
    assert_eq!(parse_folded_comment("a@prompt"), Some(false));
    assert_eq!(parse_folded_comment("@prompt"), parse_comment("@Prompt"));
}

#[test]
fn short_text_has_no_marker() {
    assert_eq!(parse_folded_comment("@promp"), None);
    assert_eq!(parse_folded_comment("prompt"), None);
}

#[test]
fn prompt_word_in_folded_text() {
    assert!(contains_prompt_word("userprompt"));
    assert!(contains_prompt_word("prompt"));
    assert!(!contains_prompt_word("userPrompt"));
    assert!(!contains_prompt_word("prmpt"));
    assert!(!contains_prompt_word(""));
}

#[test]
fn identifier_heuristic_ignores_case() {
    assert!(mentions_prompt("userPrompt"));
    assert!(mentions_prompt("SYSTEM_PROMPT"));
    assert!(mentions_prompt("prompt"));
    assert!(!mentions_prompt("msg"));
    assert!(!mentions_prompt("alsoPrmpt"));
}
