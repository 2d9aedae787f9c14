use typomorph::classifier::Language;
use typomorph::improver::{expand_word, improve_rule_based};
use typomorph::prompt::PromptDetector;

#[test]
fn detects_english_prompt() {
    let detector = PromptDetector::new();
    let signal = detector.detect("Please write a short story about a dragon and a knight");
    assert!(signal.is_prompt, "confidence was {}", signal.confidence);
    assert_eq!(signal.language, Language::English);
}

#[test]
fn detects_russian_prompt() {
    let detector = PromptDetector::new();
    let signal = detector.detect("Пожалуйста, напиши короткий рассказ про дракона");
    assert!(signal.is_prompt, "confidence was {}", signal.confidence);
    assert_eq!(signal.language, Language::Russian);
}

#[test]
fn detects_hindi_prompt() {
    let detector = PromptDetector::new();
    let signal = detector.detect("कृपया एक छोटी कहानी लिखो");
    assert!(signal.is_prompt, "confidence was {}", signal.confidence);
    assert_eq!(signal.language, Language::Hindi);
}

#[test]
fn detects_question_style_prompt_without_explicit_verb() {
    let detector = PromptDetector::new();
    let signal = detector.detect("how do I fix this bug in my rust program?");
    assert!(signal.is_prompt, "confidence was {}", signal.confidence);
}

#[test]
fn casual_short_chat_is_not_a_prompt() {
    let detector = PromptDetector::new();
    for text in ["hey", "ok thanks", "lol", "привет"] {
        let signal = detector.detect(text);
        assert!(!signal.is_prompt, "{text:?} scored {}", signal.confidence);
    }
}

#[test]
fn empty_input_is_not_a_prompt() {
    let detector = PromptDetector::new();
    let signal = detector.detect("   ");
    assert!(!signal.is_prompt);
    assert_eq!(signal.confidence, 0);
}

#[test]
fn expands_abbreviations_and_adds_terminal_punctuation() {
    assert_eq!(improve_rule_based("pls   write   me a poem"), "please write me a poem.");
}

#[test]
fn collapses_repeated_question_marks_without_adding_a_period() {
    assert_eq!(improve_rule_based("what is rust???"), "what is rust?");
}

#[test]
fn expands_russian_abbreviations() {
    assert_eq!(improve_rule_based("плз объясни это"), "пожалуйста объясни это.");
}

#[test]
fn trims_and_collapses_internal_whitespace() {
    assert_eq!(improve_rule_based("  hello   world  "), "hello world.");
}

#[test]
fn leaves_already_well_formed_text_unchanged() {
    assert_eq!(
        improve_rule_based("Explain quantum computing simply."),
        "Explain quantum computing simply."
    );
}

#[test]
fn empty_input_stays_empty() {
    assert_eq!(improve_rule_based("   "), "");
}

#[test]
fn prompt_confidence_is_capped_and_decides_at_one_half() {
    let detector = PromptDetector::new();
    let signal = detector
        .detect("Please act as a teacher and explain how to write a compiler, could you help me?");
    assert_eq!(signal.confidence, 1_000_000);
    assert!(signal.is_prompt);
    let short = detector.detect("write");
    assert_eq!(short.confidence, 450_000);
    assert!(!short.is_prompt);
}

#[test]
fn a_final_question_mark_and_length_add_to_the_score() {
    let detector = PromptDetector::new();
    let signal = detector.detect("is this a good idea?");
    assert_eq!(signal.confidence, 300_000);
}

#[test]
fn abbreviations_keep_their_trailing_punctuation() {
    let word: Vec<char> = "THX!!".chars().collect();
    let expanded: String = expand_word(&word).into_iter().collect();
    assert_eq!(expanded, "thanks!!");
    assert_eq!(improve_rule_based("u ok"), "you ok.");
    assert_eq!(improve_rule_based("спс!!"), "спасибо!");
}

#[test]
fn improved_text_always_ends_a_sentence() {
    for text in ["hello", "what?", "wow!!!", "note:", "a b c", "щас"] {
        let improved = improve_rule_based(text);
        let last = improved.chars().last().expect("not empty");
        assert!(matches!(last, '.' | '!' | '?' | ':'), "{text:?} gave {improved:?}");
    }
}

#[test]
fn blank_text_of_any_whitespace_stays_empty() {
    assert_eq!(improve_rule_based("\t\n \u{a0}"), "");
    assert_eq!(improve_rule_based(""), "");
}

#[test]
fn rule_based_improvement_is_idempotent() {
    let inputs = [
        "  pls   help me  with this??? ",
        "btw can u explain asap!!",
        "thx",
        "плз помоги щас",
        "Already clean.",
        "what is ur name?!?!",
        "   ",
        "",
        "PLZ fix it;;",
    ];
    for text in inputs {
        let once = improve_rule_based(text);
        assert_eq!(improve_rule_based(&once), once, "input {text:?}");
    }
    assert_eq!(improve_rule_based("btw can u explain asap!!"), "by the way can you explain as soon as possible!");
}
