use typomorph::classifier::{Language, LanguageClassifier};
use typomorph::layout::{
    correct_text_for_layout, evaluate_layout_candidates, infer_layout_from_text,
    keycode_for_character, keycode_to_character, replacement_keycodes, target_layout,
};

#[test]
fn layout_correction_is_unlimited_for_every_supported_language() {
    assert_eq!(target_layout(Language::English), Some("us"));
    assert_eq!(target_layout(Language::Russian), Some("ru"));
    assert_eq!(target_layout(Language::Ukrainian), Some("ua"));
}

#[test]
fn keymaps_round_trip_common_letters() {
    for (keycode, character) in [(16, 'q'), (30, 'a'), (44, 'z'), (57, ' ')] {
        assert_eq!(keycode_to_character(keycode, "us"), Some(character));
    }
    assert_eq!(keycode_for_character('й', "ru"), Some(16));
}

#[test]
fn corrected_text_translates_between_layouts() {
    assert_eq!(correct_text_for_layout("руддщ", "ru", "us"), "hello");
    assert_eq!(correct_text_for_layout("FHNTV", "us", "ru"), "АРТЕМ");
    assert_eq!(correct_text_for_layout("FKKJ", "us", "ru"), "АЛЛО");
}

#[test]
fn simulation_infers_source_layout_from_script() {
    assert_eq!(infer_layout_from_text("ghbdtn"), Some("us"));
    assert_eq!(infer_layout_from_text("руддщ"), Some("ru"));
    assert_eq!(infer_layout_from_text("123 !"), None);
}

#[test]
fn dual_candidate_evaluation_switches_us_gibberish_to_russian() {
    let classifier = LanguageClassifier::new();
    let decision = evaluate_layout_candidates("ghbdtn", "us", &classifier, 750_000);
    assert!(decision.switch);
    assert_eq!(decision.language, Language::Russian);
    assert_eq!(decision.target_layout, Some("ru"));
    assert_eq!(decision.corrected, "привет");
}

#[test]
fn uppercase_short_input_can_trigger_a_russian_layout_switch() {
    let classifier = LanguageClassifier::new();
    let decision = evaluate_layout_candidates("ALLO", "us", &classifier, 650_000);
    assert!(decision.switch);
    assert_eq!(decision.target_layout, Some("ru"));
    assert_eq!(decision.corrected, "ФДДЩ");
}

#[test]
fn dual_candidate_evaluation_switches_russian_gibberish_to_english() {
    let classifier = LanguageClassifier::new();
    let decision = evaluate_layout_candidates("руддщ", "ru", &classifier, 750_000);
    assert!(decision.switch);
    assert_eq!(decision.language, Language::English);
    assert_eq!(decision.target_layout, Some("us"));
    assert_eq!(decision.corrected, "hello");
}

#[test]
fn dual_candidate_evaluation_handles_phrases_and_long_words() {
    let classifier = LanguageClassifier::new();
    for (source, expected) in [
        ("ghbdtn vbh", "привет мир"),
        ("ghjuhfvvbhjdfybt", "программирование"),
    ] {
        let decision = evaluate_layout_candidates(source, "us", &classifier, 650_000);
        assert!(decision.switch, "expected switch for {source}");
        assert_eq!(decision.corrected, expected);
        assert_eq!(decision.target_layout, Some("ru"));
    }

    let reverse = evaluate_layout_candidates("руддщ цщкдв", "ru", &classifier, 650_000);
    assert!(reverse.switch);
    assert_eq!(reverse.language, Language::English);
    assert_eq!(reverse.target_layout, Some("us"));
    assert_eq!(reverse.corrected, "hello world");
}

#[test]
fn hindi_text_is_detected_but_not_auto_corrected_regardless_of_current_layout() {
    let classifier = LanguageClassifier::new();
    for current_layout in ["us", "ru"] {
        let decision = evaluate_layout_candidates("नमस्ते दुनिया", current_layout, &classifier, 600_000);
        assert!(!decision.switch, "layout={current_layout}");
        assert_eq!(decision.language, Language::Hindi, "layout={current_layout}");
        assert_eq!(decision.target_layout, None, "layout={current_layout}");
        assert_eq!(decision.corrected, "नमस्ते दुनिया", "layout={current_layout}");
    }
}

#[test]
fn keymap_round_trip_holds_for_every_letter_key() {
    for layout in ["us", "ru"] {
        for keycode in (16u16..=25).chain(30..=38).chain(44..=50) {
            let character = keycode_to_character(keycode, layout).expect("letter key");
            assert_eq!(keycode_for_character(character, layout), Some(keycode), "{layout} {keycode}");
        }
    }
}

#[test]
fn uppercase_letters_find_their_key() {
    assert_eq!(keycode_for_character('Й', "ru"), Some(16));
    assert_eq!(keycode_for_character('Q', "us"), Some(16));
    assert_eq!(keycode_for_character('1', "us"), None);
}

#[test]
fn unknown_layout_names_use_the_us_rows() {
    assert_eq!(keycode_to_character(16, "de"), Some('q'));
    assert_eq!(keycode_to_character(2, "us"), None);
}

#[test]
fn correction_keeps_characters_without_a_key_and_the_length() {
    let corrected = correct_text_for_layout("ghbdtn, 42!", "us", "ru");
    assert_eq!(corrected, "привет, 42!");
    assert_eq!(corrected.chars().count(), "ghbdtn, 42!".chars().count());
}

#[test]
fn replacement_keys_skip_characters_without_a_key() {
    assert_eq!(replacement_keycodes("при вет", "ru"), vec![34, 35, 48, 32, 20, 49]);
}

#[test]
fn no_switch_keeps_the_text_and_offers_no_layout() {
    let classifier = LanguageClassifier::new();
    let decision = evaluate_layout_candidates("hello", "us", &classifier, 600_000);
    assert!(!decision.switch);
    assert_eq!(decision.target_layout, None);
    assert_eq!(decision.corrected, "hello");
}

#[test]
fn a_switch_never_goes_below_the_threshold() {
    let classifier = LanguageClassifier::new();
    let decision = evaluate_layout_candidates("ghbdtn", "us", &classifier, 1_000_001);
    assert!(!decision.switch);
    let decision = evaluate_layout_candidates("ghbdtn", "us", &classifier, 600_000);
    assert!(decision.switch);
    assert!(decision.confidence >= 600_000);
}

#[test]
fn ascii_text_round_trips_through_the_russian_layout() {
    let inputs = ["Hello, World!", "ghbdtn", "Qwerty 123 [x]; 'z'", "", "MiXeD CaSe"];
    for text in inputs {
        let there = correct_text_for_layout(text, "us", "ru");
        assert_eq!(there.chars().count(), text.chars().count());
        assert_eq!(correct_text_for_layout(&there, "ru", "us"), text, "input {text:?}");
    }
    assert_eq!(correct_text_for_layout("ghbdtn", "us", "ru"), "привет");
}
