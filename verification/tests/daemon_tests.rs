use typomorph::classifier::{Language, LanguageClassifier};
use typomorph::cloud::{CloudError, CloudTransport, PromptCloudClient};
use typomorph::daemon::{
    is_developer_window, improve_prompt_command, keys_line_chars, parse_keycode,
    should_bypass_window, simulate_line, usable_api_key, KeystrokeAction, KeystrokeTracker,
    PromptOutcome,
};
use typomorph::platform::key_event;
use typomorph::prompt::PromptDetector;

#[test]
fn developer_window_markers_bypass_layout_switching() {
    assert!(is_developer_window("Alacritty"));
    assert!(is_developer_window("Visual Studio Code"));
    assert!(!is_developer_window("Firefox"));
}

#[test]
fn either_class_or_title_can_mark_a_developer_window() {
    assert!(should_bypass_window("firefox", "main.rs - CLion"));
    assert!(should_bypass_window("kitty", ""));
    assert!(!should_bypass_window("firefox", "Mozilla Firefox"));
}

fn press(tracker: &mut KeystrokeTracker, code: u16, classifier: &LanguageClassifier, detector: &PromptDetector) -> KeystrokeAction {
    let action = tracker.on_key(&key_event(code, 1, "kbd".to_string(), 0), classifier, detector);
    let _ = tracker.on_key(&key_event(code, 0, "kbd".to_string(), 0), classifier, detector);
    action
}

#[test]
fn a_word_typed_in_the_wrong_layout_is_retyped_at_the_space() {
    let classifier = LanguageClassifier::new();
    let detector = PromptDetector::new();
    let mut tracker = KeystrokeTracker::new("us", false);
    for code in [34u16, 35, 48, 32, 20, 49] {
        assert!(matches!(press(&mut tracker, code, &classifier, &detector), KeystrokeAction::Idle));
    }
    assert_eq!(tracker.typed_key_count(), 6);
    match press(&mut tracker, 57, &classifier, &detector) {
        KeystrokeAction::SwitchLayout(plan) => {
            assert_eq!(plan.target_layout, "ru");
            assert_eq!(plan.erase, 6);
            assert_eq!(plan.replacement, vec![34, 35, 48, 32, 20, 49]);
            assert!(!plan.prompt_hint);
            assert!(!plan.check_window);
            tracker.complete_switch(&plan.target_layout);
        }
        other => panic!("expected a switch, got {other:?}"),
    }
    assert_eq!(tracker.typed_key_count(), 0);
    assert_eq!(tracker.current_layout(), "ru");
}

#[test]
fn short_words_and_good_words_are_left_alone() {
    let classifier = LanguageClassifier::new();
    let detector = PromptDetector::new();
    let mut tracker = KeystrokeTracker::new("us", true);
    for code in [34u16, 35] {
        press(&mut tracker, code, &classifier, &detector);
    }
    assert!(matches!(press(&mut tracker, 57, &classifier, &detector), KeystrokeAction::Idle));
    for code in [35u16, 18, 38, 38, 24] {
        press(&mut tracker, code, &classifier, &detector);
    }
    assert!(matches!(press(&mut tracker, 57, &classifier, &detector), KeystrokeAction::Idle));
    assert_eq!(tracker.typed_key_count(), 0);
    assert_eq!(tracker.current_layout(), "us");
}

#[test]
fn repeats_and_releases_type_nothing() {
    let classifier = LanguageClassifier::new();
    let detector = PromptDetector::new();
    let mut tracker = KeystrokeTracker::new("us", false);
    tracker.on_key(&key_event(34, 2, "kbd".to_string(), 0), &classifier, &detector);
    tracker.on_key(&key_event(34, 0, "kbd".to_string(), 0), &classifier, &detector);
    tracker.on_key(&key_event(2, 1, "kbd".to_string(), 0), &classifier, &detector);
    assert_eq!(tracker.typed_key_count(), 0);
}

#[test]
fn the_hotkey_shows_the_improved_typed_text() {
    let classifier = LanguageClassifier::new();
    let detector = PromptDetector::new();
    let mut tracker = KeystrokeTracker::new("us", false);
    assert!(matches!(
        {
            tracker.on_key(&key_event(29, 1, "kbd".to_string(), 0), &classifier, &detector);
            tracker.on_key(&key_event(56, 1, "kbd".to_string(), 0), &classifier, &detector);
            tracker.on_key(&key_event(23, 1, "kbd".to_string(), 0), &classifier, &detector)
        },
        KeystrokeAction::Idle
    ));
    tracker.on_key(&key_event(56, 0, "kbd".to_string(), 0), &classifier, &detector);
    tracker.on_key(&key_event(29, 0, "kbd".to_string(), 0), &classifier, &detector);
    for code in [25u16, 38, 31] {
        press(&mut tracker, code, &classifier, &detector);
    }
    tracker.on_key(&key_event(97, 1, "kbd".to_string(), 0), &classifier, &detector);
    tracker.on_key(&key_event(100, 1, "kbd".to_string(), 0), &classifier, &detector);
    match tracker.on_key(&key_event(23, 1, "kbd".to_string(), 0), &classifier, &detector) {
        KeystrokeAction::ShowImprovedPrompt(text) => assert_eq!(text, "please."),
        other => panic!("expected the improved prompt, got {other:?}"),
    }
    assert_eq!(tracker.typed_key_count(), 3);
}

#[test]
fn keycodes_parse_like_std() {
    for token in ["42", "+42", "0", "65535", "007"] {
        let chars: Vec<char> = token.chars().collect();
        assert_eq!(parse_keycode(&chars), token.parse::<u16>().ok(), "{token}");
    }
    for token in ["", "+", "-1", "65536", "4a", "99999999999", "1 2"] {
        let chars: Vec<char> = token.chars().collect();
        assert_eq!(parse_keycode(&chars), None, "{token}");
        assert_eq!(token.parse::<u16>().ok(), None, "{token}");
    }
}

#[test]
fn keys_lines_skip_unknown_tokens() {
    let chars: Vec<char> = "16  x 17 999 57\t18".chars().collect();
    assert_eq!(keys_line_chars(&chars, "us").into_iter().collect::<String>(), "qw e");
}

#[test]
fn simulation_follows_the_readme_session() {
    let classifier = LanguageClassifier::new();
    let first = simulate_line("ghbdtn", "us", &classifier, 600_000);
    assert!(first.decision.switch);
    assert_eq!(first.decision.language, Language::Russian);
    assert_eq!(first.decision.corrected, "привет");
    assert_eq!(first.layout, "ru");

    let second = simulate_line("FHNTV", &first.layout, &classifier, 600_000);
    assert!(second.decision.switch);
    assert_eq!(second.decision.corrected, "АРТЕМ");

    let third = simulate_line("руддщ цщкдв", &second.layout, &classifier, 600_000);
    assert!(third.decision.switch);
    assert_eq!(third.decision.language, Language::English);
    assert_eq!(third.decision.corrected, "hello world");
    assert_eq!(third.layout, "us");
}

#[test]
fn simulation_reads_key_codes_under_the_current_layout() {
    let classifier = LanguageClassifier::new();
    let step = simulate_line("KEYS 34 35 48 32 20 49", "us", &classifier, 600_000);
    assert!(step.decision.switch);
    assert_eq!(step.decision.corrected, "привет");
    assert_eq!(step.layout, "ru");
    let nothing = simulate_line("KEYS ", "ru", &classifier, 600_000);
    assert!(!nothing.decision.switch);
    assert_eq!(nothing.layout, "ru");
}

#[test]
fn simulation_weighs_only_the_latest_characters() {
    let classifier = LanguageClassifier::new();
    let line = format!("{} ghbdtn", "a".repeat(40));
    let step = simulate_line(&line, "us", &classifier, 600_000);
    assert_eq!(step.decision.corrected.chars().count(), 32);
}

struct EchoTransport;

impl CloudTransport for EchoTransport {
    fn post_json(&self, _endpoint: &str, _headers: &[(&str, &str)], _body: &str) -> Result<String, CloudError> {
        Ok(r#"{"content":[{"type":"text","text":"From the cloud."}],"improved":"Managed."}"#.to_string())
    }
}

#[test]
fn improve_prompt_routes_between_local_and_cloud() {
    let client = PromptCloudClient::with_transport(EchoTransport);
    assert!(matches!(improve_prompt_command("   ", true, None, true, &client), PromptOutcome::Blank));
    match improve_prompt_command("  pls write a poem ", false, None, false, &client) {
        PromptOutcome::Local { improved, signal } => {
            assert_eq!(improved, "please write a poem.");
            assert!(signal.is_prompt);
        }
        other => panic!("unexpected {other:?}"),
    }
    assert!(matches!(
        improve_prompt_command("write a poem", true, None, false, &client),
        PromptOutcome::NeedsKeyOrPro { .. }
    ));
    assert!(matches!(
        improve_prompt_command("write a poem", true, Some("  "), false, &client),
        PromptOutcome::NeedsKeyOrPro { .. }
    ));
    match improve_prompt_command("write a poem", true, Some("sk-1"), false, &client) {
        PromptOutcome::Cloud { improved, managed, .. } => {
            assert_eq!(improved, "From the cloud.");
            assert!(!managed);
        }
        other => panic!("unexpected {other:?}"),
    }
    match improve_prompt_command("write a poem", true, None, true, &client) {
        PromptOutcome::Cloud { improved, managed, .. } => {
            assert_eq!(improved, "Managed.");
            assert!(managed);
        }
        other => panic!("unexpected {other:?}"),
    }
}

#[test]
fn blank_keys_are_not_used() {
    assert_eq!(usable_api_key(Some(" \n".to_string())), None);
    assert_eq!(usable_api_key(Some("sk".to_string())), Some("sk".to_string()));
    assert_eq!(usable_api_key(None), None);
}
