use std::time::{Duration, Instant};

use typomorph::classifier::{normalize_for_script, sliding_ngrams, Language, LanguageClassifier, Script};
use typomorph::filter::HardFilterTrie;
use typomorph::ring_buffer::{RingBuffer, Token, RING_BUFFER_CAPACITY};

#[test]
fn english_phrase_is_classified_correctly() {
    let classifier = LanguageClassifier::new();
    let text = "the quick brown fox jumps over the lazy dog";
    assert_eq!(classifier.classify(text), Language::English);
}

#[test]
fn russian_phrase_is_classified_correctly() {
    let classifier = LanguageClassifier::new();
    let text = "этот быстрый тест проверяет переключение раскладки";
    assert_eq!(classifier.classify(text), Language::Russian);
}

#[test]
fn ring_buffer_keeps_32_latest_tokens() {
    let mut buffer = RingBuffer::<32>::new();
    for ch in "abcdefghijklmnopqrstuvwxyz0123456789".chars() {
        buffer.push(ch);
    }

    assert_eq!(buffer.len(), 32);
    let text = buffer.as_string();
    assert_eq!(text.len(), 32);
    assert!(text.starts_with('f') || text.starts_with('e'));
}

#[test]
fn classification_runs_in_under_one_millisecond() {
    let classifier = LanguageClassifier::new();
    let text = "the quick brown fox jumps over the lazy dog while reading a technical document";
    let mut buffer = RingBuffer::<32>::new();
    for ch in text.chars() {
        buffer.push(ch);
    }

    for _ in 0..10 {
        let _ = classifier.classify_buffer(&buffer);
    }

    let start = Instant::now();
    for _ in 0..100 {
        let _ = classifier.classify_buffer(&buffer);
    }
    let elapsed = start.elapsed();
    let avg_time = elapsed / 100;

    assert!(avg_time < Duration::from_millis(1), "avg classification time was {:?}", avg_time);
}

#[test]
fn ring_buffer_starts_empty() {
    let buffer = RingBuffer::<8>::new();
    assert_eq!(buffer.len(), 0);
    assert!(buffer.is_empty());
    assert_eq!(buffer.as_string(), "");
}

#[test]
fn ring_buffer_preserves_order_before_wraparound() {
    let mut buffer = RingBuffer::<5>::new();
    for ch in "abc".chars() {
        buffer.push(ch);
    }
    assert_eq!(buffer.len(), 3);
    assert!(!buffer.is_empty());
    assert_eq!(buffer.as_string(), "abc");
}

#[test]
fn ring_buffer_wraps_and_keeps_only_the_latest_n_in_order() {
    let mut buffer = RingBuffer::<4>::new();
    for ch in "abcdef".chars() {
        buffer.push(ch);
    }
    assert_eq!(buffer.len(), 4);
    assert_eq!(buffer.as_string(), "cdef");
}

#[test]
fn ring_buffer_default_matches_new() {
    let buffer: RingBuffer<8> = RingBuffer::default();
    assert_eq!(buffer.len(), 0);
    assert_eq!(buffer.as_string(), "");
}

#[test]
fn hard_filter_trie_rejects_only_configured_substrings() {
    let trie = HardFilterTrie::new(&["xx", "qzq"]);
    assert!(trie.rejects("aaxxbb"));
    assert!(trie.rejects("qzq"));
    assert!(!trie.rejects("abcdef"));
    assert!(!trie.rejects(""));
}

#[test]
fn hard_filter_trie_with_no_patterns_rejects_nothing() {
    let trie = HardFilterTrie::new(&[]);
    assert!(!trie.rejects("anything at all"));
    assert!(!trie.rejects(""));
}

#[test]
fn empty_input_classifies_as_english_without_panicking() {
    let classifier = LanguageClassifier::new();
    assert_eq!(classifier.classify(""), Language::English);

    let buffer = RingBuffer::<32>::new();
    assert_eq!(classifier.classify_buffer(&buffer), Language::English);
}

#[test]
fn whitespace_only_input_has_zero_confidence() {
    let classifier = LanguageClassifier::new();
    let (_, confidence) = classifier.classify_with_confidence("   ");
    assert_eq!(confidence, 0);
}

#[test]
fn german_phrase_is_classified_correctly() {
    let classifier = LanguageClassifier::new();
    let text = "ich bin mit dem auf und ein sehr guter mensch";
    assert_eq!(classifier.classify(text), Language::German);
}

#[test]
fn ukrainian_marker_selects_ukrainian_over_russian() {
    let classifier = LanguageClassifier::new();
    let text = "привіт як справи";
    assert_eq!(classifier.classify(text), Language::Ukrainian);
}

#[test]
fn mixed_ukrainian_and_russian_markers_prefer_ukrainian() {
    let classifier = LanguageClassifier::new();
    let text = "їжа і чай ъ";
    assert_eq!(classifier.classify(text), Language::Ukrainian);
}

#[test]
fn hindi_phrase_is_classified_correctly() {
    let classifier = LanguageClassifier::new();
    let text = "नमस्ते दुनिया, यह एक परीक्षण है";
    assert_eq!(classifier.classify(text), Language::Hindi);
}

#[test]
fn hindi_takes_priority_over_latin_and_cyrillic_scripts_when_mixed() {
    let classifier = LanguageClassifier::new();
    let text = "hello नमस्ते привет";
    assert_eq!(classifier.classify(text), Language::Hindi);
}

#[test]
fn hindi_classification_has_high_confidence() {
    let classifier = LanguageClassifier::new();
    let (language, confidence) = classifier.classify_with_confidence("नमस्ते");
    assert_eq!(language, Language::Hindi);
    assert!(confidence >= 900_000, "confidence was {confidence}");
}

#[test]
fn devanagari_normalization_keeps_only_devanagari_and_whitespace() {
    let normalized = normalize_for_script("नमस्ते hello 123", Script::Devanagari);
    assert_eq!(normalized, "नमस्ते  ");
}

#[test]
fn ring_buffer_classifies_hindi_text_end_to_end() {
    let classifier = LanguageClassifier::new();
    let mut buffer = RingBuffer::<32>::new();
    for ch in "नमस्ते दुनिया".chars() {
        buffer.push(ch);
    }
    assert_eq!(classifier.classify_buffer(&buffer), Language::Hindi);
}

#[test]
fn ring_buffer_holds_exactly_the_latest_capacity_characters() {
    let text: String = "абвгдеёжзийклмнопрстуфхцчшщъыьэюя0123456789".to_string();
    let mut buffer = RingBuffer::<RING_BUFFER_CAPACITY>::new();
    for ch in text.chars() {
        buffer.push(ch);
    }
    let chars: Vec<char> = text.chars().collect();
    let expected: String = chars[chars.len() - RING_BUFFER_CAPACITY..].iter().collect();
    assert_eq!(buffer.as_string(), expected);
    assert_eq!(buffer.len(), RING_BUFFER_CAPACITY);
}

#[test]
fn token_keeps_its_character() {
    assert_eq!(Token::new('ж').ch(), 'ж');
}

#[test]
fn hard_filter_trie_matches_case_insensitively_and_with_overlaps() {
    let trie = HardFilterTrie::new(&["ьь", "aab"]);
    assert!(trie.rejects("xAAB"));
    assert!(trie.rejects("aaab"));
    assert!(trie.rejects("ЬЬ"));
    assert!(!trie.rejects("ab"));
}

#[test]
fn classification_confidence_is_a_fraction_of_a_million() {
    let classifier = LanguageClassifier::new();
    for text in ["", "hello world", "привет мир", "नमस्ते", "12345"] {
        let (_, confidence) = classifier.classify_with_confidence(text);
        assert!(confidence <= 1_000_000, "{text:?} gave {confidence}");
    }
}

#[test]
fn sliding_ngrams_cover_every_window() {
    assert_eq!(sliding_ngrams("abcd", 2), vec!["ab".to_string(), "bc".to_string(), "cd".to_string()]);
    assert!(sliding_ngrams("a", 2).is_empty());
}

#[test]
fn cyrillic_normalization_drops_latin_and_digits() {
    assert_eq!(normalize_for_script("При Вет hi 5", Script::Cyrillic), "при вет  ");
}

#[test]
fn profile_tables_report_weights_and_gram_counts() {
    let profile = typomorph::classifier::build_english_profile();
    let (total, count) = profile.character_weight_total("ee");
    assert_eq!(count, 2);
    assert_eq!(total, 2 * profile.char_weight('e') as u128);
    assert_eq!(profile.character_weight_total("").1, 0);
    let counts = profile.gram_counts("the", 2);
    assert_eq!(counts, vec![profile.bigram_count("th"), profile.bigram_count("he")]);
    assert_eq!(profile.gram_counts("th", 3), Vec::<u32>::new());
    assert!(profile.bigram_count("th") > 0);
    assert_eq!(profile.bigram_count("q7"), 0);
}
