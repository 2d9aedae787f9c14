//! Prompt detection and the deterministic, offline prompt cleanup.

use vstd::prelude::*;
use crate::classifier::{Language, LanguageClassifier, classify_spec};
use crate::text::{
    chars_of, contains_any, count_words, lowercase, lowercase_chars, occurs_any, string_of, trim,
    trim_chars, views_of, word_count,
};

verus! {

/// What `PromptDetector::detect` reports about a text.
#[derive(Clone, Copy, Debug, PartialEq, Structural)]
pub struct PromptSignal {
    pub is_prompt: bool,
    /// Confidence in millionths.
    pub confidence: u32,
    pub language: Language,
}

/// Imperative verbs and request phrases, by language; Latin languages other
/// than English use the English list and Ukrainian uses the Russian one.
pub open spec fn instruction_markers(language: Language) -> Seq<&'static str> {
    match language {
        Language::Russian | Language::Ukrainian => seq![
            "напиши", "объясни", "сгенерируй", "переведи", "составь", "придумай", "исправь",
            "перепиши", "опиши", "сравни", "расскажи", "помоги", "как сделать", "дай мне", "создай",
        ],
        Language::Hindi => seq![
            "लिखो", "लिखिए", "समझाओ", "समझाइए", "बनाओ", "बनाइए", "अनुवाद करो", "बताओ", "बताइए",
            "मदद करो", "कैसे करें", "सूची बनाओ", "सुधारो",
        ],
        _ => seq![
            "write", "explain", "generate", "summarize", "translate", "create", "list", "analyze",
            "fix", "refactor", "debug", "describe", "compare", "how do i", "how to", "give me",
            "help me", "act as",
        ],
    }
}

/// Role-play phrases, by language.
pub open spec fn roleplay_markers(language: Language) -> Seq<&'static str> {
    match language {
        Language::Russian | Language::Ukrainian => seq!["ты — ", "представь что ты", "веди себя как"],
        Language::Hindi => seq!["तुम हो", "एक की तरह व्यवहार करो"],
        _ => seq!["act as", "you are a", "pretend to be", "behave like"],
    }
}

/// Politeness words, by language.
pub open spec fn politeness_markers(language: Language) -> Seq<&'static str> {
    match language {
        Language::Russian | Language::Ukrainian => seq!["пожалуйста"],
        Language::Hindi => seq!["कृपया"],
        _ => seq!["please"],
    }
}

/// The prompt score of `text` (in millionths, before capping): 150000 for
/// four or more words, 100000 more for eight or more, 150000 for a final
/// question mark, 450000 for an instruction, 250000 for role play and 100000
/// for politeness. The text is taken trimmed; markers are looked up in its
/// lowercase form.
pub open spec fn prompt_score(text: Seq<char>) -> nat {
    let trimmed = trim(text);
    let language = classify_spec(trimmed);
    let lower = lowercase(trimmed);
    let words = word_count(lower);
    (if words >= 4 { 150_000nat } else { 0nat })
        + (if words >= 8 { 100_000nat } else { 0nat })
        + (if trimmed.last() == '?' { 150_000nat } else { 0nat })
        + (if occurs_any(lower, views_of(instruction_markers(language))) { 450_000nat } else { 0nat })
        + (if occurs_any(lower, views_of(roleplay_markers(language))) { 250_000nat } else { 0nat })
        + (if occurs_any(lower, views_of(politeness_markers(language))) { 100_000nat } else { 0nat })
}

/// What `detect` reports: nothing for blank text; otherwise the language of
/// the trimmed text, the score capped at 1000000, and whether it reaches 500000.
pub open spec fn detect_spec(text: Seq<char>) -> PromptSignal {
    if trim(text).len() == 0 {
        PromptSignal { is_prompt: false, confidence: 0, language: Language::English }
    } else {
        let score = prompt_score(text);
        let confidence: u32 = if score > 1_000_000 { 1_000_000 } else { score as u32 };
        PromptSignal {
            is_prompt: confidence >= 500_000,
            confidence,
            language: classify_spec(trim(text)),
        }
    }
}

/// Recognises text that reads like a request to an AI assistant.
pub struct PromptDetector {
    classifier: LanguageClassifier,
}

/// Whether an instruction marker of `language` occurs in `text`.
pub fn contains_instruction_marker(text: &[char], language: Language) -> (r: bool)
    ensures
        r == occurs_any(text@, views_of(instruction_markers(language))),
{
    match language {
        Language::Russian | Language::Ukrainian => {
            let m: [&str; 15] = [
                "напиши", "объясни", "сгенерируй", "переведи", "составь", "придумай", "исправь",
                "перепиши", "опиши", "сравни", "расскажи", "помоги", "как сделать", "дай мне", "создай",
            ];
            assert(m@ =~= instruction_markers(language));
            contains_any(text, &m)
        },
        Language::Hindi => {
            let m: [&str; 13] = [
                "लिखो", "लिखिए", "समझाओ", "समझाइए", "बनाओ", "बनाइए", "अनुवाद करो", "बताओ", "बताइए",
                "मदद करो", "कैसे करें", "सूची बनाओ", "सुधारो",
            ];
            assert(m@ =~= instruction_markers(language));
            contains_any(text, &m)
        },
        _ => {
            let m: [&str; 18] = [
                "write", "explain", "generate", "summarize", "translate", "create", "list", "analyze",
                "fix", "refactor", "debug", "describe", "compare", "how do i", "how to", "give me",
                "help me", "act as",
            ];
            assert(m@ =~= instruction_markers(language));
            contains_any(text, &m)
        },
    }
}

/// Whether a role-play marker of `language` occurs in `text`.
pub fn contains_roleplay_marker(text: &[char], language: Language) -> (r: bool)
    ensures
        r == occurs_any(text@, views_of(roleplay_markers(language))),
{
    match language {
        Language::Russian | Language::Ukrainian => {
            let m: [&str; 3] = ["ты — ", "представь что ты", "веди себя как"];
            assert(m@ =~= roleplay_markers(language));
            contains_any(text, &m)
        },
        Language::Hindi => {
            let m: [&str; 2] = ["तुम हो", "एक की तरह व्यवहार करो"];
            assert(m@ =~= roleplay_markers(language));
            contains_any(text, &m)
        },
        _ => {
            let m: [&str; 4] = ["act as", "you are a", "pretend to be", "behave like"];
            assert(m@ =~= roleplay_markers(language));
            contains_any(text, &m)
        },
    }
}

/// Whether a politeness marker of `language` occurs in `text`.
pub fn contains_politeness_marker(text: &[char], language: Language) -> (r: bool)
    ensures
        r == occurs_any(text@, views_of(politeness_markers(language))),
{
    match language {
        Language::Russian | Language::Ukrainian => {
            let m: [&str; 1] = ["пожалуйста"];
            assert(m@ =~= politeness_markers(language));
            contains_any(text, &m)
        },
        Language::Hindi => {
            let m: [&str; 1] = ["कृपया"];
            assert(m@ =~= politeness_markers(language));
            contains_any(text, &m)
        },
        _ => {
            let m: [&str; 1] = ["please"];
            assert(m@ =~= politeness_markers(language));
            contains_any(text, &m)
        },
    }
}

impl PromptDetector {
    /// The detector's classifier is well formed.
    pub closed spec fn wf(&self) -> bool {
        self.classifier.wf()
    }

    /// A detector with the built-in classifier.
    pub fn new() -> (d: Self)
        ensures
            d.wf(),
    {
        Self { classifier: LanguageClassifier::new() }
    }

    /// Scores how much `text` reads like a prompt (see `detect_spec`).
    pub fn detect(&self, text: &str) -> (s: PromptSignal)
        ensures
            s == detect_spec(text@),
    {
        let chars = chars_of(text);
        let trimmed = trim_chars(&chars);
        if trimmed.len() == 0 {
            return PromptSignal { is_prompt: false, confidence: 0, language: Language::English };
        }
        let trimmed_text = string_of(&trimmed);
        let (language, _) = self.classifier.classify_with_confidence(trimmed_text.as_str());
        let lower = lowercase_chars(trimmed_text.as_str());
        let word_count = count_words(&lower);
        let mut score: u32 = 0;
        if word_count >= 4 {
            score = score + 150_000;
        }
        if word_count >= 8 {
            score = score + 100_000;
        }
        if trimmed[trimmed.len() - 1] == '?' {
            score = score + 150_000;
        }
        if contains_instruction_marker(&lower, language) {
            score = score + 450_000;
        }
        if contains_roleplay_marker(&lower, language) {
            score = score + 250_000;
        }
        if contains_politeness_marker(&lower, language) {
            score = score + 100_000;
        }
        assert(score == prompt_score(text@));
        let confidence = if score > 1_000_000 { 1_000_000 } else { score };
        PromptSignal { is_prompt: confidence >= 500_000, confidence, language }
    }
}

impl Default for PromptDetector {
    fn default() -> (d: Self)
        ensures
            d.wf(),
    {
        Self::new()
    }
}

} // verus!
