//! Keyboard-layout text correction: the physical key positions of the US
//! and Russian layouts, and the decision whether a buffer of text was typed
//! under the wrong layout.

use vstd::prelude::*;
use crate::classifier::{Language, LanguageClassifier, classify_spec, confidence_spec};
use crate::text::{
    chars_of, has_uppercase_property, is_ascii_alphabetic, is_ascii_letter, is_uppercase,
    last_word, last_word_of, lower_char, lowercase_first, push_char, same_text, string_of,
    upper_char, uppercase_first,
};

verus! {

/// The letters of the US layout on the three letter rows, left to right.
pub open spec fn english_row() -> Seq<char> {
    seq![
        'q', 'w', 'e', 'r', 't', 'y', 'u', 'i', 'o', 'p', 'a', 's', 'd', 'f', 'g', 'h', 'j', 'k', 'l',
        'z', 'x', 'c', 'v', 'b', 'n', 'm',
    ]
}

/// The letters of the Russian layout on the same keys.
pub open spec fn russian_row() -> Seq<char> {
    seq![
        'й', 'ц', 'у', 'к', 'е', 'н', 'г', 'ш', 'щ', 'з', 'ф', 'ы', 'в', 'а', 'п', 'р', 'о', 'л', 'д',
        'я', 'ч', 'с', 'м', 'и', 'т', 'ь',
    ]
}

/// The letter row of `layout`: Russian for `"ru"`, US for every other name.
pub open spec fn layout_row(layout: Seq<char>) -> Seq<char> {
    if layout == "ru"@ {
        russian_row()
    } else {
        english_row()
    }
}

/// The position in the letter rows of the key with evdev code `keycode`.
pub open spec fn key_position(keycode: u16) -> Option<int> {
    if 16 <= keycode <= 25 {
        Some(keycode - 16)
    } else if 30 <= keycode <= 38 {
        Some(keycode - 30 + 10)
    } else if 44 <= keycode <= 50 {
        Some(keycode - 44 + 19)
    } else {
        None
    }
}

/// The evdev code of the key at position `i` of the letter rows.
pub open spec fn position_keycode(i: int) -> u16 {
    if i <= 9 {
        (16 + i) as u16
    } else if i <= 18 {
        (30 + i - 10) as u16
    } else {
        (44 + i - 19) as u16
    }
}

/// The character that `keycode` types under `layout` (space for key 57).
pub open spec fn key_char(keycode: u16, layout: Seq<char>) -> Option<char> {
    if keycode == 57 {
        Some(' ')
    } else {
        match key_position(keycode) {
            Some(i) => Some(layout_row(layout)[i]),
            None => None,
        }
    }
}

/// The key that types `c` (taken by its lowercase form) under `layout`.
pub open spec fn char_key(c: char, layout: Seq<char>) -> Option<u16> {
    let lower = lowercase_first(c);
    if exists|i: int| 0 <= i < 26 && layout_row(layout)[i] == lower {
        Some(position_keycode(choose|i: int| 0 <= i < 26 && layout_row(layout)[i] == lower))
    } else {
        None
    }
}

/// `c` as typed on the same key under `target` after being typed under
/// `source`, keeping it uppercase when it was; characters without a key stay.
pub open spec fn map_char(c: char, source: Seq<char>, target: Seq<char>) -> char {
    match char_key(c, source) {
        Some(k) => match key_char(k, target) {
            Some(m) => if has_uppercase_property(c) {
                uppercase_first(m)
            } else {
                m
            },
            None => c,
        },
        None => c,
    }
}

/// `text` re-typed from layout `source` to layout `target`, character by character.
pub open spec fn correct_spec(text: Seq<char>, source: Seq<char>, target: Seq<char>) -> Seq<char> {
    Seq::new(text.len(), |i: int| map_char(text[i], source, target))
}

/// The keys that type the characters of `text` under `layout`, skipping
/// characters that have none.
pub open spec fn keycodes_spec(text: Seq<char>, layout: Seq<char>) -> Seq<u16>
    decreases text.len(),
{
    if text.len() == 0 {
        seq![]
    } else {
        let p = keycodes_spec(text.drop_last(), layout);
        match char_key(text.last(), layout) {
            Some(k) => p.push(k),
            None => p,
        }
    }
}

/// The characters of an optional string.
pub open spec fn opt_view(o: Option<&str>) -> Option<Seq<char>> {
    match o {
        Some(s) => Some(s@),
        None => None,
    }
}

/// The layout to switch to for a language: US for English, Russian for
/// Russian, Ukrainian for Ukrainian, none for the others.
pub open spec fn target_layout_spec(language: Language) -> Option<Seq<char>> {
    match language {
        Language::English => Some("us"@),
        Language::Russian => Some("ru"@),
        Language::Ukrainian => Some("ua"@),
        _ => None,
    }
}

/// A character in the Cyrillic block U+0400 to U+04FF.
pub open spec fn is_cyrillic_block(c: char) -> bool {
    '\u{400}' <= c && c <= '\u{4ff}'
}

fn english_keys() -> (r: [char; 26])
    ensures
        r@ == english_row(),
{
    let r = [
        'q', 'w', 'e', 'r', 't', 'y', 'u', 'i', 'o', 'p', 'a', 's', 'd', 'f', 'g', 'h', 'j', 'k', 'l',
        'z', 'x', 'c', 'v', 'b', 'n', 'm',
    ];
    assert(r@ =~= english_row());
    r
}

fn russian_keys() -> (r: [char; 26])
    ensures
        r@ == russian_row(),
{
    let r = [
        'й', 'ц', 'у', 'к', 'е', 'н', 'г', 'ш', 'щ', 'з', 'ф', 'ы', 'в', 'а', 'п', 'р', 'о', 'л', 'д',
        'я', 'ч', 'с', 'м', 'и', 'т', 'ь',
    ];
    assert(r@ =~= russian_row());
    r
}

/// The letter row of `layout`.
fn row_for(layout: &str) -> (r: [char; 26])
    ensures
        r@ == layout_row(layout@),
{
    if same_text(layout, "ru") {
        russian_keys()
    } else {
        english_keys()
    }
}

/// No letter occurs twice in a row.
pub(crate) proof fn lemma_rows_distinct(layout: Seq<char>)
    ensures
        forall|i: int, j: int|
            0 <= i < j < 26 ==> #[trigger] layout_row(layout)[i] != #[trigger] layout_row(layout)[j],
{
    assert(forall|i: int, j: int| 0 <= i < j < 26 ==> #[trigger] english_row()[i] != #[trigger] english_row()[j]);
    assert(forall|i: int, j: int| 0 <= i < j < 26 ==> #[trigger] russian_row()[i] != #[trigger] russian_row()[j]);
}

/// The layout to switch to for `language`.
pub fn target_layout(language: Language) -> (r: Option<&'static str>)
    ensures
        opt_view(r) == target_layout_spec(language),
{
    match language {
        Language::English => Some("us"),
        Language::Russian => Some("ru"),
        Language::Ukrainian => Some("ua"),
        _ => None,
    }
}

/// The character that `keycode` types under `layout`.
pub fn keycode_to_character(keycode: u16, layout: &str) -> (r: Option<char>)
    ensures
        r == key_char(keycode, layout@),
{
    let index: usize = if 16 <= keycode && keycode <= 25 {
        (keycode - 16) as usize
    } else if 30 <= keycode && keycode <= 38 {
        (keycode - 30 + 10) as usize
    } else if 44 <= keycode && keycode <= 50 {
        (keycode - 44 + 19) as usize
    } else if keycode == 57 {
        return Some(' ');
    } else {
        return None;
    };
    let characters = row_for(layout);
    Some(characters[index])
}

/// The key that types `character` (taken by its lowercase form) under `layout`.
pub fn keycode_for_character(character: char, layout: &str) -> (r: Option<u16>)
    ensures
        r == char_key(character, layout@),
{
    let characters = row_for(layout);
    let normalized = lower_char(character);
    let mut index: usize = 0;
    while index < 26
        invariant
            index <= 26,
            characters@ == layout_row(layout@),
            normalized == lowercase_first(character),
            forall|j: int| 0 <= j < index ==> characters@[j] != normalized,
        decreases 26 - index,
    {
        if characters[index] == normalized {
            proof {
                lemma_rows_distinct(layout@);
                let k = choose|i: int| 0 <= i < 26 && layout_row(layout@)[i] == normalized;
                assert(k == index);
            }
            let keycode: u16 = if index <= 9 {
                16 + index as u16
            } else if index <= 18 {
                30 + index as u16 - 10
            } else {
                44 + index as u16 - 19
            };
            return Some(keycode);
        }
        index = index + 1;
    }
    None
}

/// The keys that type `text` under `target_layout`, skipping characters
/// without one.
pub fn replacement_keycodes(text: &str, target_layout: &str) -> (r: Vec<u16>)
    ensures
        r@ == keycodes_spec(text@, target_layout@),
{
    let chars = chars_of(text);
    let mut out: Vec<u16> = Vec::new();
    let mut i: usize = 0;
    while i < chars.len()
        invariant
            chars@ == text@,
            i <= chars.len(),
            out@ == keycodes_spec(text@.take(i as int), target_layout@),
        decreases chars.len() - i,
    {
        assert(text@.take(i + 1).drop_last() =~= text@.take(i as int));
        if let Some(k) = keycode_for_character(chars[i], target_layout) {
            out.push(k);
        }
        i = i + 1;
    }
    assert(text@.take(chars.len() as int) =~= text@);
    out
}

/// `character` re-typed from `source_layout` to `target_layout`.
pub fn correct_character(character: char, source_layout: &str, target_layout: &str) -> (r: char)
    ensures
        r == map_char(character, source_layout@, target_layout@),
{
    match keycode_for_character(character, source_layout) {
        Some(keycode) => match keycode_to_character(keycode, target_layout) {
            Some(mapped) => {
                if is_uppercase(character) {
                    upper_char(mapped)
                } else {
                    mapped
                }
            },
            None => character,
        },
        None => character,
    }
}

/// `text` re-typed, key for key, from `source_layout` to `target_layout`.
pub fn correct_text_for_layout(text: &str, source_layout: &str, target_layout: &str) -> (r: String)
    ensures
        r@ == correct_spec(text@, source_layout@, target_layout@),
{
    let chars = chars_of(text);
    let mut out = String::new();
    let mut i: usize = 0;
    while i < chars.len()
        invariant
            chars@ == text@,
            i <= chars.len(),
            out@ == correct_spec(text@, source_layout@, target_layout@).take(i as int),
        decreases chars.len() - i,
    {
        let mapped = correct_character(chars[i], source_layout, target_layout);
        push_char(&mut out, mapped);
        i = i + 1;
        assert(out@ =~= correct_spec(text@, source_layout@, target_layout@).take(i as int));
    }
    assert(correct_spec(text@, source_layout@, target_layout@).take(chars.len() as int)
        =~= correct_spec(text@, source_layout@, target_layout@));
    out
}

/// The layout that `text` was most likely typed in: Russian when it holds a
/// Cyrillic character, US when it holds an ASCII letter, none otherwise.
pub open spec fn inferred_layout(text: Seq<char>) -> Option<Seq<char>> {
    if exists|i: int| 0 <= i < text.len() && is_cyrillic_block(#[trigger] text[i]) {
        Some("ru"@)
    } else if exists|i: int| 0 <= i < text.len() && is_ascii_letter(#[trigger] text[i]) {
        Some("us"@)
    } else {
        None
    }
}

/// The layout that `text` was most likely typed in (see `inferred_layout`).
pub fn infer_layout_from_text(text: &str) -> (r: Option<&'static str>)
    ensures
        opt_view(r) == inferred_layout(text@),
{
    let chars = chars_of(text);
    let mut cyrillic = false;
    let mut latin = false;
    let mut i: usize = 0;
    while i < chars.len()
        invariant
            chars@ == text@,
            i <= chars.len(),
            cyrillic == exists|j: int| 0 <= j < i && is_cyrillic_block(#[trigger] text@[j]),
            latin == exists|j: int| 0 <= j < i && is_ascii_letter(#[trigger] text@[j]),
        decreases chars.len() - i,
    {
        if is_cyrillic_character(chars[i]) {
            cyrillic = true;
        }
        if is_ascii_alphabetic(chars[i]) {
            latin = true;
        }
        i = i + 1;
    }
    if cyrillic {
        Some("ru")
    } else if latin {
        Some("us")
    } else {
        None
    }
}

/// Whether `character` is in the Cyrillic block.
pub fn is_cyrillic_character(character: char) -> (r: bool)
    ensures
        r == is_cyrillic_block(character),
{
    '\u{400}' <= character && character <= '\u{4ff}'
}

/// The outcome of weighing a buffer against its alternate-layout projection.
#[derive(Debug)]
pub struct LayoutDecision {
    pub language: Language,
    /// Confidence in millionths.
    pub confidence: u32,
    pub switch: bool,
    pub target_layout: Option<&'static str>,
    pub corrected: String,
}

/// The layout that `evaluate_layout_candidates` projects onto: US when the
/// current layout is Russian, Russian otherwise.
pub open spec fn alternate_layout(current: Seq<char>) -> Seq<char> {
    if current == "ru"@ {
        "us"@
    } else {
        "ru"@
    }
}

/// The language and confidence of the alternate projection `alt`: those of
/// its last word when that is more confident, of the whole text otherwise.
pub open spec fn mapped_reading(alt: Seq<char>) -> (Language, u32) {
    let whole = (classify_spec(alt), confidence_spec(alt));
    let recent = match last_word(alt) {
        Some(w) => (classify_spec(w), confidence_spec(w)),
        None => whole,
    };
    if recent.1 > whole.1 {
        recent
    } else {
        whole
    }
}

/// Whether `evaluate_layout_candidates` switches: the projection differs
/// from the text, its language has a layout other than the current one, its
/// confidence reaches `threshold`, and it is coherent (at least 800000) or
/// beats the text's own confidence by more than 100000.
pub open spec fn switch_spec(text: Seq<char>, current: Seq<char>, threshold: u32) -> bool {
    let alt = correct_spec(text, current, alternate_layout(current));
    let (language, confidence) = mapped_reading(alt);
    let target = target_layout_spec(language);
    &&& alt != text
    &&& target is Some
    &&& target->0 != current
    &&& confidence >= threshold
    &&& (confidence >= 800_000 || confidence > confidence_spec(text) + 100_000)
}

/// `d` is the decision on `text`, typed under `current`, at `threshold`:
/// when switching, the projection's language, confidence, layout and text;
/// otherwise the text's own language and confidence, no layout and the text
/// unchanged.
pub open spec fn decision_for(d: LayoutDecision, text: Seq<char>, current: Seq<char>, threshold: u32) -> bool {
    let alt = correct_spec(text, current, alternate_layout(current));
    &&& d.switch == switch_spec(text, current, threshold)
    &&& d.switch ==> {
        &&& (d.language, d.confidence) == mapped_reading(alt)
        &&& opt_view(d.target_layout) == target_layout_spec(d.language)
        &&& d.corrected@ == alt
    }
    &&& !d.switch ==> {
        &&& d.language == classify_spec(text)
        &&& d.confidence == confidence_spec(text)
        &&& d.target_layout is None
        &&& d.corrected@ == text
    }
}

/// Weighs `text`, typed under `current_layout`, against its projection onto
/// the other layout. `threshold` is in millionths.
pub fn evaluate_layout_candidates(
    text: &str,
    current_layout: &str,
    classifier: &LanguageClassifier,
    threshold: u32,
) -> (d: LayoutDecision)
    ensures
        decision_for(d, text@, current_layout@, threshold),
{
    let (typed_language, typed_confidence) = classifier.classify_with_confidence(text);
    let alternate: &str = if same_text(current_layout, "ru") { "us" } else { "ru" };
    proof {
        reveal_strlit("us");
        reveal_strlit("ru");
    }
    assert(alternate@ == alternate_layout(current_layout@));
    let alternate_text = correct_text_for_layout(text, current_layout, alternate);
    let ghost alt = alternate_text@;
    let (whole_language, whole_confidence) = classifier.classify_with_confidence(alternate_text.as_str());
    let alt_chars = chars_of(alternate_text.as_str());
    let (recent_language, recent_confidence) = match last_word_of(&alt_chars) {
        Some(word) => {
            let w = string_of(&word);
            classifier.classify_with_confidence(w.as_str())
        },
        None => (whole_language, whole_confidence),
    };
    let (mapped_language, mapped_confidence) = if recent_confidence > whole_confidence {
        (recent_language, recent_confidence)
    } else {
        (whole_language, whole_confidence)
    };
    assert((mapped_language, mapped_confidence) == mapped_reading(alt));
    let mapped_target = target_layout(mapped_language);
    let coherent_alternate = mapped_confidence >= 800_000;
    let beats_typed = coherent_alternate || mapped_confidence > typed_confidence + 100_000;
    let differs = !same_text(alternate_text.as_str(), text);
    let other_target = match mapped_target {
        Some(target) => !same_text(target, current_layout),
        None => false,
    };
    let switch = differs && other_target && mapped_confidence >= threshold && beats_typed;
    if switch {
        LayoutDecision {
            language: mapped_language,
            confidence: mapped_confidence,
            switch: true,
            target_layout: mapped_target,
            corrected: alternate_text,
        }
    } else {
        LayoutDecision {
            language: typed_language,
            confidence: typed_confidence,
            switch: false,
            target_layout: None,
            corrected: string_of(&chars_of(text)),
        }
    }
}

} // verus!
