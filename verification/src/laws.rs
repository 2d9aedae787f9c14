//! Properties that hold across the library's operations.

use vstd::prelude::*;
use crate::classifier::{
    classify_spec, confidence_spec, english_markers, german_markers, is_cyrillic_lower, is_devanagari, ukrainian_markers,
    Language,
};
use crate::cloud::{backend_refusal, Backend};
use crate::daemon::{ends_word, KeystrokeAction, MIN_WORD_LEN, SWITCH_THRESHOLD};
use crate::filter::{has_forbidden_run, pattern_set};
use crate::improver::{
    abbreviation_spec, expand_spec, expand_word_spec, expansion_words_lowercase, improve_spec, is_terminal,
    is_trailing_punct, lemma_abbreviation_word, lemma_improve_settled, lemma_settled_fixed,
};
use crate::layout::{
    char_key, correct_spec, decision_for, english_row, key_char, key_position, keycodes_spec, layout_row,
    lemma_rows_distinct, map_char, mapped_reading, alternate_layout, switch_spec, opt_view, position_keycode, russian_row, LayoutDecision,
};
use crate::licensing::{
    hash_bytes_spec, hash_text_spec, stored_status, validate_offline_spec, LicenseStatus, StoredLicense,
};
use crate::prompt::{
    detect_spec, instruction_markers, politeness_markers, prompt_score, roleplay_markers,
};
use crate::platform::ascii_lower;
use crate::text::{
    has_uppercase_property, lowercase, lowercase_first, occurs_any, occurs_at, occurs_in, trim,
    uppercase_first, views_of, word_count,
};

verus! {

/// A layout switch is only ever proposed for a reading that clears the
/// threshold, differs from what was typed, and belongs to another layout;
/// without a switch, nothing is rewritten.
pub proof fn lemma_switch_is_conservative(d: LayoutDecision, text: Seq<char>, current: Seq<char>, threshold: u32)
    requires
        decision_for(d, text, current, threshold),
    ensures
        d.switch ==> {
            &&& d.confidence >= threshold
            &&& d.corrected@ != text
            &&& opt_view(d.target_layout) matches Some(t) && t != current
        },
        !d.switch ==> d.corrected@ == text && d.target_layout is None,
{
}

/// Typing a letter key under a layout and looking the letter up again in
/// that layout gives back the key, for letters that are their own
/// lowercase form (every letter of the rows is).
pub proof fn lemma_keymap_round_trip(keycode: u16, layout: Seq<char>)
    requires
        key_position(keycode) is Some,
        lowercase_first(key_char(keycode, layout)->0) == key_char(keycode, layout)->0,
    ensures
        char_key(key_char(keycode, layout)->0, layout) == Some(keycode),
{
    let i = key_position(keycode)->0;
    let c = layout_row(layout)[i];
    assert(key_char(keycode, layout) == Some(c));
    assert(0 <= i < 26);
    assert(exists|j: int| 0 <= j < 26 && layout_row(layout)[j] == c);
    let j = choose|j: int| 0 <= j < 26 && layout_row(layout)[j] == c;
    lemma_rows_distinct(layout);
}

/// A status made by a successful activation for `license_key` unlocks the
/// premium features offline with that same key.
pub proof fn lemma_activation_validates_offline(license_key: Seq<char>, status: LicenseStatus)
    requires
        trim(license_key).len() > 0,
        status.active,
        status.license_key_hash@ == hash_text_spec(license_key),
    ensures
        validate_offline_spec(license_key, status),
{
}

/// A license stored for a status and its serialisation (as
/// `StoredLicense::new` makes it) reads back, through `into_status`, as that
/// status; read with any serialisation whose hash differs, it yields nothing.
pub proof fn lemma_stored_license_round_trip(status: LicenseStatus, status_json: Seq<u8>, stored: StoredLicense, other_json: Seq<u8>)
    requires
        stored.status == status,
        stored.integrity_hash@ == hash_bytes_spec(status_json),
    ensures
        stored_status(stored, status_json) == Some(status),
        hash_bytes_spec(other_json) != hash_bytes_spec(status_json) ==> stored_status(stored, other_json) is None,
{
}

/// Every key a replacement types lies on the three letter rows.
pub proof fn lemma_replacement_keys_on_letter_rows(text: Seq<char>, layout: Seq<char>)
    ensures
        forall|i: int| 0 <= i < keycodes_spec(text, layout).len() ==> #[trigger] key_position(keycodes_spec(text, layout)[i]) is Some,
    decreases text.len(),
{
    if text.len() > 0 {
        lemma_replacement_keys_on_letter_rows(text.drop_last(), layout);
        let c = text.last();
        let lower = lowercase_first(c);
        if exists|j: int| 0 <= j < 26 && layout_row(layout)[j] == lower {
            let j = choose|j: int| 0 <= j < 26 && layout_row(layout)[j] == lower;
            assert(key_position(position_keycode(j)) is Some);
        }
    }
}

/// A filter made of `patterns` rejects a (lowercased) text `s` exactly when
/// one of the non-empty patterns occurs in it; more patterns never turn a
/// rejection into an acceptance.
pub proof fn lemma_filter_rejects_occurring_patterns(patterns: Seq<&str>, more: Seq<&str>, s: Seq<char>)
    ensures
        has_forbidden_run(pattern_set(patterns), s) <==> exists|i: int|
            0 <= i < patterns.len() && (#[trigger] patterns[i])@.len() > 0 && occurs_in(s, patterns[i]@),
        has_forbidden_run(pattern_set(patterns), s) ==> has_forbidden_run(pattern_set(patterns + more), s),
{
    if has_forbidden_run(pattern_set(patterns), s) {
        let (start, end) = choose|start: int, end: int|
            0 <= start < end <= s.len() && #[trigger] pattern_set(patterns).contains(s.subrange(start, end));
        let p = s.subrange(start, end);
        let i = choose|i: int| 0 <= i < patterns.len() && p == (#[trigger] patterns[i])@;
        assert(occurs_at(s, patterns[i]@, start));
        assert((patterns + more)[i] == patterns[i]);
        assert(pattern_set(patterns + more).contains(p));
    }
    if exists|i: int| 0 <= i < patterns.len() && (#[trigger] patterns[i])@.len() > 0 && occurs_in(s, patterns[i]@) {
        let i = choose|i: int| 0 <= i < patterns.len() && (#[trigger] patterns[i])@.len() > 0 && occurs_in(s, patterns[i]@);
        let start = choose|start: int| occurs_at(s, patterns[i]@, start);
        let end = start + patterns[i]@.len();
        assert(pattern_set(patterns).contains(s.subrange(start, end)));
    }
}

/// A non-empty improved prompt ends a sentence.
pub proof fn lemma_improved_prompt_ends_sentence(text: Seq<char>)
    ensures
        improve_spec(text).len() > 0 ==> is_terminal(improve_spec(text).last()),
{
}

/// The user's own key never needs a license: whether a request with it is
/// refused does not depend on Pro, and a key that is not blank is never
/// refused; the managed backend is refused exactly without Pro.
pub proof fn lemma_own_key_needs_no_license(api_key: &str, is_pro: bool)
    ensures
        backend_refusal(Backend::BringYourOwnKey { api_key }, is_pro) == backend_refusal(
            Backend::BringYourOwnKey { api_key },
            !is_pro,
        ),
        trim(api_key@).len() > 0 ==> backend_refusal(Backend::BringYourOwnKey { api_key }, is_pro) is None,
        backend_refusal(Backend::Managed, is_pro) is Some <==> !is_pro,
{
}

/// Prompt confidence never exceeds certainty, a text counts as a prompt
/// exactly when it reaches one half, and blank text is never a prompt.
pub proof fn lemma_prompt_signal_bounds(text: Seq<char>)
    ensures
        detect_spec(text).confidence <= 1_000_000,
        detect_spec(text).is_prompt <==> detect_spec(text).confidence >= 500_000,
        trim(text).len() == 0 ==> !detect_spec(text).is_prompt && detect_spec(text).confidence == 0,
{
}

/// The case facts of ASCII that correction between layouts rests on:
/// an ASCII character's lowercase form is its ASCII lowercase, exactly the
/// capitals have the uppercase property, and a small letter's uppercase form
/// is its capital.
pub open spec fn ascii_case_facts() -> bool {
    &&& forall|c: char| (c as u32) < 0x80 ==> #[trigger] lowercase_first(c) == ascii_lower(c)
    &&& forall|c: char| (c as u32) < 0x80 ==> #[trigger] has_uppercase_property(c) == ('A' <= c && c <= 'Z')
    &&& forall|c: char| 'a' <= c && c <= 'z' ==> #[trigger] uppercase_first(c) == (((c as u32) - 32) as char)
}

/// The case facts of the Russian letters of the rows: each is its own
/// lowercase form and not a capital, and its uppercase form is a capital
/// whose lowercase form is the letter again.
pub open spec fn cyrillic_case_facts() -> bool {
    forall|i: int| 0 <= i < 26 ==> {
        let r = #[trigger] russian_row()[i];
        &&& lowercase_first(r) == r
        &&& !has_uppercase_property(r)
        &&& lowercase_first(uppercase_first(r)) == r
        &&& has_uppercase_property(uppercase_first(r))
    }
}

/// The position of a small ASCII letter on the US rows.
spec fn english_index(c: char) -> int {
    if c == 'q' { 0 } else if c == 'w' { 1 } else if c == 'e' { 2 } else if c == 'r' { 3 }
    else if c == 't' { 4 } else if c == 'y' { 5 } else if c == 'u' { 6 } else if c == 'i' { 7 }
    else if c == 'o' { 8 } else if c == 'p' { 9 } else if c == 'a' { 10 } else if c == 's' { 11 }
    else if c == 'd' { 12 } else if c == 'f' { 13 } else if c == 'g' { 14 } else if c == 'h' { 15 }
    else if c == 'j' { 16 } else if c == 'k' { 17 } else if c == 'l' { 18 } else if c == 'z' { 19 }
    else if c == 'x' { 20 } else if c == 'c' { 21 } else if c == 'v' { 22 } else if c == 'b' { 23 }
    else if c == 'n' { 24 } else { 25 }
}

proof fn lemma_row_keys(layout: Seq<char>, j: int, c: char)
    requires
        0 <= j < 26,
        layout_row(layout)[j] == c,
    ensures
        char_key_at(c, layout) == Some(position_keycode(j)),
        key_position(position_keycode(j)) == Some(j),
{
    lemma_rows_distinct(layout);
    assert(exists|k: int| 0 <= k < 26 && layout_row(layout)[k] == c);
    let k = choose|k: int| 0 <= k < 26 && layout_row(layout)[k] == c;
    assert(k == j);
}

/// The key that types `c` itself (not its lowercase form) under `layout`.
spec fn char_key_at(c: char, layout: Seq<char>) -> Option<u16> {
    if exists|i: int| 0 <= i < 26 && layout_row(layout)[i] == c {
        Some(position_keycode(choose|i: int| 0 <= i < 26 && layout_row(layout)[i] == c))
    } else {
        None
    }
}

proof fn lemma_char_round_trip(c: char)
    requires
        ascii_case_facts(),
        cyrillic_case_facts(),
        (c as u32) < 0x80,
    ensures
        map_char(map_char(c, "us"@, "ru"@), "ru"@, "us"@) == c,
{
    reveal_strlit("us");
    reveal_strlit("ru");
    assert("us"@ != "ru"@) by {
        assert("us"@[0] != "ru"@[0]);
    }
    assert(layout_row("us"@) == english_row());
    assert(layout_row("ru"@) == russian_row());
    let e = english_row();
    let r = russian_row();
    assert(forall|j: int| 0 <= j < 26 ==> 'a' <= #[trigger] e[j] && e[j] <= 'z');
    assert(forall|j: int| 0 <= j < 26 ==> (#[trigger] r[j] as u32) >= 0x400);
    let lower = lowercase_first(c);
    assert(lower == ascii_lower(c));
    if ('a' <= lower && lower <= 'z') {
        let j = english_index(lower);
        assert(0 <= j < 26 && e[j] == lower);
        lemma_row_keys("us"@, j, lower);
        let k = position_keycode(j);
        assert(char_key(c, "us"@) == Some(k));
        assert(key_char(k, "ru"@) == Some(r[j]));
        let rj = r[j];
        assert(lowercase_first(rj) == rj && !has_uppercase_property(rj));
        if has_uppercase_property(c) {
            let m = uppercase_first(rj);
            assert(map_char(c, "us"@, "ru"@) == m);
            assert(lowercase_first(m) == rj && has_uppercase_property(m));
            lemma_row_keys("ru"@, j, rj);
            assert(char_key(m, "ru"@) == Some(k));
            assert(key_char(k, "us"@) == Some(lower));
            assert(map_char(m, "ru"@, "us"@) == uppercase_first(lower));
            assert('A' <= c && c <= 'Z');
        } else {
            assert(map_char(c, "us"@, "ru"@) == rj);
            lemma_row_keys("ru"@, j, rj);
            assert(char_key(rj, "ru"@) == Some(k));
            assert(key_char(k, "us"@) == Some(lower));
            assert(!('A' <= c && c <= 'Z'));
            assert(c == lower);
        }
    } else {
        assert(!exists|i: int| 0 <= i < 26 && e[i] == lower);
        assert(char_key(c, "us"@) is None);
        assert(map_char(c, "us"@, "ru"@) == c);
        assert(lowercase_first(c) == c);
        assert(!exists|i: int| 0 <= i < 26 && r[i] == c);
        assert(char_key(c, "ru"@) is None);
    }
}

/// Text typed in ASCII, corrected from the US layout to the Russian one and
/// back, is the text again (letters keep their case, other characters stay),
/// given the case facts of ASCII and of the Russian letters.
pub proof fn lemma_correction_round_trip(text: Seq<char>)
    requires
        ascii_case_facts(),
        cyrillic_case_facts(),
        forall|i: int| 0 <= i < text.len() ==> (#[trigger] text[i] as u32) < 0x80,
    ensures
        correct_spec(correct_spec(text, "us"@, "ru"@), "ru"@, "us"@) == text,
        correct_spec(text, "us"@, "ru"@).len() == text.len(),
{
    let m = correct_spec(text, "us"@, "ru"@);
    assert forall|i: int| 0 <= i < text.len() implies #[trigger] correct_spec(m, "ru"@, "us"@)[i] == text[i] by {
        lemma_char_round_trip(text[i]);
    }
    assert(correct_spec(m, "ru"@, "us"@) =~= text);
}

/// Cleaning up a prompt a second time changes nothing: the rule-based
/// improvement is idempotent, given that the words the abbreviations expand
/// to are their own lowercase form.
pub proof fn lemma_improve_idempotent(text: Seq<char>)
    requires
        expansion_words_lowercase(),
    ensures
        improve_spec(improve_spec(text)) == improve_spec(text),
{
    lemma_improve_settled(text);
    lemma_settled_fixed(improve_spec(text));
}

/// A layout switch needs a projection onto the other layout that is coherent
/// (confidence at least 800000) or more confident than the text as typed by
/// more than 100000: a projection below 800000 and at most 100000 above the
/// typed reading never causes one, whatever the threshold.
pub proof fn lemma_switch_needs_clear_margin(d: LayoutDecision, text: Seq<char>, current: Seq<char>, threshold: u32)
    requires
        decision_for(d, text, current, threshold),
    ensures
        d.switch ==> d.confidence >= 800_000 || d.confidence > confidence_spec(text) + 100_000,
        d.switch ==> d.confidence >= threshold,
        ({
            let projected = mapped_reading(correct_spec(text, current, alternate_layout(current))).1;
            projected < 800_000 && projected <= confidence_spec(text) + 100_000
        }) ==> !d.switch && d.corrected@ == text && d.confidence == confidence_spec(text),
{
}

/// English letter runs rule German out: for text without Devanagari or
/// Cyrillic letters the language is German or English, German only when no
/// English marker run occurs in its lowercase form, and English whenever one
/// does (as `the` or `and` do).
pub proof fn lemma_english_runs_rule_out_german(text: Seq<char>)
    requires
        forall|i: int| 0 <= i < lowercase(text).len() ==>
            !is_devanagari(#[trigger] lowercase(text)[i]) && !is_cyrillic_lower(lowercase(text)[i]),
    ensures
        classify_spec(text) == Language::German || classify_spec(text) == Language::English,
        classify_spec(text) == Language::German ==> !occurs_any(lowercase(text), views_of(english_markers())),
        occurs_any(lowercase(text), views_of(english_markers())) ==> classify_spec(text) == Language::English,
        occurs_in(lowercase(text), "the"@) || occurs_in(lowercase(text), "and"@) ==> classify_spec(text) == Language::English,
        occurs_in(lowercase(text), "und"@) && !occurs_any(lowercase(text), views_of(english_markers()))
            ==> classify_spec(text) == Language::German,
{
    let lower = lowercase(text);
    assert(!exists|i: int| 0 <= i < lower.len() && is_devanagari(#[trigger] lower[i]));
    assert(!exists|i: int| 0 <= i < lower.len() && is_cyrillic_lower(#[trigger] lower[i]));
    let en = views_of(english_markers());
    let de = views_of(german_markers());
    assert(en[0] == "the"@);
    assert(en[5] == "and"@);
    assert(de[3] == "und"@);
    if occurs_in(lower, "the"@) {
        assert(occurs_in(lower, en[0]));
    }
    if occurs_in(lower, "and"@) {
        assert(occurs_in(lower, en[5]));
    }
    if occurs_in(lower, "und"@) {
        assert(occurs_in(lower, de[3]));
    }
}

/// How a non-blank text is scored as a prompt: its trimmed form, read in its
/// own language and lowercase, gets 150000 for four or more words, 100000 more
/// for eight or more, 150000 for a final question mark, 450000 for an
/// instruction, 250000 for role play and 100000 for a politeness word (such as
/// "please" in English), and the confidence is that sum capped at 1000000; so a
/// politeness word adds exactly 100000 to what the text scores without it.
pub proof fn lemma_prompt_score_parts(text: Seq<char>)
    requires
        trim(text).len() > 0,
    ensures
        ({
            let t = trim(text);
            let language = classify_spec(t);
            let lower = lowercase(t);
            let words = word_count(lower);
            let polite = occurs_any(lower, views_of(politeness_markers(language)));
            let others: int = (if words >= 4 { 150_000int } else { 0 }) + (if words >= 8 { 100_000int } else { 0 })
                + (if t.last() == '?' { 150_000int } else { 0 })
                + (if occurs_any(lower, views_of(instruction_markers(language))) { 450_000int } else { 0 })
                + (if occurs_any(lower, views_of(roleplay_markers(language))) { 250_000int } else { 0 });
            let total: int = others + (if polite { 100_000int } else { 0 });
            &&& prompt_score(text) == total
            &&& detect_spec(text).confidence == (if total > 1_000_000 { 1_000_000 } else { total })
            &&& detect_spec(text).is_prompt == (detect_spec(text).confidence >= 500_000)
            &&& (language == Language::English && occurs_in(lower, "please"@) ==> polite)
        }),
{
    let t = trim(text);
    let lower = lowercase(t);
    if classify_spec(t) == Language::English && occurs_in(lower, "please"@) {
        let ms = views_of(politeness_markers(Language::English));
        assert(ms[0] == "please"@);
        assert(occurs_in(lower, ms[0]));
    }
}

/// Each chat abbreviation of the table (given that it is its own lowercase
/// form) is written out, keeping trailing punctuation `t` and in place after
/// any text `p`: "pls"/"plz" as "please", "u" as "you", "ur" as "your",
/// "asap" as "as soon as possible", "thx" as "thanks", "btw" as "by the way",
/// "плз" as "пожалуйста", "спс" as "спасибо", "щас" as "сейчас".
pub proof fn lemma_abbreviations_expand(a: Seq<char>, e: Seq<char>, t: Seq<char>, p: Seq<char>)
    requires
        (a == "pls"@ && e == "please"@) || (a == "plz"@ && e == "please"@) || (a == "u"@ && e == "you"@)
            || (a == "ur"@ && e == "your"@) || (a == "asap"@ && e == "as soon as possible"@)
            || (a == "thx"@ && e == "thanks"@) || (a == "btw"@ && e == "by the way"@)
            || (a == "плз"@ && e == "пожалуйста"@) || (a == "спс"@ && e == "спасибо"@)
            || (a == "щас"@ && e == "сейчас"@),
        lowercase(a) == a,
        forall|j: int| 0 <= j < t.len() ==> is_trailing_punct(#[trigger] t[j]),
    ensures
        abbreviation_spec(a) == Some(e),
        expand_word_spec(a + t) == e + t,
        expand_spec(a + t) == e + t,
        expand_spec(p + seq![' '] + (a + t)) == expand_spec(p) + seq![' '] + (e + t),
{
    reveal_strlit("pls");
    reveal_strlit("plz");
    reveal_strlit("u");
    reveal_strlit("ur");
    reveal_strlit("asap");
    reveal_strlit("thx");
    reveal_strlit("btw");
    reveal_strlit("плз");
    reveal_strlit("спс");
    reveal_strlit("щас");
    assert(a.len() > 0);
    assert(forall|i: int| 0 <= i < a.len() ==> #[trigger] a[i] != ' ' && !is_trailing_punct(a[i]));
    assert("pls"@.len() == 3 && "pls"@[0] == 'p' && "pls"@[2] == 's');
    assert("plz"@.len() == 3 && "plz"@[0] == 'p' && "plz"@[2] == 'z');
    assert("u"@.len() == 1);
    assert("ur"@.len() == 2);
    assert("asap"@.len() == 4);
    assert("thx"@.len() == 3 && "thx"@[0] == 't');
    assert("btw"@.len() == 3 && "btw"@[0] == 'b');
    assert("плз"@.len() == 3 && "плз"@[0] == 'п');
    assert("спс"@.len() == 3 && "спс"@[0] == 'с');
    assert("щас"@.len() == 3 && "щас"@[0] == 'щ');
    if a == "plz"@ {
        assert(a[2] != "pls"@[2]);
    } else if a == "thx"@ || a == "btw"@ || a == "плз"@ || a == "спс"@ || a == "щас"@ {
        assert(a[0] != "pls"@[0] && a[0] != "plz"@[0]);
        if a != "thx"@ {
            assert(a[0] != "thx"@[0]);
        }
        if a != "thx"@ && a != "btw"@ {
            assert(a[0] != "btw"@[0]);
        }
        if a == "спс"@ || a == "щас"@ {
            assert(a[0] != "плз"@[0]);
        }
        if a == "щас"@ {
            assert(a[0] != "спс"@[0]);
        }
    }
    assert(abbreviation_spec(a) == Some(e));
    lemma_abbreviation_word(a, e, t, p);
}

/// Developer mode is honoured whenever a word is retyped: every layout
/// switch that ends a word asks for the active-window check exactly when
/// developer mode is on.
pub proof fn lemma_switch_checks_window_in_developer_mode(
    a: KeystrokeAction,
    typed: Seq<char>,
    keys: Seq<u16>,
    layout: Seq<char>,
    developer_mode: bool,
)
    requires
        ends_word(a, typed, keys, layout, developer_mode),
    ensures
        a matches KeystrokeAction::SwitchLayout(p) ==> p.check_window == developer_mode,
        developer_mode && a is SwitchLayout ==> a->SwitchLayout_0.check_window,
        a matches KeystrokeAction::SwitchLayout(p) ==> {
            &&& typed.len() >= MIN_WORD_LEN
            &&& switch_spec(typed, layout, SWITCH_THRESHOLD)
            &&& p.erase == keys.len()
            &&& p.target_layout@ != layout
            &&& p.replacement@ == keycodes_spec(correct_spec(typed, layout, alternate_layout(layout)), p.target_layout@)
        },
        !(a is SwitchLayout) ==> a is Idle,
{
}

/// The script decides first: text whose lowercase form holds a Devanagari
/// letter is Hindi; otherwise text with a Cyrillic letter is Ukrainian when a
/// Ukrainian-only letter occurs and Russian when none does.
pub proof fn lemma_script_decides_language(text: Seq<char>)
    ensures
        (exists|i: int| 0 <= i < lowercase(text).len() && is_devanagari(#[trigger] lowercase(text)[i]))
            ==> classify_spec(text) == Language::Hindi,
        (forall|i: int| 0 <= i < lowercase(text).len() ==> !is_devanagari(#[trigger] lowercase(text)[i]))
            && (exists|i: int| 0 <= i < lowercase(text).len() && is_cyrillic_lower(#[trigger] lowercase(text)[i]))
            ==> (classify_spec(text) == Language::Ukrainian <==> occurs_any(lowercase(text), views_of(ukrainian_markers())))
            && (classify_spec(text) == Language::Russian <==> !occurs_any(lowercase(text), views_of(ukrainian_markers()))),
{
}

} // verus!
