//! Language detection: script checks, marker words, and the integer
//! confidence the layout corrector compares.

use vstd::prelude::*;
use crate::filter::{HardFilterTrie, has_forbidden_run, pattern_set, total_chars};
use crate::ring_buffer::RingBuffer;
use crate::table::{GramTable, WeightTable, pairs_map, str_pairs};
use crate::text::{
    any_char, chars_of, contains_any, is_ascii_alphabetic, is_ascii_letter, is_ascii_space,
    is_ascii_whitespace, is_white_space, is_whitespace, lowercase, lowercase_chars, occurs_any,
    push_char, views_of,
};

verus! {

/// Confidence values are integers in millionths: `1_000_000` stands for
/// full confidence.
pub const CONFIDENCE_SCALE: u32 = 1_000_000;

/// A writing system.
#[derive(Clone, Copy, Debug, PartialEq, Eq, Hash, Structural)]
pub enum Script {
    Latin,
    Cyrillic,
    Devanagari,
}

/// A language the classifier can report.
#[derive(Clone, Copy, Debug, PartialEq, Eq, Hash, PartialOrd, Ord, Structural)]
pub enum Language {
    English,
    Spanish,
    German,
    French,
    Russian,
    Ukrainian,
    Hindi,
}

/// Lowercase Cyrillic letters `а`-`я` and `ё`.
pub open spec fn is_cyrillic_lower(c: char) -> bool {
    ('\u{430}' <= c && c <= '\u{44f}') || c == '\u{451}'
}

/// The Devanagari block, U+0900 to U+097F.
pub open spec fn is_devanagari(c: char) -> bool {
    '\u{900}' <= c && c <= '\u{97f}'
}

/// Whether `c` is a lowercase Cyrillic letter.
pub fn is_cyrillic_char(c: char) -> (r: bool)
    ensures
        r == is_cyrillic_lower(c),
{
    ('\u{430}' <= c && c <= '\u{44f}') || c == '\u{451}'
}

/// Whether `c` is in the Devanagari block.
pub fn is_devanagari_char(c: char) -> (r: bool)
    ensures
        r == is_devanagari(c),
{
    '\u{900}' <= c && c <= '\u{97f}'
}

/// Letters that only Ukrainian uses.
pub open spec fn ukrainian_markers() -> Seq<&'static str> {
    seq!["і", "ї", "є", "ґ"]
}

/// Letters that Russian uses and Ukrainian does not, or uses rarely.
pub open spec fn russian_markers() -> Seq<&'static str> {
    seq!["ы", "э", "ъ", "ч", "ш", "щ", "ж", "ц"]
}

/// Common Russian word stems.
pub open spec fn russian_words() -> Seq<&'static str> {
    seq!["привет", "этот", "быстр", "тест", "провер", "расклад", "алло", "артем", "один", "кто", "что"]
}

/// Frequent English letter runs.
pub open spec fn english_markers() -> Seq<&'static str> {
    seq!["the", "ing", "ion", "th", "he", "and", "with", "this", "that", "tion", "was"]
}

/// Frequent German letter runs.
pub open spec fn german_markers() -> Seq<&'static str> {
    seq!["sch", "ich", "ein", "und", "der", "den", "mit", "auf", "cht"]
}

/// Letter pairs that are frequent in Russian words.
pub open spec fn russian_letter_pairs() -> Seq<&'static str> {
    seq![
        "пр", "ро", "ог", "ра", "мм", "ми", "ир", "ов", "ва", "ан", "ни", "ие", "ал", "лл", "ло", "ар",
        "рт", "те", "ем", "од", "ди", "ин", "кт", "то", "чт",
    ]
}

/// Whether a Ukrainian-only letter occurs in `text`.
pub fn contains_ukrainian_markers(text: &[char]) -> (r: bool)
    ensures
        r == occurs_any(text@, views_of(ukrainian_markers())),
{
    let markers: [&str; 4] = ["і", "ї", "є", "ґ"];
    assert(markers@ =~= ukrainian_markers());
    contains_any(text, &markers)
}

/// Whether a Russian-specific letter occurs in `text`.
pub fn contains_russian_markers(text: &[char]) -> (r: bool)
    ensures
        r == occurs_any(text@, views_of(russian_markers())),
{
    let markers: [&str; 8] = ["ы", "э", "ъ", "ч", "ш", "щ", "ж", "ц"];
    assert(markers@ =~= russian_markers());
    contains_any(text, &markers)
}

/// Whether a common Russian word stem occurs in `text`.
pub fn contains_russian_words(text: &[char]) -> (r: bool)
    ensures
        r == occurs_any(text@, views_of(russian_words())),
{
    let markers: [&str; 11] = [
        "привет", "этот", "быстр", "тест", "провер", "расклад", "алло", "артем", "один", "кто", "что",
    ];
    assert(markers@ =~= russian_words());
    contains_any(text, &markers)
}

/// Whether a frequent English letter run occurs in `text`.
pub fn contains_english_markers(text: &[char]) -> (r: bool)
    ensures
        r == occurs_any(text@, views_of(english_markers())),
{
    let markers: [&str; 11] = ["the", "ing", "ion", "th", "he", "and", "with", "this", "that", "tion", "was"];
    assert(markers@ =~= english_markers());
    contains_any(text, &markers)
}

/// Whether a frequent German letter run occurs in `text`.
pub fn contains_german_markers(text: &[char]) -> (r: bool)
    ensures
        r == occurs_any(text@, views_of(german_markers())),
{
    let markers: [&str; 9] = ["sch", "ich", "ein", "und", "der", "den", "mit", "auf", "cht"];
    assert(markers@ =~= german_markers());
    contains_any(text, &markers)
}

/// The language `classify` reports for a text with the characters `text`:
/// any Devanagari means Hindi; otherwise any Cyrillic means Ukrainian when a
/// Ukrainian-only letter occurs and Russian otherwise; otherwise German when
/// German runs occur and English ones do not, and English in every other case.
/// All checks look at the lowercase form of the text.
pub open spec fn classify_spec(text: Seq<char>) -> Language {
    let lower = lowercase(text);
    if any_char(lower, |c: char| is_devanagari(c)) {
        Language::Hindi
    } else if any_char(lower, |c: char| is_cyrillic_lower(c)) {
        if occurs_any(lower, views_of(ukrainian_markers())) {
            Language::Ukrainian
        } else {
            Language::Russian
        }
    } else if occurs_any(lower, views_of(german_markers())) && !occurs_any(
        lower,
        views_of(english_markers()),
    ) {
        Language::German
    } else {
        Language::English
    }
}

/// The number of non-whitespace characters of `s`.
pub open spec fn letter_count(s: Seq<char>) -> nat
    decreases s.len(),
{
    if s.len() == 0 {
        0
    } else {
        letter_count(s.drop_last()) + if is_white_space(s.last()) { 0nat } else { 1nat }
    }
}

/// The number of adjacent pairs of non-whitespace characters in `s` (the
/// two-character windows of its words).
pub open spec fn pair_total(s: Seq<char>) -> nat
    decreases s.len(),
{
    if s.len() < 2 {
        0
    } else {
        pair_total(s.drop_last()) + if !is_white_space(s[s.len() - 2]) && !is_white_space(s.last()) {
            1nat
        } else {
            0nat
        }
    }
}

/// `pair` is one of the frequent Russian letter pairs.
pub open spec fn is_russian_bigram(pair: Seq<char>) -> bool {
    exists|i: int| 0 <= i < russian_letter_pairs().len() && pair == (#[trigger] russian_letter_pairs()[i])@
}

/// The number of those pairs that are frequent Russian letter pairs.
pub open spec fn pair_matches(s: Seq<char>) -> nat
    decreases s.len(),
{
    if s.len() < 2 {
        0
    } else {
        pair_matches(s.drop_last()) + if !is_white_space(s[s.len() - 2]) && !is_white_space(s.last())
            && is_russian_bigram(seq![s[s.len() - 2], s.last()]) {
            1nat
        } else {
            0nat
        }
    }
}

/// At least 45% of the letter pairs of `s` are frequent Russian pairs.
pub open spec fn russian_coverage_high(s: Seq<char>) -> bool {
    pair_total(s) > 0 && 100 * pair_matches(s) >= 45 * pair_total(s)
}

/// The text holds one of `ы`, `э`, `ъ`.
pub open spec fn has_hard_russian_letter(s: Seq<char>) -> bool {
    any_char(s, |c: char| c == 'ы' || c == 'э' || c == 'ъ')
}

/// The confidence (in millionths) that `classify_with_confidence` reports.
/// With `n` non-whitespace characters and `f = min(n, 16)`: no characters
/// give 0; clearly Russian text 980000, other Russian 700000 + 150000 f / 16;
/// English or German with their marker runs 940000; Hindi 900000 + 80000 f / 16;
/// anything else 550000 + 250000 f / 16.
pub open spec fn confidence_spec(text: Seq<char>) -> u32 {
    let language = classify_spec(text);
    let n = letter_count(text);
    let f = if n > 16 { 16 } else { n };
    let lower = lowercase(text);
    if n == 0 {
        0
    } else if language == Language::Russian {
        if has_hard_russian_letter(text) || occurs_any(lower, views_of(russian_words()))
            || russian_coverage_high(lower) {
            980_000
        } else {
            (700_000 + 9_375 * f) as u32
        }
    } else if language == Language::English && occurs_any(lower, views_of(english_markers())) {
        940_000
    } else if language == Language::German && occurs_any(lower, views_of(german_markers())) {
        940_000
    } else if language == Language::Hindi {
        (900_000 + 5_000 * f) as u32
    } else {
        (550_000 + 15_625 * f) as u32
    }
}

/// What `normalize_for_script` keeps of the already lowercase `s`: the
/// script's own letters, each ASCII whitespace character turned into a space.
pub open spec fn keep_script(s: Seq<char>, script: Script) -> Seq<char>
    decreases s.len(),
{
    if s.len() == 0 {
        seq![]
    } else {
        let p = keep_script(s.drop_last(), script);
        let c = s.last();
        let own = match script {
            Script::Latin => is_ascii_letter(c),
            Script::Cyrillic => is_cyrillic_lower(c),
            Script::Devanagari => is_devanagari(c),
        };
        if own {
            p.push(c)
        } else if is_ascii_space(c) {
            p.push(' ')
        } else {
            p
        }
    }
}

/// The lowercase form of `text` reduced to the letters of `script` and spaces.
pub fn normalize_for_script(text: &str, script: Script) -> (r: String)
    ensures
        r@ == keep_script(lowercase(text@), script),
{
    let lower = lowercase_chars(text);
    let mut out = String::new();
    let mut i: usize = 0;
    while i < lower.len()
        invariant
            i <= lower.len(),
            out@ == keep_script(lower@.take(i as int), script),
        decreases lower.len() - i,
    {
        let c = lower[i];
        assert(lower@.take(i + 1).drop_last() =~= lower@.take(i as int));
        let own = match script {
            Script::Latin => is_ascii_alphabetic(c),
            Script::Cyrillic => is_cyrillic_char(c),
            Script::Devanagari => is_devanagari_char(c),
        };
        if own {
            push_char(&mut out, c);
        } else if is_ascii_whitespace(c) {
            push_char(&mut out, ' ');
        }
        i = i + 1;
    }
    assert(lower@.take(lower.len() as int) =~= lower@);
    out
}

/// The runs of `size` consecutive characters of `text`, in order.
pub fn sliding_ngrams(text: &str, size: usize) -> (r: Vec<String>)
    requires
        size > 0,
    ensures
        r@.len() == (if text@.len() < size { 0 } else { text@.len() - size + 1 }),
        forall|i: int| 0 <= i < r@.len() ==> (#[trigger] r@[i])@ == text@.subrange(i, i + size),
{
    let chars = chars_of(text);
    let mut grams: Vec<String> = Vec::new();
    if chars.len() < size {
        return grams;
    }
    let last = chars.len() - size;
    let mut i: usize = 0;
    loop
        invariant
            chars@ == text@,
            last + size == chars.len(),
            i <= last,
            grams@.len() == i,
            forall|m: int| 0 <= m < i ==> (#[trigger] grams@[m])@ == text@.subrange(m, m + size),
        decreases last - i,
    {
        let mut gram = String::new();
        let mut k: usize = 0;
        while k < size
            invariant
                chars@ == text@,
                last + size == chars.len(),
                i <= last,
                k <= size,
                gram@ == text@.subrange(i as int, i + k),
            decreases size - k,
        {
            push_char(&mut gram, chars[i + k]);
            k = k + 1;
            assert(gram@ =~= text@.subrange(i as int, i + k));
        }
        grams.push(gram);
        if i == last {
            return grams;
        }
        i = i + 1;
    }
}

/// The total weight of the characters of `s`, a character without a weight
/// counting 1.
pub open spec fn weight_total(weights: Map<char, u32>, s: Seq<char>) -> nat
    decreases s.len(),
{
    if s.len() == 0 {
        0
    } else {
        weight_total(weights, s.drop_last()) + (if weights.contains_key(s.last()) {
            weights[s.last()] as nat
        } else {
            1nat
        })
    }
}

/// A language's statistical profile: character weights, bigram and trigram
/// counts, and the runs that never occur in it.
#[derive(Clone)]
pub struct LanguageProfile {
    pub language: Language,
    pub script: Script,
    char_weights: WeightTable,
    bigrams: GramTable,
    trigrams: GramTable,
    filter: HardFilterTrie,
}

impl LanguageProfile {
    /// The profile's language.
    pub closed spec fn profile_language(&self) -> Language {
        self.language
    }

    /// The profile's script.
    pub closed spec fn profile_script(&self) -> Script {
        self.script
    }

    /// The profile's invariant.
    pub closed spec fn wf(&self) -> bool {
        &&& self.char_weights.wf()
        &&& self.bigrams.wf()
        &&& self.trigrams.wf()
        &&& self.filter.wf()
    }

    /// The character weights.
    pub closed spec fn weights(&self) -> Map<char, u32> {
        self.char_weights@
    }

    /// The bigram counts.
    pub closed spec fn bigram_counts(&self) -> Map<Seq<char>, u32> {
        self.bigrams@
    }

    /// The trigram counts.
    pub closed spec fn trigram_counts(&self) -> Map<Seq<char>, u32> {
        self.trigrams@
    }

    /// The sum of the bigram counts.
    pub closed spec fn bigram_sum(&self) -> nat {
        self.bigrams.total()
    }

    /// The sum of the trigram counts.
    pub closed spec fn trigram_sum(&self) -> nat {
        self.trigrams.total()
    }

    /// The number of distinct bigrams.
    pub closed spec fn bigram_size(&self) -> nat {
        self.bigrams.size()
    }

    /// The number of distinct trigrams.
    pub closed spec fn trigram_size(&self) -> nat {
        self.trigrams.size()
    }

    /// The count of `gram` among the bigrams (for two characters) or the
    /// trigrams (otherwise); 0 when it has none.
    pub open spec fn gram_count_spec(&self, gram: Seq<char>) -> u32 {
        let counts = if gram.len() == 2 { self.bigram_counts() } else { self.trigram_counts() };
        if counts.contains_key(gram) {
            counts[gram]
        } else {
            0
        }
    }

    /// The runs this language never contains.
    pub closed spec fn forbidden(&self) -> Set<Seq<char>> {
        self.filter@
    }

    /// `text` reduced to this profile's script (see `normalize_for_script`).
    pub fn normalize(&self, text: &str) -> (r: String)
        ensures
            r@ == keep_script(lowercase(text@), self.profile_script()),
    {
        normalize_for_script(text, self.script)
    }

    /// Whether a forbidden run occurs in the lowercase form of `text`.
    pub fn rejects(&self, text: &str) -> (r: bool)
        requires
            self.wf(),
        ensures
            r == has_forbidden_run(self.forbidden(), lowercase(text@)),
    {
        self.filter.rejects(text)
    }

    /// The weight of `c`; a character without one weighs 1.
    pub fn char_weight(&self, c: char) -> (w: u32)
        requires
            self.wf(),
        ensures
            w == (if self.weights().contains_key(c) { self.weights()[c] } else { 1 }),
    {
        self.char_weights.get_or(c, 1)
    }

    /// The total weight of the characters of `text` and their number, whose
    /// quotient is the text's character score.
    pub fn character_weight_total(&self, text: &str) -> (r: (u128, usize))
        requires
            self.wf(),
        ensures
            r.0 == weight_total(self.weights(), text@),
            r.1 == text@.len(),
    {
        let chars = chars_of(text);
        let mut total: u128 = 0;
        let mut i: usize = 0;
        while i < chars.len()
            invariant
                self.wf(),
                chars@ == text@,
                i <= chars.len(),
                total == weight_total(self.weights(), text@.take(i as int)),
                total <= i * 4294967296,
            decreases chars.len() - i,
        {
            let w = self.char_weight(chars[i]);
            assert(text@.take(i + 1).drop_last() =~= text@.take(i as int));
            total = total + w as u128;
            i = i + 1;
        }
        assert(text@.take(chars.len() as int) =~= text@);
        (total, chars.len())
    }

    /// The counts of the `order`-grams (2 or 3) of `text` in this profile,
    /// window by window; a gram the profile lacks counts 0.
    pub fn gram_counts(&self, text: &str, order: usize) -> (r: Vec<u32>)
        requires
            self.wf(),
            order == 2 || order == 3,
        ensures
            r@.len() == (if text@.len() < order { 0 } else { text@.len() - order + 1 }),
            forall|i: int| 0 <= i < r@.len() ==> #[trigger] r@[i] == self.gram_count_spec(text@.subrange(i, i + order)),
    {
        let grams = sliding_ngrams(text, order);
        let mut counts: Vec<u32> = Vec::new();
        let mut i: usize = 0;
        while i < grams.len()
            invariant
                self.wf(),
                order == 2 || order == 3,
                i <= grams.len(),
                grams@.len() == (if text@.len() < order { 0 } else { text@.len() - order + 1 }),
                forall|j: int| 0 <= j < grams@.len() ==> (#[trigger] grams@[j])@ == text@.subrange(j, j + order),
                counts@.len() == i,
                forall|j: int| 0 <= j < i ==> #[trigger] counts@[j] == self.gram_count_spec(text@.subrange(j, j + order)),
            decreases grams.len() - i,
        {
            let n = if order == 2 {
                self.bigram_count(grams[i].as_str())
            } else {
                self.trigram_count(grams[i].as_str())
            };
            assert(grams@[i as int]@ == text@.subrange(i as int, i + order));
            counts.push(n);
            i = i + 1;
        }
        counts
    }

    /// The count of the bigram `gram`; 0 when it has none.
    pub fn bigram_count(&self, gram: &str) -> (n: u32)
        requires
            self.wf(),
        ensures
            n == (if self.bigram_counts().contains_key(gram@) { self.bigram_counts()[gram@] } else { 0 }),
    {
        let g = chars_of(gram);
        self.bigrams.count(&g)
    }

    /// The count of the trigram `gram`; 0 when it has none.
    pub fn trigram_count(&self, gram: &str) -> (n: u32)
        requires
            self.wf(),
        ensures
            n == (if self.trigram_counts().contains_key(gram@) { self.trigram_counts()[gram@] } else { 0 }),
    {
        let g = chars_of(gram);
        self.trigrams.count(&g)
    }

    /// The sum of all bigram counts.
    pub fn bigram_total(&self) -> (s: u64)
        requires
            self.wf(),
        ensures
            s == self.bigram_sum(),
    {
        self.bigrams.sum()
    }

    /// The sum of all trigram counts.
    pub fn trigram_total(&self) -> (s: u64)
        requires
            self.wf(),
        ensures
            s == self.trigram_sum(),
    {
        self.trigrams.sum()
    }

    /// The number of distinct bigrams.
    pub fn bigram_vocabulary(&self) -> (n: usize)
        ensures
            n == self.bigram_size(),
    {
        self.bigrams.len()
    }

    /// The number of distinct trigrams.
    pub fn trigram_vocabulary(&self) -> (n: usize)
        ensures
            n == self.trigram_size(),
    {
        self.trigrams.len()
    }
}

/// The classifier: the seven built-in language profiles and the marker rules.
#[derive(Clone)]
pub struct LanguageClassifier {
    profiles: Vec<LanguageProfile>,
}

/// The languages of the built-in profiles, in order.
pub open spec fn profile_languages() -> Seq<Language> {
    seq![
        Language::English,
        Language::Spanish,
        Language::German,
        Language::French,
        Language::Russian,
        Language::Ukrainian,
        Language::Hindi,
    ]
}

impl LanguageClassifier {
    /// The classifier's invariant: every profile is well formed.
    pub closed spec fn wf(&self) -> bool {
        forall|i: int| 0 <= i < self.profiles@.len() ==> (#[trigger] self.profiles@[i]).wf()
    }

    /// The languages of the profiles, in order.
    pub closed spec fn languages(&self) -> Seq<Language> {
        Seq::new(self.profiles@.len(), |i: int| self.profiles@[i].profile_language())
    }

    /// The classifier with the built-in profiles.
    pub fn new() -> (c: Self)
        ensures
            c.wf(),
            c.languages() == profile_languages(),
    {
        let mut profiles: Vec<LanguageProfile> = Vec::new();
        profiles.push(build_english_profile());
        profiles.push(build_spanish_profile());
        profiles.push(build_german_profile());
        profiles.push(build_french_profile());
        profiles.push(build_russian_profile());
        profiles.push(build_ukrainian_profile());
        profiles.push(build_hindi_profile());
        let c = Self { profiles };
        assert(c.languages() =~= profile_languages());
        c
    }

    /// The profiles, in the order of `profile_languages`.
    pub fn profiles(&self) -> (p: &[LanguageProfile])
        ensures
            p@.len() == self.languages().len(),
            forall|i: int| 0 <= i < p@.len() ==> (#[trigger] p@[i]).profile_language() == self.languages()[i],
            self.wf() ==> forall|i: int| 0 <= i < p@.len() ==> (#[trigger] p@[i]).wf(),
    {
        self.profiles.as_slice()
    }

    /// The language of `text` (see `classify_spec`).
    pub fn classify(&self, text: &str) -> (l: Language)
        ensures
            l == classify_spec(text@),
    {
        let lower = lowercase_chars(text);
        let mut i: usize = 0;
        let mut devanagari = false;
        let mut cyrillic = false;
        while i < lower.len()
            invariant
                i <= lower.len(),
                devanagari == exists|j: int| 0 <= j < i && is_devanagari(#[trigger] lower@[j]),
                cyrillic == exists|j: int| 0 <= j < i && is_cyrillic_lower(#[trigger] lower@[j]),
            decreases lower.len() - i,
        {
            if is_devanagari_char(lower[i]) {
                devanagari = true;
            }
            if is_cyrillic_char(lower[i]) {
                cyrillic = true;
            }
            i = i + 1;
        }
        assert(devanagari == any_char(lower@, |c: char| is_devanagari(c)));
        assert(cyrillic == any_char(lower@, |c: char| is_cyrillic_lower(c)));
        if devanagari {
            return Language::Hindi;
        }
        if cyrillic {
            let ukrainian = contains_ukrainian_markers(&lower);
            let russian = contains_russian_markers(&lower);
            if ukrainian && !russian {
                return Language::Ukrainian;
            }
            if ukrainian && russian {
                return Language::Ukrainian;
            }
            return Language::Russian;
        }
        let german = contains_german_markers(&lower);
        let english = contains_english_markers(&lower);
        if german && !english {
            return Language::German;
        }
        // Either English markers occur or German ones do not: the profile
        // scores are never consulted for Latin text.
        Language::English
    }

    /// The language of the buffer's contents.
    pub fn classify_buffer<const N: usize>(&self, buffer: &RingBuffer<N>) -> (l: Language)
        requires
            buffer.wf(),
        ensures
            l == classify_spec(buffer@),
    {
        let text = buffer.as_string();
        self.classify(text.as_str())
    }

    /// The language of `text` and the confidence (in millionths) that goes
    /// with it (see `confidence_spec`).
    pub fn classify_with_confidence(&self, text: &str) -> (r: (Language, u32))
        ensures
            r.0 == classify_spec(text@),
            r.1 == confidence_spec(text@),
            r.1 <= CONFIDENCE_SCALE,
    {
        let language = self.classify(text);
        let chars = chars_of(text);
        let mut n: usize = 0;
        let mut hard = false;
        let mut i: usize = 0;
        while i < chars.len()
            invariant
                chars@ == text@,
                i <= chars.len(),
                n == letter_count(text@.take(i as int)),
                n <= i,
                hard == exists|j: int| 0 <= j < i && (#[trigger] chars@[j] == 'ы' || chars@[j] == 'э' || chars@[j] == 'ъ'),
            decreases chars.len() - i,
        {
            assert(text@.take(i + 1).drop_last() =~= text@.take(i as int));
            if !is_whitespace(chars[i]) {
                n = n + 1;
            }
            let c = chars[i];
            if c == 'ы' || c == 'э' || c == 'ъ' {
                hard = true;
            }
            i = i + 1;
        }
        assert(text@.take(chars.len() as int) =~= text@);
        assert(hard == has_hard_russian_letter(text@));
        if n == 0 {
            return (language, 0);
        }
        let f: u32 = if n > 16 { 16 } else { n as u32 };
        let lower = lowercase_chars(text);
        let confidence: u32 = match language {
            Language::Russian => {
                if hard || contains_russian_words(&lower) || russian_coverage(&lower) {
                    980_000
                } else {
                    700_000 + 9_375 * f
                }
            },
            Language::English => {
                if contains_english_markers(&lower) {
                    940_000
                } else {
                    550_000 + 15_625 * f
                }
            },
            Language::German => {
                if contains_german_markers(&lower) {
                    940_000
                } else {
                    550_000 + 15_625 * f
                }
            },
            Language::Hindi => 900_000 + 5_000 * f,
            _ => 550_000 + 15_625 * f,
        };
        (language, confidence)
    }
}

impl Default for LanguageClassifier {
    fn default() -> (c: Self)
        ensures
            c.wf(),
            c.languages() == profile_languages(),
    {
        Self::new()
    }
}

/// Whether `[a, b]` is one of the frequent Russian letter pairs.
fn is_russian_pair(a: char, b: char) -> (r: bool)
    ensures
        r == is_russian_bigram(seq![a, b]),
{
    let pairs: [&str; 25] = [
        "пр", "ро", "ог", "ра", "мм", "ми", "ир", "ов", "ва", "ан", "ни", "ие", "ал", "лл", "ло", "ар",
        "рт", "те", "ем", "од", "ди", "ин", "кт", "то", "чт",
    ];
    assert(pairs@ =~= russian_letter_pairs());
    let pair: [char; 2] = [a, b];
    let mut i: usize = 0;
    while i < 25
        invariant
            i <= 25,
            pairs@ == russian_letter_pairs(),
            pair@ == seq![a, b],
            forall|j: int| 0 <= j < i ==> seq![a, b] != (#[trigger] russian_letter_pairs()[j])@,
        decreases 25 - i,
    {
        let candidate = chars_of(pairs[i]);
        if crate::text::same_chars(&candidate, &pair) {
            return true;
        }
        i = i + 1;
    }
    false
}

/// Whether at least 45% of the letter pairs of `text` are frequent Russian pairs.
pub fn russian_coverage(text: &[char]) -> (r: bool)
    ensures
        r == russian_coverage_high(text@),
{
    let mut total: usize = 0;
    let mut matches: usize = 0;
    let mut i: usize = 1;
    if text.len() < 2 {
        return false;
    }
    while i < text.len()
        invariant
            1 <= i <= text.len(),
            total == pair_total(text@.take(i as int)),
            matches == pair_matches(text@.take(i as int)),
            matches <= total < i,
        decreases text.len() - i,
    {
        let ghost t = text@.take(i + 1);
        assert(t.drop_last() =~= text@.take(i as int));
        assert(t[t.len() - 2] == text@[i - 1]);
        if !is_whitespace(text[i - 1]) && !is_whitespace(text[i]) {
            total = total + 1;
            if is_russian_pair(text[i - 1], text[i]) {
                matches = matches + 1;
            }
        }
        i = i + 1;
    }
    assert(text@.take(text.len() as int) =~= text@);
    total > 0 && 100 * (matches as u128) >= 45 * (total as u128)
}

// The built-in language profiles.


/// Each of `seqs` has at most 8 characters.
proof fn lemma_total_chars_bound(seqs: Seq<&str>)
    requires
        forall|i: int| 0 <= i < seqs.len() ==> (#[trigger] seqs[i])@.len() <= 8,
    ensures
        total_chars(seqs) <= 8 * seqs.len(),
    decreases seqs.len(),
{
    if seqs.len() > 0 {
        assert forall|i: int| 0 <= i < seqs.drop_last().len() implies (#[trigger] seqs.drop_last()[i])@.len() <= 8 by {
            assert(seqs.drop_last()[i] == seqs[i]);
        }
        lemma_total_chars_bound(seqs.drop_last());
        assert(seqs.last()@.len() <= 8);
    }
}

/// The character weights of the English profile.
pub open spec fn english_weights() -> Seq<(char, u32)> {
    seq![('a', 118), ('b', 20), ('c', 28), ('d', 50), ('e', 172), ('f', 22), ('g', 20), ('h', 88), ('i', 94), ('j', 2), ('k', 6), ('l', 52), ('m', 26), ('n', 88), ('o', 96), ('p', 24), ('q', 2), ('r', 82), ('s', 86), ('t', 128), ('u', 38), ('v', 12), ('w', 32), ('x', 2), ('y', 22), ('z', 2)]
}

/// The bigram counts of the English profile.
pub open spec fn english_bigrams() -> Seq<(&'static str, u32)> {
    seq![("th", 220000), ("he", 205000), ("in", 190000), ("er", 182000), ("an", 175000), ("ed", 168000), ("on", 162000), ("at", 158000), ("is", 152000), ("to", 148000), ("it", 144000), ("io", 135000), ("en", 130000), ("ou", 128000), ("re", 124000), ("ea", 120000), ("nd", 118000), ("ti", 116000), ("es", 112000), ("or", 108000), ("te", 104000), ("of", 101000), ("al", 98000)]
}

/// The trigram counts of the English profile.
pub open spec fn english_trigrams() -> Seq<(&'static str, u32)> {
    seq![("the", 520000), ("and", 440000), ("ing", 360000), ("her", 240000), ("ere", 190000), ("ent", 170000), ("tha", 160000), ("was", 150000), ("for", 142000), ("you", 136000), ("not", 128000), ("eth", 120000), ("ion", 118000), ("with", 112000), ("this", 108000), ("that", 105000)]
}

/// The forbidden runs of the English profile.
pub open spec fn english_forbidden() -> Seq<&'static str> {
    seq!["яы", "фф", "йй", "ыы", "жж"]
}

/// The English profile.
pub fn build_english_profile() -> (p: LanguageProfile)
    ensures
        p.wf(),
        p.profile_language() == Language::English,
        p.profile_script() == Script::Latin,
        p.weights() == pairs_map(english_weights()),
        p.bigram_counts() == pairs_map(str_pairs(english_bigrams())),
        p.trigram_counts() == pairs_map(str_pairs(english_trigrams())),
        p.forbidden() == pattern_set(english_forbidden()),
{
    let weights: [(char, u32); 26] = [('a', 118), ('b', 20), ('c', 28), ('d', 50), ('e', 172), ('f', 22), ('g', 20), ('h', 88), ('i', 94), ('j', 2), ('k', 6), ('l', 52), ('m', 26), ('n', 88), ('o', 96), ('p', 24), ('q', 2), ('r', 82), ('s', 86), ('t', 128), ('u', 38), ('v', 12), ('w', 32), ('x', 2), ('y', 22), ('z', 2)];
    assert(weights@ =~= english_weights());
    let char_weights = WeightTable::from_pairs(&weights);
    let bigram_pairs: [(&str, u32); 23] = [("th", 220000), ("he", 205000), ("in", 190000), ("er", 182000), ("an", 175000), ("ed", 168000), ("on", 162000), ("at", 158000), ("is", 152000), ("to", 148000), ("it", 144000), ("io", 135000), ("en", 130000), ("ou", 128000), ("re", 124000), ("ea", 120000), ("nd", 118000), ("ti", 116000), ("es", 112000), ("or", 108000), ("te", 104000), ("of", 101000), ("al", 98000)];
    assert(bigram_pairs@ =~= english_bigrams());
    let bigrams = GramTable::from_pairs(&bigram_pairs);
    let trigram_pairs: [(&str, u32); 16] = [("the", 520000), ("and", 440000), ("ing", 360000), ("her", 240000), ("ere", 190000), ("ent", 170000), ("tha", 160000), ("was", 150000), ("for", 142000), ("you", 136000), ("not", 128000), ("eth", 120000), ("ion", 118000), ("with", 112000), ("this", 108000), ("that", 105000)];
    assert(trigram_pairs@ =~= english_trigrams());
    let trigrams = GramTable::from_pairs(&trigram_pairs);
    let forbidden: [&str; 5] = ["яы", "фф", "йй", "ыы", "жж"];
    assert(forbidden@ =~= english_forbidden());
    proof {
        reveal_strlit("яы");
        reveal_strlit("фф");
        reveal_strlit("йй");
        reveal_strlit("ыы");
        reveal_strlit("жж");
        lemma_total_chars_bound(forbidden@);
    }
    let filter = HardFilterTrie::new(&forbidden);
    LanguageProfile {
        language: Language::English,
        script: Script::Latin,
        char_weights,
        bigrams,
        trigrams,
        filter,
    }
}

/// The character weights of the Spanish profile.
pub open spec fn spanish_weights() -> Seq<(char, u32)> {
    seq![('a', 115), ('b', 14), ('c', 25), ('d', 46), ('e', 140), ('f', 9), ('g', 17), ('h', 8), ('i', 59), ('j', 1), ('k', 0), ('l', 48), ('m', 31), ('n', 65), ('o', 85), ('p', 26), ('q', 4), ('r', 66), ('s', 72), ('t', 45), ('u', 40), ('v', 9), ('w', 0), ('x', 2), ('y', 1), ('z', 4)]
}

/// The bigram counts of the Spanish profile.
pub open spec fn spanish_bigrams() -> Seq<(&'static str, u32)> {
    seq![("es", 270), ("en", 240), ("la", 260), ("os", 160), ("ar", 150), ("de", 220), ("el", 210), ("er", 130), ("ra", 140), ("re", 120)]
}

/// The trigram counts of the Spanish profile.
pub open spec fn spanish_trigrams() -> Seq<(&'static str, u32)> {
    seq![("que", 430), ("est", 250), ("los", 200), ("por", 220), ("con", 190), ("del", 170)]
}

/// The forbidden runs of the Spanish profile.
pub open spec fn spanish_forbidden() -> Seq<&'static str> {
    seq!["яы", "ааа", "щщ", "жж"]
}

/// The Spanish profile.
pub fn build_spanish_profile() -> (p: LanguageProfile)
    ensures
        p.wf(),
        p.profile_language() == Language::Spanish,
        p.profile_script() == Script::Latin,
        p.weights() == pairs_map(spanish_weights()),
        p.bigram_counts() == pairs_map(str_pairs(spanish_bigrams())),
        p.trigram_counts() == pairs_map(str_pairs(spanish_trigrams())),
        p.forbidden() == pattern_set(spanish_forbidden()),
{
    let weights: [(char, u32); 26] = [('a', 115), ('b', 14), ('c', 25), ('d', 46), ('e', 140), ('f', 9), ('g', 17), ('h', 8), ('i', 59), ('j', 1), ('k', 0), ('l', 48), ('m', 31), ('n', 65), ('o', 85), ('p', 26), ('q', 4), ('r', 66), ('s', 72), ('t', 45), ('u', 40), ('v', 9), ('w', 0), ('x', 2), ('y', 1), ('z', 4)];
    assert(weights@ =~= spanish_weights());
    let char_weights = WeightTable::from_pairs(&weights);
    let bigram_pairs: [(&str, u32); 10] = [("es", 270), ("en", 240), ("la", 260), ("os", 160), ("ar", 150), ("de", 220), ("el", 210), ("er", 130), ("ra", 140), ("re", 120)];
    assert(bigram_pairs@ =~= spanish_bigrams());
    let bigrams = GramTable::from_pairs(&bigram_pairs);
    let trigram_pairs: [(&str, u32); 6] = [("que", 430), ("est", 250), ("los", 200), ("por", 220), ("con", 190), ("del", 170)];
    assert(trigram_pairs@ =~= spanish_trigrams());
    let trigrams = GramTable::from_pairs(&trigram_pairs);
    let forbidden: [&str; 4] = ["яы", "ааа", "щщ", "жж"];
    assert(forbidden@ =~= spanish_forbidden());
    proof {
        reveal_strlit("яы");
        reveal_strlit("ааа");
        reveal_strlit("щщ");
        reveal_strlit("жж");
        lemma_total_chars_bound(forbidden@);
    }
    let filter = HardFilterTrie::new(&forbidden);
    LanguageProfile {
        language: Language::Spanish,
        script: Script::Latin,
        char_weights,
        bigrams,
        trigrams,
        filter,
    }
}

/// The character weights of the German profile.
pub open spec fn german_weights() -> Seq<(char, u32)> {
    seq![('a', 65), ('b', 19), ('c', 27), ('d', 50), ('e', 170), ('f', 27), ('g', 35), ('h', 49), ('i', 76), ('j', 2), ('k', 1), ('l', 34), ('m', 26), ('n', 96), ('o', 25), ('p', 7), ('q', 1), ('r', 70), ('s', 61), ('t', 38), ('u', 43), ('v', 9), ('w', 19), ('x', 1), ('y', 1), ('z', 11)]
}

/// The bigram counts of the German profile.
pub open spec fn german_bigrams() -> Seq<(&'static str, u32)> {
    seq![("ch", 48), ("de", 58), ("en", 50), ("er", 45), ("ei", 43), ("in", 41), ("te", 39)]
}

/// The trigram counts of the German profile.
pub open spec fn german_trigrams() -> Seq<(&'static str, u32)> {
    seq![("sch", 17), ("nde", 13), ("ein", 17), ("und", 21), ("ung", 12), ("gen", 11)]
}

/// The forbidden runs of the German profile.
pub open spec fn german_forbidden() -> Seq<&'static str> {
    seq!["яя", "щщ", "ыы", "жо"]
}

/// The German profile.
pub fn build_german_profile() -> (p: LanguageProfile)
    ensures
        p.wf(),
        p.profile_language() == Language::German,
        p.profile_script() == Script::Latin,
        p.weights() == pairs_map(german_weights()),
        p.bigram_counts() == pairs_map(str_pairs(german_bigrams())),
        p.trigram_counts() == pairs_map(str_pairs(german_trigrams())),
        p.forbidden() == pattern_set(german_forbidden()),
{
    let weights: [(char, u32); 26] = [('a', 65), ('b', 19), ('c', 27), ('d', 50), ('e', 170), ('f', 27), ('g', 35), ('h', 49), ('i', 76), ('j', 2), ('k', 1), ('l', 34), ('m', 26), ('n', 96), ('o', 25), ('p', 7), ('q', 1), ('r', 70), ('s', 61), ('t', 38), ('u', 43), ('v', 9), ('w', 19), ('x', 1), ('y', 1), ('z', 11)];
    assert(weights@ =~= german_weights());
    let char_weights = WeightTable::from_pairs(&weights);
    let bigram_pairs: [(&str, u32); 7] = [("ch", 48), ("de", 58), ("en", 50), ("er", 45), ("ei", 43), ("in", 41), ("te", 39)];
    assert(bigram_pairs@ =~= german_bigrams());
    let bigrams = GramTable::from_pairs(&bigram_pairs);
    let trigram_pairs: [(&str, u32); 6] = [("sch", 17), ("nde", 13), ("ein", 17), ("und", 21), ("ung", 12), ("gen", 11)];
    assert(trigram_pairs@ =~= german_trigrams());
    let trigrams = GramTable::from_pairs(&trigram_pairs);
    let forbidden: [&str; 4] = ["яя", "щщ", "ыы", "жо"];
    assert(forbidden@ =~= german_forbidden());
    proof {
        reveal_strlit("яя");
        reveal_strlit("щщ");
        reveal_strlit("ыы");
        reveal_strlit("жо");
        lemma_total_chars_bound(forbidden@);
    }
    let filter = HardFilterTrie::new(&forbidden);
    LanguageProfile {
        language: Language::German,
        script: Script::Latin,
        char_weights,
        bigrams,
        trigrams,
        filter,
    }
}

/// The character weights of the French profile.
pub open spec fn french_weights() -> Seq<(char, u32)> {
    seq![('a', 81), ('b', 9), ('c', 30), ('d', 17), ('e', 171), ('f', 11), ('g', 10), ('h', 7), ('i', 75), ('j', 1), ('k', 0), ('l', 41), ('m', 30), ('n', 72), ('o', 50), ('p', 27), ('q', 8), ('r', 65), ('s', 79), ('t', 57), ('u', 63), ('v', 18), ('w', 1), ('x', 4), ('y', 2), ('z', 1)]
}

/// The bigram counts of the French profile.
pub open spec fn french_bigrams() -> Seq<(&'static str, u32)> {
    seq![("en", 52), ("re", 46), ("es", 40), ("de", 44), ("ou", 38), ("an", 36), ("le", 42)]
}

/// The trigram counts of the French profile.
pub open spec fn french_trigrams() -> Seq<(&'static str, u32)> {
    seq![("ent", 23), ("ion", 21), ("que", 18), ("des", 17), ("par", 13), ("les", 15)]
}

/// The forbidden runs of the French profile.
pub open spec fn french_forbidden() -> Seq<&'static str> {
    seq!["яя", "фф", "ыы", "шш"]
}

/// The French profile.
pub fn build_french_profile() -> (p: LanguageProfile)
    ensures
        p.wf(),
        p.profile_language() == Language::French,
        p.profile_script() == Script::Latin,
        p.weights() == pairs_map(french_weights()),
        p.bigram_counts() == pairs_map(str_pairs(french_bigrams())),
        p.trigram_counts() == pairs_map(str_pairs(french_trigrams())),
        p.forbidden() == pattern_set(french_forbidden()),
{
    let weights: [(char, u32); 26] = [('a', 81), ('b', 9), ('c', 30), ('d', 17), ('e', 171), ('f', 11), ('g', 10), ('h', 7), ('i', 75), ('j', 1), ('k', 0), ('l', 41), ('m', 30), ('n', 72), ('o', 50), ('p', 27), ('q', 8), ('r', 65), ('s', 79), ('t', 57), ('u', 63), ('v', 18), ('w', 1), ('x', 4), ('y', 2), ('z', 1)];
    assert(weights@ =~= french_weights());
    let char_weights = WeightTable::from_pairs(&weights);
    let bigram_pairs: [(&str, u32); 7] = [("en", 52), ("re", 46), ("es", 40), ("de", 44), ("ou", 38), ("an", 36), ("le", 42)];
    assert(bigram_pairs@ =~= french_bigrams());
    let bigrams = GramTable::from_pairs(&bigram_pairs);
    let trigram_pairs: [(&str, u32); 6] = [("ent", 23), ("ion", 21), ("que", 18), ("des", 17), ("par", 13), ("les", 15)];
    assert(trigram_pairs@ =~= french_trigrams());
    let trigrams = GramTable::from_pairs(&trigram_pairs);
    let forbidden: [&str; 4] = ["яя", "фф", "ыы", "шш"];
    assert(forbidden@ =~= french_forbidden());
    proof {
        reveal_strlit("яя");
        reveal_strlit("фф");
        reveal_strlit("ыы");
        reveal_strlit("шш");
        lemma_total_chars_bound(forbidden@);
    }
    let filter = HardFilterTrie::new(&forbidden);
    LanguageProfile {
        language: Language::French,
        script: Script::Latin,
        char_weights,
        bigrams,
        trigrams,
        filter,
    }
}

/// The character weights of the Russian profile.
pub open spec fn russian_weights() -> Seq<(char, u32)> {
    seq![('а', 108), ('б', 18), ('в', 46), ('г', 16), ('д', 25), ('е', 81), ('ё', 7), ('ж', 16), ('з', 17), ('и', 54), ('й', 10), ('к', 35), ('л', 43), ('м', 32), ('н', 67), ('о', 97), ('п', 28), ('р', 42), ('с', 45), ('т', 53), ('у', 28), ('ф', 2), ('х', 9), ('ц', 4), ('ч', 16), ('ш', 6), ('щ', 3), ('ъ', 1), ('ы', 19), ('ь', 17), ('э', 3), ('ю', 6), ('я', 18)]
}

/// The bigram counts of the Russian profile.
pub open spec fn russian_bigrams() -> Seq<(&'static str, u32)> {
    seq![("ст", 35), ("но", 33), ("то", 28), ("на", 26), ("ов", 19), ("ен", 22), ("ни", 21), ("ра", 20)]
}

/// The trigram counts of the Russian profile.
pub open spec fn russian_trigrams() -> Seq<(&'static str, u32)> {
    seq![("сто", 12), ("что", 9), ("при", 10), ("ого", 8), ("ение", 8), ("нов", 7)]
}

/// The forbidden runs of the Russian profile.
pub open spec fn russian_forbidden() -> Seq<&'static str> {
    seq!["th", "ing", "tion", "qu", "ght"]
}

/// The Russian profile.
pub fn build_russian_profile() -> (p: LanguageProfile)
    ensures
        p.wf(),
        p.profile_language() == Language::Russian,
        p.profile_script() == Script::Cyrillic,
        p.weights() == pairs_map(russian_weights()),
        p.bigram_counts() == pairs_map(str_pairs(russian_bigrams())),
        p.trigram_counts() == pairs_map(str_pairs(russian_trigrams())),
        p.forbidden() == pattern_set(russian_forbidden()),
{
    let weights: [(char, u32); 33] = [('а', 108), ('б', 18), ('в', 46), ('г', 16), ('д', 25), ('е', 81), ('ё', 7), ('ж', 16), ('з', 17), ('и', 54), ('й', 10), ('к', 35), ('л', 43), ('м', 32), ('н', 67), ('о', 97), ('п', 28), ('р', 42), ('с', 45), ('т', 53), ('у', 28), ('ф', 2), ('х', 9), ('ц', 4), ('ч', 16), ('ш', 6), ('щ', 3), ('ъ', 1), ('ы', 19), ('ь', 17), ('э', 3), ('ю', 6), ('я', 18)];
    assert(weights@ =~= russian_weights());
    let char_weights = WeightTable::from_pairs(&weights);
    let bigram_pairs: [(&str, u32); 8] = [("ст", 35), ("но", 33), ("то", 28), ("на", 26), ("ов", 19), ("ен", 22), ("ни", 21), ("ра", 20)];
    assert(bigram_pairs@ =~= russian_bigrams());
    let bigrams = GramTable::from_pairs(&bigram_pairs);
    let trigram_pairs: [(&str, u32); 6] = [("сто", 12), ("что", 9), ("при", 10), ("ого", 8), ("ение", 8), ("нов", 7)];
    assert(trigram_pairs@ =~= russian_trigrams());
    let trigrams = GramTable::from_pairs(&trigram_pairs);
    let forbidden: [&str; 5] = ["th", "ing", "tion", "qu", "ght"];
    assert(forbidden@ =~= russian_forbidden());
    proof {
        reveal_strlit("th");
        reveal_strlit("ing");
        reveal_strlit("tion");
        reveal_strlit("qu");
        reveal_strlit("ght");
        lemma_total_chars_bound(forbidden@);
    }
    let filter = HardFilterTrie::new(&forbidden);
    LanguageProfile {
        language: Language::Russian,
        script: Script::Cyrillic,
        char_weights,
        bigrams,
        trigrams,
        filter,
    }
}

/// The character weights of the Ukrainian profile.
pub open spec fn ukrainian_weights() -> Seq<(char, u32)> {
    seq![('а', 89), ('б', 17), ('в', 46), ('г', 15), ('д', 23), ('е', 80), ('є', 8), ('ж', 14), ('з', 14), ('и', 57), ('і', 28), ('ї', 4), ('й', 10), ('к', 27), ('л', 42), ('м', 31), ('н', 62), ('о', 100), ('п', 31), ('р', 40), ('с', 45), ('т', 56), ('у', 34), ('ф', 2), ('х', 8), ('ц', 5), ('ч', 15), ('ш', 8), ('щ', 3), ('ь', 13), ('ю', 7), ('я', 25)]
}

/// The bigram counts of the Ukrainian profile.
pub open spec fn ukrainian_bigrams() -> Seq<(&'static str, u32)> {
    seq![("ст", 31), ("ни", 24), ("на", 22), ("ро", 20), ("ов", 18), ("ти", 18)]
}

/// The trigram counts of the Ukrainian profile.
pub open spec fn ukrainian_trigrams() -> Seq<(&'static str, u32)> {
    seq![("сто", 11), ("при", 9), ("ова", 8), ("ний", 9), ("все", 7)]
}

/// The forbidden runs of the Ukrainian profile.
pub open spec fn ukrainian_forbidden() -> Seq<&'static str> {
    seq!["the", "and", "tion", "ing", "qu"]
}

/// The Ukrainian profile.
pub fn build_ukrainian_profile() -> (p: LanguageProfile)
    ensures
        p.wf(),
        p.profile_language() == Language::Ukrainian,
        p.profile_script() == Script::Cyrillic,
        p.weights() == pairs_map(ukrainian_weights()),
        p.bigram_counts() == pairs_map(str_pairs(ukrainian_bigrams())),
        p.trigram_counts() == pairs_map(str_pairs(ukrainian_trigrams())),
        p.forbidden() == pattern_set(ukrainian_forbidden()),
{
    let weights: [(char, u32); 32] = [('а', 89), ('б', 17), ('в', 46), ('г', 15), ('д', 23), ('е', 80), ('є', 8), ('ж', 14), ('з', 14), ('и', 57), ('і', 28), ('ї', 4), ('й', 10), ('к', 27), ('л', 42), ('м', 31), ('н', 62), ('о', 100), ('п', 31), ('р', 40), ('с', 45), ('т', 56), ('у', 34), ('ф', 2), ('х', 8), ('ц', 5), ('ч', 15), ('ш', 8), ('щ', 3), ('ь', 13), ('ю', 7), ('я', 25)];
    assert(weights@ =~= ukrainian_weights());
    let char_weights = WeightTable::from_pairs(&weights);
    let bigram_pairs: [(&str, u32); 6] = [("ст", 31), ("ни", 24), ("на", 22), ("ро", 20), ("ов", 18), ("ти", 18)];
    assert(bigram_pairs@ =~= ukrainian_bigrams());
    let bigrams = GramTable::from_pairs(&bigram_pairs);
    let trigram_pairs: [(&str, u32); 5] = [("сто", 11), ("при", 9), ("ова", 8), ("ний", 9), ("все", 7)];
    assert(trigram_pairs@ =~= ukrainian_trigrams());
    let trigrams = GramTable::from_pairs(&trigram_pairs);
    let forbidden: [&str; 5] = ["the", "and", "tion", "ing", "qu"];
    assert(forbidden@ =~= ukrainian_forbidden());
    proof {
        reveal_strlit("the");
        reveal_strlit("and");
        reveal_strlit("tion");
        reveal_strlit("ing");
        reveal_strlit("qu");
        lemma_total_chars_bound(forbidden@);
    }
    let filter = HardFilterTrie::new(&forbidden);
    LanguageProfile {
        language: Language::Ukrainian,
        script: Script::Cyrillic,
        char_weights,
        bigrams,
        trigrams,
        filter,
    }
}

/// The character weights of the Hindi profile.
pub open spec fn hindi_weights() -> Seq<(char, u32)> {
    seq![('अ', 20), ('आ', 25), ('इ', 15), ('ई', 8), ('उ', 12), ('ऊ', 4), ('ए', 18), ('ओ', 14), ('क', 55), ('ख', 10), ('ग', 22), ('घ', 4), ('च', 18), ('छ', 5), ('ज', 20), ('झ', 4), ('ट', 12), ('ठ', 4), ('ड', 10), ('ढ', 3), ('ण', 8), ('त', 60), ('थ', 12), ('द', 45), ('ध', 10), ('न', 65), ('प', 40), ('फ', 6), ('ब', 30), ('भ', 10), ('म', 48), ('य', 30), ('र', 55), ('ल', 35), ('व', 32), ('श', 14), ('ष', 6), ('स', 45), ('ह', 42), ('ा', 70), ('ि', 55), ('ी', 45), ('ु', 28), ('ू', 10), ('े', 40), ('ै', 15), ('ो', 22), ('ौ', 6), ('ं', 20), ('ः', 3), ('ँ', 3), ('्', 38)]
}

/// The bigram counts of the Hindi profile.
pub open spec fn hindi_bigrams() -> Seq<(&'static str, u32)> {
    seq![("है", 40), ("का", 38), ("की", 30), ("के", 32), ("में", 34), ("से", 22), ("को", 26), ("ने", 20), ("और", 18), ("पर", 14)]
}

/// The trigram counts of the Hindi profile.
pub open spec fn hindi_trigrams() -> Seq<(&'static str, u32)> {
    seq![("नही", 12), ("कार", 10), ("रहा", 9), ("वाला", 8), ("लिए", 11)]
}

/// The forbidden runs of the Hindi profile.
pub open spec fn hindi_forbidden() -> Seq<&'static str> {
    seq!["the", "and", "tion", "ing", "qu"]
}

/// The Hindi profile.
pub fn build_hindi_profile() -> (p: LanguageProfile)
    ensures
        p.wf(),
        p.profile_language() == Language::Hindi,
        p.profile_script() == Script::Devanagari,
        p.weights() == pairs_map(hindi_weights()),
        p.bigram_counts() == pairs_map(str_pairs(hindi_bigrams())),
        p.trigram_counts() == pairs_map(str_pairs(hindi_trigrams())),
        p.forbidden() == pattern_set(hindi_forbidden()),
{
    let weights: [(char, u32); 52] = [('अ', 20), ('आ', 25), ('इ', 15), ('ई', 8), ('उ', 12), ('ऊ', 4), ('ए', 18), ('ओ', 14), ('क', 55), ('ख', 10), ('ग', 22), ('घ', 4), ('च', 18), ('छ', 5), ('ज', 20), ('झ', 4), ('ट', 12), ('ठ', 4), ('ड', 10), ('ढ', 3), ('ण', 8), ('त', 60), ('थ', 12), ('द', 45), ('ध', 10), ('न', 65), ('प', 40), ('फ', 6), ('ब', 30), ('भ', 10), ('म', 48), ('य', 30), ('र', 55), ('ल', 35), ('व', 32), ('श', 14), ('ष', 6), ('स', 45), ('ह', 42), ('ा', 70), ('ि', 55), ('ी', 45), ('ु', 28), ('ू', 10), ('े', 40), ('ै', 15), ('ो', 22), ('ौ', 6), ('ं', 20), ('ः', 3), ('ँ', 3), ('्', 38)];
    assert(weights@ =~= hindi_weights());
    let char_weights = WeightTable::from_pairs(&weights);
    let bigram_pairs: [(&str, u32); 10] = [("है", 40), ("का", 38), ("की", 30), ("के", 32), ("में", 34), ("से", 22), ("को", 26), ("ने", 20), ("और", 18), ("पर", 14)];
    assert(bigram_pairs@ =~= hindi_bigrams());
    let bigrams = GramTable::from_pairs(&bigram_pairs);
    let trigram_pairs: [(&str, u32); 5] = [("नही", 12), ("कार", 10), ("रहा", 9), ("वाला", 8), ("लिए", 11)];
    assert(trigram_pairs@ =~= hindi_trigrams());
    let trigrams = GramTable::from_pairs(&trigram_pairs);
    let forbidden: [&str; 5] = ["the", "and", "tion", "ing", "qu"];
    assert(forbidden@ =~= hindi_forbidden());
    proof {
        reveal_strlit("the");
        reveal_strlit("and");
        reveal_strlit("tion");
        reveal_strlit("ing");
        reveal_strlit("qu");
        lemma_total_chars_bound(forbidden@);
    }
    let filter = HardFilterTrie::new(&forbidden);
    LanguageProfile {
        language: Language::Hindi,
        script: Script::Devanagari,
        char_weights,
        bigrams,
        trigrams,
        filter,
    }
}

} // verus!
