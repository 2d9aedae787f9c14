//! Deterministic, offline prompt cleanup: whitespace and punctuation
//! normalisation and expansion of common chat abbreviations.

use vstd::prelude::*;
use crate::text::{
    chars_of, collapse_whitespace, collapse_ws, is_white_space, lemma_collapse_blank,
    lemma_trim_blank, lowercase, lowercase_chars, same_text, string_of, trim,
};

verus! {

/// `c` is `?` or `!`.
pub open spec fn is_repeatable(c: char) -> bool {
    c == '?' || c == '!'
}

/// `s` with every `?` or `!` that repeats the character before it dropped.
pub open spec fn dedup_punct(s: Seq<char>) -> Seq<char>
    decreases s.len(),
{
    if s.len() == 0 {
        seq![]
    } else {
        let p = dedup_punct(s.drop_last());
        let c = s.last();
        if is_repeatable(c) && s.len() >= 2 && s[s.len() - 2] == c {
            p
        } else {
            p.push(c)
        }
    }
}

/// The pieces of `s` between single spaces (`str::split(' ')`); there is
/// always at least one, possibly empty.
pub open spec fn split_spaces(s: Seq<char>) -> Seq<Seq<char>>
    decreases s.len(),
{
    if s.len() == 0 {
        seq![seq![]]
    } else {
        let p = split_spaces(s.drop_last());
        if s.last() == ' ' {
            p.push(seq![])
        } else {
            p.update(p.len() - 1, p.last().push(s.last()))
        }
    }
}

/// Characters that `expand_word` keeps aside at the end of a word.
pub open spec fn is_trailing_punct(c: char) -> bool {
    c == '.' || c == ',' || c == '!' || c == '?' || c == ';' || c == ':'
}

/// The number of trailing punctuation characters of `w`.
pub open spec fn trailing_len(w: Seq<char>) -> nat
    decreases w.len(),
{
    if w.len() > 0 && is_trailing_punct(w.last()) {
        trailing_len(w.drop_last()) + 1
    } else {
        0
    }
}

/// The expansion of an abbreviation, if `word` is one.
pub open spec fn abbreviation_spec(word: Seq<char>) -> Option<Seq<char>> {
    if word == "pls"@ || word == "plz"@ {
        Some("please"@)
    } else if word == "u"@ {
        Some("you"@)
    } else if word == "ur"@ {
        Some("your"@)
    } else if word == "asap"@ {
        Some("as soon as possible"@)
    } else if word == "thx"@ {
        Some("thanks"@)
    } else if word == "btw"@ {
        Some("by the way"@)
    } else if word == "плз"@ {
        Some("пожалуйста"@)
    } else if word == "спс"@ {
        Some("спасибо"@)
    } else if word == "щас"@ {
        Some("сейчас"@)
    } else {
        None
    }
}

/// `word` with its core (the word without trailing punctuation) replaced by
/// the expansion of the core's lowercase form, when that is an abbreviation.
pub open spec fn expand_word_spec(word: Seq<char>) -> Seq<char> {
    let cut = word.len() - trailing_len(word);
    match abbreviation_spec(lowercase(word.take(cut))) {
        Some(r) => r + word.skip(cut),
        None => word,
    }
}

/// The expanded pieces joined by single spaces.
pub open spec fn join_expanded(pieces: Seq<Seq<char>>) -> Seq<char>
    decreases pieces.len(),
{
    if pieces.len() == 0 {
        seq![]
    } else if pieces.len() == 1 {
        expand_word_spec(pieces[0])
    } else {
        join_expanded(pieces.drop_last()) + seq![' '] + expand_word_spec(pieces.last())
    }
}

/// `s` with every space-separated piece expanded.
pub open spec fn expand_spec(s: Seq<char>) -> Seq<char> {
    join_expanded(split_spaces(s))
}

/// `c` ends a sentence for `ensure_terminal_punctuation`.
pub open spec fn is_terminal(c: char) -> bool {
    c == '.' || c == '!' || c == '?' || c == ':'
}

/// `s` with a period added unless it is empty or already ends a sentence.
pub open spec fn terminal_spec(s: Seq<char>) -> Seq<char> {
    if s.len() == 0 || is_terminal(s.last()) {
        s
    } else {
        s.push('.')
    }
}

/// The whole cleanup: collapse whitespace, drop repeated `?`/`!`, expand
/// abbreviations, end with punctuation.
pub open spec fn improve_spec(s: Seq<char>) -> Seq<char> {
    terminal_spec(expand_spec(dedup_punct(collapse_ws(s))))
}

/// `text` with every `?` or `!` that repeats the character before it dropped.
pub fn collapse_repeated_punctuation(text: &[char]) -> (r: Vec<char>)
    ensures
        r@ == dedup_punct(text@),
{
    let mut out: Vec<char> = Vec::new();
    let mut previous: Option<char> = None;
    let mut i: usize = 0;
    while i < text.len()
        invariant
            i <= text.len(),
            out@ == dedup_punct(text@.take(i as int)),
            previous == (if i == 0 { None } else { Some(text@[i - 1]) }),
        decreases text.len() - i,
    {
        let ch = text[i];
        assert(text@.take(i + 1).drop_last() =~= text@.take(i as int));
        if (ch == '?' || ch == '!') && previous == Some(ch) {
            i = i + 1;
            continue;
        }
        out.push(ch);
        previous = Some(ch);
        i = i + 1;
    }
    assert(text@.take(text.len() as int) =~= text@);
    out
}

/// The expansion of `word` if it is an abbreviation.
pub fn abbreviation(word: &str) -> (r: Option<&'static str>)
    ensures
        match r {
            Some(s) => abbreviation_spec(word@) == Some(s@),
            None => abbreviation_spec(word@) is None,
        },
{
    if same_text(word, "pls") || same_text(word, "plz") {
        Some("please")
    } else if same_text(word, "u") {
        Some("you")
    } else if same_text(word, "ur") {
        Some("your")
    } else if same_text(word, "asap") {
        Some("as soon as possible")
    } else if same_text(word, "thx") {
        Some("thanks")
    } else if same_text(word, "btw") {
        Some("by the way")
    } else if same_text(word, "плз") {
        Some("пожалуйста")
    } else if same_text(word, "спс") {
        Some("спасибо")
    } else if same_text(word, "щас") {
        Some("сейчас")
    } else {
        None
    }
}

/// `word` with an abbreviated core expanded, keeping its trailing punctuation.
pub fn expand_word(word: &[char]) -> (r: Vec<char>)
    ensures
        r@ == expand_word_spec(word@),
        word@.len() == 0 ==> r@.len() == 0,
{
    proof {
        if word@.len() == 0 {
            reveal_strlit("pls");
            assert("pls"@.len() > 0);
            reveal_strlit("plz");
            assert("plz"@.len() > 0);
            reveal_strlit("u");
            assert("u"@.len() > 0);
            reveal_strlit("ur");
            assert("ur"@.len() > 0);
            reveal_strlit("asap");
            assert("asap"@.len() > 0);
            reveal_strlit("thx");
            assert("thx"@.len() > 0);
            reveal_strlit("btw");
            assert("btw"@.len() > 0);
            reveal_strlit("плз");
            assert("плз"@.len() > 0);
            reveal_strlit("спс");
            assert("спс"@.len() > 0);
            reveal_strlit("щас");
            assert("щас"@.len() > 0);
            assert(abbreviation_spec(Seq::<char>::empty()) is None);
        }
    }
    let mut cut: usize = word.len();
    assert(word@.take(word.len() as int) =~= word@);
    while cut > 0 && (word[cut - 1] == '.' || word[cut - 1] == ',' || word[cut - 1] == '!'
        || word[cut - 1] == '?' || word[cut - 1] == ';' || word[cut - 1] == ':')
        invariant
            cut <= word.len(),
            trailing_len(word@) == trailing_len(word@.take(cut as int)) + (word.len() - cut),
        decreases cut,
    {
        assert(word@.take(cut as int).drop_last() =~= word@.take(cut - 1));
        cut = cut - 1;
    }
    assert(word@.take(word.len() as int) =~= word@);
    let mut core: Vec<char> = Vec::new();
    let mut i: usize = 0;
    while i < cut
        invariant
            cut <= word.len(),
            i <= cut,
            core@ == word@.take(i as int),
        decreases cut - i,
    {
        core.push(word[i]);
        i = i + 1;
        assert(core@ =~= word@.take(i as int));
    }
    let core_text = string_of(&core);
    let lowered = lowercase_chars(core_text.as_str());
    let lowered_text = string_of(&lowered);
    match abbreviation(lowered_text.as_str()) {
        Some(replacement) => {
            let mut out = chars_of(replacement);
            let mut j: usize = cut;
            while j < word.len()
                invariant
                    cut <= j <= word.len(),
                    out@ == replacement@ + word@.subrange(cut as int, j as int),
                decreases word.len() - j,
            {
                out.push(word[j]);
                j = j + 1;
                assert(out@ =~= replacement@ + word@.subrange(cut as int, j as int));
            }
            assert(word@.subrange(cut as int, word.len() as int) =~= word@.skip(cut as int));
            out
        },
        None => {
            let mut out: Vec<char> = Vec::new();
            let mut j: usize = 0;
            while j < word.len()
                invariant
                    j <= word.len(),
                    out@ == word@.take(j as int),
                decreases word.len() - j,
            {
                out.push(word[j]);
                j = j + 1;
                assert(out@ =~= word@.take(j as int));
            }
            out
        },
    }
}

/// `text` with every space-separated piece expanded.
pub fn expand_abbreviations(text: &[char]) -> (r: Vec<char>)
    ensures
        r@ == expand_spec(text@),
        text@.len() == 0 ==> r@.len() == 0,
{
    let mut out: Vec<char> = Vec::new();
    let mut cur: Vec<char> = Vec::new();
    let ghost mut done: Seq<Seq<char>> = seq![];
    let mut i: usize = 0;
    while i < text.len()
        invariant
            i <= text.len(),
            split_spaces(text@.take(i as int)) == done.push(cur@),
            out@ == (if done.len() == 0 { Seq::<char>::empty() } else { join_expanded(done) + seq![' '] }),
        decreases text.len() - i,
    {
        let c = text[i];
        assert(text@.take(i + 1).drop_last() =~= text@.take(i as int));
        if c == ' ' {
            let piece = expand_word(&cur);
            let mut k: usize = 0;
            let ghost before = out@;
            while k < piece.len()
                invariant
                    k <= piece.len(),
                    out@ == before + piece@.take(k as int),
                decreases piece.len() - k,
            {
                out.push(piece[k]);
                k = k + 1;
                assert(out@ =~= before + piece@.take(k as int));
            }
            out.push(' ');
            proof {
                let nd = done.push(cur@);
                assert(nd.drop_last() =~= done);
                if done.len() == 0 {
                    assert(join_expanded(nd) == expand_word_spec(cur@));
                }
                assert(out@ =~= join_expanded(nd) + seq![' ']);
                done = nd;
            }
            cur = Vec::new();
            assert(split_spaces(text@.take(i + 1)) =~= done.push(cur@));
        } else {
            let ghost before = cur@;
            cur.push(c);
            assert(split_spaces(text@.take(i + 1)) =~= done.push(cur@));
        }
        i = i + 1;
    }
    assert(text@.take(text.len() as int) =~= text@);
    let piece = expand_word(&cur);
    let mut k: usize = 0;
    let ghost before = out@;
    while k < piece.len()
        invariant
            k <= piece.len(),
            out@ == before + piece@.take(k as int),
        decreases piece.len() - k,
    {
        out.push(piece[k]);
        k = k + 1;
        assert(out@ =~= before + piece@.take(k as int));
    }
    proof {
        let all = done.push(cur@);
        assert(all.drop_last() =~= done);
        assert(out@ =~= join_expanded(all));
    }
    out
}

/// `text` with a period added unless it is empty or already ends a sentence.
pub fn ensure_terminal_punctuation(text: &[char]) -> (r: Vec<char>)
    ensures
        r@ == terminal_spec(text@),
{
    let mut out: Vec<char> = Vec::new();
    let mut i: usize = 0;
    while i < text.len()
        invariant
            i <= text.len(),
            out@ == text@.take(i as int),
        decreases text.len() - i,
    {
        out.push(text[i]);
        i = i + 1;
        assert(out@ =~= text@.take(i as int));
    }
    assert(text@.take(text.len() as int) =~= text@);
    if text.len() == 0 {
        return out;
    }
    let last = text[text.len() - 1];
    if last == '.' || last == '!' || last == '?' || last == ':' {
        out
    } else {
        out.push('.');
        out
    }
}

/// Cleans up a prompt without any network or language model (see
/// `improve_spec`); blank text stays empty.
pub fn improve_rule_based(text: &str) -> (r: String)
    ensures
        r@ == improve_spec(text@),
        trim(text@).len() == 0 ==> r@.len() == 0,
{
    let chars = chars_of(text);
    proof {
        if trim(text@).len() == 0 {
            lemma_trim_blank(text@);
            lemma_collapse_blank(text@);
        }
    }
    let collapsed = collapse_whitespace(&chars);
    let deduped = collapse_repeated_punctuation(&collapsed);
    let expanded = expand_abbreviations(&deduped);
    let finished = ensure_terminal_punctuation(&expanded);
    string_of(&finished)
}

/// Whitespace in `s` is only single spaces, each after a character that is
/// not a space.
pub open spec fn spaced(s: Seq<char>) -> bool {
    forall|i: int| 0 <= i < s.len() && is_white_space(#[trigger] s[i]) ==> s[i] == ' ' && 0 < i && s[i - 1] != ' '
}

/// `s` is `spaced` and does not end in whitespace: what `collapse_ws` gives.
pub open spec fn is_normalized(s: Seq<char>) -> bool {
    spaced(s) && (s.len() > 0 ==> !is_white_space(s.last()))
}

/// No `?` or `!` of `s` repeats the character before it.
pub open spec fn no_repeats(s: Seq<char>) -> bool {
    forall|i: int| 0 < i < s.len() && is_repeatable(#[trigger] s[i]) ==> s[i - 1] != s[i]
}

/// The pieces joined by single spaces.
pub open spec fn join_spaces(pieces: Seq<Seq<char>>) -> Seq<char>
    decreases pieces.len(),
{
    if pieces.len() == 0 {
        seq![]
    } else if pieces.len() == 1 {
        pieces[0]
    } else {
        join_spaces(pieces.drop_last()) + seq![' '] + pieces.last()
    }
}

proof fn lemma_collapse_normalized(s: Seq<char>)
    ensures
        is_normalized(collapse_ws(s)),
    decreases s.len(),
{
    if s.len() > 0 {
        lemma_collapse_normalized(s.drop_last());
        let p = collapse_ws(s.drop_last());
        let c = s.last();
        if !is_white_space(c) {
            if s.len() >= 2 && is_white_space(s[s.len() - 2]) && p.len() > 0 {
                let q = p.push(' ').push(c);
                assert(q[p.len() as int] == ' ');
                assert forall|i: int| 0 <= i < q.len() && is_white_space(#[trigger] q[i]) implies q[i] == ' ' && 0 < i && q[i - 1] != ' ' by {
                    if i < p.len() {
                        assert(q[i] == p[i]);
                        if i > 0 { assert(q[i - 1] == p[i - 1]); }
                    }
                }
            } else {
                let q = p.push(c);
                assert forall|i: int| 0 <= i < q.len() && is_white_space(#[trigger] q[i]) implies q[i] == ' ' && 0 < i && q[i - 1] != ' ' by {
                    if i < p.len() {
                        assert(q[i] == p[i]);
                        if i > 0 { assert(q[i - 1] == p[i - 1]); }
                    }
                }
            }
        }
    }
}

proof fn lemma_collapse_spaced(s: Seq<char>)
    requires
        spaced(s),
    ensures
        collapse_ws(s) == (if s.len() > 0 && s.last() == ' ' { s.drop_last() } else { s }),
    decreases s.len(),
{
    if s.len() > 0 {
        let t = s.drop_last();
        assert(spaced(t)) by {
            assert forall|i: int| 0 <= i < t.len() && is_white_space(#[trigger] t[i]) implies t[i] == ' ' && 0 < i && t[i - 1] != ' ' by {
                assert(t[i] == s[i]);
            }
        }
        lemma_collapse_spaced(t);
        let c = s.last();
        if is_white_space(c) {
            assert(s[s.len() - 1] == c);
            assert(c == ' ' && s.len() >= 2 && s[s.len() - 2] != ' ');
            assert(t.last() == s[s.len() - 2]);
        } else if s.len() >= 2 && is_white_space(s[s.len() - 2]) {
            assert(s[s.len() - 2] == ' ');
            assert(t.last() == ' ');
            assert(s.len() - 2 > 0);
            assert(collapse_ws(t) == t.drop_last());
            assert(t.drop_last().push(' ').push(c) =~= s);
        } else {
            if t.len() > 0 {
                assert(t.last() == s[s.len() - 2]);
            }
            assert(t.push(c) =~= s);
        }
    }
}

proof fn lemma_dedup_facts(s: Seq<char>)
    ensures
        no_repeats(dedup_punct(s)),
        s.len() > 0 ==> dedup_punct(s).len() > 0 && dedup_punct(s).last() == s.last(),
        spaced(s) ==> spaced(dedup_punct(s)),
    decreases s.len(),
{
    if s.len() > 0 {
        let t = s.drop_last();
        lemma_dedup_facts(t);
        assert(spaced(s) ==> spaced(t)) by {
            if spaced(s) {
                assert forall|i: int| 0 <= i < t.len() && is_white_space(#[trigger] t[i]) implies t[i] == ' ' && 0 < i && t[i - 1] != ' ' by {
                    assert(t[i] == s[i]);
                }
            }
        }
        let p = dedup_punct(t);
        let c = s.last();
        if t.len() > 0 {
            assert(t.last() == s[s.len() - 2]);
        }
        if is_repeatable(c) && s.len() >= 2 && s[s.len() - 2] == c {
        } else {
            let q = p.push(c);
            assert forall|i: int| 0 < i < q.len() && is_repeatable(#[trigger] q[i]) implies q[i - 1] != q[i] by {
                if i < p.len() {
                    assert(q[i] == p[i] && q[i - 1] == p[i - 1]);
                }
            }
            if spaced(s) {
                assert forall|i: int| 0 <= i < q.len() && is_white_space(#[trigger] q[i]) implies q[i] == ' ' && 0 < i && q[i - 1] != ' ' by {
                    if i < p.len() {
                        assert(q[i] == p[i]);
                        if i > 0 { assert(q[i - 1] == p[i - 1]); }
                    } else {
                        assert(s[s.len() - 1] == c);
                    }
                }
            }
        }
    }
}

proof fn lemma_dedup_keeps(s: Seq<char>)
    requires
        no_repeats(s),
    ensures
        dedup_punct(s) == s,
    decreases s.len(),
{
    if s.len() > 0 {
        let t = s.drop_last();
        assert(no_repeats(t)) by {
            assert forall|i: int| 0 < i < t.len() && is_repeatable(#[trigger] t[i]) implies t[i - 1] != t[i] by {
                assert(t[i] == s[i] && t[i - 1] == s[i - 1]);
            }
        }
        lemma_dedup_keeps(t);
        if s.len() >= 2 {
            assert(is_repeatable(s[s.len() - 1]) ==> s[s.len() - 2] != s[s.len() - 1]);
        }
        assert(t.push(s.last()) =~= s);
    }
}

proof fn lemma_split_len(s: Seq<char>)
    ensures
        split_spaces(s).len() >= 1,
    decreases s.len(),
{
    if s.len() > 0 {
        lemma_split_len(s.drop_last());
    }
}

proof fn lemma_join_split(s: Seq<char>)
    ensures
        join_spaces(split_spaces(s)) == s,
    decreases s.len(),
{
    if s.len() > 0 {
        let t = s.drop_last();
        lemma_join_split(t);
        lemma_split_len(t);
        let p = split_spaces(t);
        if s.last() == ' ' {
            let q = p.push(seq![]);
            assert(q.drop_last() =~= p);
            assert(join_spaces(q) =~= s);
        } else {
            let q = p.update(p.len() - 1, p.last().push(s.last()));
            if p.len() == 1 {
                assert(join_spaces(q) =~= s);
            } else {
                assert(q.drop_last() =~= p.drop_last());
                assert(q.last() == p.last().push(s.last()));
                assert(join_spaces(p) == join_spaces(p.drop_last()) + seq![' '] + p.last());
                assert(join_spaces(q) == join_spaces(p.drop_last()) + seq![' '] + p.last().push(s.last()));
                assert(t.push(s.last()) =~= s);
                assert(join_spaces(q) =~= s);
            }
        }
    }
}

proof fn lemma_split_concat(a: Seq<char>, b: Seq<char>)
    ensures
        split_spaces(a + seq![' '] + b) == split_spaces(a) + split_spaces(b),
    decreases b.len(),
{
    let ab = a + seq![' '] + b;
    lemma_split_len(b);
    if b.len() == 0 {
        assert(ab.drop_last() =~= a);
        assert(split_spaces(ab) =~= split_spaces(a) + split_spaces(b));
    } else {
        let b1 = b.drop_last();
        lemma_split_concat(a, b1);
        lemma_split_len(b1);
        assert(ab.drop_last() =~= a + seq![' '] + b1);
        assert(ab.last() == b.last());
        assert(split_spaces(ab) =~= split_spaces(a) + split_spaces(b));
    }
}

proof fn lemma_split_word(w: Seq<char>)
    requires
        forall|i: int| 0 <= i < w.len() ==> #[trigger] w[i] != ' ',
    ensures
        split_spaces(w) == seq![w],
    decreases w.len(),
{
    if w.len() > 0 {
        let t = w.drop_last();
        lemma_split_word(t);
        assert(w[w.len() - 1] != ' ');
        assert(t.push(w.last()) =~= w);
        assert(split_spaces(w) =~= seq![w]);
    } else {
        assert(w =~= seq![]);
    }
}

/// Expanding `w` leaves it as it is.
pub open spec fn is_stable_word(w: Seq<char>) -> bool {
    expand_word_spec(w) == w
}

/// Every space-separated piece of `s` is left as it is by expansion.
pub open spec fn all_stable(s: Seq<char>) -> bool {
    forall|i: int| 0 <= i < split_spaces(s).len() ==> is_stable_word(#[trigger] split_spaces(s)[i])
}

/// `s` is what a cleanup pass leaves behind: normalised whitespace, no
/// repeated `?`/`!`, and nothing left to expand.
pub open spec fn settled(s: Seq<char>) -> bool {
    is_normalized(s) && no_repeats(s) && all_stable(s)
}

/// No character of `w` is whitespace.
pub open spec fn no_white(w: Seq<char>) -> bool {
    forall|j: int| 0 <= j < w.len() ==> !is_white_space(#[trigger] w[j])
}

proof fn lemma_trailing(w: Seq<char>)
    ensures
        trailing_len(w) <= w.len(),
        forall|j: int| w.len() - trailing_len(w) <= j < w.len() ==> is_trailing_punct(#[trigger] w[j]),
        trailing_len(w) < w.len() ==> !is_trailing_punct(w[w.len() - trailing_len(w) - 1]),
    decreases w.len(),
{
    if w.len() > 0 && is_trailing_punct(w.last()) {
        let t = w.drop_last();
        lemma_trailing(t);
        assert forall|j: int| w.len() - trailing_len(w) <= j < w.len() implies is_trailing_punct(#[trigger] w[j]) by {
            if j < w.len() - 1 {
                assert(w[j] == t[j]);
            }
        }
        if trailing_len(w) < w.len() {
            assert(w[w.len() - trailing_len(w) - 1] == t[t.len() - trailing_len(t) - 1]);
        }
    }
}

pub(crate) proof fn lemma_trailing_concat(r: Seq<char>, t: Seq<char>)
    requires
        r.len() > 0,
        !is_trailing_punct(r.last()),
        forall|j: int| 0 <= j < t.len() ==> is_trailing_punct(#[trigger] t[j]),
    ensures
        trailing_len(r + t) == t.len(),
    decreases t.len(),
{
    if t.len() == 0 {
        assert(r + t =~= r);
    } else {
        let t1 = t.drop_last();
        lemma_trailing_concat(r, t1);
        assert((r + t).drop_last() =~= r + t1);
        assert(is_trailing_punct(t[t.len() - 1]));
        assert((r + t).last() == t.last());
    }
}

proof fn lemma_stable_push_dot(q: Seq<char>)
    requires
        is_stable_word(q),
    ensures
        is_stable_word(q.push('.')),
{
    let q2 = q.push('.');
    lemma_trailing(q);
    assert(q2.drop_last() =~= q);
    assert(trailing_len(q2) == trailing_len(q) + 1);
    let cut = q.len() - trailing_len(q);
    assert(q2.len() - trailing_len(q2) == cut);
    assert(q2.take(cut) =~= q.take(cut));
    assert(q2.skip(cut) =~= q.skip(cut).push('.'));
    match abbreviation_spec(lowercase(q.take(cut))) {
        Some(r) => {
            assert(r + q.skip(cut) == q);
            assert(r + q2.skip(cut) =~= (r + q.skip(cut)).push('.'));
        },
        None => {},
    }
}

proof fn lemma_settled_concat(a: Seq<char>, b: Seq<char>)
    requires
        settled(a),
        settled(b),
        a.len() > 0,
        b.len() > 0,
    ensures
        settled(a + seq![' '] + b),
        (a + seq![' '] + b).len() > 0,
{
    let s = a + seq![' '] + b;
    let n = a.len() as int;
    assert forall|i: int| 0 <= i < s.len() && is_white_space(#[trigger] s[i]) implies s[i] == ' ' && 0 < i && s[i - 1] != ' ' by {
        if i < n {
            assert(s[i] == a[i]);
            if i > 0 { assert(s[i - 1] == a[i - 1]); }
        } else if i == n {
            assert(s[i - 1] == a[n - 1]);
            assert(!is_white_space(a.last()));
        } else {
            assert(s[i] == b[i - n - 1]);
            if i - n - 1 > 0 {
                assert(s[i - 1] == b[i - n - 2]);
            } else {
                assert(!is_white_space(b[0]));
            }
        }
    }
    assert(s.last() == b.last());
    assert forall|i: int| 0 < i < s.len() && is_repeatable(#[trigger] s[i]) implies s[i - 1] != s[i] by {
        if i < n {
            assert(s[i] == a[i] && s[i - 1] == a[i - 1]);
        } else if i == n {
        } else if i == n + 1 {
            assert(s[i - 1] == ' ');
        } else {
            assert(s[i] == b[i - n - 1] && s[i - 1] == b[i - n - 2]);
        }
    }
    lemma_split_concat(a, b);
    assert forall|i: int| 0 <= i < split_spaces(s).len() implies is_stable_word(#[trigger] split_spaces(s)[i]) by {
        let pa = split_spaces(a);
        if i < pa.len() {
            assert(split_spaces(s)[i] == pa[i]);
        } else {
            assert(split_spaces(s)[i] == split_spaces(b)[i - pa.len()]);
        }
    }
}

proof fn lemma_settled_dot(y: Seq<char>)
    requires
        settled(y),
        y.len() > 0,
    ensures
        settled(y.push('.')),
{
    let z = y.push('.');
    assert(z.drop_last() =~= y);
    assert(z.last() == '.');
    assert(!is_white_space(y.last()));
    assert forall|i: int| 0 <= i < z.len() && is_white_space(#[trigger] z[i]) implies z[i] == ' ' && 0 < i && z[i - 1] != ' ' by {
        assert(i < y.len());
        assert(z[i] == y[i]);
        if i > 0 { assert(z[i - 1] == y[i - 1]); }
    }
    assert forall|i: int| 0 < i < z.len() && is_repeatable(#[trigger] z[i]) implies z[i - 1] != z[i] by {
        assert(i < y.len());
        assert(z[i] == y[i] && z[i - 1] == y[i - 1]);
    }
    lemma_split_len(y);
    let p = split_spaces(y);
    assert(split_spaces(z) == p.update(p.len() - 1, p.last().push('.')));
    assert(is_stable_word(p[p.len() - 1]));
    lemma_stable_push_dot(p.last());
    assert forall|i: int| 0 <= i < split_spaces(z).len() implies is_stable_word(#[trigger] split_spaces(z)[i]) by {
        if i < p.len() - 1 {
            assert(split_spaces(z)[i] == p[i]);
        }
    }
}

proof fn lemma_settled_word(w: Seq<char>)
    requires
        w.len() > 0,
        no_white(w),
        no_repeats(w),
        is_stable_word(w),
    ensures
        settled(w),
{
    assert(!is_white_space(w[w.len() - 1]));
    lemma_split_word(w);
    assert(split_spaces(w)[0] == w);
}

proof fn lemma_plain_settled(w: Seq<char>, t: Seq<char>)
    requires
        w.len() > 0,
        forall|i: int| 0 <= i < w.len() ==> !is_white_space(#[trigger] w[i]) && !is_trailing_punct(w[i]),
        lowercase(w) == w,
        abbreviation_spec(w) is None,
        forall|j: int| 0 <= j < t.len() ==> is_trailing_punct(#[trigger] t[j]),
        no_repeats(t),
    ensures
        settled(w + t),
        (w + t).len() > 0,
{
    let s = w + t;
    let n = w.len() as int;
    assert forall|j: int| 0 <= j < s.len() implies !is_white_space(#[trigger] s[j]) by {
        if j < n { assert(s[j] == w[j]); } else { assert(s[j] == t[j - n]); }
    }
    assert forall|i: int| 0 < i < s.len() && is_repeatable(#[trigger] s[i]) implies s[i - 1] != s[i] by {
        if i < n {
            assert(s[i] == w[i]);
        } else if i == n {
            assert(s[i - 1] == w[n - 1]);
            assert(s[i] == t[0]);
        } else {
            assert(s[i] == t[i - n] && s[i - 1] == t[i - n - 1]);
        }
    }
    lemma_trailing_concat(w, t);
    assert(s.take(n) =~= w);
    assert(s.skip(n) =~= t);
    lemma_settled_word(s);
}

/// The words the expansions are made of, and the empty text, are each their
/// own lowercase form (`str::to_lowercase`, named `lowercase`).
pub open spec fn expansion_words_lowercase() -> bool {
    &&& lowercase(Seq::<char>::empty()) == Seq::<char>::empty()
    &&& lowercase("please"@) == "please"@
    &&& lowercase("you"@) == "you"@
    &&& lowercase("your"@) == "your"@
    &&& lowercase("as"@) == "as"@
    &&& lowercase("soon"@) == "soon"@
    &&& lowercase("possible"@) == "possible"@
    &&& lowercase("thanks"@) == "thanks"@
    &&& lowercase("by"@) == "by"@
    &&& lowercase("the"@) == "the"@
    &&& lowercase("way"@) == "way"@
    &&& lowercase("пожалуйста"@) == "пожалуйста"@
    &&& lowercase("спасибо"@) == "спасибо"@
    &&& lowercase("сейчас"@) == "сейчас"@
}

proof fn lemma_word_then_punct(w: Seq<char>, t: Seq<char>)
    requires
        expansion_words_lowercase(),
        w == "please"@ || w == "you"@ || w == "your"@ || w == "as"@ || w == "soon"@
            || w == "possible"@ || w == "thanks"@ || w == "by"@ || w == "the"@ || w == "way"@
            || w == "пожалуйста"@ || w == "спасибо"@ || w == "сейчас"@,
        forall|j: int| 0 <= j < t.len() ==> is_trailing_punct(#[trigger] t[j]),
        no_repeats(t),
    ensures
        settled(w + t),
        (w + t).len() > 0,
{
    reveal_strlit("pls");
    reveal_strlit("plz");
    reveal_strlit("u");
    reveal_strlit("ur");
    reveal_strlit("asap");
    reveal_strlit("thx");
    reveal_strlit("btw");
    reveal_strlit("плз");
    reveal_strlit("спс");
    reveal_strlit("щас");
    reveal_strlit("please");
    reveal_strlit("you");
    reveal_strlit("your");
    reveal_strlit("as");
    reveal_strlit("soon");
    reveal_strlit("possible");
    reveal_strlit("thanks");
    reveal_strlit("by");
    reveal_strlit("the");
    reveal_strlit("way");
    reveal_strlit("пожалуйста");
    reveal_strlit("спасибо");
    reveal_strlit("сейчас");
    assert(w.len() > 0);
    assert(forall|i: int| 0 <= i < w.len() ==> !is_white_space(#[trigger] w[i]) && !is_trailing_punct(w[i]));
    assert(lowercase(w) == w);
    assert(w != "pls"@ && w != "plz"@ && w != "u"@ && w != "ur"@ && w != "asap"@) by {
        assert(w[0] != 'p' || w.len() != 3 || w[1] != 'l');
        assert(w.len() != 1 || w[0] != 'u');
        assert(w.len() != 2 || w[0] != 'u');
        assert(w.len() != 4 || w[0] != 'a');
    }
    assert(w != "thx"@ && w != "btw"@ && w != "плз"@ && w != "спс"@ && w != "щас"@) by {
        assert(w.len() != 3 || w[0] != 't' || w[1] != 'h' || w[2] != 'x');
        assert(w.len() != 3 || w[0] != 'b');
        assert(w.len() != 3 || w[0] != 'п');
        assert(w.len() != 3 || w[0] != 'с');
        assert(w.len() != 3 || w[0] != 'щ');
    }
    lemma_plain_settled(w, t);
}

proof fn lemma_plain_word(w: Seq<char>)
    requires
        expansion_words_lowercase(),
        w == "as"@ || w == "soon"@ || w == "by"@ || w == "the"@,
    ensures
        settled(w),
        w.len() > 0,
{
    lemma_word_then_punct(w, seq![]);
    assert(w + seq![] =~= w);
}

proof fn lemma_expanded_settled(p: Seq<char>)
    requires
        expansion_words_lowercase(),
        p.len() > 0,
        no_white(p),
        no_repeats(p),
    ensures
        settled(expand_word_spec(p)),
        expand_word_spec(p).len() > 0,
{
    let cut = p.len() - trailing_len(p);
    lemma_trailing(p);
    match abbreviation_spec(lowercase(p.take(cut))) {
        None => {
            lemma_settled_word(p);
        },
        Some(r) => {
            let t = p.skip(cut);
            assert forall|j: int| 0 <= j < t.len() implies is_trailing_punct(#[trigger] t[j]) by {
                assert(t[j] == p[cut + j]);
            }
            assert forall|i: int| 0 < i < t.len() && is_repeatable(#[trigger] t[i]) implies t[i - 1] != t[i] by {
                assert(t[i] == p[cut + i] && t[i - 1] == p[cut + i - 1]);
            }
            reveal_strlit("as soon as possible");
            reveal_strlit("by the way");
            reveal_strlit("as");
            reveal_strlit("soon");
            reveal_strlit("possible");
            reveal_strlit("by");
            reveal_strlit("the");
            reveal_strlit("way");
            if r == "as soon as possible"@ {
                lemma_word_then_punct("possible"@, t);
                lemma_plain_word("as"@);
                lemma_plain_word("soon"@);
                let tail = "possible"@ + t;
                lemma_settled_concat("as"@, tail);
                lemma_settled_concat("soon"@, "as"@ + seq![' '] + tail);
                lemma_settled_concat("as"@, "soon"@ + seq![' '] + ("as"@ + seq![' '] + tail));
                assert(r + t =~= "as"@ + seq![' '] + ("soon"@ + seq![' '] + ("as"@ + seq![' '] + tail)));
            } else if r == "by the way"@ {
                lemma_word_then_punct("way"@, t);
                lemma_plain_word("by"@);
                lemma_plain_word("the"@);
                let tail = "way"@ + t;
                lemma_settled_concat("the"@, tail);
                lemma_settled_concat("by"@, "the"@ + seq![' '] + tail);
                assert(r + t =~= "by"@ + seq![' '] + ("the"@ + seq![' '] + tail));
            } else {
                lemma_word_then_punct(r, t);
            }
        },
    }
}

proof fn lemma_pieces(s: Seq<char>)
    requires
        spaced(s),
        no_repeats(s),
    ensures
        forall|i: int| 0 <= i < split_spaces(s).len() ==> no_white(#[trigger] split_spaces(s)[i]) && no_repeats(split_spaces(s)[i]),
        forall|i: int| 0 <= i < split_spaces(s).len() - 1 ==> (#[trigger] split_spaces(s)[i]).len() > 0,
        split_spaces(s).len() >= 1,
        split_spaces(s).last().len() > 0 <==> (s.len() > 0 && s.last() != ' '),
        split_spaces(s).last().len() > 0 ==> split_spaces(s).last().last() == s.last(),
    decreases s.len(),
{
    lemma_split_len(s);
    if s.len() > 0 {
        let t = s.drop_last();
        assert forall|i: int| 0 <= i < t.len() && is_white_space(#[trigger] t[i]) implies t[i] == ' ' && 0 < i && t[i - 1] != ' ' by {
            assert(t[i] == s[i]);
        }
        assert forall|i: int| 0 < i < t.len() && is_repeatable(#[trigger] t[i]) implies t[i - 1] != t[i] by {
            assert(t[i] == s[i] && t[i - 1] == s[i - 1]);
        }
        lemma_pieces(t);
        let q = split_spaces(t);
        let c = s.last();
        let n = s.len() as int;
        if c == ' ' {
            assert(is_white_space(s[n - 1]));
            assert(t.last() == s[n - 2]);
            let p = q.push(seq![]);
            assert(split_spaces(s) == p);
            assert forall|i: int| 0 <= i < p.len() implies no_white(#[trigger] p[i]) && no_repeats(p[i]) by {
                if i < q.len() { assert(p[i] == q[i]); }
            }
            assert forall|i: int| 0 <= i < p.len() - 1 implies (#[trigger] p[i]).len() > 0 by {
                assert(p[i] == q[i]);
            }
        } else {
            assert(!is_white_space(s[n - 1]));
            let w = q.last();
            let w2 = w.push(c);
            let p = q.update(q.len() - 1, w2);
            assert(split_spaces(s) == p);
            assert(no_white(w2)) by {
                assert forall|j: int| 0 <= j < w2.len() implies !is_white_space(#[trigger] w2[j]) by {
                    if j < w.len() { assert(w2[j] == w[j]); assert(no_white(q[q.len() - 1])); }
                }
            }
            assert(no_repeats(w2)) by {
                assert(no_repeats(q[q.len() - 1]));
                assert forall|i: int| 0 < i < w2.len() && is_repeatable(#[trigger] w2[i]) implies w2[i - 1] != w2[i] by {
                    if i < w.len() {
                        assert(w2[i] == w[i] && w2[i - 1] == w[i - 1]);
                    } else {
                        assert(w.last() == t.last());
                        assert(t.last() == s[n - 2]);
                        assert(s[n - 1] == c);
                    }
                }
            }
            assert forall|i: int| 0 <= i < p.len() implies no_white(#[trigger] p[i]) && no_repeats(p[i]) by {
                if i < q.len() - 1 { assert(p[i] == q[i]); }
            }
            assert forall|i: int| 0 <= i < p.len() - 1 implies (#[trigger] p[i]).len() > 0 by {
                assert(p[i] == q[i]);
            }
        }
    }
}

proof fn lemma_join_settled(ps: Seq<Seq<char>>)
    requires
        expansion_words_lowercase(),
        ps.len() >= 1,
        forall|i: int| 0 <= i < ps.len() ==> (#[trigger] ps[i]).len() > 0 && no_white(ps[i]) && no_repeats(ps[i]),
    ensures
        settled(join_expanded(ps)),
        join_expanded(ps).len() > 0,
    decreases ps.len(),
{
    assert(ps[ps.len() - 1].len() > 0);
    lemma_expanded_settled(ps.last());
    if ps.len() == 1 {
        assert(ps[0] == ps.last());
    } else {
        let front = ps.drop_last();
        assert forall|i: int| 0 <= i < front.len() implies (#[trigger] front[i]).len() > 0 && no_white(front[i]) && no_repeats(front[i]) by {
            assert(front[i] == ps[i]);
        }
        lemma_join_settled(front);
        lemma_settled_concat(join_expanded(front), expand_word_spec(ps.last()));
    }
}

proof fn lemma_join_stable(ps: Seq<Seq<char>>)
    requires
        forall|i: int| 0 <= i < ps.len() ==> is_stable_word(#[trigger] ps[i]),
    ensures
        join_expanded(ps) == join_spaces(ps),
    decreases ps.len(),
{
    if ps.len() == 1 {
        assert(is_stable_word(ps[0]));
    } else if ps.len() > 1 {
        let front = ps.drop_last();
        assert forall|i: int| 0 <= i < front.len() implies is_stable_word(#[trigger] front[i]) by {
            assert(front[i] == ps[i]);
        }
        lemma_join_stable(front);
        assert(is_stable_word(ps[ps.len() - 1]));
    }
}

proof fn lemma_empty_word_stays()
    requires
        expansion_words_lowercase(),
    ensures
        expand_word_spec(Seq::<char>::empty()) == Seq::<char>::empty(),
        expand_spec(Seq::<char>::empty()) == Seq::<char>::empty(),
{
    reveal_strlit("pls");
    reveal_strlit("plz");
    reveal_strlit("u");
    reveal_strlit("ur");
    reveal_strlit("asap");
    reveal_strlit("thx");
    reveal_strlit("btw");
    reveal_strlit("плз");
    reveal_strlit("спс");
    reveal_strlit("щас");
    let e = Seq::<char>::empty();
    assert(e.take(0) =~= e);
    assert(abbreviation_spec(e) is None);
    assert(split_spaces(e) =~= seq![e]);
}

/// What a cleanup pass gives is empty, or is `settled` and ends a sentence.
pub(crate) proof fn lemma_improve_settled(s: Seq<char>)
    requires
        expansion_words_lowercase(),
    ensures
        improve_spec(s).len() == 0 || (settled(improve_spec(s)) && is_terminal(improve_spec(s).last())),
{
    let c = collapse_ws(s);
    lemma_collapse_normalized(s);
    let d = dedup_punct(c);
    lemma_dedup_facts(c);
    assert(is_normalized(d));
    if d.len() == 0 {
        lemma_empty_word_stays();
        assert(d =~= Seq::<char>::empty());
    } else {
        lemma_pieces(d);
        let ps = split_spaces(d);
        assert forall|i: int| 0 <= i < ps.len() implies (#[trigger] ps[i]).len() > 0 && no_white(ps[i]) && no_repeats(ps[i]) by {
            if i == ps.len() - 1 {
                assert(ps[i] == ps.last());
            }
        }
        lemma_join_settled(ps);
        let y = join_expanded(ps);
        if !is_terminal(y.last()) {
            lemma_settled_dot(y);
            assert(y.push('.').last() == '.');
        }
    }
}

/// A `settled` text that ends a sentence (or is empty) comes out of a
/// cleanup pass as it went in.
pub(crate) proof fn lemma_settled_fixed(z: Seq<char>)
    requires
        expansion_words_lowercase(),
        z.len() == 0 || (settled(z) && is_terminal(z.last())),
    ensures
        improve_spec(z) == z,
{
    if z.len() == 0 {
        lemma_empty_word_stays();
        assert(z =~= Seq::<char>::empty());
    } else {
        lemma_collapse_spaced(z);
        assert(z[z.len() - 1] != ' ');
        lemma_dedup_keeps(z);
        let ps = split_spaces(z);
        assert forall|i: int| 0 <= i < ps.len() implies is_stable_word(#[trigger] ps[i]) by {}
        lemma_join_stable(ps);
        lemma_join_split(z);
    }
}

/// An abbreviation `a` (its own lowercase form, not ending in punctuation)
/// followed by trailing punctuation `t` is written out as its expansion `e`
/// followed by `t`, alone and as the last word after any text `p`.
pub(crate) proof fn lemma_abbreviation_word(a: Seq<char>, e: Seq<char>, t: Seq<char>, p: Seq<char>)
    requires
        abbreviation_spec(a) == Some(e),
        lowercase(a) == a,
        a.len() > 0,
        forall|i: int| 0 <= i < a.len() ==> #[trigger] a[i] != ' ' && !is_trailing_punct(a[i]),
        forall|j: int| 0 <= j < t.len() ==> is_trailing_punct(#[trigger] t[j]),
    ensures
        expand_word_spec(a + t) == e + t,
        expand_spec(a + t) == e + t,
        expand_spec(p + seq![' '] + (a + t)) == expand_spec(p) + seq![' '] + (e + t),
{
    let w = a + t;
    assert(!is_trailing_punct(a[a.len() - 1]));
    lemma_trailing_concat(a, t);
    assert(w.take(a.len() as int) =~= a);
    assert(w.skip(a.len() as int) =~= t);
    assert forall|i: int| 0 <= i < w.len() implies #[trigger] w[i] != ' ' by {
        if i < a.len() {
            assert(w[i] == a[i]);
        } else {
            assert(w[i] == t[i - a.len()]);
        }
    }
    lemma_split_word(w);
    assert(split_spaces(w)[0] == w);
    lemma_split_concat(p, w);
    lemma_split_len(p);
    let ps = split_spaces(p) + split_spaces(w);
    assert(ps =~= split_spaces(p).push(w));
    assert(ps.drop_last() =~= split_spaces(p));
}

} // verus!
