//! Character classes and plain-text operations on `Seq<char>` that the
//! classifier, the layout corrector and the prompt tools share.

use vstd::prelude::*;

verus! {

/// The Unicode `White_Space` property, which `char::is_whitespace` tests.
pub open spec fn is_white_space(c: char) -> bool {
    ||| ('\u{9}' <= c && c <= '\u{d}')
    ||| c == ' '
    ||| c == '\u{85}'
    ||| c == '\u{a0}'
    ||| c == '\u{1680}'
    ||| ('\u{2000}' <= c && c <= '\u{200a}')
    ||| c == '\u{2028}'
    ||| c == '\u{2029}'
    ||| c == '\u{202f}'
    ||| c == '\u{205f}'
    ||| c == '\u{3000}'
}

/// ASCII letters `A-Z` and `a-z`.
pub open spec fn is_ascii_letter(c: char) -> bool {
    ('a' <= c && c <= 'z') || ('A' <= c && c <= 'Z')
}

/// The five ASCII whitespace characters of `char::is_ascii_whitespace`
/// (space, tab, line feed, form feed, carriage return).
pub open spec fn is_ascii_space(c: char) -> bool {
    c == ' ' || c == '\t' || c == '\n' || c == '\u{c}' || c == '\r'
}

/// Whether `c` is a Unicode whitespace character.
pub fn is_whitespace(c: char) -> (r: bool)
    ensures
        r == is_white_space(c),
{
    ('\u{9}' <= c && c <= '\u{d}') || c == ' ' || c == '\u{85}' || c == '\u{a0}' || c == '\u{1680}'
        || ('\u{2000}' <= c && c <= '\u{200a}') || c == '\u{2028}' || c == '\u{2029}'
        || c == '\u{202f}' || c == '\u{205f}' || c == '\u{3000}'
}

/// Whether `c` is an ASCII letter.
pub fn is_ascii_alphabetic(c: char) -> (r: bool)
    ensures
        r == is_ascii_letter(c),
{
    ('a' <= c && c <= 'z') || ('A' <= c && c <= 'Z')
}

/// Whether `c` is ASCII whitespace.
pub fn is_ascii_whitespace(c: char) -> (r: bool)
    ensures
        r == is_ascii_space(c),
{
    c == ' ' || c == '\t' || c == '\n' || c == '\u{c}' || c == '\r'
}

/// What `str::to_lowercase` returns for a string with the characters `s`.
pub uninterp spec fn lowercase(s: Seq<char>) -> Seq<char>;

/// The first character of the lowercase mapping of `c` (`char::to_lowercase`).
pub uninterp spec fn lowercase_first(c: char) -> char;

/// The first character of the uppercase mapping of `c` (`char::to_uppercase`).
pub uninterp spec fn uppercase_first(c: char) -> char;

/// The Unicode `Uppercase` property of `c` (`char::is_uppercase`).
pub uninterp spec fn has_uppercase_property(c: char) -> bool;

/// Calls `str::to_lowercase`. Its result is named `lowercase` of the
/// argument's characters; beside the name, only that the empty string stays
/// empty is claimed, nothing about the Unicode case tables.
#[verifier::external_body]
pub(crate) fn to_lowercase(s: &str) -> (r: String)
    ensures
        r@ == lowercase(s@),
        s@.len() == 0 ==> r@.len() == 0,
{
    s.to_lowercase()
}

/// Calls `char::to_lowercase` and takes the first character it yields (the
/// documentation promises at least one). The result is named `lowercase_first(c)`.
#[verifier::external_body]
pub(crate) fn lower_char(c: char) -> (r: char)
    ensures
        r == lowercase_first(c),
{
    c.to_lowercase().next().unwrap_or(c)
}

/// Calls `char::to_uppercase` and takes the first character it yields (the
/// documentation promises at least one). The result is named `uppercase_first(c)`.
#[verifier::external_body]
pub(crate) fn upper_char(c: char) -> (r: char)
    ensures
        r == uppercase_first(c),
{
    c.to_uppercase().next().unwrap_or(c)
}

/// Calls `char::is_uppercase`; the result is named `has_uppercase_property(c)`.
#[verifier::external_body]
pub(crate) fn is_uppercase(c: char) -> (r: bool)
    ensures
        r == has_uppercase_property(c),
{
    c.is_uppercase()
}

/// Calls `String::push`, which appends one character.
#[verifier::external_body]
pub(crate) fn push_char(s: &mut String, c: char)
    ensures
        final(s)@ == old(s)@.push(c),
{
    s.push(c)
}

/// The characters of a string slice, in order.
pub fn chars_of(s: &str) -> (r: Vec<char>)
    ensures
        r@ == s@,
{
    let mut out: Vec<char> = Vec::new();
    for c in it: s.chars()
        invariant
            out@ == it.seq().take(it.index() as int),
    {
        out.push(c);
    }
    out
}

/// A `String` holding the characters `v`.
pub fn string_of(v: &[char]) -> (r: String)
    ensures
        r@ == v@,
{
    let mut out = String::new();
    let mut i: usize = 0;
    while i < v.len()
        invariant
            i <= v.len(),
            out@ == v@.take(i as int),
        decreases v.len() - i,
    {
        push_char(&mut out, v[i]);
        i = i + 1;
        assert(out@ =~= v@.take(i as int));
    }
    assert(v@.take(v.len() as int) =~= v@);
    out
}

/// Appends the characters of `s` to `out`.
pub fn append_str(out: &mut Vec<char>, s: &str)
    ensures
        final(out)@ == old(out)@ + s@,
{
    let chars = chars_of(s);
    let mut i: usize = 0;
    let ghost start = out@;
    while i < chars.len()
        invariant
            chars@ == s@,
            i <= chars.len(),
            out@ == start + s@.take(i as int),
        decreases chars.len() - i,
    {
        out.push(chars[i]);
        i = i + 1;
        assert(out@ =~= start + s@.take(i as int));
    }
    assert(s@.take(chars.len() as int) =~= s@);
}

/// The characters of `lowercase(s)`.
pub fn lowercase_chars(s: &str) -> (r: Vec<char>)
    ensures
        r@ == lowercase(s@),
        s@.len() == 0 ==> r@.len() == 0,
{
    let lowered = to_lowercase(s);
    chars_of(lowered.as_str())
}

/// Whether two string slices hold the same characters.
pub fn same_text(a: &str, b: &str) -> (r: bool)
    ensures
        r == (a@ == b@),
{
    let x = chars_of(a);
    let y = chars_of(b);
    same_chars(&x, &y)
}

/// Whether two character slices are equal.
pub fn same_chars(a: &[char], b: &[char]) -> (r: bool)
    ensures
        r == (a@ == b@),
{
    if a.len() != b.len() {
        return false;
    }
    let mut i: usize = 0;
    while i < a.len()
        invariant
            a.len() == b.len(),
            i <= a.len(),
            a@.take(i as int) == b@.take(i as int),
        decreases a.len() - i,
    {
        if a[i] != b[i] {
            assert(a@[i as int] != b@[i as int]);
            return false;
        }
        assert(a@.take(i + 1) =~= a@.take(i as int).push(a@[i as int]));
        assert(b@.take(i + 1) =~= b@.take(i as int).push(b@[i as int]));
        i = i + 1;
    }
    assert(a@ =~= a@.take(a.len() as int));
    assert(b@ =~= b@.take(b.len() as int));
    true
}

/// `pat` occurs in `text` as a contiguous run starting at `start`.
pub open spec fn occurs_at(text: Seq<char>, pat: Seq<char>, start: int) -> bool {
    0 <= start && start + pat.len() <= text.len() && text.subrange(start, start + pat.len()) == pat
}

/// `pat` occurs somewhere in `text` (what `str::contains` tests); the empty
/// pattern occurs in every text.
pub open spec fn occurs_in(text: Seq<char>, pat: Seq<char>) -> bool {
    exists|start: int| occurs_at(text, pat, start)
}

/// Whether `pat` occurs at position `start` of `text`.
fn matches_at(text: &[char], pat: &[char], start: usize) -> (r: bool)
    requires
        start + pat.len() <= text.len(),
    ensures
        r == occurs_at(text@, pat@, start as int),
{
    let mut k: usize = 0;
    while k < pat.len()
        invariant
            start + pat.len() <= text.len(),
            k <= pat.len(),
            forall|j: int| 0 <= j < k ==> text@[start + j] == pat@[j],
        decreases pat.len() - k,
    {
        if text[start + k] != pat[k] {
            assert(text@.subrange(start as int, start + pat.len())[k as int] != pat@[k as int]);
            return false;
        }
        k = k + 1;
    }
    assert(text@.subrange(start as int, start + pat.len()) =~= pat@);
    true
}

/// Whether `pat` occurs in `text`.
pub fn contains_chars(text: &[char], pat: &[char]) -> (r: bool)
    ensures
        r == occurs_in(text@, pat@),
{
    if pat.len() > text.len() {
        assert(!occurs_in(text@, pat@));
        return false;
    }
    let last = text.len() - pat.len();
    let mut start: usize = 0;
    loop
        invariant
            last + pat.len() == text.len(),
            start <= last,
            forall|s: int| 0 <= s < start ==> !occurs_at(text@, pat@, s),
        decreases last - start,
    {
        if matches_at(text, pat, start) {
            return true;
        }
        if start == last {
            assert(!occurs_in(text@, pat@));
            return false;
        }
        start = start + 1;
    }
}

/// Some pattern of `pats` occurs in `text`.
pub open spec fn occurs_any(text: Seq<char>, pats: Seq<Seq<char>>) -> bool {
    exists|i: int| 0 <= i < pats.len() && occurs_in(text, #[trigger] pats[i])
}

/// The characters of each of `pats`.
pub open spec fn views_of(pats: Seq<&str>) -> Seq<Seq<char>> {
    Seq::new(pats.len(), |i: int| pats[i]@)
}

/// Whether one of the string `markers` occurs in `text`.
pub fn contains_any(text: &[char], markers: &[&str]) -> (r: bool)
    ensures
        r == occurs_any(text@, views_of(markers@)),
{
    let mut i: usize = 0;
    while i < markers.len()
        invariant
            i <= markers.len(),
            forall|j: int| 0 <= j < i ==> !occurs_in(text@, #[trigger] views_of(markers@)[j]),
        decreases markers.len() - i,
    {
        let pat = chars_of(markers[i]);
        if contains_chars(text, &pat) {
            assert(occurs_in(text@, views_of(markers@)[i as int]));
            return true;
        }
        i = i + 1;
    }
    false
}

/// Some character of `s` satisfies `p`.
pub open spec fn any_char(s: Seq<char>, p: spec_fn(char) -> bool) -> bool {
    exists|i: int| 0 <= i < s.len() && p(#[trigger] s[i])
}


/// The words of `s` (its maximal runs of non-whitespace characters) joined by
/// single spaces: what `s.split_whitespace().collect::<Vec<_>>().join(" ")` gives.
pub open spec fn collapse_ws(s: Seq<char>) -> Seq<char>
    decreases s.len(),
{
    if s.len() == 0 {
        seq![]
    } else {
        let p = collapse_ws(s.drop_last());
        let c = s.last();
        if is_white_space(c) {
            p
        } else if s.len() >= 2 && is_white_space(s[s.len() - 2]) && p.len() > 0 {
            p.push(' ').push(c)
        } else {
            p.push(c)
        }
    }
}

/// The number of words of `s` (what `split_whitespace().count()` gives).
pub open spec fn word_count(s: Seq<char>) -> nat
    decreases s.len(),
{
    if s.len() == 0 {
        0
    } else {
        let n = word_count(s.drop_last());
        if !is_white_space(s.last()) && (s.len() == 1 || is_white_space(s[s.len() - 2])) {
            n + 1
        } else {
            n
        }
    }
}

/// `s` without its trailing whitespace.
pub open spec fn trim_end(s: Seq<char>) -> Seq<char>
    decreases s.len(),
{
    if s.len() > 0 && is_white_space(s.last()) {
        trim_end(s.drop_last())
    } else {
        s
    }
}

/// `s` without its leading whitespace.
pub open spec fn trim_start(s: Seq<char>) -> Seq<char>
    decreases s.len(),
{
    if s.len() > 0 && is_white_space(s[0]) {
        trim_start(s.drop_first())
    } else {
        s
    }
}

/// `s` without leading and trailing whitespace (`str::trim`).
pub open spec fn trim(s: Seq<char>) -> Seq<char> {
    trim_end(trim_start(s))
}

/// The run of non-whitespace characters at the very end of `s`.
pub open spec fn trailing_run(s: Seq<char>) -> Seq<char>
    decreases s.len(),
{
    if s.len() > 0 && !is_white_space(s.last()) {
        trailing_run(s.drop_last()).push(s.last())
    } else {
        seq![]
    }
}

/// The last word of `s`, if it has one (`split_whitespace().last()`).
pub open spec fn last_word(s: Seq<char>) -> Option<Seq<char>> {
    if trim_end(s).len() == 0 {
        None
    } else {
        Some(trailing_run(trim_end(s)))
    }
}

/// Every character of a text that trims to nothing is whitespace.
pub(crate) proof fn lemma_trim_blank(s: Seq<char>)
    requires
        trim(s).len() == 0,
    ensures
        forall|i: int| 0 <= i < s.len() ==> is_white_space(#[trigger] s[i]),
{
    lemma_trim_start_blank(s);
}

pub(crate) proof fn lemma_trim_start_blank(s: Seq<char>)
    requires
        trim_end(trim_start(s)).len() == 0,
    ensures
        forall|i: int| 0 <= i < s.len() ==> is_white_space(#[trigger] s[i]),
    decreases s.len(),
{
    if s.len() > 0 {
        if is_white_space(s[0]) {
            lemma_trim_start_blank(s.drop_first());
            assert forall|i: int| 0 <= i < s.len() implies is_white_space(#[trigger] s[i]) by {
                if i > 0 {
                    assert(s[i] == s.drop_first()[i - 1]);
                }
            }
        } else {
            lemma_trim_end_keeps_last_word(trim_start(s));
        }
    }
}

pub(crate) proof fn lemma_trim_end_keeps_last_word(s: Seq<char>)
    requires
        s.len() > 0,
        !is_white_space(s[0]),
    ensures
        trim_end(s).len() > 0,
    decreases s.len(),
{
    if is_white_space(s.last()) {
        assert(s.len() > 1);
        assert(s.drop_last()[0] == s[0]);
        lemma_trim_end_keeps_last_word(s.drop_last());
    }
}

/// Whitespace alone collapses to nothing.
pub(crate) proof fn lemma_collapse_blank(s: Seq<char>)
    requires
        forall|i: int| 0 <= i < s.len() ==> is_white_space(#[trigger] s[i]),
    ensures
        collapse_ws(s) == Seq::<char>::empty(),
    decreases s.len(),
{
    if s.len() > 0 {
        assert(is_white_space(s[s.len() - 1]));
        lemma_collapse_blank(s.drop_last());
    }
}

/// `s` with its words joined by single spaces.
pub fn collapse_whitespace(s: &[char]) -> (r: Vec<char>)
    ensures
        r@ == collapse_ws(s@),
{
    let mut out: Vec<char> = Vec::new();
    let mut i: usize = 0;
    while i < s.len()
        invariant
            i <= s.len(),
            out@ == collapse_ws(s@.take(i as int)),
        decreases s.len() - i,
    {
        let c = s[i];
        assert(s@.take(i + 1).drop_last() =~= s@.take(i as int));
        if is_whitespace(c) {
        } else if i >= 1 && is_whitespace(s[i - 1]) && out.len() > 0 {
            out.push(' ');
            out.push(c);
        } else {
            out.push(c);
        }
        i = i + 1;
    }
    assert(s@.take(s.len() as int) =~= s@);
    out
}

/// The number of words in `s`.
pub fn count_words(s: &[char]) -> (r: usize)
    ensures
        r == word_count(s@),
{
    let mut n: usize = 0;
    let mut i: usize = 0;
    while i < s.len()
        invariant
            i <= s.len(),
            n == word_count(s@.take(i as int)),
            n <= i,
        decreases s.len() - i,
    {
        assert(s@.take(i + 1).drop_last() =~= s@.take(i as int));
        if !is_whitespace(s[i]) && (i == 0 || is_whitespace(s[i - 1])) {
            n = n + 1;
        }
        i = i + 1;
    }
    assert(s@.take(s.len() as int) =~= s@);
    n
}

/// The length of `s` without its trailing whitespace.
pub fn trim_end_len(s: &[char]) -> (r: usize)
    ensures
        r <= s.len(),
        s@.take(r as int) == trim_end(s@),
{
    let mut j: usize = s.len();
    assert(s@.take(j as int) =~= s@);
    while j > 0 && is_whitespace(s[j - 1])
        invariant
            j <= s.len(),
            trim_end(s@.take(j as int)) == trim_end(s@),
        decreases j,
    {
        assert(s@.take(j as int).drop_last() =~= s@.take(j - 1));
        j = j - 1;
    }
    j
}

/// The number of leading whitespace characters of `s`.
pub fn trim_start_len(s: &[char]) -> (r: usize)
    ensures
        r <= s.len(),
        s@.skip(r as int) == trim_start(s@),
{
    let mut i: usize = 0;
    assert(s@.skip(0) =~= s@);
    while i < s.len() && is_whitespace(s[i])
        invariant
            i <= s.len(),
            trim_start(s@.skip(i as int)) == trim_start(s@),
        decreases s.len() - i,
    {
        assert(s@.skip(i as int).drop_first() =~= s@.skip(i + 1));
        i = i + 1;
    }
    i
}

/// `s` without leading and trailing whitespace.
pub fn trim_chars(s: &[char]) -> (r: Vec<char>)
    ensures
        r@ == trim(s@),
{
    let a = trim_start_len(s);
    let mut rest: Vec<char> = Vec::new();
    let mut i: usize = a;
    while i < s.len()
        invariant
            a <= i <= s.len(),
            rest@ == s@.subrange(a as int, i as int),
        decreases s.len() - i,
    {
        rest.push(s[i]);
        i = i + 1;
        assert(rest@ =~= s@.subrange(a as int, i as int));
    }
    assert(rest@ =~= s@.skip(a as int));
    let b = trim_end_len(&rest);
    let mut out: Vec<char> = Vec::new();
    let mut k: usize = 0;
    while k < b
        invariant
            b <= rest.len(),
            k <= b,
            out@ == rest@.take(k as int),
        decreases b - k,
    {
        out.push(rest[k]);
        k = k + 1;
        assert(out@ =~= rest@.take(k as int));
    }
    out
}

/// The last word of `s`, if it has one.
pub fn last_word_of(s: &[char]) -> (r: Option<Vec<char>>)
    ensures
        r matches Some(w) ==> last_word(s@) == Some(w@),
        r is None ==> last_word(s@) is None,
{
    let j = trim_end_len(s);
    if j == 0 {
        return None;
    }
    let ghost t = s@.take(j as int);
    let mut k: usize = j;
    assert(t.subrange(j as int, j as int) =~= Seq::<char>::empty());
    assert(t.take(j as int) =~= t);
    assert(trailing_run(t) =~= trailing_run(t.take(j as int)) + t.subrange(j as int, j as int));
    while k > 0 && !is_whitespace(s[k - 1])
        invariant
            k <= j <= s.len(),
            t == s@.take(j as int),
            trailing_run(t) == trailing_run(t.take(k as int)) + t.subrange(k as int, j as int),
        decreases k,
    {
        assert(t.take(k as int).drop_last() =~= t.take(k - 1));
        assert(t.subrange(k - 1, j as int) =~= seq![t[k - 1]] + t.subrange(k as int, j as int));
        k = k - 1;
    }
    let mut w: Vec<char> = Vec::new();
    let mut i: usize = k;
    while i < j
        invariant
            k <= i <= j <= s.len(),
            w@ == s@.subrange(k as int, i as int),
        decreases j - i,
    {
        w.push(s[i]);
        i = i + 1;
        assert(w@ =~= s@.subrange(k as int, i as int));
    }
    assert(t.subrange(k as int, j as int) =~= s@.subrange(k as int, j as int));
    assert(trailing_run(t.take(k as int)) =~= Seq::<char>::empty());
    Some(w)
}

/// The decimal digit for `d` (`0 <= d < 10`).
pub open spec fn digit_char(d: int) -> char {
    seq!['0', '1', '2', '3', '4', '5', '6', '7', '8', '9'][d]
}

/// The decimal representation of `n` (what `u64::to_string` writes).
pub open spec fn decimal(n: nat) -> Seq<char>
    decreases n,
{
    if n < 10 {
        seq![digit_char(n as int)]
    } else {
        decimal(n / 10).push(digit_char((n % 10) as int))
    }
}

fn digit_of(d: u64) -> (c: char)
    requires
        d < 10,
    ensures
        c == digit_char(d as int),
{
    let digits: [char; 10] = ['0', '1', '2', '3', '4', '5', '6', '7', '8', '9'];
    assert(digits@ =~= seq!['0', '1', '2', '3', '4', '5', '6', '7', '8', '9']);
    digits[d as usize]
}

/// The decimal digits of `n`.
pub fn decimal_chars(n: u64) -> (r: Vec<char>)
    ensures
        r@ == decimal(n as nat),
    decreases n,
{
    if n < 10 {
        let mut v: Vec<char> = Vec::new();
        v.push(digit_of(n));
        v
    } else {
        let mut v = decimal_chars(n / 10);
        v.push(digit_of(n % 10));
        v
    }
}

/// The lowercase hexadecimal digit for `d` (`0 <= d < 16`).
pub open spec fn hex_digit(d: int) -> char {
    seq!['0', '1', '2', '3', '4', '5', '6', '7', '8', '9', 'a', 'b', 'c', 'd', 'e', 'f'][d]
}

/// Two lowercase hexadecimal digits per byte (`format!("{byte:02x}")`).
pub open spec fn hex(bytes: Seq<u8>) -> Seq<char>
    decreases bytes.len(),
{
    if bytes.len() == 0 {
        seq![]
    } else {
        hex(bytes.drop_last()) + seq![hex_digit((bytes.last() / 16) as int), hex_digit((bytes.last() % 16) as int)]
    }
}

/// The lowercase hexadecimal form of `bytes`.
pub fn hex_string(bytes: &[u8]) -> (r: String)
    ensures
        r@ == hex(bytes@),
{
    let digits: [char; 16] = ['0', '1', '2', '3', '4', '5', '6', '7', '8', '9', 'a', 'b', 'c', 'd', 'e', 'f'];
    assert(digits@ =~= seq!['0', '1', '2', '3', '4', '5', '6', '7', '8', '9', 'a', 'b', 'c', 'd', 'e', 'f']);
    let mut out = String::new();
    let mut i: usize = 0;
    while i < bytes.len()
        invariant
            i <= bytes.len(),
            digits@ == seq!['0', '1', '2', '3', '4', '5', '6', '7', '8', '9', 'a', 'b', 'c', 'd', 'e', 'f'],
            out@ == hex(bytes@.take(i as int)),
        decreases bytes.len() - i,
    {
        let b = bytes[i];
        assert(bytes@.take(i + 1).drop_last() =~= bytes@.take(i as int));
        push_char(&mut out, digits[(b / 16) as usize]);
        push_char(&mut out, digits[(b % 16) as usize]);
        i = i + 1;
        assert(out@ =~= hex(bytes@.take(i as int)));
    }
    assert(bytes@.take(bytes.len() as int) =~= bytes@);
    out
}

} // verus!
