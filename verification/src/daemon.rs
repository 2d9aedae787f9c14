//! The daemon's decisions. Each key event moves a `KeystrokeTracker` and
//! names what the daemon should do (nothing, show an improved prompt, or
//! retype a word in another layout); the binary reads the devices, asks the
//! window system, emits keys and switches layouts. Beside it: the line
//! step of the `test-input` simulation, the `improve-prompt` command's
//! routing, and the developer-window check.

use vstd::prelude::*;
use crate::classifier::{LanguageClassifier};
use crate::cloud::{backend_outcome, outcome_view, Backend, CloudError, CloudTransport, PromptCloudClient};
use crate::improver::{improve_rule_based, improve_spec};
use crate::layout::{
    alternate_layout, correct_spec, decision_for, evaluate_layout_candidates, inferred_layout,
    infer_layout_from_text, key_char, keycode_to_character, keycodes_spec, mapped_reading,
    replacement_keycodes, switch_spec, target_layout_spec, LayoutDecision,
};
use crate::native::usable_key;
use crate::platform::{opt_str_view, RawKeyEvent};
use crate::prompt::{detect_spec, PromptDetector, PromptSignal};
use crate::ring_buffer::{push_all_spec, push_spec, RingBuffer, RING_BUFFER_CAPACITY, lemma_ring_buffer_keeps_latest};
use crate::text::{
    chars_of, contains_any, is_white_space, is_whitespace, lowercase, lowercase_chars, occurs_any,
    string_of, trailing_run, trim, trim_chars, views_of,
};

verus! {

/// Window class or title fragments of terminals and code editors.
pub open spec fn developer_markers() -> Seq<&'static str> {
    seq!["gnome-terminal", "alacritty", "kitty", "code", "clion"]
}

/// Whether a window class or title names a terminal or a code editor
/// (compared in lowercase).
pub fn is_developer_window(value: &str) -> (r: bool)
    ensures
        r == occurs_any(lowercase(value@), views_of(developer_markers())),
{
    let lowered = lowercase_chars(value);
    let markers: [&str; 5] = ["gnome-terminal", "alacritty", "kitty", "code", "clion"];
    assert(markers@ =~= developer_markers());
    contains_any(&lowered, &markers)
}

/// Whether the active window, by its class or its title, is one where
/// developer mode leaves typing alone.
pub fn should_bypass_window(class: &str, title: &str) -> (r: bool)
    ensures
        r == (occurs_any(lowercase(class@), views_of(developer_markers()))
            || occurs_any(lowercase(title@), views_of(developer_markers()))),
{
    is_developer_window(class) || is_developer_window(title)
}

/// Left control.
pub const KEYCODE_LEFT_CTRL: u16 = 29;

/// Left alt.
pub const KEYCODE_LEFT_ALT: u16 = 56;

/// Right control.
pub const KEYCODE_RIGHT_CTRL: u16 = 97;

/// Right alt.
pub const KEYCODE_RIGHT_ALT: u16 = 100;

/// The `I` key of the prompt hotkey Ctrl+Alt+I.
pub const KEYCODE_I: u16 = 23;

/// The confidence, in millionths, that a word's other-layout reading needs
/// for the daemon to retype it.
pub const SWITCH_THRESHOLD: u32 = 600_000;

/// Words shorter than this are never corrected.
pub const MIN_WORD_LEN: usize = 3;

/// A word to retype in another layout.
#[derive(Debug)]
pub struct LayoutSwitch {
    /// The layout to switch to.
    pub target_layout: String,
    /// How many keys to erase: every key typed into the word.
    pub erase: usize,
    /// The keys that type the corrected word under the target layout.
    pub replacement: Vec<u16>,
    /// Whether the word reads like an AI prompt (the user is told about the hotkey).
    pub prompt_hint: bool,
    /// Whether the active window must be checked first (developer mode).
    pub check_window: bool,
}

/// What the daemon does after a key event.
#[derive(Debug)]
pub enum KeystrokeAction {
    /// Nothing.
    Idle,
    /// Show the offline improvement of the typed text (the prompt hotkey).
    ShowImprovedPrompt(String),
    /// Retype the finished word in another layout.
    SwitchLayout(LayoutSwitch),
}

/// The daemon's typing state: the latest characters of the current word,
/// every key typed into it, the active layout, the held modifiers, and
/// whether developer mode is on.
pub struct KeystrokeTracker {
    buffer: RingBuffer<RING_BUFFER_CAPACITY>,
    scan_codes: Vec<u16>,
    current_layout: String,
    ctrl_held: bool,
    alt_held: bool,
    developer_mode: bool,
}

/// A control key.
pub open spec fn is_ctrl_key(k: u16) -> bool {
    k == KEYCODE_LEFT_CTRL || k == KEYCODE_RIGHT_CTRL
}

/// An alt key.
pub open spec fn is_alt_key(k: u16) -> bool {
    k == KEYCODE_LEFT_ALT || k == KEYCODE_RIGHT_ALT
}

/// The event fires the prompt hotkey: `I` goes down (not a repeat) while
/// control and alt are held.
pub open spec fn hotkey_fires(e: RawKeyEvent, ctrl: bool, alt: bool) -> bool {
    e.keycode == KEYCODE_I && e.pressed && !e.repeat && ctrl && alt
}

/// The character a key-down event types under `layout`, if any.
pub open spec fn typed_char(e: RawKeyEvent, layout: Seq<char>) -> Option<char> {
    if !e.pressed || e.repeat {
        None
    } else {
        key_char(e.keycode, layout)
    }
}

/// `a` is what ends a word whose latest characters are `typed`, typed with
/// `keys` under `layout`: nothing for a word shorter than `MIN_WORD_LEN` or
/// one that reads fine as typed; otherwise a switch to the layout of its
/// other-layout reading, erasing every typed key and typing that reading.
pub open spec fn ends_word(a: KeystrokeAction, typed: Seq<char>, keys: Seq<u16>, layout: Seq<char>, developer_mode: bool) -> bool {
    if typed.len() < MIN_WORD_LEN || !switch_spec(typed, layout, SWITCH_THRESHOLD) {
        a is Idle
    } else {
        let alt = correct_spec(typed, layout, alternate_layout(layout));
        let target = target_layout_spec(mapped_reading(alt).0)->0;
        match a {
            KeystrokeAction::SwitchLayout(p) => {
                &&& p.target_layout@ == target
                &&& p.erase == keys.len()
                &&& p.replacement@ == keycodes_spec(alt, target)
                &&& p.prompt_hint == detect_spec(typed).is_prompt
                &&& p.check_window == developer_mode
            },
            _ => false,
        }
    }
}

impl KeystrokeTracker {
    /// The tracker's invariant.
    pub closed spec fn wf(&self) -> bool {
        self.buffer.wf()
    }

    /// The latest characters of the current word, oldest first.
    pub closed spec fn typed(&self) -> Seq<char> {
        self.buffer@
    }

    /// Every key typed into the current word.
    pub closed spec fn keys(&self) -> Seq<u16> {
        self.scan_codes@
    }

    /// The active layout.
    pub closed spec fn layout(&self) -> Seq<char> {
        self.current_layout@
    }

    /// Whether a control key is held.
    pub closed spec fn ctrl(&self) -> bool {
        self.ctrl_held
    }

    /// Whether an alt key is held.
    pub closed spec fn alt(&self) -> bool {
        self.alt_held
    }

    /// Whether developer mode is on.
    pub closed spec fn developer_mode(&self) -> bool {
        self.developer_mode
    }

    /// A tracker with no word typed and no modifier held.
    pub fn new(layout: &str, developer_mode: bool) -> (t: Self)
        ensures
            t.wf(),
            t.typed() == Seq::<char>::empty(),
            t.keys() == Seq::<u16>::empty(),
            t.layout() == layout@,
            !t.ctrl(),
            !t.alt(),
            t.developer_mode() == developer_mode,
    {
        Self {
            buffer: RingBuffer::new(),
            scan_codes: Vec::new(),
            current_layout: string_of(&chars_of(layout)),
            ctrl_held: false,
            alt_held: false,
            developer_mode,
        }
    }

    /// The active layout.
    pub fn current_layout(&self) -> (r: &str)
        ensures
            r@ == self.layout(),
    {
        self.current_layout.as_str()
    }

    /// How many keys the current word was typed with.
    pub fn typed_key_count(&self) -> (r: usize)
        ensures
            r == self.keys().len(),
    {
        self.scan_codes.len()
    }

    /// Records that the layout is now `layout`, after a switch was carried out.
    pub fn complete_switch(&mut self, layout: &str)
        ensures
            final(self).layout() == layout@,
            final(self).wf() == old(self).wf(),
            final(self).typed() == old(self).typed(),
            final(self).keys() == old(self).keys(),
            final(self).ctrl() == old(self).ctrl(),
            final(self).alt() == old(self).alt(),
            final(self).developer_mode() == old(self).developer_mode(),
    {
        self.current_layout = string_of(&chars_of(layout));
    }

    /// Takes one key event. Control and alt keys only update what is held;
    /// the hotkey asks for the improved typed text (when there is any); a key
    /// that types nothing is ignored; whitespace ends the word (see
    /// `ends_word`) and starts a new one; any other character is added.
    pub fn on_key(
        &mut self,
        event: &RawKeyEvent,
        classifier: &LanguageClassifier,
        detector: &PromptDetector,
    ) -> (a: KeystrokeAction)
        requires
            old(self).wf(),
        ensures
            final(self).wf(),
            final(self).layout() == old(self).layout(),
            final(self).developer_mode() == old(self).developer_mode(),
            is_ctrl_key(event.keycode) ==> {
                &&& a is Idle
                &&& final(self).ctrl() == event.pressed
                &&& final(self).alt() == old(self).alt()
                &&& final(self).typed() == old(self).typed()
                &&& final(self).keys() == old(self).keys()
            },
            !is_ctrl_key(event.keycode) && is_alt_key(event.keycode) ==> {
                &&& a is Idle
                &&& final(self).alt() == event.pressed
                &&& final(self).ctrl() == old(self).ctrl()
                &&& final(self).typed() == old(self).typed()
                &&& final(self).keys() == old(self).keys()
            },
            !is_ctrl_key(event.keycode) && !is_alt_key(event.keycode) ==> {
                &&& final(self).ctrl() == old(self).ctrl()
                &&& final(self).alt() == old(self).alt()
            },
            !is_ctrl_key(event.keycode) && !is_alt_key(event.keycode) && hotkey_fires(*event, old(self).ctrl(), old(self).alt()) ==> {
                &&& final(self).typed() == old(self).typed()
                &&& final(self).keys() == old(self).keys()
                &&& old(self).typed().len() == 0 ==> a is Idle
                &&& old(self).typed().len() > 0 ==> (a matches KeystrokeAction::ShowImprovedPrompt(p) && p@ == improve_spec(old(self).typed()))
            },
            !is_ctrl_key(event.keycode) && !is_alt_key(event.keycode) && !hotkey_fires(*event, old(self).ctrl(), old(self).alt()) ==> {
                match typed_char(*event, old(self).layout()) {
                    None => {
                        &&& a is Idle
                        &&& final(self).typed() == old(self).typed()
                        &&& final(self).keys() == old(self).keys()
                    },
                    Some(c) => if is_white_space(c) {
                        &&& final(self).typed() == Seq::<char>::empty()
                        &&& final(self).keys() == Seq::<u16>::empty()
                        &&& ends_word(a, old(self).typed(), old(self).keys(), old(self).layout(), old(self).developer_mode())
                    } else {
                        &&& a is Idle
                        &&& final(self).typed() == push_spec(old(self).typed(), c, RING_BUFFER_CAPACITY as nat)
                        &&& final(self).keys() == old(self).keys().push(event.keycode)
                    },
                }
            },
    {
        let code = event.keycode;
        if code == KEYCODE_LEFT_CTRL || code == KEYCODE_RIGHT_CTRL {
            self.ctrl_held = event.pressed;
            return KeystrokeAction::Idle;
        }
        if code == KEYCODE_LEFT_ALT || code == KEYCODE_RIGHT_ALT {
            self.alt_held = event.pressed;
            return KeystrokeAction::Idle;
        }
        if code == KEYCODE_I && event.pressed && !event.repeat && self.ctrl_held && self.alt_held {
            if self.buffer.is_empty() {
                return KeystrokeAction::Idle;
            }
            let text = self.buffer.as_string();
            return KeystrokeAction::ShowImprovedPrompt(improve_rule_based(text.as_str()));
        }
        if !event.pressed || event.repeat {
            return KeystrokeAction::Idle;
        }
        let character = match keycode_to_character(code, self.current_layout.as_str()) {
            Some(c) => c,
            None => return KeystrokeAction::Idle,
        };
        if is_whitespace(character) {
            let typed_len = self.buffer.len();
            let text = self.buffer.as_string();
            let erase = self.scan_codes.len();
            self.buffer = RingBuffer::new();
            self.scan_codes = Vec::new();
            if typed_len < MIN_WORD_LEN {
                return KeystrokeAction::Idle;
            }
            let decision = evaluate_layout_candidates(
                text.as_str(),
                self.current_layout.as_str(),
                classifier,
                SWITCH_THRESHOLD,
            );
            if !decision.switch {
                return KeystrokeAction::Idle;
            }
            let signal = detector.detect(text.as_str());
            let target = match decision.target_layout {
                Some(t) => t,
                None => return KeystrokeAction::Idle,
            };
            let replacement = replacement_keycodes(decision.corrected.as_str(), target);
            return KeystrokeAction::SwitchLayout(
                LayoutSwitch {
                    target_layout: string_of(&chars_of(target)),
                    erase,
                    replacement,
                    prompt_hint: signal.is_prompt,
                    check_window: self.developer_mode,
                },
            );
        }
        self.buffer.push(character);
        self.scan_codes.push(code);
        KeystrokeAction::Idle
    }
}

/// An ASCII digit.
pub open spec fn is_digit(c: char) -> bool {
    '0' <= c && c <= '9'
}

/// The number that the decimal digits `d` spell.
pub open spec fn digits_value(d: Seq<char>) -> int
    decreases d.len(),
{
    if d.len() == 0 {
        0
    } else {
        digits_value(d.drop_last()) * 10 + ((d.last() as int) - ('0' as int))
    }
}

/// Every character of `d` is a decimal digit.
pub open spec fn all_digits(d: Seq<char>) -> bool {
    forall|i: int| 0 <= i < d.len() ==> is_digit(#[trigger] d[i])
}

/// `s` without one leading `+`.
pub open spec fn unsigned_digits(s: Seq<char>) -> Seq<char> {
    if s.len() > 0 && s[0] == '+' {
        s.drop_first()
    } else {
        s
    }
}

/// What `str::parse::<u16>` accepts: an optional `+` and at least one
/// decimal digit, worth at most `u16::MAX`.
pub open spec fn parse_u16_spec(s: Seq<char>) -> Option<u16> {
    let d = unsigned_digits(s);
    if d.len() > 0 && all_digits(d) && digits_value(d) <= u16::MAX {
        Some(digits_value(d) as u16)
    } else {
        None
    }
}

proof fn lemma_digits_prefix(d: Seq<char>, k: int)
    requires
        all_digits(d),
        0 <= k <= d.len(),
    ensures
        0 <= digits_value(d.take(k)) <= digits_value(d),
    decreases d.len(),
{
    if k == d.len() {
        assert(d.take(k) =~= d);
        if d.len() > 0 {
            lemma_digits_prefix(d.drop_last(), d.len() - 1);
            assert(d.drop_last().take(d.len() - 1) =~= d.drop_last());
            assert(is_digit(d[d.len() - 1]));
        }
    } else {
        lemma_digits_prefix(d.drop_last(), k);
        assert(d.drop_last().take(k) =~= d.take(k));
        lemma_digits_prefix(d.drop_last(), d.len() - 1);
        assert(d.drop_last().take(d.len() - 1) =~= d.drop_last());
        assert(is_digit(d[d.len() - 1]));
    }
}

/// Parses a key code the way `str::parse::<u16>` does.
pub fn parse_keycode(token: &[char]) -> (r: Option<u16>)
    ensures
        r == parse_u16_spec(token@),
{
    let ghost d = unsigned_digits(token@);
    let start: usize = if token.len() > 0 && token[0] == '+' { 1 } else { 0 };
    assert(d =~= token@.skip(start as int));
    if start == token.len() {
        return None;
    }
    let mut value: u32 = 0;
    let mut i: usize = start;
    while i < token.len()
        invariant
            start <= i <= token.len(),
            d == unsigned_digits(token@),
            d == token@.skip(start as int),
            all_digits(d.take(i - start)),
            value == digits_value(d.take(i - start)),
            value <= u16::MAX,
        decreases token.len() - i,
    {
        let c = token[i];
        let ghost k = i - start;
        assert(d[k] == c);
        if !('0' <= c && c <= '9') {
            assert(!is_digit(d[k]));
            assert(!all_digits(d));
            return None;
        }
        assert(d.take(k + 1).drop_last() =~= d.take(k));
        assert(d.take(k + 1).last() == c);
        assert(all_digits(d.take(k + 1)));
        let digit: u32 = (c as u32) - ('0' as u32);
        value = value * 10 + digit;
        assert(value == digits_value(d.take(k + 1)));
        i = i + 1;
        if value > 65535 {
            proof {
                if all_digits(d) {
                    lemma_digits_prefix(d, k + 1);
                }
            }
            return None;
        }
    }
    assert(d.take(d.len() as int) =~= d);
    Some(value as u16)
}

/// The character that a token of a `KEYS` line types under `layout`: the
/// key code it spells, typed under the layout, if both exist.
pub open spec fn token_chars(token: Seq<char>, layout: Seq<char>) -> Seq<char> {
    match parse_u16_spec(token) {
        Some(k) => match key_char(k, layout) {
            Some(c) => seq![c],
            None => seq![],
        },
        None => seq![],
    }
}

/// What the tokens of `s` that a whitespace character already ended type.
pub open spec fn ended_tokens_chars(s: Seq<char>, layout: Seq<char>) -> Seq<char>
    decreases s.len(),
{
    if s.len() == 0 {
        seq![]
    } else if is_white_space(s.last()) {
        ended_tokens_chars(s.drop_last(), layout) + token_chars(trailing_run(s.drop_last()), layout)
    } else {
        ended_tokens_chars(s.drop_last(), layout)
    }
}

/// What the whitespace-separated key codes `s` type under `layout`, in order.
pub open spec fn keys_chars(s: Seq<char>, layout: Seq<char>) -> Seq<char> {
    ended_tokens_chars(s, layout) + token_chars(trailing_run(s), layout)
}

fn token_chars_of(token: &[char], layout: &str) -> (r: Vec<char>)
    ensures
        r@ == token_chars(token@, layout@),
{
    let mut out: Vec<char> = Vec::new();
    match parse_keycode(token) {
        Some(k) => match keycode_to_character(k, layout) {
            Some(c) => {
                out.push(c);
                assert(out@ =~= seq![c]);
            },
            None => {},
        },
        None => {},
    }
    out
}

fn append_chars(out: &mut Vec<char>, more: &[char])
    ensures
        final(out)@ == old(out)@ + more@,
{
    let ghost start = out@;
    let mut i: usize = 0;
    while i < more.len()
        invariant
            i <= more.len(),
            out@ == start + more@.take(i as int),
        decreases more.len() - i,
    {
        out.push(more[i]);
        i = i + 1;
        assert(out@ =~= start + more@.take(i as int));
    }
    assert(more@.take(more.len() as int) =~= more@);
}

/// What the key codes of a `KEYS` line type under `layout`.
pub fn keys_line_chars(sequence: &[char], layout: &str) -> (r: Vec<char>)
    ensures
        r@ == keys_chars(sequence@, layout@),
{
    let mut out: Vec<char> = Vec::new();
    let mut token: Vec<char> = Vec::new();
    let mut i: usize = 0;
    while i < sequence.len()
        invariant
            i <= sequence.len(),
            out@ == ended_tokens_chars(sequence@.take(i as int), layout@),
            token@ == trailing_run(sequence@.take(i as int)),
        decreases sequence.len() - i,
    {
        let c = sequence[i];
        let ghost before = sequence@.take(i as int);
        assert(sequence@.take(i + 1).drop_last() =~= before);
        assert(sequence@.take(i + 1).last() == c);
        if is_whitespace(c) {
            let chars = token_chars_of(&token, layout);
            append_chars(&mut out, &chars);
            token = Vec::new();
        } else {
            token.push(c);
        }
        i = i + 1;
    }
    assert(sequence@.take(sequence.len() as int) =~= sequence@);
    let chars = token_chars_of(&token, layout);
    append_chars(&mut out, &chars);
    out
}

/// The characters a `test-input` line types under `layout`: after a
/// `KEYS ` prefix, the characters of its key codes; otherwise the line.
pub open spec fn line_chars(line: Seq<char>, layout: Seq<char>) -> Seq<char> {
    if line.len() >= 5 && line.take(5) == "KEYS "@ {
        keys_chars(line.skip(5), layout)
    } else {
        line
    }
}

/// The outcome of one simulated line: the decision on it and the layout
/// that the next line is read under.
#[derive(Debug)]
pub struct SimulationStep {
    pub decision: LayoutDecision,
    pub layout: String,
}

/// The latest `RING_BUFFER_CAPACITY` characters of `s`.
pub open spec fn latest(s: Seq<char>) -> Seq<char> {
    s.subrange(
        if s.len() > RING_BUFFER_CAPACITY { s.len() - RING_BUFFER_CAPACITY } else { 0 },
        s.len() as int,
    )
}

/// The characters a `test-input` line types under `layout` (see `line_chars`).
pub fn line_characters(line: &str, layout: &str) -> (r: Vec<char>)
    ensures
        r@ == line_chars(line@, layout@),
{
    proof {
        reveal_strlit("KEYS ");
    }
    let line_chars_v = chars_of(line);
    let is_keys = line_chars_v.len() >= 5 && line_chars_v[0] == 'K' && line_chars_v[1] == 'E'
        && line_chars_v[2] == 'Y' && line_chars_v[3] == 'S' && line_chars_v[4] == ' ';
    assert("KEYS "@ =~= seq!['K', 'E', 'Y', 'S', ' ']);
    assert(is_keys == (line_chars_v@.len() >= 5 && line_chars_v@.take(5) =~= seq!['K', 'E', 'Y', 'S', ' ']));
    assert(is_keys == (line@.len() >= 5 && line@.take(5) == "KEYS "@));
    if !is_keys {
        return line_chars_v;
    }
    let mut rest: Vec<char> = Vec::new();
    let mut i: usize = 5;
    while i < line_chars_v.len()
        invariant
            5 <= i <= line_chars_v.len(),
            line_chars_v@ == line@,
            rest@ == line@.skip(5).take(i - 5),
        decreases line_chars_v.len() - i,
    {
        rest.push(line_chars_v[i]);
        i = i + 1;
        assert(rest@ =~= line@.skip(5).take(i - 5));
    }
    assert(line@.skip(5).take(line@.len() - 5) =~= line@.skip(5));
    keys_line_chars(&rest, layout)
}

/// What a buffer of capacity `RING_BUFFER_CAPACITY` holds after `characters`
/// are typed into it.
fn buffered_text(characters: &[char]) -> (r: String)
    ensures
        r@ == latest(characters@),
{
    let mut buffer: RingBuffer<RING_BUFFER_CAPACITY> = RingBuffer::new();
    let mut k: usize = 0;
    while k < characters.len()
        invariant
            k <= characters.len(),
            buffer.wf(),
            buffer@ == push_all_spec(Seq::<char>::empty(), characters@.take(k as int), RING_BUFFER_CAPACITY as nat),
        decreases characters.len() - k,
    {
        assert(characters@.take(k + 1).drop_last() =~= characters@.take(k as int));
        buffer.push(characters[k]);
        k = k + 1;
    }
    proof {
        assert(characters@.take(characters.len() as int) =~= characters@);
        lemma_ring_buffer_keeps_latest(characters@, RING_BUFFER_CAPACITY as nat);
    }
    buffer.as_string()
}

/// One line of the `test-input` simulation typed under `layout`: its
/// characters set the layout when they show one, their latest
/// `RING_BUFFER_CAPACITY` are weighed at `threshold`, and a switch moves the
/// layout to its target.
pub fn simulate_line(line: &str, layout: &str, classifier: &LanguageClassifier, threshold: u32) -> (r: SimulationStep)
    ensures
        ({
            let chars = line_chars(line@, layout@);
            let current = match inferred_layout(chars) {
                Some(l) => l,
                None => layout@,
            };
            &&& decision_for(r.decision, latest(chars), current, threshold)
            &&& r.layout@ == (if r.decision.switch {
                target_layout_spec(r.decision.language)->0
            } else {
                current
            })
        }),
{
    let characters = line_characters(line, layout);
    let text_of_chars = string_of(&characters);
    let current: String = match infer_layout_from_text(text_of_chars.as_str()) {
        Some(inferred) => string_of(&chars_of(inferred)),
        None => string_of(&chars_of(layout)),
    };
    let text = buffered_text(&characters);
    let decision = evaluate_layout_candidates(text.as_str(), current.as_str(), classifier, threshold);
    let next_layout: String = if decision.switch {
        match decision.target_layout {
            Some(target) => string_of(&chars_of(target)),
            None => current,
        }
    } else {
        current
    };
    SimulationStep { decision, layout: next_layout }
}

/// What the `improve-prompt` command arrives at.
#[derive(Debug)]
pub enum PromptOutcome {
    /// The input was blank.
    Blank,
    /// The offline improvement.
    Local { signal: PromptSignal, improved: String },
    /// The cloud's improvement, from the managed backend or the user's own key.
    Cloud { signal: PromptSignal, improved: String, managed: bool },
    /// The cloud failed; the offline improvement instead.
    Fallback { signal: PromptSignal, improved: String, error: CloudError },
    /// The cloud was asked for without a key and without Pro.
    NeedsKeyOrPro { signal: PromptSignal },
}

/// `key` unless it is blank.
pub fn usable_api_key(key: Option<String>) -> (r: Option<String>)
    ensures
        match key {
            Some(k) => if trim(k@).len() == 0 {
                r is None
            } else {
                r == Some(k)
            },
            None => r is None,
        },
{
    match key {
        Some(k) => {
            let chars = chars_of(k.as_str());
            if trim_chars(&chars).len() == 0 {
                None
            } else {
                Some(k)
            }
        },
        None => None,
    }
}

/// Improves the prompt `text` (taken trimmed): offline unless `cloud`; in
/// the cloud with the user's own `api_key` when it is not blank or, without
/// one, through the managed backend when `is_pro`. A cloud failure falls back
/// to the offline improvement.
pub fn improve_prompt_command<T: CloudTransport>(
    text: &str,
    cloud: bool,
    api_key: Option<&str>,
    is_pro: bool,
    client: &PromptCloudClient<T>,
) -> (r: PromptOutcome)
    ensures
        ({
            let t = trim(text@);
            let signal = detect_spec(t);
            let key = usable_key(opt_str_view(api_key));
            if t.len() == 0 {
                r is Blank
            } else if !cloud {
                r matches PromptOutcome::Local { signal: s, improved } && s == signal && improved@ == improve_spec(t)
            } else if key is None && !is_pro {
                r matches PromptOutcome::NeedsKeyOrPro { signal: s } && s == signal
            } else {
                exists|reply: Result<Seq<char>, (nat, Seq<char>)>| {
                    &&& #[trigger] client.may_answer(t, key, reply)
                    &&& match backend_outcome(key, reply) {
                        Ok(answer) => r matches PromptOutcome::Cloud { signal: s, improved, managed }
                            && s == signal && improved@ == answer && managed == (key is None),
                        Err(e) => r matches PromptOutcome::Fallback { signal: s, improved, error }
                            && s == signal && improved@ == improve_spec(t) && outcome_view(Err(error)) == Err::<Seq<char>, (nat, Seq<char>)>(e),
                    }
                }
            }
        }),
{
    let chars = chars_of(text);
    let trimmed_chars = trim_chars(&chars);
    if trimmed_chars.len() == 0 {
        return PromptOutcome::Blank;
    }
    let trimmed = string_of(&trimmed_chars);
    let signal = PromptDetector::new().detect(trimmed.as_str());
    if !cloud {
        return PromptOutcome::Local { signal, improved: improve_rule_based(trimmed.as_str()) };
    }
    let key: Option<&str> = match api_key {
        Some(k) => {
            let key_chars = chars_of(k);
            if trim_chars(&key_chars).len() == 0 {
                None
            } else {
                Some(k)
            }
        },
        None => None,
    };
    assert(opt_str_view(key) == usable_key(opt_str_view(api_key)));
    let ghost ukey = opt_str_view(key);
    let ghost t = trimmed@;
    let (result, managed) = match key {
        Some(key) => (client.improve(trimmed.as_str(), Backend::BringYourOwnKey { api_key: key }, false), false),
        None => {
            if !is_pro {
                return PromptOutcome::NeedsKeyOrPro { signal };
            }
            (client.improve(trimmed.as_str(), Backend::Managed, is_pro), true)
        },
    };
    let ghost reply = choose|reply: Result<Seq<char>, (nat, Seq<char>)>| {
        &&& #[trigger] client.may_answer(t, ukey, reply)
        &&& outcome_view(result) == backend_outcome(ukey, reply)
    };
    assert(client.may_answer(t, ukey, reply) && outcome_view(result) == backend_outcome(ukey, reply));
    let r = match result {
        Ok(improved) => PromptOutcome::Cloud { signal, improved, managed },
        Err(error) => PromptOutcome::Fallback { signal, improved: improve_rule_based(trimmed.as_str()), error },
    };
    assert(client.may_answer(t, ukey, reply));
    r
}

} // verus!
