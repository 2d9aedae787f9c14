//! The Linux input layer's decisions: which evdev devices are keyboards to
//! listen on, how a kernel key event becomes a `RawKeyEvent`, the merged
//! event stream of all keyboards with its delivery switch, what the virtual
//! keyboard may emit and in which order, and how a layout is named to
//! GNOME. Opening devices, reader threads and D-Bus live with the binary.

use vstd::prelude::*;
use crate::text::{append_str, chars_of, contains_chars, occurs_in, string_of};

verus! {

/// A Linux evdev key code.
pub type RawKeycode = u16;

#[verifier::external_type_specification]
#[verifier::external_body]
#[verifier::reject_recursive_types(T)]
pub struct ExReceiver<T>(std::sync::mpsc::Receiver<T>);

#[verifier::external_type_specification]
#[verifier::external_body]
pub struct ExRecvError(std::sync::mpsc::RecvError);

/// Why an input or layout operation failed.
#[derive(Debug)]
pub enum PlatformError {
    OpenInput { path: std::path::PathBuf, source: std::io::Error },
    NoKeyboard,
    OpenUinput(std::io::Error),
    CreateVirtualKeyboard(String),
    Dbus(String),
    UnsupportedBackend(String),
}

/// One key event of a physical keyboard: the key, whether it went down or
/// is auto-repeating, the device it came from and when (milliseconds since
/// the Unix epoch).
#[derive(Debug, Clone, PartialEq, Eq)]
pub struct RawKeyEvent {
    pub keycode: RawKeycode,
    pub pressed: bool,
    pub repeat: bool,
    pub source: String,
    pub timestamp_ms: u64,
}

/// The event for a kernel key event with value `value` (0 release,
/// 1 press, 2 auto-repeat).
pub fn key_event(keycode: RawKeycode, value: i32, source: String, timestamp_ms: u64) -> (e: RawKeyEvent)
    ensures
        e.keycode == keycode,
        e.pressed == (value == 1),
        e.repeat == (value == 2),
        e.source == source,
        e.timestamp_ms == timestamp_ms,
{
    RawKeyEvent { keycode, pressed: value == 1, repeat: value == 2, source, timestamp_ms }
}

/// The name the virtual keyboard registers under; devices whose name holds
/// it (in any ASCII case) are never read, so that emitted keys are not taken
/// for typing.
pub const VIRTUAL_KEYBOARD_NAME: &'static str = "typomorph-virtual-keyboard";

/// `c` with ASCII capitals made small (`char::to_ascii_lowercase`).
pub open spec fn ascii_lower(c: char) -> char {
    if 'A' <= c && c <= 'Z' {
        ((c as u32) + 32) as char
    } else {
        c
    }
}

/// `s` with ASCII capitals made small (`str::to_ascii_lowercase`).
pub open spec fn ascii_lower_seq(s: Seq<char>) -> Seq<char> {
    Seq::new(s.len(), |i: int| ascii_lower(s[i]))
}

fn ascii_lower_char(c: char) -> (r: char)
    ensures
        r == ascii_lower(c),
{
    if 'A' <= c && c <= 'Z' {
        let code: u8 = (c as u8) + 32;
        code as char
    } else {
        c
    }
}

/// The characters of `s` with ASCII capitals made small.
pub fn ascii_lowercase(s: &str) -> (r: Vec<char>)
    ensures
        r@ == ascii_lower_seq(s@),
{
    let chars = chars_of(s);
    let mut out: Vec<char> = Vec::new();
    let mut i: usize = 0;
    while i < chars.len()
        invariant
            chars@ == s@,
            i <= chars.len(),
            out@ == ascii_lower_seq(s@.take(i as int)),
        decreases chars.len() - i,
    {
        out.push(ascii_lower_char(chars[i]));
        i = i + 1;
        assert(out@ =~= ascii_lower_seq(s@.take(i as int)));
    }
    assert(s@.take(chars.len() as int) =~= s@);
    out
}

/// Which of the keys that mark a keyboard a device reports: `A`, space and
/// enter.
#[derive(Debug, Clone, Copy, PartialEq, Eq)]
pub struct KeySupport {
    pub key_a: bool,
    pub space: bool,
    pub enter: bool,
}

/// A device named `name` reporting `keys` is a keyboard to read: it is not
/// the virtual keyboard, it reports its keys, and among them `A`, space or
/// enter (wireless receivers often lack some).
pub open spec fn accepts_spec(name: Seq<char>, keys: Option<KeySupport>) -> bool {
    &&& !occurs_in(ascii_lower_seq(name), VIRTUAL_KEYBOARD_NAME@)
    &&& keys matches Some(k)
    &&& (k.key_a || k.space || k.enter)
}

/// Whether a device named `name` that reports `keys` is a keyboard to read.
pub fn accepts_keyboard(name: &str, keys: Option<KeySupport>) -> (r: bool)
    ensures
        r == accepts_spec(name@, keys),
{
    let lowered = ascii_lowercase(name);
    let marker = chars_of(VIRTUAL_KEYBOARD_NAME);
    if contains_chars(&lowered, &marker) {
        return false;
    }
    match keys {
        Some(k) => k.key_a || k.space || k.enter,
        None => false,
    }
}

/// The name a device is listed under: its own, or `"unnamed keyboard"`.
pub open spec fn listed_name(name: Option<Seq<char>>) -> Seq<char> {
    match name {
        Some(n) => n,
        None => "unnamed keyboard"@,
    }
}

/// The view of an optional string slice.
pub open spec fn opt_str_view(o: Option<&str>) -> Option<Seq<char>> {
    match o {
        Some(s) => Some(s@),
        None => None,
    }
}

/// Whether a listener is started for a device named `name` (when it has one)
/// that reports `keys`, given whether one already reads its path: the
/// listed name when the device is a keyboard that nothing reads yet.
pub fn admit_listener(name: Option<&str>, keys: Option<KeySupport>, already_active: bool) -> (r: Option<String>)
    ensures
        r matches Some(n) ==> n@ == listed_name(opt_str_view(name)),
        r is Some <==> (accepts_spec(listed_name(opt_str_view(name)), keys) && !already_active),
{
    let listed: &str = match name {
        Some(n) => n,
        None => "unnamed keyboard",
    };
    if !accepts_keyboard(listed, keys) || already_active {
        return None;
    }
    Some(string_of(&chars_of(listed)))
}

/// The name a scanned device is judged by: its own, or the empty name.
pub open spec fn scanned_name(name: Option<Seq<char>>) -> Seq<char> {
    match name {
        Some(n) => n,
        None => Seq::empty(),
    }
}

/// Whether a device found while scanning for keyboards, named `name` (or
/// unnamed) and reporting `keys`, is kept.
pub fn keeps_scanned_device(name: Option<&str>, keys: Option<KeySupport>) -> (r: bool)
    ensures
        r == accepts_spec(scanned_name(opt_str_view(name)), keys),
{
    proof {
        reveal_strlit("");
    }
    let listed: &str = match name {
        Some(n) => n,
        None => "",
    };
    assert(listed@ == scanned_name(opt_str_view(name)));
    accepts_keyboard(listed, keys)
}

/// A file name under `/dev/input` that starts with `event`.
pub open spec fn is_event_name(file_name: Option<Seq<char>>) -> bool {
    match file_name {
        Some(n) => n.len() >= 5 && n.take(5) == "event"@,
        None => false,
    }
}

/// Whether a file name under `/dev/input` is an event node (`event*`).
pub fn is_event_node(file_name: Option<&str>) -> (r: bool)
    ensures
        r == is_event_name(opt_str_view(file_name)),
{
    proof {
        reveal_strlit("event");
    }
    match file_name {
        Some(n) => {
            let chars = chars_of(n);
            if chars.len() < 5 {
                return false;
            }
            let found = chars[0] == 'e' && chars[1] == 'v' && chars[2] == 'e' && chars[3] == 'n' && chars[4] == 't';
            assert(found == (chars@.take(5) =~= seq!['e', 'v', 'e', 'n', 't']));
            assert("event"@ =~= seq!['e', 'v', 'e', 'n', 't']);
            assert(chars@ == n@);
            found
        },
        None => false,
    }
}

/// The merged key events of every keyboard being read. Reader threads send
/// events only while delivery is on; the daemon turns it off while it emits
/// replacement keys, so that nothing typed or echoed meanwhile is read.
pub struct MultiEvdevKeyboard {
    devices: Vec<(String, std::path::PathBuf)>,
    events: std::sync::mpsc::Receiver<RawKeyEvent>,
    delivering: std::sync::Arc<std::sync::atomic::AtomicBool>,
}

/// Calls `Receiver::recv`: the next event that a reader thread sent, or an
/// error once every sender is gone. What arrives is not claimed.
#[verifier::external_body]
fn receive(events: &std::sync::mpsc::Receiver<RawKeyEvent>) -> Result<RawKeyEvent, std::sync::mpsc::RecvError> {
    events.recv()
}

impl MultiEvdevKeyboard {
    /// The devices listened on, with their names.
    pub closed spec fn device_list(&self) -> Seq<(String, std::path::PathBuf)> {
        self.devices@
    }

    /// A keyboard over the listened-on `devices`, the channel their reader
    /// threads send to, and the delivery switch the threads consult.
    pub fn from_parts(
        devices: Vec<(String, std::path::PathBuf)>,
        events: std::sync::mpsc::Receiver<RawKeyEvent>,
        delivering: std::sync::Arc<std::sync::atomic::AtomicBool>,
    ) -> (k: Self)
        ensures
            k.device_list() == devices@,
    {
        Self { devices, events, delivering }
    }

    /// The devices listened on when the keyboard was opened.
    pub fn devices(&self) -> (r: &[(String, std::path::PathBuf)])
        ensures
            r@ == self.device_list(),
    {
        self.devices.as_slice()
    }

    /// The next key event of any keyboard; an error once all are closed.
    pub fn recv(&self) -> Result<RawKeyEvent, std::sync::mpsc::RecvError> {
        receive(&self.events)
    }

    /// Stops the reader threads from delivering events.
    pub fn suppress_delivery(&self) {
        self.delivering.store(false, std::sync::atomic::Ordering::SeqCst);
    }

    /// Lets the reader threads deliver events again.
    pub fn resume_delivery(&self) {
        self.delivering.store(true, std::sync::atomic::Ordering::SeqCst);
    }
}

/// Something that can make a keyboard layout the active one.
pub trait LayoutSwitcher {
    fn switch_to(&self, layout: &str) -> Result<(), PlatformError>;
}

/// The keys the virtual keyboard registers: backspace, space, the three
/// letter rows (`Q`-`P`, `A`-`L`, `Z`-`M`), left meta, left shift and left alt.
pub open spec fn is_virtual_key(k: u16) -> bool {
    ||| k == 14
    ||| k == 57
    ||| (16 <= k && k <= 25)
    ||| (30 <= k && k <= 38)
    ||| (44 <= k && k <= 50)
    ||| k == 125
    ||| k == 42
    ||| k == 56
}

fn push_range(out: &mut Vec<u16>, from: u16, to: u16)
    requires
        from <= to,
        to < u16::MAX,
    ensures
        forall|k: u16| final(out)@.contains(k) <==> (old(out)@.contains(k) || (from <= k && k <= to)),
{
    let mut code = from;
    let ghost start = out@;
    while code <= to
        invariant
            from <= code <= to + 1,
            to < u16::MAX,
            forall|k: u16| out@.contains(k) <==> (start.contains(k) || (from <= k && k < code)),
        decreases to + 1 - code,
    {
        let ghost before = out@;
        out.push(code);
        assert forall|k: u16| out@.contains(k) <==> (before.contains(k) || k == code) by {
            if out@.contains(k) {
                let j = choose|j: int| 0 <= j < out@.len() && out@[j] == k;
                if j < before.len() {
                    assert(before[j] == k);
                }
            }
            if before.contains(k) {
                let j = choose|j: int| 0 <= j < before.len() && before[j] == k;
                assert(out@[j] == k);
            }
            if k == code {
                assert(out@[before.len() as int] == k);
            }
        }
        code = code + 1;
    }
}

fn push_key(out: &mut Vec<u16>, key: u16)
    ensures
        forall|k: u16| final(out)@.contains(k) <==> (old(out)@.contains(k) || k == key),
{
    let ghost before = out@;
    out.push(key);
    assert forall|k: u16| out@.contains(k) <==> (before.contains(k) || k == key) by {
        if out@.contains(k) {
            let j = choose|j: int| 0 <= j < out@.len() && out@[j] == k;
            if j < before.len() {
                assert(before[j] == k);
            }
        }
        if before.contains(k) {
            let j = choose|j: int| 0 <= j < before.len() && before[j] == k;
            assert(out@[j] == k);
        }
        if k == key {
            assert(out@[before.len() as int] == k);
        }
    }
}

/// The keys the virtual keyboard registers.
pub fn virtual_keyboard_keys() -> (r: Vec<u16>)
    ensures
        forall|k: u16| r@.contains(k) <==> is_virtual_key(k),
{
    let mut keys: Vec<u16> = Vec::new();
    push_key(&mut keys, 14);
    push_key(&mut keys, 57);
    push_range(&mut keys, 16, 25);
    push_range(&mut keys, 30, 38);
    push_range(&mut keys, 44, 50);
    push_key(&mut keys, 125);
    push_key(&mut keys, 42);
    push_key(&mut keys, 56);
    keys
}

/// The backspace key.
pub const KEYCODE_BACKSPACE: u16 = 14;

/// How long a backspace is held and followed by silence, in milliseconds.
pub const BACKSPACE_PAUSE_MS: u64 = 15;

/// How long a replacement key is held and followed by silence, in milliseconds.
pub const REPLACEMENT_PAUSE_MS: u64 = 5;

/// One tap of the virtual keyboard: press `keycode`, pause, release, pause.
#[derive(Debug, Clone, Copy, PartialEq, Eq)]
pub struct KeyTap {
    pub keycode: u16,
    pub pause_ms: u64,
}

/// The taps that replace a word typed with `erase` keys by the keys
/// `replacement`: `erase` backspaces, then each replacement key in order.
pub fn replacement_taps(erase: usize, replacement: &[u16]) -> (r: Vec<KeyTap>)
    ensures
        r@.len() == erase + replacement@.len(),
        forall|i: int| 0 <= i < erase ==> r@[i] == (KeyTap { keycode: KEYCODE_BACKSPACE, pause_ms: BACKSPACE_PAUSE_MS }),
        forall|i: int| 0 <= i < replacement@.len() ==> r@[erase + i] == (KeyTap { keycode: replacement@[i], pause_ms: REPLACEMENT_PAUSE_MS }),
{
    let mut taps: Vec<KeyTap> = Vec::new();
    let mut i: usize = 0;
    while i < erase
        invariant
            i <= erase,
            taps@.len() == i,
            forall|j: int| 0 <= j < i ==> taps@[j] == (KeyTap { keycode: KEYCODE_BACKSPACE, pause_ms: BACKSPACE_PAUSE_MS }),
        decreases erase - i,
    {
        taps.push(KeyTap { keycode: KEYCODE_BACKSPACE, pause_ms: BACKSPACE_PAUSE_MS });
        i = i + 1;
    }
    let mut k: usize = 0;
    while k < replacement.len()
        invariant
            k <= replacement.len(),
            taps@.len() == erase + k,
            forall|j: int| 0 <= j < erase ==> taps@[j] == (KeyTap { keycode: KEYCODE_BACKSPACE, pause_ms: BACKSPACE_PAUSE_MS }),
            forall|j: int| 0 <= j < k ==> taps@[erase + j] == (KeyTap { keycode: replacement@[j], pause_ms: REPLACEMENT_PAUSE_MS }),
        decreases replacement.len() - k,
    {
        taps.push(KeyTap { keycode: replacement[k], pause_ms: REPLACEMENT_PAUSE_MS });
        k = k + 1;
    }
    taps
}

/// The GNOME input-source index of a layout: `"1"` for Russian, `"0"`
/// otherwise.
pub fn input_source_index(layout: &str) -> (r: &'static str)
    ensures
        r@ == (if layout@ == "ru"@ {
            "1"@
        } else {
            "0"@
        }),
{
    if crate::text::same_text(layout, "ru") {
        "1"
    } else {
        "0"
    }
}

/// `s` with each single quote escaped by a backslash.
pub open spec fn escape_quotes(s: Seq<char>) -> Seq<char>
    decreases s.len(),
{
    if s.len() == 0 {
        seq![]
    } else {
        let rest = escape_quotes(s.drop_last());
        if s.last() == '\'' {
            rest.push('\\').push('\'')
        } else {
            rest.push(s.last())
        }
    }
}

/// The GNOME Shell script that activates the input source `layout`.
pub open spec fn activation_script_spec(layout: Seq<char>) -> Seq<char> {
    "global.display.get_input_source_manager().get_sources().forEach(s => { if (s.id == '"@
        + escape_quotes(layout) + "') s.activate(); })"@
}

/// The GNOME Shell script that activates the input source `layout`.
pub fn activation_script(layout: &str) -> (r: String)
    ensures
        r@ == activation_script_spec(layout@),
{
    let chars = chars_of(layout);
    let mut out: Vec<char> = Vec::new();
    append_str(&mut out, "global.display.get_input_source_manager().get_sources().forEach(s => { if (s.id == '");
    let ghost start = out@;
    let mut i: usize = 0;
    while i < chars.len()
        invariant
            chars@ == layout@,
            i <= chars.len(),
            out@ == start + escape_quotes(layout@.take(i as int)),
        decreases chars.len() - i,
    {
        let c = chars[i];
        assert(layout@.take(i + 1).drop_last() =~= layout@.take(i as int));
        if c == '\'' {
            out.push('\\');
            out.push('\'');
        } else {
            out.push(c);
        }
        i = i + 1;
        assert(out@ =~= start + escape_quotes(layout@.take(i as int)));
    }
    assert(layout@.take(chars.len() as int) =~= layout@);
    append_str(&mut out, "') s.activate(); })");
    string_of(&out)
}

} // verus!
