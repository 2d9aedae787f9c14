//! The browser extensions' Native Messaging host: the frame codec (a 4-byte
//! length prefix in the machine's byte order, then that many bytes) and the
//! stateless request handler over the classifier, the prompt detector, the
//! offline improver and the cloud client.

use vstd::prelude::*;
use vstd::bytes::{spec_u32_from_le_bytes, spec_u32_to_le_bytes, lemma_auto_spec_u32_to_from_le_bytes};
use vstd::endian::{endianness, Endian};
use crate::classifier::{classify_spec, Language, LanguageClassifier};
use crate::cloud::{
    backend_outcome, outcome_view, Backend, CloudTransport, PromptCloudClient, UreqTransport, ANTHROPIC_ENDPOINT,
    DEFAULT_MANAGED_ENDPOINT,
};
use crate::improver::{improve_rule_based, improve_spec};
use crate::layout::{
    alternate_layout, correct_spec, evaluate_layout_candidates, mapped_reading, opt_view,
    switch_spec, target_layout_spec,
};
use crate::prompt::{detect_spec, PromptDetector};
use crate::text::{chars_of, trim, trim_chars};

verus! {

/// The four bytes of `n` in the byte order of the machine.
pub open spec fn native_bytes(n: u32) -> Seq<u8> {
    match endianness() {
        Endian::Little => spec_u32_to_le_bytes(n),
        Endian::Big => spec_u32_to_le_bytes(n).reverse(),
    }
}

/// Calls `u32::to_ne_bytes`: the bytes of `n` in the machine's byte order.
#[verifier::external_body]
fn u32_to_native_bytes(n: u32) -> (r: [u8; 4])
    ensures
        r@ == native_bytes(n),
{
    n.to_ne_bytes()
}

/// Calls `u32::from_ne_bytes`: the number whose bytes in the machine's byte
/// order are `b`.
#[verifier::external_body]
fn u32_from_native_bytes(b: [u8; 4]) -> (r: u32)
    ensures
        native_bytes(r) == b@,
{
    u32::from_ne_bytes(b)
}

/// The length that a frame announces for a payload of `len` bytes: the
/// length itself, or `u32::MAX` when it does not fit in 32 bits.
pub open spec fn announced_len(len: nat) -> u32 {
    if len <= u32::MAX {
        len as u32
    } else {
        u32::MAX
    }
}

/// Two numbers with the same bytes are the same number.
proof fn lemma_native_bytes_injective(a: u32, b: u32)
    requires
        native_bytes(a) == native_bytes(b),
    ensures
        a == b,
{
    lemma_auto_spec_u32_to_from_le_bytes();
    let la = spec_u32_to_le_bytes(a);
    let lb = spec_u32_to_le_bytes(b);
    match endianness() {
        Endian::Little => {
            assert(la == lb);
        },
        Endian::Big => {
            assert(la.reverse().reverse() =~= la);
            assert(lb.reverse().reverse() =~= lb);
            assert(la == lb);
        },
    }
    assert(spec_u32_from_le_bytes(la) == spec_u32_from_le_bytes(lb));
}

/// The length prefix of a frame whose payload is `len` bytes long.
pub fn frame_prefix(len: usize) -> (r: Vec<u8>)
    ensures
        r@ == native_bytes(announced_len(len as nat)),
        r@.len() == 4,
{
    let n: u32 = if len <= 0xffff_ffffusize { len as u32 } else { u32::MAX };
    let b = u32_to_native_bytes(n);
    let mut out: Vec<u8> = Vec::new();
    out.push(b[0]);
    out.push(b[1]);
    out.push(b[2]);
    out.push(b[3]);
    proof {
        lemma_auto_spec_u32_to_from_le_bytes();
        assert(b@.len() == 4);
    }
    assert(out@ =~= b@);
    out
}

/// The payload length that the prefix `prefix` announces.
pub fn frame_length(prefix: [u8; 4]) -> (r: usize)
    ensures
        r <= u32::MAX,
        native_bytes(r as u32) == prefix@,
{
    let n = u32_from_native_bytes(prefix);
    n as usize
}

/// A frame that announces the length of a payload is read back as that
/// length, for every payload that fits a 32-bit length.
pub proof fn lemma_frame_length_round_trip(len: usize, prefix: [u8; 4], decoded: usize)
    requires
        len <= u32::MAX,
        prefix@ == native_bytes(announced_len(len as nat)),
        decoded <= u32::MAX,
        native_bytes(decoded as u32) == prefix@,
    ensures
        decoded == len,
{
    lemma_native_bytes_injective(decoded as u32, len as u32);
}

/// What reading the first byte of a frame gives.
enum FirstByte {
    Byte(u8),
    Closed,
    Failed(std::io::Error),
}

/// Calls `Read::read_exact` for the first byte of a frame. A stream that has
/// ended (`ErrorKind::UnexpectedEof`) is `Closed`, any other error is passed
/// on. What bytes the stream holds is not claimed.
#[verifier::external_body]
fn read_first_byte<R: std::io::Read>(reader: &mut R) -> FirstByte {
    let mut buffer = [0u8; 1];
    match reader.read_exact(&mut buffer) {
        Ok(()) => FirstByte::Byte(buffer[0]),
        Err(error) if error.kind() == std::io::ErrorKind::UnexpectedEof => FirstByte::Closed,
        Err(error) => FirstByte::Failed(error),
    }
}

/// Calls `Read::read_exact` on a buffer of `len` bytes, which it fills
/// completely or fails. What bytes the stream holds is not claimed.
#[verifier::external_body]
fn read_payload<R: std::io::Read>(reader: &mut R, len: usize) -> (r: Result<Vec<u8>, std::io::Error>)
    ensures
        r matches Ok(v) ==> v@.len() == len,
{
    let mut buffer = vec![0u8; len];
    reader.read_exact(&mut buffer)?;
    Ok(buffer)
}

/// Calls `Write::write_all` with `bytes`.
#[verifier::external_body]
fn write_bytes<W: std::io::Write>(writer: &mut W, bytes: &[u8]) -> Result<(), std::io::Error> {
    writer.write_all(bytes)
}

/// Calls `Write::flush`.
#[verifier::external_body]
fn flush_writer<W: std::io::Write>(writer: &mut W) -> Result<(), std::io::Error> {
    writer.flush()
}

/// The bytes of the frame that carries `payload`: its announced length in
/// the machine's byte order, then the payload.
pub open spec fn frame_spec(payload: Seq<u8>) -> Seq<u8> {
    native_bytes(announced_len(payload.len())) + payload
}

/// The frame that carries `payload`.
pub fn frame_message(payload: &[u8]) -> (r: Vec<u8>)
    ensures
        r@ == frame_spec(payload@),
{
    let mut out = frame_prefix(payload.len());
    let ghost prefix = out@;
    let mut i: usize = 0;
    while i < payload.len()
        invariant
            i <= payload.len(),
            out@ == prefix + payload@.take(i as int),
        decreases payload.len() - i,
    {
        out.push(payload[i]);
        i = i + 1;
        assert(out@ =~= prefix + payload@.take(i as int));
    }
    assert(payload@.take(payload.len() as int) =~= payload@);
    out
}

/// The number whose bytes in the machine's byte order are the four bytes `b`.
pub open spec fn native_value(b: Seq<u8>) -> u32 {
    match endianness() {
        Endian::Little => spec_u32_from_le_bytes(b),
        Endian::Big => spec_u32_from_le_bytes(b.reverse()),
    }
}

/// Reading four bytes as a number and writing the number back give the
/// bytes; writing a number and reading it back give the number.
pub proof fn lemma_native_value(b: Seq<u8>, n: u32)
    ensures
        b.len() == 4 ==> native_bytes(native_value(b)) == b,
        native_value(native_bytes(n)) == n,
        native_bytes(n).len() == 4,
{
    lemma_auto_spec_u32_to_from_le_bytes();
    assert(b.reverse().reverse() =~= b);
    assert(spec_u32_to_le_bytes(n).reverse().reverse() =~= spec_u32_to_le_bytes(n));
    if b.len() == 4 {
        assert(b.reverse().len() == 4);
    }
}

/// The payload of the frame at the start of `bytes`, when it is complete.
pub open spec fn frame_payload(bytes: Seq<u8>) -> Option<Seq<u8>> {
    if bytes.len() < 4 {
        None
    } else {
        let n = native_value(bytes.take(4));
        if bytes.len() < 4 + n {
            None
        } else {
            Some(bytes.subrange(4, 4 + n))
        }
    }
}

/// What the bytes at the start of a stream hold.
#[derive(Debug, PartialEq, Eq)]
pub enum Frame {
    /// Nothing: the stream has ended cleanly.
    End,
    /// A complete frame with this payload.
    Message(Vec<u8>),
    /// A frame that the stream ends inside.
    Truncated,
}

/// `f` is what the bytes `bytes` begin with.
pub open spec fn frame_of(f: Frame, bytes: Seq<u8>) -> bool {
    match f {
        Frame::End => bytes.len() == 0,
        Frame::Message(payload) => frame_payload(bytes) == Some(payload@),
        Frame::Truncated => bytes.len() > 0 && frame_payload(bytes) is None,
    }
}

/// Reads the frame at the start of `bytes`.
pub fn parse_frame(bytes: &[u8]) -> (r: Frame)
    ensures
        frame_of(r, bytes@),
{
    if bytes.len() == 0 {
        return Frame::End;
    }
    if bytes.len() < 4 {
        return Frame::Truncated;
    }
    let prefix: [u8; 4] = [bytes[0], bytes[1], bytes[2], bytes[3]];
    let n = frame_length(prefix);
    proof {
        assert(prefix@ =~= bytes@.take(4));
        lemma_native_value(bytes@.take(4), n as u32);
        lemma_native_bytes_injective(native_value(bytes@.take(4)), n as u32);
    }
    if bytes.len() - 4 < n {
        return Frame::Truncated;
    }
    let mut payload: Vec<u8> = Vec::new();
    let mut i: usize = 0;
    while i < n
        invariant
            i <= n,
            4 + n <= bytes.len(),
            payload@ == bytes@.subrange(4, 4 + i),
        decreases n - i,
    {
        payload.push(bytes[4 + i]);
        i = i + 1;
        assert(payload@ =~= bytes@.subrange(4, 4 + i));
    }
    Frame::Message(payload)
}

/// A frame written for a payload that fits a 32-bit length, followed by any
/// further bytes, reads back as that payload and is exactly as long as its
/// prefix and payload; nothing read from an empty stream is a clean end.
pub proof fn lemma_frame_round_trip(payload: Seq<u8>, rest: Seq<u8>)
    requires
        payload.len() <= u32::MAX,
    ensures
        frame_payload(frame_spec(payload) + rest) == Some(payload),
        frame_spec(payload).len() == 4 + payload.len(),
        (frame_spec(payload) + rest).skip(4 + payload.len() as int) == rest,
{
    let n = payload.len() as u32;
    lemma_native_value(seq![], n);
    let bytes = frame_spec(payload) + rest;
    assert(bytes.take(4) =~= native_bytes(n));
    assert(bytes.subrange(4, 4 + payload.len() as int) =~= payload);
    assert(bytes.skip(4 + payload.len() as int) =~= rest);
}

/// Reads one frame. `Ok(None)` is a clean end of the stream before any byte
/// of a frame (the browser closed the port); a stream that ends inside the
/// prefix or the payload is an error.
pub fn read_message<R: std::io::Read>(reader: &mut R) -> (r: Result<Option<Vec<u8>>, std::io::Error>)
    ensures
        r matches Ok(Some(v)) ==> v@.len() <= u32::MAX,
{
    let first = match read_first_byte(reader) {
        FirstByte::Byte(byte) => byte,
        FirstByte::Closed => return Ok(None),
        FirstByte::Failed(error) => return Err(error),
    };
    let rest = read_payload(reader, 3)?;
    let prefix: [u8; 4] = [first, rest[0], rest[1], rest[2]];
    let length = frame_length(prefix);
    let payload = read_payload(reader, length)?;
    Ok(Some(payload))
}

/// Writes the frame of `payload` (see `frame_message`) and flushes the
/// writer.
pub fn write_message<W: std::io::Write>(writer: &mut W, payload: &[u8]) -> Result<(), std::io::Error> {
    let frame = frame_message(payload);
    write_bytes(writer, frame.as_slice())?;
    flush_writer(writer)
}

/// A request from the extension.
#[derive(Debug)]
pub enum Request {
    Status,
    CorrectLayout { text: String, layout: String },
    ImprovePrompt { text: String, cloud: bool, api_key: Option<String> },
}

/// The layout a `CorrectLayout` request without one is typed in.
pub fn default_layout() -> (r: String)
    ensures
        r@ == "us"@,
{
    "us".to_owned()
}

/// The answer to a request. Confidence is in millionths.
#[derive(Debug, PartialEq)]
pub enum Response {
    Status { ok: bool, tier: String },
    CorrectLayout {
        ok: bool,
        language: String,
        switched: bool,
        target_layout: Option<String>,
        corrected: String,
    },
    ImprovePrompt { ok: bool, mode: String, prompt_detected: bool, confidence: u32, improved: String },
    Error { ok: bool, error: String },
}

/// The name a language is reported by.
pub open spec fn language_name_spec(language: Language) -> Seq<char> {
    match language {
        Language::English => "English"@,
        Language::Spanish => "Spanish"@,
        Language::German => "German"@,
        Language::French => "French"@,
        Language::Russian => "Russian"@,
        Language::Ukrainian => "Ukrainian"@,
        Language::Hindi => "Hindi"@,
    }
}

/// The name a language is reported by.
pub fn language_name(language: Language) -> (r: String)
    ensures
        r@ == language_name_spec(language),
{
    match language {
        Language::English => "English".to_owned(),
        Language::Spanish => "Spanish".to_owned(),
        Language::German => "German".to_owned(),
        Language::French => "French".to_owned(),
        Language::Russian => "Russian".to_owned(),
        Language::Ukrainian => "Ukrainian".to_owned(),
        Language::Hindi => "Hindi".to_owned(),
    }
}

/// The tier name: `"pro"` with an active license, `"free"` without.
pub open spec fn tier_spec(is_pro: bool) -> Seq<char> {
    if is_pro {
        "pro"@
    } else {
        "free"@
    }
}

/// The tier name.
pub fn tier_name(is_pro: bool) -> (r: String)
    ensures
        r@ == tier_spec(is_pro),
{
    if is_pro {
        "pro".to_owned()
    } else {
        "free".to_owned()
    }
}

/// The view of an optional string.
pub open spec fn opt_string_view(o: Option<String>) -> Option<Seq<char>> {
    match o {
        Some(s) => Some(s@),
        None => None,
    }
}

/// The confidence threshold, in millionths, of a layout correction request.
pub const CORRECTION_THRESHOLD: u32 = 600_000;

/// The verdict on `text` typed under `layout`: the language, whether to
/// switch, the target layout and the corrected text, as
/// `evaluate_layout_candidates` gives them at `CORRECTION_THRESHOLD`.
pub open spec fn layout_verdict(text: Seq<char>, layout: Seq<char>) -> (Language, bool, Option<Seq<char>>, Seq<char>) {
    let alt = correct_spec(text, layout, alternate_layout(layout));
    if switch_spec(text, layout, CORRECTION_THRESHOLD) {
        let language = mapped_reading(alt).0;
        (language, true, target_layout_spec(language), alt)
    } else {
        (classify_spec(text), false, None, text)
    }
}

/// `r` answers a `CorrectLayout` request for `text` typed under `layout`.
pub open spec fn answers_correct_layout(r: Response, text: Seq<char>, layout: Seq<char>) -> bool {
    let v = layout_verdict(text, layout);
    match r {
        Response::CorrectLayout { ok, language, switched, target_layout, corrected } => {
            &&& ok
            &&& language@ == language_name_spec(v.0)
            &&& switched == v.1
            &&& opt_string_view(target_layout) == v.2
            &&& corrected@ == v.3
        },
        _ => false,
    }
}

/// The API key that is used: one that is not blank.
pub open spec fn usable_key(api_key: Option<Seq<char>>) -> Option<Seq<char>> {
    match api_key {
        Some(k) => if trim(k).len() == 0 {
            None
        } else {
            Some(k)
        },
        None => None,
    }
}

/// The message of a cloud request with neither a key nor Pro.
pub open spec fn no_cloud_access_message() -> Seq<char> {
    "cloud improvement requires an api_key or an active Pro license"@
}

/// `r` answers an `ImprovePrompt` request with `client` at hand. Offline,
/// the text is improved by the rule-based improver. In the cloud, `client`
/// is asked with the usable key (or, without one, through the managed
/// backend) and its transport answers some reply: an improvement is returned
/// under the backend's mode, a failure falls back to the offline improvement
/// under `"local-fallback"`. Without a usable key and without Pro, a cloud
/// request is an error.
pub open spec fn answers_improve_prompt<T: CloudTransport>(
    r: Response,
    text: Seq<char>,
    cloud: bool,
    api_key: Option<Seq<char>>,
    is_pro: bool,
    client: PromptCloudClient<T>,
) -> bool {
    let signal = detect_spec(text);
    let key = usable_key(api_key);
    if cloud && key is None && !is_pro {
        match r {
            Response::Error { ok, error } => !ok && error@ == no_cloud_access_message(),
            _ => false,
        }
    } else {
        let cloud_mode = if key is Some {
            "cloud-byok"@
        } else {
            "cloud-managed"@
        };
        match r {
            Response::ImprovePrompt { ok, mode, prompt_detected, confidence, improved } => {
                &&& ok
                &&& prompt_detected == signal.is_prompt
                &&& confidence == signal.confidence
                &&& if cloud {
                    exists|reply: Result<Seq<char>, (nat, Seq<char>)>| {
                        &&& #[trigger] client.may_answer(text, key, reply)
                        &&& match backend_outcome(key, reply) {
                            Ok(t) => mode@ == cloud_mode && improved@ == t,
                            Err(_) => mode@ == "local-fallback"@ && improved@ == improve_spec(text),
                        }
                    }
                } else {
                    mode@ == "local"@ && improved@ == improve_spec(text)
                }
            },
            _ => false,
        }
    }
}

/// `r` answers `request` for a user with (`is_pro`) or without a license,
/// with `client` at hand for the cloud.
pub open spec fn answers<T: CloudTransport>(r: Response, request: Request, is_pro: bool, client: PromptCloudClient<T>) -> bool {
    match request {
        Request::Status => match r {
            Response::Status { ok, tier } => ok && tier@ == tier_spec(is_pro),
            _ => false,
        },
        Request::CorrectLayout { text, layout } => answers_correct_layout(r, text@, layout@),
        Request::ImprovePrompt { text, cloud, api_key } => answers_improve_prompt(
            r,
            text@,
            cloud,
            opt_string_view(api_key),
            is_pro,
            client,
        ),
    }
}

/// Answers one request, asking the default cloud client when the cloud is
/// wanted. `is_pro` is read from the license store by the caller; this
/// function itself never touches the disk.
pub fn handle(request: Request, is_pro: bool) -> (r: Response)
    ensures
        exists|client: PromptCloudClient<UreqTransport>| {
            &&& client.anthropic_endpoint_view() == ANTHROPIC_ENDPOINT@
            &&& client.managed_endpoint_view() == DEFAULT_MANAGED_ENDPOINT@
            &&& client.anthropic_model_view() == Seq::<char>::empty()
            &&& #[trigger] answers(r, request, is_pro, client)
        },
{
    let client = PromptCloudClient::new();
    let r = handle_with(request, is_pro, &client);
    assert(answers(r, request, is_pro, client));
    r
}

/// Answers one request, asking `client` when the cloud is wanted.
pub fn handle_with<T: CloudTransport>(request: Request, is_pro: bool, client: &PromptCloudClient<T>) -> (r: Response)
    ensures
        answers(r, request, is_pro, *client),
{
    match request {
        Request::Status => Response::Status { ok: true, tier: tier_name(is_pro) },
        Request::CorrectLayout { text, layout } => correct_layout(text.as_str(), layout.as_str()),
        Request::ImprovePrompt { text, cloud, api_key } => improve_prompt(text.as_str(), cloud, api_key, is_pro, client),
    }
}

fn correct_layout(text: &str, layout: &str) -> (r: Response)
    ensures
        answers_correct_layout(r, text@, layout@),
{
    let classifier = LanguageClassifier::new();
    let decision = evaluate_layout_candidates(text, layout, &classifier, CORRECTION_THRESHOLD);
    let target_layout = match decision.target_layout {
        Some(target) => Some(target.to_owned()),
        None => None,
    };
    assert(opt_string_view(target_layout) == opt_view(decision.target_layout));
    Response::CorrectLayout {
        ok: true,
        language: language_name(decision.language),
        switched: decision.switch,
        target_layout,
        corrected: decision.corrected,
    }
}

/// Whether `key` is blank.
fn is_blank(key: &str) -> (r: bool)
    ensures
        r == (trim(key@).len() == 0),
{
    let chars = chars_of(key);
    trim_chars(&chars).len() == 0
}

fn improve_prompt<T: CloudTransport>(
    text: &str,
    cloud: bool,
    api_key: Option<String>,
    is_pro: bool,
    client: &PromptCloudClient<T>,
) -> (r: Response)
    ensures
        answers_improve_prompt(r, text@, cloud, opt_string_view(api_key), is_pro, *client),
{
    let detector = PromptDetector::new();
    let signal = detector.detect(text);
    if !cloud {
        return Response::ImprovePrompt {
            ok: true,
            mode: "local".to_owned(),
            prompt_detected: signal.is_prompt,
            confidence: signal.confidence,
            improved: improve_rule_based(text),
        };
    }
    let ghost key_view = opt_string_view(api_key);
    let key: Option<String> = match api_key {
        Some(k) => if is_blank(k.as_str()) {
            None
        } else {
            Some(k)
        },
        None => None,
    };
    assert(opt_string_view(key) == usable_key(key_view));
    let ghost ukey = usable_key(key_view);
    let outcome = match &key {
        Some(k) => {
            let result = client.improve(text, Backend::BringYourOwnKey { api_key: k.as_str() }, is_pro);
            (result, "cloud-byok".to_owned())
        },
        None => {
            if !is_pro {
                return Response::Error { ok: false, error: "cloud improvement requires an api_key or an active Pro license".to_owned() };
            }
            let result = client.improve(text, Backend::Managed, is_pro);
            (result, "cloud-managed".to_owned())
        },
    };
    let (result, mode) = outcome;
    let ghost reply = choose|reply: Result<Seq<char>, (nat, Seq<char>)>| {
        &&& #[trigger] client.may_answer(text@, ukey, reply)
        &&& outcome_view(result) == backend_outcome(ukey, reply)
    };
    assert(client.may_answer(text@, ukey, reply) && outcome_view(result) == backend_outcome(ukey, reply));
    let r = match result {
        Ok(improved) => Response::ImprovePrompt {
            ok: true,
            mode,
            prompt_detected: signal.is_prompt,
            confidence: signal.confidence,
            improved,
        },
        Err(_) => Response::ImprovePrompt {
            ok: true,
            mode: "local-fallback".to_owned(),
            prompt_detected: signal.is_prompt,
            confidence: signal.confidence,
            improved: improve_rule_based(text),
        },
    };
    assert(client.may_answer(text@, ukey, reply));
    r
}

} // verus!
