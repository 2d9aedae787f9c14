//! The network-backed prompt improvement client. The free, offline path is
//! `improver::improve_rule_based`; this client adds two cloud backends: the
//! Anthropic API with the user's own key, and the hosted proxy for Pro users.

use vstd::prelude::*;
use crate::improver::{improve_rule_based, improve_spec};
use crate::text::{append_str, hex_digit, chars_of, decimal, decimal_chars, string_of, trim, trim_chars};

verus! {

pub const ANTHROPIC_ENDPOINT: &'static str = "https://api.anthropic.com/v1/messages";

pub const ANTHROPIC_VERSION: &'static str = "2023-06-01";

pub const DEFAULT_MANAGED_ENDPOINT: &'static str = "https://cloud.typomorph.com/v1/improve-prompt";

pub const SYSTEM_PROMPT: &'static str = "You improve a single user-written LLM prompt. Rewrite it for clarity and specificity while preserving the original intent, language, and meaning. Reply with only the improved prompt text: no explanation, no quotes, no markdown.";

/// Why a cloud improvement failed.
#[derive(Debug)]
pub enum CloudError {
    MissingApiKey,
    NotEntitled,
    Network(String),
    MalformedResponse(String),
}

/// Which cloud backend to ask.
pub enum Backend<'a> {
    BringYourOwnKey { api_key: &'a str },
    Managed,
}

/// The characters of each header name and value of a header slice.
pub open spec fn str_pair_views(headers: Seq<(&str, &str)>) -> Seq<(Seq<char>, Seq<char>)> {
    Seq::new(headers.len(), |i: int| (headers[i].0@, headers[i].1@))
}

/// Posts a JSON body and returns the reply body.
pub trait CloudTransport {
    /// Whether `reply` (its text, or its error numbered as in `outcome_view`)
    /// is an answer this transport may give to a post of `body` with
    /// `headers` to `endpoint`. Unless a transport says more, any reply is.
    open spec fn may_reply(
        &self,
        endpoint: Seq<char>,
        headers: Seq<(Seq<char>, Seq<char>)>,
        body: Seq<char>,
        reply: Result<Seq<char>, (nat, Seq<char>)>,
    ) -> bool {
        true
    }

    fn post_json(&self, endpoint: &str, headers: &[(&str, &str)], body: &str) -> (r: Result<String, CloudError>)
        ensures
            self.may_reply(endpoint@, str_pair_views(headers@), body@, outcome_view(r)),
    ;
}

/// The HTTPS transport.
#[derive(Debug, Clone, Copy, Default)]
pub struct UreqTransport;

impl CloudTransport for UreqTransport {
    fn post_json(&self, endpoint: &str, headers: &[(&str, &str)], body: &str) -> (r: Result<String, CloudError>) {
        ureq_post_json(endpoint, headers, body)
    }
}

/// Calls `ureq::post(endpoint)`, sets each header with `Request::set`, sends
/// `body` with `send_string` and reads the reply with `into_string`; failures
/// become `CloudError::Network`. Nothing is claimed of the reply, which comes
/// from a remote service.
#[verifier::external_body]
fn ureq_post_json(endpoint: &str, headers: &[(&str, &str)], body: &str) -> Result<String, CloudError> {
    let mut request = ureq::post(endpoint);
    for (name, value) in headers {
        request = request.set(name, value);
    }
    request
        .send_string(body)
        .map_err(|error| CloudError::Network(error.to_string()))?
        .into_string()
        .map_err(|error| CloudError::Network(error.to_string()))
}

/// How `serde_json` writes the character `c` inside a string literal: `"`
/// and `\` behind a backslash; backspace, tab, line feed, form feed and
/// carriage return as `\b`, `\t`, `\n`, `\f`, `\r`; the other characters
/// below U+0020 as `\u00` and two lowercase hexadecimal digits; every other
/// character as itself.
pub open spec fn json_escape_char(c: char) -> Seq<char> {
    if c == '"' {
        seq!['\\', '"']
    } else if c == '\\' {
        seq!['\\', '\\']
    } else if c == '\u{8}' {
        seq!['\\', 'b']
    } else if c == '\t' {
        seq!['\\', 't']
    } else if c == '\n' {
        seq!['\\', 'n']
    } else if c == '\u{c}' {
        seq!['\\', 'f']
    } else if c == '\r' {
        seq!['\\', 'r']
    } else if (c as u32) < 0x20 {
        seq!['\\', 'u', '0', '0', hex_digit((c as int) / 16), hex_digit((c as int) % 16)]
    } else {
        seq![c]
    }
}

/// The characters of `s`, each written as `json_escape_char` says.
pub open spec fn json_escaped(s: Seq<char>) -> Seq<char>
    decreases s.len(),
{
    if s.len() == 0 {
        seq![]
    } else {
        json_escaped(s.drop_last()) + json_escape_char(s.last())
    }
}

/// What `serde_json::to_string` writes for the string `s`: its escaped
/// characters between double quotes.
pub open spec fn json_string_literal(s: Seq<char>) -> Seq<char> {
    seq!['"'] + json_escaped(s) + seq!['"']
}

/// What parsing `raw` as JSON and looking up the string at the JSON pointer
/// `pointer` gives: the parser's error message, or the string if there is
/// one at that place.
pub uninterp spec fn json_text_at(raw: Seq<char>, pointer: Seq<char>) -> Result<Option<Seq<char>>, Seq<char>>;

/// What parsing `raw` as JSON and looking up the array at `pointer` gives:
/// the parser's error message, or the array's length if there is one there.
pub uninterp spec fn json_array_len_at(raw: Seq<char>, pointer: Seq<char>) -> Result<Option<nat>, Seq<char>>;

/// The view of a lookup result.
pub open spec fn text_lookup_view(r: Result<Option<String>, String>) -> Result<Option<Seq<char>>, Seq<char>> {
    match r {
        Ok(Some(s)) => Ok(Some(s@)),
        Ok(None) => Ok(None),
        Err(e) => Err(e@),
    }
}

/// The view of an array lookup result.
pub open spec fn len_lookup_view(r: Result<Option<usize>, String>) -> Result<Option<nat>, Seq<char>> {
    match r {
        Ok(Some(n)) => Ok(Some(n as nat)),
        Ok(None) => Ok(None),
        Err(e) => Err(e@),
    }
}

/// Calls `serde_json::to_string` on the string `s` (which cannot fail for a
/// string). The result is the quoted, escaped literal that
/// `json_string_literal` states (serde_json's `format_escaped_str` with its
/// `ESCAPE` table).
#[verifier::external_body]
fn json_quote(s: &str) -> (r: String)
    ensures
        r@ == json_string_literal(s@),
{
    serde_json::to_string(s).unwrap_or_default()
}

/// Calls `serde_json::from_str::<serde_json::Value>` on `raw`, then
/// `Value::pointer(pointer)` and `Value::as_str`. A parse failure gives the
/// error's message. The result is named `json_text_at(raw, pointer)`.
#[verifier::external_body]
fn json_str_at(raw: &str, pointer: &str) -> (r: Result<Option<String>, String>)
    ensures
        text_lookup_view(r) == json_text_at(raw@, pointer@),
{
    let value: serde_json::Value = serde_json::from_str(raw).map_err(|error| error.to_string())?;
    Ok(value.pointer(pointer).and_then(|found| found.as_str()).map(|text| text.to_string()))
}

/// Calls `serde_json::from_str::<serde_json::Value>` on `raw`, then
/// `Value::pointer(pointer)`, `Value::as_array` and `Vec::len`. A parse
/// failure gives the error's message. The result is named
/// `json_array_len_at(raw, pointer)`.
#[verifier::external_body]
fn json_array_len(raw: &str, pointer: &str) -> (r: Result<Option<usize>, String>)
    ensures
        len_lookup_view(r) == json_array_len_at(raw@, pointer@),
{
    let value: serde_json::Value = serde_json::from_str(raw).map_err(|error| error.to_string())?;
    Ok(value.pointer(pointer).and_then(|found| found.as_array()).map(|items| items.len()))
}

/// The request body sent to the Anthropic API for `text` and the model
/// `model`: the JSON object that `serde_json` writes for the request (keys
/// in sorted order, no spaces).
pub open spec fn anthropic_body_spec(text: Seq<char>, model: Seq<char>) -> Seq<char> {
    "{\"max_tokens\":4096,\"messages\":[{\"content\":"@ + json_string_literal(text)
        + ",\"role\":\"user\"}],\"model\":"@ + json_string_literal(model)
        + ",\"output_config\":{\"effort\":\"low\"},\"system\":"@ + json_string_literal(SYSTEM_PROMPT@)
        + "}"@
}

/// The request body sent to the managed backend for `text`.
pub open spec fn managed_body_spec(text: Seq<char>) -> Seq<char> {
    "{\"text\":"@ + json_string_literal(text) + "}"@
}

/// The Anthropic request body for `text` and the model `model`.
pub fn anthropic_request_body(text: &str, model: &str) -> (r: String)
    ensures
        r@ == anthropic_body_spec(text@, model@),
{
    let mut out: Vec<char> = Vec::new();
    append_str(&mut out, "{\"max_tokens\":4096,\"messages\":[{\"content\":");
    append_str(&mut out, json_quote(text).as_str());
    append_str(&mut out, ",\"role\":\"user\"}],\"model\":");
    append_str(&mut out, json_quote(model).as_str());
    append_str(&mut out, ",\"output_config\":{\"effort\":\"low\"},\"system\":");
    append_str(&mut out, json_quote(SYSTEM_PROMPT).as_str());
    append_str(&mut out, "}");
    string_of(&out)
}

/// The managed-backend request body for `text`.
pub fn managed_request_body(text: &str) -> (r: String)
    ensures
        r@ == managed_body_spec(text@),
{
    let mut out: Vec<char> = Vec::new();
    append_str(&mut out, "{\"text\":");
    append_str(&mut out, json_quote(text).as_str());
    append_str(&mut out, "}");
    string_of(&out)
}

/// The JSON pointer to field `field` of block `i` of the reply's content.
pub open spec fn block_pointer(i: nat, field: Seq<char>) -> Seq<char> {
    "/content/"@ + decimal(i) + "/"@ + field
}

/// What looking up one content block gave: its `type` and its `text`, each
/// when it is a string.
#[derive(Debug, Clone, PartialEq, Eq)]
pub struct BlockLookup {
    pub block_type: Option<String>,
    pub text: Option<String>,
}

/// The characters of a block's looked-up `type` and `text`.
pub open spec fn block_view(b: BlockLookup) -> (Option<Seq<char>>, Option<Seq<char>>) {
    (opt_chars(b.block_type), opt_chars(b.text))
}

/// The characters of an optional string.
pub open spec fn opt_chars(o: Option<String>) -> Option<Seq<char>> {
    match o {
        Some(s) => Some(s@),
        None => None,
    }
}

/// The views of the content blocks' lookups, or of the content lookup's failure.
pub open spec fn content_view(c: Result<Option<Vec<BlockLookup>>, String>) -> Result<Option<Seq<(Option<Seq<char>>, Option<Seq<char>>)>>, Seq<char>> {
    match c {
        Ok(Some(blocks)) => Ok(Some(Seq::new(blocks@.len(), |i: int| block_view(blocks@[i])))),
        Ok(None) => Ok(None),
        Err(e) => Err(e@),
    }
}

/// The first block, from `from` on, whose type is `"text"`.
pub open spec fn first_text_index(blocks: Seq<(Option<Seq<char>>, Option<Seq<char>>)>, from: nat) -> Option<nat>
    decreases blocks.len() - from,
{
    if from >= blocks.len() {
        None
    } else if blocks[from as int].0 == Some("text"@) {
        Some(from)
    } else {
        first_text_index(blocks, from + 1)
    }
}

/// The message of a reply without a usable text block.
pub open spec fn no_text_block() -> Seq<char> {
    "no text content block in response"@
}

/// What an Anthropic reply yields from its lookups: the `error.message`
/// lookup `error` (a parser message, a string, or nothing) and the content
/// lookup `content` (a parser message, nothing, or each block's `type` and
/// `text`). A malformed document is `MalformedResponse` with the parser's
/// message; an error message is a `Network` error; otherwise the trimmed
/// text of the first block of type `"text"`, or `MalformedResponse` when
/// there is none or it has no text.
pub open spec fn anthropic_reply_of(
    error: Result<Option<Seq<char>>, Seq<char>>,
    content: Result<Option<Seq<(Option<Seq<char>>, Option<Seq<char>>)>>, Seq<char>>,
) -> Result<Seq<char>, (nat, Seq<char>)> {
    match error {
        Err(e) => Err((3, e)),
        Ok(Some(m)) => Err((2, m)),
        Ok(None) => match content {
            Err(e) => Err((3, e)),
            Ok(None) => Err((3, no_text_block())),
            Ok(Some(blocks)) => match first_text_index(blocks, 0) {
                None => Err((3, no_text_block())),
                Some(i) => match blocks[i as int].1 {
                    Some(t) => Ok(trim(t)),
                    None => Err((3, no_text_block())),
                },
            },
        },
    }
}

/// The string found by a lookup, if any.
pub open spec fn found(r: Result<Option<Seq<char>>, Seq<char>>) -> Option<Seq<char>> {
    match r {
        Ok(Some(t)) => Some(t),
        _ => None,
    }
}

/// The content lookups of the reply `raw`: the parser's message, nothing
/// when there is no content array, or each block's `type` and `text`.
pub open spec fn content_at(raw: Seq<char>) -> Result<Option<Seq<(Option<Seq<char>>, Option<Seq<char>>)>>, Seq<char>> {
    match json_array_len_at(raw, "/content"@) {
        Err(e) => Err(e),
        Ok(None) => Ok(None),
        Ok(Some(n)) => Ok(Some(Seq::new(n, |i: int| (
            found(json_text_at(raw, block_pointer(i as nat, "type"@))),
            found(json_text_at(raw, block_pointer(i as nat, "text"@))),
        )))),
    }
}

/// A cloud outcome with its messages as character sequences; an error is
/// numbered by its variant in declaration order (`MissingApiKey` is `0`,
/// `NotEntitled` `1`, `Network` `2`, `MalformedResponse` `3`).
pub open spec fn outcome_view(r: Result<String, CloudError>) -> Result<Seq<char>, (nat, Seq<char>)> {
    match r {
        Ok(s) => Ok(s@),
        Err(CloudError::MissingApiKey) => Err((0, seq![])),
        Err(CloudError::NotEntitled) => Err((1, seq![])),
        Err(CloudError::Network(m)) => Err((2, m@)),
        Err(CloudError::MalformedResponse(m)) => Err((3, m@)),
    }
}

/// What a reply `raw` of the Anthropic API yields: its lookups read as
/// `anthropic_reply_of` says.
pub open spec fn anthropic_reply_spec(raw: Seq<char>) -> Result<Seq<char>, (nat, Seq<char>)> {
    anthropic_reply_of(json_text_at(raw, "/error/message"@), content_at(raw))
}

/// What `improve` gives for the transport's answer `reply` to an Anthropic
/// request: a transport error as it is, a reply body as
/// `anthropic_reply_spec` reads it.
pub open spec fn anthropic_outcome(reply: Result<Seq<char>, (nat, Seq<char>)>) -> Result<Seq<char>, (nat, Seq<char>)> {
    match reply {
        Ok(raw) => anthropic_reply_spec(raw),
        Err(e) => Err(e),
    }
}

/// What `improve` gives for the transport's answer `reply` to a managed
/// request: a transport error as it is, a reply body as `managed_reply_spec`
/// reads it.
pub open spec fn managed_outcome(reply: Result<Seq<char>, (nat, Seq<char>)>) -> Result<Seq<char>, (nat, Seq<char>)> {
    match reply {
        Ok(raw) => managed_reply_spec(raw),
        Err(e) => Err(e),
    }
}

/// What `improve` gives for the transport's answer `reply` when asked with
/// the key `key` (or without one).
pub open spec fn backend_outcome(key: Option<Seq<char>>, reply: Result<Seq<char>, (nat, Seq<char>)>) -> Result<Seq<char>, (nat, Seq<char>)> {
    match key {
        Some(_) => anthropic_outcome(reply),
        None => managed_outcome(reply),
    }
}

/// The key a backend is asked with: the user's own, or none for the managed
/// backend.
pub open spec fn backend_key(backend: Backend<'_>) -> Option<Seq<char>> {
    match backend {
        Backend::BringYourOwnKey { api_key } => Some(api_key@),
        Backend::Managed => None,
    }
}

/// The headers of an Anthropic request made with the key `api_key`.
pub open spec fn anthropic_headers(api_key: Seq<char>) -> Seq<(Seq<char>, Seq<char>)> {
    seq![
        ("Content-Type"@, "application/json"@),
        ("x-api-key"@, api_key),
        ("anthropic-version"@, ANTHROPIC_VERSION@),
    ]
}

/// The headers of a managed request.
pub open spec fn managed_headers() -> Seq<(Seq<char>, Seq<char>)> {
    seq![("Content-Type"@, "application/json"@)]
}

/// What a managed reply yields from the lookup `improved` of its
/// `improved` field: the trimmed string, or `MalformedResponse`.
pub open spec fn managed_reply_of(improved: Result<Option<Seq<char>>, Seq<char>>) -> Result<Seq<char>, (nat, Seq<char>)> {
    match improved {
        Err(e) => Err((3, e)),
        Ok(Some(t)) => Ok(trim(t)),
        Ok(None) => Err((3, "missing 'improved' field"@)),
    }
}

/// What a reply `raw` of the managed backend yields: its lookup read as
/// `managed_reply_of` says.
pub open spec fn managed_reply_spec(raw: Seq<char>) -> Result<Seq<char>, (nat, Seq<char>)> {
    managed_reply_of(json_text_at(raw, "/improved"@))
}

fn owned(s: &str) -> (r: String)
    ensures
        r@ == s@,
{
    string_of(&chars_of(s))
}

fn trimmed(s: &str) -> (r: String)
    ensures
        r@ == trim(s@),
{
    let chars = chars_of(s);
    string_of(&trim_chars(&chars))
}

/// The JSON pointer to field `field` of content block `i`.
fn block_pointer_of(i: usize, field: &str) -> (r: String)
    ensures
        r@ == block_pointer(i as nat, field@),
{
    let mut out: Vec<char> = Vec::new();
    append_str(&mut out, "/content/");
    let digits = decimal_chars(i as u64);
    let mut k: usize = 0;
    let ghost start = out@;
    while k < digits.len()
        invariant
            k <= digits.len(),
            out@ == start + digits@.take(k as int),
        decreases digits.len() - k,
    {
        out.push(digits[k]);
        k = k + 1;
        assert(out@ =~= start + digits@.take(k as int));
    }
    assert(digits@.take(digits.len() as int) =~= digits@);
    append_str(&mut out, "/");
    append_str(&mut out, field);
    string_of(&out)
}

/// Reads an Anthropic reply from its lookups (see `anthropic_reply_of`).
pub fn anthropic_reply_from(
    error: Result<Option<String>, String>,
    content: Result<Option<Vec<BlockLookup>>, String>,
) -> (r: Result<String, CloudError>)
    ensures
        outcome_view(r) == anthropic_reply_of(text_lookup_view(error), content_view(content)),
{
    let ghost error_v = text_lookup_view(error);
    let ghost content_v = content_view(content);
    match error {
        Err(e) => return Err(CloudError::MalformedResponse(e)),
        Ok(Some(m)) => return Err(CloudError::Network(m)),
        Ok(None) => {},
    }
    let blocks = match content {
        Err(e) => return Err(CloudError::MalformedResponse(e)),
        Ok(None) => return Err(CloudError::MalformedResponse(owned("no text content block in response"))),
        Ok(Some(blocks)) => blocks,
    };
    let ghost views = Seq::new(blocks@.len(), |i: int| block_view(blocks@[i]));
    let mut i: usize = 0;
    while i < blocks.len()
        invariant
            i <= blocks.len(),
            views == Seq::new(blocks@.len(), |k: int| block_view(blocks@[k])),
            error_v == Ok::<Option<Seq<char>>, Seq<char>>(None),
            error_v == text_lookup_view(error),
            content_v == content_view(content),
            content_v == Ok::<Option<Seq<(Option<Seq<char>>, Option<Seq<char>>)>>, Seq<char>>(Some(views)),
            first_text_index(views, 0) == first_text_index(views, i as nat),
        decreases blocks.len() - i,
    {
        let is_text = match &blocks[i].block_type {
            Some(t) => {
                let t_chars = chars_of(t.as_str());
                let text_chars = chars_of("text");
                crate::text::same_chars(&t_chars, &text_chars)
            },
            None => false,
        };
        assert(views[i as int] == block_view(blocks@[i as int]));
        assert(is_text == (views[i as int].0 == Some("text"@)));
        if is_text {
            assert(first_text_index(views, i as nat) == Some(i as nat));
            return match &blocks[i].text {
                Some(t) => Ok(trimmed(t.as_str())),
                None => Err(CloudError::MalformedResponse(owned("no text content block in response"))),
            };
        }
        i = i + 1;
    }
    Err(CloudError::MalformedResponse(owned("no text content block in response")))
}

/// Reads a managed reply from the lookup of its `improved` field (see
/// `managed_reply_of`).
pub fn managed_reply_from(improved: Result<Option<String>, String>) -> (r: Result<String, CloudError>)
    ensures
        outcome_view(r) == managed_reply_of(text_lookup_view(improved)),
{
    match improved {
        Err(e) => Err(CloudError::MalformedResponse(e)),
        Ok(Some(t)) => Ok(trimmed(t.as_str())),
        Ok(None) => Err(CloudError::MalformedResponse(owned("missing 'improved' field"))),
    }
}

/// Reads a reply of the Anthropic API (see `anthropic_reply_spec`): looks
/// up `error.message`, the content array and each block's `type` and `text`.
pub fn parse_anthropic_response(raw: &str) -> (r: Result<String, CloudError>)
    ensures
        outcome_view(r) == anthropic_reply_spec(raw@),
{
    let error = json_str_at(raw, "/error/message");
    let content: Result<Option<Vec<BlockLookup>>, String> = match json_array_len(raw, "/content") {
        Err(e) => Err(e),
        Ok(None) => Ok(None),
        Ok(Some(count)) => {
            let mut blocks: Vec<BlockLookup> = Vec::new();
            let mut i: usize = 0;
            while i < count
                invariant
                    i <= count,
                    blocks@.len() == i,
                    forall|k: int| 0 <= k < i ==> #[trigger] block_view(blocks@[k]) == (
                        found(json_text_at(raw@, block_pointer(k as nat, "type"@))),
                        found(json_text_at(raw@, block_pointer(k as nat, "text"@))),
                    ),
                decreases count - i,
            {
                let block_type = match json_str_at(raw, block_pointer_of(i, "type").as_str()) {
                    Ok(Some(t)) => Some(t),
                    _ => None,
                };
                let text = match json_str_at(raw, block_pointer_of(i, "text").as_str()) {
                    Ok(Some(t)) => Some(t),
                    _ => None,
                };
                blocks.push(BlockLookup { block_type, text });
                i = i + 1;
            }
            assert(content_view(Ok(Some(blocks))) =~= content_at(raw@)) by {
                assert(Seq::new(blocks@.len(), |k: int| block_view(blocks@[k])) =~= Seq::new(count as nat, |k: int| (
                    found(json_text_at(raw@, block_pointer(k as nat, "type"@))),
                    found(json_text_at(raw@, block_pointer(k as nat, "text"@))),
                )));
            }
            Ok(Some(blocks))
        },
    };
    assert(content_view(content) == content_at(raw@));
    anthropic_reply_from(error, content)
}

/// Reads a reply of the managed backend (see `managed_reply_spec`).
pub fn parse_managed_response(raw: &str) -> (r: Result<String, CloudError>)
    ensures
        outcome_view(r) == managed_reply_spec(raw@),
{
    managed_reply_from(json_str_at(raw, "/improved"))
}

/// A request to a cloud backend: where it goes, its headers and its JSON body.
#[derive(Debug, Clone, PartialEq, Eq)]
pub struct CloudRequest {
    pub endpoint: String,
    pub headers: Vec<(String, String)>,
    pub body: String,
}

/// The characters of each header's name and value.
pub open spec fn header_views(headers: Seq<(String, String)>) -> Seq<(Seq<char>, Seq<char>)> {
    Seq::new(headers.len(), |i: int| (headers[i].0@, headers[i].1@))
}

/// A client of the two cloud backends.
pub struct PromptCloudClient<T = UreqTransport> {
    transport: T,
    anthropic_endpoint: String,
    managed_endpoint: String,
    anthropic_model: String,
}

impl PromptCloudClient<UreqTransport> {
    /// A client of the default endpoints over HTTPS.
    pub fn new() -> (c: Self)
        ensures
            c.anthropic_endpoint_view() == ANTHROPIC_ENDPOINT@,
            c.managed_endpoint_view() == DEFAULT_MANAGED_ENDPOINT@,
            c.anthropic_model_view() == Seq::<char>::empty(),
    {
        Self {
            transport: UreqTransport,
            anthropic_endpoint: owned(ANTHROPIC_ENDPOINT),
            managed_endpoint: owned(DEFAULT_MANAGED_ENDPOINT),
            anthropic_model: String::new(),
        }
    }
}

impl Default for PromptCloudClient<UreqTransport> {
    fn default() -> (c: Self)
        ensures
            c.anthropic_endpoint_view() == ANTHROPIC_ENDPOINT@,
            c.managed_endpoint_view() == DEFAULT_MANAGED_ENDPOINT@,
            c.anthropic_model_view() == Seq::<char>::empty(),
    {
        Self::new()
    }
}

/// Why `improve` refuses before sending anything: `0` for a blank key (the
/// `MissingApiKey` error), `1` for the managed backend without Pro
/// (`NotEntitled`); none when the request goes out.
pub open spec fn backend_refusal(backend: Backend<'_>, is_pro: bool) -> Option<nat> {
    match backend {
        Backend::BringYourOwnKey { api_key } => if trim(api_key@).len() == 0 {
            Some(0)
        } else {
            None
        },
        Backend::Managed => if !is_pro {
            Some(1)
        } else {
            None
        },
    }
}

impl<T: CloudTransport> PromptCloudClient<T> {
    /// The Anthropic endpoint's characters.
    pub closed spec fn anthropic_endpoint_view(&self) -> Seq<char> {
        self.anthropic_endpoint@
    }

    /// The managed endpoint's characters.
    pub closed spec fn managed_endpoint_view(&self) -> Seq<char> {
        self.managed_endpoint@
    }

    /// The transport requests go through.
    pub closed spec fn transport_spec(&self) -> T {
        self.transport
    }

    /// The transport may answer `reply` to the request that `improve` sends
    /// for `text` with the key `key` (to the Anthropic API), or without one
    /// (to the managed backend).
    pub open spec fn may_answer(&self, text: Seq<char>, key: Option<Seq<char>>, reply: Result<Seq<char>, (nat, Seq<char>)>) -> bool {
        match key {
            Some(api_key) => self.transport_spec().may_reply(
                self.anthropic_endpoint_view(),
                anthropic_headers(api_key),
                anthropic_body_spec(text, self.anthropic_model_view()),
                reply,
            ),
            None => self.transport_spec().may_reply(
                self.managed_endpoint_view(),
                managed_headers(),
                managed_body_spec(text),
                reply,
            ),
        }
    }

    /// The model the Anthropic API is asked for.
    pub closed spec fn anthropic_model_view(&self) -> Seq<char> {
        self.anthropic_model@
    }

    /// The same client asking the Anthropic API for the model `model`
    /// (no model is set until one is given).
    pub fn with_model(self, model: &str) -> (c: Self)
        ensures
            c.anthropic_model_view() == model@,
            c.anthropic_endpoint_view() == self.anthropic_endpoint_view(),
            c.managed_endpoint_view() == self.managed_endpoint_view(),
    {
        Self { anthropic_model: owned(model), ..self }
    }

    /// A client of the default endpoints through `transport`.
    pub fn with_transport(transport: T) -> (c: Self)
        ensures
            c.anthropic_endpoint_view() == ANTHROPIC_ENDPOINT@,
            c.managed_endpoint_view() == DEFAULT_MANAGED_ENDPOINT@,
            c.anthropic_model_view() == Seq::<char>::empty(),
    {
        Self {
            transport,
            anthropic_endpoint: owned(ANTHROPIC_ENDPOINT),
            managed_endpoint: owned(DEFAULT_MANAGED_ENDPOINT),
            anthropic_model: String::new(),
        }
    }

    /// A client of the given endpoints through `transport`.
    pub fn with_endpoints(transport: T, anthropic_endpoint: &str, managed_endpoint: &str) -> (c: Self)
        ensures
            c.anthropic_endpoint_view() == anthropic_endpoint@,
            c.managed_endpoint_view() == managed_endpoint@,
            c.anthropic_model_view() == Seq::<char>::empty(),
    {
        Self {
            transport,
            anthropic_endpoint: owned(anthropic_endpoint),
            managed_endpoint: owned(managed_endpoint),
            anthropic_model: String::new(),
        }
    }

    /// Asks the cloud to improve `text`. A blank key is `MissingApiKey` and
    /// the managed backend without Pro is `NotEntitled`, before anything is
    /// sent; otherwise the request of `anthropic_request` or `managed_request`
    /// goes to the transport, its reply is read by `parse_anthropic_response`
    /// or `parse_managed_response`, and a transport failure is passed on.
    pub fn improve(&self, text: &str, backend: Backend<'_>, is_pro: bool) -> (r: Result<String, CloudError>)
        ensures
            backend_refusal(backend, is_pro) == Some(0nat) ==> r matches Err(CloudError::MissingApiKey),
            backend_refusal(backend, is_pro) == Some(1nat) ==> r matches Err(CloudError::NotEntitled),
            backend_refusal(backend, is_pro) is None ==> exists|reply: Result<Seq<char>, (nat, Seq<char>)>| {
                &&& #[trigger] self.may_answer(text@, backend_key(backend), reply)
                &&& outcome_view(r) == backend_outcome(backend_key(backend), reply)
            },
    {
        match backend {
            Backend::BringYourOwnKey { api_key } => {
                let key_chars = chars_of(api_key);
                if trim_chars(&key_chars).len() == 0 {
                    return Err(CloudError::MissingApiKey);
                }
                let r = self.call_anthropic(text, api_key);
                proof {
                    let reply = choose|reply: Result<Seq<char>, (nat, Seq<char>)>| {
                        &&& #[trigger] self.transport.may_reply(
                            self.anthropic_endpoint_view(),
                            anthropic_headers(api_key@),
                            anthropic_body_spec(text@, self.anthropic_model_view()),
                            reply,
                        )
                        &&& outcome_view(r) == anthropic_outcome(reply)
                    };
                    assert(self.may_answer(text@, backend_key(backend), reply));
                }
                r
            },
            Backend::Managed => {
                if !is_pro {
                    return Err(CloudError::NotEntitled);
                }
                let r = self.call_managed(text);
                proof {
                    let reply = choose|reply: Result<Seq<char>, (nat, Seq<char>)>| {
                        &&& #[trigger] self.transport.may_reply(
                            self.managed_endpoint_view(),
                            managed_headers(),
                            managed_body_spec(text@),
                            reply,
                        )
                        &&& outcome_view(r) == managed_outcome(reply)
                    };
                    assert(self.may_answer(text@, backend_key(backend), reply));
                }
                r
            },
        }
    }

    /// Like `improve`, but any cloud error yields the offline improvement.
    pub fn improve_or_fallback(&self, text: &str, backend: Backend<'_>, is_pro: bool) -> (r: String)
        ensures
            backend_refusal(backend, is_pro) is Some ==> r@ == improve_spec(text@),
            backend_refusal(backend, is_pro) is None ==> exists|reply: Result<Seq<char>, (nat, Seq<char>)>| {
                &&& #[trigger] self.may_answer(text@, backend_key(backend), reply)
                &&& r@ == match backend_outcome(backend_key(backend), reply) {
                    Ok(improved) => improved,
                    Err(_) => improve_spec(text@),
                }
            },
    {
        match self.improve(text, backend, is_pro) {
            Ok(improved) => improved,
            Err(_) => improve_rule_based(text),
        }
    }

    /// The request that asks the Anthropic API to improve `text` with the key
    /// `api_key`.
    pub fn anthropic_request(&self, text: &str, api_key: &str) -> (r: CloudRequest)
        ensures
            r.endpoint@ == self.anthropic_endpoint_view(),
            header_views(r.headers@) == anthropic_headers(api_key@),
            r.body@ == anthropic_body_spec(text@, self.anthropic_model_view()),
    {
        let mut headers: Vec<(String, String)> = Vec::new();
        headers.push((owned("Content-Type"), owned("application/json")));
        headers.push((owned("x-api-key"), owned(api_key)));
        headers.push((owned("anthropic-version"), owned(ANTHROPIC_VERSION)));
        assert(header_views(headers@) =~= seq![
            ("Content-Type"@, "application/json"@),
            ("x-api-key"@, api_key@),
            ("anthropic-version"@, ANTHROPIC_VERSION@),
        ]);
        CloudRequest {
            endpoint: owned(self.anthropic_endpoint.as_str()),
            headers,
            body: anthropic_request_body(text, self.anthropic_model.as_str()),
        }
    }

    /// The request that asks the managed backend to improve `text`.
    pub fn managed_request(&self, text: &str) -> (r: CloudRequest)
        ensures
            r.endpoint@ == self.managed_endpoint_view(),
            header_views(r.headers@) == managed_headers(),
            r.body@ == managed_body_spec(text@),
    {
        let mut headers: Vec<(String, String)> = Vec::new();
        headers.push((owned("Content-Type"), owned("application/json")));
        assert(header_views(headers@) =~= seq![("Content-Type"@, "application/json"@)]);
        CloudRequest { endpoint: owned(self.managed_endpoint.as_str()), headers, body: managed_request_body(text) }
    }

    /// Hands `request` to the transport and gives its answer.
    fn send(&self, request: &CloudRequest) -> (r: Result<String, CloudError>)
        ensures
            self.transport.may_reply(request.endpoint@, header_views(request.headers@), request.body@, outcome_view(r)),
    {
        let mut headers: Vec<(&str, &str)> = Vec::new();
        let mut i: usize = 0;
        while i < request.headers.len()
            invariant
                i <= request.headers.len(),
                headers@.len() == i,
                str_pair_views(headers@) == header_views(request.headers@).take(i as int),
            decreases request.headers.len() - i,
        {
            let pair = &request.headers[i];
            let name: &str = pair.0.as_str();
            let value: &str = pair.1.as_str();
            assert(name@ == request.headers@[i as int].0@ && value@ == request.headers@[i as int].1@);
            let ghost before = headers@;
            headers.push((name, value));
            assert(headers@ == before.push((name, value)));
            assert forall|j: int| 0 <= j < i implies #[trigger] str_pair_views(headers@)[j] == header_views(request.headers@).take(i + 1)[j] by {
                assert(headers@[j] == before[j]);
                assert(str_pair_views(before)[j] == header_views(request.headers@).take(i as int)[j]);
            }
            i = i + 1;
            assert(str_pair_views(headers@) =~= header_views(request.headers@).take(i as int));
        }
        assert(header_views(request.headers@).take(request.headers@.len() as int) =~= header_views(request.headers@));
        self.transport.post_json(request.endpoint.as_str(), headers.as_slice(), request.body.as_str())
    }

    /// Asks the Anthropic API to improve `text` with the key `api_key`: the
    /// request of `anthropic_request` goes to the transport, and its answer is
    /// read as `anthropic_outcome` says.
    fn call_anthropic(&self, text: &str, api_key: &str) -> (r: Result<String, CloudError>)
        ensures
            exists|reply: Result<Seq<char>, (nat, Seq<char>)>| {
                &&& #[trigger] self.transport.may_reply(
                    self.anthropic_endpoint_view(),
                    anthropic_headers(api_key@),
                    anthropic_body_spec(text@, self.anthropic_model_view()),
                    reply,
                )
                &&& outcome_view(r) == anthropic_outcome(reply)
            },
    {
        let request = self.anthropic_request(text, api_key);
        let answer = self.send(&request);
        let ghost reply = outcome_view(answer);
        let r = match answer {
            Ok(raw) => parse_anthropic_response(raw.as_str()),
            Err(error) => Err(error),
        };
        assert(outcome_view(r) == anthropic_outcome(reply));
        r
    }

    /// Asks the managed backend to improve `text`: the request of
    /// `managed_request` goes to the transport, and its answer is read as
    /// `managed_outcome` says.
    fn call_managed(&self, text: &str) -> (r: Result<String, CloudError>)
        ensures
            exists|reply: Result<Seq<char>, (nat, Seq<char>)>| {
                &&& #[trigger] self.transport.may_reply(
                    self.managed_endpoint_view(),
                    managed_headers(),
                    managed_body_spec(text@),
                    reply,
                )
                &&& outcome_view(r) == managed_outcome(reply)
            },
    {
        let request = self.managed_request(text);
        let answer = self.send(&request);
        let ghost reply = outcome_view(answer);
        let r = match answer {
            Ok(raw) => parse_managed_response(raw.as_str()),
            Err(error) => Err(error),
        };
        assert(outcome_view(r) == managed_outcome(reply));
        r
    }
}

} // verus!
