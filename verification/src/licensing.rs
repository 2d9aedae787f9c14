//! Offline license state: hashed license metadata, the integrity check of
//! the stored status, feature gates, and turning an activation reply into a
//! status.

use vstd::prelude::*;
use crate::text::{chars_of, decimal, decimal_chars, hex, hex_string, string_of, trim, trim_chars};

verus! {

/// The license activation endpoint of Lemon Squeezy.
pub const DEFAULT_LICENSE_ENDPOINT: &'static str = "https://api.lemonsqueezy.com/v1/licenses/activate";

#[verifier::external_type_specification]
#[verifier::external_body]
pub struct ExIoError(std::io::Error);

#[verifier::external_type_specification]
#[verifier::external_body]
pub struct ExJsonError(serde_json::Error);

#[verifier::external_type_specification]
#[verifier::external_body]
pub struct ExPathBuf(std::path::PathBuf);

/// `PathBuf::clone` gives a path equal to the one cloned.
pub assume_specification[<std::path::PathBuf as Clone>::clone](p: &std::path::PathBuf) -> (r: std::path::PathBuf)
    ensures
        r == *p,
;

/// What the SHA-256 hash of `data` is (`sha2::Sha256::digest`).
pub uninterp spec fn sha256(data: Seq<u8>) -> Seq<u8>;

/// Calls `sha2::Sha256::digest` on `data`. The result is named `sha256(data)`;
/// the only fact stated beside the name is the digest's length of 32 bytes.
#[verifier::external_body]
fn sha256_digest(data: &[u8]) -> (r: Vec<u8>)
    ensures
        r@ == sha256(data@),
        r@.len() == 32,
{
    <sha2::Sha256 as sha2::Digest>::digest(data).to_vec()
}

/// The lowercase hexadecimal SHA-256 of `bytes`.
pub open spec fn hash_bytes_spec(bytes: Seq<u8>) -> Seq<char> {
    hex(sha256(bytes))
}

/// The lowercase hexadecimal SHA-256 of the UTF-8 encoding of `text`.
pub open spec fn hash_text_spec(text: Seq<char>) -> Seq<char> {
    hash_bytes_spec(vstd::utf8::encode_utf8(text))
}

/// The lowercase hexadecimal SHA-256 of `value`.
pub fn hash_bytes(value: &[u8]) -> (r: String)
    ensures
        r@ == hash_bytes_spec(value@),
{
    let digest = sha256_digest(value);
    hex_string(&digest)
}

/// The lowercase hexadecimal SHA-256 of the UTF-8 encoding of `value`.
pub fn hash_text(value: &str) -> (r: String)
    ensures
        r@ == hash_text_spec(value@),
{
    hash_bytes(value.as_bytes())
}

/// Why a license operation failed.
#[derive(Debug)]
pub enum LicenseError {
    EmptyKey,
    ConfigDirectoryUnavailable,
    Io(std::io::Error),
    Json(serde_json::Error),
    Network(String),
    Rejected(String),
}

/// The stored entitlement: hashes and metadata, never the raw key.
#[derive(Debug, Clone, PartialEq, Eq)]
pub struct LicenseStatus {
    pub active: bool,
    pub license_key_hash: String,
    pub instance_id_hash: Option<String>,
    pub product_id: Option<u64>,
    pub variant_id: Option<u64>,
    pub expires_at: Option<String>,
    pub checked_at_unix: u64,
}

/// What a stored license yields when read with the serialisation
/// `status_json` of its status: the status when the guard hash is the hash of
/// that serialisation, nothing otherwise.
pub open spec fn stored_status(stored: StoredLicense, status_json: Seq<u8>) -> Option<LicenseStatus> {
    if stored.integrity_hash@ == hash_bytes_spec(status_json) {
        Some(stored.status)
    } else {
        None
    }
}

/// A status together with the hash that guards it on disk.
#[derive(Debug, Clone, PartialEq, Eq)]
pub struct StoredLicense {
    pub status: LicenseStatus,
    pub integrity_hash: String,
}

impl StoredLicense {
    /// The stored form of `status`; `status_json` is the JSON serialisation
    /// of `status`, whose hash guards it.
    pub fn new(status: LicenseStatus, status_json: &[u8]) -> (s: Self)
        ensures
            s.status == status,
            s.integrity_hash@ == hash_bytes_spec(status_json@),
    {
        let integrity_hash = hash_bytes(status_json);
        Self { status, integrity_hash }
    }

    /// Whether the guard hash matches `status_json`, the JSON serialisation
    /// of the stored status.
    pub fn is_integrity_valid(&self, status_json: &[u8]) -> (r: bool)
        ensures
            r == (self.integrity_hash@ == hash_bytes_spec(status_json@)),
    {
        let expected = hash_bytes(status_json);
        expected == self.integrity_hash
    }

    /// The stored status when its guard hash matches `status_json`, nothing otherwise.
    pub fn into_status(self, status_json: &[u8]) -> (r: Option<LicenseStatus>)
        ensures
            r == stored_status(self, status_json@),
    {
        if self.is_integrity_valid(status_json) {
            Some(self.status)
        } else {
            None
        }
    }
}

/// Where the license status is kept.
#[derive(Debug, Clone)]
pub struct LicenseStore {
    path: std::path::PathBuf,
}

impl LicenseStore {
    /// The path the store reads and writes.
    pub closed spec fn location(&self) -> std::path::PathBuf {
        self.path
    }

    /// A store at `path`.
    pub fn new(path: std::path::PathBuf) -> (s: Self)
        ensures
            s.location() == path,
    {
        Self { path }
    }

    /// The store's path.
    pub fn path(&self) -> (p: &std::path::PathBuf)
        ensures
            *p == self.location(),
    {
        &self.path
    }
}

/// Premium feature gates.
#[derive(Debug, Clone, PartialEq, Eq, Structural)]
pub struct FeatureAccess {
    pub developer_mode: bool,
    pub multi_language_profiles: bool,
}

impl FeatureAccess {
    /// The gates for an optional status: open only for an active license.
    pub fn from_status(status: Option<&LicenseStatus>) -> (a: Self)
        ensures
            a.developer_mode == (status matches Some(s) && s.active),
            a.multi_language_profiles == (status matches Some(s) && s.active),
    {
        let licensed = match status {
            Some(value) => value.active,
            None => false,
        };
        Self { developer_mode: licensed, multi_language_profiles: licensed }
    }
}

/// Whether `license_key` unlocks `status` without going online: the key is
/// not blank, the status is active, and it holds the key's hash.
pub open spec fn validate_offline_spec(license_key: Seq<char>, status: LicenseStatus) -> bool {
    &&& trim(license_key).len() > 0
    &&& status.active
    &&& status.license_key_hash@ == hash_text_spec(license_key)
}

/// Checks `license_key` against a stored status without any network access.
pub fn validate_offline(license_key: &str, status: &LicenseStatus) -> (r: bool)
    ensures
        r == validate_offline_spec(license_key@, *status),
{
    let chars = chars_of(license_key);
    let trimmed = trim_chars(&chars);
    if trimmed.len() == 0 {
        return false;
    }
    if !status.active {
        return false;
    }
    let hashed = hash_text(license_key);
    status.license_key_hash == hashed
}

/// Whether `license_key` is blank, which activation refuses.
pub fn check_license_key(license_key: &str) -> (r: Result<(), LicenseError>)
    ensures
        r is Ok <==> trim(license_key@).len() > 0,
        r matches Err(e) ==> e is EmptyKey,
{
    let chars = chars_of(license_key);
    let trimmed = trim_chars(&chars);
    if trimmed.len() == 0 {
        Err(LicenseError::EmptyKey)
    } else {
        Ok(())
    }
}

/// The license key part of an activation reply.
#[derive(Debug, Clone, PartialEq, Eq)]
pub struct LemonLicenseKey {
    pub id: Option<u64>,
    pub expires_at: Option<String>,
}

/// The product part of an activation reply.
#[derive(Debug, Clone, PartialEq, Eq, Structural)]
pub struct LemonMeta {
    pub product_id: Option<u64>,
    pub variant_id: Option<u64>,
}

/// An activation reply of the license service.
#[derive(Debug, Clone, PartialEq, Eq)]
pub struct LemonResponse {
    pub activated: bool,
    pub error: Option<String>,
    pub license_key: Option<LemonLicenseKey>,
    pub meta: Option<LemonMeta>,
}

/// The characters of an optional string.
pub open spec fn opt_string_view(o: Option<String>) -> Option<Seq<char>> {
    match o {
        Some(s) => Some(s@),
        None => None,
    }
}

/// The form fields an activation request carries.
pub fn activation_fields<'a>(license_key: &'a str, instance_name: &'a str) -> (f: [(&'static str, &'a str); 2])
    ensures
        f@[0].0@ == "license_key"@,
        f@[0].1 == license_key,
        f@[1].0@ == "instance_name"@,
        f@[1].1 == instance_name,
{
    [("license_key", license_key), ("instance_name", instance_name)]
}

/// Turns an activation reply for `license_key`, checked at `checked_at_unix`,
/// into a status: a refusal becomes `Rejected` with the service's message
/// (or "activation failed"); an activation becomes an active status holding
/// the key's hash, the hash of the instance id, the product, variant and
/// expiry the reply carries, and the check time.
pub fn status_from_activation(
    license_key: &str,
    response: LemonResponse,
    checked_at_unix: u64,
) -> (r: Result<LicenseStatus, LicenseError>)
    ensures
        !response.activated ==> (r matches Err(LicenseError::Rejected(m)) && m@ == (match response.error {
            Some(e) => e@,
            None => "activation failed"@,
        })),
        response.activated ==> (r matches Ok(s) && {
            &&& s.active
            &&& s.license_key_hash@ == hash_text_spec(license_key@)
            &&& opt_string_view(s.instance_id_hash) == (match response.license_key {
                Some(k) => match k.id {
                    Some(id) => Some(hash_text_spec(decimal(id as nat))),
                    None => None,
                },
                None => None,
            })
            &&& s.product_id == (match response.meta {
                Some(m) => m.product_id,
                None => None,
            })
            &&& s.variant_id == (match response.meta {
                Some(m) => m.variant_id,
                None => None,
            })
            &&& opt_string_view(s.expires_at) == (match response.license_key {
                Some(k) => opt_string_view(k.expires_at),
                None => None,
            })
            &&& s.checked_at_unix == checked_at_unix
        }),
{
    if !response.activated {
        let message = match response.error {
            Some(e) => e,
            None => string_of(&chars_of("activation failed")),
        };
        return Err(LicenseError::Rejected(message));
    }
    let instance_id_hash = match &response.license_key {
        Some(key) => match key.id {
            Some(id) => {
                let digits = decimal_chars(id);
                let text = string_of(&digits);
                Some(hash_text(text.as_str()))
            },
            None => None,
        },
        None => None,
    };
    let (product_id, variant_id) = match &response.meta {
        Some(meta) => (meta.product_id, meta.variant_id),
        None => (None, None),
    };
    let expires_at = match response.license_key {
        Some(key) => key.expires_at,
        None => None,
    };
    Ok(LicenseStatus {
        active: true,
        license_key_hash: hash_text(license_key),
        instance_id_hash,
        product_id,
        variant_id,
        expires_at,
        checked_at_unix,
    })
}

/// The transport that `LemonSqueezyClient::new` uses: form posts over HTTPS.
#[derive(Debug, Clone, Copy, Default)]
pub struct UreqTransport;

/// A client of the license activation service.
pub struct LemonSqueezyClient<T = UreqTransport> {
    endpoint: String,
    transport: T,
}

impl LemonSqueezyClient<UreqTransport> {
    /// A client of the default endpoint.
    pub fn new() -> (r: Result<Self, LicenseError>)
        ensures
            r matches Ok(c) && c.endpoint_view() == DEFAULT_LICENSE_ENDPOINT@,
    {
        Ok(Self { endpoint: string_of(&chars_of(DEFAULT_LICENSE_ENDPOINT)), transport: UreqTransport })
    }

    /// A client of `endpoint`.
    pub fn with_endpoint(endpoint: &str) -> (r: Result<Self, LicenseError>)
        ensures
            r matches Ok(c) && c.endpoint_view() == endpoint@,
    {
        Ok(Self { endpoint: string_of(&chars_of(endpoint)), transport: UreqTransport })
    }
}

impl<T> LemonSqueezyClient<T> {
    /// The endpoint's characters.
    pub closed spec fn endpoint_view(&self) -> Seq<char> {
        self.endpoint@
    }

    /// The client's transport.
    pub closed spec fn transport_view(&self) -> T {
        self.transport
    }

    /// A client of `endpoint` that posts through `transport`.
    pub fn with_transport(endpoint: &str, transport: T) -> (c: Self)
        ensures
            c.endpoint_view() == endpoint@,
            c.transport_view() == transport,
    {
        Self { endpoint: string_of(&chars_of(endpoint)), transport }
    }

    /// The endpoint.
    pub fn endpoint(&self) -> (e: &str)
        ensures
            e@ == self.endpoint_view(),
    {
        self.endpoint.as_str()
    }

    /// The transport.
    pub fn transport(&self) -> (t: &T)
        ensures
            *t == self.transport_view(),
    {
        &self.transport
    }
}

} // verus!
