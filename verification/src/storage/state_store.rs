//! The state directory's layout and the sealed credentials file.
//!
//! Credentials are sealed with AES-256-GCM under a 32-byte key kept beside
//! them: a random 12-byte nonce, and the ciphertext and its 16-byte tag
//! stored apart, each in standard base64.

use vstd::prelude::*;
use base64::Engine;
use aes_gcm::aead::{Aead, KeyInit};
use vstd::string::StringSliceAdditionalSpecFns;
use vstd::utf8::{decode_utf8, encode_utf8, encode_utf8_decode_utf8, encode_utf8_valid_utf8, valid_utf8};
use crate::text::{owned, cat, has_prefix, trim, trim_start, trimmed};

verus! {

/// The directory name under the home directory.
pub const DEFAULT_DIRNAME: &'static str = ".docmost-local-mcp";

/// `name` appended to `base` as a path component: with a `/` between them
/// unless `base` is empty or already ends with one.
pub open spec fn join_path(base: Seq<char>, name: Seq<char>) -> Seq<char> {
    if base.len() == 0 || base.last() == '/' {
        base + name
    } else {
        base + seq!['/'] + name
    }
}

fn join_path_exec(base: &str, name: &str) -> (r: String)
    ensures
        r@ == join_path(base@, name@),
{
    let v = crate::text::chars_of(base);
    let mut r = owned(base);
    if v.len() > 0 && v[v.len() - 1] != '/' {
        crate::text::push_char(&mut r, '/');
    }
    r.append(name);
    r
}

/// The files of the state directory.
#[derive(Debug, Clone, PartialEq, Eq)]
pub struct StateStore {
    pub base_dir: String,
    pub config_path: String,
    pub session_path: String,
    pub credentials_path: String,
    pub key_path: String,
}

impl StateStore {
    /// The layout under `base_dir`.
    pub fn new(base_dir: String) -> (s: StateStore)
        ensures
            s.base_dir == base_dir,
            s.config_path@ == join_path(base_dir@, "config.json"@),
            s.session_path@ == join_path(base_dir@, "session.json"@),
            s.credentials_path@ == join_path(base_dir@, "credentials.enc.json"@),
            s.key_path@ == join_path(base_dir@, "credentials.key"@),
    {
        StateStore {
            config_path: join_path_exec(base_dir.as_str(), "config.json"),
            session_path: join_path_exec(base_dir.as_str(), "session.json"),
            credentials_path: join_path_exec(base_dir.as_str(), "credentials.enc.json"),
            key_path: join_path_exec(base_dir.as_str(), "credentials.key"),
            base_dir,
        }
    }
}

/// The sealed credentials, as stored.
#[derive(Debug, Clone, PartialEq, Eq)]
pub struct EncryptedPayload {
    pub iv: String,
    pub tag: String,
    pub ciphertext: String,
}

/// Why credentials could not be sealed or opened.
#[derive(Debug, Clone, Copy, PartialEq, Eq)]
pub enum CredentialError {
    /// The key is not 32 bytes.
    BadKey,
    EncryptFailed,
    BadIv,
    BadTag,
    BadCiphertext,
    DecryptFailed,
    NotUtf8,
}

impl CredentialError {
    /// The message shown for the error.
    pub fn message(&self) -> (r: String)
        ensures
            r@ == match self {
                CredentialError::BadKey => "Failed to initialize AES-256-GCM"@,
                CredentialError::EncryptFailed => "Failed to encrypt credentials"@,
                CredentialError::BadIv => "Failed to decode IV"@,
                CredentialError::BadTag => "Failed to decode tag"@,
                CredentialError::BadCiphertext => "Failed to decode ciphertext"@,
                CredentialError::DecryptFailed => "Failed to decrypt credentials"@,
                CredentialError::NotUtf8 => "Decrypted credentials were not valid UTF-8"@,
            },
    {
        match self {
            CredentialError::BadKey => owned("Failed to initialize AES-256-GCM"),
            CredentialError::EncryptFailed => owned("Failed to encrypt credentials"),
            CredentialError::BadIv => owned("Failed to decode IV"),
            CredentialError::BadTag => owned("Failed to decode tag"),
            CredentialError::BadCiphertext => owned("Failed to decode ciphertext"),
            CredentialError::DecryptFailed => owned("Failed to decrypt credentials"),
            CredentialError::NotUtf8 => owned("Decrypted credentials were not valid UTF-8"),
        }
    }
}

/// The standard base64 text of `b`.
pub uninterp spec fn base64_text_of(b: Seq<u8>) -> Seq<char>;

/// What standard base64 decoding gives for `s`.
pub uninterp spec fn base64_bytes_of(s: Seq<char>) -> Option<Seq<u8>>;

/// AES-256-GCM sealing of `plaintext` under `key` and `nonce`: the
/// ciphertext followed by the 16-byte tag.
pub uninterp spec fn sealed_of(key: Seq<u8>, nonce: Seq<u8>, plaintext: Seq<u8>) -> Option<Seq<u8>>;

/// AES-256-GCM opening of `sealed` (ciphertext then tag) under `key` and
/// `nonce`; nothing when the tag does not verify.
pub uninterp spec fn opened_of(key: Seq<u8>, nonce: Seq<u8>, sealed: Seq<u8>) -> Option<Seq<u8>>;


/// A character of the standard base64 alphabet, or the `=` padding.
pub open spec fn is_base64_char(c: char) -> bool {
    ('A' <= c && c <= 'Z') || ('a' <= c && c <= 'z') || ('0' <= c && c <= '9') || c == '+' || c
        == '/' || c == '='
}

/// Runs `base64::engine::general_purpose::STANDARD.encode`. Besides naming
/// the text, the contract states what the crate's documentation promises of
/// the engine: the text is written in the standard alphabet with `=`
/// padding, and decoding it gives the bytes back.
#[verifier::external_body]
fn base64_encode(b: &[u8]) -> (r: String)
    ensures
        r@ == base64_text_of(b@),
        base64_bytes_of(r@) == Some(b@),
        forall|i: int| 0 <= i < r@.len() ==> is_base64_char(#[trigger] r@[i]),
{
    base64::engine::general_purpose::STANDARD.encode(b)
}

/// Runs `STANDARD.decode`. The result is named.
#[verifier::external_body]
fn base64_decode(s: &str) -> (r: Option<Vec<u8>>)
    ensures
        match r {
            Some(b) => base64_bytes_of(s@) == Some(b@),
            None => base64_bytes_of(s@) is None,
        },
{
    base64::engine::general_purpose::STANDARD.decode(s).ok()
}

/// Text in the base64 alphabet has no whitespace to trim.
proof fn lemma_base64_text_trimmed(t: Seq<char>)
    requires
        forall|i: int| 0 <= i < t.len() ==> is_base64_char(#[trigger] t[i]),
    ensures
        trim(t) == t,
{
    if t.len() > 0 {
        assert(is_base64_char(t[0]));
        assert(is_base64_char(t.last()));
        assert(trim_start(t) == t);
    }
}

/// The encryption key that the key file's text holds: the standard base64
/// decoding of the text with surrounding whitespace trimmed, or nothing when
/// it does not decode.
pub fn key_from_text(text: &str) -> (r: Option<Vec<u8>>)
    ensures
        match r {
            Some(k) => base64_bytes_of(trim(text@)) == Some(k@),
            None => base64_bytes_of(trim(text@)) is None,
        },
{
    let t = trimmed(text);
    base64_decode(t.as_str())
}

/// The key file's text for `key`: its standard base64. Read back with
/// `key_from_text`, it gives the key again.
pub fn key_text(key: &[u8]) -> (r: String)
    ensures
        r@ == base64_text_of(key@),
        base64_bytes_of(trim(r@)) == Some(key@),
{
    let r = base64_encode(key);
    proof {
        lemma_base64_text_trimmed(r@);
    }
    r
}

/// A fresh 32-byte encryption key from the operating system's random
/// source.
pub fn new_key() -> (k: Vec<u8>)
    ensures
        k@.len() == 32,
{
    let mut a = [0u8; 32];
    crate::random::fill_random(&mut a);
    let mut k: Vec<u8> = Vec::new();
    let mut i: usize = 0;
    while i < 32
        invariant
            i <= 32,
            a@.len() == 32,
            k@.len() == i,
        decreases 32 - i,
    {
        k.push(a[i]);
        i += 1;
    }
    k
}

/// Runs `Aes256Gcm::new_from_slice(key)` and `encrypt` with a 12-byte
/// nonce. Besides naming the result, the contract states what the AEAD
/// documentation promises: the output is the ciphertext (as long as the
/// plaintext) followed by the 16-byte tag, and opening it under the same key
/// and nonce gives the plaintext back. As the crate's source shows, sealing
/// fails only for a plaintext longer than `P_MAX` (2^36 bytes).
#[verifier::external_body]
fn aes_gcm_seal(key: &[u8], nonce: &[u8], plaintext: &[u8]) -> (r: Option<Vec<u8>>)
    requires
        key@.len() == 32,
        nonce@.len() == 12,
    ensures
        match r {
            Some(c) => sealed_of(key@, nonce@, plaintext@) == Some(c@) && c@.len() == plaintext@.len() + 16
                && opened_of(key@, nonce@, c@) == Some(plaintext@),
            None => sealed_of(key@, nonce@, plaintext@) is None,
        },
        r is Some <==> plaintext@.len() <= 0x10_0000_0000,
{
    let cipher = aes_gcm::Aes256Gcm::new_from_slice(key).ok()?;
    cipher.encrypt(aes_gcm::Nonce::from_slice(nonce), plaintext).ok()
}

/// Runs `Aes256Gcm::new_from_slice(key)` and `decrypt` with a 12-byte
/// nonce. The result is named.
#[verifier::external_body]
fn aes_gcm_open(key: &[u8], nonce: &[u8], sealed: &[u8]) -> (r: Option<Vec<u8>>)
    requires
        key@.len() == 32,
        nonce@.len() == 12,
    ensures
        match r {
            Some(p) => opened_of(key@, nonce@, sealed@) == Some(p@),
            None => opened_of(key@, nonce@, sealed@) is None,
        },
{
    let cipher = aes_gcm::Aes256Gcm::new_from_slice(key).ok()?;
    cipher.decrypt(aes_gcm::Nonce::from_slice(nonce), sealed).ok()
}

/// Runs `String::from_utf8`, which (as its documentation says) accepts
/// exactly the valid UTF-8 byte sequences and keeps the bytes as they are.
#[verifier::external_body]
fn utf8_string(b: Vec<u8>) -> (r: Option<String>)
    ensures
        match r {
            Some(s) => valid_utf8(b@) && s@ == decode_utf8(b@),
            None => !valid_utf8(b@),
        },
{
    String::from_utf8(b).ok()
}

/// The bytes a stored payload opens to under `key`: the three fields
/// decoded, the tag put back after the ciphertext, and the whole opened
/// under the 12-byte nonce.
pub open spec fn payload_bytes(p: EncryptedPayload, key: Seq<u8>) -> Result<Seq<u8>, CredentialError> {
    if key.len() != 32 {
        Err(CredentialError::BadKey)
    } else {
        match base64_bytes_of(p.iv@) {
            None => Err(CredentialError::BadIv),
            Some(iv) => match base64_bytes_of(p.tag@) {
                None => Err(CredentialError::BadTag),
                Some(tag) => match base64_bytes_of(p.ciphertext@) {
                    None => Err(CredentialError::BadCiphertext),
                    Some(ct) => if iv.len() != 12 {
                        Err(CredentialError::BadIv)
                    } else {
                        match opened_of(key, iv, ct + tag) {
                            None => Err(CredentialError::DecryptFailed),
                            Some(b) => Ok(b),
                        }
                    },
                },
            },
        }
    }
}

/// The credentials text a stored payload holds.
pub open spec fn payload_text(p: EncryptedPayload, key: Seq<u8>) -> Result<Seq<char>, CredentialError> {
    match payload_bytes(p, key) {
        Err(e) => Err(e),
        Ok(b) => if valid_utf8(b) {
            Ok(decode_utf8(b))
        } else {
            Err(CredentialError::NotUtf8)
        },
    }
}

fn open_bytes(payload: &EncryptedPayload, key: &[u8]) -> (r: Result<Vec<u8>, CredentialError>)
    ensures
        match (r, payload_bytes(*payload, key@)) {
            (Ok(b), Ok(c)) => b@ == c,
            (Err(e), Err(f)) => e == f,
            _ => false,
        },
{
    if key.len() != 32 {
        return Err(CredentialError::BadKey);
    }
    let iv = match base64_decode(payload.iv.as_str()) {
        Some(b) => b,
        None => {
            return Err(CredentialError::BadIv);
        },
    };
    let tag = match base64_decode(payload.tag.as_str()) {
        Some(b) => b,
        None => {
            return Err(CredentialError::BadTag);
        },
    };
    let ciphertext = match base64_decode(payload.ciphertext.as_str()) {
        Some(b) => b,
        None => {
            return Err(CredentialError::BadCiphertext);
        },
    };
    if iv.len() != 12 {
        return Err(CredentialError::BadIv);
    }
    let mut combined = ciphertext;
    let mut t = tag;
    let ghost (c0, t0) = (combined@, t@);
    combined.append(&mut t);
    assert(combined@ == c0 + t0);
    match aes_gcm_open(key, iv.as_slice(), combined.as_slice()) {
        Some(p) => Ok(p),
        None => Err(CredentialError::DecryptFailed),
    }
}

/// A payload whose bytes open to the UTF-8 encoding of a text opens to that
/// text: what `encrypt_string` seals, `decrypt_string` gives back.
pub proof fn law_sealed_text_opens(p: EncryptedPayload, key: Seq<u8>, text: Seq<char>)
    requires
        payload_bytes(p, key) == Ok::<Seq<u8>, CredentialError>(encode_utf8(text)),
    ensures
        payload_text(p, key) == Ok::<Seq<char>, CredentialError>(text),
{
    encode_utf8_valid_utf8(text);
    encode_utf8_decode_utf8(text);
}

/// Opens a stored payload to the credentials text.
pub fn decrypt_string(payload: &EncryptedPayload, key: &[u8]) -> (r: Result<String, CredentialError>)
    ensures
        match (r, payload_text(*payload, key@)) {
            (Ok(s), Ok(t)) => s@ == t,
            (Err(e), Err(f)) => e == f,
            _ => false,
        },
{
    match open_bytes(payload, key) {
        Err(e) => Err(e),
        Ok(b) => match utf8_string(b) {
            Some(s) => Ok(s),
            None => Err(CredentialError::NotUtf8),
        },
    }
}

/// Seals `plaintext` under `key` with a fresh random nonce. It fails only for
/// a key that is not 32 bytes, or a plaintext over 2^36 bytes; a sealed
/// payload opens, under the same key, to exactly the plaintext's bytes.
pub fn encrypt_string(plaintext: &str, key: &[u8]) -> (r: Result<EncryptedPayload, CredentialError>)
    ensures
        (r == Err::<EncryptedPayload, CredentialError>(CredentialError::BadKey)) <==> key@.len() != 32,
        key@.len() == 32 ==> (r is Ok <==> plaintext.spec_bytes().len() <= 0x10_0000_0000),
        key@.len() == 32 && r is Err ==> r == Err::<EncryptedPayload, CredentialError>(
            CredentialError::EncryptFailed,
        ),
        r matches Ok(p) ==> payload_bytes(p, key@) == Ok::<Seq<u8>, CredentialError>(plaintext.spec_bytes()),
        r matches Ok(p) ==> payload_text(p, key@) == Ok::<Seq<char>, CredentialError>(plaintext@),
{
    if key.len() != 32 {
        return Err(CredentialError::BadKey);
    }
    let mut iv = [0u8; 12];
    crate::random::fill_random(&mut iv);
    let bytes = plaintext.as_bytes();
    let sealed = match aes_gcm_seal(key, &iv, bytes) {
        Some(c) => c,
        None => {
            return Err(CredentialError::EncryptFailed);
        },
    };
    let split = sealed.len() - 16;
    let mut ct: Vec<u8> = Vec::new();
    let mut i: usize = 0;
    while i < split
        invariant
            i <= split <= sealed@.len(),
            ct@ == sealed@.take(i as int),
        decreases split - i,
    {
        ct.push(sealed[i]);
        i += 1;
        assert(ct@ =~= sealed@.take(i as int));
    }
    let mut tag: Vec<u8> = Vec::new();
    let mut j: usize = split;
    while j < sealed.len()
        invariant
            split <= j <= sealed@.len(),
            tag@ == sealed@.subrange(split as int, j as int),
        decreases sealed@.len() - j,
    {
        tag.push(sealed[j]);
        j += 1;
        assert(tag@ =~= sealed@.subrange(split as int, j as int));
    }
    assert(ct@ + tag@ =~= sealed@);
    let iv_text = base64_encode(&iv);
    let tag_text = base64_encode(tag.as_slice());
    let ct_text = base64_encode(ct.as_slice());
    let payload = EncryptedPayload { iv: iv_text, tag: tag_text, ciphertext: ct_text };
    proof {
        law_sealed_text_opens(payload, key@, plaintext@);
    }
    Ok(payload)
}

} // verus!
