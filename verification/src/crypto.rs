//! Envelope encryption for user media.
//!
//! Key hierarchy:
//!   password → KEK (Argon2id) → wraps the master key (AES-256-GCM) → per-file DEK (HKDF).
//! The DEK is sent to the storage service as `X-Encryption-Key`.
use vstd::prelude::*;
use vstd::utf8::encode_utf8;

use aes_gcm::aead::Aead;
use aes_gcm::{Aes256Gcm, KeyInit, Nonce};
use base64::Engine;
use rand::RngCore;

use crate::hasher::{all_lower_hex, lemma_hex_lower_text};
use crate::text::{hex_encode, hex_encode_lower, push_decimal, push_str, string_from_chars};

verus! {

broadcast use vstd::string::group_string_axioms;

// ───────────────────────── outside types ─────────────────────────

#[verifier::external_type_specification]
#[verifier::external_body]
pub struct ExAeadError(aes_gcm::Error);

#[verifier::external_type_specification]
#[verifier::external_body]
pub struct ExArgon2Error(argon2::Error);

#[verifier::external_type_specification]
#[verifier::external_body]
pub struct ExBase64DecodeError(base64::DecodeError);

#[verifier::external_type_specification]
#[verifier::external_body]
pub struct ExBs58DecodeError(bs58::decode::Error);

// ───────────────────────── names for outside results ─────────────────────────

/// AES-256-GCM ciphertext (with its 16-byte tag appended) of `plaintext` under `key` and `nonce`,
/// with no associated data.
pub uninterp spec fn aes256gcm_sealed(key: Seq<u8>, nonce: Seq<u8>, plaintext: Seq<u8>) -> Seq<u8>;

/// AES-256-GCM decryption of `ciphertext` (tag appended) under `key` and `nonce`;
/// `None` when authentication fails.
pub uninterp spec fn aes256gcm_opened(key: Seq<u8>, nonce: Seq<u8>, ciphertext: Seq<u8>) -> Option<Seq<u8>>;

/// Argon2id (version 0x13) output of 32 bytes for a password, salt and cost parameters.
pub uninterp spec fn argon2id_key(password: Seq<u8>, salt: Seq<u8>, m_cost: u32, t_cost: u32, p_cost: u32) -> Seq<u8>;

/// HKDF-SHA256 output of 32 bytes for an optional salt, input keying material and info.
pub uninterp spec fn hkdf_sha256_okm(salt: Option<Seq<u8>>, ikm: Seq<u8>, info: Seq<u8>) -> Seq<u8>;

/// The standard Base64 alphabet: `A`–`Z`, `a`–`z`, `0`–`9`, `+`, `/` for the values 0 to 63.
pub open spec fn base64_digit(v: int) -> char {
    if v < 26 {
        (65 + v) as char
    } else if v < 52 {
        (97 + (v - 26)) as char
    } else if v < 62 {
        (48 + (v - 52)) as char
    } else if v == 62 {
        '+'
    } else {
        '/'
    }
}

/// Standard-alphabet Base64 text of `data`, without `=` padding: each three bytes give four
/// digits of six bits each, most significant first; a final one or two bytes give two or three
/// digits, the last one padded with zero bits.
pub open spec fn base64_text(data: Seq<u8>) -> Seq<char>
    decreases data.len(),
{
    let a = data[0] as int;
    let b = data[1] as int;
    let c = data[2] as int;
    if data.len() == 0 {
        Seq::empty()
    } else if data.len() == 1 {
        seq![base64_digit(a / 4), base64_digit((a % 4) * 16)]
    } else if data.len() == 2 {
        seq![base64_digit(a / 4), base64_digit((a % 4) * 16 + b / 16), base64_digit((b % 16) * 4)]
    } else {
        seq![
            base64_digit(a / 4),
            base64_digit((a % 4) * 16 + b / 16),
            base64_digit((b % 16) * 4 + c / 64),
            base64_digit(c % 64),
        ] + base64_text(data.skip(3))
    }
}

/// `data`'s standard Base64 text with `=` padding to a multiple of four characters.
pub open spec fn base64_padded_text(data: Seq<u8>) -> Seq<char> {
    base64_text(data) + Seq::new(((3 - data.len() % 3) % 3) as nat, |i: int| '=')
}

/// A digit of the standard Base64 alphabet.
pub open spec fn is_base64_char(c: char) -> bool {
    ('A' <= c && c <= 'Z') || ('a' <= c && c <= 'z') || ('0' <= c && c <= '9') || c == '+' || c == '/'
}

/// Text made of Base64 digits and `=` alone.
pub open spec fn base64_chars_only(s: Seq<char>) -> bool {
    forall|i: int| 0 <= i < s.len() ==> is_base64_char(#[trigger] s[i]) || s[i] == '='
}

/// Base64 text, padded or not, holds only Base64 digits and `=`.
pub proof fn lemma_base64_text_chars(data: Seq<u8>)
    ensures
        forall|i: int| 0 <= i < base64_text(data).len() ==> is_base64_char(#[trigger] base64_text(data)[i]),
        base64_chars_only(base64_text(data)),
        base64_chars_only(base64_padded_text(data)),
    decreases data.len(),
{
    if data.len() >= 3 {
        lemma_base64_text_chars(data.skip(3));
        let a = data[0] as int;
        let b = data[1] as int;
        let c = data[2] as int;
        let head = seq![
            base64_digit(a / 4),
            base64_digit((a % 4) * 16 + b / 16),
            base64_digit((b % 16) * 4 + c / 64),
            base64_digit(c % 64),
        ];
        let t = base64_text(data);
        assert(t == head + base64_text(data.skip(3)));
        assert forall|i: int| 0 <= i < t.len() implies is_base64_char(#[trigger] t[i]) by {
            if i >= 4 {
                assert(t[i] == base64_text(data.skip(3))[i - 4]);
            }
        }
    }
    let t = base64_text(data);
    let p = base64_padded_text(data);
    assert forall|i: int| 0 <= i < p.len() implies is_base64_char(#[trigger] p[i]) || p[i] == '=' by {
        if i < t.len() {
            assert(p[i] == t[i]);
        }
    }
}

/// Bytes that unpadded standard-alphabet Base64 `text` decodes to; `None` when it is not
/// valid unpadded Base64.
pub uninterp spec fn base64_bytes(text: Seq<char>) -> Option<Seq<u8>>;

/// Bytes that padded standard-alphabet Base64 `text` decodes to; `None` when it is not valid
/// padded Base64.
pub uninterp spec fn base64_padded_bytes(text: Seq<char>) -> Option<Seq<u8>>;

/// What Base64 text reads as: unpadded text as such, otherwise padded text.
pub open spec fn base64_decoded(text: Seq<char>) -> Option<Seq<u8>> {
    match base64_bytes(text) {
        Some(d) => Some(d),
        None => base64_padded_bytes(text),
    }
}

/// Unpadded Base64 text is four characters per three bytes, rounded up.
pub proof fn lemma_base64_text_len(data: Seq<u8>)
    ensures
        base64_text(data).len() == base64_text_len(data.len()),
    decreases data.len(),
{
    if data.len() >= 3 {
        lemma_base64_text_len(data.skip(3));
    }
}

/// Length of unpadded Base64 text for `n` bytes: four characters per three bytes, rounded up.
pub open spec fn base64_text_len(n: nat) -> nat {
    (4 * n + 2) / 3
}

/// Base58 (Bitcoin alphabet) text of `data`.
pub uninterp spec fn base58_text(data: Seq<u8>) -> Seq<char>;

/// Bytes that Base58 `text` decodes to; `None` when it is not valid Base58.
pub uninterp spec fn base58_bytes(text: Seq<char>) -> Option<Seq<u8>>;

// ───────────────────────── trusted items ─────────────────────────

/// `Aes256Gcm::encrypt` with the key and a 12-byte nonce. The crate refuses only plaintexts
/// longer than 2^36 bytes; the ciphertext is the plaintext's length plus a 16-byte tag.
#[verifier::external_body]
fn aes256gcm_encrypt(key: &[u8; 32], nonce: &[u8; 12], plaintext: &[u8]) -> (r: Result<
    Vec<u8>,
    aes_gcm::Error,
>)
    ensures
        plaintext@.len() <= 0x10_0000_0000 ==> r is Ok,
        r matches Ok(c) ==> c@ == aes256gcm_sealed(key@, nonce@, plaintext@) && c@.len()
            == plaintext@.len() + 16,
{
    let cipher = Aes256Gcm::new(key.into());
    cipher.encrypt(Nonce::from_slice(nonce), plaintext)
}

/// `Aes256Gcm::decrypt` with the key and a 12-byte nonce. Decrypting what `encrypt` produced
/// for a 32-byte plaintext under the same key and nonce gives that plaintext back.
#[verifier::external_body]
fn aes256gcm_decrypt(key: &[u8; 32], nonce: &[u8; 12], ciphertext: &[u8]) -> (r: Result<
    Vec<u8>,
    aes_gcm::Error,
>)
    ensures
        r matches Ok(p) ==> aes256gcm_opened(key@, nonce@, ciphertext@) == Some(p@),
        r is Err ==> aes256gcm_opened(key@, nonce@, ciphertext@) is None,
        r matches Ok(q) ==> forall|p: Seq<u8>|
            p.len() == 32 && ciphertext@ == #[trigger] aes256gcm_sealed(key@, nonce@, p) ==> q@ == p,
        (exists|p: Seq<u8>| p.len() == 32 && ciphertext@ == #[trigger] aes256gcm_sealed(key@, nonce@, p)) ==> r is Ok,
{
    let cipher = Aes256Gcm::new(key.into());
    cipher.decrypt(Nonce::from_slice(nonce), ciphertext)
}

/// Argon2id, version 0x13, 32-byte output (`Params::new` then `hash_password_into`).
/// It succeeds whenever the cost parameters are valid and the password and salt lengths are
/// within the crate's limits.
#[verifier::external_body]
fn argon2id_hash(password: &[u8], salt: &[u8], m_cost: u32, t_cost: u32, p_cost: u32) -> (r:
    Result<[u8; 32], argon2::Error>)
    requires
        p_cost <= 0xFF_FFFF,
    ensures
        (8 <= m_cost && 8 * p_cost <= m_cost && 1 <= t_cost && 1 <= p_cost && password@.len()
            <= 0xFFFF_FFFF && 8 <= salt@.len() <= 0xFFFF_FFFF) ==> r is Ok,
        r matches Ok(k) ==> k@ == argon2id_key(password@, salt@, m_cost, t_cost, p_cost),
{
    let params = argon2::Params::new(m_cost, t_cost, p_cost, Some(32))?;
    let hasher = argon2::Argon2::new(argon2::Algorithm::Argon2id, argon2::Version::V0x13, params);
    let mut out = [0u8; 32];
    hasher.hash_password_into(password, salt, &mut out)?;
    Ok(out)
}

/// HKDF-SHA256 (`Hkdf::new` then `expand`) into 32 bytes, which never exceeds the output limit.
#[verifier::external_body]
fn hkdf_sha256(salt: Option<&[u8]>, ikm: &[u8], info: &[u8]) -> (r: [u8; 32])
    ensures
        r@ == hkdf_sha256_okm(
            match salt {
                Some(s) => Some(s@),
                None => None,
            },
            ikm@,
            info@,
        ),
{
    let hk = hkdf::Hkdf::<sha2::Sha256>::new(salt, ikm);
    let mut okm = [0u8; 32];
    hk.expand(info, &mut okm).expect("32 bytes is a valid HKDF-SHA256 output length");
    okm
}

/// `base64::engine::general_purpose::STANDARD_NO_PAD.encode`: RFC 4648 Base64 with the
/// standard alphabet and no padding. The crate panics only when the output length overflows
/// `usize`.
#[verifier::external_body]
fn base64_standard_encode(data: &[u8]) -> (r: String)
    requires
        4 * data@.len() <= usize::MAX,
    ensures
        r@ == base64_text(data@),
{
    base64::engine::general_purpose::STANDARD_NO_PAD.encode(data)
}

/// `base64::engine::general_purpose::STANDARD_NO_PAD.decode`. Decoding what `encode` produced
/// gives the original bytes back; the engine decodes canonically (no padding, zero trailing
/// bits), so only the unpadded text of the bytes it returns decodes to them.
#[verifier::external_body]
fn base64_standard_decode(text: &str) -> (r: Result<Vec<u8>, base64::DecodeError>)
    ensures
        r matches Ok(d) ==> base64_bytes(text@) == Some(d@),
        r is Err ==> base64_bytes(text@) is None,
        r is Ok || forall|d: Seq<u8>| text@ != #[trigger] base64_text(d),
        r matches Ok(e) ==> forall|d: Seq<u8>| text@ == #[trigger] base64_text(d) ==> e@ == d,
        r matches Ok(d) ==> text@ == base64_text(d@),
{
    base64::engine::general_purpose::STANDARD_NO_PAD.decode(text)
}

/// `base64::engine::general_purpose::STANDARD.decode`: Base64 with `=` padding required. The
/// engine decodes canonically (padding and trailing bits as `encode` writes them), so only the
/// padded text of the bytes it returns decodes to them.
#[verifier::external_body]
fn base64_padded_decode(text: &str) -> (r: Result<Vec<u8>, base64::DecodeError>)
    ensures
        match r {
            Ok(d) => base64_padded_bytes(text@) == Some(d@),
            Err(_) => base64_padded_bytes(text@) is None,
        },
        r matches Ok(d) ==> text@ == base64_padded_text(d@),
{
    base64::engine::general_purpose::STANDARD.decode(text)
}

/// `bs58::encode(..).into_string()`.
#[verifier::external_body]
fn bs58_encode(data: &[u8]) -> (r: String)
    ensures
        r@ == base58_text(data@),
{
    bs58::encode(data).into_string()
}

/// `bs58::decode(..).into_vec()`. Decoding what `encode` produced gives the original bytes back.
#[verifier::external_body]
fn bs58_decode(text: &str) -> (r: Result<Vec<u8>, bs58::decode::Error>)
    ensures
        r matches Ok(d) ==> base58_bytes(text@) == Some(d@),
        r is Err ==> base58_bytes(text@) is None,
        r is Ok || forall|d: Seq<u8>| text@ != #[trigger] base58_text(d),
        r matches Ok(e) ==> forall|d: Seq<u8>| text@ == #[trigger] base58_text(d) ==> e@ == d,
{
    bs58::decode(text).into_vec()
}

/// Sixteen bytes from the thread-local random generator (`rand::rng().fill_bytes`).
#[verifier::external_body]
fn random_16() -> [u8; 16] {
    let mut b = [0u8; 16];
    rand::rng().fill_bytes(&mut b);
    b
}

/// Thirty-two bytes from the thread-local random generator (`rand::rng().fill_bytes`).
#[verifier::external_body]
fn random_32() -> [u8; 32] {
    let mut b = [0u8; 32];
    rand::rng().fill_bytes(&mut b);
    b
}

/// Twelve bytes from the thread-local random generator (`rand::rng().fill_bytes`).
#[verifier::external_body]
pub(crate) fn random_12() -> [u8; 12] {
    let mut b = [0u8; 12];
    rand::rng().fill_bytes(&mut b);
    b
}

/// The message of an outside error (`ToString`).
#[verifier::external_body]
fn aead_error_text(e: &aes_gcm::Error) -> String {
    e.to_string()
}

/// The message of an outside error (`ToString`).
#[verifier::external_body]
fn argon2_error_text(e: &argon2::Error) -> String {
    e.to_string()
}

/// The message of an outside error (`ToString`).
#[verifier::external_body]
fn base64_error_text(e: &base64::DecodeError) -> String {
    e.to_string()
}

/// The message of an outside error (`ToString`).
#[verifier::external_body]
fn bs58_error_text(e: &bs58::decode::Error) -> String {
    e.to_string()
}

// ───────────────────────── errors ─────────────────────────

/// Why a cryptographic operation failed.
#[derive(Debug)]
pub enum CryptoError {
    /// Argon2 refused its input; carries the crate's message.
    Argon2(String),
    /// AES-GCM refused to encrypt; carries the crate's message.
    Encrypt(String),
    /// The wrapped key is shorter than nonce, key and tag together.
    WrappedKeyTooShort(usize),
    /// Authentication failed: wrong password or corrupted key.
    UnwrapRejected,
    /// The unwrapped key does not have 32 bytes.
    UnwrappedKeyLength(usize),
    /// The text is not Base64; carries the crate's message.
    Base64(String),
    /// The recovery key is not Base58; carries the crate's message.
    RecoveryKeyFormat(String),
    /// The recovery key does not decode to 32 bytes.
    RecoveryKeyLength(usize),
}

/// The text a crypto error displays.
pub open spec fn crypto_message(e: CryptoError) -> Seq<char> {
    match e {
        CryptoError::Argon2(m) => "Argon2 hash error: "@ + m@,
        CryptoError::Encrypt(m) => "AES-GCM encrypt error: "@ + m@,
        CryptoError::WrappedKeyTooShort(n) => "Wrapped key too short: "@ + crate::text::decimal(
            n as nat,
        ) + " bytes"@,
        CryptoError::UnwrapRejected => "Failed to unwrap master key — wrong password or corrupted key"@,
        CryptoError::UnwrappedKeyLength(n) => "Unwrapped key has wrong length: "@
            + crate::text::decimal(n as nat),
        CryptoError::Base64(m) => "Base64 decode error: "@ + m@,
        CryptoError::RecoveryKeyFormat(m) => "Invalid recovery key format: "@ + m@,
        CryptoError::RecoveryKeyLength(n) => "Recovery key has wrong length: "@
            + crate::text::decimal(n as nat) + " bytes (expected 32)"@,
    }
}

impl CryptoError {
    /// The text this error displays.
    pub fn message(&self) -> (s: String)
        ensures
            s@ == crypto_message(*self),
    {
        let mut v: Vec<char> = Vec::new();
        match self {
            CryptoError::Argon2(m) => {
                push_str(&mut v, "Argon2 hash error: ");
                push_str(&mut v, m.as_str());
            },
            CryptoError::Encrypt(m) => {
                push_str(&mut v, "AES-GCM encrypt error: ");
                push_str(&mut v, m.as_str());
            },
            CryptoError::WrappedKeyTooShort(n) => {
                push_str(&mut v, "Wrapped key too short: ");
                push_decimal(&mut v, *n as u64);
                push_str(&mut v, " bytes");
            },
            CryptoError::UnwrapRejected => {
                push_str(&mut v, "Failed to unwrap master key — wrong password or corrupted key");
            },
            CryptoError::UnwrappedKeyLength(n) => {
                push_str(&mut v, "Unwrapped key has wrong length: ");
                push_decimal(&mut v, *n as u64);
            },
            CryptoError::Base64(m) => {
                push_str(&mut v, "Base64 decode error: ");
                push_str(&mut v, m.as_str());
            },
            CryptoError::RecoveryKeyFormat(m) => {
                push_str(&mut v, "Invalid recovery key format: ");
                push_str(&mut v, m.as_str());
            },
            CryptoError::RecoveryKeyLength(n) => {
                push_str(&mut v, "Recovery key has wrong length: ");
                push_decimal(&mut v, *n as u64);
                push_str(&mut v, " bytes (expected 32)");
            },
        }
        proof {
            assert(v@ =~= crypto_message(*self));
        }
        string_from_chars(&v)
    }
}

// ───────────────────────── specifications ─────────────────────────

/// The Argon2 parameters of the KEK: 64 MiB of memory, 3 passes, 4 lanes.
pub open spec fn kek_of(password: Seq<char>, salt: Seq<u8>) -> Seq<u8> {
    argon2id_key(encode_utf8(password), salt, 65536, 3, 4)
}

/// `w` is the master key `mk` wrapped under `kek`: a 12-byte nonce followed by the
/// AES-256-GCM ciphertext of `mk` under that nonce.
pub open spec fn wrapped_by(w: Seq<u8>, kek: Seq<u8>, mk: Seq<u8>) -> bool {
    &&& w.len() == 60
    &&& w.subrange(12, 60) == aes256gcm_sealed(kek, w.subrange(0, 12), mk)
}

/// The key that `w` unwraps to under `kek`, if any.
pub open spec fn unwrapped_key(w: Seq<u8>, kek: Seq<u8>) -> Option<Seq<u8>> {
    if w.len() < 60 {
        None
    } else {
        match aes256gcm_opened(kek, w.subrange(0, 12), w.subrange(12, w.len() as int)) {
            Some(p) => if p.len() == 32 {
                Some(p)
            } else {
                None
            },
            None => None,
        }
    }
}

/// The key that seals master keys for a user in tokens and cookies.
pub open spec fn seal_key_of(jwt_secret: Seq<char>, user_id: Seq<char>) -> Seq<u8> {
    hkdf_sha256_okm(Some(encode_utf8(user_id)), encode_utf8(jwt_secret), encode_utf8("mycloud-seal-v1"@))
}

/// `sealed` carries the master key `mk` for `user_id`, sealed with `jwt_secret`.
pub open spec fn sealed_for(sealed: Seq<char>, jwt_secret: Seq<char>, user_id: Seq<char>, mk: Seq<u8>) -> bool {
    exists|w: Seq<u8>| #[trigger] base64_text(w) == sealed && wrapped_by(w, seal_key_of(jwt_secret, user_id), mk)
}

/// The master key that `sealed` opens to, if any.
pub open spec fn unsealed_key(sealed: Seq<char>, jwt_secret: Seq<char>, user_id: Seq<char>) -> Option<Seq<u8>> {
    match base64_decoded(sealed) {
        Some(w) => unwrapped_key(w, seal_key_of(jwt_secret, user_id)),
        None => None,
    }
}

/// The hex-encoded DEK of a file.
pub open spec fn dek_of(master_key: Seq<u8>, file_id: Seq<char>) -> Seq<char> {
    hex_encode_lower(hkdf_sha256_okm(None, master_key, encode_utf8("mycloud-dek-v1:"@ + file_id)))
}

// ───────────────────────── operations ─────────────────────────

/// Generate a cryptographically secure random salt (16 bytes).
pub fn generate_salt() -> [u8; 16] {
    random_16()
}

/// Generate a random 256-bit master key.
pub fn generate_master_key() -> [u8; 32] {
    random_32()
}

/// Derive a Key Encryption Key (KEK) from the user's password using Argon2id
/// (m = 65536 KiB, t = 3 iterations, p = 4 lanes, 32-byte output).
pub fn derive_kek(password: &str, salt: &[u8]) -> (r: Result<[u8; 32], CryptoError>)
    ensures
        (encode_utf8(password@).len() <= 0xFFFF_FFFF && 8 <= salt@.len() <= 0xFFFF_FFFF) ==> r is Ok,
        r matches Ok(k) ==> k@ == kek_of(password@, salt@),
        r matches Err(e) ==> e is Argon2,
{
    match argon2id_hash(password.as_bytes(), salt, 65536, 3, 4) {
        Ok(k) => Ok(k),
        Err(e) => Err(CryptoError::Argon2(argon2_error_text(&e))),
    }
}

/// Wrap (encrypt) the master key with the KEK using AES-256-GCM.
/// Returns nonce (12 bytes) ‖ ciphertext and tag (48 bytes): 60 bytes.
pub fn wrap_master_key(master_key: &[u8; 32], kek: &[u8; 32]) -> (r: Result<Vec<u8>, CryptoError>)
    ensures
        r matches Ok(w) && wrapped_by(w@, kek@, master_key@),
{
    let nonce = random_12();
    match aes256gcm_encrypt(kek, &nonce, master_key.as_slice()) {
        Ok(ciphertext) => {
            let mut result: Vec<u8> = Vec::new();
            for i in 0..12
                invariant
                    result@ == nonce@.take(i as int),
            {
                result.push(nonce[i]);
                assert(nonce@.take(i + 1) =~= nonce@.take(i as int).push(nonce@[i as int]));
            }
            let ghost prefix = result@;
            for i in 0..ciphertext.len()
                invariant
                    result@ == prefix + ciphertext@.take(i as int),
            {
                result.push(ciphertext[i]);
                assert(ciphertext@.take(i + 1) =~= ciphertext@.take(i as int).push(ciphertext@[i as int]));
            }
            proof {
                assert(ciphertext@.take(ciphertext@.len() as int) =~= ciphertext@);
                assert(nonce@.take(12) =~= nonce@);
                assert(result@.subrange(0, 12) =~= nonce@);
                assert(result@.subrange(12, 60) =~= ciphertext@);
            }
            Ok(result)
        },
        Err(e) => {
            proof {
                assert(false);
            }
            Err(CryptoError::Encrypt(aead_error_text(&e)))
        },
    }
}

/// Unwrap (decrypt) the master key from its wrapped form (nonce ‖ ciphertext and tag).
pub fn unwrap_master_key(wrapped: &[u8], kek: &[u8; 32]) -> (r: Result<[u8; 32], CryptoError>)
    ensures
        r matches Ok(k) ==> unwrapped_key(wrapped@, kek@) == Some(k@),
        r is Err ==> unwrapped_key(wrapped@, kek@) is None,
        r matches Err(CryptoError::WrappedKeyTooShort(n)) ==> n == wrapped@.len() && n < 60,
        wrapped@.len() < 60 ==> r matches Err(CryptoError::WrappedKeyTooShort(_)),
        r matches Err(e) ==> (e is WrappedKeyTooShort || e is UnwrapRejected || e is UnwrappedKeyLength),
        forall|mk: Seq<u8>|
            mk.len() == 32 && #[trigger] wrapped_by(wrapped@, kek@, mk) ==> (r matches Ok(k) && k@ == mk),
{
    if wrapped.len() < 12 + 32 + 16 {
        return Err(CryptoError::WrappedKeyTooShort(wrapped.len()));
    }
    let mut nonce = [0u8; 12];
    for i in 0..12
        invariant
            wrapped@.len() >= 60,
            forall|j: int| 0 <= j < i ==> nonce@[j] == wrapped@[j],
            nonce@.len() == 12,
    {
        nonce[i] = wrapped[i];
    }
    let mut ciphertext: Vec<u8> = Vec::new();
    let mut i: usize = 12;
    while i < wrapped.len()
        invariant
            12 <= i <= wrapped@.len(),
            ciphertext@ == wrapped@.subrange(12, i as int),
        decreases wrapped.len() - i,
    {
        ciphertext.push(wrapped[i]);
        assert(wrapped@.subrange(12, i + 1) =~= wrapped@.subrange(12, i as int).push(wrapped@[i as int]));
        i = i + 1;
    }
    proof {
        assert(nonce@ =~= wrapped@.subrange(0, 12));
    }
    match aes256gcm_decrypt(kek, &nonce, ciphertext.as_slice()) {
        Err(_) => Err(CryptoError::UnwrapRejected),
        Ok(plaintext) => {
            if plaintext.len() != 32 {
                return Err(CryptoError::UnwrappedKeyLength(plaintext.len()));
            }
            let mut key = [0u8; 32];
            for j in 0..32
                invariant
                    plaintext@.len() == 32,
                    key@.len() == 32,
                    forall|m: int| 0 <= m < j ==> key@[m] == plaintext@[m],
            {
                key[j] = plaintext[j];
            }
            proof {
                assert(key@ =~= plaintext@);
            }
            Ok(key)
        },
    }
}

/// Derive the key that seals master keys in tokens, from the JWT secret and the user id.
fn derive_seal_key(jwt_secret: &str, user_id: &str) -> (k: [u8; 32])
    ensures
        k@ == seal_key_of(jwt_secret@, user_id@),
{
    hkdf_sha256(Some(user_id.as_bytes()), jwt_secret.as_bytes(), "mycloud-seal-v1".as_bytes())
}

/// Seal (encrypt) a master key for transport in a JWT or cookie, with a key derived from the
/// JWT secret and the user id. The result is Base64 text.
pub fn seal_master_key(master_key: &[u8; 32], jwt_secret: &str, user_id: &str) -> (r: Result<String, CryptoError>)
    ensures
        r matches Ok(s) && sealed_for(s@, jwt_secret@, user_id@, master_key@),
        r matches Ok(s) && s@.len() == 80,
{
    let seal_key = derive_seal_key(jwt_secret, user_id);
    let wrapped = wrap_master_key(master_key, &seal_key)?;
    let s = base64_encode(wrapped.as_slice());
    proof {
        assert(base64_text(wrapped@) == s@);
    }
    Ok(s)
}

/// Unseal a master key from its token or cookie form.
pub fn unseal_master_key(sealed: &str, jwt_secret: &str, user_id: &str) -> (r: Result<[u8; 32], CryptoError>)
    ensures
        r matches Ok(k) ==> unsealed_key(sealed@, jwt_secret@, user_id@) == Some(k@),
        r is Err ==> unsealed_key(sealed@, jwt_secret@, user_id@) is None,
        base64_decoded(sealed@) is None ==> r matches Err(CryptoError::Base64(_)),
        !base64_chars_only(sealed@) ==> r matches Err(CryptoError::Base64(_)),
        forall|mk: Seq<u8>|
            mk.len() == 32 && #[trigger] sealed_for(sealed@, jwt_secret@, user_id@, mk) ==> (r matches Ok(k) && k@ == mk),
{
    let seal_key = derive_seal_key(jwt_secret, user_id);
    let wrapped = base64_decode(sealed)?;
    let r = unwrap_master_key(wrapped.as_slice(), &seal_key);
    proof {
        assert forall|mk: Seq<u8>|
            mk.len() == 32 && #[trigger] sealed_for(sealed@, jwt_secret@, user_id@, mk) implies (r matches Ok(k) && k@ == mk) by {
            let w = choose|w: Seq<u8>| #[trigger] base64_text(w) == sealed@ && wrapped_by(w, seal_key_of(jwt_secret@, user_id@), mk);
            assert(wrapped@ == w);
            assert(wrapped_by(wrapped@, seal_key@, mk));
        }
    }
    r
}

/// The text in front of the file id in a DEK's HKDF info, `mycloud-dek-v1:`, written out.
pub open spec fn dek_info_prefix() -> Seq<char> {
    seq!['m', 'y', 'c', 'l', 'o', 'u', 'd', '-', 'd', 'e', 'k', '-', 'v', '1', ':']
}

/// A file's DEK is the lower-case hex of 32 bytes of HKDF-SHA256 with no salt, the master key
/// as input keying material, and `mycloud-dek-v1:` followed by the file id as info.
pub proof fn lemma_dek_info(mk: Seq<u8>, id: Seq<char>)
    ensures
        dek_of(mk, id) == hex_encode_lower(hkdf_sha256_okm(None, mk, encode_utf8(dek_info_prefix() + id))),
{
    reveal_strlit("mycloud-dek-v1:");
    assert("mycloud-dek-v1:"@ =~= dek_info_prefix());
}

/// Derive a per-file Data Encryption Key (DEK) from the master key and the file id, with
/// HKDF-SHA256 (no salt, info `mycloud-dek-v1:{file_id}`). The result is hex text, suitable for
/// the `X-Encryption-Key` header.
pub fn derive_dek(master_key: &[u8; 32], file_id: &str) -> (r: String)
    ensures
        r@ == dek_of(master_key@, file_id@),
        r@ == hex_encode_lower(hkdf_sha256_okm(None, master_key@, encode_utf8(dek_info_prefix() + file_id@))),
        r@.len() == 64,
        all_lower_hex(r@),
{
    proof {
        lemma_dek_info(master_key@, file_id@);
    }
    let mut info = String::from_str("mycloud-dek-v1:");
    info.append(file_id);
    let dek = hkdf_sha256(None, master_key.as_slice(), info.as_str().as_bytes());
    proof {
        lemma_hex_lower_text(dek@);
    }
    hex_encode(dek.as_slice())
}

/// Encode a recovery key from the master key (Base58).
pub fn encode_recovery_key(master_key: &[u8; 32]) -> (r: String)
    ensures
        r@ == base58_text(master_key@),
{
    bs58_encode(master_key.as_slice())
}

/// Decode a recovery key back to the master key.
pub fn decode_recovery_key(recovery_key: &str) -> (r: Result<[u8; 32], CryptoError>)
    ensures
        r matches Ok(k) ==> base58_bytes(recovery_key@) == Some(k@),
        base58_bytes(recovery_key@) is None ==> r matches Err(CryptoError::RecoveryKeyFormat(_)),
        r matches Err(CryptoError::RecoveryKeyLength(n)) ==> base58_bytes(recovery_key@) matches Some(b) && b.len() == n && n != 32,
        r matches Err(e) ==> (e is RecoveryKeyFormat || e is RecoveryKeyLength),
        base58_bytes(recovery_key@) matches Some(b) && b.len() == 32 ==> r is Ok,
        forall|mk: Seq<u8>| mk.len() == 32 && recovery_key@ == #[trigger] base58_text(mk) ==> (r matches Ok(k) && k@ == mk),
{
    let bytes = match bs58_decode(recovery_key) {
        Ok(b) => b,
        Err(e) => {
            return Err(CryptoError::RecoveryKeyFormat(bs58_error_text(&e)));
        },
    };
    if bytes.len() != 32 {
        return Err(CryptoError::RecoveryKeyLength(bytes.len()));
    }
    let mut key = [0u8; 32];
    for j in 0..32
        invariant
            bytes@.len() == 32,
            key@.len() == 32,
            forall|m: int| 0 <= m < j ==> key@[m] == bytes@[m],
    {
        key[j] = bytes[j];
    }
    proof {
        assert(key@ =~= bytes@);
    }
    Ok(key)
}

/// Base64 encode bytes (standard alphabet, no padding).
pub fn base64_encode(data: &[u8]) -> (r: String)
    requires
        4 * data@.len() <= usize::MAX,
    ensures
        r@ == base64_text(data@),
        r@.len() == base64_text_len(data@.len()),
{
    proof {
        lemma_base64_text_len(data@);
    }
    base64_standard_encode(data)
}

/// Base64 decode a string: unpadded text as this library writes it, and also padded text as
/// stored by earlier versions.
pub fn base64_decode(s: &str) -> (r: Result<Vec<u8>, CryptoError>)
    ensures
        r matches Ok(d) ==> base64_decoded(s@) == Some(d@),
        r matches Err(e) ==> base64_decoded(s@) is None && e is Base64,
        forall|d: Seq<u8>| s@ == #[trigger] base64_text(d) ==> (r matches Ok(e) && e@ == d),
        r matches Ok(d) ==> s@ == base64_text(d@) || s@ == base64_padded_text(d@),
        r is Ok ==> base64_chars_only(s@),
{
    match base64_standard_decode(s) {
        Ok(d) => {
            proof {
                lemma_base64_text_chars(d@);
            }
            Ok(d)
        },
        Err(_) => match base64_padded_decode(s) {
            Ok(d) => {
                proof {
                    lemma_base64_text_chars(d@);
                }
                Ok(d)
            },
            Err(e) => Err(CryptoError::Base64(base64_error_text(&e))),
        },
    }
}

} // verus!
