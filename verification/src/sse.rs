//! Server-side encryption of stored files with a key that the client supplies.
//!
//! The client sends a key text in `X-Encryption-Key`. The ChaCha20 key is the SHA-256 of that
//! text; a random 96-bit nonce is drawn per file. Beside the file the store keeps the nonce (hex)
//! and a verification hash (hex SHA-256 of the ChaCha20 key), so that a later download can tell a
//! wrong key from a right one before decrypting anything.
use vstd::prelude::*;
use vstd::utf8::encode_utf8;

use chacha20::cipher::{KeyIvInit, StreamCipher, StreamCipherSeek};

use crate::crypto::random_12;
use crate::errors::CloudStoreError;
use crate::hasher::{sha256, sha256_of};
use crate::path_id::FileMeta;
use crate::text::{
    chars_eq_str, chars_of, chars_start_with, find_char, first_index, hex_encode, hex_encode_lower,
    parse_u64, parse_u64_spec, push_hex_lower, push_str, starts_with, string_from_chars, sub_chars,
};

verus! {

broadcast use vstd::string::group_string_axioms;

#[verifier::external_type_specification]
#[verifier::external_body]
pub struct ExFromHexError(hex::FromHexError);

/// The byte at position `pos` of the ChaCha20 keystream (RFC 8439: 20 rounds, 96-bit nonce,
/// 32-bit block counter starting at 0) for `key` and `nonce`.
pub uninterp spec fn chacha20_keystream_byte(key: Seq<u8>, nonce: Seq<u8>, pos: int) -> u8;

/// Bytes of keystream that one key and nonce can serve: the block counter is 32 bits wide and
/// its last block is never used.
pub const KEYSTREAM_LIMIT: u64 = 0x3F_FFFF_FFC0;

/// `ChaCha20::new`, `seek(offset)`, then `apply_keystream` on a copy of `data`: each byte is
/// XORed with the keystream byte at its position in the stream. The crate panics when the data
/// would run past the end of the keystream; `requires` keeps the end within the limit.
#[verifier::external_body]
fn chacha20_apply(key: &[u8; 32], nonce: &[u8; 12], offset: u64, data: &[u8]) -> (r: Vec<u8>)
    requires
        offset + data@.len() <= KEYSTREAM_LIMIT,
    ensures
        r@.len() == data@.len(),
        forall|i: int|
            0 <= i < data@.len() ==> #[trigger] r@[i] == (data@[i] ^ chacha20_keystream_byte(
                key@,
                nonce@,
                offset + i,
            )),
{
    let mut cipher = chacha20::ChaCha20::new(&(*key).into(), &(*nonce).into());
    cipher.seek(offset);
    let mut out = data.to_vec();
    cipher.apply_keystream(&mut out);
    out
}

/// An ASCII hexadecimal digit, upper- or lower-case.
pub open spec fn is_hex_digit(c: char) -> bool {
    ('0' <= c <= '9') || ('a' <= c <= 'f') || ('A' <= c <= 'F')
}

/// The value of a hexadecimal digit.
pub open spec fn hex_digit_value(c: char) -> int {
    if '0' <= c <= '9' {
        c as u32 - '0' as u32
    } else if 'a' <= c <= 'f' {
        c as u32 - 'a' as u32 + 10
    } else {
        c as u32 - 'A' as u32 + 10
    }
}

/// Text that decodes as hex: an even number of hexadecimal digits and nothing else.
pub open spec fn hex_decodable(s: Seq<char>) -> bool {
    s.len() % 2 == 0 && forall|i: int| 0 <= i < s.len() ==> is_hex_digit(#[trigger] s[i])
}

/// The bytes that hex text stands for, one per pair of digits, high nibble first.
pub open spec fn hex_decoded(s: Seq<char>) -> Seq<u8> {
    Seq::new(s.len() / 2, |i: int| (hex_digit_value(s[2 * i]) * 16 + hex_digit_value(s[2 * i + 1])) as u8)
}

/// `hex::decode` on the text's bytes. It refuses an odd number of bytes and any byte that is not
/// a hexadecimal digit (a character outside ASCII is never one), and otherwise gives one byte per
/// pair of digits, high nibble first.
#[verifier::external_body]
fn hex_decode(text: &str) -> (r: Result<Vec<u8>, hex::FromHexError>)
    ensures
        r is Ok <==> hex_decodable(text@),
        r matches Ok(b) ==> b@ == hex_decoded(text@),
{
    hex::decode(text)
}

/// The message of a `hex::FromHexError` (`ToString`).
#[verifier::external_body]
fn hex_error_text(e: &hex::FromHexError) -> String {
    e.to_string()
}

// ───────────────────────── key material ─────────────────────────

/// The ChaCha20 key for a client key text: SHA-256 of its UTF-8 bytes.
pub open spec fn sse_key_of(key_text: Seq<char>) -> Seq<u8> {
    sha256_of(encode_utf8(key_text))
}

/// The verification hash kept beside an encrypted file: lower-case hex of SHA-256 of the key.
pub open spec fn key_check_of(key: Seq<u8>) -> Seq<char> {
    hex_encode_lower(sha256_of(key))
}

/// The stored verification hash accepts the key text.
pub open spec fn stored_check_accepts(stored: Option<String>, key_text: Seq<char>) -> bool {
    stored matches Some(h) && h@ == key_check_of(sse_key_of(key_text))
}

/// Each byte of `data` XORed with the keystream, the first byte standing at position `start`.
pub open spec fn keystream_xor(key: Seq<u8>, nonce: Seq<u8>, start: int, data: Seq<u8>) -> Seq<u8> {
    Seq::new(data.len(), |i: int| data[i] ^ chacha20_keystream_byte(key, nonce, start + i))
}

/// Derive the ChaCha20 key from the client's key text.
pub fn derive_sse_key(key_text: &str) -> (k: [u8; 32])
    ensures
        k@ == sse_key_of(key_text@),
{
    sha256(key_text.as_bytes())
}

/// The verification hash of a ChaCha20 key.
pub fn key_check(key: &[u8; 32]) -> (h: String)
    ensures
        h@ == key_check_of(key@),
{
    let digest = sha256(key.as_slice());
    hex_encode(digest.as_slice())
}

// ───────────────────────── the cipher ─────────────────────────

/// A ChaCha20 keystream and the position in it that the next byte takes.
pub struct KeystreamCursor {
    pub key: [u8; 32],
    pub nonce: [u8; 12],
    pub position: u64,
}

impl KeystreamCursor {
    /// A cursor at `position` of the keystream for `key` and `nonce`.
    pub fn new(key: [u8; 32], nonce: [u8; 12], position: u64) -> (c: Self)
        ensures
            c.key == key,
            c.nonce == nonce,
            c.position == position,
    {
        KeystreamCursor { key, nonce, position }
    }

    /// XOR the next `chunk.len()` keystream bytes into a copy of `chunk` and advance past them.
    /// Encryption and decryption are the same operation.
    pub fn apply(&mut self, chunk: &[u8]) -> (out: Vec<u8>)
        requires
            old(self).position + chunk@.len() <= KEYSTREAM_LIMIT,
        ensures
            out@ == keystream_xor(old(self).key@, old(self).nonce@, old(self).position as int, chunk@),
            final(self).key == old(self).key,
            final(self).nonce == old(self).nonce,
            final(self).position == old(self).position + chunk@.len(),
    {
        let out = chacha20_apply(&self.key, &self.nonce, self.position, chunk);
        assert(out@ =~= keystream_xor(self.key@, self.nonce@, self.position as int, chunk@));
        self.position = self.position + chunk.len() as u64;
        out
    }
}

/// What an encrypted upload records beside the file, and the cipher for its body.
pub struct UploadEncryption {
    pub cipher: KeystreamCursor,
    /// The nonce, as lower-case hex.
    pub encryption_iv: String,
    /// The verification hash of the key.
    pub key_verification_hash: String,
}

/// Prepare the encryption of an upload under the client's key text, with a fresh random nonce.
pub fn prepare_upload_encryption(key_text: &str) -> (u: UploadEncryption)
    ensures
        u.cipher.key@ == sse_key_of(key_text@),
        u.cipher.position == 0,
        u.encryption_iv@ == hex_encode_lower(u.cipher.nonce@),
        u.key_verification_hash@ == key_check_of(sse_key_of(key_text@)),
{
    let key = derive_sse_key(key_text);
    let nonce = random_12();
    let encryption_iv = hex_encode(nonce.as_slice());
    let key_verification_hash = key_check(&key);
    UploadEncryption { cipher: KeystreamCursor::new(key, nonce, 0), encryption_iv, key_verification_hash }
}

// ───────────────────────── downloads ─────────────────────────

/// Check the client's key against an encrypted file's stored verification hash.
/// `Ok(None)`: the file is stored in the clear. `Ok(Some(key))`: decrypt with `key`.
pub fn check_download_key(meta: &FileMeta, key_text: Option<&str>) -> (r: Result<
    Option<[u8; 32]>,
    CloudStoreError,
>)
    ensures
        !meta.is_encrypted ==> r matches Ok(None),
        meta.is_encrypted && key_text is None ==> (r matches Err(CloudStoreError::Unauthorized(m))
            && m@ == "Missing X-Encryption-Key header for encrypted file"@),
        key_text matches Some(k) ==> (meta.is_encrypted && stored_check_accepts(
            meta.key_verification_hash,
            k@,
        ) ==> (r matches Ok(Some(key)) && key@ == sse_key_of(k@))),
        key_text matches Some(k) ==> (meta.is_encrypted && !stored_check_accepts(
            meta.key_verification_hash,
            k@,
        ) ==> (r matches Err(CloudStoreError::Unauthorized(m)) && m@ == "Invalid X-Encryption-Key"@)),
{
    if !meta.is_encrypted {
        return Ok(None);
    }
    match key_text {
        None => Err(CloudStoreError::Unauthorized("Missing X-Encryption-Key header for encrypted file".to_owned())),
        Some(k) => {
            let key = derive_sse_key(k);
            let digest = sha256(key.as_slice());
            let mut derived: Vec<char> = Vec::new();
            push_hex_lower(&mut derived, digest.as_slice());
            let accepted = match &meta.key_verification_hash {
                Some(h) => chars_eq_str(&derived, h.as_str()),
                None => false,
            };
            if accepted {
                Ok(Some(key))
            } else {
                Err(CloudStoreError::Unauthorized("Invalid X-Encryption-Key".to_owned()))
            }
        },
    }
}

/// The byte offset at which a response body starts in the file: the first number of its
/// `Content-Range` (`bytes N-M/T`) when the response is partial, else 0. Text that does not
/// parse gives 0 too.
pub open spec fn range_start_of(partial: bool, content_range: Option<Seq<char>>) -> u64 {
    if partial && content_range is Some && starts_with(content_range->0, "bytes "@) {
        let cr = content_range->0;
        let rest = cr.subrange("bytes "@.len() as int, cr.len() as int);
        let first = rest.subrange(0, first_index(rest, '-'));
        match parse_u64_spec(first) {
            Some(n) => n,
            None => 0,
        }
    } else {
        0
    }
}

/// The offset a response body starts at, read from its `Content-Range` header.
pub fn range_start(partial: bool, content_range: Option<&str>) -> (n: u64)
    ensures
        n == range_start_of(partial, match content_range {
            Some(s) => Some(s@),
            None => None,
        }),
{
    if !partial {
        return 0;
    }
    match content_range {
        None => 0,
        Some(cr) => {
            let v = chars_of(cr);
            if !chars_start_with(&v, "bytes ") {
                return 0;
            }
            proof {
                reveal_strlit("bytes ");
            }
            let rest = sub_chars(&v, 6, v.len());
            let dash = find_char(&rest, '-');
            proof {
                crate::text::lemma_first_index(rest@, '-');
            }
            let first = sub_chars(&rest, 0, dash);
            match parse_u64(&first) {
                Some(n) => n,
                None => 0,
            }
        },
    }
}

/// The cipher that decrypts a download: the checked key, the stored nonce (hex) and the offset
/// at which the response body starts.
pub fn start_decryption(key: [u8; 32], iv_hex: &str, partial: bool, content_range: Option<&str>) -> (r:
    Result<KeystreamCursor, CloudStoreError>)
    ensures
        !hex_decodable(iv_hex@) ==> (r matches Err(CloudStoreError::Validation(m)) && starts_with(
            m@,
            "Invalid IV mapping: "@,
        )),
        hex_decodable(iv_hex@) && hex_decoded(iv_hex@).len() != 12 ==> (r matches Err(
            CloudStoreError::Validation(m),
        ) && m@ == "Invalid IV length"@),
        hex_decodable(iv_hex@) && hex_decoded(iv_hex@).len() == 12 ==> (r matches Ok(c) && c.key == key
            && c.nonce@ == hex_decoded(iv_hex@) && c.position == range_start_of(
            partial,
            match content_range {
                Some(s) => Some(s@),
                None => None,
            },
        )),
{
    let iv = match hex_decode(iv_hex) {
        Ok(b) => b,
        Err(e) => {
            let mut m: Vec<char> = Vec::new();
            push_str(&mut m, "Invalid IV mapping: ");
            let ghost prefix = m@;
            let t = hex_error_text(&e);
            push_str(&mut m, t.as_str());
            proof {
                reveal_strlit("Invalid IV mapping: ");
                assert(m@.subrange(0, prefix.len() as int) =~= prefix);
            }
            return Err(CloudStoreError::Validation(string_from_chars(&m)));
        },
    };
    if iv.len() != 12 {
        return Err(CloudStoreError::Validation("Invalid IV length".to_owned()));
    }
    let mut nonce = [0u8; 12];
    for i in 0..12
        invariant
            iv@.len() == 12,
            forall|j: int| 0 <= j < i ==> nonce@[j] == iv@[j],
    {
        nonce[i] = iv[i];
    }
    assert(nonce@ =~= iv@);
    let position = range_start(partial, content_range);
    Ok(KeystreamCursor::new(key, nonce, position))
}

// ───────────────────────── laws ─────────────────────────

/// XOR with a byte twice gives the byte back.
pub proof fn lemma_xor_twice(a: u8, b: u8)
    ensures
        (a ^ b) ^ b == a,
{
    assert((a ^ b) ^ b == a) by (bit_vector);
}

/// Applying the keystream twice at the same position gives the data back: decryption undoes
/// encryption.
pub proof fn lemma_keystream_xor_involution(key: Seq<u8>, nonce: Seq<u8>, start: int, data: Seq<u8>)
    ensures
        keystream_xor(key, nonce, start, keystream_xor(key, nonce, start, data)) == data,
{
    let once = keystream_xor(key, nonce, start, data);
    let twice = keystream_xor(key, nonce, start, once);
    assert forall|i: int| 0 <= i < data.len() implies #[trigger] twice[i] == data[i] by {
        lemma_xor_twice(data[i], chacha20_keystream_byte(key, nonce, start + i));
    }
    assert(twice =~= data);
}

/// Processing data in two consecutive chunks gives what processing it whole gives.
pub proof fn lemma_keystream_xor_split(key: Seq<u8>, nonce: Seq<u8>, start: int, a: Seq<u8>, b: Seq<u8>)
    ensures
        keystream_xor(key, nonce, start, a + b) == keystream_xor(key, nonce, start, a)
            + keystream_xor(key, nonce, start + a.len(), b),
{
    assert(keystream_xor(key, nonce, start, a + b) =~= keystream_xor(key, nonce, start, a)
        + keystream_xor(key, nonce, start + a.len(), b));
}

/// A byte range of a file that was encrypted from position 0, decrypted from its own start
/// offset, gives the same range of the plaintext: range requests decrypt correctly.
pub proof fn lemma_range_decrypts(key: Seq<u8>, nonce: Seq<u8>, data: Seq<u8>, from: int, to: int)
    requires
        0 <= from <= to <= data.len(),
    ensures
        keystream_xor(key, nonce, from, keystream_xor(key, nonce, 0, data).subrange(from, to))
            == data.subrange(from, to),
{
    let enc = keystream_xor(key, nonce, 0, data);
    let dec = keystream_xor(key, nonce, from, enc.subrange(from, to));
    assert forall|i: int| 0 <= i < to - from implies #[trigger] dec[i] == data.subrange(from, to)[i] by {
        lemma_xor_twice(data[from + i], chacha20_keystream_byte(key, nonce, from + i));
    }
    assert(dec =~= data.subrange(from, to));
}

/// The key text that encrypted an upload passes the download check of the file it produced.
pub proof fn lemma_upload_key_accepted(key_text: Seq<char>, stored: String)
    requires
        stored@ == key_check_of(sse_key_of(key_text)),
    ensures
        stored_check_accepts(Some(stored), key_text),
{
}

} // verus!
