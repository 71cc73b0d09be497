//! Content hashing of cached files.
use vstd::prelude::*;

use sha2::Digest;

use crate::text::{hex_encode, hex_encode_lower, hex_lower, push_hex_lower, push_str, string_from_chars};

verus! {

broadcast use vstd::string::group_string_axioms;

/// The SHA-256 digest of `data`.
pub uninterp spec fn sha256_of(data: Seq<u8>) -> Seq<u8>;

/// `Sha256::digest`: the 32-byte SHA-256 digest of `data`.
#[verifier::external_body]
pub(crate) fn sha256(data: &[u8]) -> (r: [u8; 32])
    ensures
        r@ == sha256_of(data@),
{
    sha2::Sha256::digest(data).into()
}

/// A running SHA-256 computation. `sha2::Sha256` is an alias of nested generic wrappers whose
/// declaration Verus refuses, so the state is held behind this opaque struct.
#[verifier::external_body]
pub struct Sha256State {
    inner: sha2::Sha256,
}

/// The bytes a running SHA-256 computation has been fed so far, in order.
pub uninterp spec fn sha256_fed(h: Sha256State) -> Seq<u8>;

/// `Sha256::new`: a computation that has been fed nothing.
#[verifier::external_body]
fn sha256_start() -> (h: Sha256State)
    ensures
        sha256_fed(h) == Seq::<u8>::empty(),
{
    Sha256State { inner: sha2::Sha256::new() }
}

/// `Digest::update`: feed more bytes after those already fed.
#[verifier::external_body]
fn sha256_feed(h: &mut Sha256State, data: &[u8])
    ensures
        sha256_fed(*final(h)) == sha256_fed(*old(h)) + data@,
{
    h.inner.update(data)
}

/// `Digest::finalize`: the SHA-256 digest of everything fed, the same as hashing those bytes in
/// one piece.
#[verifier::external_body]
fn sha256_finish(h: Sha256State) -> (r: [u8; 32])
    ensures
        r@ == sha256_of(sha256_fed(h)),
{
    h.inner.finalize().into()
}

/// A SHA-256 hash computed over data that arrives in chunks, with the number of bytes seen.
/// Its view is every byte fed so far.
pub struct StreamHash {
    state: Sha256State,
    total: u64,
}

impl View for StreamHash {
    type V = Seq<u8>;

    closed spec fn view(&self) -> Seq<u8> {
        sha256_fed(self.state)
    }
}

impl StreamHash {
    #[verifier::type_invariant]
    closed spec fn counts_bytes(self) -> bool {
        self.total as nat == sha256_fed(self.state).len()
    }

    /// A hash that has been fed nothing.
    pub fn new() -> (h: Self)
        ensures
            h@ == Seq::<u8>::empty(),
    {
        StreamHash { state: sha256_start(), total: 0 }
    }

    /// The number of bytes fed so far.
    pub fn bytes_seen(&self) -> (n: u64)
        ensures
            n == self@.len(),
    {
        proof {
            use_type_invariant(self);
        }
        self.total
    }

    /// Feed the next chunk. The byte count is a `u64`, so the total must fit in one.
    pub fn update(&mut self, chunk: &[u8])
        requires
            old(self)@.len() + chunk@.len() <= u64::MAX,
        ensures
            final(self)@ == old(self)@ + chunk@,
    {
        let mut taken = StreamHash::new();
        std::mem::swap(&mut taken, self);
        proof {
            use_type_invariant(&taken);
        }
        let StreamHash { mut state, total } = taken;
        sha256_feed(&mut state, chunk);
        *self = StreamHash { state, total: total + chunk.len() as u64 };
    }

    /// The SHA-256 digest of everything fed, and how many bytes that was.
    pub fn finish(self) -> (r: ([u8; 32], u64))
        ensures
            r.0@ == sha256_of(self@),
            r.1 == self@.len(),
    {
        proof {
            use_type_invariant(&self);
        }
        let total = self.total;
        (sha256_finish(self.state), total)
    }

    /// Finish as content-hash text, `sha256:` and the lower-case hex digest, with the byte count.
    pub fn finish_content_hash(self) -> (r: (String, u64))
        ensures
            r.0@ == content_hash_of(self@),
            r.1 == self@.len(),
    {
        let (digest, total) = self.finish();
        let mut v: Vec<char> = Vec::new();
        push_str(&mut v, "sha256:");
        push_hex_lower(&mut v, digest.as_slice());
        (string_from_chars(&v), total)
    }

    /// Finish as the bare lower-case hex digest, with the byte count.
    pub fn finish_hex(self) -> (r: (String, u64))
        ensures
            r.0@ == hex_encode_lower(sha256_of(self@)),
            r.1 == self@.len(),
    {
        let (digest, total) = self.finish();
        (hex_encode(digest.as_slice()), total)
    }
}

/// The content hash text of `data`: `sha256:` followed by the lower-case hex digest.
pub open spec fn content_hash_of(data: Seq<u8>) -> Seq<char> {
    "sha256:"@ + hex_encode_lower(sha256_of(data))
}

/// Compute the SHA-256 hash of a byte slice, as `sha256:<hex>`: `sha256:` and 64 lower-case
/// hexadecimal digits.
pub fn hash_bytes(data: &[u8]) -> (r: String)
    ensures
        r@ == content_hash_of(data@),
        r@.len() == 71,
        r@.subrange(0, 7) == "sha256:"@,
        all_lower_hex(r@.subrange(7, 71)),
{
    let digest = sha256(data);
    proof {
        lemma_hex_lower_text(digest@);
        reveal_strlit("sha256:");
        assert(("sha256:"@ + hex_encode_lower(digest@)).subrange(7, 71) =~= hex_encode_lower(digest@));
        assert(("sha256:"@ + hex_encode_lower(digest@)).subrange(0, 7) =~= "sha256:"@);
    }
    let mut v: Vec<char> = Vec::new();
    push_str(&mut v, "sha256:");
    push_hex_lower(&mut v, digest.as_slice());
    string_from_chars(&v)
}

/// The hash a media upload is recorded and deduplicated under: the bare lower-case hex SHA-256
/// digest of its bytes.
pub fn upload_hash(data: &[u8]) -> (r: String)
    ensures
        r@ == hex_encode_lower(sha256_of(data@)),
{
    let digest = sha256(data);
    hex_encode(digest.as_slice())
}

/// A stream hash gives the same hash however its input was split into chunks. Feeding chunks
/// in order (`new`, then `update` with each) leaves the view `chunks.flatten_alt()`, the chunks
/// joined from the left; that is all the bytes joined, so two splittings of the same bytes finish
/// to the same digest and content hash, the one `hash_bytes` gives for the whole.
pub proof fn lemma_stream_hash_any_split(a: Seq<Seq<u8>>, b: Seq<Seq<u8>>)
    requires
        a.flatten() == b.flatten(),
    ensures
        a.flatten_alt() == a.flatten(),
        content_hash_of(a.flatten_alt()) == content_hash_of(a.flatten()),
        sha256_of(a.flatten_alt()) == sha256_of(b.flatten_alt()),
        content_hash_of(a.flatten_alt()) == content_hash_of(b.flatten()),
{
    a.lemma_flatten_and_flatten_alt_are_equivalent();
    b.lemma_flatten_and_flatten_alt_are_equivalent();
}

/// A lower-case hexadecimal digit: `0`–`9` or `a`–`f`.
pub open spec fn is_lower_hex_digit(c: char) -> bool {
    ('0' <= c && c <= '9') || ('a' <= c && c <= 'f')
}

/// Text made only of lower-case hexadecimal digits.
pub open spec fn all_lower_hex(s: Seq<char>) -> bool {
    forall|i: int| 0 <= i < s.len() ==> is_lower_hex_digit(#[trigger] s[i])
}

/// Hex encoding writes only lower-case hexadecimal digits, two per byte.
pub proof fn lemma_hex_lower_text(bytes: Seq<u8>)
    ensures
        hex_encode_lower(bytes).len() == 2 * bytes.len(),
        all_lower_hex(hex_encode_lower(bytes)),
    decreases bytes.len(),
{
    lemma_hex_len(bytes);
    if bytes.len() > 0 {
        let rest = bytes.drop_last();
        lemma_hex_lower_text(rest);
        let h = hex_encode_lower(rest);
        let b = bytes.last();
        let hi = b / 16;
        let lo = b % 16;
        assert(hi < 16 && lo < 16);
        assert(is_lower_hex_digit(hex_lower(hi)));
        assert(is_lower_hex_digit(hex_lower(lo)));
        let t = hex_encode_lower(bytes);
        assert forall|i: int| 0 <= i < t.len() implies is_lower_hex_digit(#[trigger] t[i]) by {
            if i < h.len() {
                assert(t[i] == h[i]);
            }
        }
    }
}

/// Hex encoding doubles the length.
pub proof fn lemma_hex_len(bytes: Seq<u8>)
    ensures
        hex_encode_lower(bytes).len() == 2 * bytes.len(),
    decreases bytes.len(),
{
    if bytes.len() > 0 {
        lemma_hex_len(bytes.drop_last());
    }
}

} // verus!
