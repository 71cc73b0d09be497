use mycloud::hasher::{hash_bytes, upload_hash, StreamHash};

#[test]
fn test_hash_bytes() {
    let hash = hash_bytes(b"hello world");
    assert!(hash.starts_with("sha256:"));
    assert_eq!(hash.len(), 7 + 64); // "sha256:" + 64 hex chars
}

#[test]
fn hash_bytes_known_digest() {
    assert_eq!(
        hash_bytes(b"hello world"),
        "sha256:b94d27b9934d3e08a52e52d7da7dabfac484efe37a5380ee9088f7ace2efcde9"
    );
    assert_eq!(
        hash_bytes(b""),
        "sha256:e3b0c44298fc1c149afbf4c8996fb92427ae41e4649b934ca495991b7852b855"
    );
}

#[test]
fn upload_hash_is_bare_hex() {
    assert_eq!(upload_hash(b"hello world"), "b94d27b9934d3e08a52e52d7da7dabfac484efe37a5380ee9088f7ace2efcde9");
    assert_eq!(upload_hash(b"").len(), 64);
}

#[test]
fn test_hash_stream() {
    let data = b"hello world";
    let mut h = StreamHash::new();
    for chunk in data.chunks(4) {
        h.update(chunk);
    }
    assert_eq!(h.bytes_seen(), 11);
    let (hash, size) = h.finish_content_hash();
    assert!(hash.starts_with("sha256:"));
    assert_eq!(size, 11);
    assert_eq!(hash, hash_bytes(data));
}

#[test]
fn stream_hash_of_nothing_and_in_pieces() {
    let (hex, n) = StreamHash::new().finish_hex();
    assert_eq!(hex, "e3b0c44298fc1c149afbf4c8996fb92427ae41e4649b934ca495991b7852b855");
    assert_eq!(n, 0);
    let mut h = StreamHash::new();
    h.update(b"ab");
    h.update(b"");
    h.update(b"c");
    let (digest, n) = h.finish();
    assert_eq!(mycloud::text::hex_encode(&digest), upload_hash(b"abc"));
    assert_eq!(n, 3);
}
