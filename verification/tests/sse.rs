use mycloud::errors::CloudStoreError;
use mycloud::path_id::FileMeta;
use mycloud::sse::{
    check_download_key, derive_sse_key, key_check, prepare_upload_encryption, range_start,
    start_decryption, KeystreamCursor,
};

fn meta() -> FileMeta {
    FileMeta::new_cached("a.bin".to_string(), "h".to_string(), 10, "application/octet-stream".to_string(), "gdrive".to_string())
}

#[test]
fn sse_key_is_sha256_of_key_text() {
    let k = derive_sse_key("abc");
    assert_eq!(
        k.iter().map(|b| format!("{:02x}", b)).collect::<String>(),
        "ba7816bf8f01cfea414140de5dae2223b00361a396177a9cb410ff61f20015ad"
    );
    assert_eq!(key_check(&[0u8; 32]).len(), 64);
}

#[test]
fn upload_then_download_decrypts() {
    let up = prepare_upload_encryption("client-key");
    assert_eq!(up.encryption_iv.len(), 24);
    let mut enc = up.cipher;
    let plain = b"the quick brown fox jumps over the lazy dog".to_vec();
    let c1 = enc.apply(&plain[..10]);
    let c2 = enc.apply(&plain[10..]);
    let cipher: Vec<u8> = [c1, c2].concat();
    assert_ne!(cipher, plain);

    let mut m = meta();
    m.is_encrypted = true;
    m.encryption_iv = Some(up.encryption_iv.clone());
    m.key_verification_hash = Some(up.key_verification_hash.clone());
    let key = check_download_key(&m, Some("client-key")).unwrap().unwrap();
    let mut dec = start_decryption(key, &up.encryption_iv, false, None).unwrap();
    assert_eq!(dec.apply(&cipher), plain);

    // A ranged response starting at byte 4 decrypts from there.
    let mut ranged = start_decryption(key, &up.encryption_iv, true, Some("bytes 4-20/43")).unwrap();
    assert_eq!(ranged.position, 4);
    assert_eq!(ranged.apply(&cipher[4..21]), plain[4..21].to_vec());
}

#[test]
fn download_key_errors() {
    let up = prepare_upload_encryption("k1");
    let mut m = meta();
    assert!(matches!(check_download_key(&m, None), Ok(None)));
    m.is_encrypted = true;
    m.key_verification_hash = Some(up.key_verification_hash.clone());
    match check_download_key(&m, None) {
        Err(CloudStoreError::Unauthorized(msg)) => assert_eq!(msg, "Missing X-Encryption-Key header for encrypted file"),
        _ => panic!("expected Unauthorized"),
    }
    match check_download_key(&m, Some("k2")) {
        Err(CloudStoreError::Unauthorized(msg)) => assert_eq!(msg, "Invalid X-Encryption-Key"),
        _ => panic!("expected Unauthorized"),
    }
}

#[test]
fn iv_errors() {
    let key = [1u8; 32];
    match start_decryption(key, "zz", false, None) {
        Err(CloudStoreError::Validation(msg)) => assert!(msg.starts_with("Invalid IV mapping: ")),
        _ => panic!("expected Validation"),
    }
    match start_decryption(key, "00ff", false, None) {
        Err(CloudStoreError::Validation(msg)) => assert_eq!(msg, "Invalid IV length"),
        _ => panic!("expected Validation"),
    }
    assert!(start_decryption(key, "000102030405060708090A0B", false, None).is_ok());
}

#[test]
fn range_start_reads_content_range() {
    assert_eq!(range_start(true, Some("bytes 100-199/1000")), 100);
    assert_eq!(range_start(false, Some("bytes 100-199/1000")), 0);
    assert_eq!(range_start(true, Some("items 1-2/3")), 0);
    assert_eq!(range_start(true, Some("bytes x-2/3")), 0);
    assert_eq!(range_start(true, None), 0);
    assert_eq!(range_start(true, Some("bytes 7")), 7);
}

#[test]
fn keystream_is_an_involution() {
    let mut a = KeystreamCursor::new([3u8; 32], [4u8; 12], 100);
    let mut b = KeystreamCursor::new([3u8; 32], [4u8; 12], 100);
    let data = vec![9u8; 70];
    let once = a.apply(&data);
    assert_eq!(a.position, 170);
    assert_eq!(b.apply(&once), data);
}
