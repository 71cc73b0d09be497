use mycloud::crypto::{
    base64_decode, base64_encode, decode_recovery_key, derive_dek, derive_kek, encode_recovery_key,
    generate_master_key, generate_salt, seal_master_key, unseal_master_key, unwrap_master_key,
    wrap_master_key, CryptoError,
};

#[test]
fn test_kek_derivation_deterministic() {
    let salt = generate_salt();
    let kek1 = derive_kek("test-password", &salt).unwrap();
    let kek2 = derive_kek("test-password", &salt).unwrap();
    assert_eq!(kek1, kek2);
}

#[test]
fn test_kek_different_passwords() {
    let salt = generate_salt();
    let kek1 = derive_kek("password1", &salt).unwrap();
    let kek2 = derive_kek("password2", &salt).unwrap();
    assert_ne!(kek1, kek2);
}

#[test]
fn test_wrap_unwrap_master_key() {
    let mk = generate_master_key();
    let kek = [42u8; 32];
    let wrapped = wrap_master_key(&mk, &kek).unwrap();
    let unwrapped = unwrap_master_key(&wrapped, &kek).unwrap();
    assert_eq!(mk, unwrapped);
}

#[test]
fn test_wrong_kek_fails() {
    let mk = generate_master_key();
    let kek1 = [1u8; 32];
    let kek2 = [2u8; 32];
    let wrapped = wrap_master_key(&mk, &kek1).unwrap();
    assert!(unwrap_master_key(&wrapped, &kek2).is_err());
}

#[test]
fn test_seal_unseal() {
    let mk = generate_master_key();
    let sealed = seal_master_key(&mk, "my-jwt-secret", "user-123").unwrap();
    let unsealed = unseal_master_key(&sealed, "my-jwt-secret", "user-123").unwrap();
    assert_eq!(mk, unsealed);
}

#[test]
fn test_seal_wrong_user_fails() {
    let mk = generate_master_key();
    let sealed = seal_master_key(&mk, "secret", "user-1").unwrap();
    assert!(unseal_master_key(&sealed, "secret", "user-2").is_err());
}

#[test]
fn test_dek_deterministic() {
    let mk = [99u8; 32];
    let dek1 = derive_dek(&mk, "file-abc");
    let dek2 = derive_dek(&mk, "file-abc");
    assert_eq!(dek1, dek2);
}

#[test]
fn test_dek_different_files() {
    let mk = [99u8; 32];
    let dek1 = derive_dek(&mk, "file-1");
    let dek2 = derive_dek(&mk, "file-2");
    assert_ne!(dek1, dek2);
}

#[test]
fn test_recovery_key_roundtrip() {
    let mk = generate_master_key();
    let recovery = encode_recovery_key(&mk);
    let decoded = decode_recovery_key(&recovery).unwrap();
    assert_eq!(mk, decoded);
}

#[test]
fn wrapped_key_has_sixty_bytes() {
    let wrapped = wrap_master_key(&[7u8; 32], &[9u8; 32]).unwrap();
    assert_eq!(wrapped.len(), 60);
}

#[test]
fn short_wrapped_key_is_refused() {
    match unwrap_master_key(&[0u8; 10], &[1u8; 32]) {
        Err(CryptoError::WrappedKeyTooShort(10)) => {}
        _ => panic!("expected WrappedKeyTooShort"),
    }
    assert_eq!(CryptoError::WrappedKeyTooShort(10).message(), "Wrapped key too short: 10 bytes");
}

#[test]
fn dek_is_lowercase_hex_of_32_bytes() {
    let dek = derive_dek(&[0u8; 32], "f");
    assert_eq!(dek.len(), 64);
    assert!(dek.chars().all(|c| c.is_ascii_hexdigit() && !c.is_ascii_uppercase()));
}

#[test]
fn recovery_key_of_wrong_length_is_refused() {
    let short = encode_recovery_key(&[1u8; 32]);
    let truncated = &short[..short.len() - 5];
    match decode_recovery_key(truncated) {
        Err(CryptoError::RecoveryKeyLength(n)) => assert!(n != 32),
        Err(CryptoError::RecoveryKeyFormat(_)) => {}
        Ok(_) => panic!("expected an error"),
        Err(_) => panic!("unexpected error"),
    }
    assert!(matches!(decode_recovery_key("0OIl"), Err(CryptoError::RecoveryKeyFormat(_))));
}

#[test]
fn base64_round_trip_and_known_value() {
    assert_eq!(base64_encode(b"hello"), "aGVsbG8");
    assert_eq!(base64_decode("aGVsbG8").unwrap(), b"hello".to_vec());
    assert_eq!(base64_encode(&[0u8]), "AA");
    assert_eq!(base64_encode(b"ab"), "YWI");
    assert_eq!(base64_encode(b"abc"), "YWJj");
    assert_eq!(base64_decode("YWI").unwrap(), b"ab".to_vec());
    assert_eq!(base64_decode("aGVsbG8=").unwrap(), b"hello".to_vec());
    assert_eq!(base64_decode("YWI=").unwrap(), b"ab".to_vec());
    assert_eq!(base64_encode(&[255, 254, 253]), "//79");
    for n in 0..10usize {
        let d: Vec<u8> = (0..n as u8).collect();
        let t = base64_encode(&d);
        assert_eq!(t.len(), (4 * n + 2) / 3);
        assert!(!t.contains('='));
        assert_eq!(base64_decode(&t).unwrap(), d);
    }
    assert!(matches!(base64_decode("!!"), Err(CryptoError::Base64(_))));
}

#[test]
fn unseal_garbage_is_refused() {
    assert!(unseal_master_key("not base64!", "s", "u").is_err());
}

#[test]
fn sealed_master_key_is_eighty_characters() {
    let mk = [7u8; 32];
    let s = seal_master_key(&mk, "secret", "user-1").unwrap();
    assert_eq!(s.len(), 80);
    assert_eq!(base64_decode(&s).unwrap().len(), 60);
}

#[test]
fn dek_is_sixty_four_lower_hex_digits() {
    let mk = [99u8; 32];
    let a = derive_dek(&mk, "file-abc");
    assert_eq!(a, derive_dek(&mk, "file-abc"));
    assert_eq!(a.len(), 64);
    assert!(a.chars().all(|c| c.is_ascii_digit() || ('a'..='f').contains(&c)));
    assert_ne!(derive_dek(&mk, "file-1"), derive_dek(&mk, "file-2"));
}

#[test]
fn unseal_refuses_text_outside_base64() {
    assert!(matches!(unseal_master_key("not base64!", "secret", "user-1"), Err(CryptoError::Base64(_))));
    assert!(unseal_master_key("", "secret", "user-1").is_err());
    assert!(unwrap_master_key(&[0u8; 59], &[0u8; 32]).is_err());
    assert!(unwrap_master_key(&[], &[7u8; 32]).is_err());
    assert!(matches!(base64_decode("YWI=="), Err(CryptoError::Base64(_))));
}
