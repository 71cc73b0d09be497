use mycloud::accounts::{
    encryption_gate, enable_encryption_keys, hash_password, login_sealed_key, recover_encryption_keys,
    change_password_plan, rewrap_for_new_password, verify_password, AccountError, EncryptionAction, UserAccount,
};
use mycloud::crypto::{base64_decode, decode_recovery_key, derive_kek, unseal_master_key, unwrap_master_key};

fn user(enabled: bool, emk: Option<String>, salt: Option<String>) -> UserAccount {
    UserAccount {
        id: "user-1".into(),
        name: "U".into(),
        email: "u@x".into(),
        password_hash: String::new(),
        role: "user".into(),
        avatar: None,
        encrypted_master_key: emk,
        encryption_salt: salt,
        encryption_enabled: enabled,
    }
}

fn stored_key(u: &UserAccount, password: &str) -> [u8; 32] {
    let salt = base64_decode(u.encryption_salt.as_ref().unwrap()).unwrap();
    let kek = derive_kek(password, &salt).unwrap();
    let w = base64_decode(u.encrypted_master_key.as_ref().unwrap()).unwrap();
    unwrap_master_key(&w, &kek).unwrap()
}

#[test]
fn password_hash_verifies() {
    let h = hash_password("s3cret").unwrap();
    assert!(verify_password("s3cret", &h).unwrap());
    assert!(!verify_password("other", &h).unwrap());
    assert!(matches!(verify_password("x", "not-a-hash"), Err(AccountError::Internal)));
}

#[test]
fn password_change_keeps_the_master_key() {
    let ne = enable_encryption_keys("user-1", "old-pw", "secret").unwrap();
    let mk = decode_recovery_key(&ne.recovery_key).unwrap();
    assert_eq!(unseal_master_key(&ne.keys.sealed_master_key, "secret", "user-1").unwrap(), mk);
    let u = user(true, Some(ne.keys.encrypted_master_key.clone()), Some(ne.keys.encryption_salt.clone()));
    let kc = rewrap_for_new_password(&u, "old-pw", "new-pw", "secret").unwrap().unwrap();
    let u2 = user(true, Some(kc.encrypted_master_key.clone()), Some(kc.encryption_salt.clone()));
    assert_eq!(stored_key(&u2, "new-pw"), mk);
    assert_eq!(unseal_master_key(&kc.sealed_master_key, "secret", "user-1").unwrap(), mk);
}

#[test]
fn password_change_needs_the_old_password() {
    let ne = enable_encryption_keys("user-1", "old-pw", "secret").unwrap();
    let u = user(true, Some(ne.keys.encrypted_master_key.clone()), Some(ne.keys.encryption_salt.clone()));
    assert!(matches!(rewrap_for_new_password(&u, "wrong", "new-pw", "secret"), Err(AccountError::Internal)));
}

#[test]
fn login_seals_or_skips() {
    assert!(matches!(login_sealed_key(&user(false, None, None), "pw", "s"), Ok(None)));
    let ne = enable_encryption_keys("user-1", "pw", "secret").unwrap();
    let u = user(true, Some(ne.keys.encrypted_master_key.clone()), Some(ne.keys.encryption_salt.clone()));
    let sealed = login_sealed_key(&u, "pw", "secret").unwrap().unwrap();
    assert_eq!(unseal_master_key(&sealed, "secret", "user-1").unwrap(), stored_key(&u, "pw"));
    // A password that does not open the key does not fail the login.
    assert!(matches!(login_sealed_key(&u, "other", "secret"), Ok(None)));
    let broken = user(true, Some("!!".into()), Some("!!".into()));
    assert!(matches!(login_sealed_key(&broken, "pw", "secret"), Err(AccountError::Internal)));
}

#[test]
fn recovery_restores_the_key() {
    let ne = enable_encryption_keys("user-1", "pw", "secret").unwrap();
    let u = user(true, Some(ne.keys.encrypted_master_key.clone()), Some(ne.keys.encryption_salt.clone()));
    let mk = stored_key(&u, "pw");
    let kc = recover_encryption_keys("user-1", &ne.recovery_key, "reset-pw", "secret").unwrap();
    let u2 = user(true, Some(kc.encrypted_master_key), Some(kc.encryption_salt));
    assert_eq!(stored_key(&u2, "reset-pw"), mk);
    assert!(matches!(recover_encryption_keys("user-1", "0OIl", "pw", "s"), Err(AccountError::BadRequest)));
}

#[test]
fn gates() {
    assert!(matches!(encryption_gate(EncryptionAction::Enable, true, true), Err(AccountError::Conflict)));
    assert!(matches!(encryption_gate(EncryptionAction::Disable, false, true), Err(AccountError::BadRequest)));
    assert!(matches!(encryption_gate(EncryptionAction::Recover, true, false), Err(AccountError::Unauthorized)));
    assert!(encryption_gate(EncryptionAction::Enable, false, true).is_ok());
    assert_eq!(AccountError::Conflict.status(), 409);
    assert_eq!(AccountError::NotFound.status(), 404);
}

#[test]
fn password_hash_carries_cost_twelve() {
    let h = hash_password("pw").unwrap();
    assert!(h.starts_with("$2b$12$"));
}

#[test]
fn change_password_plan_checks_then_hashes() {
    let mut plain = user(false, None, None);
    plain.password_hash = bcrypt::hash("old-pw", 4).unwrap();
    assert!(matches!(change_password_plan(&plain, "wrong", "new-pw", "secret"), Err(AccountError::Unauthorized)));
    let c = change_password_plan(&plain, "old-pw", "new-pw", "secret").unwrap();
    assert!(c.password_hash.starts_with("$2b$12$"));
    assert!(c.keys.is_none());
    let mut broken = plain;
    broken.password_hash = "not-a-hash".into();
    assert!(matches!(change_password_plan(&broken, "old-pw", "y", "secret"), Err(AccountError::Internal)));
}

#[test]
fn change_password_plan_keeps_the_master_key() {
    let ne = enable_encryption_keys("user-1", "old-pw", "secret").unwrap();
    let mk = decode_recovery_key(&ne.recovery_key).unwrap();
    let mut enc = user(true, Some(ne.keys.encrypted_master_key.clone()), Some(ne.keys.encryption_salt.clone()));
    enc.password_hash = bcrypt::hash("old-pw", 4).unwrap();
    let c = change_password_plan(&enc, "old-pw", "new-pw", "secret").unwrap();
    let kc = c.keys.unwrap();
    assert_eq!(unseal_master_key(&kc.sealed_master_key, "secret", "user-1").unwrap(), mk);
}
