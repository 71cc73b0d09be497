//! User accounts: password hashes, and the key management that follows a user's password
//! through login, password changes, enabling encryption and recovery.
//!
//! A user with encryption enabled stores the master key wrapped under a key derived from the
//! password (`encrypted_master_key`, `encryption_salt`, both Base64). After login the master key
//! travels sealed with the server secret, in the token and the `__mc_mk` cookie.
use vstd::prelude::*;
use vstd::utf8::encode_utf8;

use crate::crypto::{
    base58_bytes, base58_text, base64_decoded, base64_decode, base64_encode, base64_text,
    decode_recovery_key, derive_kek, encode_recovery_key, generate_master_key, generate_salt, kek_of,
    seal_master_key, sealed_for, unwrap_master_key, unwrapped_key, wrap_master_key, wrapped_by,
};

verus! {

broadcast use vstd::string::group_string_axioms;

#[verifier::external_type_specification]
#[verifier::external_body]
pub struct ExBcryptError(bcrypt::BcryptError);

/// What `bcrypt::verify` says of a password and a stored hash: `Some(matches)`, or `None` when
/// the hash is not a well-formed bcrypt hash.
pub uninterp spec fn bcrypt_check(password: Seq<u8>, hash: Seq<char>) -> Option<bool>;

/// The text a bcrypt hash of the given cost starts with: version `2b`, then the cost as two
/// decimal digits, each between `$` signs.
pub open spec fn bcrypt_prefix(cost: u32) -> Seq<char> {
    seq!['$', '2', 'b', '$', ((48 + cost / 10) as u8) as char, ((48 + cost % 10) as u8) as char, '$']
}

/// `bcrypt::hash(password, cost)`, with a random salt. The crate refuses a cost outside 4..=31;
/// otherwise the hash it returns is formatted as `$2b$`, the two-digit cost, `$`, salt and digest,
/// and it verifies its password: `verify` splits off the cost and salt it wrote and recomputes the
/// same digest.
#[verifier::external_body]
fn bcrypt_hash(password: &str, cost: u32) -> (r: Result<String, bcrypt::BcryptError>)
    ensures
        !(4 <= cost <= 31) ==> r is Err,
        r matches Ok(h) ==> bcrypt_check(encode_utf8(password@), h@) == Some(true),
        r matches Ok(h) ==> h@.len() >= 7 && h@.subrange(0, 7) == bcrypt_prefix(cost),
{
    bcrypt::hash(password, cost)
}

/// `bcrypt::verify`: whether the password matches the hash; an error when the hash is malformed.
#[verifier::external_body]
fn bcrypt_verify(password: &str, hash: &str) -> (r: Result<bool, bcrypt::BcryptError>)
    ensures
        match r {
            Ok(b) => bcrypt_check(encode_utf8(password@), hash@) == Some(b),
            Err(_) => bcrypt_check(encode_utf8(password@), hash@) is None,
        },
{
    bcrypt::verify(password, hash)
}

/// Why an account request fails, answered with the HTTP status of `status`.
#[derive(Debug)]
pub enum AccountError {
    NotFound,
    Unauthorized,
    BadRequest,
    Conflict,
    Internal,
}

impl AccountError {
    pub fn status(&self) -> (s: u16)
        ensures
            s == match *self {
                AccountError::NotFound => 404u16,
                AccountError::Unauthorized => 401u16,
                AccountError::BadRequest => 400u16,
                AccountError::Conflict => 409u16,
                AccountError::Internal => 500u16,
            },
    {
        match self {
            AccountError::NotFound => 404,
            AccountError::Unauthorized => 401,
            AccountError::BadRequest => 400,
            AccountError::Conflict => 409,
            AccountError::Internal => 500,
        }
    }
}

/// The account fields that authentication and key management read.
pub struct UserAccount {
    pub id: String,
    pub name: String,
    pub email: String,
    pub password_hash: String,
    pub role: String,
    pub avatar: Option<String>,
    pub encrypted_master_key: Option<String>,
    pub encryption_salt: Option<String>,
    pub encryption_enabled: bool,
}

// ───────────────────────── passwords ─────────────────────────

/// The password matches the stored hash.
pub open spec fn password_accepted(password: Seq<char>, hash: Seq<char>) -> bool {
    bcrypt_check(encode_utf8(password), hash) == Some(true)
}

/// The bcrypt work factor of stored password hashes.
pub const PASSWORD_COST: u32 = 12;

/// Hash a password with bcrypt (cost 12).
pub fn hash_password(password: &str) -> (r: Result<String, AccountError>)
    ensures
        r matches Ok(h) ==> password_accepted(password@, h@),
        r matches Ok(h) ==> h@.len() >= 7 && h@.subrange(0, 7) == bcrypt_prefix(PASSWORD_COST),
        r matches Err(e) ==> e is Internal,
{
    match bcrypt_hash(password, PASSWORD_COST) {
        Ok(h) => Ok(h),
        Err(_) => Err(AccountError::Internal),
    }
}

/// Check a password against a stored hash; a malformed hash is an internal error.
pub fn verify_password(password: &str, hash: &str) -> (r: Result<bool, AccountError>)
    ensures
        r matches Ok(b) ==> b == password_accepted(password@, hash@),
        r is Err <==> bcrypt_check(encode_utf8(password@), hash@) is None,
        r matches Err(e) ==> e is Internal,
{
    match bcrypt_verify(password, hash) {
        Ok(b) => Ok(b),
        Err(_) => Err(AccountError::Internal),
    }
}

// ───────────────────────── the stored master key ─────────────────────────

/// The user has encryption enabled and both stored key fields.
pub open spec fn keys_stored(user: UserAccount) -> bool {
    user.encryption_enabled && user.encrypted_master_key is Some && user.encryption_salt is Some
}

/// The stored wrapped key opens with `password` to `mk`.
pub open spec fn stored_key_opens(user: UserAccount, password: Seq<char>, mk: Seq<u8>) -> bool {
    &&& keys_stored(user)
    &&& base64_decoded(user.encryption_salt->0@) matches Some(salt)
    &&& base64_decoded(user.encrypted_master_key->0@) matches Some(w)
    &&& unwrapped_key(w, kek_of(password, salt)) == Some(mk)
}

/// `wrapped_text` and `salt_text` store `mk` under `password`: Base64 of a key wrapped under the
/// password's KEK with a 16-byte salt.
pub open spec fn stores_key(wrapped_text: Seq<char>, salt_text: Seq<char>, password: Seq<char>, mk: Seq<u8>) -> bool {
    exists|w: Seq<u8>, salt: Seq<u8>|
        #[trigger] base64_text(w) == wrapped_text && #[trigger] base64_text(salt) == salt_text && salt.len()
            == 16 && wrapped_by(w, kek_of(password, salt), mk)
}

/// The master key that the stored fields hold under `password`, read step by step.
fn open_stored_key(user: &UserAccount, password: &str) -> (r: Result<Option<[u8; 32]>, AccountError>)
    requires
        keys_stored(*user),
    ensures
        r matches Ok(Some(mk)) ==> stored_key_opens(*user, password@, mk@),
        r matches Ok(None) ==> base64_decoded(user.encryption_salt->0@) is Some && base64_decoded(
            user.encrypted_master_key->0@,
        ) is Some && unwrapped_key(
            base64_decoded(user.encrypted_master_key->0@)->0,
            kek_of(password@, base64_decoded(user.encryption_salt->0@)->0),
        ) is None,
        r matches Err(e) ==> e is Internal,
        base64_decoded(user.encryption_salt->0@) is None ==> r is Err,
        base64_decoded(user.encrypted_master_key->0@) is None ==> r is Err,
        forall|mk: Seq<u8>|
            mk.len() == 32 && #[trigger] stored_key_opens(*user, password@, mk) && encode_utf8(password@).len()
                <= 0xFFFF_FFFF && 8 <= base64_decoded(user.encryption_salt->0@)->0.len() <= 0xFFFF_FFFF
                ==> (r matches Ok(Some(k)) && k@ == mk),
{
    let salt_text = match &user.encryption_salt {
        Some(s) => s,
        None => return Err(AccountError::Internal),
    };
    let wrapped_text = match &user.encrypted_master_key {
        Some(w) => w,
        None => return Err(AccountError::Internal),
    };
    let salt = match base64_decode(salt_text.as_str()) {
        Ok(s) => s,
        Err(_) => return Err(AccountError::Internal),
    };
    let kek = match derive_kek(password, salt.as_slice()) {
        Ok(k) => k,
        Err(_) => return Err(AccountError::Internal),
    };
    let wrapped = match base64_decode(wrapped_text.as_str()) {
        Ok(w) => w,
        Err(_) => return Err(AccountError::Internal),
    };
    match unwrap_master_key(wrapped.as_slice(), &kek) {
        Ok(mk) => Ok(Some(mk)),
        Err(_) => Ok(None),
    }
}

/// `sealed` seals, for the user, the master key that the stored fields hold under `password`.
pub open spec fn seals_stored_key(user: UserAccount, password: Seq<char>, jwt_secret: Seq<char>, sealed: Seq<char>) -> bool {
    exists|mk: Seq<u8>| stored_key_opens(user, password, mk) && #[trigger] sealed_for(sealed, jwt_secret, user.id@, mk)
}

/// At login: the sealed master key for the token and cookie, when encryption is enabled and the
/// stored key opens with the password. A key that does not open does not fail the login.
pub fn login_sealed_key(user: &UserAccount, password: &str, jwt_secret: &str) -> (r: Result<
    Option<String>,
    AccountError,
>)
    ensures
        !keys_stored(*user) ==> r matches Ok(None),
        r matches Ok(Some(s)) ==> seals_stored_key(*user, password@, jwt_secret@, s@),
        keys_stored(*user) && (base64_decoded(user.encryption_salt->0@) is None || base64_decoded(
            user.encrypted_master_key->0@,
        ) is None) ==> r is Err,
        r matches Err(e) ==> e is Internal,
        forall|mk: Seq<u8>|
            mk.len() == 32 && #[trigger] stored_key_opens(*user, password@, mk) && encode_utf8(password@).len()
                <= 0xFFFF_FFFF && 8 <= base64_decoded(user.encryption_salt->0@)->0.len() <= 0xFFFF_FFFF
                ==> (r matches Ok(Some(s)) && sealed_for(s@, jwt_secret@, user.id@, mk)),
{
    if !(user.encryption_enabled && user.encrypted_master_key.is_some() && user.encryption_salt.is_some()) {
        return Ok(None);
    }
    let opened = match open_stored_key(user, password) {
        Ok(o) => o,
        Err(e) => return Err(e),
    };
    match opened {
        Some(mk) => {
            let sealed = match seal_master_key(&mk, jwt_secret, user.id.as_str()) {
                Ok(s) => s,
                Err(_) => return Err(AccountError::Internal),
            };
            assert(stored_key_opens(*user, password@, mk@) && sealed_for(sealed@, jwt_secret@, user.id@, mk@));
            assert(seals_stored_key(*user, password@, jwt_secret@, sealed@));
            Ok(Some(sealed))
        },
        None => Ok(None),
    }
}

/// New stored key fields and the sealed master key that go with them.
#[derive(Debug)]
pub struct KeyChange {
    pub encrypted_master_key: String,
    pub encryption_salt: String,
    pub sealed_master_key: String,
}

/// Wrap `mk` under `password` with a fresh salt, and seal it for the user.
fn store_under_password(mk: &[u8; 32], password: &str, jwt_secret: &str, user_id: &str) -> (r: Result<
    KeyChange,
    AccountError,
>)
    ensures
        r matches Ok(kc) ==> stores_key(kc.encrypted_master_key@, kc.encryption_salt@, password@, mk@)
            && sealed_for(kc.sealed_master_key@, jwt_secret@, user_id@, mk@),
        encode_utf8(password@).len() <= 0xFFFF_FFFF ==> r is Ok,
        r matches Err(e) ==> e is Internal,
{
    let salt = generate_salt();
    let kek = match derive_kek(password, salt.as_slice()) {
        Ok(k) => k,
        Err(_) => return Err(AccountError::Internal),
    };
    let wrapped = match wrap_master_key(mk, &kek) {
        Ok(w) => w,
        Err(_) => return Err(AccountError::Internal),
    };
    let sealed = match seal_master_key(mk, jwt_secret, user_id) {
        Ok(s) => s,
        Err(_) => return Err(AccountError::Internal),
    };
    let encrypted_master_key = base64_encode(wrapped.as_slice());
    let encryption_salt = base64_encode(salt.as_slice());
    proof {
        assert(base64_text(wrapped@) == encrypted_master_key@ && base64_text(salt@) == encryption_salt@);
    }
    Ok(KeyChange { encrypted_master_key, encryption_salt, sealed_master_key: sealed })
}

/// On a password change: the stored key re-wrapped under the new password (same master key,
/// fresh salt) and sealed again; `None` when the user keeps no encrypted key.
/// The old password must open the stored key, else the change fails.
pub fn rewrap_for_new_password(user: &UserAccount, current_password: &str, new_password: &str, jwt_secret: &str) -> (r:
    Result<Option<KeyChange>, AccountError>)
    ensures
        !keys_stored(*user) ==> r matches Ok(None),
        r matches Ok(Some(kc)) ==> exists|mk: Seq<u8>|
            #[trigger] stored_key_opens(*user, current_password@, mk) && stores_key(
                kc.encrypted_master_key@,
                kc.encryption_salt@,
                new_password@,
                mk,
            ) && sealed_for(kc.sealed_master_key@, jwt_secret@, user.id@, mk),
        keys_stored(*user) && r is Ok ==> r matches Ok(Some(_)),
        r matches Err(e) ==> e is Internal,
        forall|mk: Seq<u8>|
            mk.len() == 32 && #[trigger] stored_key_opens(*user, current_password@, mk) && encode_utf8(
                current_password@,
            ).len() <= 0xFFFF_FFFF && encode_utf8(new_password@).len() <= 0xFFFF_FFFF && 8
                <= base64_decoded(user.encryption_salt->0@)->0.len() <= 0xFFFF_FFFF ==> r matches Ok(Some(_)),
{
    if !(user.encryption_enabled && user.encrypted_master_key.is_some() && user.encryption_salt.is_some()) {
        return Ok(None);
    }
    let opened = match open_stored_key(user, current_password) {
        Ok(o) => o,
        Err(e) => return Err(e),
    };
    let mk = match opened {
        Some(k) => k,
        None => return Err(AccountError::Internal),
    };
    match store_under_password(&mk, new_password, jwt_secret, user.id.as_str()) {
        Ok(kc) => {
            assert(stored_key_opens(*user, current_password@, mk@));
            Ok(Some(kc))
        },
        Err(e) => Err(e),
    }
}

/// What a password change writes: the new password's hash and, when the user keeps an
/// encrypted key, that key under the new password.
pub struct PasswordChange {
    pub password_hash: String,
    pub keys: Option<KeyChange>,
}

/// A password change, in order: the current password must match the stored hash (else
/// `Unauthorized`), then the new password is hashed and the stored key, if any, re-wrapped
/// under it. The master key stays the same.
pub fn change_password_plan(user: &UserAccount, current_password: &str, new_password: &str, jwt_secret: &str) -> (r:
    Result<PasswordChange, AccountError>)
    ensures
        bcrypt_check(encode_utf8(current_password@), user.password_hash@) is None ==> r matches Err(AccountError::Internal),
        r matches Err(AccountError::Unauthorized) <==> bcrypt_check(encode_utf8(current_password@), user.password_hash@)
            == Some(false),
        r matches Err(e) ==> e is Internal || e is Unauthorized,
        r matches Err(AccountError::Internal) ==> bcrypt_check(encode_utf8(current_password@), user.password_hash@) is None
            || password_accepted(current_password@, user.password_hash@),
        r is Ok ==> password_accepted(current_password@, user.password_hash@),
        r matches Ok(c) ==> password_accepted(new_password@, c.password_hash@) && c.password_hash@.len() >= 7
            && c.password_hash@.subrange(0, 7) == bcrypt_prefix(PASSWORD_COST),
        r matches Ok(c) ==> (c.keys is None <==> !keys_stored(*user)),
        r matches Ok(c) ==> c.keys matches Some(kc) ==> exists|mk: Seq<u8>|
            #[trigger] stored_key_opens(*user, current_password@, mk) && stores_key(
                kc.encrypted_master_key@,
                kc.encryption_salt@,
                new_password@,
                mk,
            ) && sealed_for(kc.sealed_master_key@, jwt_secret@, user.id@, mk),
{
    match verify_password(current_password, user.password_hash.as_str()) {
        Ok(true) => {},
        Ok(false) => {
            assert(bcrypt_check(encode_utf8(current_password@), user.password_hash@) == Some(false));
            return Err(AccountError::Unauthorized);
        },
        Err(e) => return Err(e),
    }
    let password_hash = hash_password(new_password)?;
    let keys = rewrap_for_new_password(user, current_password, new_password, jwt_secret)?;
    Ok(PasswordChange { password_hash, keys })
}

/// Keys made when encryption is turned on.
#[derive(Debug)]
pub struct NewEncryption {
    pub keys: KeyChange,
    /// The master key in Base58, shown to the user once.
    pub recovery_key: String,
}

/// Turn encryption on: a fresh master key, stored under the password, sealed for the user, and
/// its recovery key.
pub fn enable_encryption_keys(user_id: &str, password: &str, jwt_secret: &str) -> (r: Result<NewEncryption, AccountError>)
    ensures
        r matches Ok(ne) ==> exists|mk: Seq<u8>|
            mk.len() == 32 && stores_key(
                ne.keys.encrypted_master_key@,
                ne.keys.encryption_salt@,
                password@,
                mk,
            ) && sealed_for(ne.keys.sealed_master_key@, jwt_secret@, user_id@, mk) && ne.recovery_key@
                == #[trigger] base58_text(mk),
        encode_utf8(password@).len() <= 0xFFFF_FFFF ==> r is Ok,
        r matches Err(e) ==> e is Internal,
{
    let mk = generate_master_key();
    let keys = match store_under_password(&mk, password, jwt_secret, user_id) {
        Ok(k) => k,
        Err(e) => return Err(e),
    };
    let recovery_key = encode_recovery_key(&mk);
    Ok(NewEncryption { keys, recovery_key })
}

/// Restore encryption after a password reset: the master key comes from the recovery key and is
/// stored under the current password. A recovery key that does not decode to 32 bytes is a bad
/// request.
pub fn recover_encryption_keys(user_id: &str, recovery_key: &str, password: &str, jwt_secret: &str) -> (r:
    Result<KeyChange, AccountError>)
    ensures
        r matches Ok(kc) ==> base58_bytes(recovery_key@) matches Some(mk) && mk.len() == 32 && stores_key(
            kc.encrypted_master_key@,
            kc.encryption_salt@,
            password@,
            mk,
        ) && sealed_for(kc.sealed_master_key@, jwt_secret@, user_id@, mk),
        !(base58_bytes(recovery_key@) matches Some(b) && b.len() == 32) ==> r matches Err(
            AccountError::BadRequest,
        ),
        base58_bytes(recovery_key@) matches Some(b) && b.len() == 32 && encode_utf8(password@).len()
            <= 0xFFFF_FFFF ==> r is Ok,
        r matches Err(e) ==> (e is BadRequest || e is Internal),
{
    let mk = match decode_recovery_key(recovery_key) {
        Ok(k) => k,
        Err(_) => return Err(AccountError::BadRequest),
    };
    store_under_password(&mk, password, jwt_secret, user_id)
}

// ───────────────────────── request gates ─────────────────────────

/// The encryption settings a user can ask for.
pub enum EncryptionAction {
    Enable,
    Disable,
    Recover,
}

/// Whether an encryption request may go ahead: enabling twice is a conflict, disabling or
/// recovering without encryption is a bad request, and a wrong password is refused.
pub fn encryption_gate(action: EncryptionAction, enabled: bool, password_ok: bool) -> (r: Result<(), AccountError>)
    ensures
        action is Enable && enabled ==> r matches Err(AccountError::Conflict),
        !(action is Enable) && !enabled ==> r matches Err(AccountError::BadRequest),
        (action is Enable) != enabled && !password_ok ==> r matches Err(AccountError::Unauthorized),
        (action is Enable) != enabled && password_ok ==> r is Ok,
{
    match action {
        EncryptionAction::Enable => {
            if enabled {
                return Err(AccountError::Conflict);
            }
        },
        _ => {
            if !enabled {
                return Err(AccountError::BadRequest);
            }
        },
    }
    if !password_ok {
        return Err(AccountError::Unauthorized);
    }
    Ok(())
}

} // verus!
