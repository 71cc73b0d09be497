use mycloud::crypto::{generate_master_key, seal_master_key};
use mycloud::session::{
    clear_encryption_cookie, download_claims, encryption_cookie, is_admin, parse_cookies,
    session_claims, session_cookie, token_candidates, Claims,
};

#[test]
fn claims_lifetimes() {
    let c = session_claims("u1", "e@x", "admin", Some("sealed"), 1000);
    assert_eq!((c.iat, c.exp), (1000, 1000 + 2_592_000));
    assert_eq!(c.encrypted_mk.as_deref(), Some("sealed"));
    let d = download_claims("u1", None, 1000);
    assert_eq!((d.email.as_str(), d.role.as_str(), d.exp), ("", "user", 1300));
}

#[test]
fn master_key_from_claims() {
    let mk = generate_master_key();
    let sealed = seal_master_key(&mk, "secret", "u1").unwrap();
    let c: Claims = session_claims("u1", "e", "user", Some(&sealed), 0);
    assert_eq!(c.master_key("secret"), Some(mk));
    assert_eq!(c.master_key("other"), None);
    let none = session_claims("u1", "e", "user", None, 0);
    assert_eq!(none.master_key("secret"), None);
}

#[test]
fn token_candidates_in_order() {
    let c = token_candidates(Some("Bearer aaa"), Some("x=1&token=bbb&token=ccc&tokenx=d"));
    assert_eq!(c, vec!["aaa".to_string(), "bbb".to_string(), "ccc".to_string()]);
    assert!(token_candidates(Some("Basic aaa"), None).is_empty());
    assert_eq!(token_candidates(None, Some("token=a=b")), vec!["a=b".to_string()]);
}

#[test]
fn cookies() {
    assert_eq!(session_cookie("t"), "__mc=t; HttpOnly; SameSite=Strict; Path=/api/media; Max-Age=2592000");
    assert_eq!(encryption_cookie("k"), "__mc_mk=k; HttpOnly; SameSite=Strict; Path=/api/media; Max-Age=2592000");
    assert_eq!(clear_encryption_cookie(), "__mc_mk=; HttpOnly; SameSite=Strict; Path=/api/media; Max-Age=0");
    let pairs = parse_cookies(&vec!["a=1; __mc = tok ;junk".to_string(), "__mc_mk=k=v".to_string()]);
    let flat: Vec<(String, String)> = pairs.into_iter().map(|p| (p.name, p.value)).collect();
    assert_eq!(flat, vec![("a".into(), "1".into()), ("__mc".into(), "tok".into()), ("__mc_mk".into(), "k=v".into())]);
    assert!(is_admin("admin"));
    assert!(!is_admin("Admin"));
}
