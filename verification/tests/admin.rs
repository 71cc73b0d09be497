use mycloud::admin::{
    admin_seed_needed, apply_profile_update, check_admin, check_user_deletion, reset_password_value,
    user_update_query, AdminRefusal, UserProfile, UserUpdateBind,
};
use mycloud::server::UserSettings;

#[test]
fn only_admins_pass() {
    assert!(check_admin("admin").is_ok());
    let e = check_admin("user").unwrap_err();
    assert!(matches!(e, AdminRefusal::Forbidden));
    assert_eq!(e.status(), 403);
    assert!(check_admin("Admin").is_err());
}

#[test]
fn admins_cannot_delete_themselves() {
    assert!(check_user_deletion("admin", "u1", "u2").is_ok());
    let e = check_user_deletion("admin", "u1", "u1").unwrap_err();
    assert!(matches!(e, AdminRefusal::SelfDeletion));
    assert_eq!(e.status(), 400);
    assert!(matches!(check_user_deletion("user", "u1", "u1"), Err(AdminRefusal::Forbidden)));
}

#[test]
fn reset_password_and_seed() {
    assert_eq!(reset_password_value(), "Reset@123456");
    assert!(admin_seed_needed(0));
    assert!(!admin_seed_needed(1));
}

fn texts(b: &[UserUpdateBind]) -> Vec<Option<String>> {
    b.iter()
        .map(|x| match x {
            UserUpdateBind::Text(s) => Some(s.clone()),
            UserUpdateBind::Quota => None,
        })
        .collect()
}

#[test]
fn admin_update_statement() {
    let (sql, binds) = user_update_query(Some("admin".into()), true, Some("Ann".into()), "u9".into());
    assert_eq!(
        sql,
        "UPDATE user SET updated_at = CURRENT_TIMESTAMP, role = ?, storage_quota = ?, name = ? WHERE id = ?"
    );
    assert_eq!(texts(&binds), vec![Some("admin".to_string()), None, Some("Ann".to_string()), Some("u9".to_string())]);
    let (sql, binds) = user_update_query(None, false, None, "u9".into());
    assert_eq!(sql, "UPDATE user SET updated_at = CURRENT_TIMESTAMP WHERE id = ?");
    assert_eq!(texts(&binds), vec![Some("u9".to_string())]);
}

#[test]
fn profile_update_keeps_what_is_not_given() {
    let p = UserProfile { name: "Ann".into(), avatar: Some("a.png".into()), settings: UserSettings::default() };
    let q = apply_profile_update(p, None, None, None);
    assert_eq!((q.name.as_str(), q.avatar.as_deref(), q.settings.gallery_columns), ("Ann", Some("a.png"), 4));
    let s = UserSettings { theme: "dark".into(), language: "en".into(), gallery_columns: 6 };
    let r = apply_profile_update(q, Some("Bo".into()), Some("b.png".into()), Some(s));
    assert_eq!((r.name.as_str(), r.avatar.as_deref(), r.settings.theme.as_str()), ("Bo", Some("b.png"), "dark"));
}
