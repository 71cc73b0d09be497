use mycloud::sharing::share_expiry;
use mycloud::accounts::hash_password;
use mycloud::sharing::{
    album_access, check_invitee, check_may_add_media, check_share_access, collaborator_role,
    invite_message, media_removal, new_share_token, share_type_for, shared_media_ids, Album,
    AlbumResponse, MediaRemoval, SharedLink, ShareRefusal, ShareResponse, Timestamp,
};

fn link() -> SharedLink {
    SharedLink {
        id: "l1".into(),
        user_id: "owner".into(),
        token: "tok".into(),
        share_type: "media".into(),
        media_ids: vec!["m1".into(), "m2".into()],
        album_id: None,
        password_hash: None,
        expires_at: Some(Timestamp { unix: 100, subsec_nanos: 0, rfc3339: "1970-01-01T00:01:40+00:00".into() }),
        view_count: 0,
        max_views: Some(2),
        is_active: true,
        sealed_master_key: None,
        created_at: Timestamp { unix: 0, subsec_nanos: 0, rfc3339: "1970-01-01T00:00:00+00:00".into() },
    }
}

#[test]
fn share_tokens() {
    let t = new_share_token();
    assert_eq!(t.len(), 12);
    assert!(t.chars().all(|c| c.is_ascii_hexdigit()));
    assert_eq!(share_type_for(&Some("a".into())), "album");
    assert_eq!(share_type_for(&None), "media");
}

#[test]
fn share_response() {
    let r = ShareResponse::from_link(&link());
    assert_eq!(r.media_count, 2);
    assert!(!r.has_password);
    assert_eq!(r.expires_at.as_deref(), Some("1970-01-01T00:01:40+00:00"));
    assert_eq!(r.created_at, "1970-01-01T00:00:00+00:00");
}

#[test]
fn share_access_checks() {
    let mut l = link();
    assert!(check_share_access(&l, &at(50, 0), None).is_ok());
    assert!(matches!(check_share_access(&l, &at(101, 0), None), Err(ShareRefusal::Expired)));
    l.view_count = 2;
    assert!(matches!(check_share_access(&l, &at(50, 0), None), Err(ShareRefusal::ViewLimitReached)));
    l.view_count = 0;
    l.password_hash = Some(hash_password("pw").unwrap());
    assert!(matches!(check_share_access(&l, &at(50, 0), None), Err(ShareRefusal::PasswordRequired)));
    assert!(matches!(check_share_access(&l, &at(50, 0), Some("no")), Err(ShareRefusal::InvalidPassword)));
    assert!(check_share_access(&l, &at(50, 0), Some("pw")).is_ok());
    assert_eq!(ShareRefusal::Expired.answer(), (403, Some("Share has expired")));
    assert_eq!(ShareRefusal::Internal.answer(), (500, None));
}

#[test]
fn shared_media() {
    let mut l = link();
    assert_eq!(shared_media_ids(&l, None), vec!["m1".to_string(), "m2".to_string()]);
    l.share_type = "album".into();
    l.album_id = Some("a".into());
    assert_eq!(shared_media_ids(&l, Some(vec!["x".into()])), vec!["x".to_string()]);
}

#[test]
fn albums() {
    let a = Album { id: "a".into(), user_id: "o".into(), name: "N".into(), description: None, cover_media_id: None, created_at: "c".into(), updated_at: "u".into() };
    let r: AlbumResponse<u8> = AlbumResponse::from_album_with_details(&a, 3, vec![1, 2]);
    assert_eq!((r.media_count, r.preview_media.len(), r.created_at.as_str()), (3, 2, "c"));
    assert_eq!(album_access("o", "o", None), Ok(("owner".to_string(), true)));
    assert_eq!(album_access("o", "x", Some(("viewer".into(), false))), Ok(("viewer".to_string(), false)));
    assert_eq!(album_access("o", "x", None), Err(404));
    assert_eq!(check_may_add_media("viewer"), Err(403));
    assert_eq!(check_may_add_media("contributor"), Ok(()));
    assert!(matches!(media_removal("owner"), Ok(MediaRemoval::Any)));
    assert!(matches!(media_removal("contributor"), Ok(MediaRemoval::OwnOnly)));
    assert!(matches!(media_removal("viewer"), Err(403)));
    assert_eq!(collaborator_role("contributor"), "contributor");
    assert_eq!(collaborator_role("admin"), "viewer");
    assert_eq!(check_invitee(None, "me"), Err(404));
    assert_eq!(check_invitee(Some("me".into()), "me"), Err(400));
    assert_eq!(check_invitee(Some("you".into()), "me"), Ok("you".to_string()));
    assert_eq!(invite_message("An", "Trip"), "An đã mời bạn tham gia album 'Trip'");
}

#[test]
fn share_expiry_adds_hours() {
    assert_eq!(share_expiry(1_000, 250, Some(2)), Some((8_200, 250)));
    assert_eq!(share_expiry(1_000, 250, None), None);
    assert_eq!(share_expiry(0, 0, Some(-1)), Some((-3_600, 0)));
}

fn at(unix: i64, subsec_nanos: u32) -> Timestamp {
    Timestamp { unix, subsec_nanos, rfc3339: String::new() }
}

#[test]
fn share_expiry_is_exact_to_the_nanosecond() {
    let l = link();
    assert!(check_share_access(&l, &at(100, 0), None).is_ok());
    assert!(matches!(check_share_access(&l, &at(100, 1), None), Err(ShareRefusal::Expired)));
    assert!(matches!(check_share_access(&l, &at(100, 500_000_000), None), Err(ShareRefusal::Expired)));
}

#[test]
fn malformed_share_hash_is_internal_and_wrong_password_invalid() {
    let mut l = link();
    l.password_hash = Some("not-a-bcrypt-hash".into());
    assert!(matches!(check_share_access(&l, &at(50, 0), Some("pw")), Err(ShareRefusal::Internal)));
    l.password_hash = Some(bcrypt::hash("pw", 4).unwrap());
    assert!(matches!(check_share_access(&l, &at(50, 0), Some("no")), Err(ShareRefusal::InvalidPassword)));
    assert!(check_share_access(&l, &at(50, 0), Some("pw")).is_ok());
}
