use mycloud::crypto::{derive_dek, generate_master_key, seal_master_key};
use mycloud::media::{
    after_collaborator, attachment_disposition, decode_serve_path, download_master_key,
    first_cookie, first_key_search, link_key, media_key, path_owner_prefix, scan_cookies,
    KeySearch, MediaThumbnails,
};
use mycloud::session::{parse_cookies, session_claims};
use mycloud::sharing::{SharedLink, Timestamp};

#[test]
fn thumbnails_are_served() {
    let t = MediaThumbnails { micro: Some("u/a b.webp".into()), small: None, medium: None, large: None, web: Some("w".into()) };
    let s = t.served();
    assert_eq!(s.micro.as_deref(), Some("/api/media/serve/u%2Fa%20b.webp"));
    assert_eq!(s.small, None);
    let g = t.geo_served();
    assert_eq!(g.web.as_deref(), Some("/api/media/serve/w"));
}

#[test]
fn serve_paths() {
    assert_eq!(decode_serve_path("u%2Fa%20b.jpg"), "u/a b.jpg");
    assert_eq!(decode_serve_path("%FF"), "");
    assert_eq!(path_owner_prefix("u1/2026/x.jpg"), "u1");
    assert_eq!(path_owner_prefix("nodir"), "nodir");
}

#[test]
fn cookie_scan() {
    let pairs = parse_cookies(&vec!["__mc_mk=early; __mc=t1; __mc_mk=late; __mc=t2".to_string()]);
    let verified = vec![None, Some("alice".to_string()), None, None];
    let (user, sealed) = scan_cookies(&pairs, &verified);
    assert_eq!(user.as_deref(), Some("alice"));
    assert_eq!(sealed.as_deref(), Some("early"));
    assert_eq!(first_cookie(&pairs, "__mc_mk").as_deref(), Some("early"));
    assert_eq!(first_cookie(&pairs, "nope"), None);
}

#[test]
fn key_search_steps() {
    assert!(matches!(first_key_search("o", Some("o"), Some("k".into()), None), KeySearch::Sealed { sealed, key_owner } if sealed == "k" && key_owner == "o"));
    assert!(matches!(first_key_search("o", Some("o"), None, Some("x".into())), KeySearch::AskShareLink));
    assert!(matches!(first_key_search("o", Some("c"), Some("k".into()), None), KeySearch::AskCollaborator { user_id } if user_id == "c"));
    assert!(matches!(first_key_search("o", None, None, Some("x".into())), KeySearch::Sealed { sealed, .. } if sealed == "x"));
    assert!(matches!(after_collaborator("o", None), KeySearch::AskShareLink));
    assert!(matches!(after_collaborator("o", Some("s".into())), KeySearch::Sealed { key_owner, .. } if key_owner == "o"));
}

#[test]
fn link_keys() {
    let mut l = SharedLink {
        id: "l".into(), user_id: "o".into(), token: "t".into(), share_type: "media".into(),
        media_ids: vec!["m1".into()], album_id: None, password_hash: None,
        expires_at: Some(Timestamp { unix: 10, subsec_nanos: 0, rfc3339: "x".into() }), view_count: 0, max_views: None,
        is_active: true, sealed_master_key: Some("s".into()), created_at: Timestamp { unix: 0, subsec_nanos: 0, rfc3339: "y".into() },
    };
    assert_eq!(link_key(&l, &at(5, 0), "m1", false), Some((Some("s".to_string()), "o".to_string())));
    assert_eq!(link_key(&l, &at(5, 0), "m2", false), None);
    assert_eq!(link_key(&l, &at(11, 0), "m1", false), None);
    assert_eq!(link_key(&l, &at(10, 0), "m1", false), Some((Some("s".to_string()), "o".to_string())));
    assert_eq!(link_key(&l, &at(10, 1), "m1", false), None);
    l.share_type = "album".into();
    l.album_id = Some("a".into());
    assert!(link_key(&l, &at(5, 0), "zz", true).is_some());
    assert!(link_key(&l, &at(5, 0), "m1", false).is_none());
}

#[test]
fn media_keys() {
    let mk = generate_master_key();
    let sealed = seal_master_key(&mk, "secret", "owner").unwrap();
    assert_eq!(media_key(&sealed, "secret", "owner", "m1"), Some(derive_dek(&mk, "m1")));
    assert_eq!(media_key(&sealed, "secret", "other", "m1"), None);
    let own = session_claims("owner", "e", "user", Some(&sealed), 0);
    assert_eq!(download_master_key(&own, "secret", "owner", None), Some(mk));
    let other = session_claims("guest", "e", "user", None, 0);
    assert_eq!(download_master_key(&other, "secret", "owner", Some(&sealed)), Some(mk));
    assert_eq!(download_master_key(&other, "secret", "owner", None), None);
    assert_eq!(attachment_disposition("a.jpg"), "attachment; filename=\"a.jpg\"");
}

fn at(unix: i64, subsec_nanos: u32) -> Timestamp {
    Timestamp { unix, subsec_nanos, rfc3339: String::new() }
}

#[test]
fn serve_path_decoding_edges() {
    assert_eq!(decode_serve_path("a+b"), "a+b");
    assert_eq!(decode_serve_path("100%"), "100%");
    assert_eq!(decode_serve_path("%4"), "%4");
    assert_eq!(decode_serve_path("%4g%41"), "%4gA");
    assert_eq!(decode_serve_path("%%41"), "%A");
    assert_eq!(decode_serve_path("%c3%a9"), "é");
    assert_eq!(decode_serve_path("plain"), "plain");
}
