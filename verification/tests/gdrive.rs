use mycloud::gdrive::{
    auth_success_page, callback_code, callback_port, callback_url, check_credentials_path,
    consent_url, drive_view_url, error_page, exchange_failed_page, file_id_from_url, file_query,
    folder_key, folder_query, quota_value, remote_full_path, split_remote_path, token_cache_path, token_form,
    uploaded_file_id, CallbackQuery, FolderCache, FolderStep, FolderWalk, ProviderHealth,
};

#[test]
fn remote_paths() {
    assert_eq!(remote_full_path(Some("backup"), "a/b.jpg"), "backup/a/b.jpg");
    assert_eq!(remote_full_path(None, "a/b.jpg"), "a/b.jpg");
    let (folders, name) = split_remote_path("backup/a/b.jpg");
    assert_eq!(folders, vec!["backup".to_string(), "a".to_string()]);
    assert_eq!(name, "b.jpg");
    let (folders, name) = split_remote_path("b.jpg");
    assert!(folders.is_empty());
    assert_eq!(name, "b.jpg");
}

#[test]
fn queries_and_urls() {
    assert_eq!(folder_key("root", "x"), "root/x");
    assert_eq!(folder_query("x", "root"), "name = 'x' and 'root' in parents and mimeType = 'application/vnd.google-apps.folder' and trashed = false");
    assert_eq!(file_query("f.jpg", "p"), "name = 'f.jpg' and 'p' in parents and trashed = false");
    assert_eq!(drive_view_url("ID1"), "https://drive.google.com/file/d/ID1/view");
    assert_eq!(file_id_from_url(&drive_view_url("ID1")), "ID1");
    assert_eq!(file_id_from_url("plain-id"), "plain-id");
    assert_eq!(file_id_from_url("https://drive.google.com/open?id=1"), "https://drive.google.com/open?id=1");
}

#[test]
fn provider_results() {
    assert_eq!(uploaded_file_id(Some("old".into()), None).unwrap(), "old");
    assert_eq!(uploaded_file_id(Some("old".into()), Some("new".into())).unwrap(), "new");
    assert_eq!(uploaded_file_id(None, Some("new".into())).unwrap(), "new");
    assert!(uploaded_file_id(None, None).is_err());
    assert_eq!(quota_value(Some(-1)), None);
    assert_eq!(quota_value(Some(7)), Some(7));
    let h = ProviderHealth::from_quota(Some(5), Some(-3));
    assert!(h.available);
    assert_eq!((h.storage_used, h.storage_limit), (Some(5), None));
    assert!(check_credentials_path("").is_err());
    assert!(check_credentials_path("c.json").is_ok());
}

#[test]
fn folder_walk_resolves_each_folder_once() {
    let mut cache = FolderCache::new();
    let parts = vec!["a".to_string(), "".to_string(), "b".to_string()];
    let mut walk = FolderWalk::new("root", parts.clone());
    match walk.advance(&cache) {
        FolderStep::Resolve { folder_name, parent, cache_key, .. } => {
            assert_eq!(folder_name, "a");
            assert_eq!(parent, "root");
            assert_eq!(cache_key, "root/a");
        }
        _ => panic!(),
    }
    walk.resolved(&mut cache, "A".into());
    match walk.advance(&cache) {
        FolderStep::Resolve { folder_name, parent, cache_key, .. } => {
            assert_eq!(folder_name, "b");
            assert_eq!(parent, "A");
            assert_eq!(cache_key, "A/b");
        }
        _ => panic!(),
    }
    walk.resolved(&mut cache, "B".into());
    assert!(matches!(walk.advance(&cache), FolderStep::Done(id) if id == "B"));
    // A second upload into the same folders needs no Drive lookups.
    let mut again = FolderWalk::new("root", parts);
    assert!(matches!(again.advance(&cache), FolderStep::Done(id) if id == "B"));
    assert_eq!(cache.get("root/a").as_deref(), Some("A"));
}

#[test]
fn authorisation_pages() {
    assert_eq!(callback_port(Some("9000")), 9000);
    assert_eq!(callback_port(Some("70000")), 8080);
    assert_eq!(callback_port(None), 8080);
    assert_eq!(callback_url(8080), "http://localhost:8080/api/auth/gdrive/callback");
    assert_eq!(
        consent_url("id 1", "http://x/cb"),
        "https://accounts.google.com/o/oauth2/auth?client_id=id%201&redirect_uri=http%3A%2F%2Fx%2Fcb&response_type=code&scope=https://www.googleapis.com/auth/drive&access_type=offline&prompt=consent"
    );
    assert_eq!(token_form("c", "i", "s", "r"), "code=c&client_id=i&client_secret=s&redirect_uri=r&grant_type=authorization_code");
    let denied = callback_code(&CallbackQuery { code: None, error: Some("access_denied".into()) }).unwrap_err();
    assert_eq!(denied.status, 400);
    assert!(denied.html.contains("Authorization Failed</h1><p>access_denied</p>"));
    let missing = callback_code(&CallbackQuery { code: None, error: None }).unwrap_err();
    assert!(missing.html.contains("Missing authorization code"));
    assert_eq!(callback_code(&CallbackQuery { code: Some("c".into()), error: None }).ok().as_deref(), Some("c"));
    assert_eq!(exchange_failed_page("e").status, 400);
    assert_eq!(error_page("e").html, "<html><body><h1>❌ Error</h1><p>e</p></body></html>");
    assert!(auth_success_page("/t.json").contains("<code>/t.json</code>"));
}

#[test]
fn token_cache_sits_next_to_credentials() {
    assert_eq!(token_cache_path("/etc/app/client_secret.json"), "/etc/app/gdrive_token_cache.json");
    assert_eq!(token_cache_path("conf/client_secret.json"), "conf/gdrive_token_cache.json");
    assert_eq!(token_cache_path("client_secret.json"), "gdrive_token_cache.json");
    assert_eq!(token_cache_path(""), "./gdrive_token_cache.json");
}

#[test]
fn folder_walk_over_no_names_stays_at_root() {
    let cache = FolderCache::new();
    let mut none = FolderWalk::new("root", vec![]);
    assert!(matches!(none.advance(&cache), FolderStep::Done(id) if id == "root"));
    let mut empties = FolderWalk::new("root", vec!["".to_string(), "".to_string()]);
    assert!(matches!(empties.advance(&cache), FolderStep::Done(id) if id == "root"));
}
