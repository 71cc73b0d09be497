use mycloud::cloud_api::{
    after_delete, check_bearer, claim_cloud_caching, plan_download, record_encryption,
    render_prometheus, ActiveDownloads, ApiError, AppMetrics, CloudCaching, DownloadSource,
    MetricsSnapshot,
};
use mycloud::errors::CloudStoreError;
use mycloud::path_id::{FileMeta, PathId};

fn meta() -> FileMeta {
    FileMeta::new_cached("p.jpg".to_string(), "h".to_string(), 3, "image/jpeg".to_string(), "gdrive".to_string())
}

#[test]
fn api_error_answers() {
    let (s, m) = ApiError::from(CloudStoreError::NotFound("x".into())).status_and_message();
    assert_eq!((s, m.as_str()), (404, "x"));
    let (s, m) = ApiError::from(CloudStoreError::UploadTooLarge { size: 10, limit: 5 }).status_and_message();
    assert_eq!((s, m.as_str()), (413, "File size 10 exceeds limit 5"));
    let (s, m) = ApiError::from(CloudStoreError::SyncError("boom".into())).status_and_message();
    assert_eq!((s, m.as_str()), (500, "Sync error: boom"));
    assert_eq!(ApiError::from(CloudStoreError::CacheFull("f".into())).status_and_message().0, 507);
    assert_eq!(ApiError::from(CloudStoreError::AlreadyExists("f".into())).status_and_message().0, 409);
    assert_eq!(ApiError::from(CloudStoreError::InvalidPath("f".into())).status_and_message().0, 400);
    assert_eq!(ApiError::from(CloudStoreError::Unauthorized("f".into())).status_and_message().0, 401);
}

#[test]
fn bearer_checks() {
    assert_eq!(check_bearer(None, None), None);
    assert_eq!(check_bearer(Some("k"), Some("Bearer k")), None);
    assert_eq!(check_bearer(Some("k"), Some("Bearer j")).as_deref(), Some("Invalid API key"));
    assert_eq!(check_bearer(Some("k"), Some("Basic k")).as_deref(), Some("Authorization header must use Bearer scheme"));
    assert_eq!(check_bearer(Some("k"), None).as_deref(), Some("Missing Authorization header"));
}

#[test]
fn download_plans() {
    let id = PathId::new("gdrive", "p.jpg").unwrap();
    match plan_download(&id, None, false, true) {
        Err(CloudStoreError::NotFound(m)) => assert_eq!(m, "gdrive/p.jpg"),
        _ => panic!(),
    }
    let mut m = meta();
    assert!(matches!(plan_download(&id, Some(&m), true, false), Ok(DownloadSource::Cache)));
    match plan_download(&id, Some(&m), false, true) {
        Err(CloudStoreError::NotFound(msg)) => assert_eq!(msg, "File gdrive/p.jpg not found on disk and has no cloud URL"),
        _ => panic!(),
    }
    m.cloud_url = Some("https://drive.google.com/file/d/X/view".into());
    match plan_download(&id, Some(&m), false, false) {
        Err(CloudStoreError::SyncError(msg)) => assert_eq!(msg, "Cloud provider not available. Set up GDrive OAuth2 first."),
        _ => panic!(),
    }
    match plan_download(&id, Some(&m), false, true) {
        Ok(DownloadSource::Cloud(u)) => assert_eq!(u, "https://drive.google.com/file/d/X/view"),
        _ => panic!(),
    }
}

#[test]
fn only_one_download_caches_a_file() {
    let mut active = ActiveDownloads::new();
    assert!(matches!(claim_cloud_caching(&mut active, "a", true), CloudCaching::Background));
    assert!(matches!(claim_cloud_caching(&mut active, "a", false), CloudCaching::PassThrough));
    assert!(matches!(claim_cloud_caching(&mut active, "b", false), CloudCaching::Tee));
    assert!(active.contains("a") && active.contains("b"));
    assert!(active.remove("a"));
    assert!(!active.remove("a"));
    assert!(!active.contains("a"));
    assert!(matches!(claim_cloud_caching(&mut active, "a", false), CloudCaching::Tee));
    assert!(!active.insert("b".to_string()));
}

#[test]
fn delete_targets() {
    let id = PathId::new("gdrive", "p.jpg").unwrap();
    let mut m = meta();
    m.cloud_url = Some("u".into());
    assert!(matches!(after_delete(&id, false, Some(&m), true), Err(CloudStoreError::NotFound(_))));
    assert_eq!(after_delete(&id, true, Some(&m), true).ok().flatten().as_deref(), Some("u"));
    assert_eq!(after_delete(&id, true, Some(&m), false).ok().flatten(), None);
    let mut m2 = meta();
    record_encryption(&mut m2, "iv".into(), "check".into());
    assert!(m2.is_encrypted);
    assert_eq!(m2.encryption_iv.as_deref(), Some("iv"));
}

#[test]
fn prometheus_text() {
    let s = MetricsSnapshot { uploads: 1, downloads_cache: 2, downloads_cloud: 3, deletes: 4, sync_success: 5, sync_failure: 6, bytes_uploaded: 7, bytes_downloaded: 8 };
    let text = render_prometheus(&s);
    assert!(text.starts_with("# HELP cloudstore_uploads_total Total file uploads.\n# TYPE cloudstore_uploads_total counter\ncloudstore_uploads_total 1\n"));
    assert!(text.ends_with("cloudstore_bytes_downloaded_total 8\n"));
    let m = AppMetrics::new();
    m.inc_uploads();
    m.add_bytes_uploaded(10);
    let out = m.to_prometheus();
    assert!(out.contains("cloudstore_uploads_total 1\n"));
    assert!(out.contains("cloudstore_bytes_uploaded_total 10\n"));
}

#[test]
fn shared_sync_counters_feed_the_metrics() {
    let m = AppMetrics::new();
    let ok = m.sync_success_counter();
    let failed = m.sync_failure_counter();
    ok.fetch_add(3, std::sync::atomic::Ordering::Relaxed);
    failed.fetch_add(2, std::sync::atomic::Ordering::Relaxed);
    let s = m.snapshot();
    assert_eq!((s.sync_success, s.sync_failure), (3, 2));
    assert_eq!((s.uploads, s.deletes, s.bytes_downloaded), (0, 0, 0));
    let out = m.to_prometheus();
    assert!(out.contains("cloudstore_sync_success_total 3\n"));
    assert!(out.contains("cloudstore_sync_failure_total 2\n"));
}
