use mycloud::store_config::{recovery_jobs, StoreConfig, StoreConfigError, StoreSettings};

fn unset() -> StoreSettings {
    StoreSettings {
        host: None,
        port: None,
        cache_dir: None,
        sync_workers: None,
        sync_retry_max: None,
        max_upload_size: None,
        api_key: None,
        cache_max_size: None,
        gdrive_credentials_path: None,
        gdrive_folder_id: None,
        gdrive_path_prefix: None,
    }
}

#[test]
fn store_config_defaults() {
    let c = StoreConfig::from_settings(&unset()).unwrap();
    assert_eq!(c.host, "0.0.0.0");
    assert_eq!(c.port, 8080);
    assert_eq!(c.cache_dir, "/data/cache");
    assert_eq!(c.sync_workers, 4);
    assert_eq!(c.sync_retry_max, 5);
    assert_eq!(c.max_upload_size, 10 * 1024 * 1024 * 1024);
    assert_eq!(c.api_key, None);
    assert_eq!(c.cache_max_bytes, 500_000_000_000);
    assert_eq!(c.gdrive_credentials_path, "");
    assert_eq!(c.gdrive_folder_id, "root");
    assert_eq!(c.gdrive_path_prefix, None);
}

#[test]
fn store_config_reads_settings() {
    let mut s = unset();
    s.port = Some("+9000".into());
    s.sync_workers = Some("16".into());
    s.sync_retry_max = Some("many".into());
    s.max_upload_size = Some("1048576".into());
    s.api_key = Some("secret".into());
    s.cache_max_size = Some("1TB".into());
    s.gdrive_path_prefix = Some("".into());
    let c = StoreConfig::from_settings(&s).unwrap();
    assert_eq!(c.port, 9000);
    assert_eq!(c.sync_workers, 16);
    assert_eq!(c.sync_retry_max, 5);
    assert_eq!(c.max_upload_size, 1048576);
    assert_eq!(c.api_key.as_deref(), Some("secret"));
    assert_eq!(c.cache_max_bytes, 1_000_000_000_000);
    assert_eq!(c.gdrive_path_prefix, None);
    s.cache_max_size = Some("4096".into());
    s.api_key = Some("".into());
    let c = StoreConfig::from_settings(&s).unwrap();
    assert_eq!(c.cache_max_bytes, 4096);
    assert_eq!(c.api_key, None);
    s.cache_max_size = Some("2 GiB".into());
    assert_eq!(StoreConfig::from_settings(&s).unwrap().cache_max_bytes, 2 * 1_073_741_824);
}

#[test]
fn store_config_refuses_bad_port_and_size() {
    let mut s = unset();
    s.port = Some("70000".into());
    assert!(matches!(StoreConfig::from_settings(&s), Err(StoreConfigError::InvalidPort)));
    s.port = Some("http".into());
    s.cache_max_size = Some("lots".into());
    assert!(matches!(StoreConfig::from_settings(&s), Err(StoreConfigError::InvalidPort)));
    s.port = None;
    assert!(matches!(StoreConfig::from_settings(&s), Err(StoreConfigError::InvalidCacheSize)));
    s.cache_max_size = Some("12 parsecs".into());
    assert!(matches!(StoreConfig::from_settings(&s), Err(StoreConfigError::InvalidCacheSize)));
}

#[test]
fn recovery_requeues_cached_then_failed() {
    let cached = vec!["gdrive/a/1.jpg".to_string(), "nonsense".to_string(), "/gdrive/b.png".to_string()];
    let failed = vec!["gdrive/c.mp4".to_string()];
    let jobs = recovery_jobs(&cached, &failed);
    let ids: Vec<String> = jobs.iter().map(|j| j.path_id.as_str().to_string()).collect();
    assert_eq!(ids, vec!["gdrive/a/1.jpg", "gdrive/b.png", "gdrive/c.mp4"]);
    assert!(jobs.iter().all(|j| j.retry_count == 0));
    assert!(recovery_jobs(&vec![], &vec![]).is_empty());
}
