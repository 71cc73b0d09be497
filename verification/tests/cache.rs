use mycloud::cache::{
    is_meta_file_name, list_pattern, sidecar_to_path_id, stored_meta, streamed_meta, CacheCleaner,
    EvictionRun,
};
use mycloud::errors::CloudStoreError;
use mycloud::hasher::StreamHash;
use mycloud::path_id::{FileMeta, FileStatus, PathId};

fn entry(name: &str, size: u64, created: i64) -> (String, FileMeta) {
    let mut m = FileMeta::new_cached(name.into(), "h".into(), size, "x".into(), "gdrive".into());
    m.created_at = created;
    m.status = FileStatus::Synced;
    (format!("gdrive/{}", name), m)
}

#[test]
fn cleaner_basics() {
    let c = CacheCleaner::new(100);
    assert_eq!(c.max_size_bytes(), 100);
    assert!(c.needs_eviction(101));
    assert!(!c.needs_eviction(100));
}

#[test]
fn candidates_oldest_first_and_stable() {
    let c = CacheCleaner::new(0);
    let synced = vec![entry("c", 3, 30), entry("a", 1, 10), entry("b1", 2, 20), entry("b2", 4, 20)];
    let r = c.eviction_candidates(&synced);
    let names: Vec<&str> = r.iter().map(|(p, _)| p.as_str()).collect();
    assert_eq!(names, vec!["gdrive/a", "gdrive/b1", "gdrive/b2", "gdrive/c"]);
    assert_eq!(r[3].1, 3);
}

#[test]
fn eviction_stops_within_limit() {
    let mut run = EvictionRun::new(100, 60);
    assert!(run.over_limit());
    run.record_evicted(30);
    assert!(run.over_limit());
    run.record_evicted(10);
    assert!(!run.over_limit());
    assert_eq!(run.freed(), 40);
}

#[test]
fn stored_and_streamed_meta() {
    let id = PathId::new("gdrive", "docs/readme.txt").unwrap();
    let m = stored_meta(&id, b"hello world");
    assert_eq!(m.original_name, "readme.txt");
    assert_eq!(m.content_hash, "sha256:b94d27b9934d3e08a52e52d7da7dabfac484efe37a5380ee9088f7ace2efcde9");
    assert_eq!(m.size_bytes, 11);
    assert_eq!(m.mime_type, "text/plain");
    assert_eq!(m.cloud_provider, "gdrive");
    let mut h = StreamHash::new();
    h.update(b"hello");
    h.update(b" world");
    let s = streamed_meta(&id, h);
    assert_eq!(s.content_hash, "b94d27b9934d3e08a52e52d7da7dabfac484efe37a5380ee9088f7ace2efcde9");
    assert_eq!(s.size_bytes, 11);
}

#[test]
fn index_patterns_and_sidecars() {
    assert_eq!(list_pattern("gdrive", Some("//photos")), "gdrive/photos%");
    assert_eq!(list_pattern("gdrive", None), "gdrive/%");
    assert!(is_meta_file_name("a.jpg.meta.json"));
    assert!(!is_meta_file_name("a.json"));
    assert_eq!(sidecar_to_path_id("gdrive\\photos\\a.jpg.meta.json").unwrap(), "gdrive/photos/a.jpg");
    match sidecar_to_path_id("gdrive/a.json") {
        Err(CloudStoreError::InvalidPath(m)) => assert_eq!(m, "invalid meta filename: gdrive/a.json"),
        _ => panic!(),
    }
}

#[test]
fn only_synced_files_are_eviction_candidates() {
    let c = CacheCleaner::new(0);
    let mut cached = entry("new", 5, 1);
    cached.1.status = FileStatus::Cached;
    let mut syncing = entry("busy", 6, 2);
    syncing.1.status = FileStatus::Syncing;
    let mut failed = entry("bad", 7, 3);
    failed.1.status = FileStatus::SyncFailed;
    let rows = vec![entry("z", 1, 40), cached, syncing, entry("y", 2, 30), failed];
    let r = c.eviction_candidates(&rows);
    assert_eq!(r, vec![("gdrive/y".to_string(), 2), ("gdrive/z".to_string(), 1)]);
}
