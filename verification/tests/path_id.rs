use mycloud::errors::CloudStoreError;
use mycloud::path_id::{FileStatus, PathId};

#[test]
fn test_path_id_new() {
    let id = PathId::new("gdrive", "photos/2026/photo.jpg").unwrap();
    assert_eq!(id.provider(), "gdrive");
    assert_eq!(id.path(), "photos/2026/photo.jpg");
    assert_eq!(id.filename(), "photo.jpg");
    assert_eq!(id.as_str(), "gdrive/photos/2026/photo.jpg");
}

#[test]
fn test_path_id_parse() {
    let id = PathId::parse("gdrive/documents/report.pdf").unwrap();
    assert_eq!(id.provider(), "gdrive");
    assert_eq!(id.path(), "documents/report.pdf");
}

#[test]
fn test_path_id_with_spaces() {
    let id = PathId::new("gdrive", "My Photos/ảnh đẹp.jpg").unwrap();
    assert_eq!(id.path(), "My Photos/ảnh đẹp.jpg");
    assert_eq!(id.filename(), "ảnh đẹp.jpg");
}

#[test]
fn test_path_id_rejects_traversal() {
    assert!(PathId::new("gdrive", "../etc/passwd").is_err());
    assert!(PathId::new("gdrive", "photos/../../secret").is_err());
}

#[test]
fn test_path_id_rejects_empty() {
    assert!(PathId::new("", "file.txt").is_err());
    assert!(PathId::new("gdrive", "").is_err());
}

#[test]
fn test_cache_path() {
    let id = PathId::new("gdrive", "photos/photo.jpg").unwrap();
    assert_eq!(id.to_cache_path("/data/cache"), "/data/cache/gdrive/photos/photo.jpg");
}

#[test]
fn test_meta_path() {
    let id = PathId::new("gdrive", "photos/photo.jpg").unwrap();
    assert_eq!(id.to_meta_path("/data/cache"), "/data/cache/gdrive/photos/photo.jpg.meta.json");
}

#[test]
fn path_id_strips_leading_slashes_and_keeps_text() {
    let id = PathId::new("gdrive", "//a/b.txt").unwrap();
    assert_eq!(id.as_str(), "gdrive/a/b.txt");
    assert_eq!(id.to_string(), "gdrive/a/b.txt");
}

#[test]
fn path_id_errors_are_invalid_path() {
    match PathId::new("gdrive", "a/../b") {
        Err(CloudStoreError::InvalidPath(m)) => assert!(!m.is_empty()),
        _ => panic!("expected InvalidPath"),
    }
    assert!(PathId::parse("noslash").is_err());
}

#[test]
fn parse_gives_back_new() {
    let id = PathId::new("gdrive", "x/y/z.png").unwrap();
    let again = PathId::parse(id.as_str()).unwrap();
    assert_eq!(again.as_str(), id.as_str());
    assert_eq!(again.filename(), "z.png");
}

#[test]
fn file_status_names_round_trip() {
    for s in [FileStatus::Cached, FileStatus::Syncing, FileStatus::Synced, FileStatus::SyncFailed] {
        assert_eq!(FileStatus::from_name(s.as_str()), s);
    }
    assert_eq!(FileStatus::SyncFailed.to_string(), "sync_failed");
    assert_eq!(FileStatus::from_name("bogus"), FileStatus::Cached);
}

#[test]
fn path_id_text_reads_back() {
    let id = PathId::new(" gdrive ", "//My Photos/ảnh đẹp.jpg").unwrap();
    assert_eq!(id.as_str(), "gdrive/My Photos/ảnh đẹp.jpg");
    let again = PathId::parse(id.as_str()).unwrap();
    assert_eq!(again.as_str(), id.as_str());
    let parsed = PathId::parse("/gdrive//docs/a.pdf").unwrap();
    assert_eq!(PathId::parse(parsed.as_str()).unwrap().as_str(), parsed.as_str());
}

#[test]
fn new_identifier_parses_back_with_or_without_leading_slash() {
    let id = PathId::new(" gdrive ", "//photos/2026/a.jpg").unwrap();
    assert_eq!(id.as_str(), "gdrive/photos/2026/a.jpg");
    assert_eq!(PathId::parse(id.as_str()).unwrap().as_str(), id.as_str());
    assert_eq!(PathId::parse(&format!("/{}", id.as_str())).unwrap().as_str(), id.as_str());
}
