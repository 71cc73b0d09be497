use mycloud::storage::{
    create_provider, delete_succeeded, file_extension, file_stem, serve_url, thumbnail_ladder,
    thumbnail_path, thumbnail_url, CloudStoreProvider, LocalStorageProvider, ProviderChoice, ThumbnailSize,
};

fn s(v: Option<Vec<char>>) -> Option<String> {
    v.map(|c| c.into_iter().collect())
}

#[test]
fn sizes() {
    assert_eq!(ThumbnailSize::Micro.as_str(), "micro");
    assert_eq!(ThumbnailSize::Web.pixels(), 1920);
    assert_eq!(ThumbnailSize::Large.pixels(), 800);
    assert_eq!(thumbnail_ladder(), [ThumbnailSize::Large, ThumbnailSize::Medium, ThumbnailSize::Small, ThumbnailSize::Micro]);
}

#[test]
fn stems_and_extensions() {
    let c = |t: &str| t.chars().collect::<Vec<char>>();
    assert_eq!(s(file_stem(&c("a.b.jpg"))).as_deref(), Some("a.b"));
    assert_eq!(s(file_stem(&c(".bashrc"))).as_deref(), Some(".bashrc"));
    assert_eq!(s(file_stem(&c(".."))), None);
    assert_eq!(s(file_extension(&c("a.b.jpg"))).as_deref(), Some("jpg"));
    assert_eq!(s(file_extension(&c("noext"))), None);
    assert_eq!(s(file_extension(&c("a."))).as_deref(), Some(""));
}

#[test]
fn thumbnail_paths() {
    assert_eq!(thumbnail_path("u/2026/01/02/ab/uuid/uuid.jpg", ThumbnailSize::Small), "u/2026/01/02/ab/uuid/small.webp");
    assert_eq!(thumbnail_path("u/dir/photo.jpg", ThumbnailSize::Micro), "u/.thumbnails/micro/photo.webp");
    assert_eq!(thumbnail_path("photo.jpg", ThumbnailSize::Web), "photo.jpg/.thumbnails/web/photo.webp");
}

#[test]
fn serve_urls() {
    assert_eq!(serve_url("u/a b.jpg"), "/api/media/serve/u%2Fa%20b.jpg");
    assert_eq!(serve_url("ảnh"), "/api/media/serve/%E1%BA%A3nh");
}

#[test]
fn back_ends() {
    let l = LocalStorageProvider::new("/data/uploads".into());
    assert_eq!(l.abs_path("u/x.jpg"), "/data/uploads/u/x.jpg");
    let c = CloudStoreProvider::new("http://cs:8080//", Some("k"));
    assert_eq!(c.base_url, "http://cs:8080");
    assert_eq!(c.file_url("a/b"), "http://cs:8080/api/files/gdrive/a/b");
    assert_eq!(c.auth_header(), Some(("Authorization".to_string(), "Bearer k".to_string())));
    assert!(delete_succeeded(204) && delete_succeeded(404) && !delete_succeeded(500));
    assert!(matches!(create_provider("cloudstore", "/d", Some("http://x/"), None), ProviderChoice::CloudStore(p) if p.base_url == "http://x"));
    assert!(matches!(create_provider("local", "/d", None, None), ProviderChoice::Local(p) if p.base_dir == "/d"));
}

#[test]
fn stored_thumbnail_is_served_at_its_thumbnail_url() {
    let stored = thumbnail_path("u1/photo.jpg", ThumbnailSize::Small);
    assert_eq!(stored, "u1/.thumbnails/small/photo.webp");
    assert_eq!(thumbnail_url("u1/photo.jpg", ThumbnailSize::Small), serve_url(&stored));
    assert_eq!(thumbnail_url("u1/photo.jpg", ThumbnailSize::Small), "/api/media/serve/u1%2F.thumbnails%2Fsmall%2Fphoto.webp");
}

#[test]
fn cloudstore_provider_files_under_gdrive() {
    match create_provider("cloudstore", "/d", Some("http://x//"), Some("k")) {
        ProviderChoice::CloudStore(p) => {
            assert_eq!(p.provider, "gdrive");
            assert_eq!(p.file_url("a/b.jpg"), "http://x/api/files/gdrive/a/b.jpg");
        }
        _ => panic!(),
    }
    assert!(matches!(create_provider("CloudStore", "/d", None, None), ProviderChoice::Local(_)));
}
