use mycloud::server::{
    job_final_status, Config, EnvSettings, HealthResponse, Job, JobKind, MediaTypeStats,
    ProcessJob, SessionResponse, TimelineGroup, TimelineResponse, UserSettings,
};
use mycloud::upload::ProcessingPlan;

fn empty() -> EnvSettings {
    EnvSettings { host: None, port: None, db_path: None, upload_dir: None, jwt_secret: None, admin_email: None, admin_password: None, admin_name: None, max_concurrent_uploads: None, storage_provider: None, cloudstore_url: None, cloudstore_api_key: None }
}

#[test]
fn config_defaults_and_overrides() {
    let c = Config::from_settings(&empty());
    assert_eq!((c.host.as_str(), c.port, c.max_concurrent_uploads), ("0.0.0.0", 3000, 6));
    assert_eq!(c.upload_dir, "./data/uploads");
    assert_eq!(c.storage_provider, "local");
    let mut e = empty();
    e.port = Some("8081".into());
    e.max_concurrent_uploads = Some("x".into());
    e.cloudstore_url = Some("http://cs".into());
    let c2 = Config::from_settings(&e);
    assert_eq!((c2.port, c2.max_concurrent_uploads), (8081, 6));
    assert_eq!(c2.cloudstore_url.as_deref(), Some("http://cs"));
    e.port = Some("99999".into());
    assert_eq!(Config::from_settings(&e).port, 3000);
}

#[test]
fn health_and_stats() {
    let h = HealthResponse::new(false, 5, "0.1.0");
    assert_eq!((h.status.as_str(), h.db_status.as_str(), h.storage_status.as_str()), ("degraded", "error", "ok"));
    assert_eq!(HealthResponse::new(true, 5, "v").status, "healthy");
    let s = MediaTypeStats::new(10, 3, 4);
    assert_eq!((s.images, s.videos, s.other), (3, 4, 3));
    assert_eq!(MediaTypeStats::new(5, 3, 4).other, 0);
}

#[test]
fn timeline_total() {
    let g = |c: i64| TimelineGroup { year: 2026, month: 1, count: c, thumbnails: vec![] };
    let t = TimelineResponse::from_groups(vec![g(3), g(4)]);
    assert_eq!(t.total, 7);
    assert_eq!(TimelineResponse::from_groups(vec![]).total, 0);
}

#[test]
fn jobs_and_sessions() {
    let j = Job { id: "1".into(), job_type: "cleanup_trash".into(), payload: "{}".into(), status: "pending".into(), error: None };
    assert!(matches!(j.kind(), JobKind::CleanupTrash));
    let k = Job { job_type: "ai".into(), ..j };
    assert!(matches!(k.kind(), JobKind::Unknown(m) if m == "Unknown job type: ai"));
    assert_eq!(job_final_status(true), "completed");
    assert_eq!(job_final_status(false), "error");
    let p = ProcessJob { record_id: "r".into(), temp_path: "t".into(), storage_path: "s".into(), mime_type: "video/mp4".into(), video_thumb_path: Some("v".into()), orientation: None, encryption_key: None };
    assert!(matches!(p.plan(), ProcessingPlan::VideoWithThumbnail));
    assert_eq!(SessionResponse::active("sid".into()).status, "active");
    let d = UserSettings::default();
    assert_eq!((d.theme.as_str(), d.language.as_str(), d.gallery_columns), ("system", "vi", 4));
}
