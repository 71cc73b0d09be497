use mycloud::errors::CloudStoreError;
use mycloud::path_id::{FileMeta, FileStatus, PathId};
use mycloud::sync::{
    after_attempt, mark_sync_failed, mark_synced, mark_syncing, plan_sync, SyncJob, SyncMetrics,
    SyncSource, SyncStep, WorkerConfig,
};
use std::sync::atomic::{AtomicU64, Ordering};
use std::sync::Arc;
use std::time::Duration;

fn meta() -> FileMeta {
    FileMeta::new_cached("a.txt".into(), "h".into(), 1, "text/plain".into(), "gdrive".into())
}

#[test]
fn worker_config_defaults() {
    let c = WorkerConfig::default();
    assert_eq!(c.worker_count, 4);
    assert_eq!(c.retry_max, 5);
    assert_eq!(c.retry_base_delay, Duration::from_secs(2));
    assert_eq!(c.retry_max_delay, Duration::from_secs(120));
}

#[test]
fn sync_job_starts_at_zero() {
    let j = SyncJob::new(PathId::new("gdrive", "a.txt").unwrap());
    assert_eq!(j.retry_count, 0);
    assert_eq!(j.path_id.as_str(), "gdrive/a.txt");
}

#[test]
fn retries_then_gives_up() {
    let c = WorkerConfig::default();
    let job = SyncJob::new(PathId::new("gdrive", "a.txt").unwrap());
    match after_attempt(job, Err(CloudStoreError::SyncError("x".into())), &c) {
        SyncStep::RetryLater { delay, job } => {
            assert_eq!(delay, Duration::from_secs(2));
            assert_eq!(job.retry_count, 1);
        }
        _ => panic!("expected a retry"),
    }
    let last = SyncJob { path_id: PathId::new("gdrive", "a.txt").unwrap(), retry_count: 5 };
    assert!(matches!(after_attempt(last, Err(CloudStoreError::SyncError("x".into())), &c), SyncStep::MarkFailed { retry_count: 5 }));
    let ok = SyncJob::new(PathId::new("gdrive", "a.txt").unwrap());
    match after_attempt(ok, Ok("url".into()), &c) {
        SyncStep::MarkSynced { cloud_url } => assert_eq!(cloud_url, "url"),
        _ => panic!(),
    }
}

#[test]
fn sync_plans() {
    let id = PathId::new("gdrive", "a.txt").unwrap();
    let m = meta();
    assert!(matches!(plan_sync(&id, Some(&m), Some("u".into()), false), Ok(SyncSource::Reuse(u)) if u == "u"));
    match plan_sync(&id, Some(&m), None, false) {
        Err(CloudStoreError::NotFound(msg)) => assert_eq!(msg, "Cache file missing: gdrive/a.txt"),
        _ => panic!(),
    }
    assert!(matches!(plan_sync(&id, None, None, true), Ok(SyncSource::Upload { mime_type }) if mime_type == "application/octet-stream"));
    assert!(matches!(plan_sync(&id, Some(&m), None, true), Ok(SyncSource::Upload { mime_type }) if mime_type == "text/plain"));
}

#[test]
fn meta_transitions() {
    let mut m = meta();
    mark_syncing(&mut m);
    assert_eq!(m.status, FileStatus::Syncing);
    mark_synced(&mut m, "u".into(), 42);
    assert_eq!(m.status, FileStatus::Synced);
    assert_eq!(m.cloud_url.as_deref(), Some("u"));
    assert_eq!(m.synced_at, Some(42));
    mark_sync_failed(&mut m, 5);
    assert_eq!(m.status, FileStatus::SyncFailed);
    assert_eq!(m.retry_count, 5);
    assert_eq!(m.original_name, "a.txt");
}

#[test]
fn metrics_count() {
    let s = Arc::new(AtomicU64::new(0));
    let f = Arc::new(AtomicU64::new(0));
    let m = SyncMetrics::new(s.clone(), f.clone());
    m.inc_success();
    m.inc_success();
    m.inc_failure();
    assert_eq!(s.load(Ordering::Relaxed), 2);
    assert_eq!(f.load(Ordering::Relaxed), 1);
}
