//! Background synchronisation of cached files to the cloud: jobs, worker settings, counters,
//! and the decisions a worker takes around each upload.
use std::sync::atomic::AtomicU64;
use std::sync::Arc;
use std::time::Duration;
use vstd::prelude::*;

use crate::errors::CloudStoreError;
use crate::path_id::{FileMeta, FileStatus, PathId};
use crate::retry::{backoff_delay, backoff_nanos, duration_from_secs, duration_nanos, should_retry};
use crate::text::{push_str, string_from_chars};

verus! {

broadcast use vstd::string::group_string_axioms;

/// A sync job to be processed by a worker.
pub struct SyncJob {
    pub path_id: PathId,
    pub retry_count: u32,
}

impl SyncJob {
    /// A first attempt at syncing `path_id`.
    pub fn new(path_id: PathId) -> (j: Self)
        ensures
            j.path_id@ == path_id@,
            j.retry_count == 0,
    {
        SyncJob { path_id, retry_count: 0 }
    }
}

/// Configuration for sync workers.
pub struct WorkerConfig {
    pub worker_count: usize,
    pub retry_max: u32,
    pub retry_base_delay: Duration,
    pub retry_max_delay: Duration,
}

impl Default for WorkerConfig {
    /// Four workers, five retries, back-off from two seconds up to two minutes.
    fn default() -> (c: Self)
        ensures
            c.worker_count == 4,
            c.retry_max == 5,
            duration_nanos(c.retry_base_delay) == 2_000_000_000,
            duration_nanos(c.retry_max_delay) == 120_000_000_000,
    {
        WorkerConfig {
            worker_count: 4,
            retry_max: 5,
            retry_base_delay: duration_from_secs(2),
            retry_max_delay: duration_from_secs(120),
        }
    }
}

/// Shared counters of finished syncs, created by the API and handed to the workers.
pub struct SyncMetrics {
    pub sync_success: Arc<AtomicU64>,
    pub sync_failure: Arc<AtomicU64>,
}

impl SyncMetrics {
    pub fn new(sync_success: Arc<AtomicU64>, sync_failure: Arc<AtomicU64>) -> (m: Self)
        ensures
            m.sync_success == sync_success,
            m.sync_failure == sync_failure,
    {
        SyncMetrics { sync_success, sync_failure }
    }

    /// Count one file synced.
    pub fn inc_success(&self) {
        self.sync_success.fetch_add(1, std::sync::atomic::Ordering::Relaxed);
    }

    /// Count one file given up on.
    pub fn inc_failure(&self) {
        self.sync_failure.fetch_add(1, std::sync::atomic::Ordering::Relaxed);
    }
}

// ───────────────────────── a worker's decisions ─────────────────────────

/// Where the bytes of a sync come from.
#[derive(Debug)]
pub enum SyncSource {
    /// Another file with the same content is already in the cloud: reuse its URL.
    Reuse(String),
    /// Upload the cached file, with this MIME type.
    Upload { mime_type: String },
}

/// Decide how to sync a job, given what the index knows (`meta`), the cloud URL of a synced file
/// with the same content hash (`same_content`) and whether the cached file is on disk.
pub fn plan_sync(path_id: &PathId, meta: Option<&FileMeta>, same_content: Option<String>, file_on_disk: bool) -> (r:
    Result<SyncSource, CloudStoreError>)
    ensures
        same_content matches Some(u) ==> (meta is Some ==> (r matches Ok(SyncSource::Reuse(v))
            && v == u)),
        !(meta is Some && same_content is Some) && !file_on_disk ==> (r matches Err(
            CloudStoreError::NotFound(m),
        ) && m@ == "Cache file missing: "@ + path_id@),
        !(meta is Some && same_content is Some) && file_on_disk ==> (r matches Ok(
            SyncSource::Upload { mime_type },
        ) && mime_type@ == match meta {
            Some(m) => m.mime_type@,
            None => "application/octet-stream"@,
        }),
{
    if meta.is_some() {
        if let Some(u) = same_content {
            return Ok(SyncSource::Reuse(u));
        }
    }
    if !file_on_disk {
        let mut v: Vec<char> = Vec::new();
        push_str(&mut v, "Cache file missing: ");
        push_str(&mut v, path_id.as_str());
        return Err(CloudStoreError::NotFound(string_from_chars(&v)));
    }
    let mime_type = match meta {
        Some(m) => m.mime_type.clone(),
        None => "application/octet-stream".to_owned(),
    };
    Ok(SyncSource::Upload { mime_type })
}

/// What a worker does once an attempt has finished.
pub enum SyncStep {
    /// Record the file as synced at this cloud URL, and count a success.
    MarkSynced { cloud_url: String },
    /// Wait `delay`, then queue `job` again.
    RetryLater { delay: Duration, job: SyncJob },
    /// Give up: record the failure with this retry count, and count a failure.
    MarkFailed { retry_count: u32 },
}

/// Decide what follows an attempt at `job` whose upload gave `result`.
pub fn after_attempt(job: SyncJob, result: Result<String, CloudStoreError>, config: &WorkerConfig) -> (s:
    SyncStep)
    ensures
        result matches Ok(u) ==> (s matches SyncStep::MarkSynced { cloud_url } && cloud_url == u),
        result is Err && job.retry_count < config.retry_max ==> (s matches SyncStep::RetryLater {
            delay,
            job: next,
        } && next.path_id@ == job.path_id@ && next.retry_count == job.retry_count + 1
            && next.retry_count <= config.retry_max && duration_nanos(delay) == backoff_nanos(
            job.retry_count as nat,
            duration_nanos(config.retry_base_delay),
            duration_nanos(config.retry_max_delay),
        )),
        result is Err && job.retry_count >= config.retry_max ==> (s matches SyncStep::MarkFailed {
            retry_count,
        } && retry_count == job.retry_count),
{
    match result {
        Ok(cloud_url) => SyncStep::MarkSynced { cloud_url },
        Err(_) => {
            if should_retry(job.retry_count, config.retry_max) {
                let delay = backoff_delay(job.retry_count, config.retry_base_delay, config.retry_max_delay);
                let next = SyncJob { path_id: job.path_id, retry_count: job.retry_count + 1 };
                SyncStep::RetryLater { delay, job: next }
            } else {
                SyncStep::MarkFailed { retry_count: job.retry_count }
            }
        },
    }
}

/// All fields of two metadata records agree but status, cloud URL, sync time and retry count.
pub open spec fn same_file_fields(a: FileMeta, b: FileMeta) -> bool {
    &&& a.original_name == b.original_name
    &&& a.content_hash == b.content_hash
    &&& a.size_bytes == b.size_bytes
    &&& a.mime_type == b.mime_type
    &&& a.cloud_provider == b.cloud_provider
    &&& a.is_encrypted == b.is_encrypted
    &&& a.encryption_iv == b.encryption_iv
    &&& a.key_verification_hash == b.key_verification_hash
    &&& a.created_at == b.created_at
}

/// Record that an upload has started.
pub fn mark_syncing(meta: &mut FileMeta)
    ensures
        same_file_fields(*old(meta), *final(meta)),
        final(meta).status == FileStatus::Syncing,
        final(meta).cloud_url == old(meta).cloud_url,
        final(meta).synced_at == old(meta).synced_at,
        final(meta).retry_count == old(meta).retry_count,
{
    meta.status = FileStatus::Syncing;
}

/// Record a finished sync at `cloud_url`, at time `now` (microseconds).
pub fn mark_synced(meta: &mut FileMeta, cloud_url: String, now: i64)
    ensures
        same_file_fields(*old(meta), *final(meta)),
        final(meta).status == FileStatus::Synced,
        final(meta).cloud_url == Some(cloud_url),
        final(meta).synced_at == Some(now),
        final(meta).retry_count == old(meta).retry_count,
{
    meta.status = FileStatus::Synced;
    meta.cloud_url = Some(cloud_url);
    meta.synced_at = Some(now);
}

/// Record that syncing was given up after `retry_count` retries.
pub fn mark_sync_failed(meta: &mut FileMeta, retry_count: u32)
    ensures
        same_file_fields(*old(meta), *final(meta)),
        final(meta).status == FileStatus::SyncFailed,
        final(meta).cloud_url == old(meta).cloud_url,
        final(meta).synced_at == old(meta).synced_at,
        final(meta).retry_count == retry_count,
{
    meta.status = FileStatus::SyncFailed;
    meta.retry_count = retry_count;
}

} // verus!
