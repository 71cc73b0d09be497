//! Decisions of the storage service's HTTP API: how errors are answered, who may call it,
//! where a download is served from, which downloads are already being cached, and the counters
//! it exposes.
use std::sync::atomic::AtomicU64;
use std::sync::Arc;
use vstd::prelude::*;

use crate::errors::{error_message, CloudStoreError};
use crate::path_id::{FileMeta, PathId};
use crate::text::{
    chars_eq_str, chars_of, chars_start_with, decimal, push_decimal, push_str, starts_with,
    string_from_chars, sub_chars,
};

verus! {

broadcast use vstd::string::group_string_axioms;

// ───────────────────────── errors ─────────────────────────

/// Unified API error type that turns a `CloudStoreError` into an HTTP answer.
pub struct ApiError(pub CloudStoreError);

impl From<CloudStoreError> for ApiError {
    fn from(err: CloudStoreError) -> (r: Self) {
        ApiError(err)
    }
}

impl vstd::std_specs::convert::FromSpecImpl<CloudStoreError> for ApiError {
    open spec fn obeys_from_spec() -> bool {
        true
    }

    open spec fn from_spec(err: CloudStoreError) -> Self {
        ApiError(err)
    }
}

/// The HTTP status and message with which an error is answered.
pub open spec fn api_answer(e: CloudStoreError) -> (u16, Seq<char>) {
    match e {
        CloudStoreError::NotFound(m) => (404, m@),
        CloudStoreError::InvalidPath(m) => (400, m@),
        CloudStoreError::AlreadyExists(m) => (409, m@),
        CloudStoreError::UploadTooLarge { size, limit } => (413, "File size "@ + decimal(size as nat)
            + " exceeds limit "@ + decimal(limit as nat)),
        CloudStoreError::CacheFull(m) => (507, m@),
        CloudStoreError::Unauthorized(m) => (401, m@),
        _ => (500, error_message(e)),
    }
}

impl ApiError {
    /// The HTTP status and the message of the JSON body (`{"error": message, "status": status}`).
    pub fn status_and_message(&self) -> (r: (u16, String))
        ensures
            (r.0, r.1@) == api_answer(self.0),
    {
        match &self.0 {
            CloudStoreError::NotFound(m) => (404, m.clone()),
            CloudStoreError::InvalidPath(m) => (400, m.clone()),
            CloudStoreError::AlreadyExists(m) => (409, m.clone()),
            CloudStoreError::UploadTooLarge { size, limit } => {
                let mut v: Vec<char> = Vec::new();
                push_str(&mut v, "File size ");
                push_decimal(&mut v, *size);
                push_str(&mut v, " exceeds limit ");
                push_decimal(&mut v, *limit);
                (413, string_from_chars(&v))
            },
            CloudStoreError::CacheFull(m) => (507, m.clone()),
            CloudStoreError::Unauthorized(m) => (401, m.clone()),
            _ => (500, self.0.message()),
        }
    }
}

// ───────────────────────── authentication ─────────────────────────

/// Why a request was refused; each is answered 401 with this message.
pub open spec fn bearer_refusal(api_key: Option<Seq<char>>, header: Option<Seq<char>>) -> Option<Seq<char>> {
    match api_key {
        None => None,
        Some(key) => match header {
            None => Some("Missing Authorization header"@),
            Some(h) => if starts_with(h, "Bearer "@) {
                if h.subrange("Bearer "@.len() as int, h.len() as int) == key {
                    None
                } else {
                    Some("Invalid API key"@)
                }
            } else {
                Some("Authorization header must use Bearer scheme"@)
            },
        },
    }
}

/// Check `Authorization: Bearer <key>`. With no API key configured every request passes.
/// `None`: let the request through; `Some(message)`: refuse it.
pub fn check_bearer(api_key: Option<&str>, authorization: Option<&str>) -> (r: Option<String>)
    ensures
        match r {
            None => bearer_refusal(
                match api_key {
                    Some(k) => Some(k@),
                    None => None,
                },
                match authorization {
                    Some(h) => Some(h@),
                    None => None,
                },
            ) is None,
            Some(m) => bearer_refusal(
                match api_key {
                    Some(k) => Some(k@),
                    None => None,
                },
                match authorization {
                    Some(h) => Some(h@),
                    None => None,
                },
            ) == Some(m@),
        },
{
    let key = match api_key {
        None => return None,
        Some(k) => k,
    };
    match authorization {
        None => Some("Missing Authorization header".to_owned()),
        Some(h) => {
            let v = chars_of(h);
            if chars_start_with(&v, "Bearer ") {
                proof {
                    reveal_strlit("Bearer ");
                }
                let token = sub_chars(&v, 7, v.len());
                if chars_eq_str(&token, key) {
                    None
                } else {
                    Some("Invalid API key".to_owned())
                }
            } else {
                Some("Authorization header must use Bearer scheme".to_owned())
            }
        },
    }
}

/// With a key configured, `Bearer <key>` is let through and nothing else is.
pub proof fn lemma_bearer_accepts_exactly_the_key(key: Seq<char>, header: Seq<char>)
    ensures
        bearer_refusal(Some(key), Some(header)) is None <==> header == "Bearer "@ + key,
{
    let p = "Bearer "@;
    if bearer_refusal(Some(key), Some(header)) is None {
        assert(header =~= p + header.subrange(p.len() as int, header.len() as int));
    }
    if header == p + key {
        assert((p + key).subrange(0, p.len() as int) =~= p);
        assert((p + key).subrange(p.len() as int, (p + key).len() as int) =~= key);
    }
}

// ───────────────────────── downloads ─────────────────────────

/// Where a download is served from.
#[derive(Debug)]
pub enum DownloadSource {
    /// The file is on the local disk.
    Cache,
    /// The file was evicted: stream it from the cloud at this URL.
    Cloud(String),
}

/// Decide where a download of `path_id` comes from, given its metadata (if indexed), whether its
/// data is on disk and whether a cloud provider is configured.
pub fn plan_download(path_id: &PathId, meta: Option<&FileMeta>, on_disk: bool, provider_available: bool) -> (r:
    Result<DownloadSource, CloudStoreError>)
    ensures
        meta is None ==> (r matches Err(CloudStoreError::NotFound(m)) && m@ == path_id@),
        meta is Some && on_disk ==> r matches Ok(DownloadSource::Cache),
        meta matches Some(mt) ==> (!on_disk && mt.cloud_url is Some && !provider_available ==> (r matches Err(
            CloudStoreError::SyncError(m),
        ) && m@ == "Cloud provider not available. Set up GDrive OAuth2 first."@)),
        meta matches Some(mt) ==> (!on_disk && mt.cloud_url is Some && provider_available ==> (r matches Ok(
            DownloadSource::Cloud(u),
        ) && Some(u) == mt.cloud_url)),
        meta matches Some(mt) ==> (!on_disk && mt.cloud_url is None ==> (r matches Err(
            CloudStoreError::NotFound(m),
        ) && m@ == "File "@ + path_id@ + " not found on disk and has no cloud URL"@)),
{
    let meta = match meta {
        None => return Err(CloudStoreError::NotFound(path_id.to_string())),
        Some(m) => m,
    };
    if on_disk {
        return Ok(DownloadSource::Cache);
    }
    match &meta.cloud_url {
        Some(u) => {
            if !provider_available {
                return Err(CloudStoreError::SyncError(
                    "Cloud provider not available. Set up GDrive OAuth2 first.".to_owned(),
                ));
            }
            Ok(DownloadSource::Cloud(u.clone()))
        },
        None => {
            let mut v: Vec<char> = Vec::new();
            push_str(&mut v, "File ");
            push_str(&mut v, path_id.as_str());
            push_str(&mut v, " not found on disk and has no cloud URL");
            Err(CloudStoreError::NotFound(string_from_chars(&v)))
        },
    }
}

/// The path-ids whose data is being copied from the cloud into the cache right now.
pub struct ActiveDownloads {
    ids: Vec<String>,
}

impl View for ActiveDownloads {
    type V = Set<Seq<char>>;

    closed spec fn view(&self) -> Set<Seq<char>> {
        Set::new(|s: Seq<char>| exists|i: int| 0 <= i < self.ids@.len() && #[trigger] self.ids@[i]@ == s)
    }
}

impl ActiveDownloads {
    #[verifier::type_invariant]
    closed spec fn no_duplicates(self) -> bool {
        forall|i: int, j: int|
            0 <= i < j < self.ids@.len() ==> (#[trigger] self.ids@[i])@ != (#[trigger] self.ids@[j])@
    }

    /// No download is active.
    pub fn new() -> (a: Self)
        ensures
            a@ == Set::<Seq<char>>::empty(),
    {
        let a = ActiveDownloads { ids: Vec::new() };
        assert(a@ =~= Set::<Seq<char>>::empty());
        a
    }

    fn position(&self, id: &str) -> (r: Option<usize>)
        ensures
            match r {
                Some(i) => i < self.ids@.len() && self.ids@[i as int]@ == id@,
                None => forall|i: int| 0 <= i < self.ids@.len() ==> (#[trigger] self.ids@[i])@ != id@,
            },
    {
        let mut i: usize = 0;
        while i < self.ids.len()
            invariant
                i <= self.ids@.len(),
                forall|k: int| 0 <= k < i ==> (#[trigger] self.ids@[k])@ != id@,
            decreases self.ids@.len() - i,
        {
            let v = chars_of(self.ids[i].as_str());
            if chars_eq_str(&v, id) {
                return Some(i);
            }
            i = i + 1;
        }
        None
    }

    /// Whether a download of `id` is being cached.
    pub fn contains(&self, id: &str) -> (r: bool)
        ensures
            r == self@.contains(id@),
    {
        match self.position(id) {
            Some(i) => {
                assert(self@.contains(id@)) by {
                    assert(self.ids@[i as int]@ == id@);
                }
                true
            },
            None => false,
        }
    }

    /// Record that `id` is being cached; `false` when it already was.
    pub fn insert(&mut self, id: String) -> (r: bool)
        ensures
            r == !old(self)@.contains(id@),
            final(self)@ == old(self)@.insert(id@),
    {
        proof {
            use_type_invariant(&*self);
        }
        if self.contains(id.as_str()) {
            assert(old(self)@.insert(id@) =~= old(self)@);
            return false;
        }
        let ghost before = self.ids@;
        let ghost s = id@;
        let mut ids: Vec<String> = Vec::new();
        std::mem::swap(&mut ids, &mut self.ids);
        ids.push(id);
        assert(ids@ == before.push(ids@[before.len() as int]));
        assert forall|i: int, j: int|
            0 <= i < j < ids@.len() implies (#[trigger] ids@[i])@ != (#[trigger] ids@[j])@ by {
            if j == before.len() {
                assert(ids@[i] == before[i]);
                assert(!old(self)@.contains(s));
                if ids@[i]@ == s {
                    assert(old(self)@.contains(s));
                }
            } else {
                assert(ids@[i] == before[i] && ids@[j] == before[j]);
            }
        }
        self.ids = ids;
        assert(self@ =~= old(self)@.insert(s)) by {
            assert forall|x: Seq<char>| self@.contains(x) <==> old(self)@.insert(s).contains(x) by {
                if old(self)@.contains(x) {
                    let i = choose|i: int| 0 <= i < before.len() && #[trigger] before[i]@ == x;
                    assert(self.ids@[i]@ == x);
                }
                if self@.contains(x) {
                    let i = choose|i: int| 0 <= i < self.ids@.len() && #[trigger] self.ids@[i]@ == x;
                    if i < before.len() {
                        assert(before[i]@ == x);
                    }
                }
                if x == s {
                    assert(self.ids@[before.len() as int]@ == x);
                }
            }
        }
        true
    }

    /// Record that caching of `id` has ended; `false` when it was not active.
    pub fn remove(&mut self, id: &str) -> (r: bool)
        ensures
            r == old(self)@.contains(id@),
            final(self)@ == old(self)@.remove(id@),
    {
        proof {
            use_type_invariant(&*self);
        }
        match self.position(id) {
            None => {
                assert(!old(self)@.contains(id@));
                assert(old(self)@.remove(id@) =~= old(self)@);
                false
            },
            Some(i) => {
                let ghost before = self.ids@;
                let ghost s = id@;
                let mut ids: Vec<String> = Vec::new();
                std::mem::swap(&mut ids, &mut self.ids);
                ids.remove(i);
                assert(ids@ == before.remove(i as int));
                assert forall|a: int, b: int|
                    0 <= a < b < ids@.len() implies (#[trigger] ids@[a])@ != (#[trigger] ids@[b])@ by {
                    let a2 = if a < i { a } else { a + 1 };
                    let b2 = if b < i { b } else { b + 1 };
                    assert(ids@[a] == before[a2] && ids@[b] == before[b2]);
                }
                self.ids = ids;
                proof {
                    assert(old(self)@.contains(s)) by {
                        assert(before[i as int]@ == s);
                    }
                    assert forall|x: Seq<char>| self@.contains(x) <==> old(self)@.remove(s).contains(x) by {
                        if self@.contains(x) {
                            let k = choose|k: int| 0 <= k < self.ids@.len() && #[trigger] self.ids@[k]@ == x;
                            if k < i {
                                assert(before[k]@ == x);
                                assert(x != s);
                            } else {
                                assert(before[k + 1]@ == x);
                                assert(x != s);
                            }
                        }
                        if old(self)@.remove(s).contains(x) {
                            let k = choose|k: int| 0 <= k < before.len() && #[trigger] before[k]@ == x;
                            assert(k != i);
                            if k < i {
                                assert(self.ids@[k]@ == x);
                            } else {
                                assert(self.ids@[k - 1]@ == x);
                            }
                        }
                    }
                    assert(self@ =~= old(self)@.remove(s));
                }
                true
            },
        }
    }
}

/// How a download streamed from the cloud is also cached.
#[derive(Debug)]
pub enum CloudCaching {
    /// A range was asked for: stream it, and cache the whole file in the background.
    Background,
    /// Stream the file to the client and into the cache at once.
    Tee,
    /// Another download is caching this file already: only stream it.
    PassThrough,
}

/// Decide how a cloud download of `id` is cached, and claim the caching when this download
/// takes it on.
pub fn claim_cloud_caching(active: &mut ActiveDownloads, id: &str, has_range: bool) -> (r: CloudCaching)
    ensures
        old(active)@.contains(id@) ==> r is PassThrough && final(active)@ == old(active)@,
        !old(active)@.contains(id@) ==> final(active)@ == old(active)@.insert(id@) && (if has_range {
            r is Background
        } else {
            r is Tee
        }),
{
    if active.contains(id) {
        return CloudCaching::PassThrough;
    }
    active.insert(id.to_owned());
    if has_range {
        CloudCaching::Background
    } else {
        CloudCaching::Tee
    }
}

// ───────────────────────── deletes and uploads ─────────────────────────

/// After a delete: the cloud copy to remove too, if the file had been synced and a provider is
/// configured. `Err` when nothing was removed from the cache.
pub fn after_delete(path_id: &PathId, removed: bool, meta: Option<&FileMeta>, provider_available: bool) -> (r:
    Result<Option<String>, CloudStoreError>)
    ensures
        !removed ==> (r matches Err(CloudStoreError::NotFound(m)) && m@ == path_id@),
        removed ==> (r matches Ok(target) && target == match meta {
            Some(m) => if provider_available {
                m.cloud_url
            } else {
                None
            },
            None => None,
        }),
{
    if !removed {
        return Err(CloudStoreError::NotFound(path_id.to_string()));
    }
    match meta {
        Some(m) => {
            if provider_available {
                Ok(m.cloud_url.clone())
            } else {
                Ok(None)
            }
        },
        None => Ok(None),
    }
}

/// Record on a freshly stored file that its data is encrypted with this nonce and key check.
pub fn record_encryption(meta: &mut FileMeta, encryption_iv: String, key_verification_hash: String)
    ensures
        *final(meta) == (FileMeta {
            is_encrypted: true,
            encryption_iv: Some(encryption_iv),
            key_verification_hash: Some(key_verification_hash),
            ..*old(meta)
        }),
{
    meta.is_encrypted = true;
    meta.encryption_iv = Some(encryption_iv);
    meta.key_verification_hash = Some(key_verification_hash);
}

// ───────────────────────── metrics ─────────────────────────

/// The counters' values at one moment.
pub struct MetricsSnapshot {
    pub uploads: u64,
    pub downloads_cache: u64,
    pub downloads_cloud: u64,
    pub deletes: u64,
    pub sync_success: u64,
    pub sync_failure: u64,
    pub bytes_uploaded: u64,
    pub bytes_downloaded: u64,
}

/// One counter in Prometheus exposition format.
pub open spec fn prometheus_counter(name: Seq<char>, help: Seq<char>, value: u64) -> Seq<char> {
    "# HELP "@ + name + " "@ + help + "\n# TYPE "@ + name + " counter\n"@ + name + " "@ + decimal(
        value as nat,
    ) + "\n"@
}

/// The Prometheus text of a snapshot.
pub open spec fn prometheus_text(s: MetricsSnapshot) -> Seq<char> {
    prometheus_counter("cloudstore_uploads_total"@, "Total file uploads."@, s.uploads)
        + prometheus_counter("cloudstore_downloads_cache_total"@, "Downloads served from cache."@, s.downloads_cache)
        + prometheus_counter("cloudstore_downloads_cloud_total"@, "Downloads fetched from cloud."@, s.downloads_cloud)
        + prometheus_counter("cloudstore_deletes_total"@, "Total file deletes."@, s.deletes)
        + prometheus_counter("cloudstore_sync_success_total"@, "Successful cloud syncs."@, s.sync_success)
        + prometheus_counter("cloudstore_sync_failure_total"@, "Failed cloud syncs."@, s.sync_failure)
        + prometheus_counter("cloudstore_bytes_uploaded_total"@, "Total bytes uploaded."@, s.bytes_uploaded)
        + prometheus_counter("cloudstore_bytes_downloaded_total"@, "Total bytes downloaded."@, s.bytes_downloaded)
}

fn push_counter(v: &mut Vec<char>, name: &str, help: &str, value: u64)
    ensures
        final(v)@ == old(v)@ + prometheus_counter(name@, help@, value),
{
    let ghost start = v@;
    push_str(v, "# HELP ");
    push_str(v, name);
    push_str(v, " ");
    push_str(v, help);
    push_str(v, "\n# TYPE ");
    push_str(v, name);
    push_str(v, " counter\n");
    push_str(v, name);
    push_str(v, " ");
    push_decimal(v, value);
    push_str(v, "\n");
    assert(v@ =~= start + prometheus_counter(name@, help@, value));
}

/// Render a snapshot in Prometheus exposition text format.
pub fn render_prometheus(s: &MetricsSnapshot) -> (r: String)
    ensures
        r@ == prometheus_text(*s),
{
    let mut v: Vec<char> = Vec::new();
    push_counter(&mut v, "cloudstore_uploads_total", "Total file uploads.", s.uploads);
    push_counter(&mut v, "cloudstore_downloads_cache_total", "Downloads served from cache.", s.downloads_cache);
    push_counter(&mut v, "cloudstore_downloads_cloud_total", "Downloads fetched from cloud.", s.downloads_cloud);
    push_counter(&mut v, "cloudstore_deletes_total", "Total file deletes.", s.deletes);
    push_counter(&mut v, "cloudstore_sync_success_total", "Successful cloud syncs.", s.sync_success);
    push_counter(&mut v, "cloudstore_sync_failure_total", "Failed cloud syncs.", s.sync_failure);
    push_counter(&mut v, "cloudstore_bytes_uploaded_total", "Total bytes uploaded.", s.bytes_uploaded);
    push_counter(&mut v, "cloudstore_bytes_downloaded_total", "Total bytes downloaded.", s.bytes_downloaded);
    assert(v@ =~= prometheus_text(*s));
    string_from_chars(&v)
}

struct MetricsInner {
    uploads: AtomicU64,
    downloads_cache: AtomicU64,
    downloads_cloud: AtomicU64,
    deletes: AtomicU64,
    sync_success: Arc<AtomicU64>,
    sync_failure: Arc<AtomicU64>,
    bytes_uploaded: AtomicU64,
    bytes_downloaded: AtomicU64,
}

/// `Arc::clone`: another pointer to the same counter.
#[verifier::external_body]
fn share_counter(a: &Arc<AtomicU64>) -> (r: Arc<AtomicU64>)
    ensures
        r == *a,
{
    Arc::clone(a)
}

/// Application-level counters, lock-free. The values are shared between threads, so nothing is
/// stated of them; `to_prometheus` renders whatever they hold when it reads them.
pub struct AppMetrics {
    inner: Arc<MetricsInner>,
}

impl AppMetrics {
    pub fn new() -> Self {
        AppMetrics {
            inner: Arc::new(
                MetricsInner {
                    uploads: AtomicU64::new(0),
                    downloads_cache: AtomicU64::new(0),
                    downloads_cloud: AtomicU64::new(0),
                    deletes: AtomicU64::new(0),
                    sync_success: Arc::new(AtomicU64::new(0)),
                    sync_failure: Arc::new(AtomicU64::new(0)),
                    bytes_uploaded: AtomicU64::new(0),
                    bytes_downloaded: AtomicU64::new(0),
                },
            ),
        }
    }

    pub fn inc_uploads(&self) {
        self.inner.uploads.fetch_add(1, std::sync::atomic::Ordering::Relaxed);
    }

    pub fn inc_downloads_cache(&self) {
        self.inner.downloads_cache.fetch_add(1, std::sync::atomic::Ordering::Relaxed);
    }

    pub fn inc_downloads_cloud(&self) {
        self.inner.downloads_cloud.fetch_add(1, std::sync::atomic::Ordering::Relaxed);
    }

    pub fn inc_deletes(&self) {
        self.inner.deletes.fetch_add(1, std::sync::atomic::Ordering::Relaxed);
    }

    pub fn add_bytes_uploaded(&self, bytes: u64) {
        self.inner.bytes_uploaded.fetch_add(bytes, std::sync::atomic::Ordering::Relaxed);
    }

    pub fn add_bytes_downloaded(&self, bytes: u64) {
        self.inner.bytes_downloaded.fetch_add(bytes, std::sync::atomic::Ordering::Relaxed);
    }

    /// The counter of successful syncs that these metrics hold and render.
    pub closed spec fn sync_success_shared(&self) -> Arc<AtomicU64> {
        self.inner.sync_success
    }

    /// The counter of failed syncs that these metrics hold and render.
    pub closed spec fn sync_failure_shared(&self) -> Arc<AtomicU64> {
        self.inner.sync_failure
    }

    /// The sync success counter that the workers share: the very counter these metrics hold.
    pub fn sync_success_counter(&self) -> (r: Arc<AtomicU64>)
        ensures
            r == self.sync_success_shared(),
    {
        share_counter(&self.inner.sync_success)
    }

    /// The sync failure counter that the workers share: the very counter these metrics hold.
    pub fn sync_failure_counter(&self) -> (r: Arc<AtomicU64>)
        ensures
            r == self.sync_failure_shared(),
    {
        share_counter(&self.inner.sync_failure)
    }

    /// The counters' current values.
    pub fn snapshot(&self) -> MetricsSnapshot {
        let m = &self.inner;
        MetricsSnapshot {
            uploads: m.uploads.load(std::sync::atomic::Ordering::Relaxed),
            downloads_cache: m.downloads_cache.load(std::sync::atomic::Ordering::Relaxed),
            downloads_cloud: m.downloads_cloud.load(std::sync::atomic::Ordering::Relaxed),
            deletes: m.deletes.load(std::sync::atomic::Ordering::Relaxed),
            sync_success: m.sync_success.load(std::sync::atomic::Ordering::Relaxed),
            sync_failure: m.sync_failure.load(std::sync::atomic::Ordering::Relaxed),
            bytes_uploaded: m.bytes_uploaded.load(std::sync::atomic::Ordering::Relaxed),
            bytes_downloaded: m.bytes_downloaded.load(std::sync::atomic::Ordering::Relaxed),
        }
    }

    /// Render metrics in Prometheus exposition text format.
    pub fn to_prometheus(&self) -> (r: String)
        ensures
            exists|s: MetricsSnapshot| r@ == #[trigger] prometheus_text(s),
    {
        let s = self.snapshot();
        render_prometheus(&s)
    }
}

} // verus!
