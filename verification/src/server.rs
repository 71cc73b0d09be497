//! The media library server's settings and its small answers: configuration with defaults,
//! health, statistics, the timeline, persistent jobs and upload sessions.
use vstd::prelude::*;

use crate::text::{chars_eq_str, chars_of, parse_u64, parse_u64_spec, push_str, string_from_chars};
use crate::upload::{plan_processing, ProcessingPlan};

verus! {

broadcast use vstd::string::group_string_axioms;

// ───────────────────────── configuration ─────────────────────────

/// The server's configuration. Paths are kept as text.
pub struct Config {
    pub host: String,
    pub port: u16,
    pub db_path: String,
    pub upload_dir: String,
    pub jwt_secret: String,
    pub admin_email: String,
    pub admin_password: String,
    pub admin_name: String,
    pub max_concurrent_uploads: usize,
    pub storage_provider: String,
    pub cloudstore_url: Option<String>,
    pub cloudstore_api_key: Option<String>,
}

/// The settings read from the environment, each present or not.
pub struct EnvSettings {
    pub host: Option<String>,
    pub port: Option<String>,
    pub db_path: Option<String>,
    pub upload_dir: Option<String>,
    pub jwt_secret: Option<String>,
    pub admin_email: Option<String>,
    pub admin_password: Option<String>,
    pub admin_name: Option<String>,
    pub max_concurrent_uploads: Option<String>,
    pub storage_provider: Option<String>,
    pub cloudstore_url: Option<String>,
    pub cloudstore_api_key: Option<String>,
}

/// A setting's text, or its default.
pub open spec fn or_default(v: Option<String>, d: Seq<char>) -> Seq<char> {
    match v {
        Some(s) => s@,
        None => d,
    }
}

/// A number setting: its value when it parses and fits under `max`, else the default.
pub open spec fn number_or(v: Option<String>, max: nat, d: nat) -> nat {
    match v {
        Some(s) => match parse_u64_spec(s@) {
            Some(n) => if n <= max {
                n as nat
            } else {
                d
            },
            None => d,
        },
        None => d,
    }
}

pub(crate) fn text_or(v: &Option<String>, d: &str) -> (r: String)
    ensures
        r@ == or_default(*v, d@),
{
    match v {
        Some(s) => s.clone(),
        None => d.to_owned(),
    }
}

pub(crate) fn number_setting(v: &Option<String>, max: u64, d: u64) -> (r: u64)
    requires
        d <= max,
    ensures
        r == number_or(*v, max as nat, d as nat),
        r <= max,
{
    match v {
        Some(s) => {
            let c = chars_of(s.as_str());
            match parse_u64(&c) {
                Some(n) => if n <= max {
                    n
                } else {
                    d
                },
                None => d,
            }
        },
        None => d,
    }
}

impl Config {
    /// The configuration from the environment's settings, with defaults for what is missing:
    /// host `0.0.0.0`, port 3000, `./data/db`, `./data/uploads`, a development secret, the
    /// built-in administrator, six concurrent uploads, local storage.
    pub fn from_settings(s: &EnvSettings) -> (c: Config)
        ensures
            c.host@ == or_default(s.host, "0.0.0.0"@),
            c.port == number_or(s.port, 65535, 3000),
            c.db_path@ == or_default(s.db_path, "./data/db"@),
            c.upload_dir@ == or_default(s.upload_dir, "./data/uploads"@),
            c.jwt_secret@ == or_default(s.jwt_secret, "mycloud-dev-secret-change-in-production"@),
            c.admin_email@ == or_default(s.admin_email, "admin@mycloud.local"@),
            c.admin_password@ == or_default(s.admin_password, "Admin@123456"@),
            c.admin_name@ == or_default(s.admin_name, "Administrator"@),
            c.max_concurrent_uploads == number_or(s.max_concurrent_uploads, usize::MAX as nat, 6),
            c.storage_provider@ == or_default(s.storage_provider, "local"@),
            c.cloudstore_url == s.cloudstore_url,
            c.cloudstore_api_key == s.cloudstore_api_key,
    {
        let port = number_setting(&s.port, 65535, 3000);
        let uploads = number_setting(&s.max_concurrent_uploads, usize::MAX as u64, 6);
        Config {
            host: text_or(&s.host, "0.0.0.0"),
            port: port as u16,
            db_path: text_or(&s.db_path, "./data/db"),
            upload_dir: text_or(&s.upload_dir, "./data/uploads"),
            jwt_secret: text_or(&s.jwt_secret, "mycloud-dev-secret-change-in-production"),
            admin_email: text_or(&s.admin_email, "admin@mycloud.local"),
            admin_password: text_or(&s.admin_password, "Admin@123456"),
            admin_name: text_or(&s.admin_name, "Administrator"),
            max_concurrent_uploads: uploads as usize,
            storage_provider: text_or(&s.storage_provider, "local"),
            cloudstore_url: s.cloudstore_url.clone(),
            cloudstore_api_key: s.cloudstore_api_key.clone(),
        }
    }
}

// ───────────────────────── health and statistics ─────────────────────────

/// The answer of the health check.
pub struct HealthResponse {
    pub status: String,
    pub uptime_seconds: u64,
    pub version: String,
    pub db_status: String,
    pub storage_status: String,
}

impl HealthResponse {
    /// Healthy and connected when the database answered, degraded with a database error when
    /// it did not; storage is always `ok`.
    pub fn new(db_ok: bool, uptime_seconds: u64, version: &str) -> (h: Self)
        ensures
            h.status@ == if db_ok {
                "healthy"@
            } else {
                "degraded"@
            },
            h.db_status@ == if db_ok {
                "connected"@
            } else {
                "error"@
            },
            h.storage_status@ == "ok"@,
            h.uptime_seconds == uptime_seconds,
            h.version@ == version@,
    {
        HealthResponse {
            status: (if db_ok { "healthy" } else { "degraded" }).to_owned(),
            uptime_seconds,
            version: version.to_owned(),
            db_status: (if db_ok { "connected" } else { "error" }).to_owned(),
            storage_status: "ok".to_owned(),
        }
    }
}

/// Media counts by kind.
pub struct MediaTypeStats {
    pub images: usize,
    pub videos: usize,
    pub other: usize,
}

impl MediaTypeStats {
    /// Images, videos, and the rest of `total` (never below zero).
    pub fn new(total: usize, images: usize, videos: usize) -> (s: Self)
        requires
            images + videos <= usize::MAX,
        ensures
            s.images == images,
            s.videos == videos,
            s.other == if images + videos <= total {
                (total - images - videos) as usize
            } else {
                0usize
            },
    {
        MediaTypeStats { images, videos, other: total.saturating_sub(images + videos) }
    }
}

// ───────────────────────── timeline ─────────────────────────

/// The media of one month.
pub struct TimelineGroup {
    pub year: i64,
    pub month: i64,
    pub count: i64,
    pub thumbnails: Vec<String>,
}

/// The months with media, newest first, and how many media there are in all.
pub struct TimelineResponse {
    pub groups: Vec<TimelineGroup>,
    pub total: i64,
}

/// The sum of the groups' counts.
pub open spec fn counts_sum(groups: Seq<TimelineGroup>) -> int
    decreases groups.len(),
{
    if groups.len() == 0 {
        0
    } else {
        counts_sum(groups.drop_last()) + groups.last().count
    }
}

impl TimelineResponse {
    /// The timeline of the given groups; the total is the sum of their counts.
    pub fn from_groups(groups: Vec<TimelineGroup>) -> (r: Self)
        requires
            forall|k: int| 0 <= k <= groups@.len() ==> i64::MIN <= #[trigger] counts_sum(groups@.take(k)) <= i64::MAX,
        ensures
            r.groups == groups,
            r.total == counts_sum(groups@),
    {
        let mut total: i64 = 0;
        for i in 0..groups.len()
            invariant
                forall|k: int| 0 <= k <= groups@.len() ==> i64::MIN <= #[trigger] counts_sum(groups@.take(k)) <= i64::MAX,
                total == counts_sum(groups@.take(i as int)),
        {
            proof {
                assert(groups@.take(i + 1).drop_last() =~= groups@.take(i as int));
                assert(groups@.take(i + 1).last() == groups@[i as int]);
                assert(i64::MIN <= counts_sum(groups@.take(i + 1)) <= i64::MAX);
            }
            total = total + groups[i].count;
        }
        assert(groups@.take(groups@.len() as int) =~= groups@);
        TimelineResponse { groups, total }
    }
}

// ───────────────────────── jobs ─────────────────────────

/// A persistent job.
pub struct Job {
    pub id: String,
    pub job_type: String,
    pub payload: String,
    pub status: String,
    pub error: Option<String>,
}

/// What a persistent job does.
pub enum JobKind {
    /// Delete media that has been in the trash for thirty days.
    CleanupTrash,
    /// Fail with this message.
    Unknown(String),
}

impl Job {
    /// The work this job's type names.
    pub fn kind(&self) -> (r: JobKind)
        ensures
            self.job_type@ == "cleanup_trash"@ ==> r is CleanupTrash,
            self.job_type@ != "cleanup_trash"@ ==> (r matches JobKind::Unknown(m) && m@ == "Unknown job type: "@
                + self.job_type@),
    {
        let t = chars_of(self.job_type.as_str());
        if chars_eq_str(&t, "cleanup_trash") {
            JobKind::CleanupTrash
        } else {
            let mut v: Vec<char> = Vec::new();
            push_str(&mut v, "Unknown job type: ");
            push_str(&mut v, self.job_type.as_str());
            JobKind::Unknown(string_from_chars(&v))
        }
    }
}

/// The status a job ends in.
pub fn job_final_status(succeeded: bool) -> (r: &'static str)
    ensures
        r@ == if succeeded {
            "completed"@
        } else {
            "error"@
        },
{
    if succeeded {
        "completed"
    } else {
        "error"
    }
}

/// An upload waiting for the processing workers: only paths travel, never the data.
pub struct ProcessJob {
    pub record_id: String,
    pub temp_path: String,
    pub storage_path: String,
    pub mime_type: String,
    pub video_thumb_path: Option<String>,
    pub orientation: Option<i32>,
    /// The file key (hex) for encrypting what goes to the storage service.
    pub encryption_key: Option<String>,
}

impl ProcessJob {
    /// What the worker does with this upload.
    pub fn plan(&self) -> (r: ProcessingPlan)
        ensures
            r == crate::upload::plan_of(self.mime_type@, self.video_thumb_path is Some),
    {
        plan_processing(self.mime_type.as_str(), self.video_thumb_path.is_some())
    }
}

/// A started upload session.
pub struct SessionResponse {
    pub session_id: String,
    pub status: String,
}

impl SessionResponse {
    /// A session that has just begun.
    pub fn active(session_id: String) -> (r: Self)
        ensures
            r.session_id == session_id,
            r.status@ == "active"@,
    {
        SessionResponse { session_id, status: "active".to_owned() }
    }
}

/// A user's display settings.
pub struct UserSettings {
    pub theme: String,
    pub language: String,
    pub gallery_columns: i32,
}

impl Default for UserSettings {
    /// The system theme, Vietnamese, four columns.
    fn default() -> (s: Self)
        ensures
            s.theme@ == "system"@,
            s.language@ == "vi"@,
            s.gallery_columns == 4,
    {
        UserSettings { theme: "system".to_owned(), language: "vi".to_owned(), gallery_columns: 4 }
    }
}

/// The grid of a mosaic image.
pub struct MosaicGridSize {
    pub cols: i32,
    pub rows: i32,
}

} // verus!
