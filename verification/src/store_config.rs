//! Start-up of the file cache service: its settings, with their defaults, and the files it hands
//! back to the sync workers after a restart.
use vstd::prelude::*;

use crate::path_id::{path_id_parsed, PathId};
use crate::server::{number_or, number_setting, or_default, text_or};
use crate::sync::SyncJob;
use crate::text::{chars_of, parse_u64, parse_u64_spec};

verus! {

broadcast use vstd::string::group_string_axioms;

/// The size that `bytesize` reads from a text such as `500GB`, in bytes, or `None` where it
/// reads none.
pub uninterp spec fn byte_size_parsed(text: Seq<char>) -> Option<u64>;

/// Reads a size with `bytesize::ByteSize`'s `FromStr`. The result is named by
/// `byte_size_parsed`; where the whole text is a plain `u64`, the source returns that number
/// before anything else, and the contract says so. Units and fractions are left to the name.
#[verifier::external_body]
fn parse_byte_size(text: &str) -> (r: Option<u64>)
    ensures
        r == byte_size_parsed(text@),
        parse_u64_spec(text@) is Some ==> r == parse_u64_spec(text@),
{
    match text.parse::<bytesize::ByteSize>() {
        Ok(b) => Some(b.as_u64()),
        Err(_) => None,
    }
}

/// The service's settings as read from its environment; `None` where a variable is unset.
pub struct StoreSettings {
    pub host: Option<String>,
    pub port: Option<String>,
    pub cache_dir: Option<String>,
    pub sync_workers: Option<String>,
    pub sync_retry_max: Option<String>,
    pub max_upload_size: Option<String>,
    pub api_key: Option<String>,
    pub cache_max_size: Option<String>,
    pub gdrive_credentials_path: Option<String>,
    pub gdrive_folder_id: Option<String>,
    pub gdrive_path_prefix: Option<String>,
}

/// The service's configuration.
pub struct StoreConfig {
    pub host: String,
    pub port: u16,
    pub cache_dir: String,
    pub sync_workers: usize,
    pub sync_retry_max: u32,
    pub max_upload_size: u64,
    pub api_key: Option<String>,
    pub cache_max_bytes: u64,
    pub gdrive_credentials_path: String,
    pub gdrive_folder_id: String,
    pub gdrive_path_prefix: Option<String>,
}

/// A setting that the service cannot start with.
#[derive(Debug)]
pub enum StoreConfigError {
    /// The port is not a number from 0 to 65535.
    InvalidPort,
    /// The cache size is not a size (such as `500GB` or `1TB`).
    InvalidCacheSize,
}

/// The port: the setting read as a 16-bit number, or 8080 where it is unset.
pub open spec fn port_setting(v: Option<String>) -> Option<u16> {
    let text = or_default(v, "8080"@);
    match parse_u64_spec(text) {
        Some(n) => if n <= 65535 {
            Some(n as u16)
        } else {
            None
        },
        None => None,
    }
}

/// A setting that counts only when it is set and not empty.
pub open spec fn non_empty(v: Option<String>) -> Option<String> {
    match v {
        Some(s) => if s@.len() > 0 {
            Some(s)
        } else {
            None
        },
        None => None,
    }
}

fn non_empty_setting(v: &Option<String>) -> (r: Option<String>)
    ensures
        r == non_empty(*v),
{
    match v {
        Some(s) => if s.as_str().is_empty() {
            None
        } else {
            Some(s.clone())
        },
        None => None,
    }
}

impl StoreConfig {
    /// The configuration from the settings. Defaults: host `0.0.0.0`, port 8080, cache directory
    /// `/data/cache`, four sync workers, five retries, uploads up to 10 GiB, a 500 GB cache,
    /// no credentials path, the Drive folder `root`. The API key and the path prefix count only
    /// when they are not empty. A port or a cache size that cannot be read is an error; a worker
    /// count, retry count or upload limit that cannot be read falls back to its default.
    pub fn from_settings(s: &StoreSettings) -> (r: Result<StoreConfig, StoreConfigError>)
        ensures
            port_setting(s.port) is None ==> r == Err::<StoreConfig, StoreConfigError>(
                StoreConfigError::InvalidPort,
            ),
            port_setting(s.port) is Some && byte_size_parsed(or_default(s.cache_max_size, "500GB"@))
                is None ==> r == Err::<StoreConfig, StoreConfigError>(StoreConfigError::InvalidCacheSize),
            r is Ok <==> port_setting(s.port) is Some && byte_size_parsed(
                or_default(s.cache_max_size, "500GB"@),
            ) is Some,
            match r {
                Ok(c) => {
                    &&& c.host@ == or_default(s.host, "0.0.0.0"@)
                    &&& Some(c.port) == port_setting(s.port)
                    &&& c.cache_dir@ == or_default(s.cache_dir, "/data/cache"@)
                    &&& c.sync_workers == number_or(s.sync_workers, usize::MAX as nat, 4)
                    &&& c.sync_retry_max == number_or(s.sync_retry_max, u32::MAX as nat, 5)
                    &&& c.max_upload_size == number_or(s.max_upload_size, u64::MAX as nat, 10737418240)
                    &&& c.api_key == non_empty(s.api_key)
                    &&& Some(c.cache_max_bytes) == byte_size_parsed(
                        or_default(s.cache_max_size, "500GB"@),
                    )
                    &&& c.gdrive_credentials_path@ == or_default(s.gdrive_credentials_path, ""@)
                    &&& c.gdrive_folder_id@ == or_default(s.gdrive_folder_id, "root"@)
                    &&& c.gdrive_path_prefix == non_empty(s.gdrive_path_prefix)
                },
                Err(_) => true,
            },
    {
        let port_text = text_or(&s.port, "8080");
        let port = match parse_u64(&chars_of(port_text.as_str())) {
            Some(n) => if n <= 65535 {
                n as u16
            } else {
                return Err(StoreConfigError::InvalidPort);
            },
            None => {
                return Err(StoreConfigError::InvalidPort);
            },
        };
        let size_text = text_or(&s.cache_max_size, "500GB");
        let cache_max_bytes = match parse_byte_size(size_text.as_str()) {
            Some(b) => b,
            None => {
                return Err(StoreConfigError::InvalidCacheSize);
            },
        };
        let workers = number_setting(&s.sync_workers, usize::MAX as u64, 4);
        let retries = number_setting(&s.sync_retry_max, u32::MAX as u64, 5);
        let upload = number_setting(&s.max_upload_size, u64::MAX, 10737418240);
        Ok(
            StoreConfig {
                host: text_or(&s.host, "0.0.0.0"),
                port,
                cache_dir: text_or(&s.cache_dir, "/data/cache"),
                sync_workers: workers as usize,
                sync_retry_max: retries as u32,
                max_upload_size: upload,
                api_key: non_empty_setting(&s.api_key),
                cache_max_bytes,
                gdrive_credentials_path: text_or(&s.gdrive_credentials_path, ""),
                gdrive_folder_id: text_or(&s.gdrive_folder_id, "root"),
                gdrive_path_prefix: non_empty_setting(&s.gdrive_path_prefix),
            },
        )
    }
}

// ───────────────────────── recovery after a restart ─────────────────────────

/// The path ids among `ids` that parse, in order.
pub open spec fn parsed_ids(ids: Seq<String>) -> Seq<Seq<char>>
    decreases ids.len(),
{
    if ids.len() == 0 {
        seq![]
    } else {
        let rest = parsed_ids(ids.drop_last());
        match path_id_parsed(ids.last()@) {
            Ok(p) => rest.push(p),
            Err(_) => rest,
        }
    }
}

/// The path ids of a list of jobs.
pub open spec fn job_ids(jobs: Seq<SyncJob>) -> Seq<Seq<char>> {
    jobs.map_values(|j: SyncJob| j.path_id@)
}

fn push_recovered(jobs: &mut Vec<SyncJob>, ids: &Vec<String>)
    requires
        forall|k: int| 0 <= k < old(jobs)@.len() ==> (#[trigger] old(jobs)@[k]).retry_count == 0,
    ensures
        job_ids(final(jobs)@) == job_ids(old(jobs)@) + parsed_ids(ids@),
        forall|k: int| 0 <= k < final(jobs)@.len() ==> (#[trigger] final(jobs)@[k]).retry_count == 0,
{
    let ghost start = jobs@;
    for i in 0..ids.len()
        invariant
            job_ids(jobs@) == job_ids(start) + parsed_ids(ids@.take(i as int)),
            forall|k: int| 0 <= k < jobs@.len() ==> (#[trigger] jobs@[k]).retry_count == 0,
    {
        proof {
            assert(ids@.take(i + 1).drop_last() =~= ids@.take(i as int));
            assert(ids@.take(i + 1).last() == ids@[i as int]);
        }
        match PathId::parse(ids[i].as_str()) {
            Ok(id) => {
                let ghost before = jobs@;
                jobs.push(SyncJob::new(id));
                proof {
                    assert(job_ids(jobs@) =~= job_ids(before).push(jobs@.last().path_id@));
                    assert(job_ids(start) + parsed_ids(ids@.take(i + 1)) =~= (job_ids(start)
                        + parsed_ids(ids@.take(i as int))).push(jobs@.last().path_id@));
                }
            },
            Err(_) => {},
        }
    }
    proof {
        assert(ids@.take(ids@.len() as int) =~= ids@);
    }
}

/// The sync jobs to queue again when the service starts: one first attempt for each entry that
/// was cached but not yet synced, then for each whose sync failed, in the order listed; an
/// entry whose path id does not parse is passed over.
pub fn recovery_jobs(cached: &Vec<String>, failed: &Vec<String>) -> (jobs: Vec<SyncJob>)
    ensures
        job_ids(jobs@) == parsed_ids(cached@) + parsed_ids(failed@),
        forall|k: int| 0 <= k < jobs@.len() ==> (#[trigger] jobs@[k]).retry_count == 0,
{
    let mut jobs: Vec<SyncJob> = Vec::new();
    proof {
        assert(job_ids(jobs@) =~= seq![]);
    }
    push_recovered(&mut jobs, cached);
    push_recovered(&mut jobs, failed);
    proof {
        assert(seq![] + parsed_ids(cached@) =~= parsed_ids(cached@));
    }
    jobs
}

} // verus!
