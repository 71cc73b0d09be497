//! Policies of the file cache: which files eviction removes and in what order, how far it goes,
//! what metadata a stored file gets, and how index queries and sidecar names are formed.
use vstd::prelude::*;

use crate::errors::CloudStoreError;
use crate::hasher::{content_hash_of, hash_bytes, sha256_of, StreamHash};
use crate::path_id::{last_component, path_part, provider_part, FileMeta, FileStatus, PathId};
use crate::text::{
    chars_end_with, chars_of, count_leading, ends_with, hex_encode, hex_encode_lower, push_chars,
    push_str, replace_char, replace_chars, string_from_chars, sub_chars, trim_start_char,
};

verus! {

broadcast use vstd::string::group_string_axioms;

/// The MIME type that `mime_guess` gives for a file name (`application/octet-stream` when the
/// extension is unknown).
pub uninterp spec fn mime_guessed(name: Seq<char>) -> Seq<char>;

/// `mime_guess::from_path(name).first_or_octet_stream()`, as text. The guess depends on the
/// name's extension alone.
#[verifier::external_body]
pub(crate) fn guess_mime(name: &str) -> (r: String)
    ensures
        r@ == mime_guessed(name@),
{
    mime_guess::from_path(name).first_or_octet_stream().to_string()
}

// ───────────────────────── eviction ─────────────────────────

/// Cache cleaner with an oldest-first eviction policy.
/// Evicts `Synced` files when the cache exceeds the configured size.
pub struct CacheCleaner {
    max_size_bytes: u64,
}

impl CacheCleaner {
    /// The configured size limit.
    pub closed spec fn limit(self) -> u64 {
        self.max_size_bytes
    }

    pub fn new(max_size_bytes: u64) -> (c: Self)
        ensures
            c.limit() == max_size_bytes,
    {
        CacheCleaner { max_size_bytes }
    }

    /// Get the configured max size in bytes.
    pub fn max_size_bytes(&self) -> (r: u64)
        ensures
            r == self.limit(),
    {
        self.max_size_bytes
    }

    /// Whether a cache holding `total_size` bytes must be evicted from.
    pub fn needs_eviction(&self, total_size: u64) -> (r: bool)
        ensures
            r == (total_size > self.limit()),
    {
        total_size > self.max_size_bytes
    }

    /// The synced files among `entries` (those already in the cloud, so safe to drop locally)
    /// with their sizes, oldest first; files created at the same time keep the order in which
    /// they were listed. Files in any other status are never candidates.
    pub fn eviction_candidates(&self, entries: &Vec<(String, FileMeta)>) -> (r: Vec<(String, u64)>)
        ensures
            r@.len() == synced_entries(entries@).len(),
            forall|k: int|
                0 <= k < r@.len() ==> {
                    let rows = synced_entries(entries@);
                    let i = stable_order(created_times(rows), rows.len())[k] as int;
                    &&& (#[trigger] r@[k]).0@ == rows[i].0@
                    &&& r@[k].1 == rows[i].1.size_bytes
                    &&& rows[i].1.status == FileStatus::Synced
                },
    {
        let ghost rows = synced_entries(entries@);
        let mut idx: Vec<usize> = Vec::new();
        let mut i: usize = 0;
        assert(entries@.take(0) =~= Seq::<(String, FileMeta)>::empty());
        while i < entries.len()
            invariant
                i <= entries@.len(),
                idx@.len() == synced_entries(entries@.take(i as int)).len(),
                forall|j: int| 0 <= j < idx@.len() ==> #[trigger] idx@[j] < i && entries@[idx@[j] as int]
                    == synced_entries(entries@.take(i as int))[j],
            decreases entries.len() - i,
        {
            let ghost prev = synced_entries(entries@.take(i as int));
            proof {
                assert(entries@.take(i + 1) =~= entries@.take(i as int).push(entries@[i as int]));
                entries@.take(i as int).lemma_filter_push(entries@[i as int], is_synced_entry());
                assert(synced_entries(entries@.take(i + 1)) == if entries@[i as int].1.status == FileStatus::Synced {
                    prev.push(entries@[i as int])
                } else {
                    prev
                });
            }
            if entries[i].1.status == FileStatus::Synced {
                idx.push(i);
            }
            i = i + 1;
        }
        assert(entries@.take(i as int) =~= entries@);
        let mut keys: Vec<i64> = Vec::new();
        for j in 0..idx.len()
            invariant
                idx@.len() == rows.len(),
                rows == synced_entries(entries@),
                forall|m: int| 0 <= m < idx@.len() ==> #[trigger] idx@[m] < entries@.len() && entries@[idx@[m] as int] == rows[m],
                keys@.len() == j,
                forall|m: int| 0 <= m < j ==> keys@[m] == #[trigger] rows[m].1.created_at,
        {
            keys.push(entries[idx[j]].1.created_at);
        }
        assert(keys@ =~= created_times(rows));
        let order = stable_order_of(&keys);
        proof {
            lemma_stable_order_indices(keys@, keys@.len());
            assert forall|m: int| 0 <= m < rows.len() implies (#[trigger] rows[m]).1.status == FileStatus::Synced by {
                entries@.lemma_filter_pred(is_synced_entry(), m);
            }
        }
        let mut r: Vec<(String, u64)> = Vec::new();
        for k in 0..order.len()
            invariant
                order@ == stable_order(keys@, keys@.len()),
                keys@ == created_times(rows),
                rows == synced_entries(entries@),
                idx@.len() == rows.len(),
                forall|m: int| 0 <= m < idx@.len() ==> #[trigger] idx@[m] < entries@.len() && entries@[idx@[m] as int] == rows[m],
                forall|m: int| 0 <= m < rows.len() ==> (#[trigger] rows[m]).1.status == FileStatus::Synced,
                order@.len() == rows.len(),
                forall|j: int| 0 <= j < order@.len() ==> #[trigger] order@[j] < rows.len(),
                r@.len() == k,
                forall|j: int|
                    0 <= j < k ==> {
                        let i = order@[j] as int;
                        &&& (#[trigger] r@[j]).0@ == rows[i].0@
                        &&& r@[j].1 == rows[i].1.size_bytes
                        &&& rows[i].1.status == FileStatus::Synced
                    },
        {
            let i = idx[order[k]];
            let path = entries[i].0.clone();
            r.push((path, entries[i].1.size_bytes));
        }
        r
    }
}

/// The synced entries of a listing, in their order.
pub open spec fn synced_entries(entries: Seq<(String, FileMeta)>) -> Seq<(String, FileMeta)> {
    entries.filter(is_synced_entry())
}

/// An entry whose file is synced.
pub open spec fn is_synced_entry() -> spec_fn((String, FileMeta)) -> bool {
    |e: (String, FileMeta)| e.1.status == FileStatus::Synced
}

/// The creation times of listed files.
pub open spec fn created_times(entries: Seq<(String, FileMeta)>) -> Seq<i64> {
    Seq::new(entries.len(), |i: int| entries[i].1.created_at)
}

/// Insert index `i` into `order` after every index whose key is at most `keys[i]`.
pub open spec fn insert_index(order: Seq<usize>, keys: Seq<i64>, i: usize) -> Seq<usize>
    decreases order.len(),
{
    if order.len() == 0 {
        seq![i]
    } else if keys[order.last() as int] <= keys[i as int] {
        order.push(i)
    } else {
        insert_index(order.drop_last(), keys, i).push(order.last())
    }
}

/// The indices `0..n` ordered by key, equal keys in index order (a stable sort).
pub open spec fn stable_order(keys: Seq<i64>, n: nat) -> Seq<usize>
    decreases n,
{
    if n == 0 {
        seq![]
    } else {
        insert_index(stable_order(keys, (n - 1) as nat), keys, (n - 1) as usize)
    }
}

/// Inserting at the position found by scanning from the end is `insert_index`.
proof fn lemma_insert_index_at(order: Seq<usize>, keys: Seq<i64>, i: usize, j: int)
    requires
        0 <= j <= order.len(),
        forall|k: int| j <= k < order.len() ==> keys[#[trigger] order[k] as int] > keys[i as int],
        j == 0 || keys[order[j - 1] as int] <= keys[i as int],
    ensures
        insert_index(order, keys, i) == order.take(j).push(i) + order.skip(j),
    decreases order.len(),
{
    if order.len() == 0 {
        assert(order.take(j).push(i) + order.skip(j) =~= seq![i]);
    } else if j == order.len() {
        assert(order.take(j).push(i) + order.skip(j) =~= order.push(i));
    } else {
        let last = order.last();
        assert(keys[order[order.len() - 1] as int] > keys[i as int]);
        lemma_insert_index_at(order.drop_last(), keys, i, j);
        assert(order.drop_last().take(j) =~= order.take(j));
        assert((order.drop_last().take(j).push(i) + order.drop_last().skip(j)).push(last)
            =~= order.take(j).push(i) + order.skip(j));
    }
}

/// Each entry of an insertion is `i` or an entry of the order it was inserted into.
proof fn lemma_insert_index_origin(order: Seq<usize>, keys: Seq<i64>, i: usize)
    ensures
        insert_index(order, keys, i).len() == order.len() + 1,
        forall|a: int|
            0 <= a < order.len() + 1 ==> #[trigger] insert_index(order, keys, i)[a] == i || exists|m: int|
                0 <= m < order.len() && insert_index(order, keys, i)[a] == order[m],
    decreases order.len(),
{
    if order.len() > 0 && !(keys[order.last() as int] <= keys[i as int]) {
        let rest = insert_index(order.drop_last(), keys, i);
        let r = insert_index(order, keys, i);
        lemma_insert_index_origin(order.drop_last(), keys, i);
        assert forall|a: int| 0 <= a < order.len() + 1 implies #[trigger] r[a] == i || exists|m: int|
            0 <= m < order.len() && r[a] == order[m] by {
            if a == order.len() {
                assert(r[a] == order[order.len() - 1]);
            } else {
                assert(r[a] == rest[a]);
                if rest[a] != i {
                    let m = choose|m: int| 0 <= m < order.drop_last().len() && rest[a] == order.drop_last()[m];
                    assert(r[a] == order[m]);
                }
            }
        }
    } else if order.len() > 0 {
        let r = insert_index(order, keys, i);
        assert forall|a: int| 0 <= a < order.len() + 1 implies #[trigger] r[a] == i || exists|m: int|
            0 <= m < order.len() && r[a] == order[m] by {
            if a < order.len() {
                assert(r[a] == order[a]);
            }
        }
    } else {
        assert(insert_index(order, keys, i) =~= seq![i]);
    }
}

/// The stable order lists `n` indices, each below `n`.
pub proof fn lemma_stable_order_indices(keys: Seq<i64>, n: nat)
    ensures
        stable_order(keys, n).len() == n,
        forall|k: int| 0 <= k < n ==> #[trigger] stable_order(keys, n)[k] < n,
    decreases n,
{
    if n > 0 {
        let prev = stable_order(keys, (n - 1) as nat);
        lemma_stable_order_indices(keys, (n - 1) as nat);
        lemma_insert_index_origin(prev, keys, (n - 1) as usize);
        let s = stable_order(keys, n);
        assert forall|k: int| 0 <= k < n implies #[trigger] s[k] < n by {
            if s[k] != (n - 1) as usize {
                let m = choose|m: int| 0 <= m < prev.len() && s[k] == prev[m];
                assert(prev[m] < n - 1);
            }
        }
    }
}

/// Sort the indices of `keys` by key, stably.
fn stable_order_of(keys: &Vec<i64>) -> (order: Vec<usize>)
    ensures
        order@ == stable_order(keys@, keys@.len()),
{
    let mut order: Vec<usize> = Vec::new();
    for i in 0..keys.len()
        invariant
            order@ == stable_order(keys@, i as nat),
    {
        proof {
            lemma_stable_order_indices(keys@, i as nat);
        }
        let mut j = order.len();
        while j > 0 && keys[order[j - 1]] > keys[i]
            invariant
                order@ == stable_order(keys@, i as nat),
                order@.len() == i,
                forall|k: int| 0 <= k < i ==> #[trigger] order@[k] < i,
                i < keys@.len(),
                j <= order@.len(),
                forall|k: int| j <= k < order@.len() ==> keys@[#[trigger] order@[k] as int] > keys@[i as int],
            decreases j,
        {
            j = j - 1;
        }
        proof {
            lemma_insert_index_at(order@, keys@, i, j as int);
        }
        order.insert(j, i);
        assert(order@ =~= insert_index(stable_order(keys@, i as nat), keys@, i));
    }
    order
}

/// Insertion into an order sorted by key keeps it sorted.
proof fn lemma_insert_index_sorted(order: Seq<usize>, keys: Seq<i64>, i: usize)
    requires
        forall|a: int, b: int| 0 <= a < b < order.len() ==> keys[order[a] as int] <= keys[order[b] as int],
    ensures
        forall|a: int, b: int|
            0 <= a < b < order.len() + 1 ==> keys[insert_index(order, keys, i)[a] as int]
                <= keys[insert_index(order, keys, i)[b] as int],
        insert_index(order, keys, i).len() == order.len() + 1,
    decreases order.len(),
{
    if order.len() > 0 && !(keys[order.last() as int] <= keys[i as int]) {
        let rest = insert_index(order.drop_last(), keys, i);
        lemma_insert_index_sorted(order.drop_last(), keys, i);
        lemma_insert_index_origin(order.drop_last(), keys, i);
        assert forall|a: int| 0 <= a < rest.len() implies keys[rest[a] as int] <= keys[order.last() as int] by {
            if rest[a] != i {
                let k = choose|k: int| 0 <= k < order.drop_last().len() && rest[a] == order.drop_last()[k];
                assert(order[k] == rest[a]);
            }
        }
    }
}

/// The stable order lists indices by non-decreasing key: eviction goes oldest first.
pub proof fn lemma_stable_order_sorted(keys: Seq<i64>, n: nat)
    requires
        n <= keys.len(),
    ensures
        forall|a: int, b: int|
            0 <= a < b < n ==> keys[stable_order(keys, n)[a] as int] <= keys[stable_order(keys, n)[b] as int],
    decreases n,
{
    if n > 0 {
        lemma_stable_order_sorted(keys, (n - 1) as nat);
        lemma_stable_order_indices(keys, (n - 1) as nat);
        lemma_insert_index_sorted(stable_order(keys, (n - 1) as nat), keys, (n - 1) as usize);
    }
}

/// One pass of eviction: the cache's size when it began, its limit, and the bytes freed so far.
/// The pass walks the candidates oldest first: before each it asks `over_limit`, stops when the
/// cache fits, and counts each file whose data was removed with `record_evicted`.
pub struct EvictionRun {
    current_size: u64,
    target_size: u64,
    freed: u64,
}

impl EvictionRun {
    pub closed spec fn start_size(self) -> u64 {
        self.current_size
    }

    pub closed spec fn target(self) -> u64 {
        self.target_size
    }

    pub closed spec fn freed_bytes(self) -> u64 {
        self.freed
    }

    /// Begin a pass over a cache of `current_size` bytes that must shrink to `target_size`.
    pub fn new(current_size: u64, target_size: u64) -> (e: Self)
        ensures
            e.start_size() == current_size,
            e.target() == target_size,
            e.freed_bytes() == 0,
    {
        EvictionRun { current_size, target_size, freed: 0 }
    }

    /// Whether the cache is still over its limit, so that the next candidate goes: the start
    /// size less what was freed is above the limit. The indexed sizes can disagree with the
    /// files removed, so more can be freed than the start size; the difference is then not a
    /// `u64`, and that case is left out.
    pub fn over_limit(&self) -> (r: bool)
        requires
            self.freed_bytes() <= self.start_size(),
        ensures
            r == (self.start_size() - self.freed_bytes() > self.target()),
    {
        self.current_size - self.freed > self.target_size
    }

    /// Count a file of `size` bytes as evicted. The count is a `u64`.
    pub fn record_evicted(&mut self, size: u64)
        requires
            old(self).freed_bytes() + size <= u64::MAX,
        ensures
            final(self).start_size() == old(self).start_size(),
            final(self).target() == old(self).target(),
            final(self).freed_bytes() == old(self).freed_bytes() + size,
    {
        self.freed = self.freed + size;
    }

    /// The bytes freed so far.
    pub fn freed(&self) -> (r: u64)
        ensures
            r == self.freed_bytes(),
    {
        self.freed
    }
}

// ───────────────────────── stored files ─────────────────────────

/// The metadata of a file just stored from a byte slice: named after the path's last component,
/// hashed as `sha256:<hex>`, typed by its extension, owned by the path's provider.
pub fn stored_meta(path_id: &PathId, data: &[u8]) -> (m: FileMeta)
    ensures
        m.original_name@ == last_component(path_part(path_id@)),
        m.content_hash@ == content_hash_of(data@),
        m.size_bytes == data@.len(),
        m.mime_type@ == mime_guessed(last_component(path_part(path_id@))),
        m.cloud_provider@ == provider_part(path_id@),
        m.status == FileStatus::Cached,
        m.cloud_url is None,
        !m.is_encrypted,
        m.synced_at is None,
        m.retry_count == 0,
{
    let name = path_id.filename();
    let mime_type = guess_mime(name);
    FileMeta::new_cached(
        name.to_owned(),
        hash_bytes(data),
        data.len() as u64,
        mime_type,
        path_id.provider().to_owned(),
    )
}

/// The metadata of a file just streamed to disk, given the hash that was fed every chunk
/// written: the content hash is the bare lower-case hex SHA-256 digest of those bytes, and the
/// size is their count.
pub fn streamed_meta(path_id: &PathId, written: StreamHash) -> (m: FileMeta)
    ensures
        m.original_name@ == last_component(path_part(path_id@)),
        m.content_hash@ == hex_encode_lower(sha256_of(written@)),
        m.size_bytes == written@.len(),
        m.mime_type@ == mime_guessed(last_component(path_part(path_id@))),
        m.cloud_provider@ == provider_part(path_id@),
        m.status == FileStatus::Cached,
        m.cloud_url is None,
        !m.is_encrypted,
        m.synced_at is None,
        m.retry_count == 0,
{
    let (content_hash, size_bytes) = written.finish_hex();
    let name = path_id.filename();
    let mime_type = guess_mime(name);
    FileMeta::new_cached(
        name.to_owned(),
        content_hash,
        size_bytes,
        mime_type,
        path_id.provider().to_owned(),
    )
}

// ───────────────────────── index and sidecars ─────────────────────────

/// The `LIKE` pattern that lists a provider's files, under a prefix when one is given.
pub open spec fn list_pattern_of(provider: Seq<char>, prefix: Option<Seq<char>>) -> Seq<char> {
    match prefix {
        Some(p) => provider + "/"@ + trim_start_char(p, '/') + "%"@,
        None => provider + "/%"@,
    }
}

/// The `LIKE` pattern for listing entries of `provider` under `prefix`.
pub fn list_pattern(provider: &str, prefix: Option<&str>) -> (r: String)
    ensures
        r@ == list_pattern_of(provider@, match prefix {
            Some(p) => Some(p@),
            None => None,
        }),
{
    let mut v: Vec<char> = Vec::new();
    push_str(&mut v, provider);
    match prefix {
        Some(p) => {
            push_str(&mut v, "/");
            let pv = chars_of(p);
            let lead = count_leading(&pv, '/');
            let rest = sub_chars(&pv, lead, pv.len());
            push_chars(&mut v, &rest);
            push_str(&mut v, "%");
        },
        None => {
            push_str(&mut v, "/%");
        },
    }
    string_from_chars(&v)
}

/// A sidecar metadata file's name ends in `.meta.json`.
pub fn is_meta_file_name(name: &str) -> (r: bool)
    ensures
        r == ends_with(name@, ".meta.json"@),
{
    let v = chars_of(name);
    chars_end_with(&v, ".meta.json")
}

/// The path-id text of a sidecar, from its path relative to the cache root: backslashes become
/// slashes and the `.meta.json` suffix goes.
pub open spec fn sidecar_path_id(relative: Seq<char>) -> Result<Seq<char>, Seq<char>> {
    let p = replace_char(relative, '\\', '/');
    if ends_with(p, ".meta.json"@) {
        Ok(p.subrange(0, p.len() - ".meta.json"@.len()))
    } else {
        Err("invalid meta filename: "@ + p)
    }
}

/// Derive the path-id text of a sidecar from its path relative to the cache root.
pub fn sidecar_to_path_id(relative: &str) -> (r: Result<String, CloudStoreError>)
    ensures
        match r {
            Ok(s) => sidecar_path_id(relative@) == Ok::<Seq<char>, Seq<char>>(s@),
            Err(CloudStoreError::InvalidPath(m)) => sidecar_path_id(relative@) == Err::<Seq<char>, Seq<char>>(m@),
            Err(_) => false,
        },
{
    let v = chars_of(relative);
    let p = replace_chars(&v, '\\', '/');
    if chars_end_with(&p, ".meta.json") {
        proof {
            reveal_strlit(".meta.json");
        }
        let id = sub_chars(&p, 0, p.len() - 10);
        Ok(string_from_chars(&id))
    } else {
        let mut m: Vec<char> = Vec::new();
        push_str(&mut m, "invalid meta filename: ");
        push_chars(&mut m, &p);
        Err(CloudStoreError::InvalidPath(string_from_chars(&m)))
    }
}

} // verus!
