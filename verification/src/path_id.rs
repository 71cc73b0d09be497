//! Path-based file identifiers (`{provider}/{path}`), sync status and file metadata.
use vstd::prelude::*;

use crate::errors::CloudStoreError;
use crate::text::{
    after_last_index, chars_eq_str, chars_of, contains_char, contains_pair, count_leading,
    find_after_last, find_char, first_index, has_pair, lemma_after_last_index, lemma_first_index,
    lemma_utf8_len_add, lemma_utf8_len_push, push_chars, push_str, string_from_chars, sub_chars,
    trim_start_char, trim_whitespace, trim_ws, trim_ws_end, trim_ws_start, is_white_space, utf8_len, utf8_width,
};

verus! {

broadcast use vstd::string::group_string_axioms;

// ───────────────────────── specifications ─────────────────────────

/// No `/` among `s[i..j]`.
pub open spec fn slash_free(s: Seq<char>, i: int, j: int) -> bool {
    forall|k: int| i <= k < j ==> s[k] != '/'
}

/// Some `/`-separated component of `s` takes more than 255 bytes in UTF-8.
pub open spec fn has_long_component(s: Seq<char>) -> bool {
    exists|i: int, j: int|
        0 <= i <= j <= s.len() && slash_free(s, i, j) && #[trigger] utf8_len(s.subrange(i, j))
            > 255
}

/// Why a (trimmed) path is refused, or `None` when it is acceptable.
pub open spec fn path_rejection(p: Seq<char>) -> Option<Seq<char>> {
    if p.contains('\0') {
        Some("path contains null byte"@)
    } else if has_pair(p, '.') {
        Some("path traversal (..) is not allowed"@)
    } else if has_long_component(p) {
        Some("path component exceeds 255 bytes"@)
    } else {
        None
    }
}

/// What `PathId::new(provider, path)` gives: the identifier's text, or the refusal message.
pub open spec fn path_id_of(provider: Seq<char>, path: Seq<char>) -> Result<Seq<char>, Seq<char>> {
    let p = trim_start_char(path, '/');
    let prov = trim_ws(provider);
    if prov.len() == 0 {
        Err("provider cannot be empty"@)
    } else if p.len() == 0 {
        Err("path cannot be empty"@)
    } else if path_rejection(p) is Some {
        Err(path_rejection(p)->0)
    } else {
        Ok(prov + seq!['/'] + p)
    }
}

/// What `PathId::parse(full)` gives.
pub open spec fn path_id_parsed(full: Seq<char>) -> Result<Seq<char>, Seq<char>> {
    let f = trim_start_char(full, '/');
    let k = first_index(f, '/');
    if k == f.len() {
        Err("path must contain provider prefix (e.g. gdrive/path/to/file)"@)
    } else {
        path_id_of(f.subrange(0, k), f.subrange(k + 1, f.len() as int))
    }
}

/// Trimming leading `c` leaves text that does not start with `c`, and a suffix of the input.
proof fn lemma_trim_start_char(s: Seq<char>, c: char)
    ensures
        trim_start_char(s, c).len() <= s.len(),
        trim_start_char(s, c) == s.subrange(s.len() - trim_start_char(s, c).len(), s.len() as int),
        trim_start_char(s, c).len() > 0 ==> trim_start_char(s, c)[0] != c,
    decreases s.len(),
{
    if s.len() > 0 && s[0] == c {
        lemma_trim_start_char(s.drop_first(), c);
        let t = trim_start_char(s.drop_first(), c);
        assert(s.drop_first().subrange(s.drop_first().len() - t.len(), s.drop_first().len() as int)
            =~= s.subrange(s.len() - t.len(), s.len() as int));
    } else {
        assert(s.subrange(0, s.len() as int) =~= s);
    }
}

/// Leading white space trimmed: a suffix of the input that does not start with white space.
proof fn lemma_trim_ws_start(s: Seq<char>)
    ensures
        trim_ws_start(s).len() <= s.len(),
        trim_ws_start(s) == s.subrange(s.len() - trim_ws_start(s).len(), s.len() as int),
        trim_ws_start(s).len() > 0 ==> !is_white_space(trim_ws_start(s)[0]),
    decreases s.len(),
{
    if s.len() > 0 && is_white_space(s[0]) {
        lemma_trim_ws_start(s.drop_first());
        let t = trim_ws_start(s.drop_first());
        assert(s.drop_first().subrange(s.drop_first().len() - t.len(), s.drop_first().len() as int)
            =~= s.subrange(s.len() - t.len(), s.len() as int));
    } else {
        assert(s.subrange(0, s.len() as int) =~= s);
    }
}

/// Trailing white space trimmed: a prefix of the input that does not end in white space.
proof fn lemma_trim_ws_end(s: Seq<char>)
    ensures
        trim_ws_end(s).len() <= s.len(),
        trim_ws_end(s) == s.subrange(0, trim_ws_end(s).len() as int),
        trim_ws_end(s).len() > 0 ==> !is_white_space(trim_ws_end(s).last()),
    decreases s.len(),
{
    if s.len() > 0 && is_white_space(s.last()) {
        lemma_trim_ws_end(s.drop_last());
        let t = trim_ws_end(s.drop_last());
        assert(s.drop_last().subrange(0, t.len() as int) =~= s.subrange(0, t.len() as int));
    } else {
        assert(s.subrange(0, s.len() as int) =~= s);
    }
}

/// Trimmed text is a piece of the input, and trimming it again changes nothing.
proof fn lemma_trim_ws(s: Seq<char>)
    ensures
        trim_ws(trim_ws(s)) == trim_ws(s),
        exists|i: int| 0 <= i && i + trim_ws(s).len() <= s.len() && #[trigger] s.subrange(i, i + trim_ws(s).len())
            == trim_ws(s),
{
    let u = trim_ws_start(s);
    let t = trim_ws_end(u);
    lemma_trim_ws_start(s);
    lemma_trim_ws_end(u);
    if t.len() > 0 {
        assert(t[0] == u[0]);
        assert(trim_ws_start(t) == t);
        assert(trim_ws_end(t) == t);
    } else {
        assert(trim_ws_start(t) == t);
        assert(trim_ws_end(t) == t);
    }
    let i = s.len() - u.len();
    assert(s.subrange(i, i + t.len()) =~= t);
    assert(t == trim_ws(s));
    assert(0 <= i && i + trim_ws(s).len() <= s.len() && s.subrange(i, i + trim_ws(s).len()) == trim_ws(s));
}

/// An identifier made from a provider name without `/` reads back unchanged: parsing the text
/// that `PathId::new` builds, with or without a leading `/`, gives the same identifier.
pub proof fn lemma_new_reads_back(provider: Seq<char>, path: Seq<char>)
    requires
        !provider.contains('/'),
        path_id_of(provider, path) is Ok,
    ensures
        path_id_parsed(path_id_of(provider, path)->Ok_0) == path_id_of(provider, path),
        path_id_parsed(seq!['/'] + path_id_of(provider, path)->Ok_0) == path_id_of(provider, path),
{
    let p = trim_start_char(path, '/');
    let prov = trim_ws(provider);
    let id = prov + seq!['/'] + p;
    assert(path_id_of(provider, path) == Ok::<Seq<char>, Seq<char>>(id));
    lemma_trim_ws(provider);
    lemma_trim_start_char(path, '/');
    lemma_trim_start_char(p, '/');
    let i = choose|i: int| 0 <= i && i + prov.len() <= provider.len() && #[trigger] provider.subrange(i, i + prov.len()) == prov;
    assert(!prov.contains('/')) by {
        if prov.contains('/') {
            let j = choose|j: int| 0 <= j < prov.len() && prov[j] == '/';
            assert(provider.subrange(i, i + prov.len())[j] == provider[i + j]);
            assert(provider.contains('/'));
        }
    }
    assert(id[0] == prov[0]);
    assert(trim_start_char(id, '/') == id);
    lemma_first_index(id, '/');
    assert(id[prov.len() as int] == '/');
    assert(first_index(id, '/') == prov.len()) by {
        if first_index(id, '/') < prov.len() {
            assert(prov[first_index(id, '/')] == id[first_index(id, '/')]);
        }
    }
    assert(id.subrange(0, prov.len() as int) =~= prov);
    assert(id.subrange(prov.len() as int + 1, id.len() as int) =~= p);
    assert(trim_start_char(p, '/') == p);
    let slashed = seq!['/'] + id;
    assert(slashed.drop_first() =~= id);
    assert(trim_start_char(slashed, '/') == trim_start_char(id, '/'));
}

/// Parsing is idempotent: the text of a parsed identifier parses to that identifier.
pub proof fn lemma_parse_reads_back(full: Seq<char>)
    requires
        path_id_parsed(full) is Ok,
    ensures
        path_id_parsed(path_id_parsed(full)->Ok_0) == path_id_parsed(full),
{
    let f = trim_start_char(full, '/');
    let k = first_index(f, '/');
    lemma_first_index(f, '/');
    let provider = f.subrange(0, k);
    assert(!provider.contains('/')) by {
        if provider.contains('/') {
            let j = choose|j: int| 0 <= j < provider.len() && provider[j] == '/';
            assert(f[j] == '/');
        }
    }
    lemma_new_reads_back(provider, f.subrange(k + 1, f.len() as int));
}

/// The provider part of an identifier's text: everything before the first `/`.
pub open spec fn provider_part(id: Seq<char>) -> Seq<char> {
    id.subrange(0, first_index(id, '/'))
}

/// The path part of an identifier's text: everything after the first `/`.
pub open spec fn path_part(id: Seq<char>) -> Seq<char> {
    id.subrange(first_index(id, '/') + 1, id.len() as int)
}

/// The last `/`-separated component of a path.
pub open spec fn last_component(p: Seq<char>) -> Seq<char> {
    p.subrange(after_last_index(p, '/'), p.len() as int)
}

/// `rel` pushed onto `base` the way a Unix path is extended.
pub open spec fn path_joined(base: Seq<char>, rel: Seq<char>) -> Seq<char> {
    if rel.len() > 0 && rel[0] == '/' {
        rel
    } else if base.len() == 0 || base.last() == '/' {
        base + rel
    } else {
        base + seq!['/'] + rel
    }
}

/// `s` without trailing separators and trailing `.` components (the root stays).
pub open spec fn strip_path_tail(s: Seq<char>) -> Seq<char>
    decreases s.len(),
{
    if s.len() > 1 && s.last() == '/' {
        strip_path_tail(s.drop_last())
    } else if s.len() > 1 && s.last() == '.' && s[s.len() - 2] == '/' {
        strip_path_tail(s.drop_last())
    } else {
        s
    }
}

/// The final component of a path, as `Path::file_name` sees it.
pub open spec fn path_file_name(s: Seq<char>) -> Seq<char> {
    last_component(strip_path_tail(s))
}

/// A path has a final component that can be renamed.
pub open spec fn has_file_name(s: Seq<char>) -> bool {
    let n = path_file_name(s);
    n.len() > 0 && n != seq!['.'] && n != seq!['.', '.']
}

/// The path with its final component replaced by `name`.
pub open spec fn with_file_name(s: Seq<char>, name: Seq<char>) -> Seq<char> {
    let t = strip_path_tail(s);
    let parent = strip_path_tail(t.subrange(0, after_last_index(t, '/')));
    path_joined(parent, name)
}

// ───────────────────────── PathId ─────────────────────────

/// Path-based file identifier: `{provider}/{path}`, e.g. `gdrive/photos/2026/photo.jpg`.
pub struct PathId(String);

impl View for PathId {
    type V = Seq<char>;

    closed spec fn view(&self) -> Seq<char> {
        self.0@
    }
}

impl PathId {
    #[verifier::type_invariant]
    closed spec fn well_formed(self) -> bool {
        self.0@.contains('/')
    }

    /// Create a new PathId from provider and path.
    pub fn new(provider: &str, path: &str) -> (r: Result<Self, CloudStoreError>)
        ensures
            match r {
                Ok(id) => path_id_of(provider@, path@) == Ok::<Seq<char>, Seq<char>>(id@),
                Err(CloudStoreError::InvalidPath(m)) => path_id_of(provider@, path@) == Err::<
                    Seq<char>,
                    Seq<char>,
                >(m@),
                Err(_) => false,
            },
    {
        let path_chars = chars_of(path);
        let lead = count_leading(&path_chars, '/');
        let p = sub_chars(&path_chars, lead, path_chars.len());
        let prov_chars = chars_of(provider);
        let prov = trim_whitespace(&prov_chars);
        if prov.len() == 0 {
            return Err(CloudStoreError::InvalidPath(String::from_str("provider cannot be empty")));
        }
        if p.len() == 0 {
            return Err(CloudStoreError::InvalidPath(String::from_str("path cannot be empty")));
        }
        match Self::validate_path(&p) {
            Some(msg) => {
                return Err(CloudStoreError::InvalidPath(msg));
            },
            None => {},
        }
        let mut id = prov;
        id.push('/');
        push_chars(&mut id, &p);
        proof {
            assert(id@ == trim_ws(provider@) + seq!['/'] + trim_start_char(path@, '/'));
            assert(id@.contains('/')) by {
                assert(id@[prov@.len() as int] == '/');
            }
        }
        Ok(PathId(string_from_chars(&id)))
    }

    /// Parse a full path-id string like `gdrive/photos/photo.jpg`.
    pub fn parse(full_path: &str) -> (r: Result<Self, CloudStoreError>)
        ensures
            match r {
                Ok(id) => path_id_parsed(full_path@) == Ok::<Seq<char>, Seq<char>>(id@),
                Err(CloudStoreError::InvalidPath(m)) => path_id_parsed(full_path@) == Err::<
                    Seq<char>,
                    Seq<char>,
                >(m@),
                Err(_) => false,
            },
    {
        let all = chars_of(full_path);
        let lead = count_leading(&all, '/');
        let f = sub_chars(&all, lead, all.len());
        let k = find_char(&f, '/');
        proof {
            lemma_first_index(f@, '/');
        }
        if k == f.len() {
            return Err(
                CloudStoreError::InvalidPath(
                    String::from_str("path must contain provider prefix (e.g. gdrive/path/to/file)"),
                ),
            );
        }
        let provider = string_from_chars(&sub_chars(&f, 0, k));
        let path = string_from_chars(&sub_chars(&f, k + 1, f.len()));
        Self::new(provider.as_str(), path.as_str())
    }

    /// Validate a path for security (no traversal, no null bytes, length limits).
    fn validate_path(p: &Vec<char>) -> (r: Option<String>)
        ensures
            match r {
                Some(m) => path_rejection(p@) == Some(m@),
                None => path_rejection(p@) is None,
            },
    {
        if contains_char(p, '\0') {
            return Some(String::from_str("path contains null byte"));
        }
        if contains_pair(p, '.') {
            return Some(String::from_str("path traversal (..) is not allowed"));
        }
        if has_long_component_exec(p) {
            return Some(String::from_str("path component exceeds 255 bytes"));
        }
        None
    }

    /// Get the provider prefix (e.g. `gdrive`).
    pub fn provider(&self) -> (r: &str)
        ensures
            r@ == provider_part(self@),
    {
        proof {
            use_type_invariant(self);
        }
        let v = chars_of(self.0.as_str());
        let k = find_char(&v, '/');
        proof {
            lemma_first_index(v@, '/');
        }
        self.0.as_str().substring_char(0, k)
    }

    /// Get the path after the provider (e.g. `photos/2026/photo.jpg`).
    pub fn path(&self) -> (r: &str)
        ensures
            r@ == path_part(self@),
    {
        proof {
            use_type_invariant(self);
        }
        let v = chars_of(self.0.as_str());
        let k = find_char(&v, '/');
        proof {
            lemma_first_index(v@, '/');
            assert(v@ == self.0@);
            assert(v@.contains('/'));
        }
        self.0.as_str().substring_char(k + 1, v.len())
    }

    /// Get the filename (last component of the path).
    pub fn filename(&self) -> (r: &str)
        ensures
            r@ == last_component(path_part(self@)),
    {
        let p = self.path();
        let v = chars_of(p);
        let k = find_after_last(&v, '/');
        proof {
            lemma_after_last_index(v@, '/');
        }
        p.substring_char(k, v.len())
    }

    /// Get the full path-id string.
    pub fn as_str(&self) -> (r: &str)
        ensures
            r@ == self@,
    {
        self.0.as_str()
    }

    /// The full path-id string (what the identifier displays).
    pub fn to_string(&self) -> (r: String)
        ensures
            r@ == self@,
    {
        self.0.clone()
    }

    /// A copy of this identifier.
    pub fn clone(&self) -> (r: Self)
        ensures
            r@ == self@,
    {
        proof {
            use_type_invariant(self);
        }
        PathId(self.0.clone())
    }

    /// The file path under a cache root.
    pub fn to_cache_path(&self, cache_root: &str) -> (r: String)
        ensures
            r@ == path_joined(cache_root@, self@),
    {
        let root = chars_of(cache_root);
        let id = chars_of(self.0.as_str());
        let v = join_path_chars(&root, &id);
        string_from_chars(&v)
    }

    /// The `.meta.json` sidecar path under a cache root.
    pub fn to_meta_path(&self, cache_root: &str) -> (r: String)
        requires
            has_file_name(path_joined(cache_root@, self@)),
        ensures
            r@ == with_file_name(
                path_joined(cache_root@, self@),
                path_file_name(path_joined(cache_root@, self@)) + ".meta.json"@,
            ),
    {
        let root = chars_of(cache_root);
        let id = chars_of(self.0.as_str());
        let cache = join_path_chars(&root, &id);
        let t = strip_tail_chars(&cache);
        let k = find_after_last(&t, '/');
        proof {
            lemma_after_last_index(t@, '/');
        }
        let mut name = sub_chars(&t, k, t.len());
        push_str(&mut name, ".meta.json");
        let parent = strip_tail_chars(&sub_chars(&t, 0, k));
        let v = join_path_chars(&parent, &name);
        string_from_chars(&v)
    }
}

/// `rel` pushed onto `base`.
pub(crate) fn join_path_chars(base: &Vec<char>, rel: &Vec<char>) -> (r: Vec<char>)
    ensures
        r@ == path_joined(base@, rel@),
{
    if rel.len() > 0 && rel[0] == '/' {
        let mut r: Vec<char> = Vec::new();
        push_chars(&mut r, rel);
        assert(r@ =~= rel@);
        return r;
    }
    let mut r: Vec<char> = Vec::new();
    push_chars(&mut r, base);
    if !(base.len() == 0 || base[base.len() - 1] == '/') {
        r.push('/');
    }
    push_chars(&mut r, rel);
    assert(r@ =~= path_joined(base@, rel@));
    r
}

/// `s` without trailing separators and trailing `.` components.
pub(crate) fn strip_tail_chars(s: &Vec<char>) -> (r: Vec<char>)
    ensures
        r@ == strip_path_tail(s@),
{
    let mut j = s.len();
    assert(s@.subrange(0, j as int) =~= s@);
    while j > 1 && (s[j - 1] == '/' || (s[j - 1] == '.' && s[j - 2] == '/'))
        invariant
            j <= s.len(),
            strip_path_tail(s@) == strip_path_tail(s@.subrange(0, j as int)),
        decreases j,
    {
        assert(s@.subrange(0, j as int).drop_last() =~= s@.subrange(0, j - 1));
        j = j - 1;
    }
    sub_chars(s, 0, j)
}

/// Whether some `/`-separated component takes more than 255 bytes in UTF-8.
fn has_long_component_exec(v: &Vec<char>) -> (r: bool)
    ensures
        r == has_long_component(v@),
{
    let mut st: usize = 0;
    let mut cur: usize = 0;
    let mut k: usize = 0;
    while k < v.len()
        invariant
            st <= k <= v.len(),
            cur == utf8_len(v@.subrange(st as int, k as int)),
            cur <= 255,
            slash_free(v@, st as int, k as int),
            st > 0 ==> v@[st - 1] == '/',
            forall|i: int, j: int|
                0 <= i <= j <= k && slash_free(v@, i, j) ==> #[trigger] utf8_len(
                    v@.subrange(i, j),
                ) <= 255,
        decreases v.len() - k,
    {
        let c = v[k];
        if c == '/' {
            proof {
                assert forall|i: int, j: int|
                    0 <= i <= j <= k + 1 && slash_free(v@, i, j) implies #[trigger] utf8_len(
                    v@.subrange(i, j),
                ) <= 255 by {
                    if j == k + 1 && i < j {
                        assert(v@[k as int] == '/');
                    }
                }
                assert(v@.subrange(k + 1, k + 1) =~= Seq::<char>::empty());
            }
            st = k + 1;
            cur = 0;
        } else {
            let w = utf8_width(c);
            proof {
                assert(v@.subrange(st as int, k + 1) =~= v@.subrange(st as int, k as int).push(c));
                lemma_utf8_len_push(v@.subrange(st as int, k as int), c);
            }
            cur = cur + w;
            if cur > 255 {
                assert(slash_free(v@, st as int, k + 1));
                assert(utf8_len(v@.subrange(st as int, k + 1)) > 255);
                return true;
            }
            proof {
                assert forall|i: int, j: int|
                    0 <= i <= j <= k + 1 && slash_free(v@, i, j) implies #[trigger] utf8_len(
                    v@.subrange(i, j),
                ) <= 255 by {
                    if j == k + 1 {
                        if i < st {
                            assert(v@[st - 1] == '/');
                        }
                        assert(v@.subrange(st as int, k + 1) =~= v@.subrange(st as int, i)
                            + v@.subrange(i, k + 1));
                        lemma_utf8_len_add(v@.subrange(st as int, i), v@.subrange(i, k + 1));
                    }
                }
            }
        }
        k = k + 1;
    }
    false
}

// ───────────────────────── status and metadata ─────────────────────────

/// File sync status.
#[derive(PartialEq, Eq, Structural, Clone, Copy, Debug)]
pub enum FileStatus {
    /// Only on the local cache, not yet synced to cloud.
    Cached,
    /// Currently being uploaded to cloud.
    Syncing,
    /// Successfully synced to cloud.
    Synced,
    /// Sync failed, will retry.
    SyncFailed,
}

/// The stored name of a status.
pub open spec fn status_name(s: FileStatus) -> Seq<char> {
    match s {
        FileStatus::Cached => "cached"@,
        FileStatus::Syncing => "syncing"@,
        FileStatus::Synced => "synced"@,
        FileStatus::SyncFailed => "sync_failed"@,
    }
}

/// The status a stored name denotes; unknown names read as `Cached`.
pub open spec fn status_from_name(s: Seq<char>) -> FileStatus {
    if s == "syncing"@ {
        FileStatus::Syncing
    } else if s == "synced"@ {
        FileStatus::Synced
    } else if s == "sync_failed"@ {
        FileStatus::SyncFailed
    } else {
        FileStatus::Cached
    }
}

impl FileStatus {
    /// The stored name of this status (what it displays).
    pub fn as_str(&self) -> (r: &'static str)
        ensures
            r@ == status_name(*self),
    {
        match self {
            FileStatus::Cached => "cached",
            FileStatus::Syncing => "syncing",
            FileStatus::Synced => "synced",
            FileStatus::SyncFailed => "sync_failed",
        }
    }

    /// The stored name of this status as a `String`.
    pub fn to_string(&self) -> (r: String)
        ensures
            r@ == status_name(*self),
    {
        String::from_str(self.as_str())
    }

    /// The status a stored name denotes; unknown names read as `Cached`.
    pub fn from_name(s: &str) -> (r: FileStatus)
        ensures
            r == status_from_name(s@),
    {
        let v = chars_of(s);
        if chars_eq_str(&v, "syncing") {
            FileStatus::Syncing
        } else if chars_eq_str(&v, "synced") {
            FileStatus::Synced
        } else if chars_eq_str(&v, "sync_failed") {
            FileStatus::SyncFailed
        } else {
            FileStatus::Cached
        }
    }
}

/// Reading a status back from its stored name gives the status.
pub proof fn lemma_status_name_roundtrip(s: FileStatus)
    ensures
        status_from_name(status_name(s)) == s,
{
    reveal_strlit("cached");
    reveal_strlit("syncing");
    reveal_strlit("synced");
    reveal_strlit("sync_failed");
    assert("cached"@ != "syncing"@ && "cached"@ != "synced"@ && "cached"@ != "sync_failed"@) by {
        assert("cached"@[0] != "syncing"@[0]);
        assert("cached"@[0] != "synced"@[0]);
        assert("cached"@.len() != "sync_failed"@.len());
    }
    assert("syncing"@ != "synced"@) by {
        assert("syncing"@.len() != "synced"@.len());
    }
    assert("sync_failed"@ != "syncing"@ && "sync_failed"@ != "synced"@) by {
        assert("sync_failed"@.len() != "syncing"@.len());
        assert("sync_failed"@.len() != "synced"@.len());
    }
}

/// File metadata stored in `.meta.json` sidecar files and in the index.
/// Times are Unix timestamps in microseconds.
#[derive(Debug)]
pub struct FileMeta {
    pub original_name: String,
    pub content_hash: String,
    pub size_bytes: u64,
    pub mime_type: String,
    pub status: FileStatus,
    pub cloud_url: Option<String>,
    pub cloud_provider: String,
    pub is_encrypted: bool,
    pub encryption_iv: Option<String>,
    pub key_verification_hash: Option<String>,
    pub created_at: i64,
    pub synced_at: Option<i64>,
    pub retry_count: u32,
}

/// The current time as a Unix timestamp in microseconds (`chrono::Utc::now`).
#[verifier::external_body]
pub(crate) fn now_micros() -> i64 {
    chrono::Utc::now().timestamp_micros()
}

impl FileMeta {
    /// Create a new FileMeta for a freshly cached file, stamped with the current time.
    pub fn new_cached(
        original_name: String,
        content_hash: String,
        size_bytes: u64,
        mime_type: String,
        cloud_provider: String,
    ) -> (m: Self)
        ensures
            m.original_name == original_name,
            m.content_hash == content_hash,
            m.size_bytes == size_bytes,
            m.mime_type == mime_type,
            m.status == FileStatus::Cached,
            m.cloud_url is None,
            m.cloud_provider == cloud_provider,
            !m.is_encrypted,
            m.encryption_iv is None,
            m.key_verification_hash is None,
            m.synced_at is None,
            m.retry_count == 0,
    {
        FileMeta {
            original_name,
            content_hash,
            size_bytes,
            mime_type,
            status: FileStatus::Cached,
            cloud_url: None,
            cloud_provider,
            is_encrypted: false,
            encryption_iv: None,
            key_verification_hash: None,
            created_at: now_micros(),
            synced_at: None,
            retry_count: 0,
        }
    }
}

} // verus!
