//! Where synced files go on Google Drive: remote paths, the folders they need, the search
//! queries and URLs the Drive API works with, and a cache of folder ids already resolved.
use vstd::prelude::*;
use vstd::utf8::encode_utf8;

use crate::errors::CloudStoreError;
use crate::text::{
    chars_eq_str, chars_of, decimal, find_char, find_sub, first_index, first_occurrence, lemma_first_index,
    lemma_first_occurrence_from, occurs_at, parse_u64, parse_u64_spec, push_chars, push_decimal,
    push_str, split_chars, split_on, string_from_chars, sub_chars, url_encode, url_encoded, starts_with, ends_with,
};

verus! {

broadcast use vstd::string::group_string_axioms;

// ───────────────────────── paths ─────────────────────────

/// The remote path with the configured prefix in front.
pub open spec fn remote_full_path_of(prefix: Option<Seq<char>>, remote: Seq<char>) -> Seq<char> {
    match prefix {
        Some(p) => p + "/"@ + remote,
        None => remote,
    }
}

/// Prepend the configured path prefix, if any, to a remote path.
pub fn remote_full_path(prefix: Option<&str>, remote_path: &str) -> (r: String)
    ensures
        r@ == remote_full_path_of(
            match prefix {
                Some(p) => Some(p@),
                None => None,
            },
            remote_path@,
        ),
{
    match prefix {
        Some(p) => {
            let mut v: Vec<char> = Vec::new();
            push_str(&mut v, p);
            push_str(&mut v, "/");
            push_str(&mut v, remote_path);
            string_from_chars(&v)
        },
        None => remote_path.to_owned(),
    }
}

/// The folders a remote path lies in, and its file name: the `/`-separated pieces, the last one
/// being the file name.
pub fn split_remote_path(full_path: &str) -> (r: (Vec<String>, String))
    ensures
        r.0@.len() + 1 == split_on(full_path@, '/').len(),
        forall|i: int| 0 <= i < r.0@.len() ==> (#[trigger] r.0@[i])@ == split_on(full_path@, '/')[i],
        r.1@ == split_on(full_path@, '/').last(),
{
    let v = chars_of(full_path);
    let pieces = split_chars(&v, '/');
    proof {
        crate::text::lemma_split_on_nonempty(v@, '/');
    }
    let n = pieces.len();
    let mut folders: Vec<String> = Vec::new();
    for i in 0..n - 1
        invariant
            n == pieces@.len(),
            n >= 1,
            folders@.len() == i,
            forall|k: int| 0 <= k < i ==> (#[trigger] folders@[k])@ == pieces@[k]@,
    {
        folders.push(string_from_chars(&pieces[i]));
    }
    let filename = string_from_chars(&pieces[n - 1]);
    (folders, filename)
}

// ───────────────────────── queries and URLs ─────────────────────────

/// The key under which a folder's id is cached: `parent/name`.
pub open spec fn folder_key_of(parent: Seq<char>, name: Seq<char>) -> Seq<char> {
    parent + "/"@ + name
}

/// The cache key of folder `name` inside folder `parent`.
pub fn folder_key(parent: &str, name: &str) -> (r: String)
    ensures
        r@ == folder_key_of(parent@, name@),
{
    let mut v: Vec<char> = Vec::new();
    push_str(&mut v, parent);
    push_str(&mut v, "/");
    push_str(&mut v, name);
    string_from_chars(&v)
}

/// The Drive search for a folder named `name` inside `parent`.
pub open spec fn folder_query_of(name: Seq<char>, parent: Seq<char>) -> Seq<char> {
    "name = '"@ + name + "' and '"@ + parent
        + "' in parents and mimeType = 'application/vnd.google-apps.folder' and trashed = false"@
}

/// The Drive search for folder `name` inside `parent`.
pub fn folder_query(name: &str, parent: &str) -> (r: String)
    ensures
        r@ == folder_query_of(name@, parent@),
{
    let mut v: Vec<char> = Vec::new();
    push_str(&mut v, "name = '");
    push_str(&mut v, name);
    push_str(&mut v, "' and '");
    push_str(&mut v, parent);
    push_str(&mut v, "' in parents and mimeType = 'application/vnd.google-apps.folder' and trashed = false");
    string_from_chars(&v)
}

/// The Drive search for a file named `name` inside `parent`.
pub open spec fn file_query_of(name: Seq<char>, parent: Seq<char>) -> Seq<char> {
    "name = '"@ + name + "' and '"@ + parent + "' in parents and trashed = false"@
}

/// The Drive search for file `name` inside `parent`.
pub fn file_query(name: &str, parent: &str) -> (r: String)
    ensures
        r@ == file_query_of(name@, parent@),
{
    let mut v: Vec<char> = Vec::new();
    push_str(&mut v, "name = '");
    push_str(&mut v, name);
    push_str(&mut v, "' and '");
    push_str(&mut v, parent);
    push_str(&mut v, "' in parents and trashed = false");
    string_from_chars(&v)
}

/// The URL under which a Drive file is viewed.
pub open spec fn drive_view_url_of(file_id: Seq<char>) -> Seq<char> {
    "https://drive.google.com/file/d/"@ + file_id + "/view"@
}

/// The view URL of a Drive file; it is what a synced file's `cloud_url` holds.
pub fn drive_view_url(file_id: &str) -> (r: String)
    ensures
        r@ == drive_view_url_of(file_id@),
{
    let mut v: Vec<char> = Vec::new();
    push_str(&mut v, "https://drive.google.com/file/d/");
    push_str(&mut v, file_id);
    push_str(&mut v, "/view");
    string_from_chars(&v)
}

/// The Drive file id in a cloud URL: for a `drive.google.com` URL, what follows the first `/d/`
/// up to the next `/`; anything else is taken as the id itself.
pub open spec fn file_id_of(cloud_url: Seq<char>) -> Seq<char> {
    if first_occurrence(cloud_url, "drive.google.com"@) is Some {
        match first_occurrence(cloud_url, "/d/"@) {
            Some(i) => {
                let rest = cloud_url.subrange(i + 3, cloud_url.len() as int);
                rest.subrange(0, first_index(rest, '/'))
            },
            None => cloud_url,
        }
    } else {
        cloud_url
    }
}

/// Extract the Drive file id from a cloud URL.
pub fn file_id_from_url(cloud_url: &str) -> (r: String)
    ensures
        r@ == file_id_of(cloud_url@),
{
    let v = chars_of(cloud_url);
    if find_sub(&v, "drive.google.com").is_none() {
        return cloud_url.to_owned();
    }
    match find_sub(&v, "/d/") {
        None => cloud_url.to_owned(),
        Some(i) => {
            proof {
                reveal_strlit("/d/");
                lemma_first_occurrence_from(v@, "/d/"@, 0);
                assert(occurs_at(v@, "/d/"@, i as int));
                assert(i + 3 <= v@.len());
            }
            assert(i < v.len() - 2);
            let start: usize = i + 3;
            let rest = sub_chars(&v, start, v.len());
            let end = find_char(&rest, '/');
            proof {
                lemma_first_index(rest@, '/');
            }
            let id = sub_chars(&rest, 0, end);
            string_from_chars(&id)
        },
    }
}

/// Reading the id back from a file's view URL gives the id, for any id without a `/`.
pub proof fn lemma_view_url_roundtrip(file_id: Seq<char>)
    requires
        !file_id.contains('/'),
    ensures
        file_id_of(drive_view_url_of(file_id)) == file_id,
{
    let p = "https://drive.google.com/file/d/"@;
    let u = drive_view_url_of(file_id);
    reveal_strlit("https://drive.google.com/file/d/");
    reveal_strlit("/view");
    reveal_strlit("/d/");
    reveal_strlit("drive.google.com");
    assert(u == p + file_id + "/view"@);
    assert(occurs_at(u, "drive.google.com"@, 8)) by {
        assert(u.subrange(8, 24) =~= "drive.google.com"@);
    }
    lemma_first_occurrence_from(u, "drive.google.com"@, 0);
    assert(occurs_at(u, "/d/"@, 29)) by {
        assert(u.subrange(29, 32) =~= "/d/"@);
    }
    assert forall|j: int| 0 <= j < 29 implies !occurs_at(u, "/d/"@, j) by {
        if occurs_at(u, "/d/"@, j) {
            assert(u.subrange(j, j + 3)[0] == '/');
            assert(u.subrange(j, j + 3)[1] == 'd');
            assert(u.subrange(j, j + 3)[2] == '/');
            assert(u[j] == p[j] && u[j + 1] == p[j + 1] && u[j + 2] == p[j + 2]);
            assert(p[j] == '/' && p[j + 1] == 'd' && p[j + 2] == '/');
        }
    }
    lemma_first_occurrence_from(u, "/d/"@, 0);
    let rest = u.subrange(32, u.len() as int);
    assert(rest =~= file_id + "/view"@);
    lemma_first_index(rest, '/');
    assert forall|j: int| 0 <= j < file_id.len() implies rest[j] != '/' by {
        assert(rest[j] == file_id[j]);
    }
    assert(rest[file_id.len() as int] == '/');
    if first_index(rest, '/') < file_id.len() {
        assert(rest[first_index(rest, '/')] == '/');
    }
    assert(first_index(rest, '/') == file_id.len());
    assert(rest.subrange(0, file_id.len() as int) =~= file_id);
}

// ───────────────────────── provider results ─────────────────────────

/// A `ProviderError` of the `gdrive` provider with `message`.
pub fn gdrive_error(message: String) -> (e: CloudStoreError)
    ensures
        e matches CloudStoreError::ProviderError { provider, message: m } && provider@ == "gdrive"@
            && m == message,
{
    CloudStoreError::ProviderError { provider: "gdrive".to_owned(), message }
}

/// The id of the file an upload wrote: an update keeps the existing file's id when Drive returns
/// none; a new file must come back with one.
pub fn uploaded_file_id(existing: Option<String>, returned: Option<String>) -> (r: Result<String, CloudStoreError>)
    ensures
        existing matches Some(e) ==> r == Ok::<String, CloudStoreError>(
            match returned {
                Some(x) => x,
                None => e,
            },
        ),
        returned matches Some(x) ==> (existing is None ==> r == Ok::<String, CloudStoreError>(x)),
        existing is None && returned is None ==> (r matches Err(
            CloudStoreError::ProviderError { provider, message },
        ) && provider@ == "gdrive"@ && message@ == "Upload succeeded but no file ID returned"@),
{
    match existing {
        Some(e) => Ok(
            match returned {
                Some(x) => x,
                None => e,
            },
        ),
        None => match returned {
            Some(x) => Ok(x),
            None => Err(gdrive_error("Upload succeeded but no file ID returned".to_owned())),
        },
    }
}

/// A storage quota figure as reported (`i64`), kept only when it is not negative.
pub fn quota_value(v: Option<i64>) -> (r: Option<u64>)
    ensures
        r == match v {
            Some(x) => if x >= 0 {
                Some(x as u64)
            } else {
                None
            },
            None => None,
        },
{
    match v {
        Some(x) => if x >= 0 {
            Some(x as u64)
        } else {
            None
        },
        None => None,
    }
}

/// The credentials path must be set before the provider can start.
pub fn check_credentials_path(credentials_path: &str) -> (r: Result<(), CloudStoreError>)
    ensures
        credentials_path@.len() == 0 ==> (r matches Err(CloudStoreError::ConfigError(m)) && m@
            == "GDRIVE_CREDENTIALS_PATH is empty"@),
        credentials_path@.len() > 0 ==> r is Ok,
{
    if credentials_path.is_empty() {
        Err(CloudStoreError::ConfigError("GDRIVE_CREDENTIALS_PATH is empty".to_owned()))
    } else {
        Ok(())
    }
}

// ───────────────────────── authorisation ─────────────────────────

/// What Google hands back to the authorisation callback.
pub struct CallbackQuery {
    pub code: Option<String>,
    pub error: Option<String>,
}

/// The port the service listens on, for its callback URL: the configured one when it parses as a
/// port number, else 8080.
pub fn callback_port(configured: Option<&str>) -> (r: u16)
    ensures
        r == match configured {
            Some(s) => match parse_u64_spec(s@) {
                Some(n) => if n <= 65535 {
                    n as u16
                } else {
                    8080u16
                },
                None => 8080u16,
            },
            None => 8080u16,
        },
{
    match configured {
        Some(s) => {
            let v = chars_of(s);
            match parse_u64(&v) {
                Some(n) => if n <= 65535 {
                    n as u16
                } else {
                    8080
                },
                None => 8080,
            }
        },
        None => 8080,
    }
}

/// The URL Google redirects to after consent.
pub fn callback_url(port: u16) -> (r: String)
    ensures
        r@ == "http://localhost:"@ + decimal(port as nat) + "/api/auth/gdrive/callback"@,
{
    let mut v: Vec<char> = Vec::new();
    push_str(&mut v, "http://localhost:");
    push_decimal(&mut v, port as u64);
    push_str(&mut v, "/api/auth/gdrive/callback");
    string_from_chars(&v)
}

/// The consent URL, asking for offline access to Drive.
pub open spec fn consent_url_of(client_id: Seq<char>, redirect_uri: Seq<char>) -> Seq<char> {
    "https://accounts.google.com/o/oauth2/auth?client_id="@ + url_encoded(encode_utf8(client_id))
        + "&redirect_uri="@ + url_encoded(encode_utf8(redirect_uri))
        + "&response_type=code&scope=https://www.googleapis.com/auth/drive&access_type=offline&prompt=consent"@
}

/// The Google consent URL for this client and callback.
pub fn consent_url(client_id: &str, redirect_uri: &str) -> (r: String)
    ensures
        r@ == consent_url_of(client_id@, redirect_uri@),
{
    let mut v: Vec<char> = Vec::new();
    push_str(&mut v, "https://accounts.google.com/o/oauth2/auth?client_id=");
    let c = url_encode(client_id);
    push_str(&mut v, c.as_str());
    push_str(&mut v, "&redirect_uri=");
    let r = url_encode(redirect_uri);
    push_str(&mut v, r.as_str());
    push_str(&mut v, "&response_type=code&scope=https://www.googleapis.com/auth/drive&access_type=offline&prompt=consent");
    string_from_chars(&v)
}

/// The form that exchanges an authorisation code for tokens.
pub open spec fn token_form_of(code: Seq<char>, client_id: Seq<char>, client_secret: Seq<char>, redirect_uri: Seq<char>) -> Seq<char> {
    "code="@ + url_encoded(encode_utf8(code)) + "&client_id="@ + url_encoded(encode_utf8(client_id))
        + "&client_secret="@ + url_encoded(encode_utf8(client_secret)) + "&redirect_uri="@ + url_encoded(
        encode_utf8(redirect_uri),
    ) + "&grant_type=authorization_code"@
}

/// The body of the token request.
pub fn token_form(code: &str, client_id: &str, client_secret: &str, redirect_uri: &str) -> (r: String)
    ensures
        r@ == token_form_of(code@, client_id@, client_secret@, redirect_uri@),
{
    let mut v: Vec<char> = Vec::new();
    push_str(&mut v, "code=");
    let a = url_encode(code);
    push_str(&mut v, a.as_str());
    push_str(&mut v, "&client_id=");
    let b = url_encode(client_id);
    push_str(&mut v, b.as_str());
    push_str(&mut v, "&client_secret=");
    let c = url_encode(client_secret);
    push_str(&mut v, c.as_str());
    push_str(&mut v, "&redirect_uri=");
    let d = url_encode(redirect_uri);
    push_str(&mut v, d.as_str());
    push_str(&mut v, "&grant_type=authorization_code");
    string_from_chars(&v)
}

/// A page of the authorisation flow and its HTTP status.
#[derive(Debug)]
pub struct AuthPage {
    pub status: u16,
    pub html: String,
}

/// The page of a refused authorisation, with a link to try again.
pub open spec fn refused_page_of(title: Seq<char>, detail: Seq<char>) -> Seq<char> {
    "<html><body><h1>❌ "@ + title + "</h1><p>"@ + detail
        + "</p><p><a href=\"/api/auth/gdrive\">Try again</a></p></body></html>"@
}

/// The page of a server-side failure.
pub open spec fn error_page_of(detail: Seq<char>) -> Seq<char> {
    "<html><body><h1>❌ Error</h1><p>"@ + detail + "</p></body></html>"@
}

/// The first check of the callback: Google's error, or a missing code, is answered with 400;
/// otherwise the code goes on to the exchange.
pub fn callback_code(q: &CallbackQuery) -> (r: Result<String, AuthPage>)
    ensures
        q.error matches Some(e) ==> (r matches Err(p) && p.status == 400 && p.html@ == refused_page_of(
            "Authorization Failed"@,
            e@,
        )),
        q.error is None ==> match q.code {
            Some(c) => r == Ok::<String, AuthPage>(c),
            None => r matches Err(p) && p.status == 400 && p.html@
                == "<html><body><h1>❌ Missing authorization code</h1><p><a href=\"/api/auth/gdrive\">Try again</a></p></body></html>"@,
        },
{
    if let Some(e) = &q.error {
        let mut v: Vec<char> = Vec::new();
        push_str(&mut v, "<html><body><h1>❌ ");
        push_str(&mut v, "Authorization Failed");
        push_str(&mut v, "</h1><p>");
        push_str(&mut v, e.as_str());
        push_str(&mut v, "</p><p><a href=\"/api/auth/gdrive\">Try again</a></p></body></html>");
        return Err(AuthPage { status: 400, html: string_from_chars(&v) });
    }
    match &q.code {
        Some(c) => Ok(c.clone()),
        None => Err(AuthPage {
            status: 400,
            html: "<html><body><h1>❌ Missing authorization code</h1><p><a href=\"/api/auth/gdrive\">Try again</a></p></body></html>".to_owned(),
        }),
    }
}

/// The page of a failed token exchange (400).
pub fn exchange_failed_page(error: &str) -> (r: AuthPage)
    ensures
        r.status == 400,
        r.html@ == refused_page_of("Token Exchange Failed"@, error@),
{
    let mut v: Vec<char> = Vec::new();
    push_str(&mut v, "<html><body><h1>❌ ");
    push_str(&mut v, "Token Exchange Failed");
    push_str(&mut v, "</h1><p>");
    push_str(&mut v, error);
    push_str(&mut v, "</p><p><a href=\"/api/auth/gdrive\">Try again</a></p></body></html>");
    AuthPage { status: 400, html: string_from_chars(&v) }
}

/// The page of a server-side failure (500).
pub fn error_page(detail: &str) -> (r: AuthPage)
    ensures
        r.status == 500,
        r.html@ == error_page_of(detail@),
{
    let mut v: Vec<char> = Vec::new();
    push_str(&mut v, "<html><body><h1>❌ Error</h1><p>");
    push_str(&mut v, detail);
    push_str(&mut v, "</p></body></html>");
    AuthPage { status: 500, html: string_from_chars(&v) }
}

/// The page of a successful authorisation, naming where the token was saved.
pub fn auth_success_page(token_path: &str) -> (r: String)
    ensures
        r@ == "<html><body><h1>✅ Google Drive Authorization Successful!</h1><p>Token saved to: <code>"@
            + token_path@
            + "</code></p><p>Restart the server to activate Google Drive sync.</p></body></html>"@,
{
    let mut v: Vec<char> = Vec::new();
    push_str(&mut v, "<html><body><h1>✅ Google Drive Authorization Successful!</h1><p>Token saved to: <code>");
    push_str(&mut v, token_path);
    push_str(&mut v, "</code></p><p>Restart the server to activate Google Drive sync.</p></body></html>");
    string_from_chars(&v)
}

/// Health and quota of the Drive account.
pub struct ProviderHealth {
    pub available: bool,
    pub storage_used: Option<u64>,
    pub storage_limit: Option<u64>,
}

impl ProviderHealth {
    /// An available provider with the quota Drive reported; negative figures are dropped.
    pub fn from_quota(usage: Option<i64>, limit: Option<i64>) -> (h: Self)
        ensures
            h.available,
            h.storage_used == match usage {
                Some(x) => if x >= 0 {
                    Some(x as u64)
                } else {
                    None
                },
                None => None,
            },
            h.storage_limit == match limit {
                Some(x) => if x >= 0 {
                    Some(x as u64)
                } else {
                    None
                },
                None => None,
            },
    {
        ProviderHealth { available: true, storage_used: quota_value(usage), storage_limit: quota_value(limit) }
    }
}

// ───────────────────────── folder resolution ─────────────────────────

/// The id of the latest entry for `key`.
pub open spec fn latest_for(entries: Seq<(String, String)>, key: Seq<char>) -> Option<Seq<char>>
    decreases entries.len(),
{
    if entries.len() == 0 {
        None
    } else if entries.last().0@ == key {
        Some(entries.last().1@)
    } else {
        latest_for(entries.drop_last(), key)
    }
}

/// Folder ids already resolved, by `parent/name` key. It lives as long as the provider, so that
/// concurrent uploads do not create a folder twice.
pub struct FolderCache {
    entries: Vec<(String, String)>,
}

impl View for FolderCache {
    type V = Map<Seq<char>, Seq<char>>;

    closed spec fn view(&self) -> Map<Seq<char>, Seq<char>> {
        Map::new(|k: Seq<char>| latest_for(self.entries@, k) is Some, |k: Seq<char>| latest_for(self.entries@, k)->0)
    }
}

impl FolderCache {
    /// No folder resolved yet.
    pub fn new() -> (c: Self)
        ensures
            c@ == Map::<Seq<char>, Seq<char>>::empty(),
    {
        let c = FolderCache { entries: Vec::new() };
        assert(c@ =~= Map::<Seq<char>, Seq<char>>::empty());
        c
    }

    /// The cached id of a folder.
    pub fn get(&self, key: &str) -> (r: Option<String>)
        ensures
            match r {
                Some(id) => self@.contains_key(key@) && self@[key@] == id@,
                None => !self@.contains_key(key@),
            },
    {
        let mut j = self.entries.len();
        assert(self.entries@.take(j as int) =~= self.entries@);
        while j > 0
            invariant
                j <= self.entries@.len(),
                latest_for(self.entries@, key@) == latest_for(self.entries@.take(j as int), key@),
            decreases j,
        {
            let e = &self.entries[j - 1];
            let kv = chars_of(e.0.as_str());
            proof {
                assert(self.entries@.take(j as int).drop_last() =~= self.entries@.take(j - 1));
            }
            if chars_eq_str(&kv, key) {
                return Some(e.1.clone());
            }
            j = j - 1;
        }
        assert(self.entries@.take(0) =~= Seq::<(String, String)>::empty());
        None
    }

    /// Record the id of a folder.
    pub fn insert(&mut self, key: String, id: String)
        ensures
            final(self)@ == old(self)@.insert(key@, id@),
    {
        let ghost kv = key@;
        let ghost iv = id@;
        self.entries.push((key, id));
        proof {
            assert forall|k: Seq<char>| #[trigger] latest_for(self.entries@, k) == if k == kv {
                Some(iv)
            } else {
                latest_for(old(self).entries@, k)
            } by {
                assert(self.entries@.drop_last() =~= old(self).entries@);
            }
            assert(self@ =~= old(self)@.insert(kv, iv));
        }
    }
}

/// The folder reached from `parent` by walking `parts[i..j]`, skipping empty names and
/// following cached ids; `None` when a folder on the way is not cached.
pub open spec fn cached_walk(cache: Map<Seq<char>, Seq<char>>, parent: Seq<char>, parts: Seq<Seq<char>>, i: int, j: int) -> Option<Seq<char>>
    decreases j - i,
{
    if i >= j {
        Some(parent)
    } else if parts[i].len() == 0 {
        cached_walk(cache, parent, parts, i + 1, j)
    } else if cache.contains_key(folder_key_of(parent, parts[i])) {
        cached_walk(cache, cache[folder_key_of(parent, parts[i])], parts, i + 1, j)
    } else {
        None
    }
}

/// Walking one step further extends a walk.
proof fn lemma_cached_walk_extend(cache: Map<Seq<char>, Seq<char>>, parent: Seq<char>, parts: Seq<Seq<char>>, i: int, j: int)
    requires
        i <= j,
    ensures
        cached_walk(cache, parent, parts, i, j + 1) == match cached_walk(cache, parent, parts, i, j) {
            Some(q) => if parts[j].len() == 0 {
                Some(q)
            } else if cache.contains_key(folder_key_of(q, parts[j])) {
                Some(cache[folder_key_of(q, parts[j])])
            } else {
                None
            },
            None => None,
        },
    decreases j - i,
{
    reveal_with_fuel(cached_walk, 2);
    if i < j {
        if parts[i].len() == 0 {
            lemma_cached_walk_extend(cache, parent, parts, i + 1, j);
        } else if cache.contains_key(folder_key_of(parent, parts[i])) {
            lemma_cached_walk_extend(cache, cache[folder_key_of(parent, parts[i])], parts, i + 1, j);
        }
    }
}

/// A walk splits at any point: walking `i..n` is walking `i..j`, then `j..n` from where that
/// part ended.
pub proof fn lemma_cached_walk_split(cache: Map<Seq<char>, Seq<char>>, parent: Seq<char>, parts: Seq<Seq<char>>, i: int, j: int, n: int)
    requires
        i <= j <= n,
    ensures
        cached_walk(cache, parent, parts, i, n) == match cached_walk(cache, parent, parts, i, j) {
            Some(q) => cached_walk(cache, q, parts, j, n),
            None => None,
        },
    decreases j - i,
{
    if i < j {
        if parts[i].len() == 0 {
            lemma_cached_walk_split(cache, parent, parts, i + 1, j, n);
        } else if cache.contains_key(folder_key_of(parent, parts[i])) {
            lemma_cached_walk_split(cache, cache[folder_key_of(parent, parts[i])], parts, i + 1, j, n);
        }
    }
}

/// A walk that the cache resolves still resolves, to the same folder, once the cache holds more
/// folders.
pub proof fn lemma_cached_walk_grows(small: Map<Seq<char>, Seq<char>>, large: Map<Seq<char>, Seq<char>>, parent: Seq<char>, parts: Seq<Seq<char>>, i: int, j: int)
    requires
        small.submap_of(large),
        cached_walk(small, parent, parts, i, j) is Some,
    ensures
        cached_walk(large, parent, parts, i, j) == cached_walk(small, parent, parts, i, j),
    decreases j - i,
{
    if i < j {
        if parts[i].len() == 0 {
            lemma_cached_walk_grows(small, large, parent, parts, i + 1, j);
        } else {
            let k = folder_key_of(parent, parts[i]);
            assert(small.contains_key(k));
            assert(large[k] == small[k]);
            lemma_cached_walk_grows(small, large, small[k], parts, i + 1, j);
        }
    }
}

/// Recording the folder that Drive resolved after a cached walk from the root extends that walk
/// by one name: the cache then walks from the root to the new folder.
pub proof fn lemma_resolve_extends_walk(cache: Map<Seq<char>, Seq<char>>, root: Seq<char>, names: Seq<Seq<char>>, walked: int, current: Seq<char>, folder_id: Seq<char>)
    requires
        0 <= walked < names.len(),
        names[walked].len() > 0,
        cached_walk(cache, root, names, 0, walked) == Some(current),
        !cache.contains_key(folder_key_of(current, names[walked])),
    ensures
        cached_walk(cache.insert(folder_key_of(current, names[walked]), folder_id), root, names, 0, walked + 1)
            == Some(folder_id),
{
    let larger = cache.insert(folder_key_of(current, names[walked]), folder_id);
    assert(cache.submap_of(larger));
    lemma_cached_walk_grows(cache, larger, root, names, 0, walked);
    lemma_cached_walk_extend(larger, root, names, 0, walked);
}

/// The folder path of an upload being resolved, folder by folder, from the root folder.
pub struct FolderWalk {
    parts: Vec<String>,
    next: usize,
    parent: String,
    root: Ghost<Seq<char>>,
}

/// What resolving a folder path needs next.
#[derive(Debug)]
pub enum FolderStep {
    /// The path is resolved: the id of the innermost folder.
    Done(String),
    /// Folder `folder_name` is not cached under folder `parent`: search Drive with `query`,
    /// create it there when absent, and record its id under `cache_key`.
    Resolve { folder_name: String, parent: String, cache_key: String, query: String },
}

impl FolderWalk {
    #[verifier::type_invariant]
    closed spec fn within(self) -> bool {
        self.next <= self.parts@.len()
    }

    /// The folder names of the path.
    pub closed spec fn names(self) -> Seq<Seq<char>> {
        self.parts@.map_values(|p: String| p@)
    }

    /// How many names have been walked.
    pub closed spec fn walked(self) -> nat {
        self.next as nat
    }

    /// The folder reached so far.
    pub closed spec fn current(self) -> Seq<char> {
        self.parent@
    }

    /// The folder the walk started from.
    pub closed spec fn root(self) -> Seq<char> {
        self.root@
    }

    /// The cache alone leads from the root over the names walked so far to the current folder.
    pub open spec fn cached_from_root(self, cache: Map<Seq<char>, Seq<char>>) -> bool {
        cached_walk(cache, self.root(), self.names(), 0, self.walked() as int) == Some(self.current())
    }

    /// Start at the root folder.
    pub fn new(root: &str, parts: Vec<String>) -> (w: Self)
        ensures
            w.names() == parts@.map_values(|p: String| p@),
            w.walked() == 0,
            w.current() == root@,
            w.root() == root@,
            forall|c: Map<Seq<char>, Seq<char>>| #[trigger] w.cached_from_root(c),
    {
        FolderWalk { parts, next: 0, parent: root.to_owned(), root: Ghost(root@) }
    }

    /// Walk over empty names and cached folders; stop at the end, or at a folder that Drive must
    /// resolve.
    pub fn advance(&mut self, cache: &FolderCache) -> (r: FolderStep)
        ensures
            final(self).names() == old(self).names(),
            old(self).walked() <= final(self).walked() <= final(self).names().len(),
            cached_walk(cache@, old(self).current(), old(self).names(), old(self).walked() as int, final(self).walked() as int)
                == Some(final(self).current()),
            r matches FolderStep::Done(id) ==> final(self).walked() == final(self).names().len() && id@
                == final(self).current(),
            cached_walk(cache@, old(self).current(), old(self).names(), old(self).walked() as int, old(self).names().len() as int)
                matches Some(q) ==> r matches FolderStep::Done(id) && id@ == q,
            final(self).root() == old(self).root(),
            old(self).cached_from_root(cache@) ==> final(self).cached_from_root(cache@),
            r matches FolderStep::Resolve { folder_name, parent, cache_key, query } ==> {
                let name = final(self).names()[final(self).walked() as int];
                &&& final(self).walked() < final(self).names().len()
                &&& name.len() > 0
                &&& folder_name@ == name
                &&& parent@ == final(self).current()
                &&& cache_key@ == folder_key_of(final(self).current(), name)
                &&& !cache@.contains_key(cache_key@)
                &&& query@ == folder_query_of(name, final(self).current())
            },
    {
        proof {
            use_type_invariant(&*self);
        }
        let ghost names = self.names();
        let ghost start_parent = self.parent@;
        let ghost start = self.next as int;
        while self.next < self.parts.len()
            invariant
                self.names() == names,
                self.next <= self.parts@.len(),
                names.len() == self.parts@.len(),
                forall|k: int| 0 <= k < names.len() ==> (#[trigger] names[k]) == self.parts@[k]@,
                start <= self.next,
                names == old(self).names(),
                start == old(self).walked(),
                start_parent == old(self).current(),
                cached_walk(cache@, start_parent, names, start, self.next as int) == Some(self.parent@),
                self.root@ == old(self).root(),
            decreases self.parts@.len() - self.next,
        {
            let i = self.next;
            proof {
                lemma_cached_walk_extend(cache@, start_parent, names, start, i as int);
            }
            if self.parts[i].as_str().is_empty() {
                self.next = i + 1;
            } else {
                let key = folder_key(self.parent.as_str(), self.parts[i].as_str());
                match cache.get(key.as_str()) {
                    Some(id) => {
                        self.parent = id;
                        self.next = i + 1;
                    },
                    None => {
                        proof {
                            lemma_cached_walk_split(cache@, start_parent, names, start, i as int, names.len() as int);
                        }
                        proof {
                            lemma_cached_walk_split(cache@, self.root@, names, 0, start, i as int);
                        }
                        let folder_name = self.parts[i].clone();
                        let query = folder_query(self.parts[i].as_str(), self.parent.as_str());
                        let parent = self.parent.clone();
                        return FolderStep::Resolve { folder_name, parent, cache_key: key, query };
                    },
                }
            }
        }
        proof {
            lemma_cached_walk_split(cache@, self.root@, names, 0, start, self.next as int);
        }
        FolderStep::Done(self.parent.clone())
    }

    /// Record the id that Drive gave the folder that needed resolving, and step into it.
    pub fn resolved(&mut self, cache: &mut FolderCache, folder_id: String)
        requires
            old(self).walked() < old(self).names().len(),
        ensures
            final(cache)@ == old(cache)@.insert(
                folder_key_of(old(self).current(), old(self).names()[old(self).walked() as int]),
                folder_id@,
            ),
            final(self).names() == old(self).names(),
            final(self).walked() == old(self).walked() + 1,
            final(self).current() == folder_id@,
            final(self).root() == old(self).root(),
            old(self).cached_from_root(old(cache)@) && old(self).names()[old(self).walked() as int].len() > 0
                && !old(cache)@.contains_key(folder_key_of(old(self).current(), old(self).names()[old(self).walked() as int]))
                ==> final(self).cached_from_root(final(cache)@),
    {
        proof {
            use_type_invariant(&*self);
        }
        let i = self.next;
        assert(self.names().len() == self.parts@.len());
        assert(i < self.parts.len());
        let key = folder_key(self.parent.as_str(), self.parts[i].as_str());
        assert(self.names()[i as int] == self.parts@[i as int]@);
        let ghost before = cache@;
        cache.insert(key, folder_id.clone());
        proof {
            if cached_walk(before, self.root@, self.names(), 0, i as int) == Some(self.parent@) && self.names()[i as int].len() > 0
                && !before.contains_key(folder_key_of(self.parent@, self.names()[i as int])) {
                lemma_resolve_extends_walk(before, self.root@, self.names(), i as int, self.parent@, folder_id@);
            }
        }
        self.parent = folder_id;
        self.next = i + 1;
    }
}

/// Walking the same folder path a second time needs no Drive request: once a walk has reached
/// the end of its names with the cache leading from the root to where it stands, a fresh walk
/// from the same root over the same names is resolved by that cache all the way, to the same
/// folder, so its first `advance` answers `Done` with that folder.
pub proof fn lemma_second_walk_needs_no_request(first: FolderWalk, second: FolderWalk, cache: Map<Seq<char>, Seq<char>>)
    requires
        first.cached_from_root(cache),
        first.walked() == first.names().len(),
        second.root() == first.root(),
        second.names() == first.names(),
        second.walked() == 0,
        second.current() == second.root(),
    ensures
        cached_walk(cache, second.current(), second.names(), second.walked() as int, second.names().len() as int)
            == Some(first.current()),
{
}

// ───────────────────────── the OAuth token cache ─────────────────────────

/// `Path::parent` of a path given as text, as text: `None` where the path has no parent (it is
/// empty, or only a root or prefix). The parent is the path with its last component and the
/// separators before it cut off, so it is always a beginning of the path. Which characters
/// separate components is the platform's rule, so no more is stated.
#[verifier::external_body]
fn path_parent(path: &str) -> (r: Option<String>)
    ensures
        path@.len() == 0 ==> r is None,
        r matches Some(d) ==> d@.len() <= path@.len() && d@ == path@.subrange(0, d@.len() as int),
{
    std::path::Path::new(path).parent().map(|p| p.to_string_lossy().into_owned())
}

/// `Path::join` of a directory and a relative file name, as text: the directory, a separator
/// where the platform needs one, then the name.
#[verifier::external_body]
fn path_join(dir: &str, name: &str) -> (r: String)
    requires
        name@.len() > 0,
        !name@.contains('/') && !name@.contains('\\') && !name@.contains(':'),
    ensures
        r@.len() >= dir@.len() + name@.len(),
        starts_with(r@, dir@),
        ends_with(r@, name@),
{
    std::path::Path::new(dir).join(name).to_string_lossy().into_owned()
}

/// The file the Google Drive OAuth token is cached in.
pub open spec fn token_cache_file() -> Seq<char> {
    "gdrive_token_cache.json"@
}

/// Where the OAuth token cache lives: `gdrive_token_cache.json` in the directory of the
/// credentials file, or in `.` where that path has no parent.
pub fn token_cache_path(credentials_path: &str) -> (r: String)
    ensures
        ends_with(r@, token_cache_file()),
        credentials_path@.len() == 0 ==> starts_with(r@, "."@),
        exists|d: Seq<char>| #![auto] (d == "."@ || (d.len() <= credentials_path@.len() && d
            == credentials_path@.subrange(0, d.len() as int))) && starts_with(r@, d),
{
    let name = "gdrive_token_cache.json";
    proof {
        reveal_strlit("gdrive_token_cache.json");
        reveal_strlit(".");
    }
    let dir = match path_parent(credentials_path) {
        Some(d) => d,
        None => ".".to_string(),
    };
    let r = path_join(dir.as_str(), name);
    proof {
        assert(starts_with(r@, dir@));
    }
    r
}

} // verus!
