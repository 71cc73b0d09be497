//! Where the media library keeps files: thumbnail sizes and paths, serve URLs, the local and
//! remote storage back ends, and which one a configuration selects.
use vstd::prelude::*;
use vstd::utf8::encode_utf8;

use crate::path_id::{join_path_chars, path_joined};
use crate::text::{
    after_last_index, chars_end_with, chars_eq_str, chars_of, count_trailing, ends_with,
    find_after_last, lemma_after_last_index, push_chars, push_str, split_chars, split_on,
    string_from_chars, sub_chars, trim_end_char, url_encode, url_encoded,
};

verus! {

broadcast use vstd::string::group_string_axioms;

/// The thumbnail sizes generated for each image.
#[derive(PartialEq, Eq, Structural, Clone, Copy, Debug)]
pub enum ThumbnailSize {
    Micro,
    Small,
    Medium,
    Large,
    Web,
}

/// The name of a thumbnail size, as used in paths and records.
pub open spec fn size_name(s: ThumbnailSize) -> Seq<char> {
    match s {
        ThumbnailSize::Micro => "micro"@,
        ThumbnailSize::Small => "small"@,
        ThumbnailSize::Medium => "medium"@,
        ThumbnailSize::Large => "large"@,
        ThumbnailSize::Web => "web"@,
    }
}

/// Each thumbnail size is filed under its own name, written out: `micro` (50 px), `small`
/// (150 px), `medium` (400 px), `large` (800 px) and `web` (1920 px); so no two sizes share a
/// file, and a larger size never takes a smaller one's name.
pub proof fn lemma_size_names()
    ensures
        size_name(ThumbnailSize::Micro) == seq!['m', 'i', 'c', 'r', 'o'] && size_pixels(ThumbnailSize::Micro) == 50,
        size_name(ThumbnailSize::Small) == seq!['s', 'm', 'a', 'l', 'l'] && size_pixels(ThumbnailSize::Small) == 150,
        size_name(ThumbnailSize::Medium) == seq!['m', 'e', 'd', 'i', 'u', 'm'] && size_pixels(ThumbnailSize::Medium) == 400,
        size_name(ThumbnailSize::Large) == seq!['l', 'a', 'r', 'g', 'e'] && size_pixels(ThumbnailSize::Large) == 800,
        size_name(ThumbnailSize::Web) == seq!['w', 'e', 'b'] && size_pixels(ThumbnailSize::Web) == 1920,
        forall|a: ThumbnailSize, b: ThumbnailSize| a != b ==> #[trigger] size_name(a) != #[trigger] size_name(b),
{
    reveal_strlit("micro");
    reveal_strlit("small");
    reveal_strlit("medium");
    reveal_strlit("large");
    reveal_strlit("web");
    assert("micro"@ =~= seq!['m', 'i', 'c', 'r', 'o']);
    assert("small"@ =~= seq!['s', 'm', 'a', 'l', 'l']);
    assert("medium"@ =~= seq!['m', 'e', 'd', 'i', 'u', 'm']);
    assert("large"@ =~= seq!['l', 'a', 'r', 'g', 'e']);
    assert("web"@ =~= seq!['w', 'e', 'b']);
    assert forall|a: ThumbnailSize, b: ThumbnailSize| a != b implies #[trigger] size_name(a) != #[trigger] size_name(b) by {
        let x = size_name(a);
        let y = size_name(b);
        if x.len() == y.len() {
            if x.len() == 5 {
                assert(x[0] != y[0] || x[1] != y[1]);
            } else if x.len() == 6 {
                assert(false);
            } else {
                assert(false);
            }
        }
    }
}

/// The longest side, in pixels, of a thumbnail size.
pub open spec fn size_pixels(s: ThumbnailSize) -> u32 {
    match s {
        ThumbnailSize::Micro => 50,
        ThumbnailSize::Small => 150,
        ThumbnailSize::Medium => 400,
        ThumbnailSize::Large => 800,
        ThumbnailSize::Web => 1920,
    }
}

impl ThumbnailSize {
    pub fn as_str(&self) -> (r: &'static str)
        ensures
            r@ == size_name(*self),
    {
        match self {
            ThumbnailSize::Micro => "micro",
            ThumbnailSize::Small => "small",
            ThumbnailSize::Medium => "medium",
            ThumbnailSize::Large => "large",
            ThumbnailSize::Web => "web",
        }
    }

    pub fn pixels(&self) -> (r: u32)
        ensures
            r == size_pixels(*self),
    {
        match self {
            ThumbnailSize::Micro => 50,
            ThumbnailSize::Small => 150,
            ThumbnailSize::Medium => 400,
            ThumbnailSize::Large => 800,
            ThumbnailSize::Web => 1920,
        }
    }
}

/// The sizes generated for an image, largest first, each resized from the one before.
pub fn thumbnail_ladder() -> (r: [ThumbnailSize; 4])
    ensures
        r@ == seq![ThumbnailSize::Large, ThumbnailSize::Medium, ThumbnailSize::Small, ThumbnailSize::Micro],
{
    [ThumbnailSize::Large, ThumbnailSize::Medium, ThumbnailSize::Small, ThumbnailSize::Micro]
}

/// The stored result of an upload.
pub struct StorageResult {
    pub path: String,
    pub size: u64,
    pub url: String,
}

// ───────────────────────── names ─────────────────────────

/// The stem of a one-component file name, as `Path::file_stem` defines it: no stem for an
/// empty name, `.` or `..`; the whole name when it has no `.` other than a leading one;
/// otherwise the part before the last `.`.
pub open spec fn file_stem_of(name: Seq<char>) -> Option<Seq<char>> {
    if name.len() == 0 || name == "."@ || name == ".."@ {
        None
    } else {
        let k = after_last_index(name, '.');
        if k <= 1 {
            Some(name)
        } else {
            Some(name.subrange(0, k - 1))
        }
    }
}

/// The extension of a one-component file name, as `Path::extension` defines it: none for an
/// empty name, `.`, `..`, a name without `.` or with only a leading one; otherwise the part after
/// the last `.`.
pub open spec fn file_extension_of(name: Seq<char>) -> Option<Seq<char>> {
    if name.len() == 0 || name == "."@ || name == ".."@ {
        None
    } else {
        let k = after_last_index(name, '.');
        if k <= 1 {
            None
        } else {
            Some(name.subrange(k, name.len() as int))
        }
    }
}

fn is_dot_name(v: &Vec<char>) -> (r: bool)
    ensures
        r == (v@ == "."@ || v@ == ".."@),
{
    chars_eq_str(v, ".") || chars_eq_str(v, "..")
}

/// The stem of a one-component file name.
pub fn file_stem(name: &Vec<char>) -> (r: Option<Vec<char>>)
    ensures
        match r {
            Some(s) => file_stem_of(name@) == Some(s@),
            None => file_stem_of(name@) is None,
        },
{
    if name.len() == 0 || is_dot_name(name) {
        return None;
    }
    let k = find_after_last(name, '.');
    proof {
        lemma_after_last_index(name@, '.');
    }
    if k <= 1 {
        Some(sub_chars(name, 0, name.len()))
    } else {
        Some(sub_chars(name, 0, k - 1))
    }
}

/// The extension of a one-component file name.
pub fn file_extension(name: &Vec<char>) -> (r: Option<Vec<char>>)
    ensures
        match r {
            Some(s) => file_extension_of(name@) == Some(s@),
            None => file_extension_of(name@) is None,
        },
{
    if name.len() == 0 || is_dot_name(name) {
        return None;
    }
    let k = find_after_last(name, '.');
    proof {
        lemma_after_last_index(name@, '.');
    }
    if k <= 1 {
        None
    } else {
        Some(sub_chars(name, k, name.len()))
    }
}

/// Pieces joined with `c` between them.
pub open spec fn join_with(pieces: Seq<Seq<char>>, c: char) -> Seq<char>
    decreases pieces.len(),
{
    if pieces.len() == 0 {
        seq![]
    } else if pieces.len() == 1 {
        pieces[0]
    } else {
        join_with(pieces.drop_last(), c) + seq![c] + pieces.last()
    }
}

/// The path of a thumbnail of `base_path` (a stored file's path): beside the file when the
/// file's directory is named after its stem, else under `<first component>/.thumbnails/<size>/`.
pub open spec fn thumbnail_path_of(base_path: Seq<char>, size: ThumbnailSize) -> Seq<char> {
    let parts = split_on(base_path, '/');
    let stem = match file_stem_of(parts.last()) {
        Some(s) => s,
        None => "file"@,
    };
    let parent = if parts.len() > 1 {
        join_with(parts.drop_last(), '/')
    } else {
        seq![]
    };
    if ends_with(parent, stem) {
        parent + "/"@ + size_name(size) + ".webp"@
    } else {
        parts[0] + "/.thumbnails/"@ + size_name(size) + "/"@ + stem + ".webp"@
    }
}

/// The storage path of a thumbnail of the file stored at `base_path`.
pub fn thumbnail_path(base_path: &str, size: ThumbnailSize) -> (r: String)
    ensures
        r@ == thumbnail_path_of(base_path@, size),
{
    let v = chars_of(base_path);
    let parts = split_chars(&v, '/');
    proof {
        crate::text::lemma_split_on_nonempty(v@, '/');
    }
    let n = parts.len();
    let ghost pv = split_on(v@, '/');
    let stem = match file_stem(&parts[n - 1]) {
        Some(s) => s,
        None => chars_of("file"),
    };
    let mut parent: Vec<char> = Vec::new();
    if n > 1 {
        push_chars(&mut parent, &parts[0]);
        let mut i: usize = 1;
        while i < n - 1
            invariant
                n == parts@.len() == pv.len(),
                forall|k: int| 0 <= k < n ==> (#[trigger] parts@[k])@ == pv[k],
                1 <= i <= n - 1,
                parent@ == join_with(pv.take(i as int), '/'),
            decreases n - 1 - i,
        {
            proof {
                assert(pv.take(i + 1).drop_last() =~= pv.take(i as int));
                assert(pv.take(i + 1).last() == pv[i as int]);
            }
            parent.push('/');
            push_chars(&mut parent, &parts[i]);
            proof {
                assert(parent@ =~= join_with(pv.take(i as int), '/') + seq!['/'] + pv[i as int]);
            }
            i = i + 1;
        }
        proof {
            assert(pv.take(n - 1) =~= pv.drop_last());
        }
    } else {
        assert(parent@ =~= seq![]);
    }
    let sv = string_from_chars(&stem);
    let mut out: Vec<char> = Vec::new();
    if chars_end_with(&parent, sv.as_str()) {
        push_chars(&mut out, &parent);
        push_str(&mut out, "/");
        push_str(&mut out, size.as_str());
        push_str(&mut out, ".webp");
    } else {
        push_chars(&mut out, &parts[0]);
        push_str(&mut out, "/.thumbnails/");
        push_str(&mut out, size.as_str());
        push_str(&mut out, "/");
        push_chars(&mut out, &stem);
        push_str(&mut out, ".webp");
    }
    proof {
        assert(out@ =~= thumbnail_path_of(base_path@, size));
    }
    string_from_chars(&out)
}

/// The URL under which the media library serves a stored path.
pub open spec fn serve_url_of(path: Seq<char>) -> Seq<char> {
    "/api/media/serve/"@ + url_encoded(encode_utf8(path))
}

/// The URL under which a stored path is served.
pub fn serve_url(path: &str) -> (r: String)
    ensures
        r@ == serve_url_of(path@),
{
    let mut v: Vec<char> = Vec::new();
    push_str(&mut v, "/api/media/serve/");
    let e = url_encode(path);
    push_str(&mut v, e.as_str());
    string_from_chars(&v)
}

/// The URL a thumbnail of `base_path` is served under. Both back ends store a thumbnail at
/// `thumbnail_path` and serve every stored path through the media library, so this is the URL of
/// the path a thumbnail upload stores to.
pub fn thumbnail_url(base_path: &str, size: ThumbnailSize) -> (r: String)
    ensures
        r@ == serve_url_of(thumbnail_path_of(base_path@, size)),
{
    let p = thumbnail_path(base_path, size);
    serve_url(p.as_str())
}

// ───────────────────────── back ends ─────────────────────────

/// Local-disk storage under a base directory.
pub struct LocalStorageProvider {
    pub base_dir: String,
}

impl LocalStorageProvider {
    pub fn new(base_dir: String) -> (p: Self)
        ensures
            p.base_dir == base_dir,
    {
        LocalStorageProvider { base_dir }
    }

    /// The absolute path of a stored path.
    pub fn abs_path(&self, relative: &str) -> (r: String)
        ensures
            r@ == path_joined(self.base_dir@, relative@),
    {
        let b = chars_of(self.base_dir.as_str());
        let rel = chars_of(relative);
        let v = join_path_chars(&b, &rel);
        string_from_chars(&v)
    }
}

/// Storage delegated to the storage service, at `base_url`, under the `gdrive` provider.
pub struct CloudStoreProvider {
    pub base_url: String,
    pub api_key: Option<String>,
    pub provider: String,
}

impl CloudStoreProvider {
    pub fn new(base_url: &str, api_key: Option<&str>) -> (p: Self)
        ensures
            p.base_url@ == trim_end_char(base_url@, '/'),
            p.api_key is Some == api_key is Some,
            api_key matches Some(k) ==> p.api_key->0@ == k@,
            p.provider@ == "gdrive"@,
    {
        let v = chars_of(base_url);
        let k = count_trailing(&v, '/');
        let trimmed = sub_chars(&v, 0, v.len() - k);
        CloudStoreProvider {
            base_url: string_from_chars(&trimmed),
            api_key: match api_key {
                Some(key) => Some(key.to_owned()),
                None => None,
            },
            provider: "gdrive".to_owned(),
        }
    }

    /// The storage service URL of a stored path.
    pub fn file_url(&self, path: &str) -> (r: String)
        ensures
            r@ == self.base_url@ + "/api/files/"@ + self.provider@ + "/"@ + path@,
    {
        let mut v: Vec<char> = Vec::new();
        push_str(&mut v, self.base_url.as_str());
        push_str(&mut v, "/api/files/");
        push_str(&mut v, self.provider.as_str());
        push_str(&mut v, "/");
        push_str(&mut v, path);
        string_from_chars(&v)
    }

    /// The `Authorization` header to send, when an API key is configured.
    pub fn auth_header(&self) -> (r: Option<(String, String)>)
        ensures
            self.api_key is None ==> r is None,
            self.api_key matches Some(k) ==> (r matches Some(h) && h.0@ == "Authorization"@ && h.1@
                == "Bearer "@ + k@),
    {
        match &self.api_key {
            None => None,
            Some(k) => {
                let mut v: Vec<char> = Vec::new();
                push_str(&mut v, "Bearer ");
                push_str(&mut v, k.as_str());
                Some(("Authorization".to_owned(), string_from_chars(&v)))
            },
        }
    }
}

/// A delete at the storage service succeeded, or the file was not there (404).
pub fn delete_succeeded(status: u16) -> (r: bool)
    ensures
        r == ((200 <= status < 300) || status == 404),
{
    (200 <= status && status < 300) || status == 404
}

/// The storage back end a configuration selects.
pub enum ProviderChoice {
    CloudStore(CloudStoreProvider),
    Local(LocalStorageProvider),
}

/// Select the storage back end: `cloudstore` needs its URL; anything else is local storage
/// under the upload directory.
pub fn create_provider(provider_type: &str, upload_dir: &str, cloudstore_url: Option<&str>, cloudstore_api_key: Option<&str>) -> (r:
    ProviderChoice)
    requires
        provider_type@ == "cloudstore"@ ==> cloudstore_url is Some,
    ensures
        provider_type@ == "cloudstore"@ ==> (r matches ProviderChoice::CloudStore(p) && p.base_url@
            == trim_end_char(cloudstore_url->0@, '/') && p.api_key is Some == cloudstore_api_key is Some
            && (cloudstore_api_key matches Some(k) ==> p.api_key->0@ == k@) && p.provider@ == "gdrive"@),
        provider_type@ != "cloudstore"@ ==> (r matches ProviderChoice::Local(p) && p.base_dir@
            == upload_dir@),
{
    let t = chars_of(provider_type);
    if chars_eq_str(&t, "cloudstore") {
        let url = match cloudstore_url {
            Some(u) => u,
            None => {
                proof {
                    assert(false);
                }
                ""
            },
        };
        ProviderChoice::CloudStore(CloudStoreProvider::new(url, cloudstore_api_key))
    } else {
        ProviderChoice::Local(LocalStorageProvider::new(upload_dir.to_owned()))
    }
}

} // verus!
