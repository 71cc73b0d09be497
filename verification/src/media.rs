//! Serving media files: the served URLs of thumbnails, who gets the key of an encrypted file
//! and from where, and the headers of a download.
use vstd::prelude::*;

use crate::cache::{guess_mime, mime_guessed};
use crate::crypto::{dek_of, derive_dek, sealed_for, unseal_master_key, unsealed_key};
use crate::session::{Claims, CookiePair};
use crate::sharing::{is_later, later_than, SharedLink, Timestamp};
use crate::storage::{serve_url, serve_url_of};
use crate::text::{
    chars_eq, chars_eq_str, chars_of, find_char, first_index, lemma_first_index, push_str,
    string_from_chars, sub_chars, url_decode, url_decoded,
};

verus! {

broadcast use vstd::string::group_string_axioms;

// ───────────────────────── thumbnails ─────────────────────────

/// The stored paths of a file's thumbnails.
pub struct MediaThumbnails {
    pub micro: Option<String>,
    pub small: Option<String>,
    pub medium: Option<String>,
    pub large: Option<String>,
    pub web: Option<String>,
}

/// The thumbnails a map view shows.
pub struct GeoThumbnails {
    pub micro: Option<String>,
    pub small: Option<String>,
    pub medium: Option<String>,
    pub web: Option<String>,
}

/// A stored path turned into its serve URL.
pub open spec fn served_of(p: Option<String>) -> Option<Seq<char>> {
    match p {
        Some(s) => Some(serve_url_of(s@)),
        None => None,
    }
}

/// The view of an optional text.
pub open spec fn text_of(p: Option<String>) -> Option<Seq<char>> {
    match p {
        Some(s) => Some(s@),
        None => None,
    }
}

fn served(p: &Option<String>) -> (r: Option<String>)
    ensures
        text_of(r) == served_of(*p),
{
    match p {
        Some(s) => Some(serve_url(s.as_str())),
        None => None,
    }
}

impl MediaThumbnails {
    /// The thumbnails with each stored path replaced by its serve URL.
    pub fn served(&self) -> (r: MediaThumbnails)
        ensures
            text_of(r.micro) == served_of(self.micro),
            text_of(r.small) == served_of(self.small),
            text_of(r.medium) == served_of(self.medium),
            text_of(r.large) == served_of(self.large),
            text_of(r.web) == served_of(self.web),
    {
        MediaThumbnails {
            micro: served(&self.micro),
            small: served(&self.small),
            medium: served(&self.medium),
            large: served(&self.large),
            web: served(&self.web),
        }
    }

    /// The served thumbnails a map view shows (no large one).
    pub fn geo_served(&self) -> (r: GeoThumbnails)
        ensures
            text_of(r.micro) == served_of(self.micro),
            text_of(r.small) == served_of(self.small),
            text_of(r.medium) == served_of(self.medium),
            text_of(r.web) == served_of(self.web),
    {
        GeoThumbnails {
            micro: served(&self.micro),
            small: served(&self.small),
            medium: served(&self.medium),
            web: served(&self.web),
        }
    }
}

// ───────────────────────── serving a path ─────────────────────────

/// The stored path a serve request names: its percent-decoding, or empty text when that is not
/// UTF-8.
pub fn decode_serve_path(raw: &str) -> (r: String)
    ensures
        r@ == match url_decoded(raw@) {
            Some(t) => t,
            None => Seq::<char>::empty(),
        },
{
    match url_decode(raw) {
        Some(t) => t,
        None => String::new(),
    }
}

/// The owner part of a stored path: everything before the first `/`.
pub fn path_owner_prefix(path: &str) -> (r: String)
    ensures
        r@ == path@.subrange(0, first_index(path@, '/')),
{
    let v = chars_of(path);
    let k = find_char(&v, '/');
    proof {
        lemma_first_index(v@, '/');
    }
    string_from_chars(&sub_chars(&v, 0, k))
}

/// What the cookies of a request say, read in order: the user of the last `__mc` token that
/// verified, and the last `__mc_mk` seen while no token had yet verified.
pub open spec fn cookie_scan(pairs: Seq<CookiePair>, verified: Seq<Option<String>>, n: int) -> (Option<Seq<char>>, Option<Seq<char>>)
    decreases n,
{
    if n <= 0 {
        (None, None)
    } else {
        let (user, sealed) = cookie_scan(pairs, verified, n - 1);
        let p = pairs[n - 1];
        if p.name@ == "__mc"@ {
            match verified[n - 1] {
                Some(sub) => (Some(sub@), sealed),
                None => (user, sealed),
            }
        } else if p.name@ == "__mc_mk"@ && user is None {
            (user, Some(p.value@))
        } else {
            (user, sealed)
        }
    }
}

/// Scan a request's cookies; `verified[i]` is the user of pair `i` when it is an `__mc` token
/// that verified.
pub fn scan_cookies(pairs: &Vec<CookiePair>, verified: &Vec<Option<String>>) -> (r: (Option<String>, Option<String>))
    requires
        verified@.len() == pairs@.len(),
    ensures
        (text_of(r.0), text_of(r.1)) == cookie_scan(pairs@, verified@, pairs@.len() as int),
{
    let mut user: Option<String> = None;
    let mut sealed: Option<String> = None;
    for i in 0..pairs.len()
        invariant
            verified@.len() == pairs@.len(),
            (text_of(user), text_of(sealed)) == cookie_scan(pairs@, verified@, i as int),
    {
        let name = chars_of(pairs[i].name.as_str());
        if chars_eq_str(&name, "__mc") {
            if let Some(sub) = &verified[i] {
                user = Some(sub.clone());
            }
        } else if chars_eq_str(&name, "__mc_mk") && user.is_none() {
            sealed = Some(pairs[i].value.clone());
        }
    }
    (user, sealed)
}

/// The value of the first cookie named `name`.
pub fn first_cookie(pairs: &Vec<CookiePair>, name: &str) -> (r: Option<String>)
    ensures
        match r {
            Some(v) => exists|i: int|
                0 <= i < pairs@.len() && (#[trigger] pairs@[i]).name@ == name@ && pairs@[i].value@ == v@
                    && forall|j: int| 0 <= j < i ==> (#[trigger] pairs@[j]).name@ != name@,
            None => forall|j: int| 0 <= j < pairs@.len() ==> (#[trigger] pairs@[j]).name@ != name@,
        },
{
    for i in 0..pairs.len()
        invariant
            forall|j: int| 0 <= j < i ==> (#[trigger] pairs@[j]).name@ != name@,
    {
        let n = chars_of(pairs[i].name.as_str());
        if chars_eq_str(&n, name) {
            return Some(pairs[i].value.clone());
        }
    }
    None
}

/// Where the key of an encrypted file is looked for next.
#[derive(Debug)]
pub enum KeySearch {
    /// This sealed master key, sealed for `key_owner`.
    Sealed { sealed: String, key_owner: String },
    /// The sealed key an album shares with this collaborator.
    AskCollaborator { user_id: String },
    /// A share link given with the request.
    AskShareLink,
}

/// The first place to look for the key of a file owned by `owner`: the owner's own cookie when
/// the owner is signed in; the album when another user is signed in; else the key cookie read
/// before any token verified.
pub fn first_key_search(owner: &str, signed_in: Option<&str>, owner_cookie: Option<String>, scanned_cookie: Option<String>) -> (r:
    KeySearch)
    ensures
        signed_in matches Some(u) ==> (u@ == owner@ ==> match owner_cookie {
            Some(c) => r matches KeySearch::Sealed { sealed, key_owner } && sealed == c && key_owner@ == owner@,
            None => r is AskShareLink,
        }),
        signed_in matches Some(u) ==> (u@ != owner@ ==> (r matches KeySearch::AskCollaborator { user_id }
            && user_id@ == u@)),
        signed_in is None ==> match scanned_cookie {
            Some(c) => r matches KeySearch::Sealed { sealed, key_owner } && sealed == c && key_owner@ == owner@,
            None => r is AskShareLink,
        },
{
    match signed_in {
        Some(u) => {
            let uv = chars_of(u);
            if chars_eq_str(&uv, owner) {
                match owner_cookie {
                    Some(c) => KeySearch::Sealed { sealed: c, key_owner: owner.to_owned() },
                    None => KeySearch::AskShareLink,
                }
            } else {
                KeySearch::AskCollaborator { user_id: u.to_owned() }
            }
        },
        None => match scanned_cookie {
            Some(c) => KeySearch::Sealed { sealed: c, key_owner: owner.to_owned() },
            None => KeySearch::AskShareLink,
        },
    }
}

/// After asking the album: its sealed key belongs to the file's owner; without one, try a link.
pub fn after_collaborator(owner: &str, album_key: Option<String>) -> (r: KeySearch)
    ensures
        match album_key {
            Some(k) => r matches KeySearch::Sealed { sealed, key_owner } && sealed == k && key_owner@ == owner@,
            None => r is AskShareLink,
        },
{
    match album_key {
        Some(k) => KeySearch::Sealed { sealed: k, key_owner: owner.to_owned() },
        None => KeySearch::AskShareLink,
    }
}

/// An active link gives access to a file at `now` when it has not expired and either it is an
/// album link whose album holds the file, or it lists the file.
pub open spec fn link_covers(link: SharedLink, now: Timestamp, media_id: Seq<char>, album_holds: bool) -> bool {
    &&& !(link.expires_at matches Some(t) && is_later(now, t))
    &&& if link.share_type@ == "album"@ {
        link.album_id is Some && album_holds
    } else {
        exists|i: int| 0 <= i < link.media_ids@.len() && (#[trigger] link.media_ids@[i])@ == media_id
    }
}

/// The key a link hands out for a file: its sealed key, sealed for the link's owner.
pub fn link_key(link: &SharedLink, now: &Timestamp, media_id: &str, album_holds: bool) -> (r: Option<(Option<String>, String)>)
    ensures
        link_covers(*link, *now, media_id@, album_holds) ==> (r matches Some(k) && k.0 == link.sealed_master_key
            && k.1 == link.user_id),
        !link_covers(*link, *now, media_id@, album_holds) ==> r is None,
{
    if let Some(t) = &link.expires_at {
        if later_than(now, t) {
            return None;
        }
    }
    let st = chars_of(link.share_type.as_str());
    let authorized = if chars_eq_str(&st, "album") {
        link.album_id.is_some() && album_holds
    } else {
        let mut found = false;
        let mut i: usize = 0;
        while i < link.media_ids.len()
            invariant
                i <= link.media_ids@.len(),
                found <==> exists|j: int| 0 <= j < i && (#[trigger] link.media_ids@[j])@ == media_id@,
            decreases link.media_ids@.len() - i,
        {
            let v = chars_of(link.media_ids[i].as_str());
            if chars_eq_str(&v, media_id) {
                found = true;
            }
            i = i + 1;
        }
        found
    };
    if authorized {
        Some((link.sealed_master_key.clone(), link.user_id.clone()))
    } else {
        None
    }
}

/// The file key (hex DEK) sent to the storage service: the sealed master key opened for
/// `key_owner`, then derived for the file. `None` answers 401.
pub fn media_key(sealed: &str, jwt_secret: &str, key_owner: &str, media_id: &str) -> (r: Option<String>)
    ensures
        match unsealed_key(sealed@, jwt_secret@, key_owner@) {
            Some(mk) => r matches Some(k) && k@ == dek_of(mk, media_id@),
            None => r is None,
        },
{
    match unseal_master_key(sealed, jwt_secret, key_owner) {
        Ok(mk) => Some(derive_dek(&mk, media_id)),
        Err(_) => None,
    }
}

/// For a download by a signed-in user: the master key of an encrypted file, from the user's own
/// token when the user owns the file, else from the album the file is shared in.
pub fn download_master_key(claims: &Claims, jwt_secret: &str, media_owner: &str, album_key: Option<&str>) -> (r: Option<
    [u8; 32],
>)
    ensures
        claims.sub@ == media_owner@ ==> match claims.encrypted_mk {
            Some(s) => match r {
                Some(k) => unsealed_key(s@, jwt_secret@, claims.sub@) == Some(k@),
                None => unsealed_key(s@, jwt_secret@, claims.sub@) is None,
            },
            None => r is None,
        },
        claims.sub@ != media_owner@ ==> match album_key {
            Some(s) => match r {
                Some(k) => unsealed_key(s@, jwt_secret@, media_owner@) == Some(k@),
                None => unsealed_key(s@, jwt_secret@, media_owner@) is None,
            },
            None => r is None,
        },
{
    let sub = chars_of(claims.sub.as_str());
    if chars_eq_str(&sub, media_owner) {
        claims.master_key(jwt_secret)
    } else {
        match album_key {
            Some(s) => match unseal_master_key(s, jwt_secret, media_owner) {
                Ok(k) => Some(k),
                Err(_) => None,
            },
            None => None,
        }
    }
}

/// The `Content-Disposition` of a download.
pub fn attachment_disposition(file_name: &str) -> (r: String)
    ensures
        r@ == "attachment; filename=\""@ + file_name@ + "\""@,
{
    let mut v: Vec<char> = Vec::new();
    push_str(&mut v, "attachment; filename=\"");
    push_str(&mut v, file_name);
    push_str(&mut v, "\"");
    string_from_chars(&v)
}

/// The content type a file served from storage is sent with, guessed from its path's
/// extension (`application/octet-stream` when unknown).
pub fn served_content_type(path: &str) -> (r: String)
    ensures
        r@ == mime_guessed(path@),
{
    guess_mime(path)
}

} // verus!
