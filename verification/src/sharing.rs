//! Sharing: public links to media and albums, albums with collaborators, and who may do what
//! with them.
use vstd::prelude::*;
use vstd::utf8::encode_utf8;

use crate::accounts::{bcrypt_check, password_accepted, verify_password, AccountError};
use crate::text::{chars_eq, chars_eq_str, chars_of, push_str, string_from_chars, sub_chars};
use crate::upload::{is_hyphenated_uuid, new_uuid};

verus! {

broadcast use vstd::string::group_string_axioms;

/// A moment: whole seconds of the Unix timestamp, the nanoseconds past that second, and the
/// same moment as RFC 3339 text.
pub struct Timestamp {
    pub unix: i64,
    pub subsec_nanos: u32,
    pub rfc3339: String,
}

/// `a` is a later moment than `b`, to the nanosecond.
pub open spec fn is_later(a: Timestamp, b: Timestamp) -> bool {
    a.unix > b.unix || (a.unix == b.unix && a.subsec_nanos > b.subsec_nanos)
}

/// Moments are ordered by time: a moment in a later second is later, whatever the nanoseconds,
/// and within one second the nanoseconds decide. For nanoseconds below one second (all but a
/// leap second) that is the order of the total count of nanoseconds since the epoch.
pub proof fn lemma_is_later_orders_by_time(a: Timestamp, b: Timestamp)
    ensures
        a.unix > b.unix ==> is_later(a, b),
        a.unix < b.unix ==> !is_later(a, b),
        a.unix == b.unix ==> (is_later(a, b) <==> a.subsec_nanos > b.subsec_nanos),
        !(is_later(a, b) && is_later(b, a)),
        a.subsec_nanos < 1_000_000_000 && b.subsec_nanos < 1_000_000_000 ==> (is_later(a, b) <==> a.unix
            * 1_000_000_000 + a.subsec_nanos > b.unix * 1_000_000_000 + b.subsec_nanos),
{
    if a.subsec_nanos < 1_000_000_000 && b.subsec_nanos < 1_000_000_000 {
        if a.unix > b.unix {
            assert(a.unix * 1_000_000_000 >= b.unix * 1_000_000_000 + 1_000_000_000) by (nonlinear_arith)
                requires a.unix > b.unix;
        } else if a.unix < b.unix {
            assert(b.unix * 1_000_000_000 >= a.unix * 1_000_000_000 + 1_000_000_000) by (nonlinear_arith)
                requires a.unix < b.unix;
        }
    }
}

/// Whether `a` is a later moment than `b`.
pub fn later_than(a: &Timestamp, b: &Timestamp) -> (r: bool)
    ensures
        r == is_later(*a, *b),
{
    a.unix > b.unix || (a.unix == b.unix && a.subsec_nanos > b.subsec_nanos)
}

// ───────────────────────── share links ─────────────────────────

/// A public link to some media or to an album.
pub struct SharedLink {
    pub id: String,
    pub user_id: String,
    pub token: String,
    /// `album` or `media`.
    pub share_type: String,
    pub media_ids: Vec<String>,
    pub album_id: Option<String>,
    pub password_hash: Option<String>,
    pub expires_at: Option<Timestamp>,
    pub view_count: i32,
    pub max_views: Option<i32>,
    pub is_active: bool,
    /// The owner's sealed master key, when the owner had encryption on.
    pub sealed_master_key: Option<String>,
    pub created_at: Timestamp,
}

/// What the owner sees of a link.
pub struct ShareResponse {
    pub id: String,
    pub token: String,
    pub share_type: String,
    pub media_count: usize,
    pub has_password: bool,
    pub expires_at: Option<String>,
    pub view_count: i32,
    pub max_views: Option<i32>,
    pub created_at: String,
}

impl ShareResponse {
    pub fn from_link(link: &SharedLink) -> (r: Self)
        ensures
            r.id == link.id,
            r.token == link.token,
            r.share_type == link.share_type,
            r.media_count == link.media_ids@.len(),
            r.has_password == link.password_hash is Some,
            r.expires_at == match link.expires_at {
                Some(t) => Some(t.rfc3339),
                None => None,
            },
            r.view_count == link.view_count,
            r.max_views == link.max_views,
            r.created_at == link.created_at.rfc3339,
    {
        ShareResponse {
            id: link.id.clone(),
            token: link.token.clone(),
            share_type: link.share_type.clone(),
            media_count: link.media_ids.len(),
            has_password: link.password_hash.is_some(),
            expires_at: match &link.expires_at {
                Some(t) => Some(t.rfc3339.clone()),
                None => None,
            },
            view_count: link.view_count,
            max_views: link.max_views,
            created_at: link.created_at.rfc3339.clone(),
        }
    }
}

/// The token of a new link: the first twelve hex digits of a random UUID.
pub open spec fn share_token_from(uuid: Seq<char>) -> Seq<char> {
    uuid.subrange(0, 8) + uuid.subrange(9, 13)
}

/// A fresh link token: a random UUID without its hyphens, cut to twelve characters.
pub fn new_share_token() -> (r: String)
    ensures
        exists|u: Seq<char>| is_hyphenated_uuid(u) && r@ == #[trigger] share_token_from(u),
        r@.len() == 12,
{
    let u = new_uuid();
    let v = chars_of(u.as_str());
    let mut t: Vec<char> = Vec::new();
    let mut i: usize = 0;
    while t.len() < 12
        invariant
            v@ == u@,
            is_hyphenated_uuid(v@),
            i <= 36,
            t@.len() <= 12,
            i <= 8 ==> t@ == v@.subrange(0, i as int),
            i > 8 ==> t@.len() + 1 == i && t@ == v@.subrange(0, 8) + v@.subrange(9, i as int),
            i <= 13,
            t@.len() < 12 ==> i < 13,
        decreases 36 - i,
    {
        if v[i] != '-' {
            t.push(v[i]);
        }
        proof {
            if i == 8 {
                assert(v@[8] == '-');
            } else {
                assert(v@[i as int] != '-');
            }
            if i + 1 <= 8 {
                assert(t@ =~= v@.subrange(0, i + 1));
            } else if i + 1 > 9 {
                assert(t@ =~= v@.subrange(0, 8) + v@.subrange(9, i + 1));
            } else {
                assert(v@.subrange(9, 9) =~= Seq::<char>::empty());
                assert(t@ =~= v@.subrange(0, 8) + v@.subrange(9, i + 1));
            }
        }
        i = i + 1;
    }
    assert(t@ == share_token_from(u@));
    string_from_chars(&t)
}

/// `album` for an album link, `media` otherwise.
pub fn share_type_for(album_id: &Option<String>) -> (r: &'static str)
    ensures
        r@ == if album_id is Some {
            "album"@
        } else {
            "media"@
        },
{
    if album_id.is_some() {
        "album"
    } else {
        "media"
    }
}

/// When a new link stops working: `expires_hours` hours after `now` (Unix seconds and the
/// nanoseconds past them, kept as they are), or never where no lifetime is given.
pub fn share_expiry(now: i64, now_subsec_nanos: u32, expires_hours: Option<i64>) -> (r: Option<(i64, u32)>)
    requires
        expires_hours matches Some(h) ==> i64::MIN <= h * 3600 <= i64::MAX && i64::MIN <= now + h
            * 3600 <= i64::MAX,
    ensures
        r == match expires_hours {
            Some(h) => Some(((now + h * 3600) as i64, now_subsec_nanos)),
            None => None::<(i64, u32)>,
        },
{
    match expires_hours {
        Some(h) => Some((now + h * 3600, now_subsec_nanos)),
        None => None,
    }
}

/// Why a public link refuses access, and how it is answered.
#[derive(Debug)]
pub enum ShareRefusal {
    /// 403 `Share has expired`.
    Expired,
    /// 403 `Share view limit reached`.
    ViewLimitReached,
    /// 401 `Password required`.
    PasswordRequired,
    /// 401 `Invalid password`.
    InvalidPassword,
    /// 500: the stored password hash is malformed.
    Internal,
}

impl ShareRefusal {
    /// The HTTP status and, but for an internal error, the message.
    pub fn answer(&self) -> (r: (u16, Option<&'static str>))
        ensures
            match *self {
                ShareRefusal::Expired => r.0 == 403 && r.1 == Some("Share has expired"),
                ShareRefusal::ViewLimitReached => r.0 == 403 && r.1 == Some("Share view limit reached"),
                ShareRefusal::PasswordRequired => r.0 == 401 && r.1 == Some("Password required"),
                ShareRefusal::InvalidPassword => r.0 == 401 && r.1 == Some("Invalid password"),
                ShareRefusal::Internal => r.0 == 500 && r.1 is None,
            },
    {
        match self {
            ShareRefusal::Expired => (403, Some("Share has expired")),
            ShareRefusal::ViewLimitReached => (403, Some("Share view limit reached")),
            ShareRefusal::PasswordRequired => (401, Some("Password required")),
            ShareRefusal::InvalidPassword => (401, Some("Invalid password")),
            ShareRefusal::Internal => (500, None),
        }
    }
}

/// The link has passed its expiry time at `now`.
pub open spec fn share_expired(link: SharedLink, now: Timestamp) -> bool {
    link.expires_at matches Some(t) && is_later(now, t)
}

/// The link has been viewed as often as it may be.
pub open spec fn share_exhausted(link: SharedLink) -> bool {
    link.max_views matches Some(m) && link.view_count >= m
}

/// Check access to an active link at `now` with the password given, in the order: expiry, view
/// limit, password.
pub fn check_share_access(link: &SharedLink, now: &Timestamp, password: Option<&str>) -> (r: Result<(), ShareRefusal>)
    ensures
        share_expired(*link, *now) ==> r matches Err(ShareRefusal::Expired),
        !share_expired(*link, *now) && share_exhausted(*link) ==> r matches Err(ShareRefusal::ViewLimitReached),
        !share_expired(*link, *now) && !share_exhausted(*link) && link.password_hash is None ==> r is Ok,
        !share_expired(*link, *now) && !share_exhausted(*link) && link.password_hash is Some && password is None
            ==> r matches Err(ShareRefusal::PasswordRequired),
        password matches Some(p) ==> (!share_expired(*link, *now) && !share_exhausted(*link)
            && link.password_hash is Some ==> (r is Ok <==> password_accepted(
            p@,
            link.password_hash->0@,
        ))),
        password matches Some(p) ==> (!share_expired(*link, *now) && !share_exhausted(*link)
            && link.password_hash is Some && bcrypt_check(encode_utf8(p@), link.password_hash->0@) == Some(false)
            ==> r matches Err(ShareRefusal::InvalidPassword)),
        r matches Err(ShareRefusal::Internal) <==> (password matches Some(p) && !share_expired(*link, *now)
            && !share_exhausted(*link) && link.password_hash is Some && bcrypt_check(
            encode_utf8(p@),
            link.password_hash->0@,
        ) is None),
{
    if let Some(t) = &link.expires_at {
        if later_than(now, t) {
            return Err(ShareRefusal::Expired);
        }
    }
    if let Some(m) = link.max_views {
        if link.view_count >= m {
            return Err(ShareRefusal::ViewLimitReached);
        }
    }
    if let Some(hash) = &link.password_hash {
        let pw = match password {
            Some(p) => p,
            None => return Err(ShareRefusal::PasswordRequired),
        };
        match verify_password(pw, hash.as_str()) {
            Ok(true) => {},
            Ok(false) => {
                assert(bcrypt_check(encode_utf8(pw@), hash@) == Some(false));
                return Err(ShareRefusal::InvalidPassword);
            },
            Err(_) => return Err(ShareRefusal::Internal),
        }
    }
    Ok(())
}

/// The media a link shows: an album link shows the album's media (as listed by the caller),
/// any other link its own list.
pub fn shared_media_ids(link: &SharedLink, album_media_ids: Option<Vec<String>>) -> (r: Vec<String>)
    ensures
        link.share_type@ == "album"@ && link.album_id is Some && album_media_ids is Some ==> r
            == album_media_ids->0,
        !(link.share_type@ == "album"@ && link.album_id is Some && album_media_ids is Some) ==> r@
            == link.media_ids@,
{
    let t = chars_of(link.share_type.as_str());
    if chars_eq_str(&t, "album") && link.album_id.is_some() {
        if let Some(ids) = album_media_ids {
            return ids;
        }
    }
    let mut r: Vec<String> = Vec::new();
    for i in 0..link.media_ids.len()
        invariant
            r@.len() == i,
            forall|k: int| 0 <= k < i ==> #[trigger] r@[k] == link.media_ids@[k],
    {
        r.push(link.media_ids[i].clone());
    }
    assert(r@ =~= link.media_ids@);
    r
}

// ───────────────────────── albums ─────────────────────────

/// An album as stored; times are RFC 3339 text.
pub struct Album {
    pub id: String,
    pub user_id: String,
    pub name: String,
    pub description: Option<String>,
    pub cover_media_id: Option<String>,
    pub created_at: String,
    pub updated_at: String,
}

pub struct CreateAlbumRequest {
    pub name: String,
    pub description: Option<String>,
}

pub struct UpdateAlbumRequest {
    pub name: Option<String>,
    pub description: Option<String>,
    pub cover_media_id: Option<String>,
}

pub struct AlbumMediaRequest {
    pub media_ids: Vec<String>,
}

pub struct AddCollaboratorRequest {
    pub email: String,
    pub role: String,
    pub can_download: bool,
}

pub struct UpdateCollaboratorRequest {
    pub role: String,
    pub can_download: bool,
}

/// An album as answered, with `M` the form in which its preview media are shown.
pub struct AlbumResponse<M> {
    pub id: String,
    pub name: String,
    pub description: Option<String>,
    pub cover_media_id: Option<String>,
    pub media_count: usize,
    pub preview_media: Vec<M>,
    pub created_at: String,
    pub updated_at: String,
}

impl<M> AlbumResponse<M> {
    pub fn from_album_with_details(album: &Album, media_count: usize, preview_media: Vec<M>) -> (r: Self)
        ensures
            r.id == album.id,
            r.name == album.name,
            r.description == album.description,
            r.cover_media_id == album.cover_media_id,
            r.media_count == media_count,
            r.preview_media == preview_media,
            r.created_at == album.created_at,
            r.updated_at == album.updated_at,
    {
        AlbumResponse {
            id: album.id.clone(),
            name: album.name.clone(),
            description: album.description.clone(),
            cover_media_id: album.cover_media_id.clone(),
            media_count,
            preview_media,
            created_at: album.created_at.clone(),
            updated_at: album.updated_at.clone(),
        }
    }
}

/// A collaborator as answered.
pub struct CollaboratorResponse {
    pub user_id: String,
    pub name: String,
    pub email: String,
    pub role: String,
    pub can_download: bool,
    pub invited_by: String,
    pub created_at: String,
}

/// An album with all its media, the caller's role in it and its collaborators.
pub struct AlbumDetailResponse<M> {
    pub album: AlbumResponse<M>,
    pub media: Vec<M>,
    pub role: String,
    pub can_download: bool,
    pub collaborators: Vec<CollaboratorResponse>,
}

/// The caller's role in an album and whether they may download from it: the owner is `owner`
/// and may; a collaborator has their recorded role; anyone else does not see the album (404).
pub fn album_access(album_owner: &str, user_id: &str, collaborator: Option<(String, bool)>) -> (r: Result<
    (String, bool),
    u16,
>)
    ensures
        album_owner@ == user_id@ ==> (r matches Ok(a) && a.0@ == "owner"@ && a.1),
        album_owner@ != user_id@ ==> match collaborator {
            Some(c) => r == Ok::<(String, bool), u16>(c),
            None => r == Err::<(String, bool), u16>(404),
        },
{
    let o = chars_of(album_owner);
    if chars_eq_str(&o, user_id) {
        return Ok(("owner".to_owned(), true));
    }
    match collaborator {
        Some(c) => Ok(c),
        None => Err(404),
    }
}

/// Only the owner and contributors may add media to an album (else 403).
pub fn check_may_add_media(role: &str) -> (r: Result<(), u16>)
    ensures
        r is Ok <==> (role@ == "owner"@ || role@ == "contributor"@),
        r matches Err(s) ==> s == 403,
{
    let v = chars_of(role);
    if chars_eq_str(&v, "owner") || chars_eq_str(&v, "contributor") {
        Ok(())
    } else {
        Err(403)
    }
}

/// Which media of an album a caller may take out of it.
#[derive(Debug)]
pub enum MediaRemoval {
    /// Any media: the owner.
    Any,
    /// Only what the caller added: a contributor.
    OwnOnly,
}

/// What a role may remove from an album; viewers may remove nothing (403).
pub fn media_removal(role: &str) -> (r: Result<MediaRemoval, u16>)
    ensures
        role@ == "owner"@ ==> r matches Ok(MediaRemoval::Any),
        role@ != "owner"@ && role@ == "contributor"@ ==> r matches Ok(MediaRemoval::OwnOnly),
        role@ != "owner"@ && role@ != "contributor"@ ==> r == Err::<MediaRemoval, u16>(403),
{
    let v = chars_of(role);
    if chars_eq_str(&v, "owner") {
        Ok(MediaRemoval::Any)
    } else if chars_eq_str(&v, "contributor") {
        Ok(MediaRemoval::OwnOnly)
    } else {
        Err(403)
    }
}

/// The role a collaborator gets: `contributor` when asked for, `viewer` otherwise.
pub fn collaborator_role(requested: &str) -> (r: &'static str)
    ensures
        r@ == if requested@ == "contributor"@ {
            "contributor"@
        } else {
            "viewer"@
        },
{
    let v = chars_of(requested);
    if chars_eq_str(&v, "contributor") {
        "contributor"
    } else {
        "viewer"
    }
}

/// The user to invite: unknown emails are 404, inviting oneself is 400.
pub fn check_invitee(target: Option<String>, inviter: &str) -> (r: Result<String, u16>)
    ensures
        target is None ==> r == Err::<String, u16>(404),
        target matches Some(t) ==> (t@ == inviter@ ==> r == Err::<String, u16>(400)),
        target matches Some(t) ==> (t@ != inviter@ ==> r == Ok::<String, u16>(t)),
{
    match target {
        None => Err(404),
        Some(t) => {
            let v = chars_of(t.as_str());
            if chars_eq_str(&v, inviter) {
                Err(400)
            } else {
                Ok(t)
            }
        },
    }
}

/// The text of an album invitation notification.
pub fn invite_message(inviter_name: &str, album_name: &str) -> (r: String)
    ensures
        r@ == inviter_name@ + " đã mời bạn tham gia album '"@ + album_name@ + "'"@,
{
    let mut v: Vec<char> = Vec::new();
    push_str(&mut v, inviter_name);
    push_str(&mut v, " đã mời bạn tham gia album '");
    push_str(&mut v, album_name);
    push_str(&mut v, "'");
    string_from_chars(&v)
}

} // verus!
