//! Sessions of the media library: the claims a token carries, where a request's token is found,
//! the cookies that carry it to media requests, and who may do what.
use vstd::prelude::*;

use crate::crypto::{sealed_for, unseal_master_key, unsealed_key};
use crate::text::{
    chars_eq_str, chars_of, chars_start_with, find_char, first_index, lemma_first_index, push_chars,
    push_str, split_chars, split_on, starts_with, string_from_chars, sub_chars, trim_whitespace,
    trim_ws,
};

verus! {

broadcast use vstd::string::group_string_axioms;

/// Seconds in the thirty days a session token lives.
pub const SESSION_SECONDS: i64 = 2_592_000;

/// Seconds in the five minutes a download token lives.
pub const DOWNLOAD_TOKEN_SECONDS: i64 = 300;

/// The current time as a Unix timestamp in seconds (`chrono::Utc::now().timestamp()`).
#[verifier::external_body]
pub(crate) fn now_seconds() -> i64 {
    chrono::Utc::now().timestamp()
}

/// What a session token says of its holder.
pub struct Claims {
    /// The user id.
    pub sub: String,
    pub email: String,
    pub role: String,
    pub exp: i64,
    pub iat: i64,
    /// The master key, sealed with the server secret (Base64), when encryption is enabled.
    pub encrypted_mk: Option<String>,
}

impl Claims {
    /// Unseal the master key carried in the claims; `None` when there is none or it does not
    /// open for this user under `jwt_secret`.
    pub fn master_key(&self, jwt_secret: &str) -> (r: Option<[u8; 32]>)
        ensures
            self.encrypted_mk is None ==> r is None,
            self.encrypted_mk matches Some(s) ==> match r {
                Some(k) => unsealed_key(s@, jwt_secret@, self.sub@) == Some(k@),
                None => unsealed_key(s@, jwt_secret@, self.sub@) is None,
            },
            forall|mk: Seq<u8>|
                #![trigger sealed_for(self.encrypted_mk->0@, jwt_secret@, self.sub@, mk)]
                self.encrypted_mk is Some && mk.len() == 32 && sealed_for(
                    self.encrypted_mk->0@,
                    jwt_secret@,
                    self.sub@,
                    mk,
                ) ==> (r matches Some(k) && k@ == mk),
    {
        match &self.encrypted_mk {
            None => None,
            Some(sealed) => match unseal_master_key(sealed.as_str(), jwt_secret, self.sub.as_str()) {
                Ok(k) => Some(k),
                Err(_) => None,
            },
        }
    }
}

/// The claims of a session token issued at `now` (seconds): valid for thirty days.
pub fn session_claims(user_id: &str, email: &str, role: &str, sealed_mk: Option<&str>, now: i64) -> (c: Claims)
    requires
        now + SESSION_SECONDS <= i64::MAX,
    ensures
        c.sub@ == user_id@,
        c.email@ == email@,
        c.role@ == role@,
        c.iat == now,
        c.exp == now + SESSION_SECONDS,
        c.encrypted_mk is Some == sealed_mk is Some,
        sealed_mk matches Some(s) ==> c.encrypted_mk->0@ == s@,
{
    Claims {
        sub: user_id.to_owned(),
        email: email.to_owned(),
        role: role.to_owned(),
        exp: now + SESSION_SECONDS,
        iat: now,
        encrypted_mk: match sealed_mk {
            Some(s) => Some(s.to_owned()),
            None => None,
        },
    }
}

/// The claims of a download token issued at `now`: no email, the `user` role, five minutes.
pub fn download_claims(user_id: &str, encrypted_mk: Option<&str>, now: i64) -> (c: Claims)
    requires
        now + DOWNLOAD_TOKEN_SECONDS <= i64::MAX,
    ensures
        c.sub@ == user_id@,
        c.email@ == Seq::<char>::empty(),
        c.role@ == "user"@,
        c.iat == now,
        c.exp == now + DOWNLOAD_TOKEN_SECONDS,
        c.encrypted_mk is Some == encrypted_mk is Some,
        encrypted_mk matches Some(s) ==> c.encrypted_mk->0@ == s@,
{
    Claims {
        sub: user_id.to_owned(),
        email: String::new(),
        role: "user".to_owned(),
        exp: now + DOWNLOAD_TOKEN_SECONDS,
        iat: now,
        encrypted_mk: match encrypted_mk {
            Some(s) => Some(s.to_owned()),
            None => None,
        },
    }
}

// ───────────────────────── finding a request's token ─────────────────────────

/// The value of a `key=value` pair whose key is `token`: `split_once('=')`.
pub open spec fn token_param(pair: Seq<char>) -> Option<Seq<char>> {
    let k = first_index(pair, '=');
    if k < pair.len() && pair.subrange(0, k) == "token"@ {
        Some(pair.subrange(k + 1, pair.len() as int))
    } else {
        None
    }
}

/// The `token` values of a query string, in order.
pub open spec fn query_tokens(pairs: Seq<Seq<char>>) -> Seq<Seq<char>>
    decreases pairs.len(),
{
    if pairs.len() == 0 {
        seq![]
    } else {
        query_tokens(pairs.drop_last()) + match token_param(pairs.last()) {
            Some(v) => seq![v],
            None => seq![],
        }
    }
}

/// The tokens a request offers, in the order they are tried: the `Bearer` token of the
/// `Authorization` header, then every `token` parameter of the query string.
pub open spec fn token_candidates_of(authorization: Option<Seq<char>>, query: Option<Seq<char>>) -> Seq<Seq<char>> {
    let from_header = match authorization {
        Some(h) => if starts_with(h, "Bearer "@) {
            seq![h.subrange("Bearer "@.len() as int, h.len() as int)]
        } else {
            seq![]
        },
        None => seq![],
    };
    from_header + match query {
        Some(q) => query_tokens(split_on(q, '&')),
        None => seq![],
    }
}

/// The `token` value of one query pair, if it is one.
fn token_of_pair(pair: &Vec<char>) -> (r: Option<Vec<char>>)
    ensures
        match r {
            Some(v) => token_param(pair@) == Some(v@),
            None => token_param(pair@) is None,
        },
{
    let k = find_char(pair, '=');
    proof {
        lemma_first_index(pair@, '=');
    }
    if k >= pair.len() {
        return None;
    }
    let key = sub_chars(pair, 0, k);
    if chars_eq_str(&key, "token") {
        Some(sub_chars(pair, k + 1, pair.len()))
    } else {
        None
    }
}

/// The tokens a request offers, in the order they are to be verified; the first that verifies
/// authenticates the request.
pub fn token_candidates(authorization: Option<&str>, query: Option<&str>) -> (r: Vec<String>)
    ensures
        r@.len() == token_candidates_of(
            match authorization {
                Some(h) => Some(h@),
                None => None,
            },
            match query {
                Some(q) => Some(q@),
                None => None,
            },
        ).len(),
        forall|i: int|
            0 <= i < r@.len() ==> (#[trigger] r@[i])@ == token_candidates_of(
                match authorization {
                    Some(h) => Some(h@),
                    None => None,
                },
                match query {
                    Some(q) => Some(q@),
                    None => None,
                },
            )[i],
{
    let ghost auth_v = match authorization {
        Some(h) => Some(h@),
        None => None,
    };
    let ghost query_v = match query {
        Some(q) => Some(q@),
        None => None,
    };
    let mut r: Vec<String> = Vec::new();
    let ghost mut out: Seq<Seq<char>> = seq![];
    if let Some(h) = authorization {
        let v = chars_of(h);
        if chars_start_with(&v, "Bearer ") {
            proof {
                reveal_strlit("Bearer ");
            }
            let t = sub_chars(&v, 7, v.len());
            proof {
                out = out.push(t@);
            }
            r.push(string_from_chars(&t));
        }
    }
    let ghost head = out;
    assert(head =~= match auth_v {
        Some(h) => if starts_with(h, "Bearer "@) {
            seq![h.subrange("Bearer "@.len() as int, h.len() as int)]
        } else {
            seq![]
        },
        None => seq![],
    });
    if let Some(q) = query {
        let qv = chars_of(q);
        let pairs = split_chars(&qv, '&');
        let ghost pv = split_on(q@, '&');
        for i in 0..pairs.len()
            invariant
                pairs@.len() == pv.len(),
                pv == split_on(q@, '&'),
                forall|k: int| 0 <= k < pairs@.len() ==> (#[trigger] pairs@[k])@ == pv[k],
                out == head + query_tokens(pv.take(i as int)),
                r@.len() == out.len(),
                forall|k: int| 0 <= k < r@.len() ==> (#[trigger] r@[k])@ == out[k],
        {
            proof {
                assert(pv.take(i + 1).drop_last() =~= pv.take(i as int));
            }
            match token_of_pair(&pairs[i]) {
                Some(t) => {
                    proof {
                        assert(head + query_tokens(pv.take(i + 1)) =~= out.push(t@));
                        out = out.push(t@);
                    }
                    r.push(string_from_chars(&t));
                },
                None => {
                    proof {
                        assert(head + query_tokens(pv.take(i + 1)) =~= out);
                    }
                },
            }
        }
        proof {
            assert(pv.take(pairs@.len() as int) =~= pv);
        }
    } else {
        assert(out =~= head + seq![]);
    }
    r
}

/// A request may reach the admin routes only with the `admin` role.
pub fn is_admin(role: &str) -> (r: bool)
    ensures
        r == (role@ == "admin"@),
{
    let v = chars_of(role);
    chars_eq_str(&v, "admin")
}

// ───────────────────────── cookies ─────────────────────────

/// The attributes every media cookie carries, for thirty days.
pub open spec fn cookie_attributes() -> Seq<char> {
    "; HttpOnly; SameSite=Strict; Path=/api/media; Max-Age=2592000"@
}

/// The `Set-Cookie` value carrying a session token to media requests.
pub fn session_cookie(token: &str) -> (r: String)
    ensures
        r@ == "__mc="@ + token@ + cookie_attributes(),
{
    let mut v: Vec<char> = Vec::new();
    push_str(&mut v, "__mc=");
    push_str(&mut v, token);
    push_str(&mut v, "; HttpOnly; SameSite=Strict; Path=/api/media; Max-Age=2592000");
    string_from_chars(&v)
}

/// The `Set-Cookie` value carrying a sealed master key to media requests.
pub fn encryption_cookie(sealed_mk: &str) -> (r: String)
    ensures
        r@ == "__mc_mk="@ + sealed_mk@ + cookie_attributes(),
{
    let mut v: Vec<char> = Vec::new();
    push_str(&mut v, "__mc_mk=");
    push_str(&mut v, sealed_mk);
    push_str(&mut v, "; HttpOnly; SameSite=Strict; Path=/api/media; Max-Age=2592000");
    string_from_chars(&v)
}

/// The `Set-Cookie` value that clears the master-key cookie.
pub fn clear_encryption_cookie() -> (r: String)
    ensures
        r@ == "__mc_mk=; HttpOnly; SameSite=Strict; Path=/api/media; Max-Age=0"@,
{
    "__mc_mk=; HttpOnly; SameSite=Strict; Path=/api/media; Max-Age=0".to_owned()
}

/// A `name=value` cookie pair, both sides trimmed: `split_once('=')` on one `;`-piece.
pub open spec fn cookie_pair_of(piece: Seq<char>) -> Option<(Seq<char>, Seq<char>)> {
    let k = first_index(piece, '=');
    if k < piece.len() {
        Some((trim_ws(piece.subrange(0, k)), trim_ws(piece.subrange(k + 1, piece.len() as int))))
    } else {
        None
    }
}

/// The cookie pairs of `Cookie` header values, in order.
pub open spec fn cookie_pairs_of(pieces: Seq<Seq<char>>) -> Seq<(Seq<char>, Seq<char>)>
    decreases pieces.len(),
{
    if pieces.len() == 0 {
        seq![]
    } else {
        cookie_pairs_of(pieces.drop_last()) + match cookie_pair_of(pieces.last()) {
            Some(p) => seq![p],
            None => seq![],
        }
    }
}

/// All `;`-pieces of the `Cookie` header values, in order.
pub open spec fn cookie_pieces(headers: Seq<Seq<char>>) -> Seq<Seq<char>>
    decreases headers.len(),
{
    if headers.len() == 0 {
        seq![]
    } else {
        cookie_pieces(headers.drop_last()) + split_on(headers.last(), ';')
    }
}

/// A cookie: its name and value.
pub struct CookiePair {
    pub name: String,
    pub value: String,
}

/// Split `Cookie` header values into trimmed `name=value` pairs, in order; pieces without `=`
/// are skipped.
pub fn parse_cookies(headers: &Vec<String>) -> (r: Vec<CookiePair>)
    ensures
        r@.len() == cookie_pairs_of(cookie_pieces(headers@.map_values(|h: String| h@))).len(),
        forall|i: int|
            0 <= i < r@.len() ==> ((#[trigger] r@[i]).name@, r@[i].value@) == cookie_pairs_of(
                cookie_pieces(headers@.map_values(|h: String| h@)),
            )[i],
{
    let ghost hv = headers@.map_values(|h: String| h@);
    let mut r: Vec<CookiePair> = Vec::new();
    let ghost mut pieces_done: Seq<Seq<char>> = seq![];
    let ghost mut out: Seq<(Seq<char>, Seq<char>)> = seq![];
    for h in 0..headers.len()
        invariant
            hv == headers@.map_values(|h: String| h@),
            pieces_done == cookie_pieces(hv.take(h as int)),
            out == cookie_pairs_of(pieces_done),
            r@.len() == out.len(),
            forall|k: int| 0 <= k < r@.len() ==> ((#[trigger] r@[k]).name@, r@[k].value@) == out[k],
    {
        let v = chars_of(headers[h].as_str());
        let pieces = split_chars(&v, ';');
        let ghost pv = split_on(v@, ';');
        proof {
            assert(hv.take(h + 1).drop_last() =~= hv.take(h as int));
            assert(hv.take(h + 1).last() == v@);
        }
        let ghost before = pieces_done;
        for i in 0..pieces.len()
            invariant
                pieces@.len() == pv.len(),
                forall|k: int| 0 <= k < pieces@.len() ==> (#[trigger] pieces@[k])@ == pv[k],
                pieces_done == before + pv.take(i as int),
                out == cookie_pairs_of(pieces_done),
                r@.len() == out.len(),
                forall|k: int| 0 <= k < r@.len() ==> ((#[trigger] r@[k]).name@, r@[k].value@) == out[k],
        {
            let piece = &pieces[i];
            let k = find_char(piece, '=');
            proof {
                lemma_first_index(piece@, '=');
                assert(before + pv.take(i + 1) =~= (before + pv.take(i as int)).push(pv[i as int]));
                pieces_done = pieces_done.push(pv[i as int]);
                assert(pieces_done.drop_last() =~= before + pv.take(i as int));
            }
            if k < piece.len() {
                let name = trim_whitespace(&sub_chars(piece, 0, k));
                let value = trim_whitespace(&sub_chars(piece, k + 1, piece.len()));
                proof {
                    out = out.push((name@, value@));
                }
                r.push(CookiePair { name: string_from_chars(&name), value: string_from_chars(&value) });
            }
        }
        proof {
            assert(pv.take(pieces@.len() as int) =~= pv);
            assert(cookie_pieces(hv.take(h + 1)) == before + pv);
        }
    }
    proof {
        assert(hv.take(headers@.len() as int) =~= hv);
    }
    r
}

} // verus!
