//! Database queries that the media library composes from a request: the text, and the values
//! bound to its placeholders, in order.
use vstd::prelude::*;

use crate::text::{decimal, push_decimal, push_str, string_from_chars, zero_padded, push_zero_padded, chars_of, chars_eq_str};

verus! {

broadcast use vstd::string::group_string_axioms;

/// A value bound to a placeholder.
pub enum SqlArg {
    Text(String),
    Int(i64),
}

/// A piece of a query: literal text, or a bound value (written as a placeholder).
pub enum SqlPart {
    Sql(String),
    Bind(SqlArg),
}

/// A piece as a plain value: `(0, text, 0)` for text, `(1, text, 0)` for a bound text, `(2, "", n)`
/// for a bound integer.
pub open spec fn part_view(p: SqlPart) -> (nat, Seq<char>, int) {
    match p {
        SqlPart::Sql(s) => (0, s@, 0),
        SqlPart::Bind(SqlArg::Text(s)) => (1, s@, 0),
        SqlPart::Bind(SqlArg::Int(n)) => (2, seq![], n as int),
    }
}

/// Literal text.
pub open spec fn sql_text(s: Seq<char>) -> (nat, Seq<char>, int) {
    (0, s, 0)
}

/// A bound text.
pub open spec fn bind_text(s: Seq<char>) -> (nat, Seq<char>, int) {
    (1, s, 0)
}

/// A bound integer.
pub open spec fn bind_int(n: int) -> (nat, Seq<char>, int) {
    (2, seq![], n)
}

/// The parts of a query as plain values.
pub open spec fn parts_view(parts: Seq<SqlPart>) -> Seq<(nat, Seq<char>, int)> {
    parts.map_values(|p: SqlPart| part_view(p))
}

fn push_sql(parts: &mut Vec<SqlPart>, s: &str)
    ensures
        parts_view(final(parts)@) == parts_view(old(parts)@).push(sql_text(s@)),
{
    parts.push(SqlPart::Sql(s.to_owned()));
    assert(parts_view(parts@) =~= parts_view(old(parts)@).push(sql_text(s@)));
}

fn push_bind_text(parts: &mut Vec<SqlPart>, s: String)
    ensures
        parts_view(final(parts)@) == parts_view(old(parts)@).push(bind_text(s@)),
{
    parts.push(SqlPart::Bind(SqlArg::Text(s)));
    assert(parts_view(parts@) =~= parts_view(old(parts)@).push(bind_text(s@)));
}

fn push_bind_int(parts: &mut Vec<SqlPart>, n: i64)
    ensures
        parts_view(final(parts)@) == parts_view(old(parts)@).push(bind_int(n as int)),
{
    parts.push(SqlPart::Bind(SqlArg::Int(n)));
    assert(parts_view(parts@) =~= parts_view(old(parts)@).push(bind_int(n as int)));
}

/// `{:0w}` of a signed number: at least `w` characters, zero-padded after the sign.
pub open spec fn signed_padded(n: int, width: nat) -> Seq<char> {
    if n >= 0 {
        zero_padded(n as nat, width)
    } else {
        "-"@ + zero_padded((-n) as nat, if width > 0 { (width - 1) as nat } else { 0 })
    }
}

fn padded_i64(n: i64, width: usize) -> (r: String)
    ensures
        r@ == signed_padded(n as int, width as nat),
{
    let mut v: Vec<char> = Vec::new();
    if n >= 0 {
        push_zero_padded(&mut v, n as u64, width);
    } else {
        v.push('-');
        let m: u64 = (0i128 - n as i128) as u64;
        push_zero_padded(&mut v, m, if width > 0 { width - 1 } else { 0 });
        assert(v@ =~= "-"@ + zero_padded((-(n as int)) as nat, if width > 0 { (width - 1) as nat } else { 0 })) by {
            reveal_strlit("-");
        }
    }
    string_from_chars(&v)
}

// ───────────────────────── listing media ─────────────────────────

/// What a media listing asks for.
pub struct MediaQuery {
    pub page: Option<u32>,
    pub limit: Option<u32>,
    pub sort: Option<String>,
    pub mime_type: Option<String>,
    pub favorite: Option<bool>,
    pub trash: Option<bool>,
    pub year: Option<i64>,
    pub month: Option<i64>,
}

/// The page and page size of a listing: page 1 and 50 items by default.
pub open spec fn page_of(q: MediaQuery) -> (u32, u32) {
    (
        match q.page {
            Some(p) => p,
            None => 1,
        },
        match q.limit {
            Some(l) => l,
            None => 50,
        },
    )
}

/// The filter of a media listing, after `WHERE`.
pub open spec fn media_filter(user_id: Seq<char>, q: MediaQuery) -> Seq<(nat, Seq<char>, int)> {
    let base = seq![sql_text("WHERE user_id = "@), bind_text(user_id)];
    let with_trash = base + if q.trash == Some(true) {
        seq![sql_text(" AND deleted_at IS NOT NULL"@)]
    } else {
        seq![sql_text(" AND deleted_at IS NULL AND status = 'ready'"@)]
    };
    let with_fav = with_trash + if q.favorite == Some(true) {
        seq![sql_text(" AND is_favorite = 1"@)]
    } else {
        seq![]
    };
    let with_mime = with_fav + match q.mime_type {
        Some(m) => seq![sql_text(" AND mime_type LIKE "@), bind_text("%"@ + m@ + "%"@)],
        None => seq![],
    };
    let with_year = with_mime + match q.year {
        Some(y) => seq![sql_text(" AND strftime('%Y', created_at) = "@), bind_text(signed_padded(y as int, 4))],
        None => seq![],
    };
    with_year + match q.month {
        Some(m) => seq![sql_text(" AND strftime('%m', created_at) = "@), bind_text(signed_padded(m as int, 2))],
        None => seq![],
    }
}

/// The ordering of a media listing.
pub open spec fn media_order(sort: Option<String>) -> Seq<char> {
    match sort {
        Some(s) => if s@ == "name"@ {
            " ORDER BY original_name ASC"@
        } else if s@ == "size"@ {
            " ORDER BY size DESC"@
        } else {
            " ORDER BY created_at DESC"@
        },
        None => " ORDER BY created_at DESC"@,
    }
}

/// The ordering clause a listing's `sort` asks for, written out: `name` sorts by the original
/// name A to Z, `size` by size largest first, anything else (or nothing) newest first.
pub open spec fn sort_clause_text(sort: Option<String>) -> Seq<char> {
    if sort matches Some(s) && s@ == seq!['n', 'a', 'm', 'e'] {
        seq![' ', 'O', 'R', 'D', 'E', 'R', ' ', 'B', 'Y', ' ', 'o', 'r', 'i', 'g', 'i', 'n', 'a', 'l', '_', 'n', 'a', 'm', 'e', ' ', 'A', 'S', 'C']
    } else if sort matches Some(s) && s@ == seq!['s', 'i', 'z', 'e'] {
        seq![' ', 'O', 'R', 'D', 'E', 'R', ' ', 'B', 'Y', ' ', 's', 'i', 'z', 'e', ' ', 'D', 'E', 'S', 'C']
    } else {
        seq![' ', 'O', 'R', 'D', 'E', 'R', ' ', 'B', 'Y', ' ', 'c', 'r', 'e', 'a', 't', 'e', 'd', '_', 'a', 't', ' ', 'D', 'E', 'S', 'C']
    }
}

/// A listing sorted by `name` lists its items by original name ascending (A to Z); one sorted by
/// `size` lists the largest first; any other sort, or none, lists the newest first. The clause
/// is the one the items query carries before its `LIMIT` and `OFFSET`.
pub proof fn lemma_media_order_by_sort(sort: Option<String>)
    ensures
        media_order(sort) == sort_clause_text(sort),
        (sort matches Some(s) && s@ == "name"@) ==> media_order(sort) == seq![' ', 'O', 'R', 'D', 'E', 'R', ' ', 'B', 'Y', ' ', 'o', 'r', 'i', 'g', 'i', 'n', 'a', 'l', '_', 'n', 'a', 'm', 'e', ' ', 'A', 'S', 'C'],
{
    reveal_strlit("name");
    reveal_strlit("size");
    reveal_strlit(" ORDER BY original_name ASC");
    reveal_strlit(" ORDER BY size DESC");
    reveal_strlit(" ORDER BY created_at DESC");
    assert(" ORDER BY original_name ASC"@ =~= seq![' ', 'O', 'R', 'D', 'E', 'R', ' ', 'B', 'Y', ' ', 'o', 'r', 'i', 'g', 'i', 'n', 'a', 'l', '_', 'n', 'a', 'm', 'e', ' ', 'A', 'S', 'C']);
    assert(" ORDER BY size DESC"@ =~= seq![' ', 'O', 'R', 'D', 'E', 'R', ' ', 'B', 'Y', ' ', 's', 'i', 'z', 'e', ' ', 'D', 'E', 'S', 'C']);
    assert(" ORDER BY created_at DESC"@ =~= seq![' ', 'O', 'R', 'D', 'E', 'R', ' ', 'B', 'Y', ' ', 'c', 'r', 'e', 'a', 't', 'e', 'd', '_', 'a', 't', ' ', 'D', 'E', 'S', 'C']);
    assert("name"@ =~= seq!['n', 'a', 'm', 'e']);
    assert("size"@ =~= seq!['s', 'i', 'z', 'e']);
}

/// A listing shows page 1 of 50 items unless asked otherwise, and skips the items of the pages
/// before it. Its filter always starts with the owner, bound as text; a trash listing shows only
/// deleted media, any other only ready media that is not deleted; favourites, a type, a year and
/// a month narrow it further only when asked for.
pub proof fn lemma_media_listing_filter(user_id: Seq<char>, q: MediaQuery)
    ensures
        q.page is None ==> page_of(q).0 == 1,
        q.page matches Some(p) ==> page_of(q).0 == p,
        q.limit is None ==> page_of(q).1 == 50,
        q.limit matches Some(l) ==> page_of(q).1 == l,
        media_filter(user_id, q).len() >= 3,
        media_filter(user_id, q)[0] == sql_text("WHERE user_id = "@),
        media_filter(user_id, q)[1] == bind_text(user_id),
        q.trash == Some(true) ==> media_filter(user_id, q)[2] == sql_text(" AND deleted_at IS NOT NULL"@),
        q.trash != Some(true) ==> media_filter(user_id, q)[2] == sql_text(" AND deleted_at IS NULL AND status = 'ready'"@),
        q.favorite == Some(true) ==> media_filter(user_id, q)[3] == sql_text(" AND is_favorite = 1"@),
        (q.favorite != Some(true) && q.mime_type is None && q.year is None && q.month is None) ==> media_filter(user_id, q).len() == 3,
{
}

fn push_media_filter(parts: &mut Vec<SqlPart>, user_id: &str, q: &MediaQuery)
    ensures
        parts_view(final(parts)@) == parts_view(old(parts)@) + media_filter(user_id@, *q),
{
    let ghost start = parts_view(parts@);
    push_sql(parts, "WHERE user_id = ");
    push_bind_text(parts, user_id.to_owned());
    if q.trash == Some(true) {
        push_sql(parts, " AND deleted_at IS NOT NULL");
    } else {
        push_sql(parts, " AND deleted_at IS NULL AND status = 'ready'");
    }
    if q.favorite == Some(true) {
        push_sql(parts, " AND is_favorite = 1");
    }
    if let Some(m) = &q.mime_type {
        push_sql(parts, " AND mime_type LIKE ");
        let mut v: Vec<char> = Vec::new();
        push_str(&mut v, "%");
        push_str(&mut v, m.as_str());
        push_str(&mut v, "%");
        push_bind_text(parts, string_from_chars(&v));
    }
    if let Some(y) = q.year {
        push_sql(parts, " AND strftime('%Y', created_at) = ");
        push_bind_text(parts, padded_i64(y, 4));
    }
    if let Some(m) = q.month {
        push_sql(parts, " AND strftime('%m', created_at) = ");
        push_bind_text(parts, padded_i64(m, 2));
    }
    assert(parts_view(parts@) =~= start + media_filter(user_id@, *q));
}

/// The two queries of a media listing: the page of items, and the count of all that match.
pub struct MediaListQueries {
    pub items: Vec<SqlPart>,
    pub count: Vec<SqlPart>,
    pub page: u32,
    pub limit: u32,
}

/// Compose the queries of a media listing for `user_id`.
pub fn media_list_queries(user_id: &str, q: &MediaQuery) -> (r: MediaListQueries)
    requires
        page_of(*q).0 >= 1,
        (page_of(*q).0 - 1) * page_of(*q).1 <= u32::MAX,
    ensures
        r.page == page_of(*q).0,
        r.limit == page_of(*q).1,
        parts_view(r.items@) == seq![sql_text("SELECT * FROM media "@)] + media_filter(user_id@, *q) + seq![
            sql_text(media_order(q.sort)),
            sql_text(" LIMIT "@),
            bind_int(page_of(*q).1 as int),
            sql_text(" OFFSET "@),
            bind_int((page_of(*q).0 - 1) * page_of(*q).1),
        ],
        parts_view(r.count@) == seq![sql_text("SELECT COUNT(id) FROM media "@)] + media_filter(user_id@, *q),
        ({
            let v = parts_view(r.items@);
            &&& v.len() >= 5
            &&& v.subrange(v.len() - 5, v.len() as int) == seq![
                sql_text(sort_clause_text(q.sort)),
                sql_text(" LIMIT "@),
                bind_int(r.limit as int),
                sql_text(" OFFSET "@),
                bind_int((r.page - 1) * r.limit),
            ]
        }),
{
    proof {
        lemma_media_order_by_sort(q.sort);
    }
    let page = match q.page {
        Some(p) => p,
        None => 1,
    };
    let limit = match q.limit {
        Some(l) => l,
        None => 50,
    };
    let offset = (page - 1) * limit;
    let mut items: Vec<SqlPart> = Vec::new();
    push_sql(&mut items, "SELECT * FROM media ");
    push_media_filter(&mut items, user_id, q);
    let order: &str = match &q.sort {
        Some(s) => {
            let v = chars_of(s.as_str());
            if chars_eq_str(&v, "name") {
                " ORDER BY original_name ASC"
            } else if chars_eq_str(&v, "size") {
                " ORDER BY size DESC"
            } else {
                " ORDER BY created_at DESC"
            }
        },
        None => " ORDER BY created_at DESC",
    };
    push_sql(&mut items, order);
    push_sql(&mut items, " LIMIT ");
    push_bind_int(&mut items, limit as i64);
    push_sql(&mut items, " OFFSET ");
    push_bind_int(&mut items, offset as i64);
    let mut count: Vec<SqlPart> = Vec::new();
    push_sql(&mut count, "SELECT COUNT(id) FROM media ");
    push_media_filter(&mut count, user_id, q);
    proof {
        assert(parts_view(items@) =~= seq![sql_text("SELECT * FROM media "@)] + media_filter(user_id@, *q) + seq![
            sql_text(media_order(q.sort)),
            sql_text(" LIMIT "@),
            bind_int(page_of(*q).1 as int),
            sql_text(" OFFSET "@),
            bind_int((page_of(*q).0 - 1) * page_of(*q).1),
        ]);
        assert(parts_view(count@) =~= seq![sql_text("SELECT COUNT(id) FROM media "@)] + media_filter(user_id@, *q));
    }
    proof {
        let v = parts_view(items@);
        assert(v.subrange(v.len() - 5, v.len() as int) =~= seq![
            sql_text(media_order(q.sort)),
            sql_text(" LIMIT "@),
            bind_int(page_of(*q).1 as int),
            sql_text(" OFFSET "@),
            bind_int((page_of(*q).0 - 1) * page_of(*q).1),
        ]);
    }
    MediaListQueries { items, count, page, limit }
}

// ───────────────────────── other queries ─────────────────────────

/// `<prefix>` then one placeholder per id, separated by `, `, then `<suffix>`.
pub open spec fn id_list_query(prefix: Seq<char>, ids: Seq<String>, suffix: Seq<char>) -> Seq<(nat, Seq<char>, int)> {
    seq![sql_text(prefix)] + Seq::new(
        if ids.len() == 0 { 0 } else { (2 * ids.len() - 1) as nat },
        |k: int| if k % 2 == 0 { bind_text(ids[k / 2]@) } else { sql_text(", "@) },
    ) + seq![sql_text(suffix)]
}

/// The non-deleted media among `ids`, newest first (`SELECT * FROM media WHERE id IN (...)`).
pub fn media_by_ids_query(ids: &Vec<String>) -> (r: Vec<SqlPart>)
    ensures
        parts_view(r@) == id_list_query(
            "SELECT * FROM media WHERE id IN ("@,
            ids@,
            ") AND deleted_at IS NULL ORDER BY created_at DESC"@,
        ),
{
    let mut parts: Vec<SqlPart> = Vec::new();
    push_sql(&mut parts, "SELECT * FROM media WHERE id IN (");
    let ghost head = parts_view(parts@);
    for i in 0..ids.len()
        invariant
            head == seq![sql_text("SELECT * FROM media WHERE id IN ("@)],
            parts_view(parts@) == head + Seq::new(
                if i == 0 { 0 } else { (2 * i - 1) as nat },
                |k: int| if k % 2 == 0 { bind_text(ids@[k / 2]@) } else { sql_text(", "@) },
            ),
    {
        let ghost before = parts_view(parts@);
        if i > 0 {
            push_sql(&mut parts, ", ");
        }
        push_bind_text(&mut parts, ids[i].clone());
        proof {
            let f = |k: int| if k % 2 == 0 { bind_text(ids@[k / 2]@) } else { sql_text(", "@) };
            assert(parts_view(parts@) =~= head + Seq::new((2 * (i + 1) - 1) as nat, f));
        }
    }
    push_sql(&mut parts, ") AND deleted_at IS NULL ORDER BY created_at DESC");
    proof {
        assert(parts_view(parts@) =~= id_list_query(
            "SELECT * FROM media WHERE id IN ("@,
            ids@,
            ") AND deleted_at IS NULL ORDER BY created_at DESC"@,
        ));
    }
    parts
}

/// The update of an album's given fields, always touching its update time.
pub fn album_update_query(album_id: &str, name: &Option<String>, description: &Option<String>, cover_media_id: &Option<String>) -> (r:
    Vec<SqlPart>)
    ensures
        parts_view(r@) == seq![sql_text("UPDATE album SET updated_at = CURRENT_TIMESTAMP"@)] + match *name {
            Some(n) => seq![sql_text(", name = "@), bind_text(n@)],
            None => seq![],
        } + match *description {
            Some(d) => seq![sql_text(", description = "@), bind_text(d@)],
            None => seq![],
        } + match *cover_media_id {
            Some(c) => seq![sql_text(", cover_media_id = "@), bind_text(c@)],
            None => seq![],
        } + seq![sql_text(" WHERE id = "@), bind_text(album_id@)],
{
    let mut parts: Vec<SqlPart> = Vec::new();
    push_sql(&mut parts, "UPDATE album SET updated_at = CURRENT_TIMESTAMP");
    let ghost p0 = parts_view(parts@);
    if let Some(n) = name {
        push_sql(&mut parts, ", name = ");
        push_bind_text(&mut parts, n.clone());
    }
    let ghost p1 = parts_view(parts@);
    assert(p1 =~= p0 + match *name {
        Some(n) => seq![sql_text(", name = "@), bind_text(n@)],
        None => seq![],
    });
    if let Some(d) = description {
        push_sql(&mut parts, ", description = ");
        push_bind_text(&mut parts, d.clone());
    }
    let ghost p2 = parts_view(parts@);
    assert(p2 =~= p1 + match *description {
        Some(d) => seq![sql_text(", description = "@), bind_text(d@)],
        None => seq![],
    });
    if let Some(c) = cover_media_id {
        push_sql(&mut parts, ", cover_media_id = ");
        push_bind_text(&mut parts, c.clone());
    }
    let ghost p3 = parts_view(parts@);
    assert(p3 =~= p2 + match *cover_media_id {
        Some(c) => seq![sql_text(", cover_media_id = "@), bind_text(c@)],
        None => seq![],
    });
    push_sql(&mut parts, " WHERE id = ");
    push_bind_text(&mut parts, album_id.to_owned());
    parts
}

/// The page size and offset of a search: 50 by default, pages counted from 1 (page 0 reads as 1).
pub fn search_paging(page: Option<u32>, limit: Option<u32>) -> (r: (u32, u32))
    requires
        (match page {
            Some(p) => if p >= 1 { p - 1 } else { 0 },
            None => 0,
        }) * (match limit {
            Some(l) => l,
            None => 50,
        }) <= u32::MAX,
    ensures
        r.0 == match limit {
            Some(l) => l,
            None => 50u32,
        },
        r.1 == (match page {
            Some(p) => if p >= 1 { p - 1 } else { 0 },
            None => 0,
        }) * r.0,
{
    let limit = match limit {
        Some(l) => l,
        None => 50,
    };
    let p = match page {
        Some(p) => p,
        None => 1,
    };
    let offset = p.saturating_sub(1) * limit;
    (limit, offset)
}

/// A `LIKE` pattern matching text that contains `term`.
pub fn contains_pattern(term: &str) -> (r: String)
    ensures
        r@ == "%"@ + term@ + "%"@,
{
    let mut v: Vec<char> = Vec::new();
    push_str(&mut v, "%");
    push_str(&mut v, term);
    push_str(&mut v, "%");
    string_from_chars(&v)
}

} // verus!
