use mycloud::sql::{
    album_update_query, contains_pattern, media_by_ids_query, media_list_queries, search_paging,
    MediaQuery, SqlArg, SqlPart,
};

fn render(parts: &[SqlPart]) -> (String, Vec<String>) {
    let mut sql = String::new();
    let mut binds = Vec::new();
    for p in parts {
        match p {
            SqlPart::Sql(s) => sql.push_str(s),
            SqlPart::Bind(SqlArg::Text(t)) => {
                sql.push('?');
                binds.push(t.clone());
            }
            SqlPart::Bind(SqlArg::Int(n)) => {
                sql.push('?');
                binds.push(n.to_string());
            }
        }
    }
    (sql, binds)
}

#[test]
fn media_listing_queries() {
    let q = MediaQuery { page: Some(3), limit: Some(20), sort: Some("size".into()), mime_type: Some("image".into()), favorite: Some(true), trash: None, year: Some(2026), month: Some(3) };
    let r = media_list_queries("u1", &q);
    let (sql, binds) = render(&r.items);
    assert_eq!(sql, "SELECT * FROM media WHERE user_id = ? AND deleted_at IS NULL AND status = 'ready' AND is_favorite = 1 AND mime_type LIKE ? AND strftime('%Y', created_at) = ? AND strftime('%m', created_at) = ? ORDER BY size DESC LIMIT ? OFFSET ?");
    assert_eq!(binds, vec!["u1", "%image%", "2026", "03", "20", "40"]);
    let (count, _) = render(&r.count);
    assert!(count.starts_with("SELECT COUNT(id) FROM media WHERE user_id = ?"));
    let d = MediaQuery { page: None, limit: None, sort: None, mime_type: None, favorite: None, trash: Some(true), year: None, month: None };
    let r2 = media_list_queries("u1", &d);
    let (sql2, binds2) = render(&r2.items);
    assert_eq!(sql2, "SELECT * FROM media WHERE user_id = ? AND deleted_at IS NOT NULL ORDER BY created_at DESC LIMIT ? OFFSET ?");
    assert_eq!(binds2, vec!["u1", "50", "0"]);
    assert_eq!((r2.page, r2.limit), (1, 50));
}

#[test]
fn other_queries() {
    let (sql, binds) = render(&media_by_ids_query(&vec!["a".into(), "b".into()]));
    assert_eq!(sql, "SELECT * FROM media WHERE id IN (?, ?) AND deleted_at IS NULL ORDER BY created_at DESC");
    assert_eq!(binds, vec!["a", "b"]);
    let (sql, binds) = render(&album_update_query("al", &Some("N".into()), &None, &Some("c".into())));
    assert_eq!(sql, "UPDATE album SET updated_at = CURRENT_TIMESTAMP, name = ?, cover_media_id = ? WHERE id = ?");
    assert_eq!(binds, vec!["N", "c", "al"]);
    assert_eq!(search_paging(Some(0), None), (50, 0));
    assert_eq!(search_paging(Some(3), Some(10)), (10, 20));
    assert_eq!(contains_pattern("cat"), "%cat%");
}
