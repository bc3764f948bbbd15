use wx_cli::sql::{
    escape_like_pattern, favorites_sql, feeds_sql, like_pattern, messages_sql, new_messages_sql,
    newest_sql, notifications_sql, room_statements, search_sql, senders_sql, sessions_sql, sns_search_sql, stats_sql,
    unread_sql, Sql, SqlValue,
};

fn ints(sql: &Sql) -> Vec<String> {
    sql.params
        .iter()
        .map(|p| match p {
            SqlValue::Int(i) => format!("{}", i),
            SqlValue::Text(s) => format!("'{}'", s),
        })
        .collect()
}

#[test]
fn escape_like_pattern_escapes_backslash_first() {
    assert_eq!(escape_like_pattern("a\\b"), "a\\\\b");
    assert_eq!(escape_like_pattern("100%"), "100\\%");
    assert_eq!(escape_like_pattern("foo_bar"), "foo\\_bar");
}

#[test]
fn escape_like_pattern_combined() {
    let escaped = escape_like_pattern("a\\b%c_d");
    assert_eq!(escaped, "a\\\\b\\%c\\_d");
}

#[test]
fn escape_like_pattern_no_special_chars_unchanged() {
    assert_eq!(escape_like_pattern("hello world"), "hello world");
    assert_eq!(escape_like_pattern("中文关键词"), "中文关键词");
    assert_eq!(escape_like_pattern(""), "");
}

#[test]
fn escaped_text_is_matched_literally_by_the_database() {
    let conn = rusqlite::Connection::open_in_memory().unwrap();
    for (kw, text, hit) in [
        ("100%", "is 100% sure", true),
        ("100%", "is 1000 sure", false),
        ("a_b", "xa_bx", true),
        ("a_b", "xacbx", false),
        ("a\\b", "xa\\bx", true),
        ("a\\%b", "a\\%b", true),
        ("a\\%b", "a\\cb", false),
    ] {
        let found: bool = conn
            .query_row("SELECT ?1 LIKE ?2 ESCAPE '\\'", [text, &like_pattern(kw)], |r| r.get(0))
            .unwrap();
        assert_eq!(found, hit, "{} in {}", kw, text);
    }
}

#[test]
fn messages_statement_holds_the_conditions_that_are_given() {
    let s = messages_sql("T", None, None, None, 7, 0);
    assert!(s.text.contains("FROM [T]  ORDER BY create_time DESC LIMIT ? OFFSET ?"), "{}", s.text);
    assert_eq!(ints(&s), vec!["7", "0"]);
    let s = messages_sql("T", Some(1), Some(2), Some(3), 7, 4);
    assert!(
        s.text.contains(
            "FROM [T] WHERE create_time >= ? AND create_time <= ? AND local_type = ? ORDER BY"
        ),
        "{}",
        s.text
    );
    assert_eq!(ints(&s), vec!["1", "2", "3", "7", "4"]);
}

#[test]
fn search_statement_begins_with_the_keyword() {
    let s = search_sql("T", "5%", Some(1), None, Some(3), 9);
    assert!(
        s.text.contains(
            "WHERE message_content LIKE ? ESCAPE '\\' AND create_time >= ? AND local_type = ?"
        ),
        "{}",
        s.text
    );
    assert_eq!(ints(&s), vec!["'%5\\%%'", "1", "3", "9"]);
}

#[test]
fn other_statements() {
    assert_eq!(
        new_messages_sql("T", 5, 6).text,
        "SELECT local_id, local_type, create_time, real_sender_id, message_content, WCDB_CT_message_content FROM [T] WHERE create_time > ? ORDER BY create_time ASC LIMIT ?"
    );
    assert!(sessions_sql(3).text.ends_with("LIMIT ?"));
    assert!(unread_sql(false, 3).text.ends_with("ORDER BY last_timestamp DESC LIMIT ?"));
    assert!(unread_sql(true, 3).text.ends_with("ORDER BY last_timestamp DESC"));
    assert_eq!(unread_sql(true, 3).params.len(), 0);
    assert_eq!(ints(&unread_sql(false, 3)), vec!["3"]);
    let f = favorites_sql(Some(5), Some("x_y"), 9);
    assert!(f.text.contains("WHERE type = ? AND content LIKE ? ESCAPE '\\' ORDER BY"), "{}", f.text);
    assert_eq!(ints(&f), vec!["5", "'%x\\_y%'", "9"]);
    let f = favorites_sql(None, None, 9);
    assert!(!f.text.contains("WHERE"));
    let n = notifications_sql(false, Some(1), None, 2);
    assert!(n.text.contains("WHERE is_unread = 1 AND create_time >= ? ORDER BY"), "{}", n.text);
    assert_eq!(ints(&n), vec!["1", "2"]);
    let n = notifications_sql(true, None, None, 2);
    assert!(!n.text.contains("WHERE"));
    let f = feeds_sql(&vec![4, 5, 6]);
    assert!(f.text.ends_with("WHERE tid IN (?,?,?)"), "{}", f.text);
    assert_eq!(ints(&f), vec!["4", "5", "6"]);
    assert_eq!(ints(&sns_search_sql("a%")), vec!["'%a\\%%'"]);
    let s = stats_sql("T", None, Some(8));
    assert_eq!(s.count, "SELECT COUNT(*) FROM [T] WHERE create_time <= ?");
    assert_eq!(
        s.senders,
        "SELECT real_sender_id, COUNT(*) FROM [T] WHERE create_time <= ? AND real_sender_id > 0 GROUP BY real_sender_id"
    );
    assert_eq!(
        stats_sql("T", None, None).senders,
        "SELECT real_sender_id, COUNT(*) FROM [T] WHERE real_sender_id > 0 GROUP BY real_sender_id"
    );
    assert_eq!(newest_sql("T"), "SELECT MAX(create_time) FROM [T]");
    assert_eq!(
        senders_sql("T"),
        "SELECT DISTINCT real_sender_id FROM [T] WHERE real_sender_id > 0"
    );
}

#[test]
fn groups_are_looked_for_by_three_columns_in_turn() {
    assert_eq!(
        room_statements(),
        [
            "SELECT id, owner FROM chat_room WHERE username = ?",
            "SELECT id, owner FROM chat_room WHERE chat_room_name = ?",
            "SELECT id, owner FROM chat_room WHERE name = ?",
        ]
    );
}
