use vstd::prelude::*;

use crate::sql::{
    args, favorite_args, favorite_clauses, is_sql, joined, like, matched_literally, message_columns,
    notice_clauses, opt_arg, opt_clause, sender_where, session_columns, time_args, time_clauses,
    where_text, Sql, SqlArg, SqlValue, CONTACTS_SQL, MEMBERS_SQL, POSTS_SQL, ROOM_BY_NAME_SQL,
    ROOM_BY_ROOM_NAME_SQL, ROOM_BY_USERNAME_SQL, SENDER_NAMES_SQL, SNAPSHOT_SQL, TABLES_SQL,
    TABLE_EXISTS_SQL, WATCHED_SQL,
};

verus! {

/// Parts are joined by a separator between each two.
pub proof fn law_joined(parts: Seq<Seq<char>>, part: Seq<char>, sep: Seq<char>)
    ensures
        joined(Seq::empty(), sep) == Seq::<char>::empty(),
        joined(seq![part], sep) == part,
        parts.len() > 0 ==> joined(parts.push(part), sep) == joined(parts, sep) + sep + part,
{
    assert(parts.push(part).drop_last() =~= parts);
}

/// All conditions have to hold; without any there is no condition.
pub proof fn law_where(a: Seq<char>, b: Seq<char>, c: Seq<char>)
    ensures
        where_text(Seq::empty()) == Seq::<char>::empty(),
        where_text(seq![a]) == "WHERE "@ + a,
        where_text(seq![a, b]) == "WHERE "@ + (a + " AND "@ + b),
        where_text(seq![a, b, c]) == "WHERE "@ + (a + " AND "@ + b + " AND "@ + c),
{
    law_joined(seq![a], b, " AND "@);
    assert(seq![a].push(b) =~= seq![a, b]);
    law_joined(Seq::empty(), a, " AND "@);
    law_joined(seq![a, b], c, " AND "@);
    assert(seq![a, b].push(c) =~= seq![a, b, c]);
}

/// A condition on the time is put, with its value, for each bound that is given: the first second
/// and the last both count.
pub proof fn law_time_conditions(since: i64, until: i64)
    ensures
        time_clauses(None, None) == Seq::<Seq<char>>::empty(),
        time_clauses(Some(since), None) == seq!["create_time >= ?"@],
        time_clauses(None, Some(until)) == seq!["create_time <= ?"@],
        time_clauses(Some(since), Some(until)) == seq!["create_time >= ?"@, "create_time <= ?"@],
        time_args(None, None) == Seq::<SqlArg>::empty(),
        time_args(Some(since), None) == seq![SqlArg::Int(since)],
        time_args(None, Some(until)) == seq![SqlArg::Int(until)],
        time_args(Some(since), Some(until)) == seq![SqlArg::Int(since), SqlArg::Int(until)],
{
    assert(time_clauses(None, None) =~= Seq::empty());
    assert(time_clauses(Some(since), None) =~= seq!["create_time >= ?"@]);
    assert(time_clauses(None, Some(until)) =~= seq!["create_time <= ?"@]);
    assert(time_clauses(Some(since), Some(until)) =~= seq![
        "create_time >= ?"@,
        "create_time <= ?"@,
    ]);
    assert(time_args(None, None) =~= Seq::empty());
    assert(time_args(Some(since), None) =~= seq![SqlArg::Int(since)]);
    assert(time_args(None, Some(until)) =~= seq![SqlArg::Int(until)]);
    assert(time_args(Some(since), Some(until)) =~= seq![SqlArg::Int(since), SqlArg::Int(until)]);
}

/// A condition that may be missing is put where its value is given.
pub proof fn law_optional_condition(clause: Seq<char>, v: i64)
    ensures
        opt_clause(clause, Some(v)) == seq![clause],
        opt_clause(clause, None) == Seq::<Seq<char>>::empty(),
        opt_arg(Some(v)) == seq![SqlArg::Int(v)],
        opt_arg(None) == Seq::<SqlArg>::empty(),
{
}

/// A favourite is asked for by its type and by what it holds, as far as these are given.
pub proof fn law_favorite_conditions(t: i64, q: Seq<char>)
    ensures
        favorite_clauses(None, None) == Seq::<Seq<char>>::empty(),
        favorite_clauses(Some(t), None) == seq!["type = ?"@],
        favorite_clauses(None, Some(q)) == seq!["content LIKE ? ESCAPE '\\'"@],
        favorite_clauses(Some(t), Some(q)) == seq!["type = ?"@, "content LIKE ? ESCAPE '\\'"@],
        favorite_args(None, None) == Seq::<SqlArg>::empty(),
        favorite_args(Some(t), None) == seq![SqlArg::Int(t)],
        favorite_args(None, Some(q)) == seq![SqlArg::Text(like(q))],
        favorite_args(Some(t), Some(q)) == seq![SqlArg::Int(t), SqlArg::Text(like(q))],
{
    assert(favorite_clauses(None, None) =~= Seq::empty());
    assert(favorite_clauses(Some(t), None) =~= seq!["type = ?"@]);
    assert(favorite_clauses(None, Some(q)) =~= seq!["content LIKE ? ESCAPE '\\'"@]);
    assert(favorite_clauses(Some(t), Some(q)) =~= seq![
        "type = ?"@,
        "content LIKE ? ESCAPE '\\'"@,
    ]);
    assert(favorite_args(None, None) =~= Seq::empty());
    assert(favorite_args(Some(t), None) =~= seq![SqlArg::Int(t)]);
    assert(favorite_args(None, Some(q)) =~= seq![SqlArg::Text(like(q))]);
    assert(favorite_args(Some(t), Some(q)) =~= seq![SqlArg::Int(t), SqlArg::Text(like(q))]);
}

/// Notifications that were read are left out, but where they are asked for.
pub proof fn law_notice_conditions(since: Option<i64>, until: Option<i64>)
    ensures
        notice_clauses(true, since, until) == time_clauses(since, until),
        notice_clauses(false, since, until) == seq!["is_unread = 1"@] + time_clauses(since, until),
{
    assert(notice_clauses(true, since, until) =~= time_clauses(since, until));
}

/// Messages without a sender do not count for the senders.
pub proof fn law_sender_condition(clauses: Seq<Seq<char>>)
    ensures
        clauses.len() == 0 ==> sender_where(clauses) == "WHERE real_sender_id > 0"@,
        clauses.len() > 0 ==> sender_where(clauses) == where_text(clauses)
            + " AND real_sender_id > 0"@,
{
}

/// The columns that are read of a message and of a chat, in the order of their fields.
pub proof fn law_columns()
    ensures
        message_columns()
            == "SELECT local_id, local_type, create_time, real_sender_id, message_content, WCDB_CT_message_content FROM ["@,
        session_columns()
            == "SELECT username, unread_count, summary, last_timestamp, last_msg_type, last_msg_sender, last_sender_display_name FROM SessionTable WHERE "@,
{
}

/// A pattern for texts that hold a text: the text itself, literally, between two wild cards.
pub proof fn law_like(s: Seq<char>)
    ensures
        like(s).len() >= 2,
        like(s)[0] == '%',
        like(s).last() == '%',
        matched_literally(like(s).subrange(1, like(s).len() - 1)) == Some(s),
{
    reveal_strlit("%");
    crate::sql::law_escaped_matches_itself(s);
    let inner = crate::sql::escaped(s);
    assert(like(s).subrange(1, like(s).len() - 1) =~= inner);
}

/// What a pattern without wild cards matches: a backslash stands before a character that means
/// itself, and a percent sign or an underscore alone matches no text literally.
pub proof fn law_matched_literally(c: char, rest: Seq<char>)
    ensures
        matched_literally(Seq::empty()) == Some(Seq::<char>::empty()),
        matched_literally(rest) is Some ==> matched_literally(seq!['\\', c] + rest) == Some(
            seq![c] + matched_literally(rest)->0,
        ),
        c != '\\' && c != '%' && c != '_' && matched_literally(rest) is Some ==> matched_literally(
            seq![c] + rest,
        ) == Some(seq![c] + matched_literally(rest)->0),
        matched_literally(seq!['%'] + rest) is None,
        matched_literally(seq!['_'] + rest) is None,
{
    assert((seq!['\\', c] + rest).skip(2) =~= rest);
    assert((seq![c] + rest).skip(1) =~= rest);
}

/// A statement is its text with its values, one by one.
pub proof fn law_statement(sql: Sql, text: Seq<char>, values: Seq<SqlArg>, i: int)
    requires
        is_sql(sql, text, values),
        0 <= i < values.len(),
    ensures
        sql.text@ == text,
        sql.params@.len() == values.len(),
        match sql.params@[i] {
            SqlValue::Int(n) => values[i] == SqlArg::Int(n),
            SqlValue::Text(s) => values[i] == SqlArg::Text(s@),
        },
{
    assert(args(sql.params@)[i] == sql.params@[i]@);
}

/// The statements without conditions that depend on a request.
pub proof fn law_fixed_statements()
    ensures
        CONTACTS_SQL@ == "SELECT username, nick_name, remark, verify_flag FROM contact"@,
        SENDER_NAMES_SQL@ == "SELECT rowid, user_name FROM Name2Id"@,
        TABLES_SQL@ == "SELECT name FROM sqlite_master WHERE type='table' AND name LIKE 'Msg_%'"@,
        TABLE_EXISTS_SQL@ == "SELECT 1 FROM sqlite_master WHERE type='table' AND name=?"@,
        SNAPSHOT_SQL@ == "SELECT username, last_timestamp FROM SessionTable WHERE last_timestamp > 0"@,
        WATCHED_SQL@
            == "SELECT username, summary, last_timestamp, last_msg_type, last_msg_sender FROM SessionTable WHERE last_timestamp > 0 ORDER BY last_timestamp DESC LIMIT 50"@,
        POSTS_SQL@ == "SELECT tid, user_name, content FROM SnsTimeLine ORDER BY tid DESC"@,
        ROOM_BY_USERNAME_SQL@ == "SELECT id, owner FROM chat_room WHERE username = ?"@,
        ROOM_BY_ROOM_NAME_SQL@ == "SELECT id, owner FROM chat_room WHERE chat_room_name = ?"@,
        ROOM_BY_NAME_SQL@ == "SELECT id, owner FROM chat_room WHERE name = ?"@,
        MEMBERS_SQL@
            == "SELECT c.username, c.nick_name, c.remark FROM chatroom_member cm LEFT JOIN contact c ON c.id = cm.member_id WHERE cm.room_id = ?"@,
{
}

/// The values of a statement are seen as they are.
pub proof fn law_values(n: i64, s: String)
    ensures
        SqlValue::Int(n)@ == SqlArg::Int(n),
        SqlValue::Text(s)@ == SqlArg::Text(s@),
{
}

} // verus!
