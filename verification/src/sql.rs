use vstd::prelude::*;

use crate::text::{chars_of, concat2, concat3, views};

verus! {

/// A value that is bound to a placeholder of a statement.
pub enum SqlValue {
    /// A number.
    Int(i64),
    /// A text.
    Text(String),
}

/// A value that is bound to a placeholder, as it is seen in contracts.
pub enum SqlArg {
    /// A number.
    Int(i64),
    /// A text.
    Text(Seq<char>),
}

impl View for SqlValue {
    type V = SqlArg;

    open spec fn view(&self) -> SqlArg {
        match self {
            SqlValue::Int(i) => SqlArg::Int(*i),
            SqlValue::Text(s) => SqlArg::Text(s@),
        }
    }
}

/// A statement with the values of its placeholders.
pub struct Sql {
    /// The statement.
    pub text: String,
    /// The values, in the order of the placeholders.
    pub params: Vec<SqlValue>,
}

/// The values of placeholders, as they are seen in contracts.
pub open spec fn args(params: Seq<SqlValue>) -> Seq<SqlArg> {
    params.map_values(|p: SqlValue| p@)
}

/// Whether `sql` is the given statement with the given values.
pub open spec fn is_sql(sql: Sql, text: Seq<char>, values: Seq<SqlArg>) -> bool {
    sql.text@ == text && args(sql.params@) == values
}

/// Texts one after the other, with `sep` between each two.
pub open spec fn joined(parts: Seq<Seq<char>>, sep: Seq<char>) -> Seq<char>
    decreases parts.len(),
{
    if parts.len() == 0 {
        Seq::empty()
    } else if parts.len() == 1 {
        parts[0]
    } else {
        joined(parts.drop_last(), sep) + sep + parts.last()
    }
}

/// Texts one after the other, with `sep` between each two.
pub fn join(parts: &Vec<String>, sep: &str) -> (r: String)
    ensures
        r@ == joined(views(parts@), sep@),
{
    let mut out = String::new();
    let ghost all = views(parts@);
    let mut i: usize = 0;
    while i < parts.len()
        invariant
            i <= parts.len(),
            all == views(parts@),
            out@ == joined(all.take(i as int), sep@),
        decreases parts.len() - i,
    {
        proof {
            assert(all.take(i + 1).drop_last() =~= all.take(i as int));
            assert(all.take(i + 1).last() == parts@[i as int]@);
        }
        if i > 0 {
            out.append(sep);
        }
        out.append(parts[i].as_str());
        proof {
            if i == 0 {
                assert(out@ =~= all.take(1)[0]);
            }
        }
        i = i + 1;
    }
    assert(all.take(parts.len() as int) =~= all);
    out
}

/// The condition that all clauses hold; none where there are no clauses.
pub open spec fn where_text(clauses: Seq<Seq<char>>) -> Seq<char> {
    if clauses.len() == 0 {
        Seq::empty()
    } else {
        "WHERE "@ + joined(clauses, " AND "@)
    }
}

/// Conditions, with the values of their placeholders.
pub struct Filter {
    /// The conditions.
    pub clauses: Vec<String>,
    /// The values.
    pub params: Vec<SqlValue>,
}

impl Filter {
    /// Whether the filter has just the given conditions and values.
    pub open spec fn is(&self, clauses: Seq<Seq<char>>, values: Seq<SqlArg>) -> bool {
        views(self.clauses@) == clauses && args(self.params@) == values
    }

    /// No condition.
    pub fn new() -> (r: Self)
        ensures
            r.is(Seq::empty(), Seq::empty()),
    {
        let r = Filter { clauses: Vec::new(), params: Vec::new() };
        assert(views(r.clauses@) =~= Seq::empty());
        assert(args(r.params@) =~= Seq::empty());
        r
    }

    /// One condition more, without a value.
    pub fn plain(&mut self, clause: &str)
        ensures
            views(final(self).clauses@) == views(old(self).clauses@).push(clause@),
            final(self).params@ == old(self).params@,
    {
        self.clauses.push(clause.to_owned());
        assert(views(self.clauses@) =~= views(old(self).clauses@).push(clause@));
    }

    /// One condition more, with its value.
    pub fn bound(&mut self, clause: &str, value: SqlValue)
        ensures
            views(final(self).clauses@) == views(old(self).clauses@).push(clause@),
            args(final(self).params@) == args(old(self).params@).push(value@),
    {
        self.clauses.push(clause.to_owned());
        self.params.push(value);
        assert(views(self.clauses@) =~= views(old(self).clauses@).push(clause@));
        assert(args(self.params@) =~= args(old(self).params@).push(value@));
    }

    /// One condition more, on a number, where the number is given.
    pub fn maybe(&mut self, clause: &str, value: Option<i64>)
        ensures
            views(final(self).clauses@) == views(old(self).clauses@) + opt_clause(clause@, value),
            args(final(self).params@) == args(old(self).params@) + opt_arg(value),
    {
        if let Some(v) = value {
            self.bound(clause, SqlValue::Int(v));
        }
        assert(views(self.clauses@) =~= views(old(self).clauses@) + opt_clause(clause@, value));
        assert(args(self.params@) =~= args(old(self).params@) + opt_arg(value));
    }

    /// The text of the condition that all clauses hold.
    pub fn text(&self) -> (r: String)
        ensures
            r@ == where_text(views(self.clauses@)),
    {
        if self.clauses.len() == 0 {
            String::new()
        } else {
            concat2("WHERE ", join(&self.clauses, " AND ").as_str())
        }
    }
}

/// A clause, where its value is given.
pub open spec fn opt_clause(clause: Seq<char>, value: Option<i64>) -> Seq<Seq<char>> {
    if value is Some {
        seq![clause]
    } else {
        Seq::empty()
    }
}

/// The value of a clause, where it is given.
pub open spec fn opt_arg(value: Option<i64>) -> Seq<SqlArg> {
    match value {
        Some(v) => seq![SqlArg::Int(v)],
        None => Seq::empty(),
    }
}

/// The conditions on the time of a message.
pub open spec fn time_clauses(since: Option<i64>, until: Option<i64>) -> Seq<Seq<char>> {
    opt_clause("create_time >= ?"@, since) + opt_clause("create_time <= ?"@, until)
}

/// The values of the conditions on the time of a message.
pub open spec fn time_args(since: Option<i64>, until: Option<i64>) -> Seq<SqlArg> {
    opt_arg(since) + opt_arg(until)
}

/// A character with a backslash before it, where it means something in a LIKE pattern.
pub open spec fn escaped_char(c: char) -> Seq<char> {
    if c == '\\' || c == '%' || c == '_' {
        seq!['\\', c]
    } else {
        seq![c]
    }
}

/// A text as a LIKE pattern that matches just this text.
pub open spec fn escaped(s: Seq<char>) -> Seq<char>
    decreases s.len(),
{
    if s.len() == 0 {
        Seq::empty()
    } else {
        escaped(s.drop_last()) + escaped_char(s.last())
    }
}

/// A text as a LIKE pattern that matches just this text, with the backslash as escape character.
pub fn escape_like_pattern(s: &str) -> (r: String)
    ensures
        r@ == escaped(s@),
{
    let v = chars_of(s);
    let mut out = String::new();
    let mut i: usize = 0;
    while i < v.len()
        invariant
            i <= v.len(),
            v@ == s@,
            out@ == escaped(s@.take(i as int)),
        decreases v.len() - i,
    {
        let c = v[i];
        let ghost before = out@;
        if c == '\\' || c == '%' || c == '_' {
            out.push('\\');
        }
        out.push(c);
        proof {
            assert(s@.take(i + 1).drop_last() =~= s@.take(i as int));
            assert(out@ =~= before + escaped_char(c));
        }
        i = i + 1;
    }
    assert(s@.take(v.len() as int) =~= s@);
    out
}

/// What a LIKE pattern without wild cards matches, with the backslash as escape character; nothing
/// where it has a wild card or ends within an escape.
pub open spec fn matched_literally(p: Seq<char>) -> Option<Seq<char>>
    decreases p.len(),
{
    if p.len() == 0 {
        Some(Seq::empty())
    } else if p[0] == '\\' {
        if p.len() < 2 {
            None
        } else {
            match matched_literally(p.skip(2)) {
                Some(rest) => Some(seq![p[1]] + rest),
                None => None,
            }
        }
    } else if p[0] == '%' || p[0] == '_' {
        None
    } else {
        match matched_literally(p.skip(1)) {
            Some(rest) => Some(seq![p[0]] + rest),
            None => None,
        }
    }
}

/// An escaped text has no wild card and matches the text itself.
pub proof fn law_escaped_matches_itself(s: Seq<char>)
    ensures
        matched_literally(escaped(s)) == Some(s),
{
    lemma_escaped_then(s, Seq::empty());
    assert(escaped(s) + Seq::<char>::empty() =~= escaped(s));
    assert(s + Seq::<char>::empty() =~= s);
}

proof fn lemma_escaped_then(s: Seq<char>, tail: Seq<char>)
    requires
        matched_literally(tail) is Some,
    ensures
        matched_literally(escaped(s) + tail) == Some(s + matched_literally(tail)->0),
    decreases s.len(),
{
    if s.len() == 0 {
        assert(escaped(s) + tail =~= tail);
        assert(s + matched_literally(tail)->0 =~= matched_literally(tail)->0);
    } else {
        let c = s.last();
        let t = escaped_char(c) + tail;
        if c == '\\' || c == '%' || c == '_' {
            assert(t.skip(2) =~= tail);
        } else {
            assert(t.skip(1) =~= tail);
        }
        assert(matched_literally(t) == Some(seq![c] + matched_literally(tail)->0));
        lemma_escaped_then(s.drop_last(), t);
        assert(escaped(s) + tail =~= escaped(s.drop_last()) + t);
        assert(s + matched_literally(tail)->0 =~= s.drop_last() + (seq![c] + matched_literally(
            tail,
        )->0));
    }
}

/// A LIKE pattern for all texts that hold `s`.
pub open spec fn like(s: Seq<char>) -> Seq<char> {
    "%"@ + escaped(s) + "%"@
}

/// A LIKE pattern for all texts that hold `s`.
pub fn like_pattern(s: &str) -> (r: String)
    ensures
        r@ == like(s@),
{
    concat3("%", escape_like_pattern(s).as_str(), "%")
}

/// The columns of a message.
pub open spec fn message_columns() -> Seq<char> {
    "SELECT local_id, local_type, create_time, real_sender_id, message_content, WCDB_CT_message_content FROM ["@
}

const MESSAGE_COLUMNS: &'static str =
    "SELECT local_id, local_type, create_time, real_sender_id, message_content, WCDB_CT_message_content FROM [";

/// The statement for the newest messages of a table.
pub fn messages_sql(
    table: &str,
    since: Option<i64>,
    until: Option<i64>,
    msg_type: Option<i64>,
    limit: usize,
    offset: usize,
) -> (r: Sql)
    ensures
        is_sql(
            r,
            message_columns() + table@ + "] "@ + where_text(
                time_clauses(since, until) + opt_clause("local_type = ?"@, msg_type),
            ) + " ORDER BY create_time DESC LIMIT ? OFFSET ?"@,
            time_args(since, until) + opt_arg(msg_type) + seq![
                SqlArg::Int(limit as i64),
                SqlArg::Int(offset as i64),
            ],
        ),
{
    let mut f = Filter::new();
    f.maybe("create_time >= ?", since);
    f.maybe("create_time <= ?", until);
    f.maybe("local_type = ?", msg_type);
    let mut text = concat3(MESSAGE_COLUMNS, table, "] ");
    text.append(f.text().as_str());
    text.append(" ORDER BY create_time DESC LIMIT ? OFFSET ?");
    proof {
        assert(views(f.clauses@) =~= time_clauses(since, until) + opt_clause(
            "local_type = ?"@,
            msg_type,
        ));
    }
    let mut params = f.params;
    let ghost before = args(params@);
    params.push(SqlValue::Int(limit as i64));
    params.push(SqlValue::Int(offset as i64));
    assert(args(params@) =~= before + seq![
        SqlArg::Int(limit as i64),
        SqlArg::Int(offset as i64),
    ]);
    assert(before =~= time_args(since, until) + opt_arg(msg_type));
    Sql { text, params }
}

/// The statement for the messages of a table that hold a keyword, the newest first.
pub fn search_sql(
    table: &str,
    keyword: &str,
    since: Option<i64>,
    until: Option<i64>,
    msg_type: Option<i64>,
    limit: usize,
) -> (r: Sql)
    ensures
        is_sql(
            r,
            message_columns() + table@ + "] "@ + where_text(
                seq!["message_content LIKE ? ESCAPE '\\'"@] + time_clauses(since, until)
                    + opt_clause("local_type = ?"@, msg_type),
            ) + " ORDER BY create_time DESC LIMIT ?"@,
            seq![SqlArg::Text(like(keyword@))] + time_args(since, until) + opt_arg(msg_type)
                + seq![SqlArg::Int(limit as i64)],
        ),
{
    let mut f = Filter::new();
    f.bound("message_content LIKE ? ESCAPE '\\'", SqlValue::Text(like_pattern(keyword)));
    f.maybe("create_time >= ?", since);
    f.maybe("create_time <= ?", until);
    f.maybe("local_type = ?", msg_type);
    let mut text = concat3(MESSAGE_COLUMNS, table, "] ");
    text.append(f.text().as_str());
    text.append(" ORDER BY create_time DESC LIMIT ?");
    proof {
        assert(views(f.clauses@) =~= seq!["message_content LIKE ? ESCAPE '\\'"@] + time_clauses(
            since,
            until,
        ) + opt_clause("local_type = ?"@, msg_type));
        assert(args(f.params@) =~= seq![SqlArg::Text(like(keyword@))] + time_args(since, until)
            + opt_arg(msg_type));
    }
    let mut params = f.params;
    let ghost before = args(params@);
    params.push(SqlValue::Int(limit as i64));
    assert(args(params@) =~= before + seq![SqlArg::Int(limit as i64)]);
    Sql { text, params }
}

/// The statement for the oldest messages of a table after a time.
pub fn new_messages_sql(table: &str, since: i64, limit: usize) -> (r: Sql)
    ensures
        is_sql(
            r,
            message_columns() + table@
                + "] WHERE create_time > ? ORDER BY create_time ASC LIMIT ?"@,
            seq![SqlArg::Int(since), SqlArg::Int(limit as i64)],
        ),
{
    let text = concat3(
        MESSAGE_COLUMNS,
        table,
        "] WHERE create_time > ? ORDER BY create_time ASC LIMIT ?",
    );
    let mut params: Vec<SqlValue> = Vec::new();
    params.push(SqlValue::Int(since));
    params.push(SqlValue::Int(limit as i64));
    assert(args(params@) =~= seq![SqlArg::Int(since), SqlArg::Int(limit as i64)]);
    Sql { text, params }
}

/// The columns of a chat.
pub open spec fn session_columns() -> Seq<char> {
    "SELECT username, unread_count, summary, last_timestamp, last_msg_type, last_msg_sender, last_sender_display_name FROM SessionTable WHERE "@
}

const SESSION_COLUMNS: &'static str =
    "SELECT username, unread_count, summary, last_timestamp, last_msg_type, last_msg_sender, last_sender_display_name FROM SessionTable WHERE ";

/// The statement for the chats with the newest messages.
pub fn sessions_sql(limit: usize) -> (r: Sql)
    ensures
        is_sql(
            r,
            session_columns() + "last_timestamp > 0 ORDER BY last_timestamp DESC LIMIT ?"@,
            seq![SqlArg::Int(limit as i64)],
        ),
{
    let text = concat2(
        SESSION_COLUMNS,
        "last_timestamp > 0 ORDER BY last_timestamp DESC LIMIT ?",
    );
    let mut params: Vec<SqlValue> = Vec::new();
    params.push(SqlValue::Int(limit as i64));
    assert(args(params@) =~= seq![SqlArg::Int(limit as i64)]);
    Sql { text, params }
}

/// The statement for the chats with unread messages: all of them where they are still to be
/// filtered by their type, else the newest.
pub fn unread_sql(filtered: bool, limit: usize) -> (r: Sql)
    ensures
        filtered ==> is_sql(
            r,
            session_columns() + "unread_count > 0 ORDER BY last_timestamp DESC"@,
            Seq::empty(),
        ),
        !filtered ==> is_sql(
            r,
            session_columns() + "unread_count > 0 ORDER BY last_timestamp DESC LIMIT ?"@,
            seq![SqlArg::Int(limit as i64)],
        ),
{
    let mut params: Vec<SqlValue> = Vec::new();
    if filtered {
        assert(args(params@) =~= Seq::empty());
        Sql {
            text: concat2(SESSION_COLUMNS, "unread_count > 0 ORDER BY last_timestamp DESC"),
            params,
        }
    } else {
        params.push(SqlValue::Int(limit as i64));
        assert(args(params@) =~= seq![SqlArg::Int(limit as i64)]);
        Sql {
            text: concat2(SESSION_COLUMNS, "unread_count > 0 ORDER BY last_timestamp DESC LIMIT ?"),
            params,
        }
    }
}

/// The conditions on a favourite.
pub open spec fn favorite_clauses(fav_type: Option<i64>, query: Option<Seq<char>>) -> Seq<
    Seq<char>,
> {
    opt_clause("type = ?"@, fav_type) + (if query is Some {
        seq!["content LIKE ? ESCAPE '\\'"@]
    } else {
        Seq::empty()
    })
}

/// The values of the conditions on a favourite.
pub open spec fn favorite_args(fav_type: Option<i64>, query: Option<Seq<char>>) -> Seq<SqlArg> {
    opt_arg(fav_type) + (match query {
        Some(q) => seq![SqlArg::Text(like(q))],
        None => Seq::empty(),
    })
}

/// The statement for the newest favourites.
pub fn favorites_sql(fav_type: Option<i64>, query: Option<&str>, limit: usize) -> (r: Sql)
    ensures
        ({
            let q = match query {
                Some(q) => Some(q@),
                None => None,
            };
            is_sql(
                r,
                "SELECT local_id, type, update_time, content, fromusr, realchatname FROM fav_db_item "@
                    + where_text(favorite_clauses(fav_type, q))
                    + " ORDER BY update_time DESC LIMIT ?"@,
                favorite_args(fav_type, q) + seq![SqlArg::Int(limit as i64)],
            )
        }),
{
    let ghost q = match query {
        Some(q) => Some(q@),
        None => None,
    };
    let mut f = Filter::new();
    f.maybe("type = ?", fav_type);
    if let Some(q) = query {
        f.bound("content LIKE ? ESCAPE '\\'", SqlValue::Text(like_pattern(q)));
    }
    assert(views(f.clauses@) =~= favorite_clauses(fav_type, q));
    assert(args(f.params@) =~= favorite_args(fav_type, q));
    let text = concat3(
        "SELECT local_id, type, update_time, content, fromusr, realchatname FROM fav_db_item ",
        f.text().as_str(),
        " ORDER BY update_time DESC LIMIT ?",
    );
    let mut params = f.params;
    let ghost before = args(params@);
    params.push(SqlValue::Int(limit as i64));
    assert(args(params@) =~= before + seq![SqlArg::Int(limit as i64)]);
    Sql { text, params }
}

/// The conditions on a notification.
pub open spec fn notice_clauses(
    include_read: bool,
    since: Option<i64>,
    until: Option<i64>,
) -> Seq<Seq<char>> {
    (if include_read {
        Seq::empty()
    } else {
        seq!["is_unread = 1"@]
    }) + time_clauses(since, until)
}

/// The statement for the newest notifications.
pub fn notifications_sql(
    include_read: bool,
    since: Option<i64>,
    until: Option<i64>,
    limit: usize,
) -> (r: Sql)
    ensures
        is_sql(
            r,
            "SELECT local_id, create_time, type, feed_id, from_username, from_nickname, content FROM SnsMessage_tmp3 "@
                + where_text(notice_clauses(include_read, since, until))
                + " ORDER BY create_time DESC LIMIT ?"@,
            time_args(since, until) + seq![SqlArg::Int(limit as i64)],
        ),
{
    let mut f = Filter::new();
    if !include_read {
        f.plain("is_unread = 1");
    }
    f.maybe("create_time >= ?", since);
    f.maybe("create_time <= ?", until);
    assert(views(f.clauses@) =~= notice_clauses(include_read, since, until));
    assert(args(f.params@) =~= time_args(since, until));
    let text = concat3(
        "SELECT local_id, create_time, type, feed_id, from_username, from_nickname, content FROM SnsMessage_tmp3 ",
        f.text().as_str(),
        " ORDER BY create_time DESC LIMIT ?",
    );
    let mut params = f.params;
    let ghost before = args(params@);
    params.push(SqlValue::Int(limit as i64));
    assert(args(params@) =~= before + seq![SqlArg::Int(limit as i64)]);
    Sql { text, params }
}

/// The statement for the posts with the given numbers.
pub fn feeds_sql(ids: &Vec<i64>) -> (r: Sql)
    ensures
        is_sql(
            r,
            "SELECT tid, user_name, content FROM SnsTimeLine WHERE tid IN ("@ + joined(
                Seq::new(ids@.len(), |i: int| "?"@),
                ","@,
            ) + ")"@,
            ids@.map_values(|i: i64| SqlArg::Int(i)),
        ),
{
    let mut marks: Vec<String> = Vec::new();
    let mut params: Vec<SqlValue> = Vec::new();
    let mut i: usize = 0;
    while i < ids.len()
        invariant
            i <= ids.len(),
            marks.len() == i,
            params.len() == i,
            forall|j: int| 0 <= j < i ==> (#[trigger] marks@[j])@ == "?"@,
            forall|j: int| 0 <= j < i ==> (#[trigger] params@[j])@ == SqlArg::Int(ids@[j]),
        decreases ids.len() - i,
    {
        marks.push("?".to_owned());
        params.push(SqlValue::Int(ids[i]));
        i = i + 1;
    }
    assert(views(marks@) =~= Seq::new(ids@.len(), |i: int| "?"@));
    assert(args(params@) =~= ids@.map_values(|i: i64| SqlArg::Int(i)));
    let text = concat3(
        "SELECT tid, user_name, content FROM SnsTimeLine WHERE tid IN (",
        join(&marks, ",").as_str(),
        ")",
    );
    Sql { text, params }
}

/// The statement for the posts that hold a keyword.
pub fn sns_search_sql(keyword: &str) -> (r: Sql)
    ensures
        is_sql(
            r,
            "SELECT tid, user_name, content FROM SnsTimeLine WHERE content LIKE ? ESCAPE '\\' ORDER BY tid DESC"@,
            seq![SqlArg::Text(like(keyword@))],
        ),
{
    let mut params: Vec<SqlValue> = Vec::new();
    params.push(SqlValue::Text(like_pattern(keyword)));
    assert(args(params@) =~= seq![SqlArg::Text(like(keyword@))]);
    Sql {
        text: "SELECT tid, user_name, content FROM SnsTimeLine WHERE content LIKE ? ESCAPE '\\' ORDER BY tid DESC".to_owned(),
        params,
    }
}

/// The statements for the statistics of one table.
pub struct StatsSql {
    /// How many messages there are.
    pub count: String,
    /// How many of each kind.
    pub kinds: String,
    /// The time of each.
    pub times: String,
    /// How many of each sender.
    pub senders: String,
    /// The values of the placeholders, the same in all four.
    pub params: Vec<SqlValue>,
}

/// The condition on messages that have a sender.
pub open spec fn sender_where(clauses: Seq<Seq<char>>) -> Seq<char> {
    if clauses.len() == 0 {
        "WHERE real_sender_id > 0"@
    } else {
        where_text(clauses) + " AND real_sender_id > 0"@
    }
}

/// The statements for the statistics of one table.
pub fn stats_sql(table: &str, since: Option<i64>, until: Option<i64>) -> (r: StatsSql)
    ensures
        ({
            let cond = "] "@ + where_text(time_clauses(since, until));
            &&& r.count@ == "SELECT COUNT(*) FROM ["@ + table@ + cond
            &&& r.kinds@ == "SELECT (local_type & 0xFFFFFFFF), COUNT(*) FROM ["@ + table@ + cond
                + " GROUP BY (local_type & 0xFFFFFFFF)"@
            &&& r.times@ == "SELECT create_time FROM ["@ + table@ + cond
            &&& r.senders@ == "SELECT real_sender_id, COUNT(*) FROM ["@ + table@ + "] "@
                + sender_where(time_clauses(since, until)) + " GROUP BY real_sender_id"@
            &&& args(r.params@) == time_args(since, until)
        }),
{
    let mut f = Filter::new();
    f.maybe("create_time >= ?", since);
    f.maybe("create_time <= ?", until);
    assert(views(f.clauses@) =~= time_clauses(since, until));
    assert(args(f.params@) =~= time_args(since, until));
    let cond = concat2("] ", f.text().as_str());
    let sender_cond = if f.clauses.len() == 0 {
        "WHERE real_sender_id > 0".to_owned()
    } else {
        concat2(f.text().as_str(), " AND real_sender_id > 0")
    };
    let count = concat3("SELECT COUNT(*) FROM [", table, cond.as_str());
    let mut kinds = concat3(
        "SELECT (local_type & 0xFFFFFFFF), COUNT(*) FROM [",
        table,
        cond.as_str(),
    );
    kinds.append(" GROUP BY (local_type & 0xFFFFFFFF)");
    let times = concat3("SELECT create_time FROM [", table, cond.as_str());
    let mut senders = concat3("SELECT real_sender_id, COUNT(*) FROM [", table, "] ");
    senders.append(sender_cond.as_str());
    senders.append(" GROUP BY real_sender_id");
    StatsSql { count, kinds, times, senders, params: f.params }
}

/// The statement for the time of the newest message of a table.
pub fn newest_sql(table: &str) -> (r: String)
    ensures
        r@ == "SELECT MAX(create_time) FROM ["@ + table@ + "]"@,
{
    concat3("SELECT MAX(create_time) FROM [", table, "]")
}

/// The statement for the senders of a table.
pub fn senders_sql(table: &str) -> (r: String)
    ensures
        r@ == "SELECT DISTINCT real_sender_id FROM ["@ + table@ + "] WHERE real_sender_id > 0"@,
{
    concat3("SELECT DISTINCT real_sender_id FROM [", table, "] WHERE real_sender_id > 0")
}

/// The statement for the contacts.
pub const CONTACTS_SQL: &'static str =
    "SELECT username, nick_name, remark, verify_flag FROM contact";

/// The statement for the user names of the senders.
pub const SENDER_NAMES_SQL: &'static str = "SELECT rowid, user_name FROM Name2Id";

/// The statement for the tables of messages.
pub const TABLES_SQL: &'static str =
    "SELECT name FROM sqlite_master WHERE type='table' AND name LIKE 'Msg_%'";

/// The statement that tells whether there is a table of some name.
pub const TABLE_EXISTS_SQL: &'static str =
    "SELECT 1 FROM sqlite_master WHERE type='table' AND name=?";

/// The statement for the time of the newest message of each chat.
pub const SNAPSHOT_SQL: &'static str =
    "SELECT username, last_timestamp FROM SessionTable WHERE last_timestamp > 0";

/// The statement for the chats that are watched.
pub const WATCHED_SQL: &'static str =
    "SELECT username, summary, last_timestamp, last_msg_type, last_msg_sender FROM SessionTable WHERE last_timestamp > 0 ORDER BY last_timestamp DESC LIMIT 50";

/// The statement for all posts.
pub const POSTS_SQL: &'static str =
    "SELECT tid, user_name, content FROM SnsTimeLine ORDER BY tid DESC";

/// The statement for the number and the owner of a group.
pub const ROOM_BY_USERNAME_SQL: &'static str =
    "SELECT id, owner FROM chat_room WHERE username = ?";

/// The same, for another version of the table.
pub const ROOM_BY_ROOM_NAME_SQL: &'static str =
    "SELECT id, owner FROM chat_room WHERE chat_room_name = ?";

/// The same, for another version of the table.
pub const ROOM_BY_NAME_SQL: &'static str = "SELECT id, owner FROM chat_room WHERE name = ?";

/// The statements for the number and the owner of a group, in the order in which they are tried:
/// the first that gives a row counts.
pub fn room_statements() -> (r: [&'static str; 3])
    ensures
        r@ == seq![ROOM_BY_USERNAME_SQL, ROOM_BY_ROOM_NAME_SQL, ROOM_BY_NAME_SQL],
{
    let r = [ROOM_BY_USERNAME_SQL, ROOM_BY_ROOM_NAME_SQL, ROOM_BY_NAME_SQL];
    assert(r@ =~= seq![ROOM_BY_USERNAME_SQL, ROOM_BY_ROOM_NAME_SQL, ROOM_BY_NAME_SQL]);
    r
}

/// The statement for the members of a group.
pub const MEMBERS_SQL: &'static str =
    "SELECT c.username, c.nick_name, c.remark FROM chatroom_member cm LEFT JOIN contact c ON c.id = cm.member_id WHERE cm.room_id = ?";

} // verus!
