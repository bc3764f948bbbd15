use std::collections::HashMap;
use vstd::prelude::*;

use crate::content::{
    content_text, decompress_message, fmt_content, fmt_type, message_text, sender_label,
    sender_shown, type_label,
};
use crate::names::{chat_type, chat_type_of, is_chatroom, resolve_username, resolves, Names};
use crate::content::shown_name;
use crate::order::{
    all_of, capped, first_of, in_order, law_cap, law_order_unique, law_sorted_in_order,
    lemma_all_of_push, lemma_order_exists, order_of, orders, precedes, sort_by_keys, sorted_by,
    Descending,
};
use crate::outside::zstd_decoded;
use crate::strmap::StrMap;
use crate::text::{concat2, concat3, same};
use crate::time::{fmt_time, shows_time, LONG_TIME};

verus! {

/// Why a query has no answer.
#[derive(Debug)]
pub enum QueryError {
    /// No contact has the name that was given.
    UnknownContact(String),
    /// There are no messages of the chat with this display name.
    NoMessages(String),
    /// The chat with this display name is no group.
    NotAGroup(String),
    /// The keyword is empty.
    EmptyKeyword,
    /// The database of the chats cannot be read.
    NoSessions,
    /// The database of the favourites cannot be read.
    NoFavorites,
    /// The database of the posts cannot be read.
    NoPosts,
}

impl QueryError {
    /// What is reported of it.
    pub open spec fn text(&self) -> Seq<char> {
        match self {
            QueryError::UnknownContact(c) => "找不到联系人: "@ + c@,
            QueryError::NoMessages(d) => "找不到 "@ + d@ + " 的消息记录"@,
            QueryError::NotAGroup(d) => "'"@ + d@ + "' 不是群聊，无法查看群成员"@,
            QueryError::EmptyKeyword => "搜索关键词不能为空"@,
            QueryError::NoSessions => "无法解密 session.db"@,
            QueryError::NoFavorites => "找不到 favorite.db，请确认微信数据目录"@,
            QueryError::NoPosts => "无法解密 sns.db"@,
        }
    }

    /// What is reported of it.
    pub fn message(&self) -> (r: String)
        ensures
            r@ == self.text(),
    {
        match self {
            QueryError::UnknownContact(c) => concat2("找不到联系人: ", c.as_str()),
            QueryError::NoMessages(d) => concat3("找不到 ", d.as_str(), " 的消息记录"),
            QueryError::NotAGroup(d) => concat3("'", d.as_str(), "' 不是群聊，无法查看群成员"),
            QueryError::EmptyKeyword => "搜索关键词不能为空".to_owned(),
            QueryError::NoSessions => "无法解密 session.db".to_owned(),
            QueryError::NoFavorites => "找不到 favorite.db，请确认微信数据目录".to_owned(),
            QueryError::NoPosts => "无法解密 sns.db".to_owned(),
        }
    }
}

/// A chat that a query is about.
pub struct Chat {
    /// The user name.
    pub username: String,
    /// The display name.
    pub display: String,
    /// The type of the chat.
    pub chat_type: &'static str,
    /// Whether it is a group.
    pub is_group: bool,
}

impl Chat {
    /// Whether this is the chat of a user name.
    pub open spec fn of(&self, names: Names, username: Seq<char>) -> bool {
        &&& self.username@ == username
        &&& self.display@ == shown_name(names.map@, username)
        &&& self.chat_type@ == chat_type(username, names.verified(username))
        &&& self.is_group == is_chatroom(username)
    }
}

/// A chat is of the type `group` just when its user name is that of a group.
pub proof fn law_group_type(username: Seq<char>, verified: bool)
    ensures
        chat_type(username, verified) == "group"@ <==> is_chatroom(username),
{
    reveal_strlit("group");
    reveal_strlit("folded");
    reveal_strlit("official_account");
    reveal_strlit("private");
    assert("group"@.len() == 5);
    assert("folded"@.len() == 6);
    assert("official_account"@.len() == 16);
    assert("private"@.len() == 7);
}

/// The chat of a user name.
pub fn chat_of(names: &Names, username: &str) -> (r: Chat)
    ensures
        r.of(*names, username@),
{
    let chat_type = chat_type_of(username, names);
    let is_group = same(chat_type, "group");
    proof {
        law_group_type(username@, names.verified(username@));
    }
    Chat { username: username.to_owned(), display: names.display(username), chat_type, is_group }
}

/// The chat that a name means.
pub fn find_chat(names: &Names, name: &str) -> (r: Result<Chat, QueryError>)
    ensures
        match r {
            Ok(c) => resolves(names.map@, name@, Some(c.username@)) && c.of(
                *names,
                c.username@,
            ),
            Err(QueryError::UnknownContact(n)) => resolves(names.map@, name@, None) && n@ == name@,
            Err(_) => false,
        },
{
    match resolve_username(name, names) {
        Some(u) => Ok(chat_of(names, u.as_str())),
        None => Err(QueryError::UnknownContact(name.to_owned())),
    }
}

/// A row of a table of messages.
pub struct MessageRow {
    /// The number of the message in its chat.
    pub local_id: i64,
    /// The type of the message.
    pub local_type: i64,
    /// When it was sent.
    pub create_time: i64,
    /// The number of its sender.
    pub real_sender_id: i64,
    /// Its content, compressed or not.
    pub content: Vec<u8>,
    /// Whether the content is compressed: four where it is.
    pub ct: i64,
}

impl MessageRow {
    /// The text of the message.
    pub open spec fn text(&self) -> Seq<char> {
        message_text(self.content@, self.ct, zstd_decoded(self.content@))
    }
}

/// A message as it is listed.
pub struct Message {
    /// When it was sent.
    pub timestamp: i64,
    /// The same as a text.
    pub time: String,
    /// Who sent it; empty where that goes without saying.
    pub sender: String,
    /// What it says.
    pub content: String,
    /// The label of its kind.
    pub kind: String,
    /// Its number in the chat.
    pub local_id: i64,
}

/// Where a message was sent, and what is known of senders.
pub struct Setting<'a> {
    /// The user name of the chat.
    pub username: &'a String,
    /// Whether it is a group.
    pub is_group: bool,
    /// The user names of the senders.
    pub id2u: &'a HashMap<i64, String>,
    /// The display names of the contacts.
    pub names: &'a StrMap<String>,
}

impl Message {
    /// Whether this is what is listed of a row whose text is `text`.
    pub open spec fn tells(&self, row: MessageRow, text: Seq<char>, at: Setting) -> bool {
        &&& self.timestamp == row.create_time
        &&& shows_time(row.create_time, LONG_TIME@, self.time@)
        &&& self.sender@ == sender_shown(
            row.real_sender_id,
            text,
            at.is_group,
            at.username@,
            at.id2u@,
            at.names@,
        )
        &&& self.content@ == content_text(row.local_id, row.local_type, text, at.is_group)
        &&& self.kind@ == type_label(row.local_type)
        &&& self.local_id == row.local_id
    }
}

/// What is listed of a message whose text is `text`.
pub fn message_entry(row: &MessageRow, text: &str, at: &Setting) -> (r: Message)
    ensures
        r.tells(*row, text@, *at),
{
    Message {
        timestamp: row.create_time,
        time: fmt_time(row.create_time, LONG_TIME),
        sender: sender_label(
            row.real_sender_id,
            text,
            at.is_group,
            at.username.as_str(),
            at.id2u,
            at.names,
        ),
        content: fmt_content(row.local_id, row.local_type, text, at.is_group),
        kind: fmt_type(row.local_type),
        local_id: row.local_id,
    }
}

/// Whether `all` lists the messages of some rows, one for each.
pub open spec fn tell_all(all: Seq<Message>, rows: Seq<MessageRow>, at: Setting) -> bool {
    &&& all.len() == rows.len()
    &&& forall|i: int|
        0 <= i < rows.len() ==> (#[trigger] all[i]).tells(rows[i], rows[i].text(), at)
}

/// The messages of some rows, one for each.
pub fn query_messages(rows: &Vec<MessageRow>, at: &Setting) -> (r: Vec<Message>)
    ensures
        tell_all(r@, rows@, *at),
{
    let mut out: Vec<Message> = Vec::new();
    let mut i: usize = 0;
    while i < rows.len()
        invariant
            i <= rows.len(),
            out.len() == i,
            forall|j: int|
                0 <= j < i ==> (#[trigger] out@[j]).tells(rows@[j], rows@[j].text(), *at),
        decreases rows.len() - i,
    {
        let row = &rows[i];
        let text = decompress_message(row.content.as_slice(), row.ct);
        out.push(message_entry(row, text.as_str(), at));
        i = i + 1;
    }
    out
}

/// The user names of senders; of two rows with one number the later counts.
pub open spec fn sender_names(rows: Seq<(i64, String)>) -> Map<i64, String>
    decreases rows.len(),
{
    if rows.len() == 0 {
        Map::empty()
    } else {
        sender_names(rows.drop_last()).insert(rows.last().0, rows.last().1)
    }
}

/// The user names of senders.
pub fn load_id2u(rows: Vec<(i64, String)>) -> (r: HashMap<i64, String>)
    ensures
        r@ == sender_names(rows@),
{
    broadcast use vstd::std_specs::hash::group_hash_axioms;

    let mut map: HashMap<i64, String> = HashMap::new();
    let mut i: usize = 0;
    while i < rows.len()
        invariant
            i <= rows.len(),
            map@ == sender_names(rows@.take(i as int)),
        decreases rows.len() - i,
    {
        broadcast use vstd::std_specs::hash::group_hash_axioms;

        map.insert(rows[i].0, rows[i].1.clone());
        assert(rows@.take(i + 1).drop_last() =~= rows@.take(i as int));
        i = i + 1;
    }
    assert(rows@.take(i as int) =~= rows@);
    map
}

/// Messages from the newest to the oldest; those of one second keep their order.
pub open spec fn newest_first(all: Seq<Message>) -> Seq<Message> {
    sorted_by(all, |m: Message| Descending(m.timestamp))
}

/// Messages from the oldest to the newest; those of one second keep their order.
pub open spec fn oldest_first(all: Seq<Message>) -> Seq<Message> {
    sorted_by(all, |m: Message| m.timestamp)
}

/// The elements from `offset` on, `limit` of them at most.
pub open spec fn window<T>(s: Seq<T>, offset: int, limit: int) -> Seq<T> {
    if s.len() <= offset {
        Seq::empty()
    } else if s.len() - offset <= limit {
        s.skip(offset)
    } else {
        s.subrange(offset, offset + limit)
    }
}

/// A page of messages: counted from the newest, listed from the oldest.
pub open spec fn history_page(all: Seq<Message>, offset: int, limit: int) -> Seq<Message> {
    oldest_first(window(newest_first(all), offset, limit))
}

/// The elements from `offset` on, `limit` of them at most.
pub fn take_window<T>(items: Vec<T>, offset: usize, limit: usize) -> (r: Vec<T>)
    ensures
        r@ == window(items@, offset as int, limit as int),
{
    let mut items = items;
    let ghost all = items@;
    if items.len() <= offset {
        return Vec::new();
    }
    let mut rest = items.split_off(offset);
    assert(rest@ =~= all.skip(offset as int));
    rest.truncate(limit);
    assert(rest@ =~= window(all, offset as int, limit as int));
    rest
}

/// Messages from the newest to the oldest.
pub fn sort_newest_first(all: Vec<Message>) -> (r: Vec<Message>)
    ensures
        r@ == newest_first(all@),
{
    let mut keys: Vec<Descending> = Vec::new();
    let mut i: usize = 0;
    while i < all.len()
        invariant
            i <= all.len(),
            keys.len() == i,
            forall|j: int| 0 <= j < i ==> #[trigger] keys@[j] == Descending(all@[j].timestamp),
        decreases all.len() - i,
    {
        keys.push(Descending(all[i].timestamp));
        i = i + 1;
    }
    assert(keys@ =~= all@.map_values(|m: Message| Descending(m.timestamp)));
    sort_by_keys(all, &keys)
}

/// Messages from the oldest to the newest.
pub fn sort_oldest_first(all: Vec<Message>) -> (r: Vec<Message>)
    ensures
        r@ == oldest_first(all@),
{
    let mut keys: Vec<i64> = Vec::new();
    let mut i: usize = 0;
    while i < all.len()
        invariant
            i <= all.len(),
            keys.len() == i,
            forall|j: int| 0 <= j < i ==> #[trigger] keys@[j] == all@[j].timestamp,
        decreases all.len() - i,
    {
        keys.push(all[i].timestamp);
        i = i + 1;
    }
    assert(keys@ =~= all@.map_values(|m: Message| m.timestamp));
    sort_by_keys(all, &keys)
}

/// A page of the messages of a chat.
pub struct History {
    /// The chat.
    pub chat: Chat,
    /// The number of messages on the page.
    pub count: usize,
    /// The messages.
    pub messages: Vec<Message>,
}

/// How many messages of each table are read for a page: as many as lie before its end.
pub fn history_cap(offset: usize, limit: usize) -> (r: usize)
    requires
        offset + limit <= usize::MAX,
    ensures
        r == offset + limit,
{
    offset + limit
}

/// What was read of one table of messages.
pub struct TableRows {
    /// The rows of the messages.
    pub rows: Vec<MessageRow>,
    /// The user names of the senders in the same database.
    pub id2u: HashMap<i64, String>,
}

/// Whether `all` lists, table by table, the messages of a chat.
pub open spec fn tell_tables(
    all: Seq<Seq<Message>>,
    tables: Seq<TableRows>,
    chat: Chat,
    names: Names,
) -> bool {
    &&& all.len() == tables.len()
    &&& forall|i: int|
        0 <= i < tables.len() ==> tell_all(
            #[trigger] all[i],
            tables[i].rows@,
            Setting {
                username: &chat.username,
                is_group: chat.is_group,
                id2u: &tables[i].id2u,
                names: &names.map,
            },
        )
}

/// A page of the messages of a chat, from what was read of all its tables.
pub fn q_history(
    names: &Names,
    chat: Chat,
    tables: &Vec<TableRows>,
    offset: usize,
    limit: usize,
) -> (r: Result<History, QueryError>)
    ensures
        match r {
            Ok(h) => {
                &&& tables@.len() > 0
                &&& h.chat == chat
                &&& exists|all: Seq<Seq<Message>>| #[trigger]
                    tell_tables(all, tables@, chat, *names) && h.messages@ == history_page(
                        all_of(all),
                        offset as int,
                        limit as int,
                    )
                &&& h.count == h.messages@.len()
            },
            Err(QueryError::NoMessages(d)) => tables@.len() == 0 && d@ == chat.display@,
            Err(_) => false,
        },
{
    if tables.len() == 0 {
        return Err(QueryError::NoMessages(chat.display.clone()));
    }
    let ghost mut listed: Seq<Seq<Message>> = Seq::empty();
    let mut all: Vec<Message> = Vec::new();
    let mut i: usize = 0;
    while i < tables.len()
        invariant
            i <= tables.len(),
            tell_tables(listed, tables@.take(i as int), chat, *names),
            all@ == all_of(listed),
        decreases tables.len() - i,
    {
        let at = Setting {
            username: &chat.username,
            is_group: chat.is_group,
            id2u: &tables[i].id2u,
            names: &names.map,
        };
        let mut messages = query_messages(&tables[i].rows, &at);
        proof {
            lemma_all_of_push(listed, messages@);
            listed = listed.push(messages@);
        }
        all.append(&mut messages);
        i = i + 1;
    }
    assert(tables@.take(i as int) =~= tables@);
    let sorted = sort_newest_first(all);
    let page = take_window(sorted, offset, limit);
    let messages = sort_oldest_first(page);
    Ok(History { chat, count: messages.len(), messages })
}

/// A page lists its messages from the oldest to the newest, and no more of them than it may.
pub proof fn law_page_in_order(all: Seq<Message>, offset: int, limit: int)
    requires
        0 <= offset,
        0 <= limit,
    ensures
        history_page(all, offset, limit).len() <= limit,
        forall|i: int, j: int|
            0 <= i <= j < history_page(all, offset, limit).len() ==> (#[trigger] history_page(
                all,
                offset,
                limit,
            )[i]).timestamp <= (#[trigger] history_page(all, offset, limit)[j]).timestamp,
{
    law_sorted_in_order(
        window(newest_first(all), offset, limit),
        |m: Message| m.timestamp,
    );
}

/// Whether a table lists its messages from the newest to the oldest.
pub open spec fn newest_to_oldest(table: Seq<Message>) -> bool {
    in_order(table, |m: Message| Descending(m.timestamp))
}

/// As many messages of each table as lie before the end of a page are enough for that page, where
/// the tables list the newest messages first.
pub proof fn law_page_from_capped(tables: Seq<Seq<Message>>, cap: int, offset: int, limit: int)
    requires
        0 <= offset,
        0 <= limit,
        offset + limit <= cap,
        forall|i: int| 0 <= i < tables.len() ==> newest_to_oldest(#[trigger] tables[i]),
    ensures
        history_page(all_of(tables), offset, limit) == history_page(
            all_of(capped(tables, cap)),
            offset,
            limit,
        ),
{
    let key = |m: Message| Descending(m.timestamp);
    assert forall|i: int| 0 <= i < tables.len() implies in_order(#[trigger] tables[i], key) by {
        assert(newest_to_oldest(tables[i]));
    }
    law_cap(tables, key, cap, offset + limit);
    let a = newest_first(all_of(tables));
    let b = newest_first(all_of(capped(tables, cap)));
    assert(first_of(a, offset + limit) == first_of(b, offset + limit));
    lemma_window_of_first(a, offset, limit);
    lemma_window_of_first(b, offset, limit);
}

proof fn lemma_window_of_first<T>(s: Seq<T>, offset: int, limit: int)
    requires
        0 <= offset,
        0 <= limit,
    ensures
        window(s, offset, limit) == window(first_of(s, offset + limit), offset, limit),
{
    assert(window(s, offset, limit) =~= window(first_of(s, offset + limit), offset, limit));
}

/// Whether no two messages are of the same second.
pub open spec fn all_differ(all: Seq<Message>) -> bool {
    forall|i: int, j: int|
        0 <= i < j < all.len() ==> (#[trigger] all[i]).timestamp != (#[trigger] all[j]).timestamp
}

/// Whether messages go strictly from the newest to the oldest.
spec fn descends(s: Seq<Message>) -> bool {
    forall|i: int, j: int|
        0 <= i < j < s.len() ==> (#[trigger] s[i]).timestamp > (#[trigger] s[j]).timestamp
}

proof fn lemma_newest_descends(all: Seq<Message>)
    requires
        all_differ(all),
    ensures
        newest_first(all).len() == all.len(),
        descends(newest_first(all)),
{
    let keys = all.map_values(|m: Message| Descending(m.timestamp));
    lemma_order_exists(keys);
    let order = order_of(keys);
    let s = newest_first(all);
    assert forall|i: int, j: int| 0 <= i < j < s.len() implies (#[trigger] s[i]).timestamp > (
    #[trigger] s[j]).timestamp by {
        assert(precedes(keys, order[i], order[j]));
        assert(keys[order[i]] == Descending(all[order[i]].timestamp));
        assert(keys[order[j]] == Descending(all[order[j]].timestamp));
        assert(s[i] == all[order[i]] && s[j] == all[order[j]]);
        if order[i] < order[j] {
            assert(all[order[i]].timestamp != all[order[j]].timestamp);
        } else if order[j] < order[i] {
            assert(all[order[j]].timestamp != all[order[i]].timestamp);
        }
    }
}

proof fn lemma_oldest_reverses(s: Seq<Message>)
    requires
        descends(s),
    ensures
        oldest_first(s) == s.reverse(),
{
    let keys = s.map_values(|m: Message| m.timestamp);
    let n = s.len() as int;
    let back = Seq::new(s.len(), |i: int| n - 1 - i);
    assert(orders(keys, back, 0, n)) by {
        assert forall|k: int| 0 <= k < n implies #[trigger] back.contains(k) by {
            assert(back[n - 1 - k] == k);
        }
        assert forall|i: int, j: int| 0 <= i < j < back.len() implies precedes(
            keys,
            #[trigger] back[i],
            #[trigger] back[j],
        ) by {
            assert(s[back[j]].timestamp > s[back[i]].timestamp);
        }
    }
    lemma_order_exists(keys);
    law_order_unique(keys, back, order_of(keys), 0, n);
    assert(oldest_first(s) =~= s.reverse());
}

proof fn lemma_windows_join<T>(s: Seq<T>, a: int, b: int)
    requires
        0 <= a,
        0 <= b,
    ensures
        window(s, 0, a + b).reverse() == window(s, a, b).reverse() + window(s, 0, a).reverse(),
{
    let long = window(s, 0, a + b);
    let older = window(s, a, b);
    let newer = window(s, 0, a);
    assert(long =~= newer + older);
    assert(long.reverse() =~= older.reverse() + newer.reverse());
}

proof fn lemma_window_descends(s: Seq<Message>, offset: int, limit: int)
    requires
        0 <= offset,
        0 <= limit,
        descends(s),
    ensures
        descends(window(s, offset, limit)),
{
    let w = window(s, offset, limit);
    assert forall|i: int, j: int| 0 <= i < j < w.len() implies (#[trigger] w[i]).timestamp > (
    #[trigger] w[j]).timestamp by {
        assert(w[i] == s[offset + i] && w[j] == s[offset + j]);
    }
}

/// Two pages in a row are one longer page: where no two messages are of the same second, the pages
/// neither overlap nor leave gaps.
pub proof fn law_pages_join(all: Seq<Message>, a: int, b: int)
    requires
        0 <= a,
        0 <= b,
        all_differ(all),
    ensures
        history_page(all, 0, a + b) == history_page(all, a, b) + history_page(all, 0, a),
{
    let s = newest_first(all);
    lemma_newest_descends(all);
    lemma_windows_join(s, a, b);
    lemma_window_descends(s, 0, a + b);
    lemma_window_descends(s, a, b);
    lemma_window_descends(s, 0, a);
    lemma_oldest_reverses(window(s, 0, a + b));
    lemma_oldest_reverses(window(s, a, b));
    lemma_oldest_reverses(window(s, 0, a));
}

/// The same holds where each page is taken from as many messages of each table as lie before its
/// end, and the tables list the newest messages first.
pub proof fn law_pages_join_capped(tables: Seq<Seq<Message>>, a: int, b: int)
    requires
        0 <= a,
        0 <= b,
        all_differ(all_of(tables)),
        forall|i: int| 0 <= i < tables.len() ==> newest_to_oldest(#[trigger] tables[i]),
    ensures
        history_page(all_of(capped(tables, a + b)), 0, a + b) == history_page(
            all_of(capped(tables, a + b)),
            a,
            b,
        ) + history_page(all_of(capped(tables, a)), 0, a),
{
    law_page_from_capped(tables, a + b, 0, a + b);
    law_page_from_capped(tables, a + b, a, b);
    law_page_from_capped(tables, a, 0, a);
    law_pages_join(all_of(tables), a, b);
}

} // verus!
