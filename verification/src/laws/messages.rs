use vstd::prelude::*;

use crate::content::{content_text, sender_shown, type_label};
use crate::laws::order::{law_first_stays_first, law_sorted_elements};
use crate::messages::{
    history_page, newest_first, oldest_first, sender_names, tell_all, tell_tables, window, Chat,
    Message, MessageRow, QueryError, Setting, TableRows,
};
use crate::names::{chat_type, Names};
use crate::order::{law_sorted_in_order, Descending};
use crate::outside::{lossy_text, zstd_decoded};
use crate::time::shows_time;

verus! {

/// A message is listed with what its row says of it.
pub proof fn law_message_listed(m: Message, row: MessageRow, text: Seq<char>, at: Setting)
    requires
        m.tells(row, text, at),
    ensures
        m.timestamp == row.create_time,
        m.local_id == row.local_id,
        m.kind@ == type_label(row.local_type),
        m.content@ == content_text(row.local_id, row.local_type, text, at.is_group),
        m.sender@ == sender_shown(
            row.real_sender_id,
            text,
            at.is_group,
            at.username@,
            at.id2u@,
            at.names@,
        ),
        shows_time(row.create_time, "%Y-%m-%d %H:%M"@, m.time@),
{
}

/// Each row gives one message, and the messages stand in the order of their rows.
pub proof fn law_rows_told(all: Seq<Message>, rows: Seq<MessageRow>, at: Setting, i: int)
    requires
        tell_all(all, rows, at),
        0 <= i < rows.len(),
    ensures
        all.len() == rows.len(),
        all[i].tells(rows[i], rows[i].text(), at),
{
}

/// The messages of each table are told with the senders of that table, and as those of the chat.
pub proof fn law_tables_told(
    all: Seq<Seq<Message>>,
    tables: Seq<TableRows>,
    chat: Chat,
    names: Names,
    k: int,
    i: int,
)
    requires
        tell_tables(all, tables, chat, names),
        0 <= k < tables.len(),
        0 <= i < tables[k].rows@.len(),
    ensures
        all.len() == tables.len(),
        all[k].len() == tables[k].rows@.len(),
        ({
            let row = tables[k].rows@[i];
            &&& all[k][i].timestamp == row.create_time
            &&& all[k][i].content@ == content_text(
                row.local_id,
                row.local_type,
                row.text(),
                chat.is_group,
            )
            &&& all[k][i].sender@ == sender_shown(
                row.real_sender_id,
                row.text(),
                chat.is_group,
                chat.username@,
                tables[k].id2u@,
                names.map@,
            )
        }),
{
    let at = Setting {
        username: &chat.username,
        is_group: chat.is_group,
        id2u: &tables[k].id2u,
        names: &names.map,
    };
    assert(tell_all(all[k], tables[k].rows@, at));
    assert(all[k][i].tells(tables[k].rows@[i], tables[k].rows@[i].text(), at));
}

/// The user name under a number is that of the last row with the number.
pub proof fn law_sender_names(rows: Seq<(i64, String)>, i: int)
    requires
        0 <= i < rows.len(),
        forall|j: int| i < j < rows.len() ==> (#[trigger] rows[j]).0 != rows[i].0,
    ensures
        sender_names(rows).contains_key(rows[i].0),
        sender_names(rows)[rows[i].0] == rows[i].1,
    decreases rows.len(),
{
    let rest = rows.drop_last();
    if i < rest.len() {
        assert(rows[rows.len() - 1].0 != rows[i].0);
        assert forall|j: int| i < j < rest.len() implies (#[trigger] rest[j]).0 != rest[i].0 by {
            assert(rows[j].0 != rows[i].0);
        }
        law_sender_names(rest, i);
    }
}

/// A number that no row has is that of nobody.
pub proof fn law_no_sender_name(rows: Seq<(i64, String)>, id: i64)
    requires
        forall|j: int| 0 <= j < rows.len() ==> (#[trigger] rows[j]).0 != id,
    ensures
        !sender_names(rows).contains_key(id),
    decreases rows.len(),
{
    if rows.len() > 0 {
        let rest = rows.drop_last();
        assert(rows[rows.len() - 1].0 != id);
        assert forall|j: int| 0 <= j < rest.len() implies (#[trigger] rest[j]).0 != id by {
            assert(rows[j].0 != id);
        }
        law_no_sender_name(rest, id);
    }
}

/// A window holds the elements behind those that are passed over, as many as are asked for or as
/// there are.
pub proof fn law_window<T>(s: Seq<T>, offset: int, limit: int)
    requires
        0 <= offset,
        0 <= limit,
    ensures
        window(s, offset, limit).len() == (if s.len() <= offset {
            0
        } else if s.len() - offset < limit {
            s.len() - offset
        } else {
            limit
        }),
        forall|i: int|
            0 <= i < window(s, offset, limit).len() ==> #[trigger] window(s, offset, limit)[i]
                == s[offset + i],
{
}

/// The messages that a page passes over, those on it and those behind it are all messages, and none
/// of a later group is newer than one of an earlier.
pub proof fn law_page_newest(all: Seq<Message>, limit: int, i: int, j: int)
    requires
        0 <= limit,
        0 <= i < history_page(all, 0, limit).len(),
        0 <= j < history_page(all, limit, all.len() as int).len(),
    ensures
        history_page(all, 0, limit).to_multiset().add(
            history_page(all, limit, all.len() as int).to_multiset(),
        ) == all.to_multiset(),
        history_page(all, limit, all.len() as int)[j].timestamp <= history_page(
            all,
            0,
            limit,
        )[i].timestamp,
{
    let n = all.len() as int;
    law_pages_hold_all(all, limit);
    let s = newest_first(all);
    let first = window(s, 0, limit);
    let rest = window(s, limit, n);
    lemma_newest(all);
    let key = |m: Message| m.timestamp;
    law_sorted_elements(first, key);
    law_sorted_elements(rest, key);
    let a = history_page(all, 0, limit)[i];
    let b = history_page(all, limit, n)[j];
    let p = lemma_from(first, oldest_first(first), i);
    let q = lemma_from(rest, oldest_first(rest), j);
    assert(a == s[p]);
    assert(b == s[limit + q]);
}

/// A page and all that is behind it are all messages.
pub proof fn law_pages_hold_all(all: Seq<Message>, limit: int)
    requires
        0 <= limit,
    ensures
        history_page(all, 0, limit).to_multiset().add(
            history_page(all, limit, all.len() as int).to_multiset(),
        ) == all.to_multiset(),
        history_page(all, 0, all.len() as int).to_multiset() == all.to_multiset(),
{
    let n = all.len() as int;
    let s = newest_first(all);
    lemma_newest(all);
    let first = window(s, 0, limit);
    let rest = window(s, limit, n);
    assert(first + rest =~= s);
    vstd::seq_lib::lemma_multiset_commutative(first, rest);
    let key = |m: Message| m.timestamp;
    law_sorted_elements(first, key);
    law_sorted_elements(rest, key);
    assert(window(s, 0, n) =~= s);
    law_sorted_elements(s, key);
}

proof fn lemma_newest(all: Seq<Message>)
    ensures
        newest_first(all).len() == all.len(),
        newest_first(all).to_multiset() == all.to_multiset(),
        forall|i: int, j: int|
            0 <= i <= j < all.len() ==> (#[trigger] newest_first(all)[j]).timestamp <= (
            #[trigger] newest_first(all)[i]).timestamp,
{
    let key = |m: Message| Descending(m.timestamp);
    law_sorted_in_order(all, key);
    law_sorted_elements(all, key);
}

proof fn lemma_from(s: Seq<Message>, t: Seq<Message>, i: int) -> (p: int)
    requires
        s.to_multiset() == t.to_multiset(),
        0 <= i < t.len(),
    ensures
        0 <= p < s.len(),
        s[p] == t[i],
{
    broadcast use vstd::seq_lib::group_to_multiset_ensures;

    assert(t.contains(t[i]));
    assert(t.to_multiset().contains(t[i]));
    assert(s.to_multiset().contains(t[i]));
    assert(s.contains(t[i]));
    choose|p: int| 0 <= p < s.len() && s[p] == t[i]
}

/// How many messages a page holds: as many as are asked for, or as there are behind those that are
/// passed over.
pub proof fn law_page_len(all: Seq<Message>, offset: int, limit: int)
    requires
        0 <= offset,
        0 <= limit,
    ensures
        history_page(all, offset, limit).len() == (if all.len() <= offset {
            0
        } else if all.len() - offset < limit {
            all.len() - offset
        } else {
            limit
        }),
{
    lemma_newest(all);
    law_sorted_in_order(window(newest_first(all), offset, limit), |m: Message| m.timestamp);
}

/// The chat of a user name: its names, and whether it is a group.
pub proof fn law_chat(c: Chat, names: Names, username: Seq<char>)
    requires
        c.of(names, username),
    ensures
        c.username@ == username,
        names.map@.contains_key(username) ==> c.display@ == names.map@[username]@,
        !names.map@.contains_key(username) ==> c.display@ == username,
        c.chat_type@ == chat_type(username, names.verified(username)),
        c.is_group == (c.chat_type@ == "group"@),
{
    crate::messages::law_group_type(username, names.verified(username));
}

/// What is reported of a query without an answer.
pub proof fn law_query_errors(e: QueryError)
    ensures
        match e {
            QueryError::UnknownContact(c) => e.text() == "找不到联系人: "@ + c@,
            QueryError::NoMessages(d) => e.text() == "找不到 "@ + d@ + " 的消息记录"@,
            QueryError::NotAGroup(d) => e.text() == "'"@ + d@ + "' 不是群聊，无法查看群成员"@,
            QueryError::EmptyKeyword => e.text() == "搜索关键词不能为空"@,
            QueryError::NoSessions => e.text() == "无法解密 session.db"@,
            QueryError::NoFavorites => e.text() == "找不到 favorite.db，请确认微信数据目录"@,
            QueryError::NoPosts => e.text() == "无法解密 sns.db"@,
        },
{
}

/// The text of a row is that of its content, which is decompressed where the row says that it is
/// compressed and where that can be done.
pub proof fn law_row_text(row: MessageRow)
    ensures
        row.ct != 4 ==> row.text() == lossy_text(row.content@),
        row.ct == 4 && row.content@.len() > 0 && zstd_decoded(row.content@) is Some ==> row.text()
            == lossy_text(zstd_decoded(row.content@)->0),
        zstd_decoded(row.content@) is None ==> row.text() == lossy_text(row.content@),
{
}

/// Messages of one second keep their order, where the newest come first.
pub proof fn law_newest_keep_order(all: Seq<Message>, p: int, q: int) -> (at: (int, int))
    requires
        0 <= p < q < all.len(),
        all[p].timestamp == all[q].timestamp,
    ensures
        0 <= at.0 < at.1 < newest_first(all).len(),
        newest_first(all)[at.0] == all[p],
        newest_first(all)[at.1] == all[q],
{
    law_first_stays_first(all, |m: Message| Descending(m.timestamp), p, q)
}

/// They do so where the oldest come first.
pub proof fn law_oldest_keep_order(all: Seq<Message>, p: int, q: int) -> (at: (int, int))
    requires
        0 <= p < q < all.len(),
        all[p].timestamp == all[q].timestamp,
    ensures
        0 <= at.0 < at.1 < oldest_first(all).len(),
        oldest_first(all)[at.0] == all[p],
        oldest_first(all)[at.1] == all[q],
{
    law_first_stays_first(all, |m: Message| m.timestamp, p, q)
}

} // verus!
