use vstd::prelude::*;

use crate::content::{content_text, sender_shown, type_label};
use crate::laws::order::{law_ascending, law_first_stays_first, law_sorted_elements};
use crate::names::{is_chatroom, Names};
use crate::new_messages::{
    advanced, is_changed, law_unchanged_state, lists_changed, next_state, oldest_new, per_table,
    seen_until, set_back, snapshot, state_of, tell_changed, tell_new, Changed, ChangedRows,
    NewMessage, SessionTime,
};
use crate::strmap::StrMap;

verus! {

/// A chat that the state does not name counts as seen up to the fallback, as without a state: where
/// it has a newer message it is listed, with the fallback.
pub proof fn law_new_chat_changed(
    changed: Seq<Changed>,
    sessions: Seq<SessionTime>,
    state: Option<Map<Seq<char>, i64>>,
    fallback: i64,
    i: int,
)
    requires
        lists_changed(changed, sessions, state, fallback),
        0 <= i < sessions.len(),
        state matches Some(m) ==> !m.contains_key(sessions[i].username@),
    ensures
        sessions[i].last > fallback ==> exists|k: int|
            0 <= k < changed.len() && (#[trigger] changed[k]).username@ == sessions[i].username@
                && changed[k].since == fallback,
{
    lemma_changed_listed(changed, sessions, state, fallback, i);
}

/// A chat that the state names is listed where it has a newer message than the state says, with
/// what the state says.
pub proof fn law_known_chat_changed(
    changed: Seq<Changed>,
    sessions: Seq<SessionTime>,
    state: Map<Seq<char>, i64>,
    fallback: i64,
    i: int,
)
    requires
        lists_changed(changed, sessions, Some(state), fallback),
        0 <= i < sessions.len(),
        state.contains_key(sessions[i].username@),
    ensures
        sessions[i].last > state[sessions[i].username@] ==> exists|k: int|
            0 <= k < changed.len() && (#[trigger] changed[k]).username@ == sessions[i].username@
                && changed[k].since == state[sessions[i].username@],
{
    lemma_changed_listed(changed, sessions, Some(state), fallback, i);
}

proof fn lemma_changed_listed(
    changed: Seq<Changed>,
    sessions: Seq<SessionTime>,
    state: Option<Map<Seq<char>, i64>>,
    fallback: i64,
    i: int,
)
    requires
        lists_changed(changed, sessions, state, fallback),
        0 <= i < sessions.len(),
    ensures
        is_changed(sessions[i], state, fallback) ==> exists|k: int|
            0 <= k < changed.len() && (#[trigger] changed[k]).username@ == sessions[i].username@
                && changed[k].since == seen_until(state, sessions[i].username@, fallback),
{
    let news = |s: SessionTime| is_changed(s, state, fallback);
    let kept = sessions.filter(news);
    if is_changed(sessions[i], state, fallback) {
        assert(news(sessions[i]));
        sessions.lemma_filter_contains(news, i);
        let k = choose|k: int| 0 <= k < kept.len() && kept[k] == sessions[i];
        assert(changed[k].username@ == kept[k].username@);
    }
}

/// Every chat that is listed has a message newer than what was seen of it: up to what the state
/// says, else up to the fallback.
pub proof fn law_changed_has_news(
    changed: Seq<Changed>,
    sessions: Seq<SessionTime>,
    state: Option<Map<Seq<char>, i64>>,
    fallback: i64,
    k: int,
) -> (i: int)
    requires
        lists_changed(changed, sessions, state, fallback),
        0 <= k < changed.len(),
    ensures
        0 <= i < sessions.len(),
        sessions[i].username@ == changed[k].username@,
        sessions[i].last > changed[k].since,
        match state {
            Some(m) => if m.contains_key(changed[k].username@) {
                changed[k].since == m[changed[k].username@]
            } else {
                changed[k].since == fallback
            },
            None => changed[k].since == fallback,
        },
{
    let news = |s: SessionTime| is_changed(s, state, fallback);
    let kept = sessions.filter(news);
    assert(changed[k].username@ == kept[k].username@);
    sessions.lemma_filter_pred(news, k);
    assert(kept.contains(kept[k]));
    sessions.lemma_filter_contains_rev(news, kept[k]);
    choose|i: int| 0 <= i < sessions.len() && sessions[i] == kept[k]
}

/// Where nothing is newer, nothing has changed: a second request with the times of the chats as its
/// state finds no chat changed.
pub proof fn law_nothing_changed(
    changed: Seq<Changed>,
    sessions: Seq<SessionTime>,
    state: Map<Seq<char>, i64>,
    fallback: i64,
)
    requires
        lists_changed(changed, sessions, Some(state), fallback),
        forall|i: int|
            0 <= i < sessions.len() ==> state.contains_key((#[trigger] sessions[i]).username@)
                && state[sessions[i].username@] >= sessions[i].last,
    ensures
        changed.len() == 0,
{
    if changed.len() > 0 {
        let i = law_changed_has_news(changed, sessions, Some(state), fallback, 0);
        assert(state[sessions[i].username@] >= sessions[i].last);
    }
}

/// At least two hundred messages are taken from each table, and five times as many as are asked
/// for.
pub proof fn law_per_table(limit: int)
    requires
        0 <= limit <= usize::MAX,
    ensures
        limit <= 40 ==> per_table(limit) == 200,
        40 < limit && limit * 5 <= usize::MAX ==> per_table(limit) == limit * 5,
        limit * 5 > usize::MAX ==> per_table(limit) == usize::MAX,
{
}

/// Messages are told from the oldest to the newest, and sorting loses none.
pub proof fn law_oldest_told_first(all: Seq<NewMessage>, i: int, j: int)
    requires
        0 <= i <= j < all.len(),
    ensures
        oldest_new(all).len() == all.len(),
        oldest_new(all).to_multiset() == all.to_multiset(),
        oldest_new(all)[i].message.timestamp <= oldest_new(all)[j].message.timestamp,
{
    let key = |m: NewMessage| m.message.timestamp;
    law_sorted_elements(all, key);
    law_ascending(all, key, i, j);
}

/// The time of a chat is that of its last row.
pub proof fn law_snapshot(sessions: Seq<SessionTime>, i: int)
    requires
        0 <= i < sessions.len(),
        forall|j: int| i < j < sessions.len() ==> (#[trigger] sessions[j]).username@
            != sessions[i].username@,
    ensures
        snapshot(sessions).contains_key(sessions[i].username@),
        snapshot(sessions)[sessions[i].username@] == sessions[i].last,
    decreases sessions.len(),
{
    let rest = sessions.drop_last();
    if i < rest.len() {
        assert(sessions[sessions.len() - 1].username@ != sessions[i].username@);
        assert forall|j: int| i < j < rest.len() implies (#[trigger] rest[j]).username@
            != rest[i].username@ by {
            assert(sessions[j].username@ != sessions[i].username@);
        }
        law_snapshot(rest, i);
    }
}

/// The next state of a chat without news is the time of its last row.
pub proof fn law_next_state_quiet(
    sessions: Seq<SessionTime>,
    changed: Seq<Changed>,
    messages: Seq<NewMessage>,
    i: int,
)
    requires
        0 <= i < sessions.len(),
        forall|j: int| i < j < sessions.len() ==> (#[trigger] sessions[j]).username@
            != sessions[i].username@,
        forall|j: int|
            0 <= j < changed.len() ==> (#[trigger] changed[j]).username@ != sessions[i].username@,
        forall|j: int|
            0 <= j < messages.len() ==> (#[trigger] messages[j]).chat.username@
                != sessions[i].username@,
    ensures
        next_state(sessions, changed, messages).contains_key(sessions[i].username@),
        next_state(sessions, changed, messages)[sessions[i].username@] == sessions[i].last,
{
    law_snapshot(sessions, i);
    law_unchanged_state(sessions, changed, messages, sessions[i].username@);
}

/// The next state of a changed chat: where none of its messages is told, what had been seen before;
/// else the time of the last message of it that is told, where that is newer.
pub proof fn law_next_state_told(
    sessions: Seq<SessionTime>,
    changed: Seq<Changed>,
    messages: Seq<NewMessage>,
    c: int,
)
    requires
        0 <= c < changed.len(),
        forall|j: int|
            0 <= j < changed.len() && j != c ==> (#[trigger] changed[j]).username@
                != changed[c].username@,
    ensures
        ({
            let u = changed[c].username@;
            let next = next_state(sessions, changed, messages);
            &&& next.contains_key(u)
            &&& next[u] >= changed[c].since
            &&& forall|j: int|
                0 <= j < messages.len() && (#[trigger] messages[j]).chat.username@ == u ==> next[u]
                    >= messages[j].message.timestamp
            &&& next[u] == changed[c].since || exists|j: int|
                0 <= j < messages.len() && (#[trigger] messages[j]).chat.username@ == u && next[u]
                    == messages[j].message.timestamp
        }),
{
    let u = changed[c].username@;
    let base = set_back(snapshot(sessions), changed);
    lemma_set_back_to(snapshot(sessions), changed, c);
    lemma_advanced_to(base, messages, u);
}

proof fn lemma_set_back_to(state: Map<Seq<char>, i64>, changed: Seq<Changed>, c: int)
    requires
        0 <= c < changed.len(),
        forall|j: int| c < j < changed.len() ==> (#[trigger] changed[j]).username@
            != changed[c].username@,
    ensures
        set_back(state, changed).contains_key(changed[c].username@),
        set_back(state, changed)[changed[c].username@] == changed[c].since,
    decreases changed.len(),
{
    let rest = changed.drop_last();
    if c < rest.len() {
        assert(changed[changed.len() - 1].username@ != changed[c].username@);
        assert forall|j: int| c < j < rest.len() implies (#[trigger] rest[j]).username@
            != rest[c].username@ by {
            assert(changed[j].username@ != changed[c].username@);
        }
        lemma_set_back_to(state, rest, c);
    }
}

proof fn lemma_advanced_to(state: Map<Seq<char>, i64>, messages: Seq<NewMessage>, u: Seq<char>)
    requires
        state.contains_key(u),
    ensures
        advanced(state, messages).contains_key(u),
        advanced(state, messages)[u] >= state[u],
        forall|j: int|
            0 <= j < messages.len() && (#[trigger] messages[j]).chat.username@ == u ==> advanced(
                state,
                messages,
            )[u] >= messages[j].message.timestamp,
        advanced(state, messages)[u] == state[u] || exists|j: int|
            0 <= j < messages.len() && (#[trigger] messages[j]).chat.username@ == u && advanced(
                state,
                messages,
            )[u] == messages[j].message.timestamp,
    decreases messages.len(),
{
    if messages.len() > 0 {
        let rest = messages.drop_last();
        lemma_advanced_to(state, rest, u);
        let st = advanced(state, rest);
        let next = advanced(state, messages);
        assert forall|j: int|
            0 <= j < messages.len() && (#[trigger] messages[j]).chat.username@ == u implies next[u]
            >= messages[j].message.timestamp by {
            if j < rest.len() {
                assert(rest[j] == messages[j]);
            }
        }
        if next[u] != state[u] {
            if next[u] == st[u] {
                let j = choose|j: int|
                    0 <= j < rest.len() && (#[trigger] rest[j]).chat.username@ == u && st[u]
                        == rest[j].message.timestamp;
                assert(messages[j] == rest[j]);
            } else {
                assert(messages[messages.len() - 1].chat.username@ == u);
            }
        }
    }
}

/// A new message is told with the chat that it is of, one message for each row.
pub proof fn law_new_message_chat(all: Seq<NewMessage>, fetched: ChangedRows, names: Names, i: int)
    requires
        tell_new(all, fetched, names),
        0 <= i < all.len(),
    ensures
        all.len() == fetched.table.rows@.len(),
        all[i].chat.username@ == fetched.username@,
        names.map@.contains_key(fetched.username@) ==> all[i].chat.display@
            == names.map@[fetched.username@]@,
        !names.map@.contains_key(fetched.username@) ==> all[i].chat.display@ == fetched.username@,
        all[i].message.timestamp == fetched.table.rows@[i].create_time,
        all[i].message.local_id == fetched.table.rows@[i].local_id,
        all[i].message.kind@ == type_label(fetched.table.rows@[i].local_type),
        ({
            let row = fetched.table.rows@[i];
            let group = is_chatroom(fetched.username@);
            &&& all[i].message.content@ == content_text(
                row.local_id,
                row.local_type,
                row.text(),
                group,
            )
            &&& all[i].message.sender@ == sender_shown(
                row.real_sender_id,
                row.text(),
                group,
                fetched.username@,
                fetched.table.id2u@,
                names.map@,
            )
        }),
{
    let told = all.map_values(|m: NewMessage| m.message);
    assert(told[i] == all[i].message);
    assert(all[i].chat.of(names, fetched.username@));
}

/// The state of a request is the one that it gives.
pub proof fn law_state_given(state: StrMap<i64>)
    ensures
        state_of(Some(state)) == Some(state@),
        state_of(None) is None,
{
}

/// What was read of each table is told, table by table.
pub proof fn law_tables_told(
    all: Seq<Seq<NewMessage>>,
    fetched: Seq<ChangedRows>,
    names: Names,
    k: int,
)
    requires
        tell_changed(all, fetched, names),
        0 <= k < fetched.len(),
    ensures
        all.len() == fetched.len(),
        all[k].len() == fetched[k].table.rows@.len(),
        tell_new(all[k], fetched[k], names),
{
}

/// New messages of one second keep their order.
pub proof fn law_new_keep_order(all: Seq<NewMessage>, p: int, q: int) -> (at: (int, int))
    requires
        0 <= p < q < all.len(),
        all[p].message.timestamp == all[q].message.timestamp,
    ensures
        0 <= at.0 < at.1 < oldest_new(all).len(),
        oldest_new(all)[at.0] == all[p],
        oldest_new(all)[at.1] == all[q],
{
    law_first_stays_first(all, |m: NewMessage| m.message.timestamp, p, q)
}

} // verus!
