use vstd::prelude::*;

use crate::messages::{
    chat_of, query_messages, tell_all, Chat, Message, Setting, TableRows,
};
use crate::names::{is_chatroom, Names};
use crate::order::{
    all_of, capped, first_of, in_order, law_cap, lemma_all_of_push, lemma_order_exists, order_of,
    precedes, sort_by_keys, sorted_by,
};
use crate::strmap::StrMap;

verus! {

/// A chat with the time of its newest message.
pub struct SessionTime {
    /// The user name of the chat.
    pub username: String,
    /// When its newest message was sent.
    pub last: i64,
}

/// A chat with messages that were not seen before.
pub struct Changed {
    /// The user name of the chat.
    pub username: String,
    /// Up to when its messages have been seen.
    pub since: i64,
}

/// The time from which on messages are new in a chat that was never seen: a day ago.
pub fn fallback_time(now: i64) -> (r: i64)
    requires
        now - 86400 >= i64::MIN,
    ensures
        r == now - 86400,
{
    now - 86400
}

/// Up to when the messages of a chat have been seen.
pub open spec fn seen_until(
    state: Option<Map<Seq<char>, i64>>,
    username: Seq<char>,
    fallback: i64,
) -> i64 {
    if state is Some && state->0.contains_key(username) {
        state->0[username]
    } else {
        fallback
    }
}

/// The map that a state holds.
pub open spec fn state_of(state: Option<StrMap<i64>>) -> Option<Map<Seq<char>, i64>> {
    match state {
        Some(m) => Some(m@),
        None => None,
    }
}

/// Whether a chat has messages that were not seen before.
pub open spec fn is_changed(
    s: SessionTime,
    state: Option<Map<Seq<char>, i64>>,
    fallback: i64,
) -> bool {
    s.last > seen_until(state, s.username@, fallback)
}

/// Whether `changed` lists the chats with messages that were not seen before, in their order.
pub open spec fn lists_changed(
    changed: Seq<Changed>,
    sessions: Seq<SessionTime>,
    state: Option<Map<Seq<char>, i64>>,
    fallback: i64,
) -> bool {
    let kept = sessions.filter(|s: SessionTime| is_changed(s, state, fallback));
    &&& changed.len() == kept.len()
    &&& forall|i: int|
        0 <= i < kept.len() ==> {
            &&& (#[trigger] changed[i]).username@ == kept[i].username@
            &&& changed[i].since == seen_until(state, kept[i].username@, fallback)
        }
}

/// The chats with messages that were not seen before.
pub fn changed_sessions(
    sessions: &Vec<SessionTime>,
    state: &Option<StrMap<i64>>,
    fallback: i64,
) -> (r: Vec<Changed>)
    ensures
        lists_changed(r@, sessions@, state_of(*state), fallback),
{
    let mut out: Vec<Changed> = Vec::new();
    let ghost st = state_of(*state);
    let ghost news = |s: SessionTime| is_changed(s, st, fallback);
    let mut i: usize = 0;
    assert(sessions@.take(0).filter(news) =~= Seq::empty()) by {
        reveal(Seq::filter);
    }
    while i < sessions.len()
        invariant
            i <= sessions.len(),
            st == state_of(*state),
            news == (|s: SessionTime| is_changed(s, st, fallback)),
            lists_changed(out@, sessions@.take(i as int), st, fallback),
        decreases sessions.len() - i,
    {
        let s = &sessions[i];
        let since: i64 = match state {
            Some(m) => match m.get(s.username.as_str()) {
                Some(ts) => *ts,
                None => fallback,
            },
            None => fallback,
        };
        proof {
            reveal(Seq::filter);
            assert(sessions@.take(i + 1).drop_last() =~= sessions@.take(i as int));
            assert(sessions@.take(i + 1).last() == *s);
        }
        if s.last > since {
            out.push(Changed { username: s.username.clone(), since });
        }
        i = i + 1;
    }
    assert(sessions@.take(sessions.len() as int) =~= sessions@);
    out
}

/// How many messages are taken from each table: five times what is asked for, and two hundred at
/// least.
pub open spec fn per_table(limit: int) -> int {
    let five = if limit * 5 > usize::MAX {
        usize::MAX as int
    } else {
        limit * 5
    };
    if five < 200 {
        200
    } else {
        five
    }
}

/// How many messages are taken from each table.
pub fn per_table_limit(limit: usize) -> (r: usize)
    ensures
        r == per_table(limit as int),
        r >= limit,
{
    let five: usize = if limit > usize::MAX / 5 {
        usize::MAX
    } else {
        limit * 5
    };
    if five < 200 {
        200
    } else {
        five
    }
}

/// A new message, with its chat.
pub struct NewMessage {
    /// The chat.
    pub chat: Chat,
    /// The message.
    pub message: Message,
}

/// The new messages of a table, with their chat.
pub fn with_chat(messages: Vec<Message>, chat: &Chat) -> (r: Vec<NewMessage>)
    ensures
        r@.map_values(|m: NewMessage| m.message) == messages@,
        forall|i: int| 0 <= i < r@.len() ==> (#[trigger] r@[i]).chat == *chat,
{
    let ghost all = messages@;
    let mut rest = messages;
    let mut back: Vec<NewMessage> = Vec::new();
    while rest.len() > 0
        invariant
            rest.len() + back.len() == all.len(),
            rest@ == all.take(rest.len() as int),
            forall|i: int|
                0 <= i < back.len() ==> (#[trigger] back@[i]).message == all[all.len() - 1 - i]
                    && back@[i].chat == *chat,
        decreases rest.len(),
    {
        match rest.pop() {
            Some(message) => {
                let chat = Chat {
                    username: chat.username.clone(),
                    display: chat.display.clone(),
                    chat_type: chat.chat_type,
                    is_group: chat.is_group,
                };
                back.push(NewMessage { chat, message });
            },
            None => {},
        }
    }
    let mut out: Vec<NewMessage> = Vec::new();
    while back.len() > 0
        invariant
            back.len() + out.len() == all.len(),
            forall|i: int|
                0 <= i < back.len() ==> (#[trigger] back@[i]).message == all[all.len() - 1 - i]
                    && back@[i].chat == *chat,
            forall|i: int|
                0 <= i < out.len() ==> (#[trigger] out@[i]).message == all[i] && out@[i].chat
                    == *chat,
        decreases back.len(),
    {
        match back.pop() {
            Some(m) => {
                out.push(m);
            },
            None => {},
        }
    }
    assert(out@.map_values(|m: NewMessage| m.message) =~= all);
    out
}

/// New messages from the oldest to the newest; those of one second keep their order.
pub open spec fn oldest_new(all: Seq<NewMessage>) -> Seq<NewMessage> {
    sorted_by(all, |m: NewMessage| m.message.timestamp)
}

/// The time of the newest message of each chat; of two rows for one chat the later counts.
pub open spec fn snapshot(sessions: Seq<SessionTime>) -> Map<Seq<char>, i64>
    decreases sessions.len(),
{
    if sessions.len() == 0 {
        Map::empty()
    } else {
        snapshot(sessions.drop_last()).insert(sessions.last().username@, sessions.last().last)
    }
}

/// A state in which the changed chats stand where they stood before.
pub open spec fn set_back(state: Map<Seq<char>, i64>, changed: Seq<Changed>) -> Map<Seq<char>, i64>
    decreases changed.len(),
{
    if changed.len() == 0 {
        state
    } else {
        set_back(state, changed.drop_last()).insert(changed.last().username@, changed.last().since)
    }
}

/// A state that each of some messages moves forward to its own time.
pub open spec fn advanced(
    state: Map<Seq<char>, i64>,
    messages: Seq<NewMessage>,
) -> Map<Seq<char>, i64>
    decreases messages.len(),
{
    if messages.len() == 0 {
        state
    } else {
        let m = messages.last();
        let st = advanced(state, messages.drop_last());
        let now = if st.contains_key(m.chat.username@) {
            st[m.chat.username@]
        } else {
            0
        };
        st.insert(
            m.chat.username@,
            if m.message.timestamp > now {
                m.message.timestamp
            } else {
                now
            },
        )
    }
}

/// The state after some messages were handed out.
pub open spec fn next_state(
    sessions: Seq<SessionTime>,
    changed: Seq<Changed>,
    messages: Seq<NewMessage>,
) -> Map<Seq<char>, i64> {
    advanced(set_back(snapshot(sessions), changed), messages)
}

/// New messages, with the state that leads to the next.
pub struct NewMessages {
    /// How many messages are listed.
    pub count: usize,
    /// The messages.
    pub messages: Vec<NewMessage>,
    /// Up to when the messages of each chat have been seen.
    pub new_state: StrMap<i64>,
}

/// What was read of one table of a changed chat.
pub struct ChangedRows {
    /// The user name of the chat.
    pub username: String,
    /// What was read of the table.
    pub table: TableRows,
}

/// Whether `all` lists the new messages of one table, one for each row.
pub open spec fn tell_new(all: Seq<NewMessage>, fetched: ChangedRows, names: Names) -> bool {
    &&& tell_all(
        all.map_values(|m: NewMessage| m.message),
        fetched.table.rows@,
        Setting {
            username: &fetched.username,
            is_group: is_chatroom(fetched.username@),
            id2u: &fetched.table.id2u,
            names: &names.map,
        },
    )
    &&& forall|i: int|
        0 <= i < all.len() ==> (#[trigger] all[i]).chat.of(names, fetched.username@)
}

/// Whether `all` lists, table by table, the new messages.
pub open spec fn tell_changed(
    all: Seq<Seq<NewMessage>>,
    fetched: Seq<ChangedRows>,
    names: Names,
) -> bool {
    &&& all.len() == fetched.len()
    &&& forall|i: int| 0 <= i < fetched.len() ==> tell_new(#[trigger] all[i], fetched[i], names)
}

/// New messages from the oldest to the newest.
pub fn sort_new(all: Vec<NewMessage>) -> (r: Vec<NewMessage>)
    ensures
        r@ == oldest_new(all@),
{
    let mut keys: Vec<i64> = Vec::new();
    let mut i: usize = 0;
    while i < all.len()
        invariant
            i <= all.len(),
            keys.len() == i,
            forall|j: int| 0 <= j < i ==> #[trigger] keys@[j] == all@[j].message.timestamp,
        decreases all.len() - i,
    {
        keys.push(all[i].message.timestamp);
        i = i + 1;
    }
    assert(keys@ =~= all@.map_values(|m: NewMessage| m.message.timestamp));
    sort_by_keys(all, &keys)
}

/// The new messages of all tables, with their chats.
pub fn tell_fetched(names: &Names, fetched: &Vec<ChangedRows>) -> (r: Vec<NewMessage>)
    ensures
        exists|all: Seq<Seq<NewMessage>>| #[trigger]
            tell_changed(all, fetched@, *names) && r@ == all_of(all),
{
    let ghost mut listed: Seq<Seq<NewMessage>> = Seq::empty();
    let mut all: Vec<NewMessage> = Vec::new();
    let mut i: usize = 0;
    while i < fetched.len()
        invariant
            i <= fetched.len(),
            tell_changed(listed, fetched@.take(i as int), *names),
            all@ == all_of(listed),
        decreases fetched.len() - i,
    {
        let username = &fetched[i].username;
        let chat = chat_of(names, username.as_str());
        let at = Setting {
            username,
            is_group: chat.is_group,
            id2u: &fetched[i].table.id2u,
            names: &names.map,
        };
        let mut messages = with_chat(query_messages(&fetched[i].table.rows, &at), &chat);
        proof {
            lemma_all_of_push(listed, messages@);
            listed = listed.push(messages@);
        }
        all.append(&mut messages);
        i = i + 1;
    }
    assert(fetched@.take(i as int) =~= fetched@);
    all
}

/// The oldest of the new messages, with the state that leads to the next.
pub fn q_new_messages(
    names: &Names,
    sessions: &Vec<SessionTime>,
    changed: &Vec<Changed>,
    fetched: &Vec<ChangedRows>,
    limit: usize,
) -> (r: NewMessages)
    ensures
        exists|all: Seq<Seq<NewMessage>>| #[trigger]
            tell_changed(all, fetched@, *names) && r.messages@ == first_of(
                oldest_new(all_of(all)),
                limit as int,
            ),
        r.count == r.messages@.len(),
        r.new_state@ == next_state(sessions@, changed@, r.messages@),
{
    let all = tell_fetched(names, fetched);
    let ghost listed = choose|l: Seq<Seq<NewMessage>>| #[trigger]
        tell_changed(l, fetched@, *names) && all@ == all_of(l);
    let mut messages = sort_new(all);
    messages.truncate(limit);
    assert(messages@ =~= first_of(oldest_new(all_of(listed)), limit as int));

    let mut state: StrMap<i64> = StrMap::new();
    let mut k: usize = 0;
    while k < sessions.len()
        invariant
            k <= sessions.len(),
            state@ == snapshot(sessions@.take(k as int)),
        decreases sessions.len() - k,
    {
        state.insert(sessions[k].username.clone(), sessions[k].last);
        assert(sessions@.take(k + 1).drop_last() =~= sessions@.take(k as int));
        k = k + 1;
    }
    assert(sessions@.take(k as int) =~= sessions@);
    let ghost base = state@;
    let mut c: usize = 0;
    while c < changed.len()
        invariant
            c <= changed.len(),
            state@ == set_back(base, changed@.take(c as int)),
        decreases changed.len() - c,
    {
        state.insert(changed[c].username.clone(), changed[c].since);
        assert(changed@.take(c + 1).drop_last() =~= changed@.take(c as int));
        c = c + 1;
    }
    assert(changed@.take(c as int) =~= changed@);
    let ghost back = state@;
    let mut n: usize = 0;
    while n < messages.len()
        invariant
            n <= messages.len(),
            state@ == advanced(back, messages@.take(n as int)),
        decreases messages.len() - n,
    {
        let m = &messages[n];
        let now: i64 = match state.get(m.chat.username.as_str()) {
            Some(ts) => *ts,
            None => 0,
        };
        let ts: i64 = m.message.timestamp;
        state.insert(
            m.chat.username.clone(),
            if ts > now {
                ts
            } else {
                now
            },
        );
        assert(messages@.take(n + 1).drop_last() =~= messages@.take(n as int));
        n = n + 1;
    }
    assert(messages@.take(n as int) =~= messages@);
    NewMessages { count: messages.len(), messages, new_state: state }
}

/// Whether a message is of a chat.
pub open spec fn is_of(m: NewMessage, username: Seq<char>) -> bool {
    m.chat.username@ == username
}

proof fn lemma_advanced(state: Map<Seq<char>, i64>, messages: Seq<NewMessage>, u: Seq<char>)
    requires
        state.contains_key(u),
    ensures
        advanced(state, messages).contains_key(u),
        advanced(state, messages)[u] >= state[u],
        forall|j: int|
            0 <= j < messages.len() && is_of(#[trigger] messages[j], u) ==> advanced(
                state,
                messages,
            )[u] >= messages[j].message.timestamp,
        advanced(state, messages)[u] == state[u] || exists|j: int|
            0 <= j < messages.len() && is_of(#[trigger] messages[j], u) && advanced(
                state,
                messages,
            )[u] == messages[j].message.timestamp,
    decreases messages.len(),
{
    if messages.len() > 0 {
        let rest = messages.drop_last();
        lemma_advanced(state, rest, u);
        let st = advanced(state, rest);
        assert forall|j: int| 0 <= j < messages.len() && is_of(#[trigger] messages[j], u) implies advanced(
            state,
            messages,
        )[u] >= messages[j].message.timestamp by {
            if j < rest.len() {
                assert(rest[j] == messages[j]);
                assert(is_of(rest[j], u));
            }
        }
        if advanced(state, messages)[u] != state[u] {
            if is_of(messages.last(), u) && messages.last().message.timestamp > st[u] {
                assert(is_of(messages[messages.len() - 1], u));
            } else {
                let j = choose|j: int|
                    0 <= j < rest.len() && is_of(#[trigger] rest[j], u) && st[u]
                        == rest[j].message.timestamp;
                assert(messages[j] == rest[j]);
                assert(is_of(messages[j], u));
            }
        }
    }
}

proof fn lemma_set_back(state: Map<Seq<char>, i64>, changed: Seq<Changed>, u: Seq<char>)
    ensures
        (forall|j: int| 0 <= j < changed.len() ==> (#[trigger] changed[j]).username@ != u)
            ==> set_back(state, changed).contains_key(u) == state.contains_key(u) && set_back(
            state,
            changed,
        )[u] == state[u],
        (exists|j: int| 0 <= j < changed.len() && (#[trigger] changed[j]).username@ == u) ==> {
            &&& set_back(state, changed).contains_key(u)
            &&& exists|j: int|
                0 <= j < changed.len() && (#[trigger] changed[j]).username@ == u && set_back(
                    state,
                    changed,
                )[u] == changed[j].since
        },
    decreases changed.len(),
{
    if changed.len() > 0 {
        let rest = changed.drop_last();
        lemma_set_back(state, rest, u);
        assert forall|j: int| 0 <= j < rest.len() implies #[trigger] rest[j] == changed[j] by {}
        if changed.last().username@ == u {
            assert(changed[changed.len() - 1].username@ == u);
        } else {
            if exists|j: int| 0 <= j < changed.len() && (#[trigger] changed[j]).username@ == u {
                let j = choose|j: int|
                    0 <= j < changed.len() && (#[trigger] changed[j]).username@ == u;
                assert(rest[j].username@ == u);
                let k = choose|k: int|
                    0 <= k < rest.len() && (#[trigger] rest[k]).username@ == u && set_back(
                        state,
                        rest,
                    )[u] == rest[k].since;
                assert(changed[k].username@ == u);
            } else {
                assert forall|j: int| 0 <= j < rest.len() implies (#[trigger] rest[j]).username@
                    != u by {
                    assert(changed[j].username@ != u);
                }
            }
        }
    }
}

proof fn lemma_oldest_new_sorted(all: Seq<NewMessage>)
    ensures
        oldest_new(all).len() == all.len(),
        forall|i: int, j: int|
            0 <= i <= j < all.len() ==> (#[trigger] oldest_new(all)[i]).message.timestamp <= (
            #[trigger] oldest_new(all)[j]).message.timestamp,
        forall|i: int| 0 <= i < all.len() ==> all.contains(#[trigger] oldest_new(all)[i]),
{
    let keys = all.map_values(|m: NewMessage| m.message.timestamp);
    lemma_order_exists(keys);
    let order = order_of(keys);
    assert forall|i: int, j: int| 0 <= i <= j < all.len() implies (#[trigger] oldest_new(
        all,
    )[i]).message.timestamp <= (#[trigger] oldest_new(all)[j]).message.timestamp by {
        assert(keys[order[i]] == all[order[i]].message.timestamp);
        assert(keys[order[j]] == all[order[j]].message.timestamp);
        if i < j {
            assert(precedes(keys, order[i], order[j]));
        }
    }
    assert forall|i: int| 0 <= i < all.len() implies all.contains(
        #[trigger] oldest_new(all)[i],
    ) by {
        assert(oldest_new(all)[i] == all[order[i]]);
    }
}

/// Whether each message is of a changed chat and newer than what had been seen of it.
pub open spec fn fetched_for(all: Seq<NewMessage>, changed: Seq<Changed>) -> bool {
    &&& forall|i: int| 0 <= i < all.len() ==> is_news(#[trigger] all[i], changed)
    &&& forall|i: int, j: int|
        0 <= i < changed.len() && 0 <= j < changed.len() && (#[trigger] changed[i]).username@ == (
        #[trigger] changed[j]).username@ ==> changed[i].since == changed[j].since
}

/// Whether a message is of a changed chat and newer than what had been seen of it.
pub open spec fn is_news(m: NewMessage, changed: Seq<Changed>) -> bool {
    exists|j: int|
        0 <= j < changed.len() && is_of(m, (#[trigger] changed[j]).username@) && changed[j].since
            < m.message.timestamp
}

/// Chats that are listed as changed by the same state are seen up to the same time.
pub proof fn law_changed_once(
    changed: Seq<Changed>,
    sessions: Seq<SessionTime>,
    state: Option<Map<Seq<char>, i64>>,
    fallback: i64,
    i: int,
    j: int,
)
    requires
        lists_changed(changed, sessions, state, fallback),
        0 <= i < changed.len(),
        0 <= j < changed.len(),
        changed[i].username@ == changed[j].username@,
    ensures
        changed[i].since == changed[j].since,
{
}

/// A message that was fetched but cut off is not lost: it is not older than the state of its chat,
/// and where none of the messages handed out of this chat is of the same second it is newer, so
/// that the next request finds the chat changed and asks for messages from before this one on.
pub proof fn law_cut_message_not_passed(
    sessions: Seq<SessionTime>,
    changed: Seq<Changed>,
    all: Seq<NewMessage>,
    limit: int,
    k: int,
)
    requires
        fetched_for(all, changed),
        0 <= limit <= k < all.len(),
    ensures
        ({
            let m = oldest_new(all)[k];
            let state = next_state(sessions, changed, first_of(oldest_new(all), limit));
            let u = m.chat.username@;
            &&& state.contains_key(u)
            &&& state[u] <= m.message.timestamp
            &&& (forall|j: int|
                0 <= j < limit && is_of(#[trigger] oldest_new(all)[j], u) ==> oldest_new(
                    all,
                )[j].message.timestamp != m.message.timestamp) ==> {
                &&& state[u] < m.message.timestamp
                &&& forall|s: SessionTime, fallback: i64|
                    s.username@ == u && s.last >= m.message.timestamp ==> #[trigger] is_changed(
                        s,
                        Some(state),
                        fallback,
                    )
            }
        }),
{
    let sorted = oldest_new(all);
    let given = first_of(sorted, limit);
    lemma_oldest_new_sorted(all);
    let m = sorted[k];
    let u = m.chat.username@;
    assert(all.contains(sorted[k]));
    let src = choose|s: int| 0 <= s < all.len() && all[s] == sorted[k];
    assert(is_news(all[src], changed));
    let c = choose|j: int|
        0 <= j < changed.len() && is_of(m, (#[trigger] changed[j]).username@) && changed[j].since
            < m.message.timestamp;
    let base = set_back(snapshot(sessions), changed);
    lemma_set_back(snapshot(sessions), changed, u);
    assert(changed[c].username@ == u);
    assert(base.contains_key(u));
    assert(base[u] == changed[c].since);
    lemma_advanced(base, given, u);
    let state = next_state(sessions, changed, given);
    if state[u] != base[u] {
        let j = choose|j: int|
            0 <= j < given.len() && is_of(#[trigger] given[j], u) && state[u]
                == given[j].message.timestamp;
        assert(given[j] == sorted[j]);
    }
}

/// The state of a changed chat none of whose messages was handed out stays where it was, and that
/// of a changed chat never goes back.
pub proof fn law_changed_state(
    sessions: Seq<SessionTime>,
    changed: Seq<Changed>,
    messages: Seq<NewMessage>,
    c: int,
)
    requires
        fetched_for(messages, changed),
        0 <= c < changed.len(),
    ensures
        ({
            let u = changed[c].username@;
            let state = next_state(sessions, changed, messages);
            &&& state.contains_key(u)
            &&& state[u] >= changed[c].since
            &&& (forall|j: int| 0 <= j < messages.len() ==> !is_of(#[trigger] messages[j], u))
                ==> state[u] == changed[c].since
            &&& forall|j: int|
                0 <= j < messages.len() && is_of(#[trigger] messages[j], u) ==> state[u]
                    >= messages[j].message.timestamp
            &&& (exists|j: int| 0 <= j < messages.len() && is_of(#[trigger] messages[j], u))
                ==> exists|j: int|
                0 <= j < messages.len() && is_of(#[trigger] messages[j], u) && state[u]
                    == messages[j].message.timestamp
        }),
{
    let u = changed[c].username@;
    let base = set_back(snapshot(sessions), changed);
    lemma_set_back(snapshot(sessions), changed, u);
    assert(base[u] == changed[c].since);
    lemma_advanced(base, messages, u);
    let state = next_state(sessions, changed, messages);
    if exists|j: int| 0 <= j < messages.len() && is_of(#[trigger] messages[j], u) {
        let j = choose|j: int| 0 <= j < messages.len() && is_of(#[trigger] messages[j], u);
        assert(is_news(messages[j], changed));
        let d = choose|d: int|
            0 <= d < changed.len() && is_of(messages[j], (#[trigger] changed[d]).username@)
                && changed[d].since < messages[j].message.timestamp;
        assert(changed[d].since == changed[c].since);
        assert(state[u] > base[u]);
    }
}

/// The state of a chat without new messages is the time of its newest message.
pub proof fn law_unchanged_state(
    sessions: Seq<SessionTime>,
    changed: Seq<Changed>,
    messages: Seq<NewMessage>,
    u: Seq<char>,
)
    requires
        forall|j: int| 0 <= j < changed.len() ==> (#[trigger] changed[j]).username@ != u,
        forall|j: int| 0 <= j < messages.len() ==> !is_of(#[trigger] messages[j], u),
        snapshot(sessions).contains_key(u),
    ensures
        next_state(sessions, changed, messages).contains_key(u),
        next_state(sessions, changed, messages)[u] == snapshot(sessions)[u],
{
    let base = set_back(snapshot(sessions), changed);
    lemma_set_back(snapshot(sessions), changed, u);
    lemma_advanced(base, messages, u);
}

/// The messages that are handed out are the oldest of all: so many of each table are enough as are
/// taken, where the tables list the oldest messages first.
pub proof fn law_new_from_capped(tables: Seq<Seq<NewMessage>>, limit: usize)
    requires
        forall|i: int|
            0 <= i < tables.len() ==> in_order(
                #[trigger] tables[i],
                |m: NewMessage| m.message.timestamp,
            ),
    ensures
        first_of(oldest_new(all_of(tables)), limit as int) == first_of(
            oldest_new(all_of(capped(tables, per_table(limit as int)))),
            limit as int,
        ),
{
    law_cap(
        tables,
        |m: NewMessage| m.message.timestamp,
        per_table(limit as int),
        limit as int,
    );
}

} // verus!
