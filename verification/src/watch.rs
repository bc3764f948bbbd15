use vstd::prelude::*;

use crate::content::{
    decompress_or_str, fmt_type, show_name, shown_name, strip_group_prefix, summary_text, type_label,
    without_prefix,
};
use crate::ipc::WatchEvent;
use crate::names::{is_chatroom, Names};
use crate::outside::zstd_decoded;
use crate::strmap::StrMap;
use crate::text::contains;
use crate::time::{fmt_hhmm, shows_time, CLOCK_TIME};

verus! {

/// A row of the table of chats, as a watcher reads it.
pub struct WatchRow {
    /// The user name of the chat.
    pub username: String,
    /// The beginning of the last message, compressed or not.
    pub summary: Vec<u8>,
    /// When the last message was sent.
    pub last_timestamp: i64,
    /// The type of the last message.
    pub last_msg_type: i64,
    /// The user name of its sender.
    pub sender: String,
}

impl WatchRow {
    /// The text of the summary.
    pub open spec fn text(&self) -> Seq<char> {
        summary_text(self.summary@, zstd_decoded(self.summary@))
    }
}

/// What a watcher has seen.
pub struct Watcher {
    /// When the log of the chats was last written, in nanoseconds.
    pub last_mtime: u64,
    /// The time of the newest message of each chat.
    pub last_ts: StrMap<i64>,
    /// Whether the chats have been read once.
    pub initialized: bool,
}

/// The time of the newest message that was seen of a chat.
pub open spec fn seen(last: Map<Seq<char>, i64>, username: Seq<char>) -> i64 {
    if last.contains_key(username) {
        last[username]
    } else {
        0
    }
}

/// Whether a row is told: not in the first reading, and only where it is newer than what was seen.
pub open spec fn is_told(last: Map<Seq<char>, i64>, initialized: bool, row: WatchRow) -> bool {
    initialized && row.last_timestamp > seen(last, row.username@)
}

/// What has been seen after some rows.
pub open spec fn seen_after(
    last: Map<Seq<char>, i64>,
    initialized: bool,
    rows: Seq<WatchRow>,
) -> Map<Seq<char>, i64>
    decreases rows.len(),
{
    if rows.len() == 0 {
        last
    } else {
        let before = seen_after(last, initialized, rows.drop_last());
        let row = rows.last();
        if !initialized || is_told(before, initialized, row) {
            before.insert(row.username@, row.last_timestamp)
        } else {
            before
        }
    }
}

/// The rows that are told.
pub open spec fn told(
    last: Map<Seq<char>, i64>,
    initialized: bool,
    rows: Seq<WatchRow>,
) -> Seq<WatchRow>
    decreases rows.len(),
{
    if rows.len() == 0 {
        Seq::empty()
    } else {
        let rest = told(last, initialized, rows.drop_last());
        let row = rows.last();
        if is_told(seen_after(last, initialized, rows.drop_last()), initialized, row) {
            rest.push(row)
        } else {
            rest
        }
    }
}

impl WatchEvent {
    /// Whether this tells of a row whose summary reads `text`.
    pub open spec fn tells(&self, row: WatchRow, text: Seq<char>, names: Names) -> bool {
        &&& self.event@ == "message"@
        &&& self.time is Some && shows_time(row.last_timestamp, CLOCK_TIME@, self.time->0@)
        &&& self.chat is Some && self.chat->0@ == shown_name(names.map@, row.username@)
        &&& self.username is Some && self.username->0@ == row.username@
        &&& self.is_group == Some(is_chatroom(row.username@))
        &&& self.sender is Some && self.sender->0@ == if row.sender@.len() > 0 {
            shown_name(names.map@, row.sender@)
        } else {
            Seq::empty()
        }
        &&& self.content is Some && self.content->0@ == without_prefix(text)
        &&& self.msg_type is Some && self.msg_type->0@ == type_label(row.last_msg_type)
        &&& self.timestamp == Some(row.last_timestamp)
    }
}

/// What is told of a row whose summary reads `text`.
pub fn message_event(row: &WatchRow, text: &str, names: &Names) -> (r: WatchEvent)
    ensures
        r.tells(*row, text@, *names),
{
    let sender = if !row.sender.as_str().is_empty() {
        show_name(&names.map, row.sender.as_str())
    } else {
        String::new()
    };
    WatchEvent {
        event: "message".to_owned(),
        time: Some(fmt_hhmm(row.last_timestamp)),
        chat: Some(names.display(row.username.as_str())),
        username: Some(row.username.clone()),
        is_group: Some(contains(row.username.as_str(), "@chatroom")),
        sender: Some(sender),
        content: Some(strip_group_prefix(text)),
        msg_type: Some(fmt_type(row.last_msg_type)),
        timestamp: Some(row.last_timestamp),
    }
}

/// Whether some events tell of some rows, one for each.
pub open spec fn tell_rows(events: Seq<WatchEvent>, rows: Seq<WatchRow>, names: Names) -> bool {
    &&& events.len() == rows.len()
    &&& forall|i: int|
        0 <= i < rows.len() ==> (#[trigger] events[i]).tells(rows[i], rows[i].text(), names)
}

impl Watcher {
    /// A watcher that has seen nothing.
    pub fn new() -> (r: Self)
        ensures
            r.last_mtime == 0,
            r.last_ts@ == Map::<Seq<char>, i64>::empty(),
            !r.initialized,
    {
        Watcher { last_mtime: 0, last_ts: StrMap::new(), initialized: false }
    }

    /// Whether the chats are to be read: somebody listens and the log was written anew. A time of
    /// zero means that there is no log.
    pub fn wakes(&mut self, receivers: usize, mtime: u64) -> (r: bool)
        ensures
            r == (receivers != 0 && mtime != 0 && mtime != old(self).last_mtime),
            final(self).last_mtime == if r {
                mtime
            } else {
                old(self).last_mtime
            },
            final(self).last_ts == old(self).last_ts,
            final(self).initialized == old(self).initialized,
    {
        if receivers == 0 || mtime == 0 || mtime == self.last_mtime {
            return false;
        }
        self.last_mtime = mtime;
        true
    }

    /// What is told once the chats have been read. The first reading tells nothing.
    pub fn read(&mut self, rows: &Vec<WatchRow>, names: &Names) -> (r: Vec<WatchEvent>)
        ensures
            tell_rows(r@, told(old(self).last_ts@, old(self).initialized, rows@), *names),
            final(self).last_ts@ == seen_after(old(self).last_ts@, old(self).initialized, rows@),
            final(self).initialized,
            final(self).last_mtime == old(self).last_mtime,
    {
        let ghost last = self.last_ts@;
        let initialized = self.initialized;
        let mtime: u64 = self.last_mtime;
        let mut events: Vec<WatchEvent> = Vec::new();
        let mut i: usize = 0;
        while i < rows.len()
            invariant
                i <= rows.len(),
                self.initialized == initialized,
                self.last_mtime == mtime,
                self.last_ts@ == seen_after(last, initialized, rows@.take(i as int)),
                tell_rows(events@, told(last, initialized, rows@.take(i as int)), *names),
            decreases rows.len() - i,
        {
            let row = &rows[i];
            let ghost before = told(last, initialized, rows@.take(i as int));
            proof {
                assert(rows@.take(i + 1).drop_last() =~= rows@.take(i as int));
                assert(rows@.take(i + 1).last() == *row);
            }
            let prev: i64 = match self.last_ts.get(row.username.as_str()) {
                Some(ts) => *ts,
                None => 0,
            };
            if !initialized {
                self.last_ts.insert(row.username.clone(), row.last_timestamp);
            } else if row.last_timestamp > prev {
                self.last_ts.insert(row.username.clone(), row.last_timestamp);
                let text = decompress_or_str(row.summary.as_slice());
                events.push(message_event(row, text.as_str(), names));
                assert(told(last, initialized, rows@.take(i + 1)) == before.push(*row));
            }
            i = i + 1;
        }
        assert(rows@.take(i as int) =~= rows@);
        self.initialized = true;
        events
    }
}

proof fn lemma_seen_grows(last: Map<Seq<char>, i64>, rows: Seq<WatchRow>, u: Seq<char>)
    ensures
        seen(seen_after(last, true, rows), u) >= seen(last, u),
        forall|i: int|
            0 <= i < rows.len() && (#[trigger] rows[i]).username@ == u ==> seen(
                seen_after(last, true, rows),
                u,
            ) >= rows[i].last_timestamp,
    decreases rows.len(),
{
    if rows.len() > 0 {
        let rest = rows.drop_last();
        lemma_seen_grows(last, rest, u);
        assert forall|i: int| 0 <= i < rows.len() && (#[trigger] rows[i]).username@ == u implies seen(
            seen_after(last, true, rows),
            u,
        ) >= rows[i].last_timestamp by {
            if i < rest.len() {
                assert(rest[i] == rows[i]);
            }
        }
    }
}

/// What has been seen of a chat never goes back, and what is in the rows has been seen.
pub proof fn law_watch_forward(last: Map<Seq<char>, i64>, rows: Seq<WatchRow>, i: int)
    requires
        0 <= i < rows.len(),
    ensures
        seen(seen_after(last, true, rows), rows[i].username@) >= seen(last, rows[i].username@),
        seen(seen_after(last, true, rows), rows[i].username@) >= rows[i].last_timestamp,
{
    lemma_seen_grows(last, rows, rows[i].username@);
}

/// Nothing is told in the first reading.
pub proof fn law_first_reading_silent(last: Map<Seq<char>, i64>, rows: Seq<WatchRow>)
    ensures
        told(last, false, rows) == Seq::<WatchRow>::empty(),
    decreases rows.len(),
{
    if rows.len() > 0 {
        law_first_reading_silent(last, rows.drop_last());
    }
}

/// What was told once is not told again: reading the same rows a second time tells nothing and
/// leaves what has been seen as it is.
pub proof fn law_told_once(last: Map<Seq<char>, i64>, rows: Seq<WatchRow>)
    ensures
        ({
            let after = seen_after(last, true, rows);
            &&& told(after, true, rows) == Seq::<WatchRow>::empty()
            &&& seen_after(after, true, rows) == after
        }),
{
    let after = seen_after(last, true, rows);
    assert forall|i: int| 0 <= i < rows.len() implies seen(
        after,
        (#[trigger] rows[i]).username@,
    ) >= rows[i].last_timestamp by {
        law_watch_forward(last, rows, i);
    }
    lemma_nothing_new(after, rows);
}

proof fn lemma_nothing_new(last: Map<Seq<char>, i64>, rows: Seq<WatchRow>)
    requires
        forall|i: int|
            0 <= i < rows.len() ==> seen(last, (#[trigger] rows[i]).username@)
                >= rows[i].last_timestamp,
    ensures
        told(last, true, rows) == Seq::<WatchRow>::empty(),
        seen_after(last, true, rows) == last,
    decreases rows.len(),
{
    if rows.len() > 0 {
        let rest = rows.drop_last();
        assert forall|i: int| 0 <= i < rest.len() implies seen(
            last,
            (#[trigger] rest[i]).username@,
        ) >= rest[i].last_timestamp by {
            assert(rest[i] == rows[i]);
        }
        lemma_nothing_new(last, rest);
        assert(rows[rows.len() - 1] == rows.last());
    }
}

} // verus!
