use vstd::prelude::*;
use vstd::utf8::{decode_utf8, valid_utf8};

use crate::content::type_label;
use crate::ipc::WatchEvent;
use crate::laws::content::law_prefix_taken_off;
use crate::names::{is_chatroom, Names};
use crate::outside::{lossy_text, zstd_decoded};
use crate::text::find;
use crate::time::shows_time;
use crate::watch::{seen_after, tell_rows, told, WatchRow};

verus! {

/// An event tells of its row: the chat by its two names, the time, the kind and whether it is a
/// group.
pub proof fn law_event_told(e: WatchEvent, row: WatchRow, text: Seq<char>, names: Names)
    requires
        e.tells(row, text, names),
    ensures
        e.event@ == "message"@,
        e.username is Some && e.username->0@ == row.username@,
        e.chat is Some,
        names.map@.contains_key(row.username@) ==> e.chat->0@ == names.map@[row.username@]@,
        !names.map@.contains_key(row.username@) ==> e.chat->0@ == row.username@,
        e.is_group == Some(is_chatroom(row.username@)),
        e.timestamp == Some(row.last_timestamp),
        e.time is Some && shows_time(row.last_timestamp, "%H:%M"@, e.time->0@),
        e.msg_type is Some && e.msg_type->0@ == type_label(row.last_msg_type),
{
}

/// The sender of an event is shown by the display name; nobody where the row names none.
pub proof fn law_event_sender(e: WatchEvent, row: WatchRow, text: Seq<char>, names: Names)
    requires
        e.tells(row, text, names),
    ensures
        e.sender is Some,
        row.sender@.len() == 0 ==> e.sender->0@.len() == 0,
        row.sender@.len() > 0 && names.map@.contains_key(row.sender@) ==> e.sender->0@
            == names.map@[row.sender@]@,
        row.sender@.len() > 0 && !names.map@.contains_key(row.sender@) ==> e.sender->0@
            == row.sender@,
{
}

/// What an event says is the summary without the sender that stands before it.
pub proof fn law_event_content(e: WatchEvent, row: WatchRow, text: Seq<char>, names: Names)
    requires
        e.tells(row, text, names),
    ensures
        e.content is Some,
        match find(text, seq![':', '\n']) {
            Some(i) => e.content->0@ == text.skip(i + 2),
            None => e.content->0@ == text,
        },
{
    law_prefix_taken_off(text);
}

/// Each row that is told gives one event, in their order.
pub proof fn law_events_of_rows(events: Seq<WatchEvent>, rows: Seq<WatchRow>, names: Names, i: int)
    requires
        tell_rows(events, rows, names),
        0 <= i < rows.len(),
    ensures
        events.len() == rows.len(),
        events[i].tells(rows[i], rows[i].text(), names),
{
}

/// A row is told where it is newer than what was seen of its chat, and a chat of which nothing was
/// seen counts as seen up to zero. What is told has been seen.
pub proof fn law_newer_row_told(last: Map<Seq<char>, i64>, rows: Seq<WatchRow>, row: WatchRow)
    ensures
        ({
            let before = seen_after(last, true, rows);
            let u = row.username@;
            let newer = if before.contains_key(u) {
                row.last_timestamp > before[u]
            } else {
                row.last_timestamp > 0
            };
            &&& newer ==> told(last, true, rows.push(row)) == told(last, true, rows).push(row)
            &&& newer ==> seen_after(last, true, rows.push(row)) == before.insert(
                u,
                row.last_timestamp,
            )
            &&& !newer ==> told(last, true, rows.push(row)) == told(last, true, rows)
            &&& !newer ==> seen_after(last, true, rows.push(row)) == before
        }),
        told(last, true, Seq::empty()).len() == 0,
        seen_after(last, true, Seq::empty()) == last,
{
    assert(rows.push(row).drop_last() =~= rows);
}

/// The first reading takes the time of every row as seen.
pub proof fn law_first_reading_sees(last: Map<Seq<char>, i64>, rows: Seq<WatchRow>, row: WatchRow)
    ensures
        seen_after(last, false, rows.push(row)) == seen_after(last, false, rows).insert(
            row.username@,
            row.last_timestamp,
        ),
        seen_after(last, false, Seq::empty()) == last,
{
    assert(rows.push(row).drop_last() =~= rows);
}

/// The text of a row's summary is that of what decompression gives, where that is a text, else its
/// own.
pub proof fn law_row_summary(row: WatchRow)
    ensures
        row.summary@.len() == 0 ==> row.text().len() == 0,
        row.summary@.len() > 0 && zstd_decoded(row.summary@) is None ==> row.text() == lossy_text(
            row.summary@,
        ),
        row.summary@.len() > 0 && zstd_decoded(row.summary@) is Some && valid_utf8(
            zstd_decoded(row.summary@)->0,
        ) ==> row.text() == decode_utf8(zstd_decoded(row.summary@)->0),
        row.summary@.len() > 0 && zstd_decoded(row.summary@) is Some && !valid_utf8(
            zstd_decoded(row.summary@)->0,
        ) ==> row.text() == lossy_text(row.summary@),
{
}

} // verus!
