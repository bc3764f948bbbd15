use vstd::prelude::*;

use crate::ipc::{refusal, WatchEvent};
use crate::json::{text_at, JsonField};
use crate::number::decimal;
use crate::render::{
    contact_row, contacts_head, event_row, history_head, hit_row, is_shown, message_row, padded,
    search_head, session_row, shows_event, summary_row, WatchedLine,
};

verus! {

/// The heading of a page names the chat, says whether it is a group and how many messages there
/// are.
pub proof fn law_history_head(chat: Seq<char>, count: int)
    ensures
        history_head(chat, false, count) == "=== "@ + chat + "  ("@ + decimal(count)
            + " 条) ===\n"@,
        history_head(chat, true, count) == "=== "@ + chat + " [群]"@ + "  ("@ + decimal(count)
            + " 条) ===\n"@,
{
    reveal_strlit("");
    assert("=== "@ + chat + ""@ =~= "=== "@ + chat);
}

/// The line of a message: the time, the sender where there is one, and what it says.
pub proof fn law_message_row(time: Seq<char>, sender: Seq<char>, content: Seq<char>)
    ensures
        message_row(time, Seq::empty(), content) == "\x1b[90m["@ + time + "]\x1b[0m "@ + content,
        sender.len() > 0 ==> message_row(time, sender, content) == "\x1b[90m["@ + time
            + "]\x1b[0m "@ + ("\x1b[33m"@ + sender + "\x1b[0m: "@) + content,
{
    assert(message_row(time, Seq::empty(), content) =~= "\x1b[90m["@ + time + "]\x1b[0m "@
        + content);
}

/// The heading of a search: the keyword and how many messages were found.
pub proof fn law_search_head(keyword: Seq<char>, count: int)
    ensures
        search_head(keyword, count) == "搜索 \""@ + keyword + "\"，找到 "@ + decimal(count)
            + " 条:\n"@,
{
}

/// The line of a message that was found: the time, the chat and the sender where there are any, and
/// what it says.
pub proof fn law_hit_row(
    time: Seq<char>,
    chat: Seq<char>,
    sender: Seq<char>,
    content: Seq<char>,
)
    ensures
        hit_row(time, Seq::empty(), sender, content) == message_row(time, sender, content),
        chat.len() > 0 ==> hit_row(time, chat, Seq::empty(), content) == "\x1b[90m["@ + time
            + "]\x1b[0m "@ + ("\x1b[36m["@ + chat + "]\x1b[0m "@) + content,
        chat.len() > 0 && sender.len() > 0 ==> hit_row(time, chat, sender, content) == "\x1b[90m["@
            + time + "]\x1b[0m "@ + ("\x1b[36m["@ + chat + "]\x1b[0m "@) + ("\x1b[33m"@ + sender
            + "\x1b[0m: "@) + content,
{
    assert(hit_row(time, Seq::empty(), sender, content) =~= message_row(time, sender, content));
    if chat.len() > 0 {
        assert(hit_row(time, chat, Seq::empty(), content) =~= "\x1b[90m["@ + time + "]\x1b[0m "@ + (
        "\x1b[36m["@ + chat + "]\x1b[0m "@) + content);
    }
}

/// The line of a chat: the time, the name, the mark of a group and how many messages are unread,
/// where there are any.
pub proof fn law_session_row(time: Seq<char>, chat: Seq<char>, unread: i64)
    ensures
        ({
            let named = "\x1b[90m["@ + time + "]\x1b[0m "@ + "\x1b[1m"@ + chat + "\x1b[0m"@;
            let red = " \x1b[31m("@ + decimal(unread as int) + "未读)\x1b[0m"@;
            &&& unread <= 0 ==> session_row(time, chat, false, unread) == named
            &&& unread <= 0 ==> session_row(time, chat, true, unread) == named + " [群]"@
            &&& unread > 0 ==> session_row(time, chat, false, unread) == named + red
            &&& unread > 0 ==> session_row(time, chat, true, unread) == named + " [群]"@ + red
        }),
{
    reveal_strlit("");
    let named = "\x1b[90m["@ + time + "]\x1b[0m "@ + "\x1b[1m"@ + chat + "\x1b[0m"@;
    let red = " \x1b[31m("@ + decimal(unread as int) + "未读)\x1b[0m"@;
    assert(unread <= 0 ==> session_row(time, chat, false, unread) =~= named);
    assert(unread <= 0 ==> session_row(time, chat, true, unread) =~= named + " [群]"@);
    assert(unread > 0 ==> session_row(time, chat, false, unread) =~= named + red);
}

/// The second line of a chat: the kind of the last message, its sender where there is one, and its
/// beginning.
pub proof fn law_summary_row(msg_type: Seq<char>, sender: Seq<char>, summary: Seq<char>)
    ensures
        summary_row(msg_type, Seq::empty(), summary) == "  "@ + msg_type + ": "@ + summary,
        sender.len() > 0 ==> summary_row(msg_type, sender, summary) == "  "@ + msg_type + ": "@ + (
        sender + ": "@) + summary,
{
    assert(summary_row(msg_type, Seq::empty(), summary) =~= "  "@ + msg_type + ": "@ + summary);
}

/// The heading of the contacts: how many there are and how many are shown.
pub proof fn law_contacts_head(total: int, shown: int)
    ensures
        contacts_head(total, shown) == "共 "@ + decimal(total) + " 个联系人（显示 "@ + decimal(shown)
            + " 个）:\n"@,
{
}

/// A padded text is the text with nothing but spaces behind it, and as wide as asked for at least.
pub proof fn law_padded(s: Seq<char>, width: int)
    requires
        0 <= width,
    ensures
        s.is_prefix_of(padded(s, width)),
        padded(s, width).len() == (if s.len() < width {
            width
        } else {
            s.len() as int
        }),
        forall|i: int| s.len() <= i < padded(s, width).len() ==> #[trigger] padded(s, width)[i]
            == ' ',
{
}

/// The line of a contact: the display name, twenty characters wide, and the user name.
pub proof fn law_contact_row(display: Seq<char>, username: Seq<char>)
    ensures
        contact_row(display, username) == "  "@ + padded(display, 20) + " "@ + username,
{
}

/// Signs of life are not shown, nor what is of another chat than the one that is asked for, by
/// either of its names.
pub proof fn law_event_shown(e: WatchedLine, chat: Seq<char>)
    ensures
        ({
            let sign = e.event@ == "connected"@ || e.event@ == "heartbeat"@;
            &&& is_shown(e, None) <==> !sign
            &&& is_shown(e, Some(chat)) <==> !sign && (e.chat@ == chat || e.username@ == chat)
        }),
{
}

/// What is shown of an event: its line, or the JSON that came, where that is asked for.
pub proof fn law_event_line(
    r: Option<Seq<char>>,
    line: Seq<char>,
    e: WatchedLine,
    chat: Option<Seq<char>>,
    json: bool,
)
    requires
        shows_event(r, line, e, chat, json),
    ensures
        r is Some <==> is_shown(e, chat),
        r is Some && json ==> r->0 == line,
        r is Some && !json ==> r->0 == event_row(e),
{
}

/// The line of an event: the time, the chat, the sender where there is one, and what it says.
pub proof fn law_event_row(e: WatchedLine)
    ensures
        ({
            let time = "\x1b[90m["@ + e.time@ + "]\x1b[0m "@;
            let chat = if e.is_group {
                "\x1b[36m["@ + e.chat@ + "]\x1b[0m "@
            } else {
                "\x1b[1m"@ + e.chat@ + "\x1b[0m "@
            };
            &&& e.sender@.len() == 0 ==> event_row(e) == time + chat + e.content@
            &&& e.sender@.len() > 0 ==> event_row(e) == time + chat + ("\x1b[33m"@ + e.sender@
                + "\x1b[0m: "@) + e.content@
        }),
{
    if e.sender@.len() == 0 {
        let time = "\x1b[90m["@ + e.time@ + "]\x1b[0m "@;
        let chat = if e.is_group {
            "\x1b[36m["@ + e.chat@ + "]\x1b[0m "@
        } else {
            "\x1b[1m"@ + e.chat@ + "\x1b[0m "@
        };
        assert(event_row(e) =~= time + chat + e.content@);
    }
}

/// A line is read by the names of its entries; what is not there is empty.
pub proof fn law_line_read(e: WatchedLine, all: Seq<JsonField>)
    requires
        e.reads(all),
    ensures
        text_at(all, "event"@) matches Some(s) ==> e.event@ == s,
        text_at(all, "time"@) matches Some(s) ==> e.time@ == s,
        text_at(all, "chat"@) matches Some(s) ==> e.chat@ == s,
        text_at(all, "username"@) matches Some(s) ==> e.username@ == s,
        text_at(all, "sender"@) matches Some(s) ==> e.sender@ == s,
        text_at(all, "content"@) matches Some(s) ==> e.content@ == s,
        text_at(all, "event"@) is None ==> e.event@.len() == 0,
        text_at(all, "chat"@) is None ==> e.chat@.len() == 0,
        text_at(all, "sender"@) is None ==> e.sender@.len() == 0,
        text_at(all, "content"@) is None ==> e.content@.len() == 0,
        text_at(all, "time"@) is None ==> e.time@.len() == 0,
        text_at(all, "username"@) is None ==> e.username@.len() == 0,
        e.is_group == crate::json::flag_at(all, "is_group"@),
{
}

/// A request that is refused is told why, where there is a reason.
pub proof fn law_refusal(why: Seq<char>)
    ensures
        refusal(Some(why)) == why,
        refusal(None) == "未知错误"@,
{
}

/// A sign of life tells nothing but what it is.
pub proof fn law_bare_event(e: WatchEvent)
    requires
        e.is_bare(),
    ensures
        e.time is None && e.chat is None && e.username is None && e.is_group is None,
        e.sender is None && e.content is None && e.msg_type is None && e.timestamp is None,
{
}

} // verus!
