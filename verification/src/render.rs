use vstd::prelude::*;

use crate::config::or_text;
use crate::json::{
    fields, flag_at, is_true_at, json_entries, json_object, string_at, text_at, JsonEntry, JsonField,
};
use crate::number::{decimal, i64_text, usize_text};
use crate::text::{concat2, concat3, held, same, trim, trimmed};

verus! {

/// A time in grey.
pub open spec fn grey_time(time: Seq<char>) -> Seq<char> {
    "\x1b[90m["@ + time + "]\x1b[0m "@
}

fn show_time(time: &str) -> (r: String)
    ensures
        r@ == grey_time(time@),
{
    concat3("\x1b[90m[", time, "]\x1b[0m ")
}

/// The mark behind the name of a group.
pub open spec fn group_mark(is_group: bool) -> Seq<char> {
    if is_group {
        " [群]"@
    } else {
        ""@
    }
}

fn show_group_mark(is_group: bool) -> (r: &'static str)
    ensures
        r@ == group_mark(is_group),
{
    if is_group {
        " [群]"
    } else {
        ""
    }
}

/// A sender in yellow, with a colon; nothing where there is none.
pub open spec fn yellow_sender(sender: Seq<char>) -> Seq<char> {
    if sender.len() > 0 {
        "\x1b[33m"@ + sender + "\x1b[0m: "@
    } else {
        Seq::empty()
    }
}

fn show_sender(sender: &str) -> (r: String)
    ensures
        r@ == yellow_sender(sender@),
{
    if sender.is_empty() {
        String::new()
    } else {
        concat3("\x1b[33m", sender, "\x1b[0m: ")
    }
}

/// The heading of a page of messages.
pub open spec fn history_head(chat: Seq<char>, is_group: bool, count: int) -> Seq<char> {
    "=== "@ + chat + group_mark(is_group) + "  ("@ + decimal(count) + " 条) ===\n"@
}

/// The heading of a page of messages.
pub fn history_header(chat: &str, is_group: bool, count: i64) -> (r: String)
    ensures
        r@ == history_head(chat@, is_group, count as int),
{
    let mut r = concat3("=== ", chat, show_group_mark(is_group));
    r.append("  (");
    r.append(i64_text(count).as_str());
    r.append(" 条) ===\n");
    r
}

/// The line of a message.
pub open spec fn message_row(time: Seq<char>, sender: Seq<char>, content: Seq<char>) -> Seq<char> {
    grey_time(time) + yellow_sender(sender) + content
}

/// The line of a message.
pub fn history_line(time: &str, sender: &str, content: &str) -> (r: String)
    ensures
        r@ == message_row(time@, sender@, content@),
{
    concat3(show_time(time).as_str(), show_sender(sender).as_str(), content)
}

/// The heading of what a search found.
pub open spec fn search_head(keyword: Seq<char>, count: int) -> Seq<char> {
    "搜索 \""@ + keyword + "\"，找到 "@ + decimal(count) + " 条:\n"@
}

/// The heading of what a search found.
pub fn search_header(keyword: &str, count: i64) -> (r: String)
    ensures
        r@ == search_head(keyword@, count as int),
{
    let mut r = concat3("搜索 \"", keyword, "\"，找到 ");
    r.append(i64_text(count).as_str());
    r.append(" 条:\n");
    r
}

/// The name of a chat in cyan; nothing where there is none.
pub open spec fn cyan_chat(chat: Seq<char>) -> Seq<char> {
    if chat.len() > 0 {
        "\x1b[36m["@ + chat + "]\x1b[0m "@
    } else {
        Seq::empty()
    }
}

fn show_cyan(chat: &str) -> (r: String)
    ensures
        r@ == "\x1b[36m["@ + chat@ + "]\x1b[0m "@,
{
    concat3("\x1b[36m[", chat, "]\x1b[0m ")
}

/// The line of a message that was found.
pub open spec fn hit_row(
    time: Seq<char>,
    chat: Seq<char>,
    sender: Seq<char>,
    content: Seq<char>,
) -> Seq<char> {
    grey_time(time) + cyan_chat(chat) + yellow_sender(sender) + content
}

/// The line of a message that was found.
pub fn search_line(time: &str, chat: &str, sender: &str, content: &str) -> (r: String)
    ensures
        r@ == hit_row(time@, chat@, sender@, content@),
{
    let mut r = show_time(time);
    if !chat.is_empty() {
        r.append(show_cyan(chat).as_str());
    }
    r.append(show_sender(sender).as_str());
    r.append(content);
    assert(r@ =~= hit_row(time@, chat@, sender@, content@));
    r
}

/// How many messages are unread, in red; nothing where there are none.
pub open spec fn red_unread(unread: i64) -> Seq<char> {
    if unread > 0 {
        " \x1b[31m("@ + decimal(unread as int) + "未读)\x1b[0m"@
    } else {
        Seq::empty()
    }
}

/// The first line of a chat.
pub open spec fn session_row(
    time: Seq<char>,
    chat: Seq<char>,
    is_group: bool,
    unread: i64,
) -> Seq<char> {
    grey_time(time) + "\x1b[1m"@ + chat + "\x1b[0m"@ + group_mark(is_group) + red_unread(unread)
}

/// The first line of a chat.
pub fn session_line(time: &str, chat: &str, is_group: bool, unread: i64) -> (r: String)
    ensures
        r@ == session_row(time@, chat@, is_group, unread),
{
    let mut r = show_time(time);
    r.append("\x1b[1m");
    r.append(chat);
    r.append("\x1b[0m");
    r.append(show_group_mark(is_group));
    if unread > 0 {
        r.append(concat3(" \x1b[31m(", i64_text(unread).as_str(), "未读)\x1b[0m").as_str());
    }
    assert(r@ =~= session_row(time@, chat@, is_group, unread));
    r
}

/// The second line of a chat.
pub open spec fn summary_row(
    msg_type: Seq<char>,
    sender: Seq<char>,
    summary: Seq<char>,
) -> Seq<char> {
    "  "@ + msg_type + ": "@ + (if sender.len() > 0 {
        sender + ": "@
    } else {
        Seq::empty()
    }) + summary
}

/// The second line of a chat.
pub fn summary_line(msg_type: &str, sender: &str, summary: &str) -> (r: String)
    ensures
        r@ == summary_row(msg_type@, sender@, summary@),
{
    let mut r = concat3("  ", msg_type, ": ");
    if !sender.is_empty() {
        r.append(concat2(sender, ": ").as_str());
    }
    r.append(summary);
    assert(r@ =~= summary_row(msg_type@, sender@, summary@));
    r
}

/// The heading of a list of contacts.
pub open spec fn contacts_head(total: int, shown: int) -> Seq<char> {
    "共 "@ + decimal(total) + " 个联系人（显示 "@ + decimal(shown) + " 个）:\n"@
}

/// The heading of a list of contacts.
pub fn contacts_header(total: i64, shown: usize) -> (r: String)
    ensures
        r@ == contacts_head(total as int, shown as int),
{
    let mut r = concat3("共 ", i64_text(total).as_str(), " 个联系人（显示 ");
    r.append(usize_text(shown).as_str());
    r.append(" 个）:\n");
    r
}

/// A text with spaces behind it, up to a width.
pub open spec fn padded(s: Seq<char>, width: int) -> Seq<char> {
    if s.len() < width {
        s + Seq::new((width - s.len()) as nat, |i: int| ' ')
    } else {
        s
    }
}

/// A text with spaces behind it, up to a width.
pub fn pad(s: &str, width: usize) -> (r: String)
    ensures
        r@ == padded(s@, width as int),
{
    let mut r = s.to_owned();
    let n: usize = s.unicode_len();
    let mut i: usize = n;
    while i < width
        invariant
            n <= i,
            n == s@.len(),
            n <= width ==> i <= width,
            n > width ==> i == n,
            r@ == padded(s@, i as int),
        decreases width - i,
    {
        r.push(' ');
        i = i + 1;
        assert(r@ =~= padded(s@, i as int));
    }
    r
}

/// How wide the display names of contacts are.
pub const NAME_WIDTH: usize = 20;

/// The line of a contact.
pub open spec fn contact_row(display: Seq<char>, username: Seq<char>) -> Seq<char> {
    "  "@ + padded(display, NAME_WIDTH as int) + " "@ + username
}

/// The line of a contact.
pub fn contact_line(display: &str, username: &str) -> (r: String)
    ensures
        r@ == contact_row(display@, username@),
{
    let mut r = concat3("  ", pad(display, NAME_WIDTH).as_str(), " ");
    r.append(username);
    r
}

/// What a line of a watch says; empty where it does not say it.
pub struct WatchedLine {
    /// What it is.
    pub event: String,
    /// The time.
    pub time: String,
    /// The display name of the chat.
    pub chat: String,
    /// The user name of the chat.
    pub username: String,
    /// Whether the chat is a group.
    pub is_group: bool,
    /// The sender.
    pub sender: String,
    /// The beginning of the message.
    pub content: String,
}

/// Whether an event is shown: one that is no sign of life, of the chat that is asked for.
pub open spec fn is_shown(e: WatchedLine, chat: Option<Seq<char>>) -> bool {
    &&& e.event@ != "connected"@
    &&& e.event@ != "heartbeat"@
    &&& match chat {
        Some(c) => e.chat@ == c || e.username@ == c,
        None => true,
    }
}

/// The line of an event.
pub open spec fn event_row(e: WatchedLine) -> Seq<char> {
    grey_time(e.time@) + (if e.is_group {
        "\x1b[36m["@ + e.chat@ + "]\x1b[0m "@
    } else {
        "\x1b[1m"@ + e.chat@ + "\x1b[0m "@
    }) + yellow_sender(e.sender@) + e.content@
}

/// The line of an event.
pub fn event_line(e: &WatchedLine) -> (r: String)
    ensures
        r@ == event_row(*e),
{
    let mut r = show_time(e.time.as_str());
    let chat = if e.is_group {
        show_cyan(e.chat.as_str())
    } else {
        concat3("\x1b[1m", e.chat.as_str(), "\x1b[0m ")
    };
    r.append(chat.as_str());
    r.append(show_sender(e.sender.as_str()).as_str());
    r.append(e.content.as_str());
    r
}

/// What is shown of an event that came as a line of JSON: nothing where it is not asked for, the
/// line itself where JSON is.
pub fn watch_line(line: &str, e: &WatchedLine, chat: &Option<String>, json: bool) -> (r: Option<
    String,
>)
    ensures
        shows_event(held(r), line@, *e, held(*chat), json),
{
    if same(e.event.as_str(), "connected") || same(e.event.as_str(), "heartbeat") {
        return None;
    }
    if let Some(c) = chat {
        if !same(e.chat.as_str(), c.as_str()) && !same(e.username.as_str(), c.as_str()) {
            return None;
        }
    }
    if json {
        Some(line.to_owned())
    } else {
        Some(event_line(e))
    }
}

impl WatchedLine {
    /// Whether this is what the entries of a line say.
    pub open spec fn reads(&self, all: Seq<JsonField>) -> bool {
        &&& self.event@ == or_text(text_at(all, "event"@), Seq::empty())
        &&& self.time@ == or_text(text_at(all, "time"@), Seq::empty())
        &&& self.chat@ == or_text(text_at(all, "chat"@), Seq::empty())
        &&& self.username@ == or_text(text_at(all, "username"@), Seq::empty())
        &&& self.is_group == flag_at(all, "is_group"@)
        &&& self.sender@ == or_text(text_at(all, "sender"@), Seq::empty())
        &&& self.content@ == or_text(text_at(all, "content"@), Seq::empty())
    }
}

fn text_or_empty(entries: &Vec<JsonEntry>, key: &str) -> (r: String)
    ensures
        r@ == or_text(text_at(fields(entries@), key@), Seq::empty()),
{
    match string_at(entries, key) {
        Some(s) => s,
        None => String::new(),
    }
}

/// What the entries of a line say.
pub fn watched_from(entries: &Vec<JsonEntry>) -> (r: WatchedLine)
    ensures
        r.reads(fields(entries@)),
{
    WatchedLine {
        event: text_or_empty(entries, "event"),
        time: text_or_empty(entries, "time"),
        chat: text_or_empty(entries, "chat"),
        username: text_or_empty(entries, "username"),
        is_group: is_true_at(entries, "is_group"),
        sender: text_or_empty(entries, "sender"),
        content: text_or_empty(entries, "content"),
    }
}

/// What a line says; nothing where it is no JSON.
pub fn read_watched(line: &str) -> (r: Option<WatchedLine>)
    ensures
        match json_object(line@, ""@) {
            Some(all) => r is Some && r->0.reads(all),
            None => r is None,
        },
{
    match json_entries(line, "") {
        Some(entries) => Some(watched_from(&entries)),
        None => None,
    }
}

/// Whether `r` is what is shown of a line that says `e`.
pub open spec fn shows_event(
    r: Option<Seq<char>>,
    line: Seq<char>,
    e: WatchedLine,
    chat: Option<Seq<char>>,
    json: bool,
) -> bool {
    r == if !is_shown(e, chat) {
        None
    } else if json {
        Some(line)
    } else {
        Some(event_row(e))
    }
}

/// What is shown of a line that the daemon sent to one who watches, without the white space around
/// it; nothing of a line that is no JSON.
pub fn cmd_watch(raw: &str, chat: &Option<String>, json: bool) -> (r: Option<String>)
    ensures
        match json_object(trimmed(raw@), ""@) {
            Some(all) => exists|e: WatchedLine| #[trigger]
                e.reads(all) && shows_event(held(r), trimmed(raw@), e, held(*chat), json),
            None => r is None,
        },
{
    let line = trim(raw);
    match read_watched(line.as_str()) {
        Some(e) => watch_line(line.as_str(), &e, chat, json),
        None => None,
    }
}

} // verus!
