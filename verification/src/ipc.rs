use vstd::prelude::*;

use crate::contacts::ContactList;
use crate::favorites::FavoriteList;
use crate::members::MemberList;
use crate::messages::History;
use crate::new_messages::NewMessages;
use crate::notices::NoticeList;
use crate::posts::{FoundPosts, PostList};
use crate::search::SearchList;
use crate::sessions::{SessionEntry, UnreadList};
use crate::stats::Stats;
use crate::strmap::StrMap;
use crate::text::concat2;

verus! {

/// What the daemon is asked.
pub enum Request {
    /// Whether it is there.
    Ping,
    /// The chats with the newest messages.
    Sessions {
        /// How many at most.
        limit: usize,
    },
    /// A page of the messages of a chat.
    History {
        /// A name of the chat.
        chat: String,
        /// How many messages at most.
        limit: usize,
        /// How many newer messages are passed over.
        offset: usize,
        /// The first second.
        since: Option<i64>,
        /// The last second.
        until: Option<i64>,
        /// The type of the messages.
        msg_type: Option<i64>,
    },
    /// The messages that hold a keyword.
    Search {
        /// The keyword.
        keyword: String,
        /// Names of the chats; all where none are given.
        chats: Option<Vec<String>>,
        /// How many messages at most.
        limit: usize,
        /// The first second.
        since: Option<i64>,
        /// The last second.
        until: Option<i64>,
        /// The type of the messages.
        msg_type: Option<i64>,
    },
    /// The contacts.
    Contacts {
        /// What the names hold.
        query: Option<String>,
        /// How many at most.
        limit: usize,
    },
    /// The chats with unread messages.
    Unread {
        /// How many at most.
        limit: usize,
        /// The types of the chats; all where none are given.
        filter: Option<Vec<String>>,
    },
    /// The members of a group.
    Members {
        /// A name of the group.
        chat: String,
    },
    /// The messages that were not seen before.
    NewMessages {
        /// Up to when the messages of each chat have been seen.
        state: Option<StrMap<i64>>,
        /// How many at most.
        limit: usize,
    },
    /// The favourites.
    Favorites {
        /// How many at most.
        limit: usize,
        /// The number of their type.
        fav_type: Option<i64>,
        /// What they hold.
        query: Option<String>,
    },
    /// The statistics of a chat.
    Stats {
        /// A name of the chat.
        chat: String,
        /// The first second.
        since: Option<i64>,
        /// The last second.
        until: Option<i64>,
    },
    /// The notifications about posts.
    SnsNotifications {
        /// How many at most.
        limit: usize,
        /// The first second.
        since: Option<i64>,
        /// The last second.
        until: Option<i64>,
        /// Whether those that were read are listed too.
        include_read: bool,
    },
    /// The newest posts.
    SnsFeed {
        /// How many at most.
        limit: usize,
        /// The first second.
        since: Option<i64>,
        /// The last second.
        until: Option<i64>,
        /// A name of the author.
        user: Option<String>,
    },
    /// The posts that hold a keyword.
    SnsSearch {
        /// The keyword.
        keyword: String,
        /// How many at most.
        limit: usize,
        /// The first second.
        since: Option<i64>,
        /// The last second.
        until: Option<i64>,
        /// A name of the author.
        user: Option<String>,
    },
    /// What happens from now on.
    Watch,
}

/// How many chats, or found messages, are listed where no number is given.
pub fn default_limit_20() -> (r: usize)
    ensures
        r == 20,
{
    20
}

/// How many messages of a chat, or contacts, are listed where no number is given.
pub fn default_limit_50() -> (r: usize)
    ensures
        r == 50,
{
    50
}

/// What an answer holds.
pub enum Payload {
    /// Nothing.
    Nothing,
    /// That the daemon is there.
    Pong,
    /// Chats.
    Sessions(Vec<SessionEntry>),
    /// A page of messages.
    History(History),
    /// Messages that were found.
    Search(SearchList),
    /// Contacts.
    Contacts(ContactList),
    /// Chats with unread messages.
    Unread(UnreadList),
    /// The members of a group.
    Members(MemberList),
    /// New messages.
    NewMessages(NewMessages),
    /// Favourites.
    Favorites(FavoriteList),
    /// The statistics of a chat.
    Stats(Stats),
    /// Notifications.
    SnsNotifications(NoticeList),
    /// Posts.
    SnsFeed(PostList),
    /// Posts that were found.
    SnsSearch(FoundPosts),
}

/// What the daemon answers.
pub struct Response {
    /// Whether the request could be met.
    pub ok: bool,
    /// Why it could not be met.
    pub error: Option<String>,
    /// What was asked for.
    pub data: Payload,
}

impl Response {
    /// The answer to a request that could be met.
    pub fn ok(data: Payload) -> (r: Self)
        ensures
            r.ok,
            r.error is None,
            r.data == data,
    {
        Response { ok: true, error: None, data }
    }

    /// The answer to a request that could not be met.
    pub fn err(msg: String) -> (r: Self)
        ensures
            !r.ok,
            r.error == Some(msg),
            r.data == Payload::Nothing,
    {
        Response { ok: false, error: Some(msg), data: Payload::Nothing }
    }

    /// The answer that gives what came of a request.
    pub fn of(result: Result<Payload, String>) -> (r: Self)
        ensures
            match result {
                Ok(data) => r.ok && r.error is None && r.data == data,
                Err(msg) => !r.ok && r.error == Some(msg) && r.data == Payload::Nothing,
            },
    {
        match result {
            Ok(data) => Response::ok(data),
            Err(msg) => Response::err(msg),
        }
    }
}

/// The answer to a request that cannot be read.
pub fn unreadable(why: &str) -> (r: Response)
    ensures
        !r.ok,
        r.error is Some,
        r.error->0@ == "JSON 解析错误: "@ + why@,
        r.data == Payload::Nothing,
{
    Response::err(concat2("JSON 解析错误: ", why))
}

/// What a refused request is told.
pub open spec fn refusal(error: Option<Seq<char>>) -> Seq<char> {
    match error {
        Some(e) => e,
        None => "未知错误"@,
    }
}

/// Whether an answer gives what was asked for; else why not.
pub fn check_answer(ok: bool, error: Option<String>) -> (r: Result<(), String>)
    ensures
        match r {
            Ok(_) => ok,
            Err(why) => !ok && why@ == refusal(
                match error {
                    Some(e) => Some(e@),
                    None => None,
                },
            ),
        },
{
    if ok {
        Ok(())
    } else {
        match error {
            Some(e) => Err(e),
            None => Err("未知错误".to_owned()),
        }
    }
}

/// A text as one line of the exchange.
pub fn json_line(json: &str) -> (r: String)
    ensures
        r@ == json@ + "\n"@,
{
    concat2(json, "\n")
}

/// What the daemon tells those who watch.
pub struct WatchEvent {
    /// What it is.
    pub event: String,
    /// The time, as hours and minutes.
    pub time: Option<String>,
    /// The display name of the chat.
    pub chat: Option<String>,
    /// The user name of the chat.
    pub username: Option<String>,
    /// Whether the chat is a group.
    pub is_group: Option<bool>,
    /// The name of the sender.
    pub sender: Option<String>,
    /// The beginning of the message.
    pub content: Option<String>,
    /// The label of the message's kind.
    pub msg_type: Option<String>,
    /// When the message was sent.
    pub timestamp: Option<i64>,
}

impl WatchEvent {
    /// Whether this tells nothing but what it is.
    pub open spec fn is_bare(&self) -> bool {
        &&& self.time is None && self.chat is None && self.username is None
        &&& self.is_group is None && self.sender is None && self.content is None
        &&& self.msg_type is None && self.timestamp is None
    }

    fn bare(event: &str) -> (r: Self)
        ensures
            r.event@ == event@,
            r.is_bare(),
    {
        WatchEvent {
            event: event.to_owned(),
            time: None,
            chat: None,
            username: None,
            is_group: None,
            sender: None,
            content: None,
            msg_type: None,
            timestamp: None,
        }
    }

    /// That the watch has begun.
    pub fn connected() -> (r: Self)
        ensures
            r.event@ == "connected"@,
            r.is_bare(),
    {
        WatchEvent::bare("connected")
    }

    /// That the watch goes on.
    pub fn heartbeat() -> (r: Self)
        ensures
            r.event@ == "heartbeat"@,
            r.is_bare(),
    {
        WatchEvent::bare("heartbeat")
    }
}

} // verus!
