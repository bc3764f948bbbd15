use vstd::prelude::*;

use crate::ipc::Request;
use crate::text::held;
use crate::time::{end_time_of, parse_time, parse_time_end, time_of, TimeError};

verus! {

/// Whether `r` is the time that a text gives, where there is a text.
pub open spec fn gives_time(s: Option<Seq<char>>, r: Option<i64>) -> bool {
    match s {
        Some(t) => r is Some && time_of(t) == Some(r->0 as int),
        None => r is None,
    }
}

/// Whether `r` is the last second that a text means, where there is a text.
pub open spec fn gives_end(s: Option<Seq<char>>, r: Option<i64>) -> bool {
    match s {
        Some(t) => r is Some && end_time_of(t) == Some(r->0 as int),
        None => r is None,
    }
}

/// Whether `e` is the first of two texts that gives no time.
pub open spec fn is_unread_time(
    since: Option<Seq<char>>,
    until: Option<Seq<char>>,
    e: Seq<char>,
) -> bool {
    if since is Some && time_of(since->0) is None {
        e == since->0
    } else {
        until is Some && end_time_of(until->0) is None && e == until->0
    }
}

/// The first and the last second that two texts give.
pub fn time_span(since: &Option<String>, until: &Option<String>) -> (r: Result<
    (Option<i64>, Option<i64>),
    TimeError,
>)
    ensures
        match r {
            Ok(span) => gives_time(held(*since), span.0) && gives_end(held(*until), span.1),
            Err(e) => is_unread_time(held(*since), held(*until), e.text@),
        },
{
    let first: Option<i64> = match since {
        Some(s) => match parse_time(s.as_str()) {
            Ok(t) => Some(t),
            Err(e) => {
                return Err(e);
            },
        },
        None => None,
    };
    let last: Option<i64> = match until {
        Some(s) => match parse_time_end(s.as_str()) {
            Ok(t) => Some(t),
            Err(e) => {
                return Err(e);
            },
        },
        None => None,
    };
    Ok((first, last))
}

/// The request for a page of the messages of a chat.
pub fn history_request(
    chat: String,
    limit: usize,
    offset: usize,
    since: &Option<String>,
    until: &Option<String>,
) -> (r: Result<Request, TimeError>)
    ensures
        match r {
            Ok(Request::History { chat: c, limit: l, offset: o, since: s, until: u, msg_type: t }) => {
                &&& c == chat && l == limit && o == offset && t is None
                &&& gives_time(held(*since), s)
                &&& gives_end(held(*until), u)
            },
            Ok(_) => false,
            Err(e) => is_unread_time(held(*since), held(*until), e.text@),
        },
{
    match time_span(since, until) {
        Ok((s, u)) => Ok(
            Request::History { chat, limit, offset, since: s, until: u, msg_type: None },
        ),
        Err(e) => Err(e),
    }
}

/// The request for the messages that hold a keyword, in some chats or, where none are given, in
/// all.
pub fn search_request(
    keyword: String,
    chats: Vec<String>,
    limit: usize,
    since: &Option<String>,
    until: &Option<String>,
) -> (r: Result<Request, TimeError>)
    ensures
        match r {
            Ok(
                Request::Search { keyword: k, chats: c, limit: l, since: s, until: u, msg_type: t },
            ) => {
                &&& k == keyword && l == limit && t is None
                &&& c == (if chats@.len() == 0 {
                    None
                } else {
                    Some(chats)
                })
                &&& gives_time(held(*since), s)
                &&& gives_end(held(*until), u)
            },
            Ok(_) => false,
            Err(e) => is_unread_time(held(*since), held(*until), e.text@),
        },
{
    match time_span(since, until) {
        Ok((s, u)) => {
            let asked = if chats.len() == 0 {
                None
            } else {
                Some(chats)
            };
            Ok(Request::Search { keyword, chats: asked, limit, since: s, until: u, msg_type: None })
        },
        Err(e) => Err(e),
    }
}

} // verus!
