use vstd::prelude::*;

use crate::text::{concat2, head, take_chars};
use crate::time::{fmt_time, shows_time, LONG_TIME};

verus! {

/// A row of the table of favourites.
pub struct FavoriteRow {
    /// Its number.
    pub local_id: i64,
    /// The number of its type.
    pub fav_type: i64,
    /// When it was kept, in seconds or milliseconds.
    pub update_time: i64,
    /// What it holds.
    pub content: String,
    /// Who it is from.
    pub fromusr: String,
    /// The chat that it is from.
    pub chatname: String,
}

/// The label of a type of favourite.
pub open spec fn favorite_label(t: i64) -> Seq<char> {
    if t == 1 {
        "文本"@
    } else if t == 2 {
        "图片"@
    } else if t == 5 {
        "文章"@
    } else if t == 19 {
        "名片"@
    } else if t == 20 {
        "视频"@
    } else {
        "其他"@
    }
}

/// The label of a type of favourite.
pub fn favorite_type(t: i64) -> (r: &'static str)
    ensures
        r@ == favorite_label(t),
{
    match t {
        1 => "文本",
        2 => "图片",
        5 => "文章",
        19 => "名片",
        20 => "视频",
        _ => "其他",
    }
}

/// How many characters of a favourite are shown.
pub const PREVIEW_CHARS: usize = 100;

/// The beginning of a text, with dots where there is more.
pub open spec fn preview(s: Seq<char>) -> Seq<char> {
    if s.len() > PREVIEW_CHARS {
        head(s, PREVIEW_CHARS as int) + "..."@
    } else {
        s
    }
}

/// The beginning of a text, with dots where there is more.
pub fn preview_of(s: &str) -> (r: String)
    ensures
        r@ == preview(s@),
{
    let begin = take_chars(s, PREVIEW_CHARS);
    if s.unicode_len() > PREVIEW_CHARS {
        concat2(begin.as_str(), "...")
    } else {
        begin
    }
}

/// The greatest time that is taken for seconds.
pub const MAX_SECONDS: i64 = 9_999_999_999;

/// A time in seconds: one of more than ten digits is in milliseconds.
pub open spec fn in_seconds(ts: i64) -> int {
    if ts > MAX_SECONDS {
        ts as int / 1000
    } else {
        ts as int
    }
}

/// A time in seconds.
pub fn to_seconds(ts: i64) -> (r: i64)
    ensures
        r == in_seconds(ts),
{
    if ts > MAX_SECONDS {
        ts / 1000
    } else {
        ts
    }
}

/// A favourite as it is listed.
pub struct Favorite {
    /// Its number.
    pub id: i64,
    /// The label of its type.
    pub kind: &'static str,
    /// The number of its type.
    pub type_num: i64,
    /// When it was kept, as a text.
    pub time: String,
    /// When it was kept.
    pub timestamp: i64,
    /// The beginning of what it holds.
    pub preview: String,
    /// Who it is from.
    pub from: String,
    /// The chat that it is from.
    pub chat: String,
}

impl Favorite {
    /// Whether this is what is listed of a row.
    pub open spec fn tells(&self, row: FavoriteRow) -> bool {
        &&& self.id == row.local_id
        &&& self.kind@ == favorite_label(row.fav_type)
        &&& self.type_num == row.fav_type
        &&& self.timestamp == in_seconds(row.update_time)
        &&& shows_time(self.timestamp, LONG_TIME@, self.time@)
        &&& self.preview@ == preview(row.content@)
        &&& self.from@ == row.fromusr@
        &&& self.chat@ == row.chatname@
    }
}

/// What is listed of a favourite.
pub fn favorite_entry(row: &FavoriteRow) -> (r: Favorite)
    ensures
        r.tells(*row),
{
    let timestamp: i64 = to_seconds(row.update_time);
    Favorite {
        id: row.local_id,
        kind: favorite_type(row.fav_type),
        type_num: row.fav_type,
        time: fmt_time(timestamp, LONG_TIME),
        timestamp,
        preview: preview_of(row.content.as_str()),
        from: row.fromusr.clone(),
        chat: row.chatname.clone(),
    }
}

/// A list of favourites.
pub struct FavoriteList {
    /// How many there are.
    pub count: usize,
    /// The favourites.
    pub items: Vec<Favorite>,
}

/// The favourites, one for each row.
pub fn q_favorites(rows: &Vec<FavoriteRow>) -> (r: FavoriteList)
    ensures
        r.count == rows@.len(),
        r.items@.len() == rows@.len(),
        forall|i: int| 0 <= i < rows@.len() ==> (#[trigger] r.items@[i]).tells(rows@[i]),
        forall|i: int|
            0 <= i < rows@.len() ==> (#[trigger] r.items@[i]).from@ == rows@[i].fromusr@
                && r.items@[i].chat@ == rows@[i].chatname@ && r.items@[i].id == rows@[i].local_id,
{
    let mut items: Vec<Favorite> = Vec::new();
    let mut i: usize = 0;
    while i < rows.len()
        invariant
            i <= rows.len(),
            items.len() == i,
            forall|j: int| 0 <= j < i ==> (#[trigger] items@[j]).tells(rows@[j]),
        decreases rows.len() - i,
    {
        items.push(favorite_entry(&rows[i]));
        i = i + 1;
    }
    FavoriteList { count: items.len(), items }
}

} // verus!
