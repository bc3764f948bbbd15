use std::collections::HashMap;
use vstd::prelude::*;

use crate::content::{extract_xml_text, shown_name, xml_text};
use crate::names::Names;
use crate::order::{order_of, orders, precedes, sort_by_keys};
use crate::posts::{author_of, author_shown, or_empty, post_author, show_author, PostRow};
use crate::text::{head, take_chars};
use crate::time::{fmt_time, shows_time, SHORT_TIME};

verus! {

/// A row of the table of notifications.
pub struct NoticeRow {
    /// Its number.
    pub local_id: i64,
    /// When it came.
    pub create_time: i64,
    /// The number of its type.
    pub notice_type: i64,
    /// The number of the post that it is about.
    pub feed_id: i64,
    /// The user name of who it is from.
    pub from_username: String,
    /// The name that they had then; empty where none is kept.
    pub from_nickname: String,
    /// What they wrote; empty where they only liked the post.
    pub content: String,
}

/// Whether some notification is about a post.
pub open spec fn is_about(rows: Seq<NoticeRow>, id: i64) -> bool {
    exists|i: int| 0 <= i < rows.len() && (#[trigger] rows[i]).feed_id == id
}

/// Whether `ids` are the numbers of the posts that some notifications are about, each once and in
/// their order.
pub open spec fn lists_feeds(ids: Seq<i64>, rows: Seq<NoticeRow>) -> bool {
    &&& forall|i: int, j: int| 0 <= i < j < ids.len() ==> #[trigger] ids[i] < #[trigger] ids[j]
    &&& forall|i: int| 0 <= i < ids.len() ==> is_about(rows, #[trigger] ids[i])
    &&& forall|k: int| 0 <= k < rows.len() ==> ids.contains((#[trigger] rows[k]).feed_id)
}

/// The numbers of the posts that some notifications are about.
pub fn feed_ids(rows: &Vec<NoticeRow>) -> (r: Vec<i64>)
    ensures
        lists_feeds(r@, rows@),
{
    let mut all: Vec<i64> = Vec::new();
    let mut i: usize = 0;
    while i < rows.len()
        invariant
            i <= rows.len(),
            all.len() == i,
            forall|j: int| 0 <= j < i ==> #[trigger] all@[j] == rows@[j].feed_id,
        decreases rows.len() - i,
    {
        all.push(rows[i].feed_id);
        i = i + 1;
    }
    let ghost before = all@;
    let keys = all.clone();
    assert(keys@ =~= before);
    let ghost order = order_of(keys@);
    let sorted = sort_by_keys(all, &keys);
    proof {
        assert(orders(keys@, order, 0, keys@.len() as int));
        assert forall|i: int, j: int| 0 <= i < j < sorted.len() implies #[trigger] sorted@[i]
            <= #[trigger] sorted@[j] by {
            assert(sorted@[i] == keys@[order[i]] && sorted@[j] == keys@[order[j]]);
            assert(precedes(keys@, order[i], order[j]));
        }
        assert forall|i: int| 0 <= i < sorted.len() implies is_about(
            rows@,
            #[trigger] sorted@[i],
        ) by {
            assert(sorted@[i] == before[order[i]]);
            assert(rows@[order[i]].feed_id == sorted@[i]);
        }
        assert forall|k: int| 0 <= k < rows@.len() implies sorted@.contains(
            (#[trigger] rows@[k]).feed_id,
        ) by {
            assert(order.contains(k));
            let q = choose|q: int| 0 <= q < order.len() && order[q] == k;
            assert(sorted@[q] == before[k]);
        }
    }
    let mut out: Vec<i64> = Vec::new();
    let mut n: usize = 0;
    while n < sorted.len()
        invariant
            n <= sorted.len(),
            forall|i: int, j: int|
                0 <= i < j < sorted.len() ==> #[trigger] sorted@[i] <= #[trigger] sorted@[j],
            forall|i: int| 0 <= i < sorted.len() ==> is_about(rows@, #[trigger] sorted@[i]),
            forall|i: int, j: int|
                0 <= i < j < out.len() ==> #[trigger] out@[i] < #[trigger] out@[j],
            forall|i: int| 0 <= i < out.len() ==> is_about(rows@, #[trigger] out@[i]),
            forall|i: int| 0 <= i < n ==> out@.contains(#[trigger] sorted@[i]),
            n == 0 ==> out.len() == 0,
            n > 0 ==> out.len() > 0 && out@[out.len() - 1] == sorted@[n - 1],
        decreases sorted.len() - n,
    {
        let id: i64 = sorted[n];
        if out.len() == 0 || out[out.len() - 1] != id {
            let ghost before = out@;
            out.push(id);
            proof {
                assert forall|i: int| 0 <= i < n + 1 implies out@.contains(
                    #[trigger] sorted@[i],
                ) by {
                    if i < n {
                        assert(before.contains(sorted@[i]));
                        let q = choose|q: int| 0 <= q < before.len() && before[q] == sorted@[i];
                        assert(out@[q] == sorted@[i]);
                    } else {
                        assert(out@[before.len() as int] == sorted@[i]);
                    }
                }
            }
        } else {
            assert(out@[out.len() - 1] == sorted@[n as int]);
        }
        n = n + 1;
    }
    assert forall|k: int| 0 <= k < rows@.len() implies out@.contains(
        (#[trigger] rows@[k]).feed_id,
    ) by {
        assert(sorted@.contains(rows@[k].feed_id));
    }
    out
}

/// What is shown of a post that a notification is about.
pub struct Feed {
    /// The user name of its author.
    pub author: String,
    /// The beginning of its text.
    pub preview: String,
}

/// How many characters of a post are shown.
pub const FEED_PREVIEW_CHARS: usize = 60;

/// The beginning of the text of a post.
pub open spec fn feed_preview(xml: Seq<char>) -> Seq<char> {
    head(or_empty(xml_text(xml, "contentDesc"@)), FEED_PREVIEW_CHARS as int)
}

impl Feed {
    /// Whether this is what is shown of a post.
    pub open spec fn tells(&self, row: PostRow) -> bool {
        &&& self.author@ == post_author(row.user_name@, row.content@)
        &&& self.preview@ == feed_preview(row.content@)
    }
}

/// What is shown of a post.
pub fn feed_of(row: &PostRow) -> (r: Feed)
    ensures
        r.tells(*row),
{
    let preview = match extract_xml_text(row.content.as_str(), "contentDesc") {
        Some(s) => take_chars(s.as_str(), FEED_PREVIEW_CHARS),
        None => String::new(),
    };
    Feed { author: author_of(row.user_name.as_str(), row.content.as_str()), preview }
}

/// The last row of the post with a number, where there is one.
pub open spec fn last_row(rows: Seq<PostRow>, id: i64) -> Option<PostRow>
    decreases rows.len(),
{
    if rows.len() == 0 {
        None
    } else if rows.last().tid == id {
        Some(rows.last())
    } else {
        last_row(rows.drop_last(), id)
    }
}

/// Whether a map gives for the number of each post what is shown of it.
pub open spec fn maps_feeds(m: Map<i64, Feed>, rows: Seq<PostRow>) -> bool {
    forall|id: i64|
        match last_row(rows, id) {
            Some(row) => (#[trigger] m.contains_key(id)) && m[id].tells(row),
            None => !m.contains_key(id),
        }
}

/// What is shown of each post, by its number.
pub fn load_feeds(rows: &Vec<PostRow>) -> (r: HashMap<i64, Feed>)
    ensures
        maps_feeds(r@, rows@),
{
    broadcast use vstd::std_specs::hash::group_hash_axioms;

    let mut map: HashMap<i64, Feed> = HashMap::new();
    let mut i: usize = 0;
    while i < rows.len()
        invariant
            i <= rows.len(),
            maps_feeds(map@, rows@.take(i as int)),
        decreases rows.len() - i,
    {
        broadcast use vstd::std_specs::hash::group_hash_axioms;

        let ghost before = map@;
        let feed = feed_of(&rows[i]);
        map.insert(rows[i].tid, feed);
        proof {
            let more = rows@.take(i + 1);
            assert(more.drop_last() =~= rows@.take(i as int));
            assert forall|id: i64|
                match last_row(more, id) {
                    Some(row) => (#[trigger] map@.contains_key(id)) && map@[id].tells(row),
                    None => !map@.contains_key(id),
                } by {
                assert(before.contains_key(id) || !before.contains_key(id));
            }
        }
        i = i + 1;
    }
    assert(rows@.take(i as int) =~= rows@);
    map
}

/// A notification as it is listed.
pub struct Notice {
    /// `like` or `comment`.
    pub kind: &'static str,
    /// When it came, as a text.
    pub time: String,
    /// When it came.
    pub timestamp: i64,
    /// The user name of who it is from.
    pub from_username: String,
    /// The name of who it is from.
    pub from_nickname: String,
    /// What they wrote.
    pub content: String,
    /// The number of the post that it is about.
    pub feed_id: i64,
    /// The user name of the post's author; empty where the post is not known.
    pub feed_author_username: String,
    /// The display name of the post's author; empty where the post is not known.
    pub feed_author: String,
    /// The beginning of the post; empty where the post is not known.
    pub feed_preview: String,
}

/// The kind of a notification: a comment has a text, a like has none.
pub open spec fn notice_kind(content: Seq<char>) -> Seq<char> {
    if content.len() == 0 {
        "like"@
    } else {
        "comment"@
    }
}

impl Notice {
    /// Whether this is what is listed of a row, given the rows of the posts.
    pub open spec fn tells(&self, row: NoticeRow, posts: Seq<PostRow>, names: Names) -> bool {
        &&& self.kind@ == notice_kind(row.content@)
        &&& shows_time(row.create_time, SHORT_TIME@, self.time@)
        &&& self.timestamp == row.create_time
        &&& self.from_username@ == row.from_username@
        &&& self.from_nickname@ == if row.from_nickname@.len() > 0 {
            row.from_nickname@
        } else {
            shown_name(names.map@, row.from_username@)
        }
        &&& self.content@ == row.content@
        &&& self.feed_id == row.feed_id
        &&& match last_row(posts, row.feed_id) {
            Some(p) => {
                &&& self.feed_author_username@ == post_author(p.user_name@, p.content@)
                &&& self.feed_preview@ == feed_preview(p.content@)
            },
            None => self.feed_author_username@.len() == 0 && self.feed_preview@.len() == 0,
        }
        &&& self.feed_author@ == author_shown(names, self.feed_author_username@)
    }
}

/// What is listed of a notification.
fn notice_entry(
    row: &NoticeRow,
    feeds: &HashMap<i64, Feed>,
    names: &Names,
    posts: Ghost<Seq<PostRow>>,
) -> (r: Notice)
    requires
        maps_feeds(feeds@, posts@),
    ensures
        r.tells(*row, posts@, *names),
{
    broadcast use vstd::std_specs::hash::group_hash_axioms;

    let kind = if row.content.as_str().is_empty() {
        "like"
    } else {
        "comment"
    };
    let from_nickname = if !row.from_nickname.as_str().is_empty() {
        row.from_nickname.clone()
    } else {
        names.display(row.from_username.as_str())
    };
    assert(feeds@.contains_key(row.feed_id) || !feeds@.contains_key(row.feed_id));
    let (feed_author_username, feed_preview) = match feeds.get(&row.feed_id) {
        Some(f) => (f.author.clone(), f.preview.clone()),
        None => (String::new(), String::new()),
    };
    let feed_author = show_author(names, feed_author_username.as_str());
    Notice {
        kind,
        time: fmt_time(row.create_time, SHORT_TIME),
        timestamp: row.create_time,
        from_username: row.from_username.clone(),
        from_nickname,
        content: row.content.clone(),
        feed_id: row.feed_id,
        feed_author_username,
        feed_author,
        feed_preview,
    }
}

/// A list of notifications.
pub struct NoticeList {
    /// The notifications.
    pub notifications: Vec<Notice>,
    /// How many there are.
    pub total: usize,
}

/// The notifications, one for each row, with what is shown of the posts they are about.
pub fn q_sns_notifications(names: &Names, rows: &Vec<NoticeRow>, posts: &Vec<PostRow>) -> (r:
    NoticeList)
    ensures
        r.notifications@.len() == rows@.len(),
        forall|i: int|
            0 <= i < rows@.len() ==> (#[trigger] r.notifications@[i]).tells(
                rows@[i],
                posts@,
                *names,
            ),
        r.total == rows@.len(),
{
    let feeds = load_feeds(posts);
    let mut out: Vec<Notice> = Vec::new();
    let mut i: usize = 0;
    while i < rows.len()
        invariant
            i <= rows.len(),
            out.len() == i,
            maps_feeds(feeds@, posts@),
            forall|j: int| 0 <= j < i ==> (#[trigger] out@[j]).tells(rows@[j], posts@, *names),
        decreases rows.len() - i,
    {
        out.push(notice_entry(&rows[i], &feeds, names, Ghost(posts@)));
        i = i + 1;
    }
    NoticeList { total: out.len(), notifications: out }
}

} // verus!
