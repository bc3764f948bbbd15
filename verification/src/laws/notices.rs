use vstd::prelude::*;

use crate::content::xml_text;
use crate::names::Names;
use crate::notices::{feed_preview, last_row, lists_feeds, maps_feeds, Feed, Notice, NoticeRow};
use crate::posts::{post_author, PostRow};
use crate::time::shows_time;

verus! {

/// A notification is listed with what its row says of it: one with a text is a comment, one without
/// a like.
pub proof fn law_notice_listed(n: Notice, row: NoticeRow, posts: Seq<PostRow>, names: Names)
    requires
        n.tells(row, posts, names),
    ensures
        row.content@.len() == 0 ==> n.kind@ == "like"@,
        row.content@.len() > 0 ==> n.kind@ == "comment"@,
        n.content@ == row.content@,
        n.timestamp == row.create_time,
        shows_time(row.create_time, "%m-%d %H:%M"@, n.time@),
        n.feed_id == row.feed_id,
        n.from_username@ == row.from_username@,
{
}

/// Who a notification is from: by the name of the row, else by that of the contacts, else by the
/// user name.
pub proof fn law_notice_from(n: Notice, row: NoticeRow, posts: Seq<PostRow>, names: Names)
    requires
        n.tells(row, posts, names),
    ensures
        row.from_nickname@.len() > 0 ==> n.from_nickname@ == row.from_nickname@,
        row.from_nickname@.len() == 0 && names.map@.contains_key(row.from_username@)
            ==> n.from_nickname@ == names.map@[row.from_username@]@,
        row.from_nickname@.len() == 0 && !names.map@.contains_key(row.from_username@)
            ==> n.from_nickname@ == row.from_username@,
{
}

/// The post that a notification is about: the last row with its number tells the author and the
/// first sixty characters.
pub proof fn law_notice_post(
    n: Notice,
    row: NoticeRow,
    posts: Seq<PostRow>,
    names: Names,
    i: int,
    said: Seq<char>,
)
    requires
        n.tells(row, posts, names),
        0 <= i < posts.len(),
        posts[i].tid == row.feed_id,
        forall|j: int| i < j < posts.len() ==> (#[trigger] posts[j]).tid != row.feed_id,
        xml_text(posts[i].content@, "contentDesc"@) == Some(said) || (xml_text(
            posts[i].content@,
            "contentDesc"@,
        ) is None && said.len() == 0),
    ensures
        posts[i].user_name@.len() > 0 ==> n.feed_author_username@ == posts[i].user_name@,
        posts[i].user_name@.len() == 0 && xml_text(posts[i].content@, "username"@) is Some
            ==> n.feed_author_username@ == xml_text(posts[i].content@, "username"@)->0,
        said.len() <= 60 ==> n.feed_preview@ == said,
        said.len() > 60 ==> n.feed_preview@ == said.take(60),
        ({
            let author = n.feed_author_username@;
            &&& author.len() == 0 ==> n.feed_author@.len() == 0
            &&& author.len() > 0 && names.map@.contains_key(author) ==> n.feed_author@
                == names.map@[author]@
            &&& author.len() > 0 && !names.map@.contains_key(author) ==> n.feed_author@ == author
        }),
{
    law_last_row(posts, i);
    if said.len() == 0 {
        assert(said =~= Seq::<char>::empty());
    }
}

/// Of a post that is not known nothing is told.
pub proof fn law_notice_without_post(
    n: Notice,
    row: NoticeRow,
    posts: Seq<PostRow>,
    names: Names,
)
    requires
        n.tells(row, posts, names),
        forall|j: int| 0 <= j < posts.len() ==> (#[trigger] posts[j]).tid != row.feed_id,
    ensures
        n.feed_author_username@.len() == 0,
        n.feed_author@.len() == 0,
        n.feed_preview@.len() == 0,
{
    law_no_row(posts, row.feed_id);
}

/// The last row with a number is the one behind which there is none.
pub proof fn law_last_row(rows: Seq<PostRow>, i: int)
    requires
        0 <= i < rows.len(),
        forall|j: int| i < j < rows.len() ==> (#[trigger] rows[j]).tid != rows[i].tid,
    ensures
        last_row(rows, rows[i].tid) == Some(rows[i]),
    decreases rows.len(),
{
    let rest = rows.drop_last();
    if i < rest.len() {
        assert(rows[rows.len() - 1].tid != rows[i].tid);
        assert forall|j: int| i < j < rest.len() implies (#[trigger] rest[j]).tid != rest[i].tid by {
            assert(rows[j].tid != rows[i].tid);
        }
        law_last_row(rest, i);
    }
}

/// There is no last row without a row.
pub proof fn law_no_row(rows: Seq<PostRow>, id: i64)
    requires
        forall|j: int| 0 <= j < rows.len() ==> (#[trigger] rows[j]).tid != id,
    ensures
        last_row(rows, id) is None,
    decreases rows.len(),
{
    if rows.len() > 0 {
        let rest = rows.drop_last();
        assert(rows[rows.len() - 1].tid != id);
        assert forall|j: int| 0 <= j < rest.len() implies (#[trigger] rest[j]).tid != id by {
            assert(rows[j].tid != id);
        }
        law_no_row(rest, id);
    }
}

/// The posts that are asked for are just those that a notification is about, each once.
pub proof fn law_feeds_asked(ids: Seq<i64>, rows: Seq<NoticeRow>, id: i64)
    requires
        lists_feeds(ids, rows),
    ensures
        ids.contains(id) <==> exists|k: int| 0 <= k < rows.len() && (#[trigger] rows[k]).feed_id
            == id,
        ids.no_duplicates(),
{
    if ids.contains(id) {
        let i = choose|i: int| 0 <= i < ids.len() && ids[i] == id;
        assert(crate::notices::is_about(rows, ids[i]));
    }
}

/// What is shown of a post is what its last row says.
pub proof fn law_feed_shown(m: Map<i64, Feed>, rows: Seq<PostRow>, i: int)
    requires
        maps_feeds(m, rows),
        0 <= i < rows.len(),
        forall|j: int| i < j < rows.len() ==> (#[trigger] rows[j]).tid != rows[i].tid,
    ensures
        m.contains_key(rows[i].tid),
        m[rows[i].tid].author@ == post_author(rows[i].user_name@, rows[i].content@),
        m[rows[i].tid].preview@ == feed_preview(rows[i].content@),
{
    law_last_row(rows, i);
    let id = rows[i].tid;
    let row = last_row(rows, id)->0;
    assert(m.contains_key(id));
    assert(m[id].tells(row));
}

} // verus!
