use vstd::prelude::*;

use crate::content::xml_text;
use crate::laws::order::{law_first_stays_first, law_sorted_elements};
use crate::laws::text::{
    law_found_behind, law_not_found_without, law_split_at_leftmost, law_stands_where_found,
};
use crate::names::{resolves, Names};
use crate::number::i64_of;
use crate::order::{law_sorted_in_order, Descending, SortKey};
use crate::outside::lowercase;
use crate::patterns::{location_at, location_chosen, location_in, media_tags};
use crate::posts::{
    finds_author, law_listed_posts_wanted, listed_posts, newest_posts, post_media, post_text, said,
    scanned, text_of, wanted_posts, ParsedPost, Post, PostFilter, PostList, PostRow, PostText,
};
use crate::text::{occurs, occurs_at};
use crate::time::shows_time;

verus! {

/// Every post that is listed lies within the time that was asked for, with or without a keyword.
pub proof fn law_listed_in_time(rows: Seq<PostRow>, f: PostFilter, limit: int, i: int)
    requires
        0 <= limit,
        0 <= i < listed_posts(rows, f, limit).len(),
    ensures
        f.since matches Some(s) ==> listed_posts(rows, f, limit)[i].create_time >= s,
        f.until matches Some(u) ==> listed_posts(rows, f, limit)[i].create_time <= u,
{
    law_listed_posts_wanted(rows, f, limit, i);
}

/// Every post that is listed is of the author who was asked for, and holds the keyword but for
/// upper and lower case.
pub proof fn law_listed_as_asked(rows: Seq<PostRow>, f: PostFilter, limit: int, i: int)
    requires
        0 <= limit,
        0 <= i < listed_posts(rows, f, limit).len(),
    ensures
        f.author matches Some(a) ==> listed_posts(rows, f, limit)[i].author == a@,
        f.keyword matches Some(k) ==> occurs(
            lowercase(listed_posts(rows, f, limit)[i].content),
            lowercase(k@),
        ),
{
    law_listed_posts_wanted(rows, f, limit, i);
}

/// A post within the time, of the author and with the keyword is not left out, as long as the list
/// is not full.
pub proof fn law_post_not_left_out(rows: Seq<PostRow>, f: PostFilter, limit: int, k: int)
    requires
        0 <= limit,
        0 <= k < scanned(rows).len(),
        f.since matches Some(s) ==> scanned(rows)[k].create_time >= s,
        f.until matches Some(u) ==> scanned(rows)[k].create_time <= u,
        f.author matches Some(a) ==> scanned(rows)[k].author == a@,
        f.keyword matches Some(w) ==> occurs(
            lowercase(scanned(rows)[k].content),
            lowercase(w@),
        ),
        listed_posts(rows, f, limit).len() < limit,
        listed_posts(rows, f, limit).len() < 10000,
    ensures
        listed_posts(rows, f, limit).contains(scanned(rows)[k]),
{
    broadcast use vstd::seq_lib::group_to_multiset_ensures;

    let want = |p: PostText| f.wants(p);
    let all = wanted_posts(rows, f);
    let p = scanned(rows)[k];
    assert(want(scanned(rows)[k]));
    scanned(rows).lemma_filter_contains(want, k);
    assert(all.contains(p));
    let key = |p: PostText| Descending(p.create_time);
    law_sorted_elements(all, key);
    assert(all.to_multiset().contains(p));
    assert(newest_posts(all).to_multiset().contains(p));
    assert(newest_posts(all).contains(p));
    assert(listed_posts(rows, f, limit) == newest_posts(all));
}

/// Posts are listed from the newest on, and no more than are asked for, nor more than ten thousand.
pub proof fn law_posts_in_order(rows: Seq<PostRow>, f: PostFilter, limit: int, i: int, j: int)
    requires
        0 <= limit,
        0 <= i <= j < listed_posts(rows, f, limit).len(),
    ensures
        listed_posts(rows, f, limit).len() <= limit,
        listed_posts(rows, f, limit).len() <= 10000,
        listed_posts(rows, f, limit)[j].create_time <= listed_posts(rows, f, limit)[i].create_time,
{
    let all = wanted_posts(rows, f);
    let key = |p: PostText| Descending(p.create_time);
    law_sorted_in_order(all, key);
    let s = newest_posts(all);
    assert(!key(s[j]).lt(key(s[i])));
}

/// At most fifty thousand rows are read, from the first on, each as what its own row says.
pub proof fn law_rows_scanned(rows: Seq<PostRow>, i: int)
    requires
        0 <= i < rows.len(),
        i < 50000,
    ensures
        scanned(rows).len() == (if rows.len() < 50000 {
            rows.len() as int
        } else {
            50000
        }),
        scanned(rows)[i] == post_text(rows[i].tid, rows[i].user_name@, rows[i].content@),
{
}

/// The author of a post is the one of its row, else the one that its XML names.
pub proof fn law_post_author(tid: i64, user_name: Seq<char>, xml: Seq<char>)
    ensures
        post_text(tid, user_name, xml).tid == tid,
        user_name.len() > 0 ==> post_text(tid, user_name, xml).author == user_name,
        user_name.len() == 0 && xml_text(xml, "username"@) is Some ==> post_text(
            tid,
            user_name,
            xml,
        ).author == xml_text(xml, "username"@)->0,
        user_name.len() == 0 && xml_text(xml, "username"@) is None ==> post_text(
            tid,
            user_name,
            xml,
        ).author.len() == 0,
{
}

/// When a post was sent and what it says is what its XML says.
pub proof fn law_post_said(tid: i64, user_name: Seq<char>, xml: Seq<char>, s: Seq<char>)
    ensures
        xml_text(xml, "createTime"@) == Some(s) && i64_of(s) is Some ==> post_text(
            tid,
            user_name,
            xml,
        ).create_time == i64_of(s)->0,
        xml_text(xml, "createTime"@) == Some(s) && i64_of(s) is None ==> post_text(
            tid,
            user_name,
            xml,
        ).create_time == 0,
        xml_text(xml, "createTime"@) is None ==> post_text(tid, user_name, xml).create_time == 0,
        xml_text(xml, "contentDesc"@) == Some(s) ==> post_text(tid, user_name, xml).content == s,
        xml_text(xml, "contentDesc"@) is None ==> post_text(tid, user_name, xml).content.len() == 0,
        location_in(xml) == Some(s) ==> post_text(tid, user_name, xml).location == s,
        location_in(xml) is None ==> post_text(tid, user_name, xml).location.len() == 0,
        post_text(tid, user_name, xml).media_count == post_media(xml) as i64,
{
}

/// The media of a post are those in its first list and in what follows the list.
pub proof fn law_media_in_lists(a: Seq<char>, inner: Seq<char>, b: Seq<char>)
    requires
        !a.contains('<'),
        crate::text::find(inner + "</mediaList>"@ + b, "</mediaList>"@) == Some(inner.len() as int),
    ensures
        post_media(a + "<mediaList>"@ + (inner + "</mediaList>"@ + b)) == media_tags(inner)
            + post_media(b),
{
    reveal_strlit("<mediaList>");
    let rest = inner + "</mediaList>"@ + b;
    let xml = a + "<mediaList>"@ + rest;
    law_found_behind(a, "<mediaList>"@, rest, '<');
    law_split_at_leftmost(a, "<mediaList>"@, rest);
    law_split_at_leftmost(inner, "</mediaList>"@, b);
    law_stands_where_found(xml, "<mediaList>"@);
    law_stands_where_found(rest, "</mediaList>"@);
}

/// There are no media outside of lists, nor in a list that is not closed.
pub proof fn law_no_media(xml: Seq<char>)
    requires
        match crate::text::find(xml, "<mediaList>"@) {
            Some(i) => crate::text::find(xml.skip(i + 11), "</mediaList>"@) is None,
            None => true,
        },
    ensures
        post_media(xml) == 0,
{
    reveal_strlit("<mediaList>");
    law_stands_where_found(xml, "<mediaList>"@);
    if let Some(i) = crate::text::find(xml, "<mediaList>"@) {
        law_stands_where_found(xml.skip(i + 11), "</mediaList>"@);
    }
}

/// Each `<media>` tag counts one.
pub proof fn law_media_tags(a: Seq<char>, b: Seq<char>)
    requires
        !a.contains('<'),
    ensures
        media_tags(a) == 0,
        media_tags(a + seq!['<', 'm', 'e', 'd', 'i', 'a', '>'] + b) == 1 + media_tags(b),
{
    reveal_strlit("<media>");
    let p = "<media>"@;
    assert(p =~= seq!['<', 'm', 'e', 'd', 'i', 'a', '>']);
    law_not_found_without(a, p, '<');
    law_found_behind(a, p, b, '<');
    assert((a + p + b).skip((a.len() + p.len()) as int) =~= b);
}

/// The place of a post is the `poiName` of its location tag.
pub proof fn law_location(a: Seq<char>, mid: Seq<char>, name: Seq<char>, b: Seq<char>)
    requires
        !a.contains('<'),
        !mid.contains('>'),
        !mid.contains('"'),
        !name.contains('"'),
        !b.contains('"'),
    ensures
        location_in(
            a + "<location"@ + mid + "poiName=\""@ + name + seq!['"'] + b,
        ) == Some(name),
{
    reveal_strlit("<location");
    reveal_strlit("poiName=\"");
    let l = "<location"@;
    let p = "poiName=\""@;
    let s = a + l + mid + p + name + seq!['"'] + b;
    let i = a.len() as int;
    let k = (a.len() + 9 + mid.len() + 9) as int;
    assert(s.subrange(i, i + 9) =~= l);
    assert(s.subrange(k - 9, k) =~= p);
    assert forall|j: int| i + 9 <= j < k - 9 implies s[j] != '>' by {
        assert(s[j] == mid[j - i - 9]);
    }
    let tail = s.skip(k);
    assert(tail =~= name + seq!['"'] + b);
    assert(tail[name.len() as int] == '"');
    assert(location_at(s, i, k));
    assert forall|i2: int, k2: int| location_at(s, i2, k2) implies i <= i2 && (i2 == i ==> k2
        <= k) by {
        assert(s.subrange(i2, i2 + 9)[0] == '<');
        if i2 < i {
            assert(a[i2] == '<');
        }
        if k2 > k {
            assert(s.subrange(k2 - 9, k2)[8] == '"');
            assert(s[k2 - 1] == '"');
            let q = k2 - 1 - k;
            if q < name.len() {
                assert(name[q] == s[k2 - 1]);
            } else if q > name.len() {
                assert(b[q - name.len() - 1] == s[k2 - 1]);
            } else {
                let left = s.skip(k2);
                let z = choose|z: int| 0 <= z < left.len() && left[z] == '"';
                assert(b[z] == left[z]);
            }
        }
    }
    assert(location_chosen(s, i, k));
    let (i3, k3) = choose|i3: int, k3: int| location_chosen(s, i3, k3);
    assert(location_chosen(s, i3, k3));
    assert(i3 == i && k3 == k);
    let n = tail.index_of_first('"')->0;
    assert(tail.index_of_first('"') == Some(name.len() as int)) by {
        tail.index_of_first_ensures('"');
        if n < name.len() {
            assert(tail[n] == name[n]);
        }
    }
    assert(tail.take(name.len() as int) =~= name);
}

/// A post without a location tag is of no place.
pub proof fn law_no_location(xml: Seq<char>)
    requires
        crate::text::find(xml, "<location"@) is None,
    ensures
        location_in(xml) is None,
{
    law_stands_where_found(xml, "<location"@);
    assert forall|i: int, k: int| !location_at(xml, i, k) by {
        if location_at(xml, i, k) {
            assert(occurs_at(xml, "<location"@, i));
        }
    }
}

/// The author who is asked for is the one whom the name means.
pub proof fn law_author_asked(names: Names, user: Seq<char>, r: Option<Seq<char>>)
    ensures
        finds_author(names, Some(user), r) ==> r is Some && resolves(names.map@, user, r),
        r is Some && resolves(names.map@, user, r) ==> finds_author(names, Some(user), r),
        finds_author(names, None, r) <==> r is None,
{
}

/// A request for posts is met with the time and the keyword that it gives.
pub proof fn law_posts_asked(
    f: PostFilter,
    names: Names,
    user: Option<Seq<char>>,
    since: Option<i64>,
    until: Option<i64>,
    keyword: Option<Seq<char>>,
)
    requires
        f.asks(names, user, since, until, keyword),
    ensures
        f.since == since,
        f.until == until,
        match keyword {
            Some(k) => f.keyword is Some && f.keyword->0@ == k,
            None => f.keyword is None,
        },
        user is None <==> f.author is None,
        user is Some ==> resolves(names.map@, user->0, Some(f.author->0@)),
{
}

/// A post is listed with what it says, and under the display name of its author.
pub proof fn law_post_listed(p: Post, said: PostText, names: Names)
    requires
        p.tells(said, names),
    ensures
        p.post.tid == said.tid,
        p.post.create_time == said.create_time,
        p.post.author_username@ == said.author,
        p.post.content@ == said.content,
        p.post.media_count == said.media_count,
        p.post.location@ == said.location,
        shows_time(said.create_time, "%Y-%m-%d %H:%M"@, p.time@),
        said.author.len() == 0 ==> p.author@.len() == 0,
        said.author.len() > 0 && names.map@.contains_key(said.author) ==> p.author@
            == names.map@[said.author]@,
        said.author.len() > 0 && !names.map@.contains_key(said.author) ==> p.author@ == said.author,
{
}

/// A list of posts lists them one by one, and says how many they are.
pub proof fn law_post_list(list: PostList, all: Seq<PostText>, names: Names, i: int)
    requires
        list.tells(all, names),
        0 <= i < all.len(),
    ensures
        list.posts@.len() == all.len(),
        list.total == all.len(),
        list.posts@[i].tells(all[i], names),
{
}

/// What posts say is what their fields hold, one by one.
pub proof fn law_said(all: Seq<ParsedPost>, i: int)
    requires
        0 <= i < all.len(),
    ensures
        said(all).len() == all.len(),
        said(all)[i].tid == all[i].tid,
        said(all)[i].create_time == all[i].create_time,
        said(all)[i].author == all[i].author_username@,
        said(all)[i].content == all[i].content@,
        said(all)[i].media_count == all[i].media_count,
        said(all)[i].location == all[i].location@,
{
}

/// A name is asked for just where one is given.
pub proof fn law_name_given(s: &str)
    ensures
        text_of(Some(s)) == Some(s@),
        text_of(None) is None,
{
}

/// Posts of one second keep their order.
pub proof fn law_posts_keep_order(all: Seq<PostText>, p: int, q: int) -> (at: (int, int))
    requires
        0 <= p < q < all.len(),
        all[p].create_time == all[q].create_time,
    ensures
        0 <= at.0 < at.1 < newest_posts(all).len(),
        newest_posts(all)[at.0] == all[p],
        newest_posts(all)[at.1] == all[q],
{
    law_first_stays_first(all, |p: PostText| Descending(p.create_time), p, q)
}

} // verus!
