use vstd::prelude::*;
use vstd::slice::slice_subrange;

use crate::content::{extract_xml_text, shown_name, xml_text};
use crate::messages::QueryError;
use crate::names::{resolve_username, resolves, Names};
use crate::number::{i64_of, parse_i64};
use crate::order::{
    arranged, first_of, law_sorted_in_order, order_of, sort_by_keys, sorted_by, Descending,
};
use crate::outside::{lowercase, regex_capture, regex_count, to_lowercase};
use crate::patterns::{
    lemma_count_apart, location_in, media_tags, LOCATION_PATTERN, MEDIA_PATTERN,
};
use crate::text::{
    after, before, chars_of, contains, held, lemma_find_some, occurs, position_of, same, string_of,
    trim, trimmed,
};
use crate::time::{fmt_time, shows_time, LONG_TIME};

verus! {

/// The greatest number of posts that one query lists.
pub const SNS_MAX_LIMIT: usize = 10_000;

/// The greatest number of rows that one query reads.
pub const SNS_MAX_SCAN: usize = 50_000;

/// A row of the table of posts.
pub struct PostRow {
    /// The number of the post.
    pub tid: i64,
    /// The user name of its author; empty for some posts.
    pub user_name: String,
    /// The post itself, in XML.
    pub content: String,
}

/// What the XML of a post says.
pub struct ParsedPost {
    /// The number of the post.
    pub tid: i64,
    /// When it was sent; zero where that is not said.
    pub create_time: i64,
    /// The user name of its author; empty where it is not said.
    pub author_username: String,
    /// The text.
    pub content: String,
    /// How many pictures and films it has.
    pub media_count: i64,
    /// The place; empty where none is said.
    pub location: String,
}

/// What a post says, with plain texts.
pub struct PostText {
    /// The number of the post.
    pub tid: i64,
    /// When it was sent.
    pub create_time: i64,
    /// The user name of its author.
    pub author: Seq<char>,
    /// The text.
    pub content: Seq<char>,
    /// How many pictures and films it has.
    pub media_count: i64,
    /// The place.
    pub location: Seq<char>,
}

impl View for ParsedPost {
    type V = PostText;

    open spec fn view(&self) -> PostText {
        PostText {
            tid: self.tid,
            create_time: self.create_time,
            author: self.author_username@,
            content: self.content@,
            media_count: self.media_count,
            location: self.location@,
        }
    }
}

/// A text, or the empty one.
pub open spec fn or_empty(s: Option<Seq<char>>) -> Seq<char> {
    match s {
        Some(t) => t,
        None => Seq::empty(),
    }
}

/// The author of a post: as its row says, else as its XML says.
pub open spec fn post_author(user_name: Seq<char>, xml: Seq<char>) -> Seq<char> {
    if user_name.len() == 0 {
        or_empty(xml_text(xml, "username"@))
    } else {
        user_name
    }
}

/// When a post was sent; zero where its XML gives no number.
pub open spec fn post_time(xml: Seq<char>) -> i64 {
    match xml_text(xml, "createTime"@) {
        Some(s) => match i64_of(s) {
            Some(t) => t,
            None => 0,
        },
        None => 0,
    }
}

/// How many pictures and films a post has: the media tags in its lists of media, as far as the
/// lists are closed.
pub open spec fn post_media(xml: Seq<char>) -> nat
    decreases xml.len()
    via lists_shrink
{
    let rest = after(xml, "<mediaList>"@);
    if occurs(xml, "<mediaList>"@) && occurs(rest, "</mediaList>"@) {
        media_tags(before(rest, "</mediaList>"@)) + post_media(after(rest, "</mediaList>"@))
    } else {
        0
    }
}

#[via_fn]
proof fn lists_shrink(xml: Seq<char>) {
    let rest = after(xml, "<mediaList>"@);
    lemma_find_some(xml, "<mediaList>"@);
    lemma_find_some(rest, "</mediaList>"@);
    reveal_strlit("<mediaList>");
}

/// What a post says.
pub open spec fn post_text(tid: i64, user_name: Seq<char>, xml: Seq<char>) -> PostText {
    post_text_with(tid, user_name, xml, post_media(xml), location_in(xml))
}

/// A part of an XML text, or the empty text.
fn xml_or_empty(xml: &str, tag: &str) -> (r: String)
    ensures
        r@ == or_empty(xml_text(xml@, tag@)),
{
    match extract_xml_text(xml, tag) {
        Some(s) => s,
        None => String::new(),
    }
}

/// The author of a post.
pub fn author_of(user_name: &str, xml: &str) -> (r: String)
    ensures
        r@ == post_author(user_name@, xml@),
{
    if user_name.is_empty() {
        xml_or_empty(xml, "username")
    } else {
        user_name.to_owned()
    }
}

/// What the XML of a post says, given how many media tags and which place it has.
pub open spec fn post_text_with(
    tid: i64,
    user_name: Seq<char>,
    xml: Seq<char>,
    media: nat,
    location: Option<Seq<char>>,
) -> PostText {
    PostText {
        tid,
        create_time: post_time(xml),
        author: post_author(user_name, xml),
        content: or_empty(xml_text(xml, "contentDesc"@)),
        media_count: media as i64,
        location: or_empty(location),
    }
}

/// What the XML of a post says, given how many media tags and which place it has.
pub fn post_from(
    tid: i64,
    user_name: &str,
    xml: &str,
    media: usize,
    location: &Option<String>,
) -> (r: ParsedPost)
    ensures
        r@ == post_text_with(tid, user_name@, xml@, media as nat, held(*location)),
{
    let create_time: i64 = match extract_xml_text(xml, "createTime") {
        Some(s) => match parse_i64(s.as_str()) {
            Some(t) => t,
            None => 0,
        },
        None => 0,
    };
    let content = xml_or_empty(xml, "contentDesc");
    let author_username = author_of(user_name, xml);
    let location = match location {
        Some(s) => s.clone(),
        None => String::new(),
    };
    ParsedPost {
        tid,
        create_time,
        author_username,
        content,
        media_count: media as i64,
        location,
    }
}

/// What the lists of media in a post hold, one list on a line.
fn listed_media(xml: &str) -> (r: String)
    ensures
        media_tags(r@) == post_media(xml@),
{
    let v = chars_of(xml);
    let opening = chars_of("<mediaList>");
    let closing = chars_of("</mediaList>");
    let n: usize = v.len();
    let mut out = String::new();
    let mut k: usize = 0;
    let mut more = true;
    proof {
        reveal_strlit("<media>");
        lemma_find_some(out@, "<media>"@);
        assert(v@.skip(0) =~= xml@);
    }
    while more
        invariant
            k <= n,
            n == v@.len(),
            opening@ == "<mediaList>"@,
            closing@ == "</mediaList>"@,
            media_tags(out@) + (if more {
                post_media(v@.skip(k as int))
            } else {
                0
            }) == post_media(xml@),
        decreases
            n - k + (if more {
                1int
            } else {
                0
            }),
    {
        let ghost left = v@.skip(k as int);
        let ghost so_far = out@;
        more = false;
        assert(v@.subrange(k as int, n as int) =~= left);
        if let Some(i) = position_of(slice_subrange(v.as_slice(), k, n), opening.as_slice()) {
            let a: usize = k + i + opening.len();
            let ghost rest = v@.skip(a as int);
            assert(v@.subrange(a as int, n as int) =~= rest);
            assert(rest =~= after(left, "<mediaList>"@));
            if let Some(j) = position_of(slice_subrange(v.as_slice(), a, n), closing.as_slice()) {
                let list = slice_subrange(v.as_slice(), a, a + j);
                out.push('\n');
                out.append(string_of(list).as_str());
                k = a + j + closing.len();
                more = true;
                proof {
                    reveal_strlit("<media>");
                    reveal_strlit("<mediaList>");
                    assert(list@ =~= before(rest, "</mediaList>"@));
                    assert(v@.skip(k as int) =~= after(rest, "</mediaList>"@));
                    lemma_count_apart(so_far, '\n', list@, "<media>"@);
                    assert(out@ =~= so_far.push('\n') + list@);
                }
            }
        }
    }
    out
}

/// How many pictures and films, and which place, each of some posts has.
fn marks_of(texts: &Vec<&str>) -> (r: (Vec<usize>, Vec<Option<String>>))
    ensures
        r.0@.len() == texts@.len(),
        r.1@.len() == texts@.len(),
        forall|i: int| 0 <= i < texts@.len() ==> #[trigger] r.0@[i] == post_media(texts@[i]@),
        forall|i: int|
            0 <= i < texts@.len() ==> held(#[trigger] r.1@[i]) == location_in(texts@[i]@),
{
    let mut lists: Vec<String> = Vec::new();
    let mut i: usize = 0;
    while i < texts.len()
        invariant
            i <= texts.len(),
            lists.len() == i,
            forall|j: int|
                0 <= j < i ==> media_tags((#[trigger] lists@[j])@) == post_media(texts@[j]@),
        decreases texts.len() - i,
    {
        lists.push(listed_media(texts[i]));
        i = i + 1;
    }
    let mut inner: Vec<&str> = Vec::new();
    let mut k: usize = 0;
    while k < lists.len()
        invariant
            k <= lists.len(),
            inner.len() == k,
            forall|j: int| 0 <= j < k ==> (#[trigger] inner@[j])@ == lists@[j]@,
        decreases lists.len() - k,
    {
        inner.push(lists[k].as_str());
        k = k + 1;
    }
    match (regex_count(MEDIA_PATTERN, &inner), regex_capture(LOCATION_PATTERN, texts)) {
        (Some(counts), Some(places)) => {
            assert forall|i: int| 0 <= i < texts@.len() implies #[trigger] counts@[i]
                == post_media(texts@[i]@) by {
                assert(inner@[i]@ == lists@[i]@);
            }
            (counts, places)
        },
        _ => (Vec::new(), Vec::new()),
    }
}

/// What the XML of a post says.
pub fn parse_post_xml(tid: i64, user_name_column: &str, content: &str) -> (r: ParsedPost)
    ensures
        r@ == post_text(tid, user_name_column@, content@),
{
    let mut texts: Vec<&str> = Vec::new();
    texts.push(content);
    let (media, places) = marks_of(&texts);
    assert(texts@[0] == content);
    post_from(tid, user_name_column, content, media[0], &places[0])
}

/// A post as it is listed.
pub struct Post {
    /// What it says.
    pub post: ParsedPost,
    /// When it was sent, as a text.
    pub time: String,
    /// The display name of its author; empty where the author is not known.
    pub author: String,
}

/// The display name of an author; empty where the author is not known.
pub open spec fn author_shown(names: Names, username: Seq<char>) -> Seq<char> {
    if username.len() == 0 {
        Seq::empty()
    } else {
        shown_name(names.map@, username)
    }
}

/// The display name of an author.
pub fn show_author(names: &Names, username: &str) -> (r: String)
    ensures
        r@ == author_shown(*names, username@),
{
    if username.is_empty() {
        String::new()
    } else {
        names.display(username)
    }
}

impl Post {
    /// Whether this is what is listed of a post.
    pub open spec fn tells(&self, p: PostText, names: Names) -> bool {
        &&& self.post@ == p
        &&& shows_time(p.create_time, LONG_TIME@, self.time@)
        &&& self.author@ == author_shown(names, p.author)
    }
}

/// What is listed of a post.
pub fn post_to_value(p: ParsedPost, names: &Names) -> (r: Post)
    ensures
        r.tells(p@, *names),
        r.post == p,
{
    let author = show_author(names, p.author_username.as_str());
    let time = fmt_time(p.create_time, LONG_TIME);
    Post { post: p, time, author }
}

/// What is asked of posts.
pub struct PostFilter {
    /// The user name of the author.
    pub author: Option<String>,
    /// The first second.
    pub since: Option<i64>,
    /// The last second.
    pub until: Option<i64>,
    /// What the text holds, in any case.
    pub keyword: Option<String>,
}

impl PostFilter {
    /// Whether a post is asked for, given its text and the keyword in lower case.
    pub open spec fn wants_lowered(
        &self,
        p: PostText,
        low_text: Seq<char>,
        low_keyword: Option<Seq<char>>,
    ) -> bool {
        &&& match self.author {
            Some(a) => p.author == a@,
            None => true,
        }
        &&& match self.since {
            Some(s) => p.create_time >= s,
            None => true,
        }
        &&& match self.until {
            Some(u) => p.create_time <= u,
            None => true,
        }
        &&& match low_keyword {
            Some(k) => occurs(low_text, k),
            None => true,
        }
    }

    /// Whether a post is asked for.
    pub open spec fn wants(&self, p: PostText) -> bool {
        self.wants_lowered(
            p,
            lowercase(p.content),
            match self.keyword {
                Some(k) => Some(lowercase(k@)),
                None => None,
            },
        )
    }

    /// Whether a post is asked for, given its text and the keyword in lower case.
    pub fn accepts_lowered(&self, p: &ParsedPost, low_text: &str, low_keyword: Option<&str>) -> (r:
        bool)
        ensures
            r == self.wants_lowered(
                p@,
                low_text@,
                match low_keyword {
                    Some(k) => Some(k@),
                    None => None,
                },
            ),
    {
        if let Some(a) = &self.author {
            if !same(p.author_username.as_str(), a.as_str()) {
                return false;
            }
        }
        if let Some(s) = self.since {
            if p.create_time < s {
                return false;
            }
        }
        if let Some(u) = self.until {
            if p.create_time > u {
                return false;
            }
        }
        match low_keyword {
            Some(k) => contains(low_text, k),
            None => true,
        }
    }

    /// Whether a post is asked for.
    pub fn accepts(&self, p: &ParsedPost) -> (r: bool)
        ensures
            r == self.wants(p@),
    {
        let low_text = to_lowercase(p.content.as_str());
        match &self.keyword {
            Some(k) => {
                let low = to_lowercase(k.as_str());
                self.accepts_lowered(p, low_text.as_str(), Some(low.as_str()))
            },
            None => self.accepts_lowered(p, low_text.as_str(), None),
        }
    }
}

/// What the rows say that are read at all.
pub open spec fn scanned(rows: Seq<PostRow>) -> Seq<PostText> {
    first_of(rows, SNS_MAX_SCAN as int).map_values(
        |r: PostRow| post_text(r.tid, r.user_name@, r.content@),
    )
}

/// The posts that are asked for, in the order of their rows.
pub open spec fn wanted_posts(rows: Seq<PostRow>, filter: PostFilter) -> Seq<PostText> {
    scanned(rows).filter(|p: PostText| filter.wants(p))
}

/// Posts from the newest to the oldest; those of one second keep their order.
pub open spec fn newest_posts(all: Seq<PostText>) -> Seq<PostText> {
    sorted_by(all, |p: PostText| Descending(p.create_time))
}

/// How many posts are listed at most.
pub open spec fn post_limit(limit: int) -> int {
    if limit < SNS_MAX_LIMIT {
        limit
    } else {
        SNS_MAX_LIMIT as int
    }
}

/// The posts that are listed: all that are asked for are sorted before the rest is cut off.
pub open spec fn listed_posts(rows: Seq<PostRow>, filter: PostFilter, limit: int) -> Seq<PostText> {
    first_of(newest_posts(wanted_posts(rows, filter)), post_limit(limit))
}

/// What some posts say.
pub open spec fn said(all: Seq<ParsedPost>) -> Seq<PostText> {
    all.map_values(|p: ParsedPost| p@)
}

/// The posts that are asked for, in the order of their rows.
pub fn read_posts(rows: &Vec<PostRow>, filter: &PostFilter) -> (r: Vec<ParsedPost>)
    ensures
        said(r@) == wanted_posts(rows@, *filter),
{
    let n: usize = if rows.len() < SNS_MAX_SCAN {
        rows.len()
    } else {
        SNS_MAX_SCAN
    };
    let mut texts: Vec<&str> = Vec::new();
    let mut k: usize = 0;
    while k < n
        invariant
            k <= n,
            n <= rows.len(),
            texts.len() == k,
            forall|j: int| 0 <= j < k ==> (#[trigger] texts@[j])@ == rows@[j].content@,
        decreases n - k,
    {
        texts.push(rows[k].content.as_str());
        k = k + 1;
    }
    let (media, places) = marks_of(&texts);
    let mut out: Vec<ParsedPost> = Vec::new();
    let ghost all = scanned(rows@);
    let ghost want = |p: PostText| filter.wants(p);
    let mut i: usize = 0;
    assert(all.take(0).filter(want) =~= Seq::empty()) by {
        reveal(Seq::filter);
    }
    assert(said(out@) =~= Seq::empty());
    assert forall|j: int| 0 <= j < n implies #[trigger] media@[j] == post_media(
        rows@[j].content@,
    ) by {
        assert(texts@[j]@ == rows@[j].content@);
    }
    assert forall|j: int| 0 <= j < n implies held(#[trigger] places@[j]) == location_in(
        rows@[j].content@,
    ) by {
        assert(texts@[j]@ == rows@[j].content@);
    }
    while i < n
        invariant
            i <= n,
            n <= rows.len(),
            n == all.len(),
            all == scanned(rows@),
            want == (|p: PostText| filter.wants(p)),
            media.len() == n,
            places.len() == n,
            forall|j: int| 0 <= j < n ==> #[trigger] media@[j] == post_media(rows@[j].content@),
            forall|j: int|
                0 <= j < n ==> held(#[trigger] places@[j]) == location_in(rows@[j].content@),
            said(out@) == all.take(i as int).filter(want),
        decreases n - i,
    {
        let row = &rows[i];
        let p = post_from(
            row.tid,
            row.user_name.as_str(),
            row.content.as_str(),
            media[i],
            &places[i],
        );
        proof {
            reveal(Seq::filter);
            assert(all.take(i + 1).drop_last() =~= all.take(i as int));
            assert(all.take(i + 1).last() == p@);
        }
        if filter.accepts(&p) {
            let ghost before = out@;
            assert(said(before.push(p)) =~= said(before).push(p@));
            out.push(p);
        }
        i = i + 1;
    }
    assert(all.take(n as int) =~= all);
    out
}

/// The posts that are listed.
pub fn select_posts(rows: &Vec<PostRow>, filter: &PostFilter, limit: usize) -> (r: Vec<ParsedPost>)
    ensures
        said(r@) == listed_posts(rows@, *filter, limit as int),
{
    let found = read_posts(rows, filter);
    let ghost all = found@;
    let mut keys: Vec<Descending> = Vec::new();
    let mut i: usize = 0;
    while i < found.len()
        invariant
            i <= found.len(),
            keys.len() == i,
            forall|j: int| 0 <= j < i ==> #[trigger] keys@[j] == Descending(found@[j].create_time),
        decreases found.len() - i,
    {
        keys.push(Descending(found[i].create_time));
        i = i + 1;
    }
    assert(keys@ =~= said(all).map_values(|p: PostText| Descending(p.create_time)));
    let mut out = sort_by_keys(found, &keys);
    let ghost order = order_of(keys@);
    proof {
        assert(said(arranged(all, order)) =~= arranged(said(all), order)) by {
            assert forall|i: int| 0 <= i < order.len() implies 0 <= #[trigger] order[i]
                < all.len() by {}
        }
    }
    let max: usize = if limit < SNS_MAX_LIMIT {
        limit
    } else {
        SNS_MAX_LIMIT
    };
    let ghost sorted = out@;
    out.truncate(max);
    assert(said(out@) =~= first_of(said(sorted), max as int));
    out
}

/// A list of posts.
pub struct PostList {
    /// The posts.
    pub posts: Vec<Post>,
    /// How many there are.
    pub total: usize,
}

impl PostList {
    /// Whether this lists some posts, in their order.
    pub open spec fn tells(&self, all: Seq<PostText>, names: Names) -> bool {
        &&& self.posts@.len() == all.len()
        &&& forall|i: int| 0 <= i < all.len() ==> (#[trigger] self.posts@[i]).tells(all[i], names)
        &&& self.total == all.len()
    }
}

/// A list of the posts that are asked for.
pub fn list_posts(names: &Names, rows: &Vec<PostRow>, filter: &PostFilter, limit: usize) -> (r:
    PostList)
    ensures
        r.tells(listed_posts(rows@, *filter, limit as int), *names),
{
    let selected = select_posts(rows, filter, limit);
    let mut posts: Vec<Post> = Vec::new();
    let mut i: usize = 0;
    while i < selected.len()
        invariant
            i <= selected.len(),
            posts.len() == i,
            forall|j: int|
                0 <= j < i ==> (#[trigger] posts@[j]).tells(said(selected@)[j], *names),
        decreases selected.len() - i,
    {
        let p = &selected[i];
        let copy = ParsedPost {
            tid: p.tid,
            create_time: p.create_time,
            author_username: p.author_username.clone(),
            content: p.content.clone(),
            media_count: p.media_count,
            location: p.location.clone(),
        };
        posts.push(post_to_value(copy, names));
        i = i + 1;
    }
    PostList { total: posts.len(), posts }
}

/// The text that is asked for, where one is.
pub open spec fn text_of(s: Option<&str>) -> Option<Seq<char>> {
    match s {
        Some(t) => Some(t@),
        None => None,
    }
}

impl PostFilter {
    /// Whether this is the filter for what a request gives.
    pub open spec fn asks(
        &self,
        names: Names,
        user: Option<Seq<char>>,
        since: Option<i64>,
        until: Option<i64>,
        keyword: Option<Seq<char>>,
    ) -> bool {
        &&& finds_author(names, user, held(self.author))
        &&& self.since == since
        &&& self.until == until
        &&& held(self.keyword) == keyword
    }
}

/// Whether `r` is the user name of the author that was asked for, where one was.
pub open spec fn finds_author(names: Names, user: Option<Seq<char>>, r: Option<Seq<char>>) -> bool {
    match user {
        Some(q) => r is Some && resolves(names.map@, q, r),
        None => r is None,
    }
}

/// The user name of the author that is asked for, where one is.
pub fn find_author(names: &Names, user: Option<&str>) -> (r: Result<Option<String>, QueryError>)
    ensures
        match r {
            Ok(a) => finds_author(*names, text_of(user), held(a)),
            Err(QueryError::UnknownContact(n)) => user is Some && n@ == user->0@ && resolves(
                names.map@,
                user->0@,
                None,
            ),
            Err(_) => false,
        },
{
    match user {
        Some(q) => match resolve_username(q, names) {
            Some(u) => Ok(Some(u)),
            None => Err(QueryError::UnknownContact(q.to_owned())),
        },
        None => Ok(None),
    }
}

/// The newest posts, of one author or all, from what was read of the table.
pub fn q_sns_feed(
    names: &Names,
    rows: &Vec<PostRow>,
    limit: usize,
    since: Option<i64>,
    until: Option<i64>,
    user: Option<&str>,
) -> (r: Result<PostList, QueryError>)
    ensures
        match r {
            Ok(list) => exists|f: PostFilter| #[trigger]
                f.asks(*names, text_of(user), since, until, None) && list.tells(
                    listed_posts(rows@, f, limit as int),
                    *names,
                ),
            Err(QueryError::UnknownContact(n)) => user is Some && n@ == user->0@ && resolves(
                names.map@,
                user->0@,
                None,
            ),
            Err(_) => false,
        },
{
    match find_author(names, user) {
        Ok(author) => {
            let filter = PostFilter { author, since, until, keyword: None };
            assert(filter.asks(*names, text_of(user), since, until, None));
            Ok(list_posts(names, rows, &filter, limit))
        },
        Err(e) => Err(e),
    }
}

/// Whether a keyword is no more than white space.
pub fn is_blank(keyword: &str) -> (r: bool)
    ensures
        r == (trimmed(keyword@).len() == 0),
{
    trim(keyword).as_str().is_empty()
}

/// The posts that a search found.
pub struct FoundPosts {
    /// The keyword.
    pub keyword: String,
    /// The posts.
    pub list: PostList,
}

/// The newest posts whose text holds a keyword, from what was read of the table.
pub fn q_sns_search(
    names: &Names,
    keyword: &str,
    rows: &Vec<PostRow>,
    limit: usize,
    since: Option<i64>,
    until: Option<i64>,
    user: Option<&str>,
) -> (r: Result<FoundPosts, QueryError>)
    ensures
        match r {
            Ok(found) => {
                &&& trimmed(keyword@).len() > 0
                &&& found.keyword@ == keyword@
                &&& exists|f: PostFilter| #[trigger]
                    f.asks(*names, text_of(user), since, until, Some(keyword@)) && found.list.tells(
                        listed_posts(rows@, f, limit as int),
                        *names,
                    )
            },
            Err(QueryError::EmptyKeyword) => trimmed(keyword@).len() == 0,
            Err(QueryError::UnknownContact(n)) => trimmed(keyword@).len() > 0 && user is Some && n@
                == user->0@ && resolves(names.map@, user->0@, None),
            Err(_) => false,
        },
{
    if is_blank(keyword) {
        return Err(QueryError::EmptyKeyword);
    }
    match find_author(names, user) {
        Ok(author) => {
            let filter = PostFilter { author, since, until, keyword: Some(keyword.to_owned()) };
            assert(filter.asks(*names, text_of(user), since, until, Some(keyword@)));
            let list = list_posts(names, rows, &filter, limit);
            Ok(FoundPosts { keyword: keyword.to_owned(), list })
        },
        Err(e) => Err(e),
    }
}

/// No post that is cut off is newer than one that is listed.
pub proof fn law_newest_posts_listed(rows: Seq<PostRow>, filter: PostFilter, limit: int, i: int, j: int)
    requires
        0 <= limit,
        0 <= i < post_limit(limit) <= j < wanted_posts(rows, filter).len(),
    ensures
        ({
            let all = newest_posts(wanted_posts(rows, filter));
            &&& listed_posts(rows, filter, limit).len() == post_limit(limit)
            &&& listed_posts(rows, filter, limit)[i] == all[i]
            &&& all[j].create_time <= all[i].create_time
        }),
{
    law_sorted_in_order(
        wanted_posts(rows, filter),
        |p: PostText| Descending(p.create_time),
    );
}

/// Every post that is listed is one that was asked for.
pub proof fn law_listed_posts_wanted(rows: Seq<PostRow>, filter: PostFilter, limit: int, i: int)
    requires
        0 <= limit,
        0 <= i < listed_posts(rows, filter, limit).len(),
    ensures
        filter.wants(listed_posts(rows, filter, limit)[i]),
        scanned(rows).contains(listed_posts(rows, filter, limit)[i]),
{
    let want = |p: PostText| filter.wants(p);
    let all = wanted_posts(rows, filter);
    let keys = all.map_values(|p: PostText| Descending(p.create_time));
    crate::order::lemma_order_exists(keys);
    let order = order_of(keys);
    let p = listed_posts(rows, filter, limit)[i];
    assert(0 <= order[i] < all.len());
    assert(p == all[order[i]]);
    assert(all == scanned(rows).filter(want));
    assert(all.contains(p));
    scanned(rows).lemma_filter_contains_rev(want, p);
    scanned(rows).lemma_filter_pred(want, order[i]);
}

} // verus!
