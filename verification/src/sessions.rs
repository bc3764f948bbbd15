use vstd::prelude::*;

use crate::content::{
    decompress_or_str, fmt_type, strip_group_prefix, summary_text, type_label, without_prefix,
};
use crate::messages::{chat_of, Chat};
use crate::names::{chat_type, chat_type_of, is_chatroom, Names};
use crate::order::first_of;
use crate::outside::{lowercase, to_lowercase, zstd_decoded};
use crate::text::{same, trim, trimmed, views};
use crate::time::{fmt_time, shows_time, SHORT_TIME};

verus! {

/// A row of the table of chats.
pub struct SessionRow {
    /// The user name of the chat.
    pub username: String,
    /// How many messages are unread.
    pub unread: i64,
    /// The beginning of the last message, compressed or not.
    pub summary: Vec<u8>,
    /// When the last message was sent.
    pub last_timestamp: i64,
    /// The type of the last message.
    pub last_msg_type: i64,
    /// The user name of its sender.
    pub sender: String,
    /// The name that its sender had then.
    pub sender_name: String,
}

impl SessionRow {
    /// The text of the summary.
    pub open spec fn text(&self) -> Seq<char> {
        summary_text(self.summary@, zstd_decoded(self.summary@))
    }
}

/// A chat as it is listed.
pub struct SessionEntry {
    /// The chat.
    pub chat: Chat,
    /// How many messages are unread.
    pub unread: i64,
    /// The label of the last message's kind.
    pub last_msg_type: String,
    /// Who sent the last message, in a group.
    pub last_sender: String,
    /// The beginning of the last message.
    pub summary: String,
    /// When the last message was sent.
    pub timestamp: i64,
    /// The same as a text.
    pub time: String,
}

/// Who is shown as the sender of a chat's last message: in a group, by the name of the contacts,
/// else by the name of the row, else by the user name.
pub open spec fn last_sender_shown(row: SessionRow, names: Names) -> Seq<char> {
    if is_chatroom(row.username@) && row.sender@.len() > 0 {
        if names.map@.contains_key(row.sender@) {
            names.map@[row.sender@]@
        } else if row.sender_name@.len() > 0 {
            row.sender_name@
        } else {
            row.sender@
        }
    } else {
        Seq::empty()
    }
}

impl SessionEntry {
    /// Whether this is what is listed of a row whose summary reads `text`.
    pub open spec fn tells(&self, row: SessionRow, text: Seq<char>, names: Names) -> bool {
        &&& self.chat.of(names, row.username@)
        &&& self.unread == row.unread
        &&& self.last_msg_type@ == type_label(row.last_msg_type)
        &&& self.last_sender@ == last_sender_shown(row, names)
        &&& self.summary@ == without_prefix(text)
        &&& self.timestamp == row.last_timestamp
        &&& shows_time(row.last_timestamp, SHORT_TIME@, self.time@)
    }
}

/// What is listed of a chat whose summary reads `text`.
pub fn session_entry(row: &SessionRow, text: &str, names: &Names) -> (r: SessionEntry)
    ensures
        r.tells(*row, text@, *names),
{
    let chat = chat_of(names, row.username.as_str());
    let last_sender = if chat.is_group && !row.sender.as_str().is_empty() {
        match names.map.get(row.sender.as_str()) {
            Some(d) => d.clone(),
            None => if !row.sender_name.as_str().is_empty() {
                row.sender_name.clone()
            } else {
                row.sender.clone()
            },
        }
    } else {
        String::new()
    };
    SessionEntry {
        chat,
        unread: row.unread,
        last_msg_type: fmt_type(row.last_msg_type),
        last_sender,
        summary: strip_group_prefix(text),
        timestamp: row.last_timestamp,
        time: fmt_time(row.last_timestamp, SHORT_TIME),
    }
}

/// Whether `all` lists the chats of some rows, one for each.
pub open spec fn tell_sessions(
    all: Seq<SessionEntry>,
    rows: Seq<SessionRow>,
    names: Names,
) -> bool {
    &&& all.len() == rows.len()
    &&& forall|i: int|
        0 <= i < rows.len() ==> (#[trigger] all[i]).tells(rows[i], rows[i].text(), names)
}

/// The chats of some rows, one for each.
pub fn q_sessions(rows: &Vec<SessionRow>, names: &Names) -> (r: Vec<SessionEntry>)
    ensures
        tell_sessions(r@, rows@, *names),
{
    let mut out: Vec<SessionEntry> = Vec::new();
    let mut i: usize = 0;
    while i < rows.len()
        invariant
            i <= rows.len(),
            out.len() == i,
            forall|j: int|
                0 <= j < i ==> (#[trigger] out@[j]).tells(rows@[j], rows@[j].text(), *names),
        decreases rows.len() - i,
    {
        let text = decompress_or_str(rows[i].summary.as_slice());
        out.push(session_entry(&rows[i], text.as_str(), names));
        i = i + 1;
    }
    out
}

/// A choice of chat types.
pub struct TypeSet {
    /// Private chats.
    pub private: bool,
    /// Groups.
    pub group: bool,
    /// Official accounts.
    pub official: bool,
    /// The entries for folded chats.
    pub folded: bool,
}

/// Whether one of the words is `a` or `b`.
pub open spec fn says(words: Seq<Seq<char>>, a: Seq<char>, b: Seq<char>) -> bool {
    words.contains(a) || words.contains(b)
}

/// The chat types that some words ask for.
pub open spec fn asked_types(words: Seq<Seq<char>>) -> TypeSet {
    TypeSet {
        private: says(words, "private"@, "private"@),
        group: says(words, "group"@, "group"@),
        official: says(words, "official"@, "official_account"@),
        folded: says(words, "folded"@, "fold"@),
    }
}

/// The chat types that some words narrow the list to; none where they ask for all of them, or for
/// nothing that is known.
pub open spec fn narrowed(words: Seq<Seq<char>>) -> Option<TypeSet> {
    let set = asked_types(words);
    if says(words, ""@, "all"@) || !(set.private || set.group || set.official || set.folded) {
        None
    } else {
        Some(set)
    }
}

/// The words of a filter, trimmed and in lower case.
pub open spec fn filter_words(filter: Seq<Seq<char>>) -> Seq<Seq<char>> {
    filter.map_values(|raw: Seq<char>| lowercase(trimmed(raw)))
}

/// The chat types that some words narrow the list to.
pub fn narrow(words: &Vec<String>) -> (r: Option<TypeSet>)
    ensures
        r == narrowed(views(words@)),
{
    let ghost all = views(words@);
    let mut set = TypeSet { private: false, group: false, official: false, folded: false };
    let mut i: usize = 0;
    proof {
        reveal_strlit("");
        assert(""@ =~= Seq::<char>::empty());
    }
    while i < words.len()
        invariant
            i <= words.len(),
            all == views(words@),
            ""@ == Seq::<char>::empty(),
            set == asked_types(all.take(i as int)),
            !says(all.take(i as int), ""@, "all"@),
        decreases words.len() - i,
    {
        let w = words[i].as_str();
        assert(w@ == all[i as int]);
        proof {
            lemma_says_next(all, i as int, ""@, "all"@);
            lemma_says_next(all, i as int, "private"@, "private"@);
            lemma_says_next(all, i as int, "group"@, "group"@);
            lemma_says_next(all, i as int, "official"@, "official_account"@);
            lemma_says_next(all, i as int, "folded"@, "fold"@);
        }
        if w.is_empty() || same(w, "all") {
            proof {
                if w@.len() == 0 {
                    assert(w@ =~= ""@);
                }
                assert(all[i as int] == w@);
                assert(says(all, ""@, "all"@));
            }
            return None;
        }
        if same(w, "private") {
            set.private = true;
        }
        if same(w, "group") {
            set.group = true;
        }
        if same(w, "official") || same(w, "official_account") {
            set.official = true;
        }
        if same(w, "folded") || same(w, "fold") {
            set.folded = true;
        }
        i = i + 1;
    }
    assert(all.take(words.len() as int) =~= all);
    if set.private || set.group || set.official || set.folded {
        Some(set)
    } else {
        None
    }
}

/// The chat types that a filter narrows the list to.
pub fn normalize_filter(filter: Option<&Vec<String>>) -> (r: Option<TypeSet>)
    ensures
        r == match filter {
            Some(f) => narrowed(filter_words(views(f@))),
            None => None,
        },
{
    let raw = match filter {
        Some(f) => f,
        None => return None,
    };
    let mut words: Vec<String> = Vec::new();
    let mut i: usize = 0;
    while i < raw.len()
        invariant
            i <= raw.len(),
            words.len() == i,
            forall|j: int| 0 <= j < i ==> (#[trigger] words@[j])@ == lowercase(trimmed(raw@[j]@)),
        decreases raw.len() - i,
    {
        words.push(to_lowercase(trim(raw[i].as_str()).as_str()));
        i = i + 1;
    }
    assert(views(words@) =~= filter_words(views(raw@)));
    narrow(&words)
}

proof fn lemma_says_next(all: Seq<Seq<char>>, i: int, a: Seq<char>, b: Seq<char>)
    requires
        0 <= i < all.len(),
    ensures
        says(all.take(i + 1), a, b) <==> says(all.take(i), a, b) || all[i] == a || all[i] == b,
{
    let next = all.take(i + 1);
    assert(next =~= all.take(i).push(all[i]));
    assert forall|x: Seq<char>| #[trigger] next.contains(x) <==> all.take(i).contains(x) || all[i]
        == x by {
        if all.take(i).contains(x) {
            let k = choose|k: int| 0 <= k < i && all.take(i)[k] == x;
            assert(next[k] == x);
        }
        if all[i] == x {
            assert(next[i] == x);
        }
        if next.contains(x) && all[i] != x {
            let k = choose|k: int| 0 <= k < i + 1 && next[k] == x;
            assert(all.take(i)[k] == x);
        }
    }
}

impl TypeSet {
    /// Whether the choice has a chat type.
    pub open spec fn holds(&self, kind: Seq<char>) -> bool {
        ||| self.private && kind == "private"@
        ||| self.group && kind == "group"@
        ||| self.official && kind == "official_account"@
        ||| self.folded && kind == "folded"@
    }

    /// Whether the choice has a chat type.
    pub fn contains(&self, kind: &str) -> (r: bool)
        ensures
            r == self.holds(kind@),
    {
        (self.private && same(kind, "private")) || (self.group && same(kind, "group")) || (
        self.official && same(kind, "official_account")) || (self.folded && same(kind, "folded"))
    }
}

/// Whether a chat is of a type that is asked for.
pub open spec fn asked(types: Option<TypeSet>, names: Names, row: SessionRow) -> bool {
    match types {
        Some(set) => set.holds(chat_type(row.username@, names.verified(row.username@))),
        None => true,
    }
}

/// A list of chats with unread messages.
pub struct UnreadList {
    /// The chats.
    pub sessions: Vec<SessionEntry>,
    /// How many there are.
    pub total: usize,
}

/// The first `limit` chats that are of a type that is asked for.
pub fn q_unread(
    rows: &Vec<SessionRow>,
    names: &Names,
    limit: usize,
    types: &Option<TypeSet>,
) -> (r: UnreadList)
    ensures
        tell_sessions(
            r.sessions@,
            first_of(rows@.filter(|row: SessionRow| asked(*types, *names, row)), limit as int),
            *names,
        ),
        r.total == r.sessions@.len(),
{
    let mut out: Vec<SessionEntry> = Vec::new();
    let mut i: usize = 0;
    let ghost want = |row: SessionRow| asked(*types, *names, row);
    assert(rows@.take(0).filter(want) =~= Seq::empty()) by {
        reveal(Seq::filter);
    }
    while i < rows.len() && out.len() < limit
        invariant
            i <= rows.len(),
            want == (|row: SessionRow| asked(*types, *names, row)),
            out.len() <= limit,
            tell_sessions(out@, rows@.take(i as int).filter(want), *names),
        decreases rows.len() - i,
    {
        let row = &rows[i];
        let kind = chat_type_of(row.username.as_str(), names);
        let keep = match types {
            Some(set) => set.contains(kind),
            None => true,
        };
        proof {
            reveal(Seq::filter);
            assert(rows@.take(i + 1).drop_last() =~= rows@.take(i as int));
            assert(rows@.take(i + 1).last() == *row);
        }
        assert(keep == want(*row));
        if keep {
            let text = decompress_or_str(row.summary.as_slice());
            out.push(session_entry(row, text.as_str(), names));
        }
        i = i + 1;
    }
    proof {
        lemma_filter_prefix(rows@, want, i as int);
        assert(rows@.take(rows@.len() as int) =~= rows@);
        assert(rows@.take(i as int).filter(want) =~= first_of(rows@.filter(want), limit as int));
    }
    let total: usize = out.len();
    UnreadList { sessions: out, total }
}

/// What a prefix of a row has of some kind is a prefix of what the row has of it.
pub proof fn lemma_filter_prefix<T>(s: Seq<T>, f: spec_fn(T) -> bool, n: int)
    requires
        0 <= n <= s.len(),
    ensures
        s.take(n).filter(f).len() <= s.filter(f).len(),
        s.filter(f).take(s.take(n).filter(f).len() as int) == s.take(n).filter(f),
    decreases s.len() - n,
{
    if n < s.len() {
        lemma_filter_prefix(s, f, n + 1);
        reveal(Seq::filter);
        let a = s.take(n);
        let b = s.take(n + 1);
        assert(b.drop_last() =~= a);
        assert(b.filter(f).take(a.filter(f).len() as int) =~= a.filter(f));
        assert(s.filter(f).take(a.filter(f).len() as int) =~= s.filter(f).take(
            b.filter(f).len() as int,
        ).take(a.filter(f).len() as int));
    } else {
        assert(s.take(n) =~= s);
        assert(s.filter(f).take(s.filter(f).len() as int) =~= s.filter(f));
    }
}

/// The words that a filter knows.
pub open spec fn is_filter_word(w: Seq<char>) -> bool {
    ||| w == ""@ || w == "all"@ || w == "private"@ || w == "group"@
    ||| w == "official"@ || w == "official_account"@ || w == "folded"@ || w == "fold"@
}

/// A word that is not known changes nothing.
pub proof fn law_unknown_word_ignored(words: Seq<Seq<char>>, w: Seq<char>)
    requires
        !is_filter_word(w),
    ensures
        narrowed(words.push(w)) == narrowed(words),
{
    let more = words.push(w);
    assert forall|x: Seq<char>| x != w implies #[trigger] more.contains(x) == words.contains(x) by {
        if words.contains(x) {
            let k = choose|k: int| 0 <= k < words.len() && words[k] == x;
            assert(more[k] == x);
        }
        if more.contains(x) {
            let k = choose|k: int| 0 <= k < more.len() && more[k] == x;
            assert(words[k] == x);
        }
    }
}

/// A filter without words narrows nothing.
pub proof fn law_empty_filter_is_all(words: Seq<Seq<char>>)
    requires
        words.len() == 0,
    ensures
        narrowed(words) is None,
{
}

/// Without a filter the first rows are enough; with one they are not, so all rows are read.
pub proof fn law_unfiltered_rows_suffice(rows: Seq<SessionRow>, names: Names, limit: int)
    requires
        0 <= limit,
    ensures
        first_of(rows.filter(|row: SessionRow| asked(None, names, row)), limit) == first_of(
            first_of(rows, limit).filter(|row: SessionRow| asked(None, names, row)),
            limit,
        ),
{
    let want = |row: SessionRow| asked(None, names, row);
    lemma_filter_all(rows, want);
    lemma_filter_all(first_of(rows, limit), want);
}

proof fn lemma_filter_all<T>(s: Seq<T>, f: spec_fn(T) -> bool)
    requires
        forall|x: T| #[trigger] f(x),
    ensures
        s.filter(f) == s,
    decreases s.len(),
{
    reveal(Seq::filter);
    if s.len() > 0 {
        lemma_filter_all(s.drop_last(), f);
        assert(s.drop_last().push(s.last()) =~= s);
    } else {
        assert(s.filter(f) =~= s);
    }
}

/// Every chat that is listed is of a type that is asked for.
pub proof fn law_listed_chats_asked(
    rows: Seq<SessionRow>,
    types: Option<TypeSet>,
    names: Names,
    limit: int,
    i: int,
)
    requires
        0 <= limit,
        0 <= i < first_of(
            rows.filter(|row: SessionRow| asked(types, names, row)),
            limit,
        ).len(),
    ensures
        asked(
            types,
            names,
            first_of(rows.filter(|row: SessionRow| asked(types, names, row)), limit)[i],
        ),
{
    let want = |row: SessionRow| asked(types, names, row);
    rows.lemma_filter_pred(want, i);
}

} // verus!
