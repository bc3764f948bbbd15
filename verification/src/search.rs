use vstd::prelude::*;

use crate::content::{show_name, shown_name};
use crate::messages::{query_messages, tell_all, Message, Setting, TableRows};
use crate::names::{
    are_msg_tables, indexes, is_chatroom, law_resolution_unique, meant, name_digest, resolve_username,
    resolves, table_of, Names,
};
use crate::order::{
    all_of, capped, first_of, in_order, law_cap, lemma_all_of_push, sort_by_keys, sorted_by,
    Descending,
};
use crate::paths::NativePath;
use crate::patterns::is_msg_table;
use crate::strmap::{keys_ordered, StrMap};
use crate::text::{chars_of, contains, held, same, string_of, views};

verus! {

/// A table of messages that is searched.
pub struct SearchTarget {
    /// The path of its database.
    pub path: String,
    /// The name of the table.
    pub table: String,
    /// The display name of its chat; empty where the chat is not known.
    pub display: String,
    /// The user name of its chat; empty where the chat is not known.
    pub username: String,
}

impl SearchTarget {
    /// The same target once more.
    pub fn copy(&self) -> (r: Self)
        ensures
            r == *self,
    {
        SearchTarget {
            path: self.path.clone(),
            table: self.table.clone(),
            display: self.display.clone(),
            username: self.username.clone(),
        }
    }

    /// Whether this is the target for a table of a chat.
    pub open spec fn of_chat(
        &self,
        path: Seq<char>,
        table: Seq<char>,
        username: Seq<char>,
        names: Names,
    ) -> bool {
        &&& self.path@ == path
        &&& self.table@ == table
        &&& self.username@ == username
        &&& self.display@ == shown_name(names.map@, username)
    }

    /// Whether this is the target for a table of a database, whose name tells the chat.
    pub open spec fn of_table(&self, path: Seq<char>, table: Seq<char>, names: Names) -> bool {
        let digest = table.skip(4);
        let known = names.md5_to_uname@.contains_key(digest);
        &&& self.path@ == path
        &&& self.table@ == table
        &&& self.username@ == (if known {
            names.md5_to_uname@[digest]@
        } else {
            Seq::empty()
        })
        &&& self.display@ == (if self.username@.len() > 0 {
            shown_name(names.map@, self.username@)
        } else {
            Seq::empty()
        })
    }
}

/// The user names that some names mean, in their order; a name that means none is passed over.
pub open spec fn all_meant(m: Map<Seq<char>, String>, chats: Seq<Seq<char>>) -> Seq<Seq<char>>
    decreases chats.len(),
{
    if chats.len() == 0 {
        Seq::empty()
    } else {
        let rest = all_meant(m, chats.drop_last());
        match meant(m, chats.last()) {
            Some(u) => rest.push(u),
            None => rest,
        }
    }
}

/// The user names of the chats that are searched.
pub fn chats_to_search(chats: &Vec<String>, names: &Names) -> (r: Vec<String>)
    ensures
        views(r@) == all_meant(names.map@, views(chats@)),
{
    let ghost all = views(chats@);
    let mut out: Vec<String> = Vec::new();
    let mut i: usize = 0;
    assert(views(out@) =~= Seq::empty());
    while i < chats.len()
        invariant
            i <= chats.len(),
            all == views(chats@),
            views(out@) == all_meant(names.map@, all.take(i as int)),
        decreases chats.len() - i,
    {
        let found = resolve_username(chats[i].as_str(), names);
        proof {
            assert(all.take(i + 1).drop_last() =~= all.take(i as int));
            assert(all.take(i + 1).last() == chats@[i as int]@);
            assert(resolves(names.map@, all[i as int], held(found)));
            law_resolution_unique(
                names.map@,
                all[i as int],
                held(found),
                meant(names.map@, all[i as int]),
            );
        }
        let ghost before = out@;
        if let Some(u) = found {
            assert(views(before.push(u)) =~= views(before).push(u@));
            out.push(u);
        }
        i = i + 1;
    }
    assert(all.take(i as int) =~= all);
    out
}

/// The targets for the tables of a chat.
pub fn chat_targets(tables: &Vec<(String, String)>, username: &str, names: &Names) -> (r: Vec<
    SearchTarget,
>)
    ensures
        r@.len() == tables@.len(),
        forall|i: int|
            0 <= i < tables@.len() ==> (#[trigger] r@[i]).of_chat(
                tables@[i].0@,
                tables@[i].1@,
                username@,
                *names,
            ),
{
    let mut out: Vec<SearchTarget> = Vec::new();
    let mut i: usize = 0;
    while i < tables.len()
        invariant
            i <= tables.len(),
            out.len() == i,
            forall|j: int|
                0 <= j < i ==> (#[trigger] out@[j]).of_chat(
                    tables@[j].0@,
                    tables@[j].1@,
                    username@,
                    *names,
                ),
        decreases tables.len() - i,
    {
        out.push(
            SearchTarget {
                path: tables[i].0.clone(),
                table: tables[i].1.clone(),
                display: names.display(username),
                username: username.to_owned(),
            },
        );
        i = i + 1;
    }
    out
}

/// Whether `all` holds the targets for those tables of a database that hold messages.
pub open spec fn targets_tables(
    all: Seq<SearchTarget>,
    path: Seq<char>,
    tables: Seq<Seq<char>>,
    names: Names,
) -> bool {
    let kept = tables.filter(|t: Seq<char>| is_msg_table(t));
    &&& all.len() == kept.len()
    &&& forall|i: int| 0 <= i < all.len() ==> (#[trigger] all[i]).of_table(path, kept[i], names)
}

/// The target for a table of a database.
fn table_target(path: &str, table: &str, names: &Names) -> (r: SearchTarget)
    requires
        is_msg_table(table@),
    ensures
        r.of_table(path@, table@, *names),
{
    let v = chars_of(table);
    let digest = string_of(vstd::slice::slice_subrange(v.as_slice(), 4, v.len()));
    assert(digest@ =~= table@.skip(4));
    let username = match names.md5_to_uname.get(digest.as_str()) {
        Some(u) => u.clone(),
        None => String::new(),
    };
    let display = if username.as_str().is_empty() {
        String::new()
    } else {
        show_name(&names.map, username.as_str())
    };
    assert(username@.len() == 0 ==> username@ =~= Seq::empty());
    SearchTarget { path: path.to_owned(), table: table.to_owned(), display, username }
}

/// The targets for those tables of a database that hold messages.
pub fn db_targets(path: &str, tables: &Vec<String>, names: &Names) -> (r: Vec<SearchTarget>)
    ensures
        targets_tables(r@, path@, views(tables@), *names),
{
    let holds = are_msg_tables(tables);
    let mut out: Vec<SearchTarget> = Vec::new();
    let ghost all = views(tables@);
    let ghost good = |t: Seq<char>| is_msg_table(t);
    let mut i: usize = 0;
    assert(all.take(0).filter(good) =~= Seq::empty()) by {
        reveal(Seq::filter);
    }
    while i < tables.len()
        invariant
            i <= tables.len(),
            all == views(tables@),
            holds@.len() == tables@.len(),
            forall|j: int|
                0 <= j < tables@.len() ==> #[trigger] holds@[j] == is_msg_table(tables@[j]@),
            good == (|t: Seq<char>| is_msg_table(t)),
            out.len() == all.take(i as int).filter(good).len(),
            forall|j: int|
                0 <= j < out.len() ==> (#[trigger] out@[j]).of_table(
                    path@,
                    all.take(i as int).filter(good)[j],
                    *names,
                ),
        decreases tables.len() - i,
    {
        let keep = holds[i];
        proof {
            reveal(Seq::filter);
            assert(all.take(i + 1).drop_last() =~= all.take(i as int));
            assert(all.take(i + 1).last() == tables@[i as int]@);
        }
        assert(keep == good(all[i as int]));
        if keep {
            out.push(table_target(path, tables[i].as_str(), names));
        }
        i = i + 1;
    }
    assert(all.take(tables.len() as int) =~= all);
    out
}

/// The targets in one database.
pub struct DbTargets {
    /// The path of the database.
    pub path: String,
    /// The targets.
    pub targets: Vec<SearchTarget>,
}

/// Whether the groups hold all targets, those of each database together and in their order.
pub open spec fn groups_by_path(groups: Seq<DbTargets>, all: Seq<SearchTarget>) -> bool {
    &&& keys_ordered(groups.map_values(|g: DbTargets| g.path@))
    &&& forall|i: int|
        0 <= i < groups.len() ==> (#[trigger] groups[i]).targets@ == all.filter(
            |t: SearchTarget| t.path@ == groups[i].path@,
        )
    &&& forall|i: int| 0 <= i < groups.len() ==> is_path_of(all, (#[trigger] groups[i]).path@)
    &&& forall|k: int| 0 <= k < all.len() ==> has_path(groups, (#[trigger] all[k]).path@)
}

/// Whether one of the targets is in a database.
pub open spec fn is_path_of(all: Seq<SearchTarget>, path: Seq<char>) -> bool {
    exists|i: int| 0 <= i < all.len() && (#[trigger] all[i]).path@ == path
}

/// Whether one of the groups is that of a database.
pub open spec fn has_path(groups: Seq<DbTargets>, path: Seq<char>) -> bool {
    exists|i: int| 0 <= i < groups.len() && (#[trigger] groups[i]).path@ == path
}

fn targets_at(all: &Vec<SearchTarget>, path: &str) -> (r: Vec<SearchTarget>)
    ensures
        r@ == all@.filter(|t: SearchTarget| t.path@ == path@),
{
    let mut out: Vec<SearchTarget> = Vec::new();
    let ghost here = |t: SearchTarget| t.path@ == path@;
    let mut i: usize = 0;
    assert(all@.take(0).filter(here) =~= Seq::empty()) by {
        reveal(Seq::filter);
    }
    while i < all.len()
        invariant
            i <= all.len(),
            here == (|t: SearchTarget| t.path@ == path@),
            out@ == all@.take(i as int).filter(here),
        decreases all.len() - i,
    {
        proof {
            reveal(Seq::filter);
            assert(all@.take(i + 1).drop_last() =~= all@.take(i as int));
            assert(all@.take(i + 1).last() == all@[i as int]);
        }
        if same(all[i].path.as_str(), path) {
            out.push(all[i].copy());
        }
        i = i + 1;
    }
    assert(all@.take(all.len() as int) =~= all@);
    out
}

/// The targets of each database.
pub fn group_by_path(all: &Vec<SearchTarget>) -> (r: Vec<DbTargets>)
    ensures
        groups_by_path(r@, all@),
{
    let mut paths: StrMap<bool> = StrMap::new();
    let mut i: usize = 0;
    while i < all.len()
        invariant
            i <= all.len(),
            forall|j: int| 0 <= j < i ==> paths@.contains_key((#[trigger] all@[j]).path@),
            forall|p: Seq<char>| #[trigger] paths@.contains_key(p) ==> is_path_of(all@, p),
        decreases all.len() - i,
    {
        paths.insert(all[i].path.clone(), true);
        assert(is_path_of(all@, all@[i as int].path@));
        i = i + 1;
    }
    let n: usize = paths.len();
    let mut out: Vec<DbTargets> = Vec::new();
    let mut k: usize = 0;
    while k < n
        invariant
            k <= n,
            n == paths.keys().len(),
            out.len() == k,
            forall|p: Seq<char>| #[trigger] paths@.contains_key(p) ==> is_path_of(all@, p),
            forall|j: int| 0 <= j < k ==> (#[trigger] out@[j]).path@ == paths.keys()[j],
            forall|j: int| 0 <= j < k ==> is_path_of(all@, (#[trigger] out@[j]).path@),
            forall|j: int|
                0 <= j < k ==> (#[trigger] out@[j]).targets@ == all@.filter(
                    |t: SearchTarget| t.path@ == out@[j].path@,
                ),
        decreases n - k,
    {
        let (p, _) = paths.at(k);
        let targets = targets_at(all, p.as_str());
        out.push(DbTargets { path: p.clone(), targets });
        k = k + 1;
    }
    proof {
        assert(out@.map_values(|g: DbTargets| g.path@) =~= paths.keys());
        assert forall|k: int| 0 <= k < all@.len() implies has_path(
            out@,
            (#[trigger] all@[k]).path@,
        ) by {
            assert(paths@.contains_key(all@[k].path@));
            assert(paths.keys().contains(all@[k].path@));
            let i = choose|i: int|
                0 <= i < paths.keys().len() && paths.keys()[i] == all@[k].path@;
            assert(out@[i].path@ == all@[k].path@);
        }
    }
    out
}

/// A message that a search found.
pub struct SearchHit {
    /// Where it was sent: the display name of the chat, or the name of the table.
    pub chat: String,
    /// The message.
    pub message: Message,
}

/// The name under which the hits in a table are listed.
pub open spec fn hit_chat(target: SearchTarget) -> Seq<char> {
    if target.display@.len() > 0 {
        target.display@
    } else {
        target.table@
    }
}

/// The hits in a table, one for each message.
pub fn hits_of(messages: Vec<Message>, target: &SearchTarget) -> (r: Vec<SearchHit>)
    ensures
        r@.map_values(|h: SearchHit| h.message) == messages@,
        forall|i: int| 0 <= i < r@.len() ==> (#[trigger] r@[i]).chat@ == hit_chat(*target),
{
    let ghost all = messages@;
    let mut rest = messages;
    let mut back: Vec<SearchHit> = Vec::new();
    while rest.len() > 0
        invariant
            rest.len() + back.len() == all.len(),
            rest@ == all.take(rest.len() as int),
            forall|i: int|
                0 <= i < back.len() ==> (#[trigger] back@[i]).message == all[all.len() - 1 - i]
                    && back@[i].chat@ == hit_chat(*target),
        decreases rest.len(),
    {
        match rest.pop() {
            Some(message) => {
                let chat = if !target.display.as_str().is_empty() {
                    target.display.clone()
                } else {
                    target.table.clone()
                };
                back.push(SearchHit { chat, message });
            },
            None => {},
        }
    }
    let mut out: Vec<SearchHit> = Vec::new();
    while back.len() > 0
        invariant
            back.len() + out.len() == all.len(),
            forall|i: int|
                0 <= i < back.len() ==> (#[trigger] back@[i]).message == all[all.len() - 1 - i]
                    && back@[i].chat@ == hit_chat(*target),
            forall|i: int|
                0 <= i < out.len() ==> (#[trigger] out@[i]).message == all[i] && out@[i].chat@
                    == hit_chat(*target),
        decreases back.len(),
    {
        match back.pop() {
            Some(hit) => {
                out.push(hit);
            },
            None => {},
        }
    }
    assert(out@.map_values(|h: SearchHit| h.message) =~= all);
    out
}

/// Hits from the newest to the oldest; those of one second keep their order.
pub open spec fn newest_hits(all: Seq<SearchHit>) -> Seq<SearchHit> {
    sorted_by(all, |h: SearchHit| Descending(h.message.timestamp))
}

/// How many messages are taken from each table.
pub open spec fn table_limit(limit: int) -> int {
    limit * 3
}

/// How many messages are taken from each table.
pub fn search_table_limit(limit: usize) -> (r: usize)
    requires
        table_limit(limit as int) <= usize::MAX,
    ensures
        r == table_limit(limit as int),
{
    limit * 3
}

/// What a search found.
pub struct SearchList {
    /// The keyword.
    pub keyword: String,
    /// The number of messages that are listed.
    pub count: usize,
    /// The messages.
    pub results: Vec<SearchHit>,
}

/// What a search read of one table.
pub struct FoundRows {
    /// The table.
    pub target: SearchTarget,
    /// What was read of it.
    pub table: TableRows,
}

/// Whether `hits` are those of one table, one for each row.
pub open spec fn tell_hits(hits: Seq<SearchHit>, found: FoundRows, names: Names) -> bool {
    &&& tell_all(
        hits.map_values(|h: SearchHit| h.message),
        found.table.rows@,
        Setting {
            username: &found.target.username,
            is_group: is_chatroom(found.target.username@),
            id2u: &found.table.id2u,
            names: &names.map,
        },
    )
    &&& forall|i: int| 0 <= i < hits.len() ==> (#[trigger] hits[i]).chat@ == hit_chat(found.target)
}

/// Whether `all` lists, table by table, what a search found.
pub open spec fn tell_found(
    all: Seq<Seq<SearchHit>>,
    found: Seq<FoundRows>,
    names: Names,
) -> bool {
    &&& all.len() == found.len()
    &&& forall|i: int| 0 <= i < found.len() ==> tell_hits(#[trigger] all[i], found[i], names)
}

/// Hits from the newest to the oldest.
pub fn sort_hits(hits: Vec<SearchHit>) -> (r: Vec<SearchHit>)
    ensures
        r@ == newest_hits(hits@),
{
    let mut keys: Vec<Descending> = Vec::new();
    let mut i: usize = 0;
    while i < hits.len()
        invariant
            i <= hits.len(),
            keys.len() == i,
            forall|j: int|
                0 <= j < i ==> #[trigger] keys@[j] == Descending(hits@[j].message.timestamp),
        decreases hits.len() - i,
    {
        keys.push(Descending(hits[i].message.timestamp));
        i = i + 1;
    }
    assert(keys@ =~= hits@.map_values(|h: SearchHit| Descending(h.message.timestamp)));
    sort_by_keys(hits, &keys)
}

/// The newest of the messages that a search found.
pub fn q_search(names: &Names, keyword: &str, found: &Vec<FoundRows>, limit: usize) -> (r:
    SearchList)
    ensures
        r.keyword@ == keyword@,
        exists|all: Seq<Seq<SearchHit>>| #[trigger]
            tell_found(all, found@, *names) && r.results@ == first_of(
                newest_hits(all_of(all)),
                limit as int,
            ),
        r.count == r.results@.len(),
{
    let ghost mut listed: Seq<Seq<SearchHit>> = Seq::empty();
    let mut all: Vec<SearchHit> = Vec::new();
    let mut i: usize = 0;
    while i < found.len()
        invariant
            i <= found.len(),
            tell_found(listed, found@.take(i as int), *names),
            all@ == all_of(listed),
        decreases found.len() - i,
    {
        let target = &found[i].target;
        let at = Setting {
            username: &target.username,
            is_group: contains(target.username.as_str(), "@chatroom"),
            id2u: &found[i].table.id2u,
            names: &names.map,
        };
        let mut hits = hits_of(query_messages(&found[i].table.rows, &at), target);
        proof {
            lemma_all_of_push(listed, hits@);
            listed = listed.push(hits@);
        }
        all.append(&mut hits);
        i = i + 1;
    }
    assert(found@.take(i as int) =~= found@);
    let mut results = sort_hits(all);
    results.truncate(limit);
    assert(results@ =~= first_of(newest_hits(all_of(listed)), limit as int));
    SearchList { keyword: keyword.to_owned(), count: results.len(), results }
}

/// A table of a chat's messages, in one of the databases.
pub struct FoundTable {
    /// When its newest message was sent.
    pub newest: i64,
    /// The path of the database.
    pub path: NativePath,
}

/// The tables of a chat, those with newer messages first.
pub open spec fn newest_tables(found: Seq<FoundTable>) -> Seq<FoundTable> {
    sorted_by(found, |t: FoundTable| Descending(t.newest))
}

/// The tables of a chat, those with newer messages first.
pub fn find_msg_tables(found: Vec<FoundTable>) -> (r: Vec<FoundTable>)
    ensures
        r@ == newest_tables(found@),
{
    let mut keys: Vec<Descending> = Vec::new();
    let mut i: usize = 0;
    while i < found.len()
        invariant
            i <= found.len(),
            keys.len() == i,
            forall|j: int| 0 <= j < i ==> #[trigger] keys@[j] == Descending(found@[j].newest),
        decreases found.len() - i,
    {
        keys.push(Descending(found[i].newest));
        i = i + 1;
    }
    assert(keys@ =~= found@.map_values(|t: FoundTable| Descending(t.newest)));
    sort_by_keys(found, &keys)
}

/// The hits that are listed are the newest of all: so many of each table are enough as are taken,
/// where the tables list the newest messages first.
pub proof fn law_hits_from_capped(tables: Seq<Seq<SearchHit>>, limit: int)
    requires
        0 <= limit,
        forall|i: int|
            0 <= i < tables.len() ==> in_order(
                #[trigger] tables[i],
                |h: SearchHit| Descending(h.message.timestamp),
            ),
    ensures
        first_of(newest_hits(all_of(tables)), limit) == first_of(
            newest_hits(all_of(capped(tables, table_limit(limit)))),
            limit,
        ),
{
    law_cap(
        tables,
        |h: SearchHit| Descending(h.message.timestamp),
        table_limit(limit),
        limit,
    );
}

/// The table of a contact is listed under a contact with the same digest.
pub proof fn law_contact_table_named(
    target: SearchTarget,
    path: Seq<char>,
    username: Seq<char>,
    names: Names,
)
    requires
        indexes(names.md5_to_uname@, |u: Seq<char>| names.map@.contains_key(u)),
        names.map@.contains_key(username),
        target.of_table(path, table_of(username), names),
    ensures
        names.map@.contains_key(target.username@),
        name_digest(target.username@) == name_digest(username),
{
    reveal_strlit("Msg_");
    assert(table_of(username).skip(4) =~= name_digest(username));
    let known = |u: Seq<char>| names.map@.contains_key(u);
    assert(known(username));
    assert(names.md5_to_uname@.contains_key(name_digest(username)));
}

} // verus!
