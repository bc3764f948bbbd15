use vstd::prelude::*;

use crate::laws::order::{law_first_stays_first, law_sorted_elements};
use crate::names::{law_resolution_unique, meant, resolves, Names};
use crate::order::{law_sorted_in_order, lemma_text_lt_irreflexive, text_lt, Descending, SortKey};
use crate::patterns::is_msg_table;
use crate::search::{
    all_meant, groups_by_path, has_path, hit_chat, newest_hits, newest_tables, table_limit,
    targets_tables, tell_found, tell_hits, DbTargets, FoundRows, FoundTable, SearchHit,
    SearchTarget,
};

verus! {

/// A table of a chat is searched under the names of the chat.
pub proof fn law_chat_target(
    t: SearchTarget,
    path: Seq<char>,
    table: Seq<char>,
    username: Seq<char>,
    names: Names,
)
    requires
        t.of_chat(path, table, username, names),
    ensures
        t.path@ == path,
        t.table@ == table,
        t.username@ == username,
        names.map@.contains_key(username) ==> t.display@ == names.map@[username]@,
        !names.map@.contains_key(username) ==> t.display@ == username,
{
}

/// A table of a database is searched under the names of the chat to whose digest its own name
/// leads; under none where it leads to none.
pub proof fn law_table_target(t: SearchTarget, path: Seq<char>, digest: Seq<char>, names: Names)
    requires
        t.of_table(path, seq!['M', 's', 'g', '_'] + digest, names),
    ensures
        t.path@ == path,
        t.table@ == seq!['M', 's', 'g', '_'] + digest,
        !names.md5_to_uname@.contains_key(digest) ==> t.username@.len() == 0 && t.display@.len()
            == 0,
        names.md5_to_uname@.contains_key(digest) ==> {
            let u = names.md5_to_uname@[digest]@;
            &&& t.username@ == u
            &&& u.len() > 0 && names.map@.contains_key(u) ==> t.display@ == names.map@[u]@
            &&& u.len() > 0 && !names.map@.contains_key(u) ==> t.display@ == u
        },
{
    assert((seq!['M', 's', 'g', '_'] + digest).skip(4) =~= digest);
}

/// The tables that are searched are just those that hold messages.
pub proof fn law_message_tables_searched(
    all: Seq<SearchTarget>,
    path: Seq<char>,
    tables: Seq<Seq<char>>,
    names: Names,
    i: int,
    k: int,
)
    requires
        targets_tables(all, path, tables, names),
        0 <= i < tables.len(),
        0 <= k < all.len(),
    ensures
        is_msg_table(tables[i]) ==> exists|j: int|
            0 <= j < all.len() && (#[trigger] all[j]).table@ == tables[i] && all[j].path@ == path,
        is_msg_table(all[k].table@),
        tables.contains(all[k].table@),
{
    let good = |t: Seq<char>| is_msg_table(t);
    let kept = tables.filter(good);
    if is_msg_table(tables[i]) {
        assert(good(tables[i]));
        tables.lemma_filter_contains(good, i);
        let j = choose|j: int| 0 <= j < kept.len() && kept[j] == tables[i];
        assert(all[j].of_table(path, kept[j], names));
    }
    tables.lemma_filter_pred(good, k);
    assert(all[k].of_table(path, kept[k], names));
    assert(kept.contains(kept[k]));
    tables.lemma_filter_contains_rev(good, kept[k]);
}

/// A table holds messages where its name is `Msg_` with thirty-two lower-case hexadecimal digits.
pub proof fn law_message_table(digest: Seq<char>)
    ensures
        is_msg_table(seq!['M', 's', 'g', '_'] + digest) <==> {
            &&& digest.len() == 32
            &&& forall|i: int|
                0 <= i < 32 ==> ('0' <= #[trigger] digest[i] <= '9') || ('a' <= digest[i] <= 'f')
        },
{
    reveal_strlit("Msg_");
    let s = seq!['M', 's', 'g', '_'] + digest;
    assert(s.take(4) =~= "Msg_"@);
    if digest.len() == 32 {
        assert forall|i: int| 4 <= i < 36 implies #[trigger] s[i] == digest[i - 4] by {}
        assert forall|i: int| 0 <= i < 32 implies #[trigger] digest[i] == s[i + 4] by {}
    }
}

/// The tables are searched database by database: each is in the group of its own database, and no
/// database has two groups.
pub proof fn law_grouped(groups: Seq<DbTargets>, all: Seq<SearchTarget>, k: int, a: int, b: int)
    requires
        groups_by_path(groups, all),
        0 <= k < all.len(),
        0 <= a < b < groups.len(),
    ensures
        exists|i: int|
            0 <= i < groups.len() && (#[trigger] groups[i]).path@ == all[k].path@
                && groups[i].targets@.contains(all[k]),
        groups[a].path@ != groups[b].path@,
        forall|j: int|
            0 <= j < groups[a].targets@.len() ==> (#[trigger] groups[a].targets@[j]).path@
                == groups[a].path@,
{
    assert(has_path(groups, all[k].path@));
    let i = choose|i: int| 0 <= i < groups.len() && (#[trigger] groups[i]).path@ == all[k].path@;
    let here = |t: SearchTarget| t.path@ == groups[i].path@;
    assert(here(all[k]));
    all.lemma_filter_contains(here, k);
    assert(groups[i].targets@ == all.filter(here));
    let paths = groups.map_values(|g: DbTargets| g.path@);
    assert(text_lt(paths[a], paths[b]));
    lemma_text_lt_irreflexive(paths[a]);
    let there = |t: SearchTarget| t.path@ == groups[a].path@;
    assert(groups[a].targets@ == all.filter(there));
    assert forall|j: int| 0 <= j < groups[a].targets@.len() implies (
    #[trigger] groups[a].targets@[j]).path@ == groups[a].path@ by {
        all.lemma_filter_pred(there, j);
    }
}

/// A hit is listed under the display name of its chat, else under the name of its table, and is
/// what its row says.
pub proof fn law_hit_listed(hits: Seq<SearchHit>, found: FoundRows, names: Names, i: int)
    requires
        tell_hits(hits, found, names),
        0 <= i < hits.len(),
    ensures
        hits.len() == found.table.rows@.len(),
        found.target.display@.len() > 0 ==> hits[i].chat@ == found.target.display@,
        found.target.display@.len() == 0 ==> hits[i].chat@ == found.target.table@,
        hits[i].message.timestamp == found.table.rows@[i].create_time,
        hits[i].message.local_id == found.table.rows@[i].local_id,
        ({
            let row = found.table.rows@[i];
            let group = crate::names::is_chatroom(found.target.username@);
            &&& hits[i].message.content@ == crate::content::content_text(
                row.local_id,
                row.local_type,
                row.text(),
                group,
            )
            &&& hits[i].message.sender@ == crate::content::sender_shown(
                row.real_sender_id,
                row.text(),
                group,
                found.target.username@,
                found.table.id2u@,
                names.map@,
            )
        }),
{
    let told = hits.map_values(|h: SearchHit| h.message);
    assert(told[i] == hits[i].message);
    assert(hits[i].chat@ == hit_chat(found.target));
}

/// Hits are listed from the newest on, and sorting loses none.
pub proof fn law_newest_hits(all: Seq<SearchHit>, i: int, j: int)
    requires
        0 <= i <= j < all.len(),
    ensures
        newest_hits(all).len() == all.len(),
        newest_hits(all).to_multiset() == all.to_multiset(),
        newest_hits(all)[j].message.timestamp <= newest_hits(all)[i].message.timestamp,
{
    let key = |h: SearchHit| Descending(h.message.timestamp);
    law_sorted_in_order(all, key);
    law_sorted_elements(all, key);
    let s = newest_hits(all);
    assert(!key(s[j]).lt(key(s[i])));
}

/// The tables of a chat are read from the one with the newest messages on.
pub proof fn law_newest_tables(all: Seq<FoundTable>, i: int, j: int)
    requires
        0 <= i <= j < all.len(),
    ensures
        newest_tables(all).len() == all.len(),
        newest_tables(all).to_multiset() == all.to_multiset(),
        newest_tables(all)[j].newest <= newest_tables(all)[i].newest,
{
    let key = |t: FoundTable| Descending(t.newest);
    law_sorted_in_order(all, key);
    law_sorted_elements(all, key);
    let s = newest_tables(all);
    assert(!key(s[j]).lt(key(s[i])));
}

/// Three times as many messages are taken from each table as are listed.
pub proof fn law_table_limit(limit: int)
    requires
        0 <= limit,
    ensures
        table_limit(limit) == limit + limit + limit,
        table_limit(limit) >= limit,
{
}

/// The chats that are searched are those that the names mean, in their order; a name that means
/// none is passed over.
pub proof fn law_chats_searched(
    m: Map<Seq<char>, String>,
    chats: Seq<Seq<char>>,
    name: Seq<char>,
    r: Option<Seq<char>>,
)
    requires
        resolves(m, name, r),
    ensures
        all_meant(m, Seq::empty()).len() == 0,
        match r {
            Some(u) => all_meant(m, chats.push(name)) == all_meant(m, chats).push(u),
            None => all_meant(m, chats.push(name)) == all_meant(m, chats),
        },
{
    assert(chats.push(name).drop_last() =~= chats);
    assert(resolves(m, name, meant(m, name)));
    law_resolution_unique(m, name, r, meant(m, name));
}

/// What was found in each table is told, table by table.
pub proof fn law_found_told(
    all: Seq<Seq<SearchHit>>,
    found: Seq<FoundRows>,
    names: Names,
    k: int,
)
    requires
        tell_found(all, found, names),
        0 <= k < found.len(),
    ensures
        all.len() == found.len(),
        all[k].len() == found[k].table.rows@.len(),
        tell_hits(all[k], found[k], names),
{
}

/// Hits of one second keep their order.
pub proof fn law_hits_keep_order(all: Seq<SearchHit>, p: int, q: int) -> (at: (int, int))
    requires
        0 <= p < q < all.len(),
        all[p].message.timestamp == all[q].message.timestamp,
    ensures
        0 <= at.0 < at.1 < newest_hits(all).len(),
        newest_hits(all)[at.0] == all[p],
        newest_hits(all)[at.1] == all[q],
{
    law_first_stays_first(all, |h: SearchHit| Descending(h.message.timestamp), p, q)
}

/// Tables with equally new messages keep their order.
pub proof fn law_tables_keep_order(all: Seq<FoundTable>, p: int, q: int) -> (at: (int, int))
    requires
        0 <= p < q < all.len(),
        all[p].newest == all[q].newest,
    ensures
        0 <= at.0 < at.1 < newest_tables(all).len(),
        newest_tables(all)[at.0] == all[p],
        newest_tables(all)[at.1] == all[q],
{
    law_first_stays_first(all, |t: FoundTable| Descending(t.newest), p, q)
}

} // verus!
