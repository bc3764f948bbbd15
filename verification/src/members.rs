use std::collections::HashMap;
use vstd::prelude::*;

use crate::content::{show_name, shown_name};
use crate::messages::{find_chat, Chat, QueryError};
use crate::names::{is_chatroom, resolves, Names};
use crate::order::{law_sorted_in_order, sort_by_keys, sorted_by, text_lt, MarkedFirst, SortKey};
use crate::strmap::{keys_ordered, StrMap};
use crate::text::same;

verus! {

/// The group that a name means.
pub fn find_group(names: &Names, name: &str) -> (r: Result<Chat, QueryError>)
    ensures
        match r {
            Ok(c) => {
                &&& resolves(names.map@, name@, Some(c.username@))
                &&& is_chatroom(c.username@)
                &&& c.of(*names, c.username@)
            },
            Err(QueryError::UnknownContact(n)) => resolves(names.map@, name@, None) && n@ == name@,
            Err(QueryError::NotAGroup(d)) => exists|u: Seq<char>|
                resolves(names.map@, name@, Some(u)) && !is_chatroom(u) && d@ == shown_name(
                    names.map@,
                    u,
                ),
            Err(_) => false,
        },
{
    match find_chat(names, name) {
        Ok(chat) => {
            if chat.is_group {
                Ok(chat)
            } else {
                proof {
                    assert(resolves(names.map@, name@, Some(chat.username@)));
                }
                Err(QueryError::NotAGroup(chat.display))
            }
        },
        Err(e) => Err(e),
    }
}

/// A row of the table of a group's members.
pub struct MemberRow {
    /// The user name; empty where the member is no contact.
    pub username: String,
    /// The name that the user chose.
    pub nick_name: String,
    /// The name that the owner of the data gave the user.
    pub remark: String,
}

/// A member of a group.
pub struct Member {
    /// The user name.
    pub username: String,
    /// The display name.
    pub display: String,
    /// Whether the group is the member's.
    pub is_owner: bool,
}

impl Member {
    /// Whether this is what is listed of a row.
    pub open spec fn tells(
        &self,
        row: MemberRow,
        owner: Seq<char>,
        names: Map<Seq<char>, String>,
    ) -> bool {
        &&& self.username@ == row.username@
        &&& self.display@ == (if row.remark@.len() > 0 {
            row.remark@
        } else if row.nick_name@.len() > 0 {
            row.nick_name@
        } else {
            shown_name(names, row.username@)
        })
        &&& self.is_owner == (row.username@ == owner && owner.len() > 0)
    }
}

/// The key by which members are sorted: the owner first, then by display name.
pub open spec fn member_key(m: Member) -> MarkedFirst {
    MarkedFirst { marked: m.is_owner, text: m.display }
}

/// Members in their order: the owner first, then by display name.
pub open spec fn sorted_members(all: Seq<Member>) -> Seq<Member> {
    sorted_by(all, |m: Member| member_key(m))
}

/// Members in their order.
fn sort_members(all: Vec<Member>) -> (r: Vec<Member>)
    ensures
        r@ == sorted_members(all@),
{
    let mut keys: Vec<MarkedFirst> = Vec::new();
    let mut i: usize = 0;
    while i < all.len()
        invariant
            i <= all.len(),
            keys.len() == i,
            forall|j: int| 0 <= j < i ==> #[trigger] keys@[j] == member_key(all@[j]),
        decreases all.len() - i,
    {
        keys.push(MarkedFirst { marked: all[i].is_owner, text: all[i].display.clone() });
        i = i + 1;
    }
    assert(keys@ =~= all@.map_values(|m: Member| member_key(m)));
    sort_by_keys(all, &keys)
}

/// The rows of members that are contacts.
pub open spec fn named_rows(rows: Seq<MemberRow>) -> Seq<MemberRow> {
    rows.filter(|r: MemberRow| r.username@.len() > 0)
}

/// Whether `all` lists some rows, one member for each.
pub open spec fn tell_members(
    all: Seq<Member>,
    rows: Seq<MemberRow>,
    owner: Seq<char>,
    names: Map<Seq<char>, String>,
) -> bool {
    &&& all.len() == rows.len()
    &&& forall|i: int| 0 <= i < all.len() ==> (#[trigger] all[i]).tells(rows[i], owner, names)
}

/// What the table of groups says of a group.
pub struct Room {
    /// The number of the group.
    pub id: i64,
    /// The user name of its owner.
    pub owner: String,
}

/// Whether the members of a group are known from its own table: the table is there, the group is
/// in the table of groups under a number that is not zero, and a member is a contact.
pub open spec fn has_roster(
    has_table: bool,
    room: Option<Room>,
    rows: Seq<MemberRow>,
) -> bool {
    has_table && room is Some && room->0.id != 0 && named_rows(rows).len() > 0
}

/// The members of a group, from its own table.
pub fn member_roster(
    has_table: bool,
    room: &Option<Room>,
    rows: &Vec<MemberRow>,
    names: &StrMap<String>,
) -> (r: Option<Vec<Member>>)
    ensures
        match r {
            Some(v) => has_roster(has_table, *room, rows@) && exists|all: Seq<Member>|
                tell_members(all, named_rows(rows@), room->0.owner@, names@) && v@ == sorted_members(
                    all,
                ),
            None => !has_roster(has_table, *room, rows@),
        },
{
    let (id, owner) = match room {
        Some(room) => (room.id, &room.owner),
        None => return None,
    };
    if !has_table || id == 0 {
        return None;
    }
    let mut all: Vec<Member> = Vec::new();
    let ghost named = |r: MemberRow| r.username@.len() > 0;
    let mut i: usize = 0;
    assert(rows@.take(0).filter(named) =~= Seq::empty()) by {
        reveal(Seq::filter);
    }
    while i < rows.len()
        invariant
            i <= rows.len(),
            named == (|r: MemberRow| r.username@.len() > 0),
            tell_members(all@, rows@.take(i as int).filter(named), owner@, names@),
        decreases rows.len() - i,
    {
        let row = &rows[i];
        proof {
            reveal(Seq::filter);
            assert(rows@.take(i + 1).drop_last() =~= rows@.take(i as int));
            assert(rows@.take(i + 1).last() == *row);
        }
        if !row.username.as_str().is_empty() {
            let display = if !row.remark.as_str().is_empty() {
                row.remark.clone()
            } else if !row.nick_name.as_str().is_empty() {
                row.nick_name.clone()
            } else {
                show_name(names, row.username.as_str())
            };
            let is_owner = same(row.username.as_str(), owner.as_str())
                && !owner.as_str().is_empty();
            all.push(Member { username: row.username.clone(), display, is_owner });
        }
        i = i + 1;
    }
    assert(rows@.take(rows.len() as int) =~= rows@);
    if all.len() == 0 {
        return None;
    }
    let ghost listed = all@;
    let sorted = sort_members(all);
    assert(tell_members(listed, named_rows(rows@), owner@, names@));
    Some(sorted)
}

/// The user names of those senders of a table that are known and are not the group itself.
pub open spec fn known_senders(
    ids: Seq<i64>,
    id2u: Map<i64, String>,
    group: Seq<char>,
) -> Seq<i64> {
    ids.filter(|id: i64| id2u.contains_key(id) && id2u[id]@ != group)
}

/// The user names of those senders of a table that are known and are not the group itself.
pub fn table_senders(ids: &Vec<i64>, id2u: &HashMap<i64, String>, group: &str) -> (r: Vec<String>)
    ensures
        r@ == known_senders(ids@, id2u@, group@).map_values(|id: i64| id2u@[id]),
{
    broadcast use vstd::std_specs::hash::group_hash_axioms;

    let mut out: Vec<String> = Vec::new();
    let ghost known = |id: i64| id2u@.contains_key(id) && id2u@[id]@ != group@;
    let mut i: usize = 0;
    assert(ids@.take(0).filter(known) =~= Seq::empty()) by {
        reveal(Seq::filter);
    }
    assert(out@ =~= ids@.take(0).filter(known).map_values(|id: i64| id2u@[id]));
    while i < ids.len()
        invariant
            i <= ids.len(),
            known == (|id: i64| id2u@.contains_key(id) && id2u@[id]@ != group@),
            out@ == ids@.take(i as int).filter(known).map_values(|id: i64| id2u@[id]),
        decreases ids.len() - i,
    {
        broadcast use vstd::std_specs::hash::group_hash_axioms;

        proof {
            reveal(Seq::filter);
            assert(ids@.take(i + 1).drop_last() =~= ids@.take(i as int));
            assert(ids@.take(i + 1).last() == ids@[i as int]);
        }
        if let Some(u) = id2u.get(&ids[i]) {
            if !same(u.as_str(), group) {
                out.push(u.clone());
                assert(out@ =~= ids@.take(i + 1).filter(known).map_values(|id: i64| id2u@[id]));
            }
        }
        i = i + 1;
    }
    assert(ids@.take(ids.len() as int) =~= ids@);
    out
}

/// Whether `us` holds just the given user names, each once and in their order.
pub open spec fn distinct_senders(us: Seq<Seq<char>>, senders: Seq<String>) -> bool {
    &&& keys_ordered(us)
    &&& forall|u: Seq<char>| #[trigger] us.contains(u) <==> is_sender(senders, u)
}

/// Whether a user name is that of one of the senders.
pub open spec fn is_sender(senders: Seq<String>, u: Seq<char>) -> bool {
    exists|i: int| 0 <= i < senders.len() && (#[trigger] senders[i])@ == u
}

/// Whether `all` lists some user names, one member for each.
pub open spec fn tell_senders(
    all: Seq<Member>,
    us: Seq<Seq<char>>,
    names: Map<Seq<char>, String>,
) -> bool {
    &&& all.len() == us.len()
    &&& forall|i: int|
        0 <= i < all.len() ==> {
            &&& (#[trigger] all[i]).username@ == us[i]
            &&& all[i].display@ == shown_name(names, us[i])
            &&& !all[i].is_owner
        }
}

/// The members of a group that have sent a message, each once, by display name.
pub fn members_from_senders(senders: &Vec<String>, names: &StrMap<String>) -> (r: Vec<Member>)
    ensures
        exists|us: Seq<Seq<char>>, all: Seq<Member>|
            {
                &&& distinct_senders(us, senders@)
                &&& tell_senders(all, us, names@)
                &&& r@ == sorted_members(all)
            },
{
    let mut set: StrMap<bool> = StrMap::new();
    let mut i: usize = 0;
    while i < senders.len()
        invariant
            i <= senders.len(),
            forall|j: int| 0 <= j < i ==> set@.contains_key((#[trigger] senders@[j])@),
            forall|u: Seq<char>| #[trigger] set@.contains_key(u) ==> is_sender(senders@, u),
        decreases senders.len() - i,
    {
        set.insert(senders[i].clone(), true);
        assert(is_sender(senders@, senders@[i as int]@));
        i = i + 1;
    }
    let n: usize = set.len();
    let ghost us = set.keys();
    assert(distinct_senders(us, senders@));
    let mut all: Vec<Member> = Vec::new();
    let mut k: usize = 0;
    while k < n
        invariant
            k <= n,
            us == set.keys(),
            n == us.len(),
            tell_senders(all@, us.take(k as int), names@),
        decreases n - k,
    {
        let (u, _) = set.at(k);
        all.push(
            Member {
                username: u.clone(),
                display: show_name(names, u.as_str()),
                is_owner: false,
            },
        );
        k = k + 1;
    }
    assert(us.take(n as int) =~= us);
    let ghost listed = all@;
    assert(tell_senders(listed, us, names@));
    sort_members(all)
}

/// The members of a group.
pub struct MemberList {
    /// The group.
    pub chat: Chat,
    /// How many members are listed.
    pub count: usize,
    /// The members.
    pub members: Vec<Member>,
}

/// The members of a group: those of its own table where it is known, else those that have sent a
/// message.
pub fn q_members(
    chat: Chat,
    roster: Option<Vec<Member>>,
    senders: &Vec<String>,
    names: &StrMap<String>,
) -> (r: MemberList)
    ensures
        r.chat == chat,
        r.count == r.members@.len(),
        match roster {
            Some(v) => r.members == v,
            None => exists|us: Seq<Seq<char>>, all: Seq<Member>|
                {
                    &&& distinct_senders(us, senders@)
                    &&& tell_senders(all, us, names@)
                    &&& r.members@ == sorted_members(all)
                },
        },
{
    let members = match roster {
        Some(v) => v,
        None => members_from_senders(senders, names),
    };
    MemberList { chat, count: members.len(), members }
}

/// The owner of a group stands before the other members, and these stand by their display names.
pub proof fn law_members_in_order(all: Seq<Member>, i: int, j: int)
    requires
        0 <= i < j < all.len(),
    ensures
        ({
            let (a, b) = (sorted_members(all)[i], sorted_members(all)[j]);
            &&& b.is_owner ==> a.is_owner
            &&& a.is_owner == b.is_owner ==> !text_lt(b.display@, a.display@)
        }),
{
    let key = |m: Member| member_key(m);
    law_sorted_in_order(all, key);
    let (a, b) = (sorted_members(all)[i], sorted_members(all)[j]);
    assert(!SortKey::lt(key(b), key(a)));
}

} // verus!
