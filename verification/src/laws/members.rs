use vstd::prelude::*;

use crate::laws::order::{law_first_stays_first, law_sorted_elements};
use crate::members::{
    distinct_senders, has_roster, known_senders, member_key, named_rows, sorted_members,
    tell_members, tell_senders, Member, MemberRow, Room,
};
use crate::order::{lemma_text_lt_irreflexive, text_lt};

verus! {

/// A member is listed under the name that the owner of the data gave, else under the member's own,
/// else under that of the contacts, else under the user name.
pub proof fn law_member_listed(
    m: Member,
    row: MemberRow,
    owner: Seq<char>,
    names: Map<Seq<char>, String>,
)
    requires
        m.tells(row, owner, names),
    ensures
        ({
            let u = row.username@;
            &&& m.username@ == u
            &&& row.remark@.len() > 0 ==> m.display@ == row.remark@
            &&& row.remark@.len() == 0 && row.nick_name@.len() > 0 ==> m.display@ == row.nick_name@
            &&& row.remark@.len() == 0 && row.nick_name@.len() == 0 && names.contains_key(u)
                ==> m.display@ == names[u]@
            &&& row.remark@.len() == 0 && row.nick_name@.len() == 0 && !names.contains_key(u)
                ==> m.display@ == u
            &&& m.is_owner <==> owner.len() > 0 && u == owner
        }),
{
}

/// Every member with a user name is listed, and no other.
pub proof fn law_members_complete(
    all: Seq<Member>,
    rows: Seq<MemberRow>,
    owner: Seq<char>,
    names: Map<Seq<char>, String>,
    i: int,
    k: int,
)
    requires
        tell_members(all, named_rows(rows), owner, names),
        0 <= i < rows.len(),
        rows[i].username@.len() > 0,
        0 <= k < all.len(),
    ensures
        exists|j: int| 0 <= j < all.len() && (#[trigger] all[j]).tells(rows[i], owner, names),
        all[k].username@.len() > 0,
{
    let named = |r: MemberRow| r.username@.len() > 0;
    let kept = named_rows(rows);
    assert(named(rows[i]));
    rows.lemma_filter_contains(named, i);
    let j = choose|j: int| 0 <= j < kept.len() && kept[j] == rows[i];
    assert(all[j].tells(kept[j], owner, names));
    rows.lemma_filter_pred(named, k);
    assert(all[k].tells(kept[k], owner, names));
}

/// The members are known from the group's own table where that is there, the group has a number and
/// one of the members a user name.
pub proof fn law_roster_known(has_table: bool, room: Option<Room>, rows: Seq<MemberRow>, i: int)
    requires
        0 <= i < rows.len(),
        rows[i].username@.len() > 0,
    ensures
        has_roster(has_table, room, rows) <==> {
            &&& has_table
            &&& room is Some
            &&& room->0.id != 0
        },
        !has_roster(has_table, room, Seq::empty()),
{
    let named = |r: MemberRow| r.username@.len() > 0;
    assert(named(rows[i]));
    rows.lemma_filter_contains(named, i);
    assert(named_rows(rows).len() > 0);
    assert(named_rows(Seq::empty()).len() == 0) by {
        reveal(Seq::filter);
    }
}

/// The senders of a table are those that it names, but not the group itself.
pub proof fn law_senders_of_table(ids: Seq<i64>, id2u: Map<i64, String>, group: Seq<char>, x: i64)
    ensures
        known_senders(ids, id2u, group).contains(x) <==> {
            &&& ids.contains(x)
            &&& id2u.contains_key(x)
            &&& id2u[x]@ != group
        },
    decreases ids.len(),
{
    reveal(Seq::filter);
    let kept = known_senders(ids, id2u, group);
    if ids.len() > 0 {
        let rest = ids.drop_last();
        let last = ids.last();
        law_senders_of_table(rest, id2u, group, x);
        let before = known_senders(rest, id2u, group);
        assert(kept == if id2u.contains_key(last) && id2u[last]@ != group {
            before.push(last)
        } else {
            before
        });
        lemma_push_contains(before, last, x);
        lemma_push_contains(rest, last, x);
        assert(ids =~= rest.push(last));
    }
}

proof fn lemma_push_contains(s: Seq<i64>, y: i64, x: i64)
    ensures
        s.push(y).contains(x) <==> s.contains(x) || x == y,
{
    let t = s.push(y);
    assert(t[s.len() as int] == y);
    if s.contains(x) {
        let k = choose|k: int| 0 <= k < s.len() && s[k] == x;
        assert(t[k] == x);
    }
    if t.contains(x) && x != y {
        let k = choose|k: int| 0 <= k < t.len() && t[k] == x;
        assert(s[k] == x);
    }
}

/// Those who have sent a message are listed once each, under their display names, and none of them
/// as the owner.
pub proof fn law_senders_listed(
    us: Seq<Seq<char>>,
    all: Seq<Member>,
    senders: Seq<String>,
    names: Map<Seq<char>, String>,
    i: int,
    k: int,
)
    requires
        distinct_senders(us, senders),
        tell_senders(all, us, names),
        0 <= i < senders.len(),
        0 <= k < all.len(),
    ensures
        exists|j: int| 0 <= j < all.len() && (#[trigger] all[j]).username@ == senders[i]@,
        exists|j: int| 0 <= j < senders.len() && (#[trigger] senders[j])@ == all[k].username@,
        names.contains_key(all[k].username@) ==> all[k].display@ == names[all[k].username@]@,
        !names.contains_key(all[k].username@) ==> all[k].display@ == all[k].username@,
        !all[k].is_owner,
        us.no_duplicates(),
{
    assert(crate::members::is_sender(senders, senders[i]@));
    assert(us.contains(senders[i]@));
    let j = choose|j: int| 0 <= j < us.len() && us[j] == senders[i]@;
    assert(all[j].username@ == us[j]);
    assert(all[k].username@ == us[k]);
    assert(us.contains(us[k]));
    assert forall|a: int, b: int| 0 <= a < us.len() && 0 <= b < us.len() && a != b implies us[a]
        != us[b] by {
        lemma_text_lt_irreflexive(us[a]);
        if a < b {
            assert(text_lt(us[a], us[b]));
        } else {
            assert(text_lt(us[b], us[a]));
        }
    }
}

/// Sorting members loses none.
pub proof fn law_members_sorted(all: Seq<Member>)
    ensures
        sorted_members(all).len() == all.len(),
        sorted_members(all).to_multiset() == all.to_multiset(),
{
    law_sorted_elements(all, |m: Member| member_key(m));
}

/// Members with one display name keep their order.
pub proof fn law_members_keep_order(all: Seq<Member>, p: int, q: int) -> (at: (int, int))
    requires
        0 <= p < q < all.len(),
        all[p].display@ == all[q].display@,
        all[p].is_owner == all[q].is_owner,
    ensures
        0 <= at.0 < at.1 < sorted_members(all).len(),
        sorted_members(all)[at.0] == all[p],
        sorted_members(all)[at.1] == all[q],
{
    lemma_text_lt_irreflexive(all[p].display@);
    law_first_stays_first(all, |m: Member| member_key(m), p, q)
}

} // verus!
