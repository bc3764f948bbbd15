use vstd::prelude::*;

use crate::contacts::{by_display, lists, Contact};
use crate::laws::order::{law_first_stays_first, law_sorted_elements};
use crate::laws::text::law_begins;
use crate::order::lemma_text_lt_irreflexive;
use crate::outside::lowercase;
use crate::text::{begins, occurs};

verus! {

/// Every contact that is listed is one, under its display name, is no public account by its prefix,
/// and one of its two names holds what is asked for.
pub proof fn law_contact_listed(
    all: Seq<Contact>,
    m: Map<Seq<char>, String>,
    query: Option<Seq<char>>,
    us: Seq<Seq<char>>,
    i: int,
)
    requires
        lists(all, m, query, us),
        0 <= i < all.len(),
    ensures
        ({
            let u = all[i].username@;
            &&& us.contains(u)
            &&& all[i].display@ == m[u]@
            &&& u.len() < 3 || u.take(3) != seq!['g', 'h', '_']
            &&& u.len() < 4 || u.take(4) != seq!['b', 'i', 'z', '_']
            &&& query matches Some(q) ==> occurs(lowercase(m[u]@), lowercase(q)) || occurs(
                lowercase(u),
                lowercase(q),
            )
        }),
{
    let wanted = |u: Seq<char>| crate::contacts::listed(m, query, u);
    let names = all.map_values(|c: Contact| c.username@);
    let u = all[i].username@;
    assert(names[i] == u);
    us.lemma_filter_pred(wanted, i);
    assert(us.filter(wanted).contains(u));
    us.lemma_filter_contains_rev(wanted, u);
    reveal_strlit("gh_");
    reveal_strlit("biz_");
    assert("gh_"@ =~= seq!['g', 'h', '_']);
    assert("biz_"@ =~= seq!['b', 'i', 'z', '_']);
    law_begins(u, "gh_"@, u.skip(3));
    law_begins(u, "biz_"@, u.skip(4));
    if u.len() >= 3 && u.take(3) == seq!['g', 'h', '_'] {
        assert(u =~= "gh_"@ + u.skip(3));
    }
    if u.len() >= 4 && u.take(4) == seq!['b', 'i', 'z', '_'] {
        assert(u =~= "biz_"@ + u.skip(4));
    }
}

/// No contact is left out that is no public account by its prefix and one of whose names holds what
/// is asked for.
pub proof fn law_contact_not_left_out(
    all: Seq<Contact>,
    m: Map<Seq<char>, String>,
    query: Option<Seq<char>>,
    us: Seq<Seq<char>>,
    k: int,
)
    requires
        lists(all, m, query, us),
        0 <= k < us.len(),
        us[k].len() < 3 || us[k].take(3) != seq!['g', 'h', '_'],
        us[k].len() < 4 || us[k].take(4) != seq!['b', 'i', 'z', '_'],
        query matches Some(q) ==> occurs(lowercase(m[us[k]]@), lowercase(q)) || occurs(
            lowercase(us[k]),
            lowercase(q),
        ),
    ensures
        exists|i: int|
            0 <= i < all.len() && (#[trigger] all[i]).username@ == us[k] && all[i].display@
                == m[us[k]]@,
{
    let wanted = |u: Seq<char>| crate::contacts::listed(m, query, u);
    let names = all.map_values(|c: Contact| c.username@);
    let u = us[k];
    reveal_strlit("gh_");
    reveal_strlit("biz_");
    assert("gh_"@ =~= seq!['g', 'h', '_']);
    assert("biz_"@ =~= seq!['b', 'i', 'z', '_']);
    law_begins(u, "gh_"@, u);
    law_begins(u, "biz_"@, u);
    if begins(u, "gh_"@) {
        assert(u.take(3) =~= seq!['g', 'h', '_']);
    }
    if begins(u, "biz_"@) {
        assert(u.take(4) =~= seq!['b', 'i', 'z', '_']);
    }
    assert(wanted(us[k]));
    us.lemma_filter_contains(wanted, k);
    assert(names.contains(u));
    let i = choose|i: int| 0 <= i < names.len() && names[i] == u;
    assert(all[i].username@ == u);
}

/// Sorting contacts by their display names loses none.
pub proof fn law_contacts_sorted(all: Seq<Contact>)
    ensures
        by_display(all).len() == all.len(),
        by_display(all).to_multiset() == all.to_multiset(),
{
    law_sorted_elements(all, |c: Contact| c.display);
}

/// Contacts with one display name keep their order.
pub proof fn law_contacts_keep_order(all: Seq<Contact>, p: int, q: int) -> (at: (int, int))
    requires
        0 <= p < q < all.len(),
        all[p].display@ == all[q].display@,
    ensures
        0 <= at.0 < at.1 < by_display(all).len(),
        by_display(all)[at.0] == all[p],
        by_display(all)[at.1] == all[q],
{
    lemma_text_lt_irreflexive(all[p].display@);
    law_first_stays_first(all, |c: Contact| c.display, p, q)
}

} // verus!
