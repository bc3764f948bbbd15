use vstd::prelude::*;

use crate::names::Names;
use crate::order::{first_of, law_sorted_in_order, sort_by_keys, sorted_by, text_lt, SortKey};
use crate::outside::{lowercase, to_lowercase};
use crate::text::{begins, contains, occurs, starts_with};

verus! {

/// A contact as it is listed.
pub struct Contact {
    /// The user name.
    pub username: String,
    /// The display name.
    pub display: String,
}

/// A list of contacts.
pub struct ContactList {
    /// The contacts that are shown.
    pub contacts: Vec<Contact>,
    /// How many there are in all.
    pub total: usize,
}

/// Whether one of two names holds a text.
pub fn either_holds(display: &str, username: &str, text: &str) -> (r: bool)
    ensures
        r == (occurs(display@, text@) || occurs(username@, text@)),
{
    contains(display, text) || contains(username, text)
}

/// Whether a contact is listed: it is no public account by its prefix, and the query, if there is
/// one, stands in its display name or user name, but for upper and lower case.
pub open spec fn listed(
    m: Map<Seq<char>, String>,
    query: Option<Seq<char>>,
    u: Seq<char>,
) -> bool {
    &&& !begins(u, "gh_"@)
    &&& !begins(u, "biz_"@)
    &&& match query {
        Some(q) => occurs(lowercase(m[u]@), lowercase(q)) || occurs(lowercase(u), lowercase(q)),
        None => true,
    }
}

/// Whether `all` holds the listed contacts among the user names `us`, in their order.
pub open spec fn lists(
    all: Seq<Contact>,
    m: Map<Seq<char>, String>,
    query: Option<Seq<char>>,
    us: Seq<Seq<char>>,
) -> bool {
    &&& all.map_values(|c: Contact| c.username@) == us.filter(|u: Seq<char>| listed(m, query, u))
    &&& forall|i: int| 0 <= i < all.len() ==> (#[trigger] all[i]).display@ == m[all[i].username@]@
}

/// Contacts in the order of their display names.
pub open spec fn by_display(all: Seq<Contact>) -> Seq<Contact> {
    sorted_by(all, |c: Contact| c.display)
}

/// The contacts that a query asks for, sorted by display name and cut off after `limit`.
pub fn q_contacts(names: &Names, query: Option<&str>, limit: usize) -> (r: ContactList)
    ensures
        exists|all: Seq<Contact>|
            {
                &&& lists(
                    all,
                    names.map@,
                    match query {
                        Some(q) => Some(q@),
                        None => None,
                    },
                    names.map.keys(),
                )
                &&& r.total == all.len()
                &&& r.contacts@ == first_of(by_display(all), limit as int)
            },
{
    let ghost m = names.map@;
    let ghost gq = match query {
        Some(q) => Some(q@),
        None => None,
    };
    let ghost keys = names.map.keys();
    let low: Option<String> = match query {
        Some(q) => Some(to_lowercase(q)),
        None => None,
    };
    let n: usize = names.map.len();
    let mut all: Vec<Contact> = Vec::new();
    let mut displays: Vec<String> = Vec::new();
    let mut i: usize = 0;
    let ghost wanted = |u: Seq<char>| listed(m, gq, u);
    assert(keys.take(0).filter(wanted) =~= Seq::empty()) by {
        reveal(Seq::filter);
    }
    assert(all@.map_values(|c: Contact| c.username@) =~= Seq::empty());
    while i < n
        invariant
            i <= n,
            n == keys.len(),
            m == names.map@,
            keys == names.map.keys(),
            wanted == (|u: Seq<char>| listed(m, gq, u)),
            match (low, gq) {
                (Some(l), Some(q)) => l@ == lowercase(q),
                (None, None) => true,
                _ => false,
            },
            all@.map_values(|c: Contact| c.username@) == keys.take(i as int).filter(wanted),
            forall|j: int| 0 <= j < all.len() ==> (#[trigger] all@[j]).display@ == m[all@[j].username@]@,
            displays@ == all@.map_values(|c: Contact| c.display),
        decreases n - i,
    {
        let (u, d) = names.map.at(i);
        let mut keep = !starts_with(u.as_str(), "gh_") && !starts_with(u.as_str(), "biz_");
        if keep {
            if let Some(l) = &low {
                keep = either_holds(
                    to_lowercase(d.as_str()).as_str(),
                    to_lowercase(u.as_str()).as_str(),
                    l.as_str(),
                );
            }
        }
        assert(keep == wanted(u@));
        proof {
            reveal(Seq::filter);
            assert(keys.take(i + 1).drop_last() =~= keys.take(i as int));
            assert(keys.take(i + 1).last() == u@);
        }
        if keep {
            let ghost before = all@;
            let c = Contact { username: u.clone(), display: d.clone() };
            displays.push(d.clone());
            all.push(c);
            assert(all@.map_values(|c: Contact| c.username@) =~= before.map_values(
                |c: Contact| c.username@,
            ).push(u@));
            assert(displays@ =~= all@.map_values(|c: Contact| c.display));
        }
        i = i + 1;
    }
    assert(keys.take(n as int) =~= keys);
    assert(lists(all@, m, gq, keys));
    let ghost listed_all = all@;
    let total: usize = all.len();
    let mut contacts = sort_by_keys(all, &displays);
    assert(contacts@ == by_display(listed_all));
    contacts.truncate(limit);
    assert(contacts@ =~= first_of(by_display(listed_all), limit as int));
    ContactList { contacts, total }
}

/// Contacts stand by their display names.
pub proof fn law_contacts_in_order(all: Seq<Contact>, i: int, j: int)
    requires
        0 <= i < j < all.len(),
    ensures
        !text_lt(by_display(all)[j].display@, by_display(all)[i].display@),
{
    let key = |c: Contact| c.display;
    law_sorted_in_order(all, key);
    assert(!SortKey::lt(key(by_display(all)[j]), key(by_display(all)[i])));
}

} // verus!
