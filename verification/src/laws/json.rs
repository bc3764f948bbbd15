use vstd::prelude::*;

use crate::json::{
    enc_key, entries_map, field_of, fields, flag_at, is_message_db, keys_in, says_pong, text_at,
    JsonEntry, JsonField,
};
use crate::laws::text::{law_begins, law_not_found_without};
use crate::text::{begins, ends, occurs, replaced};

verus! {

/// The first entry with a key counts.
pub proof fn law_first_entry(all: Seq<JsonField>, key: Seq<char>, i: int)
    requires
        0 <= i < all.len(),
        all[i].key == key,
        forall|j: int| 0 <= j < i ==> (#[trigger] all[j]).key != key,
    ensures
        field_of(all, key) == Some(all[i]),
        text_at(all, key) == all[i].text,
        flag_at(all, key) == (all[i].flag == Some(true)),
    decreases all.len(),
{
    if i > 0 {
        let rest = all.skip(1);
        assert(all[0].key != key);
        assert(rest[i - 1] == all[i]);
        assert forall|j: int| 0 <= j < i - 1 implies (#[trigger] rest[j]).key != key by {
            assert(all[j + 1].key != key);
        }
        law_first_entry(rest, key, i - 1);
    }
}

/// Nothing stands under a key that no entry has.
pub proof fn law_no_entry(all: Seq<JsonField>, key: Seq<char>)
    requires
        forall|j: int| 0 <= j < all.len() ==> (#[trigger] all[j]).key != key,
    ensures
        field_of(all, key) is None,
        text_at(all, key) is None,
        !flag_at(all, key),
    decreases all.len(),
{
    if all.len() > 0 {
        let rest = all.skip(1);
        assert(all[0].key != key);
        assert forall|j: int| 0 <= j < rest.len() implies (#[trigger] rest[j]).key != key by {
            assert(all[j + 1].key != key);
        }
        law_no_entry(rest, key);
    }
}

/// The daemon is there where it says `pong`.
pub proof fn law_pong(all: Seq<JsonField>)
    ensures
        says_pong(all) == flag_at(all, seq!['p', 'o', 'n', 'g']),
{
    reveal_strlit("pong");
    assert("pong"@ =~= seq!['p', 'o', 'n', 'g']);
}

/// The value of a key is that of its last entry.
pub proof fn law_entries(entries: Seq<(String, String)>, i: int)
    requires
        0 <= i < entries.len(),
        forall|j: int| i < j < entries.len() ==> (#[trigger] entries[j]).0@ != entries[i].0@,
    ensures
        entries_map(entries).contains_key(entries[i].0@),
        entries_map(entries)[entries[i].0@] == entries[i].1@,
    decreases entries.len(),
{
    let rest = entries.drop_last();
    if i < rest.len() {
        assert(entries[entries.len() - 1].0@ != entries[i].0@);
        assert forall|j: int| i < j < rest.len() implies (#[trigger] rest[j]).0@ != rest[i].0@ by {
            assert(entries[j].0@ != entries[i].0@);
        }
        law_entries(rest, i);
    }
}

/// The key of a database is the value of its entry, or the one that the value holds.
pub proof fn law_key_value(f: JsonField)
    ensures
        f.text matches Some(s) ==> enc_key(f) == s,
        f.text is None && f.inner is Some ==> enc_key(f) == f.inner->0,
        f.text is None && f.inner is None ==> enc_key(f).len() == 0,
{
}

/// An entry gives the key of the database at its path, unless its name begins with an underscore or
/// it holds no key.
pub proof fn law_key_kept(all: Seq<JsonField>, f: JsonField)
    ensures
        keys_in(Seq::empty()) == Map::<Seq<char>, Seq<char>>::empty(),
        f.key.len() > 0 && f.key[0] == '_' ==> keys_in(all.push(f)) == keys_in(all),
        enc_key(f).len() == 0 ==> keys_in(all.push(f)) == keys_in(all),
        (f.key.len() == 0 || f.key[0] != '_') && enc_key(f).len() > 0 ==> keys_in(all.push(f))
            == keys_in(all).insert(replaced(f.key, seq!['\\'], seq!['/']), enc_key(f)),
{
    assert(all.push(f).drop_last() =~= all);
    reveal_strlit("_");
    reveal_strlit("\\");
    reveal_strlit("/");
    assert("_"@ =~= seq!['_']);
    assert("\\"@ =~= seq!['\\']);
    assert("/"@ =~= seq!['/']);
    law_begins(f.key, "_"@, f.key.skip(1));
    if f.key.len() > 0 && f.key[0] == '_' {
        assert(f.key =~= "_"@ + f.key.skip(1));
    }
    if begins(f.key, "_"@) {
        assert(f.key[0] == '_');
    }
}

/// A path without backslashes is that of a database of messages where it holds `message/message_`,
/// ends with `.db` and is that of neither an index nor the resources.
pub proof fn law_message_db(path: Seq<char>)
    requires
        !path.contains('\\'),
    ensures
        is_message_db(path) <==> {
            &&& occurs(path, "message/message_"@)
            &&& ends(path, ".db"@)
            &&& !occurs(path, "_fts"@)
            &&& !occurs(path, "_resource"@)
        },
{
    reveal_strlit("\\");
    law_not_found_without(path, "\\"@, '\\');
}

/// A path counts the same with either kind of slash.
pub proof fn law_message_db_slashes(a: Seq<char>, b: Seq<char>)
    requires
        replaced(a, seq!['\\'], seq!['/']) == replaced(b, seq!['\\'], seq!['/']),
    ensures
        is_message_db(a) == is_message_db(b),
{
    reveal_strlit("\\");
    reveal_strlit("/");
    assert("\\"@ =~= seq!['\\']);
    assert("/"@ =~= seq!['/']);
}

/// The entries of an object are seen as they are.
pub proof fn law_fields(entries: Seq<JsonEntry>, i: int)
    requires
        0 <= i < entries.len(),
    ensures
        fields(entries).len() == entries.len(),
        fields(entries)[i].key == entries[i].key@,
        fields(entries)[i].flag == entries[i].flag,
        match entries[i].text {
            Some(s) => fields(entries)[i].text == Some(s@),
            None => fields(entries)[i].text is None,
        },
        match entries[i].inner {
            Some(s) => fields(entries)[i].inner == Some(s@),
            None => fields(entries)[i].inner is None,
        },
{
}

} // verus!
