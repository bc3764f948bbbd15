use vstd::prelude::*;
use vstd::utf8::encode_utf8;

use crate::laws::text::{law_begins, law_found, law_stands_where_found};
use crate::names::{
    chat_type, closer, contact_flags, contact_names, exact, hex_digit, hex_of, indexes, is_chatroom,
    lowered, name_digest, partial, resolves, table_of, texts, ContactRow, Names,
};
use crate::order::text_lt;
use crate::outside::{lowercase, md5_of};
use crate::text::{begins, find, occurs};

verus! {

/// A chat with `@chatroom` anywhere in its user name is a group.
pub proof fn law_group_chats(u: Seq<char>, verified: bool, i: int)
    requires
        0 <= i,
        i + 9 <= u.len(),
        u.subrange(i, i + 9) == seq!['@', 'c', 'h', 'a', 't', 'r', 'o', 'o', 'm'],
    ensures
        chat_type(u, verified) == "group"@,
        is_chatroom(u),
{
    reveal_strlit("@chatroom");
    assert("@chatroom"@ =~= seq!['@', 'c', 'h', 'a', 't', 'r', 'o', 'o', 'm']);
    law_found(u, "@chatroom"@, i);
}

/// The entries for folded chats are those two, verified or not.
pub proof fn law_folded_chats(verified: bool)
    ensures
        chat_type("brandsessionholder"@, verified) == "folded"@,
        chat_type("@placeholder_foldgroup"@, verified) == "folded"@,
{
    reveal_strlit("brandsessionholder");
    reveal_strlit("@placeholder_foldgroup");
    reveal_strlit("@chatroom");
    lemma_no_group("brandsessionholder"@);
    lemma_no_group("@placeholder_foldgroup"@);
}

proof fn lemma_no_group(u: Seq<char>)
    requires
        forall|k: int| 0 <= k < u.len() - 1 && #[trigger] u[k] == '@' ==> u[k + 1] != 'c',
        u.len() > 0 ==> u.last() != '@',
    ensures
        !is_chatroom(u),
{
    reveal_strlit("@chatroom");
    law_stands_where_found(u, "@chatroom"@);
    if is_chatroom(u) {
        let i = find(u, "@chatroom"@)->0;
        assert(u.subrange(i, i + 9)[0] == u[i]);
        assert(u.subrange(i, i + 9)[1] == u[i + 1]);
    }
}

/// Only a chat with `@chatroom` in its user name is a group.
pub proof fn law_no_group_chats(u: Seq<char>, verified: bool)
    requires
        find(u, "@chatroom"@) is None,
    ensures
        chat_type(u, verified) != "group"@,
        !is_chatroom(u),
{
    law_stands_where_found(u, "@chatroom"@);
    crate::messages::law_group_type(u, verified);
}

/// A verified account is an official one, where it is neither a group nor an entry for folded
/// chats.
pub proof fn law_verified_chats(u: Seq<char>)
    requires
        find(u, "@chatroom"@) is None,
        u != "brandsessionholder"@,
        u != "@placeholder_foldgroup"@,
    ensures
        chat_type(u, true) == "official_account"@,
{
    law_stands_where_found(u, "@chatroom"@);
}

/// So is one whose user name begins with `gh_`, `biz_` or `@`.
pub proof fn law_official_chats(u: Seq<char>, verified: bool)
    requires
        find(u, "@chatroom"@) is None,
        u != "brandsessionholder"@,
        u != "@placeholder_foldgroup"@,
        (u.len() >= 3 && u.take(3) == seq!['g', 'h', '_']) || (u.len() >= 4 && u.take(4) == seq![
            'b',
            'i',
            'z',
            '_',
        ]) || (u.len() >= 1 && u[0] == '@'),
    ensures
        chat_type(u, verified) == "official_account"@,
{
    law_stands_where_found(u, "@chatroom"@);
    reveal_strlit("gh_");
    reveal_strlit("biz_");
    reveal_strlit("@");
    assert("gh_"@ =~= seq!['g', 'h', '_']);
    assert("biz_"@ =~= seq!['b', 'i', 'z', '_']);
    assert("@"@ =~= seq!['@']);
    if u.len() >= 3 && u.take(3) == seq!['g', 'h', '_'] {
        law_begins(u, "gh_"@, u.skip(3));
        assert(u =~= "gh_"@ + u.skip(3));
    } else if u.len() >= 4 && u.take(4) == seq!['b', 'i', 'z', '_'] {
        law_begins(u, "biz_"@, u.skip(4));
        assert(u =~= "biz_"@ + u.skip(4));
    } else {
        law_begins(u, "@"@, u.skip(1));
        assert(u =~= "@"@ + u.skip(1));
    }
}

/// Every other chat is private.
pub proof fn law_private_chats(u: Seq<char>)
    requires
        find(u, "@chatroom"@) is None,
        u != "brandsessionholder"@,
        u.len() < 3 || u.take(3) != seq!['g', 'h', '_'],
        u.len() < 4 || u.take(4) != seq!['b', 'i', 'z', '_'],
        u.len() < 1 || u[0] != '@',
    ensures
        chat_type(u, false) == "private"@,
{
    law_stands_where_found(u, "@chatroom"@);
    reveal_strlit("gh_");
    reveal_strlit("biz_");
    reveal_strlit("@");
    reveal_strlit("@placeholder_foldgroup");
    assert("gh_"@ =~= seq!['g', 'h', '_']);
    assert("biz_"@ =~= seq!['b', 'i', 'z', '_']);
    law_begins(u, "gh_"@, u);
    law_begins(u, "biz_"@, u);
    law_begins(u, "@"@, u);
    if begins(u, "gh_"@) {
        assert(u.take(3) =~= seq!['g', 'h', '_']);
    }
    if begins(u, "biz_"@) {
        assert(u.take(4) =~= seq!['b', 'i', 'z', '_']);
    }
    if begins(u, "@"@) {
        assert(u[0] == '@');
    }
    if u == "@placeholder_foldgroup"@ {
        assert(u[0] == '@');
    }
}

/// An account is verified where its flag is there and not zero.
pub proof fn law_verified(names: Names, u: Seq<char>)
    ensures
        !names.verify_flags@.contains_key(u) ==> !names.verified(u),
        names.verify_flags@.contains_key(u) ==> names.verified(u) == (names.verify_flags@[u] != 0),
{
}

/// The last row of a contact counts: for the flag, and for the display name, which is the owner's,
/// else the contact's own, else the user name.
pub proof fn law_contact_read(rows: Seq<ContactRow>, i: int)
    requires
        0 <= i < rows.len(),
        forall|j: int| i < j < rows.len() ==> (#[trigger] rows[j]).username@ != rows[i].username@,
    ensures
        ({
            let row = rows[i];
            let u = row.username@;
            &&& contact_names(rows).contains_key(u)
            &&& row.remark@.len() > 0 ==> contact_names(rows)[u] == row.remark@
            &&& row.remark@.len() == 0 && row.nick_name@.len() > 0 ==> contact_names(rows)[u]
                == row.nick_name@
            &&& row.remark@.len() == 0 && row.nick_name@.len() == 0 ==> contact_names(rows)[u] == u
            &&& contact_flags(rows).contains_key(u)
            &&& contact_flags(rows)[u] == row.verify_flag
        }),
    decreases rows.len(),
{
    let rest = rows.drop_last();
    if i < rest.len() {
        assert(rows[rows.len() - 1].username@ != rows[i].username@);
        assert forall|j: int| i < j < rest.len() implies (#[trigger] rest[j]).username@
            != rest[i].username@ by {
            assert(rows[j].username@ != rows[i].username@);
        }
        law_contact_read(rest, i);
    }
}

/// Nobody is a contact without a row.
pub proof fn law_no_contact(rows: Seq<ContactRow>, u: Seq<char>)
    requires
        forall|j: int| 0 <= j < rows.len() ==> (#[trigger] rows[j]).username@ != u,
    ensures
        !contact_names(rows).contains_key(u),
        !contact_flags(rows).contains_key(u),
    decreases rows.len(),
{
    if rows.len() > 0 {
        let rest = rows.drop_last();
        assert(rows[rows.len() - 1].username@ != u);
        assert forall|j: int| 0 <= j < rest.len() implies (#[trigger] rest[j]).username@ != u by {
            assert(rows[j].username@ != u);
        }
        law_no_contact(rest, u);
    }
}

/// The user name of a contact or a group means itself, and so does what looks like a user name.
pub proof fn law_user_name_means_itself(
    m: Map<Seq<char>, String>,
    name: Seq<char>,
    rest: Seq<char>,
    r: Option<Seq<char>>,
)
    requires
        m.contains_key(name) || find(name, "@chatroom"@) is Some || name == seq![
            'w',
            'x',
            'i',
            'd',
            '_',
        ] + rest,
        resolves(m, name, r),
    ensures
        r == Some(name),
{
    law_stands_where_found(name, "@chatroom"@);
    reveal_strlit("wxid_");
    assert("wxid_"@ =~= seq!['w', 'x', 'i', 'd', '_']);
    law_begins(name, "wxid_"@, rest);
}

proof fn lemma_not_user_name(name: Seq<char>)
    requires
        find(name, "@chatroom"@) is None,
        name.len() < 5 || name.take(5) != seq!['w', 'x', 'i', 'd', '_'],
    ensures
        !is_chatroom(name),
        !begins(name, "wxid_"@),
{
    law_stands_where_found(name, "@chatroom"@);
    reveal_strlit("wxid_");
    assert("wxid_"@ =~= seq!['w', 'x', 'i', 'd', '_']);
    law_begins(name, "wxid_"@, name);
    if begins(name, "wxid_"@) {
        assert(name.take(5) =~= seq!['w', 'x', 'i', 'd', '_']);
    }
}

/// A display name means a contact that has just this name, but for upper and lower case: of several
/// the one with the least user name.
pub proof fn law_display_name_means(
    m: Map<Seq<char>, String>,
    name: Seq<char>,
    r: Option<Seq<char>>,
    u: Seq<char>,
)
    requires
        resolves(m, name, r),
        !m.contains_key(name),
        find(name, "@chatroom"@) is None,
        name.len() < 5 || name.take(5) != seq!['w', 'x', 'i', 'd', '_'],
        m.contains_key(u),
        lowercase(m[u]@) == lowercase(name),
    ensures
        r is Some,
        m.contains_key(r->0),
        lowercase(m[r->0]@) == lowercase(name),
        !text_lt(u, r->0),
{
    lemma_not_user_name(name);
    let lows = lowered(m);
    assert(exact(lows, lowercase(name), u));
    assert(exact(lows, lowercase(name), r->0));
}

/// Where no display name is just the name, it means a contact in whose display name it stands: of
/// several the one with the shortest display name, then the one with the least user name.
pub proof fn law_part_of_name_means(
    m: Map<Seq<char>, String>,
    name: Seq<char>,
    r: Option<Seq<char>>,
    u: Seq<char>,
)
    requires
        resolves(m, name, r),
        !m.contains_key(name),
        find(name, "@chatroom"@) is None,
        name.len() < 5 || name.take(5) != seq!['w', 'x', 'i', 'd', '_'],
        forall|v: Seq<char>| #[trigger]
            m.contains_key(v) ==> lowercase(m[v]@) != lowercase(name),
        m.contains_key(u),
        occurs(lowercase(m[u]@), lowercase(name)),
    ensures
        r is Some,
        m.contains_key(r->0),
        occurs(lowercase(m[r->0]@), lowercase(name)),
        encode_utf8(m[r->0]@).len() <= encode_utf8(m[u]@).len(),
        encode_utf8(m[r->0]@).len() == encode_utf8(m[u]@).len() ==> !text_lt(u, r->0),
{
    lemma_not_user_name(name);
    let lows = lowered(m);
    let low = lowercase(name);
    assert forall|v: Seq<char>| !exact(lows, low, v) by {
        if lows.contains_key(v) {
            assert(m.contains_key(v));
        }
    }
    assert(partial(lows, low, u));
    assert(partial(lows, low, r->0));
    assert(!closer(m, u, r->0));
}

/// A name that stands in no display name means nobody.
pub proof fn law_unknown_name(m: Map<Seq<char>, String>, name: Seq<char>, r: Option<Seq<char>>)
    requires
        resolves(m, name, r),
        !m.contains_key(name),
        find(name, "@chatroom"@) is None,
        name.len() < 5 || name.take(5) != seq!['w', 'x', 'i', 'd', '_'],
        forall|v: Seq<char>| #[trigger]
            m.contains_key(v) ==> lowercase(m[v]@) != lowercase(name) && !occurs(
                lowercase(m[v]@),
                lowercase(name),
            ),
    ensures
        r is None,
{
    lemma_not_user_name(name);
    let lows = lowered(m);
    let low = lowercase(name);
    assert forall|v: Seq<char>| !exact(lows, low, v) && !partial(
        lows,
        low,
        v,
    ) by {
        if lows.contains_key(v) {
            assert(m.contains_key(v));
        }
    }
}

/// Each byte is written with two hexadecimal digits, the greater first.
pub proof fn law_hex(bytes: Seq<u8>, i: int)
    requires
        0 <= i < bytes.len(),
    ensures
        hex_of(bytes).len() == 2 * bytes.len(),
        hex_of(bytes)[2 * i] == "0123456789abcdef"@[bytes[i] as int / 16],
        hex_of(bytes)[2 * i + 1] == "0123456789abcdef"@[bytes[i] as int % 16],
{
    let b = bytes[i] as int;
    assert((2 * i) / 2 == i && (2 * i) % 2 == 0);
    assert((2 * i + 1) / 2 == i && (2 * i + 1) % 2 == 1);
    lemma_hex_digit(b / 16);
    lemma_hex_digit(b % 16);
}

proof fn lemma_hex_digit(n: int)
    requires
        0 <= n < 16,
    ensures
        hex_digit(n) == "0123456789abcdef"@[n],
{
    reveal_strlit("0123456789abcdef");
    let s = "0123456789abcdef"@;
    assert(s[0] == '0' && s[1] == '1' && s[2] == '2' && s[3] == '3');
    assert(s[4] == '4' && s[5] == '5' && s[6] == '6' && s[7] == '7');
    assert(s[8] == '8' && s[9] == '9' && s[10] == 'a' && s[11] == 'b');
    assert(s[12] == 'c' && s[13] == 'd' && s[14] == 'e' && s[15] == 'f');
}

/// The table of a chat is named by the MD5 digest of the user name's bytes.
pub proof fn law_table_name(u: Seq<char>)
    ensures
        table_of(u) == seq!['M', 's', 'g', '_'] + hex_of(md5_of(encode_utf8(u))),
        table_of(u).skip(4) == name_digest(u),
{
    reveal_strlit("Msg_");
    assert("Msg_"@ =~= seq!['M', 's', 'g', '_']);
    assert(table_of(u).skip(4) =~= name_digest(u));
}

/// The index leads from the digest of a user name to a user name with this digest.
pub proof fn law_index(
    index: Map<Seq<char>, String>,
    known: spec_fn(Seq<char>) -> bool,
    u: Seq<char>,
)
    requires
        indexes(index, known),
        known(u),
    ensures
        ({
            let digest = hex_of(md5_of(encode_utf8(u)));
            &&& index.contains_key(digest)
            &&& known(index[digest]@)
            &&& hex_of(md5_of(encode_utf8(index[digest]@))) == digest
        }),
{
    assert(index.contains_key(name_digest(u)));
}

/// The texts of a map are those of its strings, under the same keys.
pub proof fn law_texts(m: Map<Seq<char>, String>, k: Seq<char>)
    ensures
        texts(m).contains_key(k) == m.contains_key(k),
        m.contains_key(k) ==> texts(m)[k] == m[k]@,
        lowered(m).contains_key(k) == m.contains_key(k),
        m.contains_key(k) ==> lowered(m)[k] == lowercase(m[k]@),
{
}

} // verus!
