use vstd::prelude::*;
use vstd::utf8::encode_utf8;

use crate::content::{show_name, shown_name};
use crate::order::{
    lemma_text_lt_irreflexive, lemma_text_lt_total, lemma_text_lt_transitive, text_lt,
};
use crate::outside::{lowercase, md5_digest, md5_of, regex_is_match, to_lowercase};
use crate::patterns::{is_hex, is_msg_table, MSG_TABLE_PATTERN};
use crate::strmap::{keys_ordered, StrMap};
use crate::text::{begins, concat2, contains, occurs, same, starts_with};

verus! {

/// What is known of the contacts.
#[derive(Clone)]
pub struct Names {
    /// The display name of each user name.
    pub map: StrMap<String>,
    /// The user name of each MD5 digest, to tell whose messages a table holds.
    pub md5_to_uname: StrMap<String>,
    /// The paths of the message databases, relative to the data directory.
    pub msg_db_keys: Vec<String>,
    /// The verification flag of each user name: not zero for official accounts.
    pub verify_flags: StrMap<i64>,
}

impl Names {
    /// Whether a user name carries a verification flag.
    pub open spec fn verified(&self, username: Seq<char>) -> bool {
        self.verify_flags@.contains_key(username) && self.verify_flags@[username] != 0
    }

    /// The display name of a user: the one of the contacts, or the user name itself.
    pub fn display(&self, username: &str) -> (r: String)
        ensures
            r@ == shown_name(self.map@, username@),
    {
        show_name(&self.map, username)
    }

    /// Whether a user name carries a verification flag; one that is no contact does not.
    pub fn is_verified(&self, username: &str) -> (r: bool)
        ensures
            r == self.verified(username@),
    {
        match self.verify_flags.get(username) {
            Some(f) => *f != 0,
            None => false,
        }
    }
}

/// Whether a user name is that of a group.
pub open spec fn is_chatroom(username: Seq<char>) -> bool {
    occurs(username, "@chatroom"@)
}

/// The type of a chat: that of the entry for folded chats goes by its name, that of a verified
/// account by its flag, and only then a prefix decides.
pub open spec fn chat_type(username: Seq<char>, verified: bool) -> Seq<char> {
    if is_chatroom(username) {
        "group"@
    } else if username == "brandsessionholder"@ || username == "@placeholder_foldgroup"@ {
        "folded"@
    } else if verified || begins(username, "gh_"@) || begins(username, "biz_"@) || begins(
        username,
        "@"@,
    ) {
        "official_account"@
    } else {
        "private"@
    }
}

/// The type of a chat: `group`, `folded`, `official_account` or `private`.
pub fn chat_type_of(username: &str, names: &Names) -> (r: &'static str)
    ensures
        r@ == chat_type(username@, names.verified(username@)),
{
    if contains(username, "@chatroom") {
        return "group";
    }
    if same(username, "brandsessionholder") || same(username, "@placeholder_foldgroup") {
        return "folded";
    }
    if names.is_verified(username) {
        return "official_account";
    }
    if starts_with(username, "gh_") || starts_with(username, "biz_") {
        return "official_account";
    }
    if starts_with(username, "@") {
        return "official_account";
    }
    "private"
}

/// A lower-case hexadecimal digit.
pub open spec fn hex_digit(n: int) -> char {
    if n < 10 {
        (48 + n) as char
    } else {
        (87 + n) as char
    }
}

/// Bytes as lower-case hexadecimal digits, two for each.
pub open spec fn hex_of(bytes: Seq<u8>) -> Seq<char> {
    Seq::new(
        2 * bytes.len(),
        |i: int|
            if i % 2 == 0 {
                hex_digit(bytes[i / 2] as int / 16)
            } else {
                hex_digit(bytes[i / 2] as int % 16)
            },
    )
}

fn hex_char(n: u8) -> (r: char)
    requires
        n < 16,
    ensures
        r == hex_digit(n as int),
        is_hex(r),
{
    if n < 10 {
        (48 + n) as char
    } else {
        (87 + n) as char
    }
}

/// The digest of a user name, in hexadecimal digits.
pub open spec fn name_digest(username: Seq<char>) -> Seq<char> {
    hex_of(md5_of(encode_utf8(username)))
}

/// Bytes as lower-case hexadecimal digits, two for each.
pub fn hex_text(bytes: &[u8; 16]) -> (r: String)
    ensures
        r@ == hex_of(bytes@),
        r@.len() == 32,
        forall|i: int| 0 <= i < 32 ==> is_hex(#[trigger] r@[i]),
{
    let mut out = String::new();
    let mut i: usize = 0;
    while i < 16
        invariant
            i <= 16,
            out@.len() == 2 * i,
            forall|j: int| 0 <= j < 2 * i ==> #[trigger] out@[j] == hex_of(bytes@)[j] && is_hex(out@[j]),
        decreases 16 - i,
    {
        let b: u8 = bytes[i];
        out.push(hex_char(b / 16));
        out.push(hex_char(b % 16));
        i = i + 1;
    }
    assert(out@ =~= hex_of(bytes@));
    out
}

/// The digest of a user name, in hexadecimal digits.
pub fn digest_text(username: &str) -> (r: String)
    ensures
        r@ == name_digest(username@),
        r@.len() == 32,
        forall|i: int| 0 <= i < 32 ==> is_hex(#[trigger] r@[i]),
{
    hex_text(&md5_digest(username.as_bytes()))
}

/// The name of the table that holds the messages of a chat.
pub open spec fn table_of(username: Seq<char>) -> Seq<char> {
    "Msg_"@ + name_digest(username)
}

/// The name of the table that holds the messages of a chat.
pub fn msg_table_name(username: &str) -> (r: String)
    ensures
        r@ == table_of(username@),
        is_msg_table(r@),
{
    let digest = digest_text(username);
    let r = concat2("Msg_", digest.as_str());
    proof {
        reveal_strlit("Msg_");
        assert(r@.take(4) =~= "Msg_"@);
        assert forall|i: int| 4 <= i < 36 implies is_hex(#[trigger] r@[i]) by {
            assert(r@[i] == digest@[i - 4]);
        }
    }
    r
}

/// Whether each of some tables holds messages.
pub fn are_msg_tables(tables: &Vec<String>) -> (r: Vec<bool>)
    ensures
        r@.len() == tables@.len(),
        forall|i: int| 0 <= i < tables@.len() ==> #[trigger] r@[i] == is_msg_table(tables@[i]@),
{
    let mut texts: Vec<&str> = Vec::new();
    let mut i: usize = 0;
    while i < tables.len()
        invariant
            i <= tables.len(),
            texts.len() == i,
            forall|j: int| 0 <= j < i ==> (#[trigger] texts@[j])@ == tables@[j]@,
        decreases tables.len() - i,
    {
        texts.push(tables[i].as_str());
        i = i + 1;
    }
    match regex_is_match(MSG_TABLE_PATTERN, &texts) {
        Some(v) => {
            assert forall|i: int| 0 <= i < tables@.len() implies #[trigger] v@[i] == is_msg_table(
                tables@[i]@,
            ) by {
                assert(texts@[i]@ == tables@[i]@);
            }
            v
        },
        None => Vec::new(),
    }
}

/// A row of the table of contacts.
pub struct ContactRow {
    /// The user name.
    pub username: String,
    /// The name that the user chose.
    pub nick_name: String,
    /// The name that the owner of the data gave the user.
    pub remark: String,
    /// The verification flag.
    pub verify_flag: i64,
}

impl ContactRow {
    /// The display name: the owner's, the user's own, or the user name.
    pub open spec fn shown(&self) -> Seq<char> {
        if self.remark@.len() > 0 {
            self.remark@
        } else if self.nick_name@.len() > 0 {
            self.nick_name@
        } else {
            self.username@
        }
    }
}

/// The texts that a map holds.
pub open spec fn texts(m: Map<Seq<char>, String>) -> Map<Seq<char>, Seq<char>> {
    m.map_values(|s: String| s@)
}

/// The display names of the contacts; of two rows for one user the later counts.
pub open spec fn contact_names(rows: Seq<ContactRow>) -> Map<Seq<char>, Seq<char>>
    decreases rows.len(),
{
    if rows.len() == 0 {
        Map::empty()
    } else {
        contact_names(rows.drop_last()).insert(rows.last().username@, rows.last().shown())
    }
}

/// The verification flags of the contacts; of two rows for one user the later counts.
pub open spec fn contact_flags(rows: Seq<ContactRow>) -> Map<Seq<char>, i64>
    decreases rows.len(),
{
    if rows.len() == 0 {
        Map::empty()
    } else {
        contact_flags(rows.drop_last()).insert(rows.last().username@, rows.last().verify_flag)
    }
}

/// Whether `index` leads from the digest of each user name back to a user name with that digest.
pub open spec fn indexes(
    index: Map<Seq<char>, String>,
    usernames: spec_fn(Seq<char>) -> bool,
) -> bool {
    &&& forall|u: Seq<char>| usernames(u) ==> index.contains_key(#[trigger] name_digest(u))
    &&& forall|h: Seq<char>| #[trigger]
        index.contains_key(h) ==> usernames(index[h]@) && name_digest(index[h]@) == h
}

/// What the rows of the table of contacts say of the contacts.
pub fn load_names(rows: &Vec<ContactRow>) -> (r: Names)
    ensures
        texts(r.map@) == contact_names(rows@),
        r.verify_flags@ == contact_flags(rows@),
        indexes(r.md5_to_uname@, |u: Seq<char>| r.map@.contains_key(u)),
        r.msg_db_keys@.len() == 0,
{
    let mut map: StrMap<String> = StrMap::new();
    let mut verify_flags: StrMap<i64> = StrMap::new();
    let mut i: usize = 0;
    assert(texts(map@) =~= Map::empty());
    while i < rows.len()
        invariant
            i <= rows.len(),
            texts(map@) == contact_names(rows@.take(i as int)),
            verify_flags@ == contact_flags(rows@.take(i as int)),
        decreases rows.len() - i,
    {
        let row = &rows[i];
        let display = if !row.remark.as_str().is_empty() {
            row.remark.clone()
        } else if !row.nick_name.as_str().is_empty() {
            row.nick_name.clone()
        } else {
            row.username.clone()
        };
        let ghost before = map@;
        verify_flags.insert(row.username.clone(), row.verify_flag);
        map.insert(row.username.clone(), display);
        proof {
            assert(rows@.take(i + 1).drop_last() =~= rows@.take(i as int));
            assert(texts(map@) =~= texts(before).insert(row.username@, row.shown()));
        }
        i = i + 1;
    }
    assert(rows@.take(i as int) =~= rows@);
    let md5_to_uname = digest_index(&map);
    Names { map, md5_to_uname, msg_db_keys: Vec::new(), verify_flags }
}

/// The user name of each digest.
pub fn digest_index(map: &StrMap<String>) -> (r: StrMap<String>)
    ensures
        indexes(r@, |u: Seq<char>| map@.contains_key(u)),
{
    let mut index: StrMap<String> = StrMap::new();
    let n: usize = map.len();
    let ghost known = |u: Seq<char>| map@.contains_key(u);
    let mut i: usize = 0;
    while i < n
        invariant
            i <= n,
            n == map.keys().len(),
            known == (|u: Seq<char>| map@.contains_key(u)),
            forall|u: Seq<char>| #[trigger]
                map@.contains_key(u) <==> map.keys().contains(u),
            forall|j: int|
                0 <= j < i ==> index@.contains_key(name_digest(#[trigger] map.keys()[j])),
            forall|h: Seq<char>| #[trigger]
                index@.contains_key(h) ==> known(index@[h]@) && name_digest(index@[h]@) == h,
        decreases n - i,
    {
        let (u, _) = map.at(i);
        index.insert(digest_text(u.as_str()), u.clone());
        i = i + 1;
    }
    assert forall|u: Seq<char>| known(u) implies index@.contains_key(#[trigger] name_digest(u)) by {
        assert(map.keys().contains(u));
        let j = choose|j: int| 0 <= j < map.keys().len() && map.keys()[j] == u;
        assert(index@.contains_key(name_digest(map.keys()[j])));
    }
    index
}

/// Whether a name means the chat that it spells out: it is a contact's user name, a group's or
/// looks like a user name.
pub open spec fn is_username(m: Map<Seq<char>, String>, chat: Seq<char>) -> bool {
    m.contains_key(chat) || is_chatroom(chat) || begins(chat, "wxid_"@)
}

/// The display names in lower case.
pub open spec fn lowered(m: Map<Seq<char>, String>) -> Map<Seq<char>, Seq<char>> {
    m.map_values(|s: String| lowercase(s@))
}

/// Whether the lower-case display name of `u` is `low`.
pub open spec fn exact(lows: Map<Seq<char>, Seq<char>>, low: Seq<char>, u: Seq<char>) -> bool {
    lows.contains_key(u) && lows[u] == low
}

/// Whether the lower-case display name of `u` holds `low`.
pub open spec fn partial(lows: Map<Seq<char>, Seq<char>>, low: Seq<char>, u: Seq<char>) -> bool {
    lows.contains_key(u) && occurs(lows[u], low)
}

/// The length of a display name in bytes.
pub open spec fn shown_len(m: Map<Seq<char>, String>, u: Seq<char>) -> nat {
    encode_utf8(m[u]@).len()
}

/// Whether `u` is a better match than `v`: by a shorter display name, then by the user name.
pub open spec fn closer(m: Map<Seq<char>, String>, u: Seq<char>, v: Seq<char>) -> bool {
    shown_len(m, u) < shown_len(m, v) || (shown_len(m, u) == shown_len(m, v) && text_lt(u, v))
}

/// Whether `r` is the user name that `low` means among lower-case display names: the first user name
/// with just that display name; else the closest of those whose display name holds it.
pub open spec fn resolves_among(
    m: Map<Seq<char>, String>,
    lows: Map<Seq<char>, Seq<char>>,
    low: Seq<char>,
    r: Option<Seq<char>>,
) -> bool {
    if exists|u: Seq<char>| exact(lows, low, u) {
        r is Some && exact(lows, low, r->0) && forall|v: Seq<char>|
            exact(lows, low, v) ==> !text_lt(v, r->0)
    } else if exists|u: Seq<char>| partial(lows, low, u) {
        r is Some && partial(lows, low, r->0) && forall|v: Seq<char>|
            partial(lows, low, v) ==> !closer(m, v, r->0)
    } else {
        r is None
    }
}

/// Whether `r` is the user name that `chat` means: a user name means itself, another name what it
/// means among the display names, upper and lower case being the same.
pub open spec fn resolves(
    m: Map<Seq<char>, String>,
    chat: Seq<char>,
    r: Option<Seq<char>>,
) -> bool {
    if is_username(m, chat) {
        r == Some(chat)
    } else {
        resolves_among(m, lowered(m), lowercase(chat), r)
    }
}

/// A name means one chat at most.
pub proof fn law_resolution_unique(
    m: Map<Seq<char>, String>,
    chat: Seq<char>,
    a: Option<Seq<char>>,
    b: Option<Seq<char>>,
)
    requires
        resolves(m, chat, a),
        resolves(m, chat, b),
    ensures
        a == b,
{
    if a is Some && b is Some {
        lemma_text_lt_total(a->0, b->0);
    }
}

/// The user name that `chat` means, where it means one.
pub open spec fn meant(m: Map<Seq<char>, String>, chat: Seq<char>) -> Option<Seq<char>> {
    choose|r: Option<Seq<char>>| resolves(m, chat, r)
}

/// The user name that a name in lower case means, given the display names in lower case.
pub fn resolve_among(map: &StrMap<String>, lows: &StrMap<String>, low: &str) -> (r: Option<String>)
    requires
        lows@.dom() == map@.dom(),
    ensures
        resolves_among(
            map@,
            texts(lows@),
            low@,
            match r {
                Some(u) => Some(u@),
                None => None,
            },
        ),
{
    let ghost m = map@;
    let ghost lm = texts(lows@);
    let n: usize = lows.len();
    let ghost keys = lows.keys();
    // The keys stand in their order, so the first exact match is the least.
    let mut i: usize = 0;
    while i < n
        invariant
            i <= n,
            n == keys.len(),
            lm == texts(lows@),
            keys == lows.keys(),
            keys_ordered(keys),
            forall|u: Seq<char>| lm.contains_key(u) <==> #[trigger] keys.contains(u),
            forall|j: int| 0 <= j < i ==> !exact(lm, low@, #[trigger] keys[j]),
        decreases n - i,
    {
        let (u, l) = lows.at(i);
        if same(l.as_str(), low) {
            proof {
                assert(exact(lm, low@, u@));
                assert forall|v: Seq<char>| exact(lm, low@, v) implies !text_lt(v, u@) by {
                    assert(keys.contains(v));
                    let j = choose|j: int| 0 <= j < keys.len() && keys[j] == v;
                    lemma_text_lt_irreflexive(v);
                    if j > i {
                        assert(text_lt(keys[i as int], keys[j]));
                        if text_lt(v, u@) {
                            lemma_text_lt_transitive(v, u@, v);
                        }
                    }
                }
            }
            return Some(u.clone());
        }
        i = i + 1;
    }
    assert forall|v: Seq<char>| !exact(lm, low@, v) by {
        if lm.contains_key(v) {
            assert(keys.contains(v));
            let j = choose|j: int| 0 <= j < keys.len() && keys[j] == v;
            assert(!exact(lm, low@, keys[j]));
        }
    }
    let mut best: Option<usize> = None;
    let mut best_len: usize = 0;
    let mut k: usize = 0;
    while k < n
        invariant
            k <= n,
            n == keys.len(),
            m == map@,
            lm == texts(lows@),
            lows@.dom() == map@.dom(),
            keys == lows.keys(),
            keys_ordered(keys),
            match best {
                Some(b) => b < k && partial(lm, low@, keys[b as int]) && best_len == shown_len(
                    m,
                    keys[b as int],
                ) && forall|j: int|
                    0 <= j < k && partial(lm, low@, keys[j]) ==> !closer(
                        m,
                        #[trigger] keys[j],
                        keys[b as int],
                    ),
                None => forall|j: int| 0 <= j < k ==> !partial(lm, low@, #[trigger] keys[j]),
            },
        decreases n - k,
    {
        let (u, l) = lows.at(k);
        if contains(l.as_str(), low) {
            assert(m.dom().contains(u@));
            let len: usize = match map.get(u.as_str()) {
                Some(d) => d.as_str().as_bytes().len(),
                None => 0,
            };
            proof {
                lemma_text_lt_irreflexive(u@);
                if let Some(b) = best {
                    assert(text_lt(keys[b as int], keys[k as int]));
                    if text_lt(u@, keys[b as int]) {
                        lemma_text_lt_transitive(u@, keys[b as int], u@);
                    }
                }
            }
            if best.is_none() || len < best_len {
                best = Some(k);
                best_len = len;
            }
        }
        k = k + 1;
    }
    assert forall|v: Seq<char>| partial(lm, low@, v) implies exists|j: int|
        0 <= j < keys.len() && #[trigger] keys[j] == v by {
        assert(keys.contains(v));
    }
    match best {
        Some(b) => {
            let (u, _) = lows.at(b);
            Some(u.clone())
        },
        None => None,
    }
}

/// The display names in lower case.
pub fn lower_names(map: &StrMap<String>) -> (r: StrMap<String>)
    ensures
        texts(r@) == lowered(map@),
{
    let n: usize = map.len();
    let mut lows: StrMap<String> = StrMap::new();
    let mut i: usize = 0;
    while i < n
        invariant
            i <= n,
            n == map.keys().len(),
            forall|u: Seq<char>| #[trigger]
                map@.contains_key(u) <==> map.keys().contains(u),
            forall|j: int| 0 <= j < i ==> lows@.contains_key(#[trigger] map.keys()[j]),
            forall|u: Seq<char>| #[trigger]
                lows@.contains_key(u) ==> map@.contains_key(u) && lows@[u]@ == lowercase(map@[u]@),
        decreases n - i,
    {
        let (u, d) = map.at(i);
        lows.insert(u.clone(), to_lowercase(d.as_str()));
        i = i + 1;
    }
    assert forall|u: Seq<char>| #[trigger] map@.contains_key(u) implies lows@.contains_key(u) by {
        assert(map.keys().contains(u));
        let j = choose|j: int| 0 <= j < map.keys().len() && map.keys()[j] == u;
        assert(lows@.contains_key(map.keys()[j]));
    }
    assert(texts(lows@) =~= lowered(map@));
    lows
}

/// The user name that a chat's name means.
pub fn resolve_username(chat_name: &str, names: &Names) -> (r: Option<String>)
    ensures
        resolves(
            names.map@,
            chat_name@,
            match r {
                Some(u) => Some(u@),
                None => None,
            },
        ),
{
    if names.map.contains_key(chat_name) || contains(chat_name, "@chatroom") || starts_with(
        chat_name,
        "wxid_",
    ) {
        return Some(chat_name.to_owned());
    }
    let lows = lower_names(&names.map);
    assert(lows@.dom() =~= texts(lows@).dom());
    assert(names.map@.dom() =~= lowered(names.map@).dom());
    resolve_among(&names.map, &lows, to_lowercase(chat_name).as_str())
}

} // verus!
