use vstd::prelude::*;

use crate::names::texts;
use crate::strmap::StrMap;
use crate::text::{
    begins, contains, ends, ends_with, find, first_at, held, lemma_find_some, occurs, occurs_at, replace,
    replaced, same, starts_with, views,
};

verus! {

/// An entry of a JSON object, as far as it is read.
pub struct JsonEntry {
    /// The key.
    pub key: String,
    /// The value, where it is a string.
    pub text: Option<String>,
    /// The value, where it is true or false.
    pub flag: Option<bool>,
    /// The string under one key of the value, where the value is an object with such a string.
    pub inner: Option<String>,
}

/// An entry of a JSON object, with plain texts.
pub struct JsonField {
    /// The key.
    pub key: Seq<char>,
    /// The value, where it is a string.
    pub text: Option<Seq<char>>,
    /// The value, where it is true or false.
    pub flag: Option<bool>,
    /// The string under one key of the value.
    pub inner: Option<Seq<char>>,
}

impl View for JsonEntry {
    type V = JsonField;

    open spec fn view(&self) -> JsonField {
        JsonField {
            key: self.key@,
            text: held(self.text),
            flag: self.flag,
            inner: held(self.inner),
        }
    }
}

/// The entries with plain texts.
pub open spec fn fields(entries: Seq<JsonEntry>) -> Seq<JsonField> {
    entries.map_values(|e: JsonEntry| e@)
}

/// The entries of the object that `serde_json::from_str` reads, each with the string under `inner`;
/// none for another value, and nothing where the text is no JSON.
pub uninterp spec fn json_object(text: Seq<char>, inner: Seq<char>) -> Option<Seq<JsonField>>;

/// `serde_json::from_str` to a `serde_json::Value`: the entries of the object that a text holds.
/// A text that is no JSON gives nothing, another JSON value no entries; it depends on the text
/// alone.
#[verifier::external_body]
pub(crate) fn json_entries(text: &str, inner: &str) -> (r: Option<Vec<JsonEntry>>)
    ensures
        match r {
            Some(entries) => json_object(text@, inner@) == Some(fields(entries@)),
            None => json_object(text@, inner@) is None,
        },
{
    let value: serde_json::Value = serde_json::from_str(text).ok()?;
    let entries = value.as_object().into_iter().flatten();
    Some(
        entries.map(|(key, v)| JsonEntry {
            key: key.clone(),
            text: v.as_str().map(|s| s.to_string()),
            flag: v.as_bool(),
            inner: v.get(inner).and_then(|s| s.as_str()).map(|s| s.to_string()),
        }).collect(),
    )
}

/// The values of keys; of two entries for one key the later counts.
pub open spec fn entries_map(entries: Seq<(String, String)>) -> Map<Seq<char>, Seq<char>>
    decreases entries.len(),
{
    if entries.len() == 0 {
        Map::empty()
    } else {
        entries_map(entries.drop_last()).insert(entries.last().0@, entries.last().1@)
    }
}

/// The JSON texts of the values of the object that `serde_json::from_str` reads, by their keys;
/// nothing where the text is no JSON object.
pub uninterp spec fn json_values(text: Seq<char>) -> Option<Map<Seq<char>, Seq<char>>>;

/// `serde_json::from_str` to a `serde_json::Map`, then `to_string` of each `serde_json::Value`: the
/// keys of the object that a text holds, each with the JSON text of its value. A text that is no
/// JSON object gives nothing; it depends on the text alone.
#[verifier::external_body]
pub(crate) fn json_members(text: &str) -> (r: Option<Vec<(String, String)>>)
    ensures
        match r {
            Some(entries) => json_values(text@) == Some(entries_map(entries@)),
            None => json_values(text@) is None,
        },
{
    let object: serde_json::Map<String, serde_json::Value> = serde_json::from_str(text).ok()?;
    Some(object.into_iter().map(|(key, v)| (key, v.to_string())).collect())
}

/// The JSON text of a string.
pub uninterp spec fn json_string(text: Seq<char>) -> Seq<char>;

/// `to_string` of a `serde_json::Value` that is a string: its JSON text, in quotation marks and with
/// escapes, which depends on the string alone.
#[verifier::external_body]
pub(crate) fn json_quoted(text: &str) -> (r: String)
    ensures
        r@ == json_string(text@),
{
    serde_json::Value::String(text.to_string()).to_string()
}

/// The values of keys.
pub fn load_entries(entries: &Vec<(String, String)>) -> (r: StrMap<String>)
    ensures
        texts(r@) == entries_map(entries@),
{
    let mut map: StrMap<String> = StrMap::new();
    let mut i: usize = 0;
    assert(texts(map@) =~= Map::empty());
    while i < entries.len()
        invariant
            i <= entries.len(),
            texts(map@) == entries_map(entries@.take(i as int)),
        decreases entries.len() - i,
    {
        let ghost before = map@;
        map.insert(entries[i].0.clone(), entries[i].1.clone());
        proof {
            let e = entries@[i as int];
            assert(entries@.take(i + 1).drop_last() =~= entries@.take(i as int));
            assert(texts(map@) =~= texts(before).insert(e.0@, e.1@));
        }
        i = i + 1;
    }
    assert(entries@.take(i as int) =~= entries@);
    map
}

/// The first entry with a key, where there is one.
pub open spec fn field_of(all: Seq<JsonField>, key: Seq<char>) -> Option<JsonField>
    decreases all.len(),
{
    if all.len() == 0 {
        None
    } else if all[0].key == key {
        Some(all[0])
    } else {
        field_of(all.skip(1), key)
    }
}

/// The string under a key, where there is one.
pub open spec fn text_at(all: Seq<JsonField>, key: Seq<char>) -> Option<Seq<char>> {
    match field_of(all, key) {
        Some(f) => f.text,
        None => None,
    }
}

fn entry_of<'a>(entries: &'a Vec<JsonEntry>, key: &str) -> (r: Option<&'a JsonEntry>)
    ensures
        match r {
            Some(e) => field_of(fields(entries@), key@) == Some(e@),
            None => field_of(fields(entries@), key@) is None,
        },
{
    let ghost all = fields(entries@);
    let mut i: usize = 0;
    assert(all.skip(0) =~= all);
    while i < entries.len()
        invariant
            i <= entries.len(),
            all == fields(entries@),
            field_of(all, key@) == field_of(all.skip(i as int), key@),
        decreases entries.len() - i,
    {
        assert(all.skip(i as int)[0] == entries@[i as int]@);
        if same(entries[i].key.as_str(), key) {
            return Some(&entries[i]);
        }
        assert(all.skip(i as int).skip(1) =~= all.skip(i + 1));
        i = i + 1;
    }
    None
}

/// The string under a key, where there is one.
pub fn string_at(entries: &Vec<JsonEntry>, key: &str) -> (r: Option<String>)
    ensures
        held(r) == text_at(fields(entries@), key@),
{
    match entry_of(entries, key) {
        Some(e) => match &e.text {
            Some(s) => Some(s.clone()),
            None => None,
        },
        None => None,
    }
}

/// Whether the value under a key is true.
pub open spec fn flag_at(all: Seq<JsonField>, key: Seq<char>) -> bool {
    match field_of(all, key) {
        Some(f) => f.flag == Some(true),
        None => false,
    }
}

/// Whether the value under a key is true.
pub fn is_true_at(entries: &Vec<JsonEntry>, key: &str) -> (r: bool)
    ensures
        r == flag_at(fields(entries@), key@),
{
    match entry_of(entries, key) {
        Some(e) => match e.flag {
            Some(b) => b,
            None => false,
        },
        None => false,
    }
}

/// Whether the entries say that the daemon is there.
pub open spec fn says_pong(all: Seq<JsonField>) -> bool {
    flag_at(all, "pong"@)
}

/// Whether the entries say that the daemon is there.
pub fn has_pong(entries: &Vec<JsonEntry>) -> (r: bool)
    ensures
        r == says_pong(fields(entries@)),
{
    is_true_at(entries, "pong")
}

/// Whether a line that the daemon sent says that it is there.
pub fn is_pong(line: &str) -> (r: bool)
    ensures
        r == (json_object(line@, ""@) is Some && says_pong(json_object(line@, ""@)->0)),
{
    match json_entries(line, "") {
        Some(entries) => has_pong(&entries),
        None => false,
    }
}

/// The key of a database: the value itself, or the string that the value holds.
pub open spec fn enc_key(f: JsonField) -> Seq<char> {
    match f.text {
        Some(s) => s,
        None => match f.inner {
            Some(s) => s,
            None => Seq::empty(),
        },
    }
}

/// Whether an entry gives the key of a database.
pub open spec fn is_key(f: JsonField) -> bool {
    !begins(f.key, "_"@) && enc_key(f).len() > 0
}

/// The keys of the databases by their paths, with `/` between the parts; of two entries for one
/// path the later counts.
pub open spec fn keys_in(all: Seq<JsonField>) -> Map<Seq<char>, Seq<char>>
    decreases all.len(),
{
    if all.len() == 0 {
        Map::empty()
    } else {
        let before = keys_in(all.drop_last());
        let f = all.last();
        if is_key(f) {
            before.insert(replaced(f.key, "\\"@, "/"@), enc_key(f))
        } else {
            before
        }
    }
}

/// The keys of the databases by their paths.
pub fn extract_keys(entries: &Vec<JsonEntry>) -> (r: StrMap<String>)
    ensures
        texts(r@) == keys_in(fields(entries@)),
{
    let ghost all = fields(entries@);
    let mut keys: StrMap<String> = StrMap::new();
    let mut i: usize = 0;
    assert(texts(keys@) =~= Map::empty());
    while i < entries.len()
        invariant
            i <= entries.len(),
            all == fields(entries@),
            texts(keys@) == keys_in(all.take(i as int)),
        decreases entries.len() - i,
    {
        let e = &entries[i];
        proof {
            reveal_strlit("\\");
            assert(all.take(i + 1).drop_last() =~= all.take(i as int));
            assert(all.take(i + 1).last() == e@);
        }
        let ghost before = keys@;
        if !starts_with(e.key.as_str(), "_") {
            let key = match &e.text {
                Some(s) => s.clone(),
                None => match &e.inner {
                    Some(s) => s.clone(),
                    None => String::new(),
                },
            };
            if !key.as_str().is_empty() {
                let path = replace(e.key.as_str(), "\\", "/");
                assert(texts(before.insert(path@, key)) =~= texts(before).insert(path@, key@));
                keys.insert(path, key);
            }
        }
        i = i + 1;
    }
    assert(all.take(i as int) =~= all);
    keys
}

/// The keys of the databases, from the text of the file that holds them; nothing where the text is
/// no JSON.
pub fn load_keys(text: &str) -> (r: Option<StrMap<String>>)
    ensures
        match r {
            Some(keys) => {
                &&& json_object(text@, "enc_key"@) is Some
                &&& texts(keys@) == keys_in(json_object(text@, "enc_key"@)->0)
            },
            None => json_object(text@, "enc_key"@) is None,
        },
{
    match json_entries(text, "enc_key") {
        Some(entries) => Some(extract_keys(&entries)),
        None => None,
    }
}

/// Whether a path is that of a database of messages.
pub open spec fn is_message_db(path: Seq<char>) -> bool {
    let p = replaced(path, "\\"@, "/"@);
    &&& occurs(p, "message/message_"@)
    &&& ends(p, ".db"@)
    &&& !occurs(p, "_fts"@)
    &&& !occurs(p, "_resource"@)
}

/// The paths of the databases of messages.
pub fn message_db_keys(keys: &StrMap<String>) -> (r: Vec<String>)
    ensures
        views(r@) == keys.keys().filter(|p: Seq<char>| is_message_db(p)),
{
    let n: usize = keys.len();
    let mut out: Vec<String> = Vec::new();
    let ghost all = keys.keys();
    let ghost wanted = |p: Seq<char>| is_message_db(p);
    let mut i: usize = 0;
    assert(all.take(0).filter(wanted) =~= Seq::empty()) by {
        reveal(Seq::filter);
    }
    assert(views(out@) =~= Seq::empty());
    while i < n
        invariant
            i <= n,
            n == all.len(),
            all == keys.keys(),
            wanted == (|p: Seq<char>| is_message_db(p)),
            views(out@) == all.take(i as int).filter(wanted),
        decreases n - i,
    {
        let (path, _) = keys.at(i);
        proof {
            reveal(Seq::filter);
            reveal_strlit("\\");
            assert(all.take(i + 1).drop_last() =~= all.take(i as int));
            assert(all.take(i + 1).last() == path@);
        }
        let p = replace(path.as_str(), "\\", "/");
        let wants = contains(p.as_str(), "message/message_") && ends_with(p.as_str(), ".db")
            && !contains(p.as_str(), "_fts") && !contains(p.as_str(), "_resource");
        assert(wants == wanted(path@));
        if wants {
            let ghost before = out@;
            out.push(path.clone());
            assert(views(out@) =~= views(before).push(path@));
        }
        i = i + 1;
    }
    assert(all.take(n as int) =~= all);
    out
}

/// A path by which a key is found holds no backslash, and the key is not empty.
pub proof fn law_keys_normal(all: Seq<JsonField>, path: Seq<char>)
    requires
        keys_in(all).contains_key(path),
    ensures
        !path.contains('\\'),
        keys_in(all)[path].len() > 0,
    decreases all.len(),
{
    if all.len() > 0 {
        let f = all.last();
        if is_key(f) && path == replaced(f.key, "\\"@, "/"@) {
            lemma_no_backslash(f.key);
        } else {
            law_keys_normal(all.drop_last(), path);
        }
    }
}

proof fn lemma_no_backslash(s: Seq<char>)
    ensures
        !replaced(s, "\\"@, "/"@).contains('\\'),
    decreases s.len(),
{
    let from = "\\"@;
    let to = "/"@;
    reveal_strlit("\\");
    reveal_strlit("/");
    lemma_find_some(s, from);
    let r = replaced(s, from, to);
    match find(s, from) {
        Some(i) => {
            assert(first_at(s, from, i));
            let rest = s.skip(i + from.len());
            lemma_no_backslash(rest);
            let tail = replaced(rest, from, to);
            assert(r == s.take(i) + to + tail);
            assert forall|k: int| 0 <= k < r.len() implies r[k] != '\\' by {
                if k < i {
                    assert(!occurs_at(s, from, k));
                    assert(r[k] == s[k]);
                    if s[k] == '\\' {
                        assert(s.subrange(k, k + 1) =~= from);
                    }
                } else if k == i {
                    assert(r[k] == '/');
                } else {
                    assert(r[k] == tail[k - i - 1]);
                    assert(tail.contains(tail[k - i - 1]));
                }
            }
        },
        None => {
            assert forall|k: int| 0 <= k < r.len() implies r[k] != '\\' by {
                assert(!occurs_at(s, from, k));
                if s[k] == '\\' {
                    assert(s.subrange(k, k + 1) =~= from);
                }
            }
        },
    }
}

/// A key counts the same, whether it is the value of its entry or stands in it as `enc_key`.
pub proof fn law_key_forms_agree(all: Seq<JsonField>, a: JsonField, b: JsonField)
    requires
        a.key == b.key,
        a.text is Some,
        b.text is None,
        b.inner == a.text,
    ensures
        keys_in(all.push(a)) == keys_in(all.push(b)),
{
    assert(all.push(a).drop_last() =~= all);
    assert(all.push(b).drop_last() =~= all);
}

} // verus!
