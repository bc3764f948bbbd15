use vstd::prelude::*;

use crate::config::{or_text, path_at, Platform};
use crate::json::{
    entries_map, fields, json_entries, json_members, json_object, json_quoted, json_string,
    json_values, load_entries, string_at, text_at, JsonEntry, JsonField,
};
use crate::number::{decimal, usize_text};
use crate::names::texts;
use crate::paths::{below_on, spelled, NativePath};
use crate::strmap::StrMap;
use crate::text::{concat2, concat3, contains, occurs};

verus! {

/// What has to exist for a configuration to be in use.
pub struct InitCheck {
    /// The directory of the databases.
    pub db_dir: String,
    /// The path of the file with the keys.
    pub keys_path: NativePath,
}

/// Whether a configuration names a directory, and not the one of the sample.
pub open spec fn names_db_dir(all: Seq<JsonField>) -> bool {
    let db_dir = or_text(text_at(all, "db_dir"@), Seq::empty());
    db_dir.len() > 0 && !occurs(db_dir, "your_wxid"@)
}

/// Whether `r` is what has to exist for the configuration in `base_dir` to be in use; nothing where
/// it cannot be in use.
pub open spec fn checks(
    r: Option<InitCheck>,
    platform: Platform,
    all: Seq<JsonField>,
    base_dir: Seq<u8>,
) -> bool {
    match r {
        Some(c) => {
            &&& names_db_dir(all)
            &&& c.db_dir@ == or_text(text_at(all, "db_dir"@), Seq::empty())
            &&& c.keys_path@ == below_on(
                platform,
                base_dir,
                spelled(or_text(text_at(all, "keys_file"@), "all_keys.json"@)),
            )
        },
        None => !names_db_dir(all),
    }
}

/// What has to exist for the configuration in `base_dir` to be in use.
pub fn init_check(
    platform: Platform,
    entries: &Vec<JsonEntry>,
    base_dir: &NativePath,
) -> (r: Option<InitCheck>)
    ensures
        checks(r, platform, fields(entries@), base_dir@),
{
    let db_dir = match string_at(entries, "db_dir") {
        Some(s) => s,
        None => String::new(),
    };
    if db_dir.as_str().is_empty() || contains(db_dir.as_str(), "your_wxid") {
        return None;
    }
    let keys_path = path_at(platform, entries, "keys_file", base_dir, "all_keys.json");
    Some(InitCheck { db_dir, keys_path })
}

/// What has to exist for the configuration with the given text to be in use; nothing where the
/// text is no JSON.
pub fn read_init_check(
    platform: Platform,
    content: &str,
    base_dir: &NativePath,
) -> (r: Option<InitCheck>)
    ensures
        match json_object(content@, ""@) {
            Some(all) => checks(r, platform, all, base_dir@),
            None => r is None,
        },
{
    match json_entries(content, "") {
        Some(entries) => init_check(platform, &entries, base_dir),
        None => None,
    }
}

/// Whether everything is there already: not where the beginning is forced.
pub fn is_initialized(force: bool, check: &Option<InitCheck>, db_exists: bool, keys_exist: bool) -> (r:
    bool)
    ensures
        r == (!force && check is Some && db_exists && keys_exist),
{
    !force && check.is_some() && db_exists && keys_exist
}

/// What is said where everything is there already.
pub fn initialized_lines(db_dir: &str) -> (r: (String, &'static str))
    ensures
        r.0@ == "已初始化，数据目录: "@ + db_dir@,
        r.1@ == "如需重新扫描密钥，使用 --force"@,
{
    (concat2("已初始化，数据目录: ", db_dir), "如需重新扫描密钥，使用 --force")
}

/// The entries of a configuration that is written: those that were there, with the directory of the
/// databases, and with the usual names where there are none.
pub open spec fn written<V>(
    old_entries: Map<Seq<char>, V>,
    db_dir: V,
    keys_file: V,
    decrypted: V,
) -> Map<Seq<char>, V> {
    let a = old_entries.insert("db_dir"@, db_dir);
    let b = if a.contains_key("keys_file"@) {
        a
    } else {
        a.insert("keys_file"@, keys_file)
    };
    if b.contains_key("decrypted_dir"@) {
        b
    } else {
        b.insert("decrypted_dir"@, decrypted)
    }
}

/// The entries of a configuration that is written.
pub fn merge_config<V>(entries: StrMap<V>, db_dir: V, keys_file: V, decrypted: V) -> (r: StrMap<V>)
    ensures
        r@ == written(entries@, db_dir, keys_file, decrypted),
{
    let mut cfg = entries;
    cfg.insert("db_dir".to_owned(), db_dir);
    if !cfg.contains_key("keys_file") {
        cfg.insert("keys_file".to_owned(), keys_file);
    }
    if !cfg.contains_key("decrypted_dir") {
        cfg.insert("decrypted_dir".to_owned(), decrypted);
    }
    cfg
}

/// The entries of a configuration that is written, as JSON texts, where those that were there are
/// known.
pub open spec fn written_texts(
    old_entries: Option<Map<Seq<char>, Seq<char>>>,
    db_dir: Seq<char>,
) -> Map<Seq<char>, Seq<char>> {
    written(
        match old_entries {
            Some(m) => m,
            None => Map::empty(),
        },
        db_dir,
        "\"all_keys.json\""@,
        "\"decrypted\""@,
    )
}

/// The entries of a configuration that is written, from those that were there and the JSON text of
/// the directory of the databases.
pub fn merge_texts(old_entries: Option<Vec<(String, String)>>, db_dir: String) -> (r: StrMap<String>)
    ensures
        texts(r@) == written_texts(
            match old_entries {
                Some(v) => Some(entries_map(v@)),
                None => None,
            },
            db_dir@,
        ),
{
    let cfg = match old_entries {
        Some(v) => load_entries(&v),
        None => StrMap::new(),
    };
    let ghost before = cfg@;
    let keys_file = "\"all_keys.json\"".to_owned();
    let decrypted = "\"decrypted\"".to_owned();
    proof {
        assert(old_entries is None ==> texts(before) =~= Map::empty());
        assert(texts(written(before, db_dir, keys_file, decrypted)) =~= written(
            texts(before),
            db_dir@,
            keys_file@,
            decrypted@,
        ));
    }
    merge_config(cfg, db_dir, keys_file, decrypted)
}

/// The entries of a configuration that is written in place of one with the given text, each with
/// the JSON text of its value; nothing is kept of a text that is no JSON object.
pub fn merged_config(content: &Option<String>, db_dir: &str) -> (r: StrMap<String>)
    ensures
        texts(r@) == written_texts(
            match *content {
                Some(c) => json_values(c@),
                None => None,
            },
            json_string(db_dir@),
        ),
{
    let old_entries = match content {
        Some(c) => json_members(c.as_str()),
        None => None,
    };
    merge_texts(old_entries, json_quoted(db_dir))
}

/// Writing a configuration changes no entry but the directory of the databases, and leaves none of
/// the three out.
pub proof fn law_written_keeps<V>(
    entries: Map<Seq<char>, V>,
    db_dir: V,
    keys_file: V,
    decrypted: V,
    k: Seq<char>,
)
    ensures
        ({
            let w = written(entries, db_dir, keys_file, decrypted);
            &&& entries.contains_key(k) && k != "db_dir"@ ==> w.contains_key(k) && w[k]
                == entries[k]
            &&& w.contains_key("db_dir"@) && w["db_dir"@] == db_dir
            &&& w.contains_key("keys_file"@)
            &&& w.contains_key("decrypted_dir"@)
        }),
{
    reveal_strlit("db_dir");
    reveal_strlit("keys_file");
    reveal_strlit("decrypted_dir");
    assert("db_dir"@.len() == 6);
    assert("keys_file"@.len() == 9);
    assert("decrypted_dir"@.len() == 13);
}

/// How many keys were found.
pub fn keys_found(n: usize) -> (r: String)
    ensures
        r@ == "成功提取 "@ + decimal(n as int) + " 个数据库密钥"@,
{
    concat3("成功提取 ", usize_text(n).as_str(), " 个数据库密钥")
}

} // verus!
