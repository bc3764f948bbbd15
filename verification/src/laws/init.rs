use vstd::prelude::*;

use crate::config::Platform;
use crate::init::{checks, names_db_dir, written_texts, InitCheck};
use crate::json::{text_at, JsonField};
use crate::paths::{below_on, spelled};

verus! {

/// A configuration names a directory where it has one that is not empty and not that of the sample.
pub proof fn law_names_db_dir(all: Seq<JsonField>, dir: Seq<char>)
    requires
        text_at(all, "db_dir"@) == Some(dir),
    ensures
        dir.len() == 0 ==> !names_db_dir(all),
        crate::text::find(dir, "your_wxid"@) is Some ==> !names_db_dir(all),
        dir.len() > 0 && crate::text::find(dir, "your_wxid"@) is None ==> names_db_dir(all),
{
    crate::laws::text::law_stands_where_found(dir, "your_wxid"@);
}

/// Without a directory no configuration is in use.
pub proof fn law_no_db_dir(all: Seq<JsonField>)
    requires
        text_at(all, "db_dir"@) is None,
    ensures
        !names_db_dir(all),
{
}

/// What has to exist: the directory that is named, and the file with the keys, taken from where the
/// configuration is.
pub proof fn law_init_checked(
    r: Option<InitCheck>,
    platform: Platform,
    all: Seq<JsonField>,
    base: Seq<u8>,
)
    requires
        checks(r, platform, all, base),
    ensures
        r is Some <==> names_db_dir(all),
        r is Some ==> text_at(all, "db_dir"@) == Some(r->0.db_dir@),
        r is Some && text_at(all, "keys_file"@) is None ==> r->0.keys_path@ == below_on(
            platform,
            base,
            spelled("all_keys.json"@),
        ),
        r is Some && text_at(all, "keys_file"@) is Some ==> r->0.keys_path@ == below_on(
            platform,
            base,
            spelled(text_at(all, "keys_file"@)->0),
        ),
{
}

/// A configuration that is written anew has the usual names.
pub proof fn law_written_anew(db_dir: Seq<char>)
    ensures
        ({
            let w = written_texts(None, db_dir);
            &&& w.contains_key("db_dir"@) && w["db_dir"@] == db_dir
            &&& w.contains_key("keys_file"@) && w["keys_file"@] == "\"all_keys.json\""@
            &&& w.contains_key("decrypted_dir"@) && w["decrypted_dir"@] == "\"decrypted\""@
        }),
{
    lemma_names_differ();
}

/// One that is written over another keeps its entries, and has the directory that was found.
pub proof fn law_written_over(old_entries: Map<Seq<char>, Seq<char>>, db_dir: Seq<char>, k: Seq<char>)
    ensures
        ({
            let w = written_texts(Some(old_entries), db_dir);
            &&& w.contains_key("db_dir"@) && w["db_dir"@] == db_dir
            &&& old_entries.contains_key(k) && k != "db_dir"@ ==> w.contains_key(k) && w[k]
                == old_entries[k]
            &&& !old_entries.contains_key("keys_file"@) ==> w["keys_file"@] == "\"all_keys.json\""@
            &&& !old_entries.contains_key("decrypted_dir"@) ==> w["decrypted_dir"@]
                == "\"decrypted\""@
            &&& w.contains_key(k) ==> old_entries.contains_key(k) || k == "db_dir"@ || k
                == "keys_file"@ || k == "decrypted_dir"@
        }),
{
    lemma_names_differ();
}

proof fn lemma_names_differ()
    ensures
        "db_dir"@ != "keys_file"@,
        "db_dir"@ != "decrypted_dir"@,
        "keys_file"@ != "decrypted_dir"@,
{
    reveal_strlit("db_dir");
    reveal_strlit("keys_file");
    reveal_strlit("decrypted_dir");
    assert("db_dir"@.len() == 6);
    assert("keys_file"@.len() == 9);
    assert("decrypted_dir"@.len() == 13);
}

} // verus!
