use vstd::prelude::*;

use crate::config::{
    cache_dir_of, cli_dir_of, config_to_write, default_db_dir_of, detects, first_existing,
    law_own_paths, log_path_of, mtime_file_of, pid_path_of, place_bytes, places_to_load,
    process_name, sock_path_of, storage_places_of, Candidate, Config, Place, PlaceBytes, Platform,
};
use crate::json::{text_at, JsonField};
use crate::laws::paths::law_below_elsewhere;
use crate::paths::{below_on, spelled};

verus! {

/// What the messenger's process is called.
pub proof fn law_process_names()
    ensures
        process_name(Platform::MacOs) == "WeChat"@,
        process_name(Platform::Linux) == "wechat"@,
        process_name(Platform::Windows) == "Weixin.exe"@,
        process_name(Platform::Other) == "WeChat"@,
{
}

/// Where the data of the messenger lie by default.
pub proof fn law_default_places(home: Seq<u8>, appdata: Seq<char>)
    ensures
        default_db_dir_of(Platform::MacOs, Some(home), Some(appdata)) == below_on(
            Platform::MacOs,
            home,
            spelled("Library/Containers/com.tencent.xinWeChat/Data/Documents/xwechat_files"@),
        ),
        default_db_dir_of(Platform::Linux, Some(home), Some(appdata)) == below_on(
            Platform::Linux,
            home,
            spelled("Documents/xwechat_files"@),
        ),
        default_db_dir_of(Platform::Windows, Some(home), Some(appdata)) == below_on(
            Platform::Windows,
            spelled(appdata),
            spelled("Tencent/xwechat"@),
        ),
        default_db_dir_of(Platform::Other, Some(home), Some(appdata)) == spelled("."@),
        default_db_dir_of(Platform::MacOs, None, None) == below_on(
            Platform::MacOs,
            Seq::empty(),
            spelled("Library/Containers/com.tencent.xinWeChat/Data/Documents/xwechat_files"@),
        ),
        default_db_dir_of(Platform::Linux, None, None) == below_on(
            Platform::Linux,
            Seq::empty(),
            spelled("Documents/xwechat_files"@),
        ),
{
}

/// A configuration says where everything is; what it does not say is as usual. The keys and the
/// decrypted databases are taken from where the configuration is.
pub proof fn law_config_read(
    c: Config,
    all: Seq<JsonField>,
    base: Seq<u8>,
    platform: Platform,
    home: Option<Seq<u8>>,
    appdata: Option<Seq<char>>,
)
    requires
        c.tells(all, base, platform, home, appdata),
    ensures
        text_at(all, "db_dir"@) matches Some(s) ==> c.db_dir@ == spelled(s),
        text_at(all, "db_dir"@) is None ==> c.db_dir@ == default_db_dir_of(platform, home, appdata),
        text_at(all, "keys_file"@) matches Some(s) ==> c.keys_file@ == below_on(
            platform,
            base,
            spelled(s),
        ),
        text_at(all, "keys_file"@) is None ==> c.keys_file@ == below_on(
            platform,
            base,
            spelled("all_keys.json"@),
        ),
        text_at(all, "decrypted_dir"@) matches Some(s) ==> c.decrypted_dir@ == below_on(
            platform,
            base,
            spelled(s),
        ),
        text_at(all, "decrypted_dir"@) is None ==> c.decrypted_dir@ == below_on(
            platform,
            base,
            spelled("decrypted"@),
        ),
        text_at(all, "wechat_process"@) matches Some(s) ==> c.wechat_process@ == s,
        text_at(all, "wechat_process"@) is None ==> c.wechat_process@ == process_name(platform),
{
}

/// The first place counts at which there is something; where there is nothing anywhere, the other.
pub proof fn law_first_existing(
    places: Seq<Seq<u8>>,
    exists_at: Seq<bool>,
    other: Seq<u8>,
    i: int,
)
    requires
        places.len() == exists_at.len(),
        0 <= i <= places.len(),
        forall|j: int| 0 <= j < i ==> !#[trigger] exists_at[j],
        i < places.len() ==> exists_at[i],
    ensures
        first_existing(places, exists_at, other) == (if i < places.len() {
            places[i]
        } else {
            other
        }),
    decreases places.len(),
{
    if i > 0 {
        assert(!exists_at[0]);
        let (p, e) = (places.skip(1), exists_at.skip(1));
        assert forall|j: int| 0 <= j < i - 1 implies !#[trigger] e[j] by {
            assert(!exists_at[j + 1]);
        }
        if i < places.len() {
            assert(e[i - 1] == exists_at[i]);
        }
        law_first_existing(p, e, other, i - 1);
    }
}

/// A configuration is looked for beside the program, then in the working directory, then at home.
pub proof fn law_places_to_load(
    platform: Platform,
    exe: Seq<u8>,
    cwd: Seq<u8>,
    home: Seq<u8>,
)
    ensures
        places_to_load(platform, Some(exe), cwd, Some(home)) == seq![
            below_on(platform, exe, spelled("config.json"@)),
            below_on(platform, cwd, spelled("config.json"@)),
            below_on(
                platform,
                below_on(platform, home, spelled(".wx-cli"@)),
                spelled("config.json"@),
            ),
        ],
        places_to_load(platform, None, cwd, None) == seq![
            below_on(platform, cwd, spelled("config.json"@)),
        ],
{
    assert(places_to_load(platform, Some(exe), cwd, Some(home)) =~= seq![
        below_on(platform, exe, spelled("config.json"@)),
        below_on(platform, cwd, spelled("config.json"@)),
        below_on(
            platform,
            below_on(platform, home, spelled(".wx-cli"@)),
            spelled("config.json"@),
        ),
    ]);
    assert(places_to_load(platform, None, cwd, None) =~= seq![
        below_on(platform, cwd, spelled("config.json"@)),
    ]);
}

/// A configuration is written at home, where there is none yet.
pub proof fn law_config_written(
    platform: Platform,
    places: Seq<Seq<u8>>,
    exists_at: Seq<bool>,
    home: Seq<u8>,
)
    requires
        places.len() == exists_at.len(),
        forall|j: int| 0 <= j < places.len() ==> !#[trigger] exists_at[j],
    ensures
        config_to_write(platform, places, exists_at, Some(home)) == below_on(
            platform,
            below_on(platform, home, spelled(".wx-cli"@)),
            spelled("config.json"@),
        ),
        config_to_write(platform, places, exists_at, None) == below_on(
            platform,
            below_on(platform, spelled("/tmp"@), spelled(".wx-cli"@)),
            spelled("config.json"@),
        ),
{
    law_first_existing(
        places,
        exists_at,
        below_on(
            platform,
            below_on(platform, home, spelled(".wx-cli"@)),
            spelled("config.json"@),
        ),
        places.len() as int,
    );
    law_first_existing(
        places,
        exists_at,
        below_on(
            platform,
            below_on(platform, spelled("/tmp"@), spelled(".wx-cli"@)),
            spelled("config.json"@),
        ),
        places.len() as int,
    );
}

/// Where databases may lie. On macOS the home of the user who became root takes the place of
/// root's, on Linux it is looked at too.
pub proof fn law_storage_places(home: Seq<u8>, user: Seq<char>, appdata: Seq<char>)
    requires
        user.len() > 0,
    ensures
        ({
            let mac = "Library/Containers/com.tencent.xinWeChat/Data/Documents/xwechat_files"@;
            let new = "Documents/xwechat_files"@;
            let old_place = ".local/share/weixin/data/db_storage"@;
            let below = |a: Seq<u8>, b: Seq<char>| below_on(Platform::Linux, a, spelled(b));
            let sudo = below(spelled("/home"@), user);
            &&& storage_places_of(Platform::MacOs, Some(home), None, None) == seq![
                PlaceBytes::Each(below_on(Platform::MacOs, home, spelled(mac))),
            ]
            &&& storage_places_of(Platform::MacOs, Some(home), Some(user), None) == seq![
                PlaceBytes::Each(
                    below_on(
                        Platform::MacOs,
                        below_on(Platform::MacOs, spelled("/Users"@), spelled(user)),
                        spelled(mac),
                    ),
                ),
            ]
            &&& storage_places_of(Platform::Linux, Some(home), None, None) == seq![
                PlaceBytes::Each(below(home, new)),
                PlaceBytes::Itself(below(home, old_place)),
            ]
            &&& storage_places_of(Platform::Linux, Some(home), Some(user), None) == seq![
                PlaceBytes::Each(below(home, new)),
                PlaceBytes::Itself(below(home, old_place)),
                PlaceBytes::Each(below(sudo, new)),
                PlaceBytes::Itself(below(sudo, old_place)),
            ]
            &&& storage_places_of(Platform::Windows, None, None, Some(appdata)) == seq![
                PlaceBytes::Settings(
                    below_on(
                        Platform::Windows,
                        spelled(appdata),
                        spelled("Tencent/xwechat/config"@),
                    ),
                ),
            ]
            &&& storage_places_of(Platform::Linux, Some(home), Some(Seq::empty()), None)
                == storage_places_of(Platform::Linux, Some(home), None, None)
            &&& storage_places_of(Platform::MacOs, Some(home), Some(Seq::empty()), None)
                == storage_places_of(Platform::MacOs, Some(home), None, None)
            &&& storage_places_of(Platform::Linux, None, Some(user), Some(appdata)).len() == 0
            &&& storage_places_of(Platform::MacOs, None, Some(user), Some(appdata)).len() == 0
            &&& storage_places_of(Platform::Windows, Some(home), Some(user), None).len() == 0
            &&& storage_places_of(Platform::Other, Some(home), Some(user), Some(appdata)).len() == 0
        }),
{
    let new = "Documents/xwechat_files"@;
    let old_place = ".local/share/weixin/data/db_storage"@;
    let below = |a: Seq<u8>, b: Seq<char>| below_on(Platform::Linux, a, spelled(b));
    let sudo = below(spelled("/home"@), user);
    assert(storage_places_of(Platform::Linux, Some(home), None, None) =~= seq![
        PlaceBytes::Each(below(home, new)),
        PlaceBytes::Itself(below(home, old_place)),
    ]);
    assert(storage_places_of(Platform::Linux, Some(home), Some(user), None) =~= seq![
        PlaceBytes::Each(below(home, new)),
        PlaceBytes::Itself(below(home, old_place)),
        PlaceBytes::Each(below(sudo, new)),
        PlaceBytes::Itself(below(sudo, old_place)),
    ]);
}

/// Of several directories the one that was changed last is taken, on Windows the first, and nothing
/// where there is none.
pub proof fn law_detected(platform: Platform, all: Seq<Candidate>, r: Option<Seq<u8>>, k: int)
    requires
        detects(platform, all, r),
        0 <= k < all.len(),
    ensures
        platform == Platform::Windows ==> r == Some(all[0].path@),
        platform == Platform::Other ==> r is None,
        platform == Platform::Linux || platform == Platform::MacOs ==> exists|i: int|
            0 <= i < all.len() && r == Some((#[trigger] all[i]).path@) && all[k].modified
                <= all[i].modified && (i < k ==> all[k].modified < all[i].modified),
{
    if platform == Platform::Linux || platform == Platform::MacOs {
        let i = choose|i: int| #[trigger]
            crate::config::is_latest(all, i) && r == Some(all[i].path@);
        assert(crate::config::is_latest(all, i));
        assert(all[i].path@ == r->0);
        assert(all[k].modified <= all[i].modified);
    }
}

/// Nothing is found where there is nothing.
pub proof fn law_nothing_detected(platform: Platform, r: Option<Seq<u8>>)
    requires
        detects(platform, Seq::empty(), r),
    ensures
        r is None,
{
}

/// A name below a directory, elsewhere than on Windows, stands behind a slash.
pub proof fn law_own_directory(platform: Platform, home: Seq<u8>)
    requires
        platform != Platform::Windows,
        home.len() > 0,
        home.last() != 47,
    ensures
        cli_dir_of(platform, Some(home)) == home + seq![47u8] + spelled(".wx-cli"@),
{
    reveal_strlit(".wx-cli");
    crate::paths::law_plain_spelling(".wx-cli"@);
    law_below_elsewhere(platform, home, spelled(".wx-cli"@));
}

/// The program's own files stand in its own directory, behind what stands between the parts of a
/// path.
pub proof fn law_own_files(platform: Platform, home: Option<Seq<u8>>)
    ensures
        ({
            let between = if platform == Platform::Windows {
                seq![92u8]
            } else {
                seq![47u8]
            };
            let dir = cli_dir_of(platform, home);
            &&& sock_path_of(platform, home) == dir + between + spelled("daemon.sock"@)
            &&& pid_path_of(platform, home) == dir + between + spelled("daemon.pid"@)
            &&& log_path_of(platform, home) == dir + between + spelled("daemon.log"@)
            &&& cache_dir_of(platform, home) == dir + between + spelled("cache"@)
            &&& mtime_file_of(platform, home) == dir + between + spelled("cache"@) + between
                + spelled("_mtimes.json"@)
        }),
        cli_dir_of(platform, None) == cli_dir_of(platform, Some(spelled("/tmp"@))),
{
    law_own_paths(platform, home);
    let dir = cli_dir_of(platform, home);
    let cache = cache_dir_of(platform, home);
    if platform == Platform::Windows {
        assert(dir.push(92u8) =~= dir + seq![92u8]);
        assert(cache.push(92u8) =~= cache + seq![92u8]);
    } else {
        assert(dir.push(47u8) =~= dir + seq![47u8]);
        assert(cache.push(47u8) =~= cache + seq![47u8]);
    }
}

/// What a configuration gives is taken over, wherever home is.
pub proof fn law_config_given(
    c: Config,
    all: Seq<JsonField>,
    base: Seq<u8>,
    platform: Platform,
    appdata: Option<Seq<char>>,
)
    requires
        c.is_from(all, base, platform, appdata),
    ensures
        exists|home: Option<Seq<u8>>| #[trigger] c.tells(all, base, platform, home, appdata),
        text_at(all, "db_dir"@) matches Some(s) ==> c.db_dir@ == spelled(s),
        text_at(all, "wechat_process"@) matches Some(s) ==> c.wechat_process@ == s,
{
}

/// Places are seen as they are, one by one.
pub proof fn law_places_seen(all: Seq<Place>, i: int)
    requires
        0 <= i < all.len(),
    ensures
        place_bytes(all).len() == all.len(),
        match all[i] {
            Place::Each(p) => place_bytes(all)[i] == PlaceBytes::Each(p@),
            Place::Itself(p) => place_bytes(all)[i] == PlaceBytes::Itself(p@),
            Place::Settings(p) => place_bytes(all)[i] == PlaceBytes::Settings(p@),
        },
{
}

} // verus!
