use vstd::prelude::*;

use crate::json::{fields, json_entries, json_object, string_at, text_at, JsonEntry, JsonField};
use crate::paths::{
    begins_with_drive, below_on, held_path, is_slash, join_on, law_plain_spelling, or_path,
    path_views, spelled, NativePath, BACKSLASH, COLON, SLASH,
};
use crate::text::{held, trim, trimmed};

verus! {

/// The kinds of systems.
#[derive(Clone, Copy, PartialEq, Eq, Structural, Debug)]
pub enum Platform {
    /// macOS.
    MacOs,
    /// Linux.
    Linux,
    /// Windows.
    Windows,
    /// Any other.
    Other,
}

/// `dirs::home_dir`: the home directory of the user, where the machine knows one. What it is
/// depends on the machine, so nothing is said of it.
#[verifier::external_body]
pub(crate) fn home_dir() -> (r: Option<NativePath>) {
    dirs::home_dir().map(|p| NativePath { bytes: p.into_os_string().into_encoded_bytes() })
}

/// `std::path::is_separator`: whether a character stands between the parts of a path on the system
/// that this runs on. That depends on the system, so nothing is said of it.
#[verifier::external_body]
fn is_separator(c: char) -> (r: bool) {
    std::path::is_separator(c)
}

/// A system that spells paths as the one does that this runs on: Windows, where a backslash stands
/// between the parts of a path, else any other.
fn platform_here() -> (r: Platform)
    ensures
        r == Platform::Windows || r == Platform::Other,
{
    if is_separator('\\') {
        Platform::Windows
    } else {
        Platform::Other
    }
}

/// A text, or another where there is none.
pub open spec fn or_text(s: Option<Seq<char>>, other: Seq<char>) -> Seq<char> {
    match s {
        Some(t) => t,
        None => other,
    }
}

/// The directory of the program's own files.
pub open spec fn cli_dir_of(platform: Platform, home: Option<Seq<u8>>) -> Seq<u8> {
    below_on(platform, or_path(home, spelled("/tmp"@)), spelled(".wx-cli"@))
}

/// The directory of the program's own files, for a home directory.
pub fn cli_dir_in(platform: Platform, home: &Option<NativePath>) -> (r: NativePath)
    ensures
        r@ == cli_dir_of(platform, held_path(*home)),
{
    match home {
        Some(h) => join_on(platform, h, ".wx-cli"),
        None => join_on(platform, &NativePath::of_text("/tmp"), ".wx-cli"),
    }
}

/// The directory of the program's own files.
pub fn cli_dir() -> (r: NativePath)
    ensures
        exists|platform: Platform, home: Option<Seq<u8>>|
            r@ == #[trigger] cli_dir_of(platform, home),
{
    cli_dir_in(platform_here(), &home_dir())
}

/// The path of the daemon's socket.
pub open spec fn sock_path_of(platform: Platform, home: Option<Seq<u8>>) -> Seq<u8> {
    below_on(platform, cli_dir_of(platform, home), spelled("daemon.sock"@))
}

/// The path of the file with the number of the daemon's process.
pub open spec fn pid_path_of(platform: Platform, home: Option<Seq<u8>>) -> Seq<u8> {
    below_on(platform, cli_dir_of(platform, home), spelled("daemon.pid"@))
}

/// The path of the daemon's log.
pub open spec fn log_path_of(platform: Platform, home: Option<Seq<u8>>) -> Seq<u8> {
    below_on(platform, cli_dir_of(platform, home), spelled("daemon.log"@))
}

/// The directory of the decrypted databases.
pub open spec fn cache_dir_of(platform: Platform, home: Option<Seq<u8>>) -> Seq<u8> {
    below_on(platform, cli_dir_of(platform, home), spelled("cache"@))
}

/// The path of the file with the times of the decrypted databases.
pub open spec fn mtime_file_of(platform: Platform, home: Option<Seq<u8>>) -> Seq<u8> {
    below_on(platform, cache_dir_of(platform, home), spelled("_mtimes.json"@))
}

/// The path of the daemon's socket, for a home directory.
pub fn sock_path_in(platform: Platform, home: &Option<NativePath>) -> (r: NativePath)
    ensures
        r@ == sock_path_of(platform, held_path(*home)),
{
    join_on(platform, &cli_dir_in(platform, home), "daemon.sock")
}

/// The path of the daemon's socket.
pub fn sock_path() -> (r: NativePath)
    ensures
        exists|platform: Platform, home: Option<Seq<u8>>|
            r@ == #[trigger] sock_path_of(platform, home),
{
    sock_path_in(platform_here(), &home_dir())
}

/// The path of the file with the number of the daemon's process, for a home directory.
pub fn pid_path_in(platform: Platform, home: &Option<NativePath>) -> (r: NativePath)
    ensures
        r@ == pid_path_of(platform, held_path(*home)),
{
    join_on(platform, &cli_dir_in(platform, home), "daemon.pid")
}

/// The path of the file with the number of the daemon's process.
pub fn pid_path() -> (r: NativePath)
    ensures
        exists|platform: Platform, home: Option<Seq<u8>>|
            r@ == #[trigger] pid_path_of(platform, home),
{
    pid_path_in(platform_here(), &home_dir())
}

/// The path of the daemon's log, for a home directory.
pub fn log_path_in(platform: Platform, home: &Option<NativePath>) -> (r: NativePath)
    ensures
        r@ == log_path_of(platform, held_path(*home)),
{
    join_on(platform, &cli_dir_in(platform, home), "daemon.log")
}

/// The path of the daemon's log.
pub fn log_path() -> (r: NativePath)
    ensures
        exists|platform: Platform, home: Option<Seq<u8>>|
            r@ == #[trigger] log_path_of(platform, home),
{
    log_path_in(platform_here(), &home_dir())
}

/// The directory of the decrypted databases, for a home directory.
pub fn cache_dir_in(platform: Platform, home: &Option<NativePath>) -> (r: NativePath)
    ensures
        r@ == cache_dir_of(platform, held_path(*home)),
{
    join_on(platform, &cli_dir_in(platform, home), "cache")
}

/// The directory of the decrypted databases.
pub fn cache_dir() -> (r: NativePath)
    ensures
        exists|platform: Platform, home: Option<Seq<u8>>|
            r@ == #[trigger] cache_dir_of(platform, home),
{
    cache_dir_in(platform_here(), &home_dir())
}

/// The path of the file with the times of the decrypted databases, for a home directory.
pub fn mtime_file_in(platform: Platform, home: &Option<NativePath>) -> (r: NativePath)
    ensures
        r@ == mtime_file_of(platform, held_path(*home)),
{
    join_on(platform, &cache_dir_in(platform, home), "_mtimes.json")
}

/// The path of the file with the times of the decrypted databases.
pub fn mtime_file() -> (r: NativePath)
    ensures
        exists|platform: Platform, home: Option<Seq<u8>>|
            r@ == #[trigger] mtime_file_of(platform, home),
{
    mtime_file_in(platform_here(), &home_dir())
}

/// What stands between the parts of a path.
pub open spec fn separator(platform: Platform) -> u8 {
    if platform == Platform::Windows {
        BACKSLASH
    } else {
        SLASH
    }
}

/// A file of a directory, with a separator before its name.
pub open spec fn file_in(platform: Platform, dir: Seq<u8>, name: Seq<char>) -> Seq<u8> {
    dir.push(separator(platform)) + spelled(name)
}

/// For one home directory the program's own paths are fixed: each lies in the program's own
/// directory under its own name, and no two are the same.
pub proof fn law_own_paths(platform: Platform, home: Option<Seq<u8>>)
    ensures
        ({
            let dir = cli_dir_of(platform, home);
            let cache = cache_dir_of(platform, home);
            &&& sock_path_of(platform, home) == file_in(platform, dir, "daemon.sock"@)
            &&& pid_path_of(platform, home) == file_in(platform, dir, "daemon.pid"@)
            &&& log_path_of(platform, home) == file_in(platform, dir, "daemon.log"@)
            &&& cache == file_in(platform, dir, "cache"@)
            &&& mtime_file_of(platform, home) == file_in(platform, cache, "_mtimes.json"@)
        }),
        sock_path_of(platform, home) != pid_path_of(platform, home),
        sock_path_of(platform, home) != log_path_of(platform, home),
        sock_path_of(platform, home) != cache_dir_of(platform, home),
        pid_path_of(platform, home) != log_path_of(platform, home),
        pid_path_of(platform, home) != cache_dir_of(platform, home),
        log_path_of(platform, home) != cache_dir_of(platform, home),
{
    reveal_strlit(".wx-cli");
    reveal_strlit("daemon.sock");
    reveal_strlit("daemon.pid");
    reveal_strlit("daemon.log");
    reveal_strlit("cache");
    reveal_strlit("_mtimes.json");
    let dir = cli_dir_of(platform, home);
    law_plain_spelling(".wx-cli"@);
    law_plain_spelling("daemon.sock"@);
    law_plain_spelling("daemon.pid"@);
    law_plain_spelling("daemon.log"@);
    law_plain_spelling("cache"@);
    law_plain_spelling("_mtimes.json"@);
    lemma_named_below(platform, or_path(home, spelled("/tmp"@)), spelled(".wx-cli"@));
    lemma_plain_below(platform, dir, "daemon.sock"@);
    lemma_plain_below(platform, dir, "daemon.pid"@);
    lemma_plain_below(platform, dir, "daemon.log"@);
    lemma_plain_below(platform, dir, "cache"@);
    lemma_named_below(platform, dir, spelled("cache"@));
    lemma_plain_below(platform, cache_dir_of(platform, home), "_mtimes.json"@);
    assert(sock_path_of(platform, home).last() == 'k' as u8);
    assert(pid_path_of(platform, home).last() == 'd' as u8);
    assert(log_path_of(platform, home).last() == 'g' as u8);
    assert(cache_dir_of(platform, home).last() == 'e' as u8);
}

/// A path below another ends with the last byte of its own name.
proof fn lemma_named_below(platform: Platform, base: Seq<u8>, part: Seq<u8>)
    requires
        part.len() > 0,
    ensures
        below_on(platform, base, part).len() > 0,
        below_on(platform, base, part).last() == part.last(),
{
}

/// A separator goes before a plain name where the directory does not end with one.
proof fn lemma_plain_below(platform: Platform, base: Seq<u8>, name: Seq<char>)
    requires
        base.len() > 0,
        !is_slash(base.last()),
        base.last() != COLON,
        spelled(name).len() > 1,
        !is_slash(spelled(name)[0]),
        spelled(name)[1] != COLON,
    ensures
        below_on(platform, base, spelled(name)) == file_in(platform, base, name),
{
    assert(!begins_with_drive(spelled(name)));
}

/// Where the data of the messenger lie by default.
pub open spec fn default_db_dir_of(
    platform: Platform,
    home: Option<Seq<u8>>,
    appdata: Option<Seq<char>>,
) -> Seq<u8> {
    match platform {
        Platform::MacOs => below_on(
            platform,
            or_path(home, Seq::empty()),
            spelled("Library/Containers/com.tencent.xinWeChat/Data/Documents/xwechat_files"@),
        ),
        Platform::Linux => below_on(
            platform,
            or_path(home, Seq::empty()),
            spelled("Documents/xwechat_files"@),
        ),
        Platform::Windows => below_on(
            platform,
            spelled(or_text(appdata, Seq::empty())),
            spelled("Tencent/xwechat"@),
        ),
        Platform::Other => spelled("."@),
    }
}

/// Where the data of the messenger lie by default.
pub fn default_db_dir(
    platform: Platform,
    home: &Option<NativePath>,
    appdata: &Option<String>,
) -> (r: NativePath)
    ensures
        r@ == default_db_dir_of(platform, held_path(*home), held(*appdata)),
{
    let nowhere = NativePath { bytes: Vec::new() };
    assert(nowhere@ =~= Seq::empty());
    let h = match home {
        Some(h) => h,
        None => &nowhere,
    };
    let empty = String::new();
    let a = match appdata {
        Some(a) => a,
        None => &empty,
    };
    match platform {
        Platform::MacOs => join_on(
            platform,
            h,
            "Library/Containers/com.tencent.xinWeChat/Data/Documents/xwechat_files",
        ),
        Platform::Linux => join_on(platform, h, "Documents/xwechat_files"),
        Platform::Windows => join_on(
            platform,
            &NativePath::of_text(a.as_str()),
            "Tencent/xwechat",
        ),
        Platform::Other => NativePath::of_text("."),
    }
}

/// The name of the messenger's process.
pub open spec fn process_name(platform: Platform) -> Seq<char> {
    match platform {
        Platform::MacOs => "WeChat"@,
        Platform::Linux => "wechat"@,
        Platform::Windows => "Weixin.exe"@,
        Platform::Other => "WeChat"@,
    }
}

/// The name of the messenger's process.
pub fn default_wechat_process(platform: Platform) -> (r: &'static str)
    ensures
        r@ == process_name(platform),
{
    match platform {
        Platform::MacOs => "WeChat",
        Platform::Linux => "wechat",
        Platform::Windows => "Weixin.exe",
        Platform::Other => "WeChat",
    }
}

/// Where everything is.
pub struct Config {
    /// The directory of the messenger's databases.
    pub db_dir: NativePath,
    /// The path of the file with the keys.
    pub keys_file: NativePath,
    /// The directory of the decrypted databases.
    pub decrypted_dir: NativePath,
    /// The name of the messenger's process.
    pub wechat_process: String,
}

impl Config {
    /// Whether this is what the entries of a file in `base_dir` say. The paths of the keys and of
    /// the decrypted databases are taken from that directory where they are not absolute.
    pub open spec fn tells(
        &self,
        all: Seq<JsonField>,
        base_dir: Seq<u8>,
        platform: Platform,
        home: Option<Seq<u8>>,
        appdata: Option<Seq<char>>,
    ) -> bool {
        &&& self.db_dir@ == match text_at(all, "db_dir"@) {
            Some(s) => spelled(s),
            None => default_db_dir_of(platform, home, appdata),
        }
        &&& self.keys_file@ == below_on(
            platform,
            base_dir,
            spelled(or_text(text_at(all, "keys_file"@), "all_keys.json"@)),
        )
        &&& self.decrypted_dir@ == below_on(
            platform,
            base_dir,
            spelled(or_text(text_at(all, "decrypted_dir"@), "decrypted"@)),
        )
        &&& self.wechat_process@ == or_text(
            text_at(all, "wechat_process"@),
            process_name(platform),
        )
    }
}

impl Config {
    /// Whether this is what the entries of a file in `base_dir` say, wherever home is.
    pub open spec fn is_from(
        &self,
        all: Seq<JsonField>,
        base_dir: Seq<u8>,
        platform: Platform,
        appdata: Option<Seq<char>>,
    ) -> bool {
        exists|home: Option<Seq<u8>>| #[trigger]
            self.tells(all, base_dir, platform, home, appdata)
    }
}

/// The path under a key, taken from a directory; `other` where there is none.
pub(crate) fn path_at(
    platform: Platform,
    entries: &Vec<JsonEntry>,
    key: &str,
    base_dir: &NativePath,
    other: &str,
) -> (r: NativePath)
    ensures
        r@ == below_on(
            platform,
            base_dir@,
            spelled(or_text(text_at(fields(entries@), key@), other@)),
        ),
{
    match string_at(entries, key) {
        Some(s) => join_on(platform, base_dir, s.as_str()),
        None => join_on(platform, base_dir, other),
    }
}

/// What the entries of a file in `base_dir` say.
pub fn config_from(
    entries: &Vec<JsonEntry>,
    base_dir: &NativePath,
    platform: Platform,
    home: &Option<NativePath>,
    appdata: &Option<String>,
) -> (r: Config)
    ensures
        r.tells(fields(entries@), base_dir@, platform, held_path(*home), held(*appdata)),
{
    let db_dir = match string_at(entries, "db_dir") {
        Some(s) => NativePath::of_text(s.as_str()),
        None => default_db_dir(platform, home, appdata),
    };
    let wechat_process = match string_at(entries, "wechat_process") {
        Some(s) => s,
        None => default_wechat_process(platform).to_owned(),
    };
    Config {
        db_dir,
        keys_file: path_at(platform, entries, "keys_file", base_dir, "all_keys.json"),
        decrypted_dir: path_at(platform, entries, "decrypted_dir", base_dir, "decrypted"),
        wechat_process,
    }
}

/// What the text of a file in `base_dir` says; nothing where it is no JSON.
pub fn load_config(
    content: &str,
    base_dir: &NativePath,
    platform: Platform,
    appdata: &Option<String>,
) -> (r: Option<Config>)
    ensures
        match json_object(content@, ""@) {
            Some(all) => r is Some && r->0.is_from(all, base_dir@, platform, held(*appdata)),
            None => r is None,
        },
{
    match json_entries(content, "") {
        Some(entries) => {
            let home = home_dir();
            let config = config_from(&entries, base_dir, platform, &home, appdata);
            assert(config.is_from(fields(entries@), base_dir@, platform, held(*appdata)));
            Some(config)
        },
        None => None,
    }
}

/// The first of some paths that exists, else another.
pub open spec fn first_existing(
    places: Seq<Seq<u8>>,
    exists_at: Seq<bool>,
    other: Seq<u8>,
) -> Seq<u8>
    decreases places.len(),
{
    if places.len() == 0 {
        other
    } else if exists_at[0] {
        places[0]
    } else {
        first_existing(places.skip(1), exists_at.skip(1), other)
    }
}

fn pick_existing(places: &Vec<NativePath>, exists_at: &Vec<bool>, other: NativePath) -> (r:
    NativePath)
    requires
        exists_at@.len() == places@.len(),
    ensures
        r@ == first_existing(path_views(places@), exists_at@, other@),
{
    let ghost all = path_views(places@);
    let mut i: usize = 0;
    assert(all.skip(0) =~= all);
    assert(exists_at@.skip(0) =~= exists_at@);
    while i < places.len()
        invariant
            i <= places.len(),
            exists_at@.len() == places@.len(),
            all == path_views(places@),
            first_existing(all, exists_at@, other@) == first_existing(
                all.skip(i as int),
                exists_at@.skip(i as int),
                other@,
            ),
        decreases places.len() - i,
    {
        if exists_at[i] {
            return places[i].copied();
        }
        assert(all.skip(i as int).skip(1) =~= all.skip(i + 1));
        assert(exists_at@.skip(i as int).skip(1) =~= exists_at@.skip(i + 1));
        i = i + 1;
    }
    other
}

/// The name of the file that says where everything is.
pub const CONFIG_FILE: &'static str = "config.json";

/// The configuration in a directory, where the directory is known.
pub open spec fn config_in(platform: Platform, dir: Option<Seq<u8>>) -> Option<Seq<u8>> {
    match dir {
        Some(d) => Some(below_on(platform, d, spelled(CONFIG_FILE@))),
        None => None,
    }
}

/// A row of the configuration in a directory; nothing where the directory is not known.
pub open spec fn configs_in(platform: Platform, dir: Option<Seq<u8>>) -> Seq<Seq<u8>> {
    match config_in(platform, dir) {
        Some(p) => seq![p],
        None => Seq::empty(),
    }
}

fn push_config(platform: Platform, places: &mut Vec<NativePath>, dir: &Option<NativePath>)
    ensures
        path_views(final(places)@) == path_views(old(places)@) + configs_in(
            platform,
            held_path(*dir),
        ),
{
    let ghost before = places@;
    if let Some(d) = dir {
        let p = join_on(platform, d, CONFIG_FILE);
        places.push(p);
    }
    assert(path_views(places@) =~= path_views(before) + configs_in(platform, held_path(*dir)));
}

/// Where a configuration is looked for: beside the program, in the working directory, at home.
pub open spec fn places_to_load(
    platform: Platform,
    exe_dir: Option<Seq<u8>>,
    cwd: Seq<u8>,
    home: Option<Seq<u8>>,
) -> Seq<Seq<u8>> {
    configs_in(platform, exe_dir) + configs_in(platform, Some(cwd)) + configs_in(
        platform,
        match home {
            Some(h) => Some(below_on(platform, h, spelled(".wx-cli"@))),
            None => None,
        },
    )
}

/// Where a configuration is looked for, for a home directory.
pub fn config_places(
    platform: Platform,
    exe_dir: &Option<NativePath>,
    cwd: &NativePath,
    home: &Option<NativePath>,
) -> (r: Vec<NativePath>)
    ensures
        path_views(r@) == places_to_load(platform, held_path(*exe_dir), cwd@, held_path(*home)),
{
    let mut places: Vec<NativePath> = Vec::new();
    assert(path_views(places@) =~= Seq::empty());
    push_config(platform, &mut places, exe_dir);
    push_config(platform, &mut places, &Some(cwd.copied()));
    let own = match home {
        Some(h) => Some(join_on(platform, h, ".wx-cli")),
        None => None,
    };
    push_config(platform, &mut places, &own);
    assert(path_views(places@) =~= places_to_load(
        platform,
        held_path(*exe_dir),
        cwd@,
        held_path(*home),
    ));
    places
}

/// Where a configuration is looked for.
pub fn config_places_here(
    platform: Platform,
    exe_dir: &Option<NativePath>,
    cwd: &NativePath,
) -> (r: Vec<NativePath>)
    ensures
        exists|home: Option<Seq<u8>>|
            path_views(r@) == #[trigger] places_to_load(platform, held_path(*exe_dir), cwd@, home),
{
    config_places(platform, exe_dir, cwd, &home_dir())
}

/// The configuration that is loaded: the first that exists, else the one beside the program.
pub fn find_config_file(
    platform: Platform,
    places: &Vec<NativePath>,
    exists_at: &Vec<bool>,
    exe_dir: &Option<NativePath>,
) -> (r: NativePath)
    requires
        exists_at@.len() == places@.len(),
    ensures
        r@ == first_existing(
            path_views(places@),
            exists_at@,
            or_path(config_in(platform, held_path(*exe_dir)), spelled(CONFIG_FILE@)),
        ),
{
    let other = match exe_dir {
        Some(d) => join_on(platform, d, CONFIG_FILE),
        None => NativePath::of_text(CONFIG_FILE),
    };
    pick_existing(places, exists_at, other)
}

/// Where a configuration is looked for that is written: in the working directory, beside the
/// program.
pub fn places_to_write(
    platform: Platform,
    cwd: &Option<NativePath>,
    exe_dir: &Option<NativePath>,
) -> (r: Vec<NativePath>)
    ensures
        path_views(r@) == configs_in(platform, held_path(*cwd)) + configs_in(
            platform,
            held_path(*exe_dir),
        ),
{
    let mut places: Vec<NativePath> = Vec::new();
    assert(path_views(places@) =~= Seq::empty());
    push_config(platform, &mut places, cwd);
    push_config(platform, &mut places, exe_dir);
    assert(path_views(places@) =~= configs_in(platform, held_path(*cwd)) + configs_in(
        platform,
        held_path(*exe_dir),
    ));
    places
}

/// The configuration that is written: the first that exists, else the one at home.
pub open spec fn config_to_write(
    platform: Platform,
    places: Seq<Seq<u8>>,
    exists_at: Seq<bool>,
    home: Option<Seq<u8>>,
) -> Seq<u8> {
    first_existing(
        places,
        exists_at,
        below_on(platform, cli_dir_of(platform, home), spelled(CONFIG_FILE@)),
    )
}

/// The configuration that is written, for a home directory.
pub fn find_or_create_config_path_in(
    platform: Platform,
    places: &Vec<NativePath>,
    exists_at: &Vec<bool>,
    home: &Option<NativePath>,
) -> (r: NativePath)
    requires
        exists_at@.len() == places@.len(),
    ensures
        r@ == config_to_write(platform, path_views(places@), exists_at@, held_path(*home)),
{
    let other = join_on(platform, &cli_dir_in(platform, home), CONFIG_FILE);
    pick_existing(places, exists_at, other)
}

/// The configuration that is written.
pub fn find_or_create_config_path(
    platform: Platform,
    places: &Vec<NativePath>,
    exists_at: &Vec<bool>,
) -> (r: NativePath)
    requires
        exists_at@.len() == places@.len(),
    ensures
        exists|home: Option<Seq<u8>>|
            r@ == #[trigger] config_to_write(platform, path_views(places@), exists_at@, home),
{
    find_or_create_config_path_in(platform, places, exists_at, &home_dir())
}

/// A configuration that is written at home is found there, where none is beside the program or in
/// the working directory.
pub proof fn law_written_config_found(
    platform: Platform,
    exe_dir: Option<Seq<u8>>,
    cwd: Seq<u8>,
    home: Seq<u8>,
    exists_at: Seq<bool>,
    other: Seq<u8>,
)
    requires
        exists_at.len() == places_to_load(platform, exe_dir, cwd, Some(home)).len(),
        forall|i: int| 0 <= i < exists_at.len() ==> #[trigger] exists_at[i] == (i
            == exists_at.len() - 1),
    ensures
        first_existing(
            places_to_load(platform, exe_dir, cwd, Some(home)),
            exists_at,
            other,
        ) == below_on(platform, cli_dir_of(platform, Some(home)), spelled(CONFIG_FILE@)),
{
    let places = places_to_load(platform, exe_dir, cwd, Some(home));
    assert(places.last() == below_on(
        platform,
        cli_dir_of(platform, Some(home)),
        spelled(CONFIG_FILE@),
    ));
    reveal_with_fuel(first_existing, 4);
    let one = exists_at.skip(1);
    assert(one.skip(1) =~= exists_at.skip(2));
    assert(places.skip(1).skip(1) =~= places.skip(2));
    if exe_dir is Some {
        assert(exists_at.skip(1)[0] == exists_at[1]);
        assert(exists_at.skip(2)[0] == exists_at[2]);
        assert(places.skip(2)[0] == places[2]);
    } else {
        assert(exists_at.skip(1)[0] == exists_at[1]);
        assert(places.skip(1)[0] == places[1]);
    }
}

/// Where databases may lie.
pub enum Place {
    /// In the `db_storage` of each directory in this one.
    Each(NativePath),
    /// In this directory itself.
    Itself(NativePath),
    /// Where the settings in this directory say.
    Settings(NativePath),
}

/// Where databases may lie, as plain bytes.
pub enum PlaceBytes {
    /// In the `db_storage` of each directory in this one.
    Each(Seq<u8>),
    /// In this directory itself.
    Itself(Seq<u8>),
    /// Where the settings in this directory say.
    Settings(Seq<u8>),
}

impl View for Place {
    type V = PlaceBytes;

    open spec fn view(&self) -> PlaceBytes {
        match self {
            Place::Each(p) => PlaceBytes::Each(p@),
            Place::Itself(p) => PlaceBytes::Itself(p@),
            Place::Settings(p) => PlaceBytes::Settings(p@),
        }
    }
}

/// The places, as plain bytes.
pub open spec fn place_bytes(all: Seq<Place>) -> Seq<PlaceBytes> {
    all.map_values(|p: Place| p@)
}

/// The home directory of the user who became root, where there is one.
pub open spec fn sudo_home(
    platform: Platform,
    homes: Seq<char>,
    sudo_user: Option<Seq<char>>,
) -> Option<Seq<u8>> {
    match sudo_user {
        Some(u) => if u.len() > 0 {
            Some(below_on(platform, spelled(homes), spelled(u)))
        } else {
            None
        },
        None => None,
    }
}

/// The two places below a home directory on Linux.
pub open spec fn linux_places(home: Seq<u8>) -> Seq<PlaceBytes> {
    seq![
        PlaceBytes::Each(
            below_on(Platform::Linux, home, spelled("Documents/xwechat_files"@)),
        ),
        PlaceBytes::Itself(
            below_on(Platform::Linux, home, spelled(".local/share/weixin/data/db_storage"@)),
        ),
    ]
}

/// Where databases may lie; nowhere that is known without a home directory. On macOS the home
/// directory of the user who became root takes the place of root's, on Linux both count.
pub open spec fn storage_places_of(
    platform: Platform,
    home: Option<Seq<u8>>,
    sudo_user: Option<Seq<char>>,
    appdata: Option<Seq<char>>,
) -> Seq<PlaceBytes> {
    match platform {
        Platform::MacOs => match home {
            Some(h) => seq![
                PlaceBytes::Each(
                    below_on(
                        platform,
                        or_path(sudo_home(platform, "/Users"@, sudo_user), h),
                        spelled(
                            "Library/Containers/com.tencent.xinWeChat/Data/Documents/xwechat_files"@,
                        ),
                    ),
                ),
            ],
            None => Seq::empty(),
        },
        Platform::Linux => match home {
            Some(h) => linux_places(h) + match sudo_home(platform, "/home"@, sudo_user) {
                Some(s) => linux_places(s),
                None => Seq::empty(),
            },
            None => Seq::empty(),
        },
        Platform::Windows => match appdata {
            Some(a) => seq![
                PlaceBytes::Settings(
                    below_on(platform, spelled(a), spelled("Tencent/xwechat/config"@)),
                ),
            ],
            None => Seq::empty(),
        },
        Platform::Other => Seq::empty(),
    }
}

fn home_of_sudo(platform: Platform, homes: &str, sudo_user: &Option<String>) -> (r: Option<
    NativePath,
>)
    ensures
        held_path(r) == sudo_home(platform, homes@, held(*sudo_user)),
{
    match sudo_user {
        Some(u) => if u.as_str().is_empty() {
            None
        } else {
            Some(join_on(platform, &NativePath::of_text(homes), u.as_str()))
        },
        None => None,
    }
}

fn push_linux_places(out: &mut Vec<Place>, home: &NativePath)
    ensures
        place_bytes(final(out)@) == place_bytes(old(out)@) + linux_places(home@),
{
    let ghost before = out@;
    out.push(Place::Each(join_on(Platform::Linux, home, "Documents/xwechat_files")));
    out.push(Place::Itself(join_on(Platform::Linux, home, ".local/share/weixin/data/db_storage")));
    assert(place_bytes(out@) =~= place_bytes(before) + linux_places(home@));
}

/// Where databases may lie, for a home directory.
pub fn storage_places(
    platform: Platform,
    home: &Option<NativePath>,
    sudo_user: &Option<String>,
    appdata: &Option<String>,
) -> (r: Vec<Place>)
    ensures
        place_bytes(r@) == storage_places_of(
            platform,
            held_path(*home),
            held(*sudo_user),
            held(*appdata),
        ),
{
    let mut out: Vec<Place> = Vec::new();
    assert(place_bytes(out@) =~= Seq::empty());
    match platform {
        Platform::MacOs => {
            if let Some(h) = home {
                let base = match home_of_sudo(platform, "/Users", sudo_user) {
                    Some(s) => s,
                    None => h.copied(),
                };
                out.push(
                    Place::Each(
                        join_on(
                            platform,
                            &base,
                            "Library/Containers/com.tencent.xinWeChat/Data/Documents/xwechat_files",
                        ),
                    ),
                );
            }
        },
        Platform::Linux => {
            if let Some(h) = home {
                push_linux_places(&mut out, h);
                if let Some(s) = home_of_sudo(platform, "/home", sudo_user) {
                    push_linux_places(&mut out, &s);
                }
            }
        },
        Platform::Windows => {
            if let Some(a) = appdata {
                out.push(
                    Place::Settings(
                        join_on(
                            platform,
                            &NativePath::of_text(a.as_str()),
                            "Tencent/xwechat/config",
                        ),
                    ),
                );
            }
        },
        Platform::Other => {},
    }
    assert(place_bytes(out@) =~= storage_places_of(
        platform,
        held_path(*home),
        held(*sudo_user),
        held(*appdata),
    ));
    out
}

/// Where databases may lie.
pub fn storage_places_here(
    platform: Platform,
    sudo_user: &Option<String>,
    appdata: &Option<String>,
) -> (r: Vec<Place>)
    ensures
        exists|home: Option<Seq<u8>>|
            place_bytes(r@) == #[trigger] storage_places_of(
                platform,
                home,
                held(*sudo_user),
                held(*appdata),
            ),
{
    storage_places(platform, &home_dir(), sudo_user, appdata)
}

/// The databases in a directory of one account.
pub fn storage_in(platform: Platform, dir: &NativePath) -> (r: NativePath)
    ensures
        r@ == below_on(platform, dir@, spelled("db_storage"@)),
{
    join_on(platform, dir, "db_storage")
}

/// The data that a file of settings names: the directory of the accounts below its text.
pub fn accounts_in(platform: Platform, setting: &str) -> (r: NativePath)
    ensures
        r@ == below_on(platform, spelled(trimmed(setting@)), spelled("xwechat_files"@)),
{
    join_on(platform, &NativePath::of_text(trim(setting).as_str()), "xwechat_files")
}

/// A directory that may be the one with the databases.
pub struct Candidate {
    /// Its path.
    pub path: NativePath,
    /// When it was last changed.
    pub modified: i128,
}

/// Whether the candidate at `i` was changed last, and is the last of those.
pub open spec fn is_latest(all: Seq<Candidate>, i: int) -> bool {
    &&& 0 <= i < all.len()
    &&& forall|j: int| 0 <= j < all.len() ==> (#[trigger] all[j]).modified <= all[i].modified
    &&& forall|j: int| i < j < all.len() ==> (#[trigger] all[j]).modified < all[i].modified
}

/// Whether `r` is the directory that is taken: the one that was changed last; on Windows the first.
pub open spec fn detects(platform: Platform, all: Seq<Candidate>, r: Option<Seq<u8>>) -> bool {
    if all.len() == 0 || platform == Platform::Other {
        r is None
    } else if platform == Platform::Windows {
        r == Some(all[0].path@)
    } else {
        exists|i: int| #[trigger] is_latest(all, i) && r == Some(all[i].path@)
    }
}

/// The directory with the databases.
pub fn auto_detect_db_dir(platform: Platform, candidates: &Vec<Candidate>) -> (r: Option<
    NativePath,
>)
    ensures
        detects(platform, candidates@, held_path(r)),
{
    if candidates.len() == 0 {
        return None;
    }
    match platform {
        Platform::Other => None,
        Platform::Windows => Some(candidates[0].path.copied()),
        _ => {
            let mut best: usize = 0;
            let mut i: usize = 1;
            while i < candidates.len()
                invariant
                    0 < i <= candidates.len(),
                    best < i,
                    is_latest(candidates@.take(i as int), best as int),
                decreases candidates.len() - i,
            {
                let ghost before = candidates@.take(i as int);
                let ghost after = candidates@.take(i + 1);
                assert forall|j: int| 0 <= j < i implies #[trigger] after[j] == before[j] by {}
                if candidates[i].modified >= candidates[best].modified {
                    best = i;
                }
                i = i + 1;
            }
            assert(candidates@.take(i as int) =~= candidates@);
            assert(is_latest(candidates@, best as int));
            Some(candidates[best].path.copied())
        },
    }
}

/// There is only one directory to take.
pub proof fn law_detected_once(all: Seq<Candidate>, i: int, j: int)
    requires
        is_latest(all, i),
        is_latest(all, j),
    ensures
        i == j,
{
    assert(all[i].modified <= all[j].modified);
    assert(all[j].modified <= all[i].modified);
}

} // verus!
