use wx_cli::config::{
    accounts_in, auto_detect_db_dir, cache_dir, cache_dir_in, cli_dir, cli_dir_in, config_from,
    config_places, config_places_here, default_db_dir, default_wechat_process, find_config_file,
    find_or_create_config_path, find_or_create_config_path_in, load_config, log_path, log_path_in,
    mtime_file, mtime_file_in, pid_path, pid_path_in, places_to_write, sock_path, sock_path_in,
    storage_in, storage_places, storage_places_here, Candidate, Place, Platform,
};
use wx_cli::daemon_cmd::{
    cmd_daemon, log_tail, startup_failure, startup_step, stop_line, DaemonCommands, DaemonSeen,
    DaemonStep, StartupStep, StopOutcome,
};
use wx_cli::init::{
    init_check, initialized_lines, is_initialized, keys_found, merge_config, merge_texts,
    merged_config, read_init_check,
};
use wx_cli::ipc::{
    check_answer, default_limit_20, default_limit_50, json_line, unreadable, Payload, Response,
    WatchEvent,
};
use wx_cli::json::{extract_keys, has_pong, is_pong, load_keys, message_db_keys, string_at, JsonEntry};
use wx_cli::names::{load_names, ContactRow, Names};
use wx_cli::paths::NativePath;
use wx_cli::render::{
    cmd_watch, contact_line, contacts_header, history_header, history_line, pad, read_watched,
    search_header, search_line, session_line, summary_line, watch_line, watched_from, WatchedLine,
};
use wx_cli::strmap::StrMap;
use wx_cli::watch::{WatchRow, Watcher};

fn s(t: &str) -> String {
    t.to_string()
}

fn o(t: &str) -> Option<String> {
    Some(t.to_string())
}

fn n(t: &str) -> NativePath {
    NativePath::of_text(t)
}

fn on(t: &str) -> Option<NativePath> {
    Some(NativePath::of_text(t))
}

fn t(p: NativePath) -> String {
    String::from_utf8(p.bytes).unwrap()
}

#[test]
fn own_files_lie_below_home() {
    let home = dirs::home_dir().unwrap_or(std::path::PathBuf::from("/tmp"));
    let dir = home.join(".wx-cli");
    let bytes = |p: std::path::PathBuf| p.into_os_string().into_encoded_bytes();
    assert_eq!(cli_dir().bytes, bytes(dir.clone()));
    assert_eq!(sock_path().bytes, bytes(dir.join("daemon.sock")));
    assert_eq!(pid_path().bytes, bytes(dir.join("daemon.pid")));
    assert_eq!(log_path().bytes, bytes(dir.join("daemon.log")));
    assert_eq!(cache_dir().bytes, bytes(dir.join("cache")));
    assert_eq!(mtime_file().bytes, bytes(dir.join("cache").join("_mtimes.json")));
    let l = Platform::Linux;
    assert_eq!(t(cli_dir_in(l, &None)), "/tmp/.wx-cli");
    assert_eq!(t(sock_path_in(l, &on("/h"))), "/h/.wx-cli/daemon.sock");
    assert_eq!(t(pid_path_in(l, &on("/h/"))), "/h/.wx-cli/daemon.pid");
    assert_eq!(t(log_path_in(l, &None)), "/tmp/.wx-cli/daemon.log");
    assert_eq!(t(cache_dir_in(l, &on(""))), ".wx-cli/cache");
    assert_eq!(t(mtime_file_in(l, &on("/h"))), "/h/.wx-cli/cache/_mtimes.json");
    let odd = Some(NativePath { bytes: b"/home/\xff".to_vec() });
    assert_eq!(sock_path_in(l, &odd).bytes, b"/home/\xff/.wx-cli/daemon.sock".to_vec());
}

#[test]
fn own_files_on_windows_are_spelled_with_backslashes() {
    let (w, h) = (Platform::Windows, on(r"C:\Users\u"));
    assert_eq!(t(cli_dir_in(w, &h)), r"C:\Users\u\.wx-cli");
    assert_eq!(t(sock_path_in(w, &h)), r"C:\Users\u\.wx-cli\daemon.sock");
    assert_eq!(t(pid_path_in(w, &h)), r"C:\Users\u\.wx-cli\daemon.pid");
    assert_eq!(t(log_path_in(w, &h)), r"C:\Users\u\.wx-cli\daemon.log");
    assert_eq!(t(cache_dir_in(w, &h)), r"C:\Users\u\.wx-cli\cache");
    assert_eq!(t(mtime_file_in(w, &h)), r"C:\Users\u\.wx-cli\cache\_mtimes.json");
    assert_eq!(t(cli_dir_in(w, &None)), r"/tmp\.wx-cli");
    assert_eq!(t(cli_dir_in(w, &on(r"C:\"))), r"C:\.wx-cli");
    let places = config_places(w, &on(r"D:\exe"), &n(r"D:\cwd"), &h);
    assert_eq!(
        places,
        vec![
            n(r"D:\exe\config.json"), n(r"D:\cwd\config.json"), n(r"C:\Users\u\.wx-cli\config.json"),
        ]
    );
    let write = find_or_create_config_path_in(w, &places_to_write(w, &None, &None), &vec![], &h);
    assert_eq!(t(write), r"C:\Users\u\.wx-cli\config.json");
}

#[test]
fn systems_have_their_defaults() {
    let (h, a) = (on("/h"), o("/a"));
    assert_eq!(t(default_db_dir(Platform::Linux, &h, &a)), "/h/Documents/xwechat_files");
    assert_eq!(
        t(default_db_dir(Platform::MacOs, &h, &a)),
        "/h/Library/Containers/com.tencent.xinWeChat/Data/Documents/xwechat_files"
    );
    assert_eq!(
        t(default_db_dir(Platform::Windows, &h, &o(r"C:\a"))),
        r"C:\a\Tencent/xwechat"
    );
    assert_eq!(t(default_db_dir(Platform::Other, &h, &a)), ".");
    assert_eq!(t(default_db_dir(Platform::Linux, &None, &a)), "Documents/xwechat_files");
    assert_eq!(default_wechat_process(Platform::Linux), "wechat");
    assert_eq!(default_wechat_process(Platform::MacOs), "WeChat");
    assert_eq!(default_wechat_process(Platform::Windows), "Weixin.exe");
    assert_eq!(default_wechat_process(Platform::Other), "WeChat");
}

#[test]
fn configuration_is_read() {
    let text = r#"{"db_dir": "/db", "keys_file": "k.json", "decrypted_dir": "/abs", "wechat_process": "w", "x": 1}"#;
    let c = load_config(text, &n("/base"), Platform::Linux, &None).unwrap();
    assert_eq!(t(c.db_dir), "/db");
    assert_eq!(t(c.keys_file), "/base/k.json");
    assert_eq!(t(c.decrypted_dir), "/abs");
    assert_eq!(c.wechat_process, "w");
    let c = load_config(r#"{"keys_file": 5}"#, &n(r"C:\base"), Platform::Windows, &o(r"C:\a")).unwrap();
    assert_eq!(t(c.db_dir), r"C:\a\Tencent/xwechat");
    assert_eq!(t(c.keys_file), r"C:\base\all_keys.json");
    assert_eq!(t(c.decrypted_dir), r"C:\base\decrypted");
    assert_eq!(c.wechat_process, "Weixin.exe");
    let text = r#"{"keys_file": "C:\\keys.json", "decrypted_dir": "\\\\srv\\dec"}"#;
    let c = load_config(text, &n(r"D:\base"), Platform::Windows, &None).unwrap();
    assert_eq!(t(c.keys_file), r"C:\keys.json");
    assert_eq!(t(c.decrypted_dir), r"\\srv\dec");
    assert_eq!(t(load_config(text, &n("/b"), Platform::Linux, &None).unwrap().keys_file), r"/b/C:\keys.json");
    assert!(load_config("{", &n("/base"), Platform::Linux, &None).is_none());
    assert!(load_config("[1]", &n("/base"), Platform::Linux, &None).is_some());
    let c = config_from(&vec![], &n(""), Platform::Linux, &on("/h"), &None);
    assert_eq!(t(c.db_dir), "/h/Documents/xwechat_files");
    assert_eq!(t(c.keys_file), "all_keys.json");
}

#[test]
fn configurations_are_looked_for_in_order() {
    let l = Platform::Linux;
    let places = config_places(l, &on("/exe"), &n("/cwd"), &on("/h"));
    assert_eq!(
        places,
        vec![n("/exe/config.json"), n("/cwd/config.json"), n("/h/.wx-cli/config.json")]
    );
    assert_eq!(config_places(l, &None, &n(""), &None), vec![n("config.json")]);
    assert_eq!(config_places_here(l, &on("/exe"), &n("/cwd"))[..2], places[..2]);
    let find = |e: &[bool]| t(find_config_file(l, &places, &e.to_vec(), &on("/exe")));
    assert_eq!(find(&[false, true, true]), "/cwd/config.json");
    assert_eq!(find(&[true, true, true]), "/exe/config.json");
    assert_eq!(find(&[false, false, true]), "/h/.wx-cli/config.json");
    assert_eq!(find(&[false, false, false]), "/exe/config.json");
    assert_eq!(t(find_config_file(l, &vec![], &vec![], &None)), "config.json");
    let places = places_to_write(l, &on("/cwd"), &on("/exe"));
    assert_eq!(places, vec![n("/cwd/config.json"), n("/exe/config.json")]);
    assert_eq!(t(find_or_create_config_path(l, &places, &vec![false, true])), "/exe/config.json");
    assert_eq!(
        t(find_or_create_config_path(l, &places, &vec![false, false])),
        format!("{}/config.json", t(cli_dir()))
    );
    let write = |e: &[bool], h: &str| {
        t(find_or_create_config_path_in(l, &places, &e.to_vec(), &on(h)))
    };
    assert_eq!(write(&[false, false], "/h"), "/h/.wx-cli/config.json");
    assert_eq!(write(&[true, false], "/h"), "/cwd/config.json");
}

fn shown(places: &[Place]) -> Vec<String> {
    places
        .iter()
        .map(|p| match p {
            Place::Each(d) => format!("each {}", t(d.copied())),
            Place::Itself(d) => format!("itself {}", t(d.copied())),
            Place::Settings(d) => format!("settings {}", t(d.copied())),
        })
        .collect()
}

#[test]
fn databases_are_looked_for() {
    let (h, u, a) = (on("/root"), o("joe"), o("/a"));
    assert_eq!(
        shown(&storage_places(Platform::Linux, &h, &u, &a)),
        vec![
            "each /root/Documents/xwechat_files",
            "itself /root/.local/share/weixin/data/db_storage",
            "each /home/joe/Documents/xwechat_files",
            "itself /home/joe/.local/share/weixin/data/db_storage",
        ]
    );
    assert_eq!(storage_places(Platform::Linux, &h, &o(""), &a).len(), 2);
    assert_eq!(
        shown(&storage_places(Platform::MacOs, &h, &u, &a)),
        vec!["each /Users/joe/Library/Containers/com.tencent.xinWeChat/Data/Documents/xwechat_files"]
    );
    assert_eq!(
        shown(&storage_places(Platform::MacOs, &h, &None, &a)),
        vec!["each /root/Library/Containers/com.tencent.xinWeChat/Data/Documents/xwechat_files"]
    );
    assert_eq!(
        shown(&storage_places(Platform::Windows, &None, &None, &a)),
        vec![r"settings /a\Tencent/xwechat/config"]
    );
    assert_eq!(storage_places(Platform::Linux, &None, &u, &a).len(), 0);
    assert_eq!(storage_places(Platform::Windows, &h, &u, &None).len(), 0);
    assert_eq!(storage_places(Platform::Other, &h, &u, &a).len(), 0);
    assert_eq!(storage_places_here(Platform::Windows, &None, &a).len(), 1);
    assert_eq!(t(storage_in(Platform::Linux, &n("/x/acc"))), "/x/acc/db_storage");
    assert_eq!(t(storage_in(Platform::Windows, &n(r"D:\acc"))), r"D:\acc\db_storage");
    assert_eq!(t(accounts_in(Platform::Windows, " D:\\data \r\n")), r"D:\data\xwechat_files");
}

#[test]
fn the_directory_changed_last_is_taken() {
    let c = |p: &str, m: i128| Candidate { path: n(p), modified: m };
    let all = vec![c("a", 5), c("b", 9), c("c", 9), c("d", -1)];
    assert_eq!(auto_detect_db_dir(Platform::Linux, &all), on("c"));
    assert_eq!(auto_detect_db_dir(Platform::MacOs, &all), on("c"));
    assert_eq!(auto_detect_db_dir(Platform::Windows, &all), on("a"));
    assert_eq!(auto_detect_db_dir(Platform::Other, &all), None);
    assert_eq!(auto_detect_db_dir(Platform::Linux, &vec![]), None);
}

#[test]
fn keys_are_read_in_both_forms() {
    let text = r#"{
        "message\\message_0.db": {"enc_key": "aa"},
        "contact/contact.db": "bb",
        "_meta": "cc",
        "empty.db": "",
        "none.db": {"other": "x"},
        "number.db": 5,
        "message/message_fts.db": "dd",
        "message/message_resource.db": "ee",
        "x/message/message_1.db": "ff",
        "message/message_2.db-wal": "gg"
    }"#;
    let keys = load_keys(text).unwrap();
    assert_eq!(keys.len(), 6);
    assert_eq!(keys.get("message/message_0.db"), Some(&s("aa")));
    assert_eq!(keys.get("contact/contact.db"), Some(&s("bb")));
    assert_eq!(keys.get("_meta"), None);
    assert_eq!(
        message_db_keys(&keys),
        vec!["message/message_0.db", "x/message/message_1.db"]
    );
    assert!(load_keys("no json").is_none());
    assert_eq!(load_keys("[]").unwrap().len(), 0);
}

fn entry(key: &str, text: Option<&str>, flag: Option<bool>, inner: Option<&str>) -> JsonEntry {
    JsonEntry { key: s(key), text: text.map(s), flag, inner: inner.map(s) }
}

#[test]
fn entries_are_found_by_their_keys() {
    let all = vec![
        entry("a", Some("1"), None, None), entry("b", None, Some(true), None),
        entry("c\\d", None, None, Some("k")), entry("_e", Some("2"), None, None),
    ];
    assert_eq!(string_at(&all, "a"), o("1"));
    assert_eq!(string_at(&all, "b"), None);
    assert_eq!(string_at(&all, "z"), None);
    assert!(!has_pong(&all));
    assert!(has_pong(&vec![entry("pong", None, Some(true), None)]));
    assert!(!has_pong(&vec![entry("pong", None, Some(false), None)]));
    assert!(!has_pong(&vec![entry("pong", Some("true"), None, None)]));
    let keys = extract_keys(&all);
    assert_eq!(keys.len(), 2);
    assert_eq!(keys.get("c/d"), Some(&s("k")));
}

#[test]
fn a_pong_is_known() {
    assert!(is_pong("{\"ok\":true,\"pong\":true}\n"));
    assert!(!is_pong("{\"ok\":true,\"pong\":false}"));
    assert!(!is_pong("{\"ok\":true}"));
    assert!(!is_pong(""));
    assert!(!is_pong("true"));
}

#[test]
fn initialisation_is_checked() {
    let c = read_init_check(Platform::Linux, r#"{"db_dir": "/db", "keys_file": "k.json"}"#, &n("/base")).unwrap();
    assert_eq!((c.db_dir, t(c.keys_path)), (s("/db"), s("/base/k.json")));
    let c = read_init_check(Platform::Linux, r#"{"db_dir": "/db"}"#, &n("/base")).unwrap();
    assert_eq!(t(c.keys_path), "/base/all_keys.json");
    let c = read_init_check(Platform::Linux, r#"{"db_dir": "/db", "keys_file": "/k"}"#, &n("/base"));
    assert_eq!(c.as_ref().unwrap().keys_path, n("/k"));
    assert!(is_initialized(false, &c, true, true));
    assert!(!is_initialized(true, &c, true, true));
    assert!(!is_initialized(false, &c, false, true));
    assert!(!is_initialized(false, &c, true, false));
    assert!(!is_initialized(false, &None, true, true));
    assert!(read_init_check(Platform::Linux, r#"{"db_dir": "/x/your_wxid/db"}"#, &n("/base")).is_none());
    assert!(read_init_check(Platform::Linux, r#"{"db_dir": ""}"#, &n("/base")).is_none());
    assert!(read_init_check(Platform::Linux, "{}", &n("/base")).is_none());
    assert!(read_init_check(Platform::Linux, "?", &n("/base")).is_none());
    assert!(init_check(Platform::Linux, &vec![entry("db_dir", Some("/db"), None, None)], &n("/b")).is_some());
    let c = read_init_check(
        Platform::Windows,
        r#"{"db_dir": "D:\\db", "keys_file": "C:/k.json"}"#,
        &n(r"D:\base"),
    );
    assert_eq!(t(c.unwrap().keys_path), "C:/k.json");
    assert_eq!(initialized_lines("/db").0, "已初始化，数据目录: /db");
    assert_eq!(initialized_lines("/db").1, "如需重新扫描密钥，使用 --force");
    assert_eq!(keys_found(3), "成功提取 3 个数据库密钥");
}

#[test]
fn written_configuration_keeps_what_was_there() {
    let mut old: StrMap<i64> = StrMap::new();
    old.insert(s("db_dir"), 1);
    old.insert(s("keys_file"), 2);
    old.insert(s("other"), 3);
    let new = merge_config(old, 10, 20, 30);
    assert_eq!(new.len(), 4);
    assert_eq!(new.get("db_dir"), Some(&10));
    assert_eq!(new.get("keys_file"), Some(&2));
    assert_eq!(new.get("decrypted_dir"), Some(&30));
    assert_eq!(new.get("other"), Some(&3));
}

#[test]
fn written_configuration_keeps_the_texts_of_its_values() {
    let old = o(r#"{"db_dir": "x", "list": [1, {"a": null}], "decrypted_dir": "d\"q", "n": 5}"#);
    let new = merged_config(&old, "/数据/\"x\"");
    assert_eq!(new.len(), 5);
    assert_eq!(new.get("db_dir"), Some(&s(r#""/数据/\"x\"""#)));
    assert_eq!(new.get("keys_file"), Some(&s(r#""all_keys.json""#)));
    assert_eq!(new.get("decrypted_dir"), Some(&s(r#""d\"q""#)));
    assert_eq!(new.get("list"), Some(&s(r#"[1,{"a":null}]"#)));
    assert_eq!(new.get("n"), Some(&s("5")));
    for bad in [None, o("no json"), o("[1]")] {
        let new = merged_config(&bad, "/db");
        assert_eq!(new.len(), 3);
        assert_eq!(new.get("decrypted_dir"), Some(&s(r#""decrypted""#)));
    }
    let new = merge_texts(Some(vec![(s("a"), s("1")), (s("keys_file"), s("2"))]), s("3"));
    assert_eq!(new.len(), 4);
    assert_eq!((new.get("db_dir"), new.get("keys_file")), (Some(&s("3")), Some(&s("2"))));
}

fn seen(alive: bool, pid: Option<&str>, log: Option<&str>) -> DaemonSeen {
    DaemonSeen { alive, pid_file: pid.map(s), log: log.map(s) }
}

fn said(cmd: DaemonCommands, seen: DaemonSeen) -> Vec<String> {
    match cmd_daemon(&cmd, &seen) {
        Ok(DaemonStep::Say(l)) => l,
        Ok(DaemonStep::Stop(p)) => vec![format!("stop {}", p)],
        Ok(DaemonStep::Follow(n)) => vec![format!("follow {}", n)],
        Err(e) => vec![e.message()],
    }
}

#[test]
fn commands_to_the_daemon() {
    let status = || DaemonCommands::Status;
    assert_eq!(said(status(), seen(true, Some(" 12\n"), None)), vec!["wx-daemon 运行中 (PID 12)"]);
    assert_eq!(said(status(), seen(true, None, None)), vec!["wx-daemon 运行中 (PID ?)"]);
    assert_eq!(said(status(), seen(false, Some("12"), None)), vec!["wx-daemon 未运行"]);
    let stop = || DaemonCommands::Stop;
    assert_eq!(said(stop(), seen(true, None, None)), vec!["daemon 未运行"]);
    assert_eq!(said(stop(), seen(false, Some("12\n"), None)), vec!["stop 12"]);
    assert_eq!(said(stop(), seen(false, Some("-1"), None)), vec!["PID 文件格式错误"]);
    assert_eq!(said(stop(), seen(false, Some("4294967296"), None)), vec!["PID 文件格式错误"]);
    let logs = |follow: bool, lines: usize| DaemonCommands::Logs { follow, lines };
    assert_eq!(said(logs(true, 5), seen(true, None, None)), vec!["暂无日志"]);
    assert_eq!(said(logs(true, 5), seen(true, None, Some("a"))), vec!["follow 5"]);
    assert_eq!(said(logs(false, 2), seen(true, None, Some("a\nb\r\nc\n"))), vec!["b", "c"]);
    assert_eq!(log_tail("a\nb", 9), vec!["a", "b"]);
    assert_eq!(log_tail("a\nb", 0), Vec::<String>::new());
    assert_eq!(stop_line(7, &StopOutcome::Told).unwrap(), "已停止 wx-daemon (PID 7)");
    assert_eq!(
        stop_line(7, &StopOutcome::Gone).unwrap(),
        "wx-daemon (PID 7) 已不在运行，清理残留文件"
    );
    assert_eq!(
        stop_line(7, &StopOutcome::Failed(1)).unwrap_err().message(),
        "发送 SIGTERM 失败 (errno 1)"
    );
}

#[test]
fn a_daemon_has_fifteen_seconds_to_begin() {
    assert_eq!(startup_step(0, false), StartupStep::Wait);
    assert_eq!(startup_step(14_999, false), StartupStep::Wait);
    assert_eq!(startup_step(15_000, false), StartupStep::GiveUp);
    assert_eq!(startup_step(15_000, true), StartupStep::Ready);
    assert_eq!(startup_failure("/l"), "wx-daemon 启动超时（>15s）\n请查看日志: /l");
}

#[test]
fn answers_say_whether_they_are_any() {
    let r = Response::ok(Payload::Pong);
    assert!(r.ok && r.error.is_none() && matches!(r.data, Payload::Pong));
    let r = Response::err(s("no"));
    assert!(!r.ok && matches!(r.data, Payload::Nothing));
    assert_eq!(r.error, o("no"));
    assert!(Response::of(Ok(Payload::Pong)).ok);
    assert_eq!(Response::of(Err(s("x"))).error, o("x"));
    assert_eq!(unreadable("eof").error, o("JSON 解析错误: eof"));
    assert_eq!(check_answer(true, o("x")), Ok(()));
    assert_eq!(check_answer(false, o("x")), Err(s("x")));
    assert_eq!(check_answer(false, None), Err(s("未知错误")));
    assert_eq!(json_line("{}"), "{}\n");
    assert_eq!((default_limit_20(), default_limit_50()), (20, 50));
    let c = WatchEvent::connected();
    assert_eq!(c.event, "connected");
    assert!(c.time.is_none() && c.chat.is_none() && c.timestamp.is_none());
    assert_eq!(WatchEvent::heartbeat().event, "heartbeat");
}

fn names() -> Names {
    load_names(&vec![ContactRow {
        username: s("wxid_a"),
        nick_name: s("Alice"),
        remark: String::new(),
        verify_flag: 0,
    }])
}

fn row(username: &str, ts: i64, sender: &str, summary: &str) -> WatchRow {
    WatchRow {
        username: s(username),
        summary: summary.as_bytes().to_vec(),
        last_timestamp: ts,
        last_msg_type: 1,
        sender: s(sender),
    }
}

#[test]
fn a_watcher_wakes_when_the_log_was_written() {
    let mut w = Watcher::new();
    assert!(!w.wakes(0, 5));
    assert!(!w.wakes(1, 0));
    assert!(w.wakes(1, 5));
    assert!(!w.wakes(1, 5));
    assert!(w.wakes(1, 4));
    assert_eq!(w.last_mtime, 4);
}

#[test]
fn a_watcher_tells_only_what_is_new() {
    let n = names();
    let mut w = Watcher::new();
    let first = vec![row("wxid_a", 10, "", "x"), row("g@chatroom", 20, "wxid_a", "y")];
    assert_eq!(w.read(&first, &n).len(), 0);
    assert!(w.initialized);
    assert_eq!(w.read(&first, &n).len(), 0);
    let next = vec![
        row("g@chatroom", 21, "wxid_a", "wxid_a:\nhello"), row("wxid_a", 10, "", "x"),
        row("new", 1, "", "z"),
    ];
    let events = w.read(&next, &n);
    assert_eq!(events.len(), 2);
    let e = &events[0];
    assert_eq!(e.event, "message");
    assert_eq!(e.chat, o("g@chatroom"));
    assert_eq!(e.is_group, Some(true));
    assert_eq!(e.sender, o("Alice"));
    assert_eq!(e.content, o("hello"));
    assert_eq!(e.msg_type, o("文本"));
    assert_eq!(e.timestamp, Some(21));
    assert_eq!(e.time.as_ref().unwrap().len(), 5);
    assert_eq!(events[1].username, o("new"));
    assert_eq!(events[1].sender, o(""));
    assert_eq!(w.read(&next, &n).len(), 0);
}

#[test]
fn lists_are_rendered() {
    assert_eq!(history_header("C", true, 2), "=== C [群]  (2 条) ===\n");
    assert_eq!(history_header("C", false, 0), "=== C  (0 条) ===\n");
    assert_eq!(history_line("t", "s", "c"), "\x1b[90m[t]\x1b[0m \x1b[33ms\x1b[0m: c");
    assert_eq!(history_line("t", "", "c"), "\x1b[90m[t]\x1b[0m c");
    assert_eq!(search_header("k", 3), "搜索 \"k\"，找到 3 条:\n");
    assert_eq!(
        search_line("t", "C", "s", "c"),
        "\x1b[90m[t]\x1b[0m \x1b[36m[C]\x1b[0m \x1b[33ms\x1b[0m: c"
    );
    assert_eq!(search_line("t", "", "", "c"), "\x1b[90m[t]\x1b[0m c");
    assert_eq!(
        session_line("t", "C", true, 4),
        "\x1b[90m[t]\x1b[0m \x1b[1mC\x1b[0m [群] \x1b[31m(4未读)\x1b[0m"
    );
    assert_eq!(session_line("t", "C", false, 0), "\x1b[90m[t]\x1b[0m \x1b[1mC\x1b[0m");
    assert_eq!(summary_line("文本", "s", "x"), "  文本: s: x");
    assert_eq!(summary_line("文本", "", "x"), "  文本: x");
    assert_eq!(contacts_header(9, 2), "共 9 个联系人（显示 2 个）:\n");
    for d in ["", "abc", "中文名字", "exactly twenty chars", "more than twenty characters"] {
        assert_eq!(pad(d, 20), format!("{:<20}", d));
        assert_eq!(contact_line(d, "u"), format!("  {:<20} {}", d, "u"));
    }
}

fn watched(event: &str, is_group: bool, sender: &str) -> WatchedLine {
    WatchedLine {
        event: s(event),
        time: s("t"),
        chat: s("C"),
        username: s("u"),
        is_group,
        sender: s(sender),
        content: s("x"),
    }
}

#[test]
fn events_are_rendered_or_passed_over() {
    let e = watched("message", true, "s");
    assert_eq!(
        watch_line("{}", &e, &None, false),
        o("\x1b[90m[t]\x1b[0m \x1b[36m[C]\x1b[0m \x1b[33ms\x1b[0m: x")
    );
    assert_eq!(
        watch_line("{}", &watched("message", false, ""), &o("C"), false),
        o("\x1b[90m[t]\x1b[0m \x1b[1mC\x1b[0m x")
    );
    assert_eq!(watch_line("{}", &e, &o("u"), true), o("{}"));
    assert_eq!(watch_line("{}", &e, &o("other"), true), None);
    assert_eq!(watch_line("{}", &watched("connected", true, ""), &None, true), None);
    assert_eq!(watch_line("{}", &watched("heartbeat", true, ""), &None, false), None);
}

#[test]
fn watched_lines_are_read_from_json() {
    let line = r#"{"event":"message","time":"08:00","chat":"C","username":"u","is_group":true,"sender":"s","content":"x"}"#;
    let want = "\x1b[90m[08:00]\x1b[0m \x1b[36m[C]\x1b[0m \x1b[33ms\x1b[0m: x";
    assert_eq!(cmd_watch(&format!("  {}\r\n", line), &None, false), o(want));
    assert_eq!(cmd_watch(&format!("  {}\r\n", line), &o("u"), true), o(line));
    assert_eq!(cmd_watch(line, &o("v"), false), None);
    assert_eq!(cmd_watch("", &None, true), None);
    assert_eq!(cmd_watch("{", &None, true), None);
    assert_eq!(cmd_watch(r#"{"event":"heartbeat"}"#, &None, true), None);
    // A field of another type counts as empty.
    let odd = r#"{"event":"message","time":5,"chat":"C","is_group":"yes"}"#;
    assert_eq!(cmd_watch(odd, &None, false), o("\x1b[90m[]\x1b[0m \x1b[1mC\x1b[0m "));
    assert!(read_watched("?").is_none());
    assert_eq!(read_watched("5").unwrap().event, "");
    assert!(watched_from(&vec![entry("is_group", None, Some(true), None)]).is_group);
}
