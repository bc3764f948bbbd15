use wx_cli::json::load_keys;
use wx_cli::config::{
    cache_dir_in, cli_dir_in, config_places, find_config_file, log_path_in, pid_path_in, sock_path_in,
    Platform,
};
use wx_cli::messages::{chat_of, history_cap, load_id2u, q_history, MessageRow, TableRows};
use wx_cli::names::{load_names, msg_table_name, resolve_username, ContactRow, Names};
use wx_cli::new_messages::{per_table_limit, q_new_messages, ChangedRows, SessionTime};
use wx_cli::order::sort_by_keys;
use wx_cli::paths::{join_on, NativePath};
use wx_cli::search::{db_targets, q_search, search_table_limit, FoundRows};
use wx_cli::sessions::{normalize_filter, q_unread, SessionRow};
use wx_cli::tally::{rank, Tally};

fn names() -> Names {
    load_names(&vec![ContactRow {
        username: "u".to_string(),
        nick_name: "U".to_string(),
        remark: String::new(),
        verify_flag: 0,
    }])
}

fn message(time: i64) -> MessageRow {
    MessageRow {
        local_id: time,
        local_type: 1,
        create_time: time,
        real_sender_id: 0,
        content: format!("m{}", time).into_bytes(),
        ct: 0,
    }
}

fn table(times: &[i64]) -> TableRows {
    TableRows { rows: times.iter().map(|t| message(*t)).collect(), id2u: load_id2u(vec![]) }
}

#[test]
fn hits_beyond_the_table_limit_are_not_missed() {
    let n = names();
    let target = db_targets("/p", &vec![msg_table_name("u")], &n);
    let full: Vec<Vec<i64>> = vec![vec![90, 80, 70, 60, 50], vec![85, 75, 65, 55, 45]];
    let run = |cap: usize| {
        let found: Vec<FoundRows> = full
            .iter()
            .map(|t| FoundRows {
                target: target[0].copy(),
                table: table(&t[..cap.min(t.len())]),
            })
            .collect();
        let r = q_search(&n, "m", &found, 1);
        r.results.iter().map(|h| h.message.timestamp).collect::<Vec<_>>()
    };
    assert_eq!(search_table_limit(1), 3);
    assert_eq!(run(3), run(5));
    assert_eq!(run(3), vec![90]);
}

#[test]
fn new_messages_beyond_the_table_limit_come_later() {
    let n = names();
    let all: Vec<i64> = (1..=300).collect();
    let run = |cap: usize| {
        let fetched =
            vec![ChangedRows { username: "u".to_string(), table: table(&all[..cap.min(300)]) }];
        let sessions = vec![SessionTime { username: "u".to_string(), last: 300 }];
        let r = q_new_messages(&n, &sessions, &vec![], &fetched, 7);
        r.messages.iter().map(|m| m.message.timestamp).collect::<Vec<_>>()
    };
    assert_eq!(run(per_table_limit(7)), run(300));
    assert_eq!(run(300), vec![1, 2, 3, 4, 5, 6, 7]);
}

#[test]
fn rankings_lose_nothing() {
    let all: Vec<Tally> = ["a", "b", "a", "c", "b", "a"]
        .iter()
        .enumerate()
        .map(|(i, n)| Tally { name: n.to_string(), count: i as i64 })
        .collect();
    let r = rank(&all);
    assert_eq!(r.iter().map(|t| t.count).sum::<i64>(), 15);
    assert!(r.windows(2).all(|w| w[0].count >= w[1].count));
    assert_eq!(r.len(), 3);
}

#[test]
fn sorting_moves_elements_only() {
    let keys = vec![2, 1, 2, 3, 1];
    let mut got = sort_by_keys(vec!['a', 'b', 'a', 'c', 'd'], &keys);
    assert_eq!(got, vec!['b', 'd', 'a', 'a', 'c']);
    got.sort();
    assert_eq!(got, vec!['a', 'a', 'b', 'c', 'd']);
}

fn session(username: &str) -> SessionRow {
    SessionRow {
        username: username.to_string(),
        unread: 1,
        summary: Vec::new(),
        last_timestamp: 5,
        last_msg_type: 1,
        sender: String::new(),
        sender_name: String::new(),
    }
}

#[test]
fn unknown_words_change_no_filter() {
    let words = |w: &[&str]| w.iter().map(|x| x.to_string()).collect::<Vec<_>>();
    let n = names();
    let rows = vec![session("a"), session("g@chatroom"), session("gh_x")];
    for known in ["private", "group", "official", "folded"] {
        let a = normalize_filter(Some(&words(&[known])));
        let b = normalize_filter(Some(&words(&["typo", known, "??"])));
        assert_eq!(q_unread(&rows, &n, 9, &a).total, q_unread(&rows, &n, 9, &b).total);
        assert_eq!(b.is_some(), a.is_some());
    }
}

#[test]
fn without_a_filter_the_first_rows_are_enough() {
    let n = names();
    let rows = vec![session("a"), session("b"), session("c")];
    let cut = vec![session("a"), session("b")];
    let name = |l: wx_cli::sessions::UnreadList| {
        l.sessions.into_iter().map(|s| s.chat.username).collect::<Vec<_>>()
    };
    assert_eq!(name(q_unread(&rows, &n, 2, &None)), name(q_unread(&cut, &n, 2, &None)));
}

#[test]
fn both_forms_of_keys_give_the_same() {
    let a = load_keys(r#"{"a\\b.db": "k"}"#).unwrap();
    let b = load_keys(r#"{"a\\b.db": {"enc_key": "k"}}"#).unwrap();
    assert_eq!(a.get("a/b.db"), b.get("a/b.db"));
    assert_eq!(a.get("a/b.db"), Some(&"k".to_string()));
    assert_eq!(a.get("a\\b.db"), None);
}

#[test]
fn configuration_written_at_home_is_found() {
    for platform in [Platform::Linux, Platform::Windows] {
        let exe = Some(NativePath::of_text("/exe"));
        let home = Some(NativePath::of_text("/h"));
        let places = config_places(platform, &exe, &NativePath::of_text("/cwd"), &home);
        let found = find_config_file(platform, &places, &vec![false, false, true], &exe);
        assert_eq!(found, join_on(platform, &cli_dir_in(platform, &home), "config.json"));
    }
}

#[test]
fn a_name_means_one_chat() {
    let n = names();
    assert_eq!(resolve_username("u", &n), resolve_username("u", &n));
    assert_eq!(resolve_username("U", &n), Some("u".to_string()));
}

#[test]
fn two_pages_in_a_row_are_one_longer_page() {
    let n = names();
    let full: Vec<Vec<i64>> = vec![vec![90, 70, 50, 30], vec![80, 75, 20]];
    let page = |offset: usize, limit: usize| {
        let cap = history_cap(offset, limit);
        let tables: Vec<TableRows> = full.iter().map(|t| table(&t[..cap.min(t.len())])).collect();
        let h = q_history(&n, chat_of(&n, "u"), &tables, offset, limit).unwrap();
        h.messages.iter().map(|m| m.timestamp).collect::<Vec<_>>()
    };
    for a in 0..9 {
        for b in 0..9 {
            let mut joined = page(a, b);
            joined.append(&mut page(0, a));
            assert_eq!(page(0, a + b), joined, "{} {}", a, b);
        }
    }
    assert_eq!(page(0, 3), vec![75, 80, 90]);
}

#[test]
fn own_paths_of_one_home_differ() {
    let text = |t: &str| Some(NativePath::of_text(t));
    let odd = Some(NativePath { bytes: vec![b'/', 0xff, b'h'] });
    for platform in [Platform::MacOs, Platform::Windows] {
        for home in [None, text("/h"), text("/"), text(""), text("C:"), odd.clone()] {
            let paths = [
                sock_path_in(platform, &home), pid_path_in(platform, &home),
                log_path_in(platform, &home), cache_dir_in(platform, &home),
            ];
            let dir = cli_dir_in(platform, &home).bytes;
            let separator = if platform == Platform::Windows { b'\\' } else { b'/' };
            for (i, a) in paths.iter().enumerate() {
                for b in &paths[i + 1..] {
                    assert_ne!(a, b);
                }
                assert_eq!(a.bytes[..dir.len()], dir[..]);
                assert_eq!(a.bytes[dir.len()], separator);
            }
        }
    }
}

#[test]
fn texts_spell_their_own_paths() {
    assert_eq!(NativePath::of_text("a/B.1").bytes, vec![0x61, 0x2f, 0x42, 0x2e, 0x31]);
    assert_eq!(NativePath::of_text("é").bytes, vec![0xc3, 0xa9]);
    assert_ne!(NativePath::of_text("é"), NativePath::of_text("e"));
}

#[test]
fn going_down_keeps_what_stands_before() {
    for platform in [Platform::Linux, Platform::Windows] {
        for base in ["/a", "/a/", "", "C:", "a b"] {
            let r = join_on(platform, &NativePath::of_text(base), "c/d").bytes;
            assert!(r.starts_with(base.as_bytes()) && r.ends_with(b"c/d"));
        }
    }
    let base = NativePath::of_text("/a");
    assert_eq!(join_on(Platform::Linux, &base, "/b"), NativePath::of_text("/b"));
    assert_eq!(join_on(Platform::Windows, &base, r"C:\b"), NativePath::of_text(r"C:\b"));
}
