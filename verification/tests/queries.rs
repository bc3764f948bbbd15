use chrono::{Local, TimeZone, Timelike};
use std::collections::HashMap;
use wx_cli::contacts::{either_holds, q_contacts};
use wx_cli::favorites::{preview_of, q_favorites, to_seconds, FavoriteRow};
use wx_cli::members::{
    find_group, member_roster, members_from_senders, q_members, table_senders, MemberRow, Room,
};
use wx_cli::messages::{
    chat_of, find_chat, history_cap, load_id2u, q_history, take_window, MessageRow, QueryError,
    TableRows,
};
use wx_cli::names::{
    are_msg_tables, chat_type_of, digest_text, hex_text, load_names, lower_names, msg_table_name,
    resolve_among, resolve_username, ContactRow, Names,
};
use wx_cli::new_messages::{
    changed_sessions, fallback_time, per_table_limit, q_new_messages, ChangedRows, SessionTime,
};
use wx_cli::notices::{feed_ids, q_sns_notifications, NoticeRow};
use wx_cli::paths::NativePath;
use wx_cli::posts::PostRow;
use wx_cli::search::{
    chat_targets, chats_to_search, db_targets, find_msg_tables, group_by_path, q_search,
    search_table_limit, FoundRows, FoundTable,
};
use wx_cli::sessions::{narrow, normalize_filter, q_sessions, q_unread, SessionRow};
use wx_cli::stats::{can_count, count_hours, q_stats, stats_from, TableCounts};
use wx_cli::strmap::StrMap;
use wx_cli::tally::{rank, Tally};

fn s(t: &str) -> String {
    t.to_string()
}

fn contact(username: &str, nick: &str, remark: &str, flag: i64) -> ContactRow {
    ContactRow { username: s(username), nick_name: s(nick), remark: s(remark), verify_flag: flag }
}

fn names() -> Names {
    load_names(&vec![
        contact("wxid_a", "Al", "Alice", 0),
        contact("wxid_b", "Bob", "", 0),
        contact("wxid_c", "", "", 0),
        contact("team@chatroom", "Team", "", 0),
        contact("gh_news", "News", "", 0),
        contact("biz_x", "Biz", "", 0),
        contact("svc", "Service", "", 8),
        contact("zed", "bob", "", 0),
        contact("long", "Bobby Tables", "", 0),
        contact("mid", "Bobby", "", 0),
    ])
}

#[test]
fn display_names_prefer_the_remark() {
    let n = names();
    assert_eq!(n.display("wxid_a"), "Alice");
    assert_eq!(n.display("wxid_b"), "Bob");
    assert_eq!(n.display("wxid_c"), "wxid_c");
    assert_eq!(n.display("nobody"), "nobody");
    assert!(n.is_verified("svc"));
    assert!(!n.is_verified("wxid_a"));
    assert!(!n.is_verified("nobody"));
    assert_eq!(n.map.len(), 10);
    assert_eq!(n.md5_to_uname.get(&digest_text("wxid_a")), Some(&s("wxid_a")));
}

#[test]
fn a_later_row_for_one_user_counts() {
    let n = load_names(&vec![contact("u", "one", "", 1), contact("u", "two", "", 0)]);
    assert_eq!(n.display("u"), "two");
    assert!(!n.is_verified("u"));
}

#[test]
fn chats_have_types() {
    let n = names();
    for (u, t) in [
        ("team@chatroom", "group"), ("x@chatroom", "group"), ("brandsessionholder", "folded"),
        ("@placeholder_foldgroup", "folded"), ("svc", "official_account"),
        ("gh_news", "official_account"), ("biz_x", "official_account"),
        ("@opencustomerservicemsg", "official_account"), ("wxid_a", "private"), ("", "private"),
    ] {
        assert_eq!(chat_type_of(u, &n), t, "{}", u);
        assert_eq!(chat_of(&n, u).is_group, t == "group");
    }
}

#[test]
fn digests_are_md5_in_hexadecimal() {
    assert_eq!(digest_text(""), "d41d8cd98f00b204e9800998ecf8427e");
    assert_eq!(digest_text("abc"), "900150983cd24fb0d6963f7d28e17f72");
    assert_eq!(msg_table_name("abc"), "Msg_900150983cd24fb0d6963f7d28e17f72");
    let mut bytes = [0u8; 16];
    bytes[0] = 0x0f;
    bytes[15] = 0xa9;
    assert_eq!(hex_text(&bytes), "0f0000000000000000000000000000a9");
}

#[test]
fn message_tables_are_told_by_their_names() {
    let good = msg_table_name("x");
    let tables = vec![
        good.clone(), s("Msg_"), s("Msg_900150983CD24FB0D6963F7D28E17F72"), format!("{}0", good),
        format!("x{}", good), format!("{}\n", good),
    ];
    assert_eq!(are_msg_tables(&tables), vec![true, false, false, false, false, false]);
    assert_eq!(are_msg_tables(&vec![]), Vec::<bool>::new());
}

#[test]
fn names_mean_chats() {
    let n = names();
    assert_eq!(resolve_username("wxid_a", &n), Some(s("wxid_a")));
    assert_eq!(resolve_username("wxid_unknown", &n), Some(s("wxid_unknown")));
    assert_eq!(resolve_username("q@chatroom", &n), Some(s("q@chatroom")));
    assert_eq!(resolve_username("ALICE", &n), Some(s("wxid_a")));
    // Two display names are the same but for their case: the first user name counts.
    assert_eq!(resolve_username("BOB", &n), Some(s("wxid_b")));
    // The shortest display name that holds the text counts.
    assert_eq!(resolve_username("obb", &n), Some(s("mid")));
    assert_eq!(resolve_username("tab", &n), Some(s("long")));
    assert_eq!(resolve_username("nobody", &n), None);
}

#[test]
fn equally_short_names_are_told_by_the_user_name() {
    let mut map: StrMap<String> = StrMap::new();
    map.insert(s("u2"), s("xAy"));
    map.insert(s("u1"), s("yAx"));
    map.insert(s("u0"), s("long A name"));
    let lows = lower_names(&map);
    assert_eq!(lows.get("u2"), Some(&s("xay")));
    assert_eq!(resolve_among(&map, &lows, "a"), Some(s("u1")));
    assert_eq!(resolve_among(&map, &lows, "xay"), Some(s("u2")));
    assert_eq!(resolve_among(&map, &lows, "A"), None);
}

#[test]
fn chats_are_found_or_reported() {
    let n = names();
    assert_eq!(find_chat(&n, "Alice").map(|c| c.display).unwrap(), "Alice");
    match find_chat(&n, "nobody") {
        Err(e) => assert_eq!(e.message(), "找不到联系人: nobody"),
        Ok(_) => panic!(),
    }
    assert_eq!(find_group(&n, "team").map(|c| c.username).unwrap(), "team@chatroom");
    match find_group(&n, "alice") {
        Err(e) => assert_eq!(e.message(), "'Alice' 不是群聊，无法查看群成员"),
        Ok(_) => panic!(),
    }
    assert!(matches!(find_group(&n, "nobody"), Err(QueryError::UnknownContact(_))));
    assert_eq!(QueryError::NoSessions.message(), "无法解密 session.db");
    assert_eq!(QueryError::NoPosts.message(), "无法解密 sns.db");
    assert_eq!(QueryError::NoFavorites.message(), "找不到 favorite.db，请确认微信数据目录");
    assert_eq!(QueryError::NoMessages(s("A")).message(), "找不到 A 的消息记录");
}

#[test]
fn contacts_are_sorted_and_public_accounts_left_out() {
    let n = names();
    let all = q_contacts(&n, None, 100);
    assert_eq!(all.total, 8);
    let shown: Vec<&str> = all.contacts.iter().map(|c| c.display.as_str()).collect();
    assert_eq!(
        shown,
        vec!["Alice", "Bob", "Bobby", "Bobby Tables", "Service", "Team", "bob", "wxid_c"]
    );
    let some = q_contacts(&n, Some("BOB"), 2);
    assert_eq!(some.total, 4);
    assert_eq!(some.contacts.len(), 2);
    assert_eq!(some.contacts[0].username, "wxid_b");
    assert_eq!(q_contacts(&n, Some("WXID_"), 9).total, 3);
    assert!(either_holds("abc", "x", "bc"));
    assert!(either_holds("x", "abc", "bc"));
    assert!(!either_holds("x", "ABC", "bc"));
}

fn message(id: i64, time: i64, sender: i64, text: &str) -> MessageRow {
    MessageRow {
        local_id: id,
        local_type: 1,
        create_time: time,
        real_sender_id: sender,
        content: text.as_bytes().to_vec(),
        ct: 0,
    }
}

fn table(rows: Vec<MessageRow>) -> TableRows {
    TableRows { rows, id2u: load_id2u(vec![(1, s("old")), (1, s("wxid_b")), (2, s("wxid_a"))]) }
}

#[test]
fn history_pages_count_from_the_newest() {
    let n = names();
    let tables = vec![
        table(vec![message(5, 50, 1, "e"), message(3, 30, 1, "c"), message(1, 10, 1, "a")]),
        table(vec![message(4, 40, 2, "d"), message(2, 30, 2, "b")]),
    ];
    let h = q_history(&n, chat_of(&n, "wxid_a"), &tables, 0, 3).unwrap();
    let got: Vec<(i64, &str)> =
        h.messages.iter().map(|m| (m.timestamp, m.content.as_str())).collect();
    assert_eq!(got, vec![(30, "c"), (40, "d"), (50, "e")]);
    assert_eq!(h.count, 3);
    assert_eq!(h.messages[0].sender, "Bob");
    assert_eq!(h.messages[1].sender, "");
    assert_eq!(h.messages[0].kind, "文本");
    let h = q_history(&n, chat_of(&n, "wxid_a"), &tables, 2, 2).unwrap();
    let got: Vec<&str> = h.messages.iter().map(|m| m.content.as_str()).collect();
    assert_eq!(got, vec!["c", "b"]);
    let h = q_history(&n, chat_of(&n, "wxid_a"), &tables, 9, 2).unwrap();
    assert_eq!(h.count, 0);
    match q_history(&n, chat_of(&n, "wxid_a"), &vec![], 0, 3) {
        Err(e) => assert_eq!(e.message(), "找不到 Alice 的消息记录"),
        Ok(_) => panic!(),
    }
}

#[test]
fn a_capped_table_gives_the_same_page() {
    let n = names();
    let full = || {
        vec![
            vec![message(9, 90, 1, "i"), message(8, 80, 1, "h"), message(7, 70, 1, "g")],
            vec![message(6, 85, 1, "f"), message(5, 60, 1, "e"), message(4, 50, 1, "d")],
        ]
    };
    let cap = history_cap(1, 1);
    assert_eq!(cap, 2);
    let whole: Vec<TableRows> = full().into_iter().map(table).collect();
    let cut: Vec<TableRows> =
        full().into_iter().map(|r| table(r.into_iter().take(cap).collect())).collect();
    let a = q_history(&n, chat_of(&n, "wxid_a"), &whole, 1, 1).unwrap();
    let b = q_history(&n, chat_of(&n, "wxid_a"), &cut, 1, 1).unwrap();
    assert_eq!(a.messages[0].content, "f");
    assert_eq!(b.messages[0].content, "f");
    assert_eq!(a.count, b.count);
}

#[test]
fn windows_of_a_row() {
    assert_eq!(take_window(vec![1, 2, 3], 1, 1), vec![2]);
    assert_eq!(take_window(vec![1, 2, 3], 1, 9), vec![2, 3]);
    assert_eq!(take_window(vec![1, 2, 3], 3, 9), Vec::<i32>::new());
    assert_eq!(take_window(vec![1, 2, 3], usize::MAX, usize::MAX), Vec::<i32>::new());
    assert_eq!(take_window(vec![1, 2, 3], 0, 0), Vec::<i32>::new());
}

#[test]
fn chats_without_a_meaning_are_not_searched() {
    let n = names();
    let chats = vec![s("alice"), s("nobody"), s("Team"), s("wxid_x"), s("alice")];
    assert_eq!(
        chats_to_search(&chats, &n),
        vec!["wxid_a", "team@chatroom", "wxid_x", "wxid_a"]
    );
    assert_eq!(chats_to_search(&vec![], &n), Vec::<String>::new());
}

#[test]
fn search_targets_are_grouped_by_database() {
    let n = names();
    let mine = msg_table_name("wxid_a");
    let other = msg_table_name("stranger");
    let mut all = db_targets("/p2", &vec![mine.clone(), s("Msg_bad"), other.clone()], &n);
    assert_eq!(all.len(), 2);
    assert_eq!((all[0].username.as_str(), all[0].display.as_str()), ("wxid_a", "Alice"));
    assert_eq!((all[1].username.as_str(), all[1].display.as_str()), ("", ""));
    let mut more = chat_targets(&vec![(s("/p1"), mine.clone())], "wxid_b", &n);
    assert_eq!(more[0].display, "Bob");
    all.append(&mut more);
    let groups = group_by_path(&all);
    assert_eq!(groups.len(), 2);
    assert_eq!((groups[0].path.as_str(), groups[0].targets.len()), ("/p1", 1));
    assert_eq!((groups[1].path.as_str(), groups[1].targets.len()), ("/p2", 2));
    assert_eq!(groups[1].targets[1].table, other);
}

#[test]
fn search_lists_the_newest_hits() {
    let n = names();
    let targets = db_targets("/p", &vec![msg_table_name("team@chatroom"), msg_table_name("?")], &n);
    let mut found: Vec<FoundRows> = Vec::new();
    for (i, t) in targets.iter().enumerate() {
        found.push(FoundRows {
            target: t.copy(),
            table: table(vec![message(1, 10 + i as i64, 2, "wxid_z:\nx"), message(2, 5, 1, "y")]),
        });
    }
    let r = q_search(&n, "k", &found, 3);
    assert_eq!(r.keyword, "k");
    assert_eq!(r.count, 3);
    assert_eq!(r.results[0].chat, msg_table_name("?"));
    assert_eq!(r.results[0].message.content, "wxid_z:\nx");
    assert_eq!(r.results[1].chat, "Team");
    assert_eq!(r.results[1].message.content, "x");
    assert_eq!(r.results[1].message.sender, "Alice");
    assert_eq!(r.results[2].chat, "Team");
    assert_eq!(search_table_limit(7), 21);
}

#[test]
fn tables_with_newer_messages_come_first() {
    let found = vec![
        FoundTable { newest: 1, path: NativePath::of_text("a") },
        FoundTable { newest: 3, path: NativePath::of_text("b") },
        FoundTable { newest: 3, path: NativePath::of_text("c") },
    ];
    let got: Vec<NativePath> = find_msg_tables(found).into_iter().map(|t| t.path).collect();
    let want: Vec<NativePath> = ["b", "c", "a"].iter().map(|p| NativePath::of_text(p)).collect();
    assert_eq!(got, want);
}

fn session(username: &str, summary: &str, sender: &str, sender_name: &str) -> SessionRow {
    SessionRow {
        username: s(username),
        unread: 2,
        summary: summary.as_bytes().to_vec(),
        last_timestamp: 1_700_000_000,
        last_msg_type: 1,
        sender: s(sender),
        sender_name: s(sender_name),
    }
}

#[test]
fn sessions_show_the_last_message() {
    let n = names();
    let list = q_sessions(
        &vec![
            session("team@chatroom", "wxid_b:\nhi", "wxid_b", "B"),
            session("team@chatroom", "hi", "stranger", "Str"),
            session("team@chatroom", "hi", "stranger", ""),
            session("wxid_a", "hi", "wxid_b", "B"),
        ],
        &n,
    );
    let senders: Vec<&str> = list.iter().map(|e| e.last_sender.as_str()).collect();
    assert_eq!(senders, vec!["Bob", "Str", "stranger", ""]);
    assert_eq!(list[0].summary, "hi");
    assert_eq!(list[0].chat.display, "Team");
    assert_eq!(list[0].unread, 2);
    assert_eq!(list[0].last_msg_type, "文本");
}

#[test]
fn unread_chats_are_filtered_by_type() {
    let n = names();
    let rows = vec![
        session("gh_news", "1", "", ""),
        session("wxid_a", "2", "", ""),
        session("team@chatroom", "3", "", ""),
        session("wxid_b", "4", "", ""),
        session("brandsessionholder", "5", "", ""),
    ];
    let filter = |w: &[&str]| normalize_filter(Some(&w.iter().map(|x| s(x)).collect()));
    let all = q_unread(&rows, &n, 3, &None);
    assert_eq!(all.total, 3);
    let private = q_unread(&rows, &n, 9, &filter(&[" Private "]));
    let got: Vec<&str> = private.sessions.iter().map(|e| e.chat.username.as_str()).collect();
    assert_eq!(got, vec!["wxid_a", "wxid_b"]);
    assert_eq!(q_unread(&rows, &n, 1, &filter(&["private"])).total, 1);
    assert_eq!(q_unread(&rows, &n, 9, &filter(&["official", "FOLD"])).total, 2);
    assert_eq!(q_unread(&rows, &n, 9, &filter(&["group", "typo"])).total, 1);
    assert!(filter(&["typo"]).is_none());
    assert!(filter(&[]).is_none());
    assert!(filter(&["group", "all"]).is_none());
    assert!(filter(&["group", "  "]).is_none());
    assert!(normalize_filter(None).is_none());
    assert!(narrow(&vec![s("GROUP")]).is_none());
    assert!(narrow(&vec![s("group")]).unwrap().contains("group"));
}

#[test]
fn the_owner_of_a_group_comes_first() {
    let n = names();
    let row = |u: &str, nick: &str, remark: &str| MemberRow {
        username: s(u),
        nick_name: s(nick),
        remark: s(remark),
    };
    let rows = vec![
        row("u1", "zoe", ""), row("", "ghost", ""), row("wxid_a", "", ""), row("u3", "m", "Max"),
    ];
    let room = Some(Room { id: 7, owner: s("u1") });
    let list = member_roster(true, &room, &rows, &n.map).unwrap();
    let got: Vec<(&str, bool)> = list.iter().map(|m| (m.display.as_str(), m.is_owner)).collect();
    assert_eq!(got, vec![("zoe", true), ("Alice", false), ("Max", false)]);
    assert!(member_roster(false, &room, &rows, &n.map).is_none());
    assert!(member_roster(true, &None, &rows, &n.map).is_none());
    assert!(member_roster(true, &Some(Room { id: 0, owner: s("u1") }), &rows, &n.map).is_none());
    assert!(member_roster(true, &room, &vec![row("", "ghost", "")], &n.map).is_none());
    let group = q_members(chat_of(&n, "team@chatroom"), Some(list), &vec![s("x")], &n.map);
    assert_eq!(group.count, 3);
}

#[test]
fn members_can_be_told_by_their_messages() {
    let n = names();
    let id2u: HashMap<i64, String> =
        [(1, s("wxid_b")), (2, s("team@chatroom")), (3, s("wxid_a"))].into();
    let senders = table_senders(&vec![3, 2, 9, 1, 3], &id2u, "team@chatroom");
    assert_eq!(senders, vec!["wxid_a", "wxid_b", "wxid_a"]);
    let members = members_from_senders(&senders, &n.map);
    let got: Vec<&str> = members.iter().map(|m| m.display.as_str()).collect();
    assert_eq!(got, vec!["Alice", "Bob"]);
    let group = q_members(chat_of(&n, "team@chatroom"), None, &senders, &n.map);
    assert_eq!(group.count, 2);
    assert!(group.members.iter().all(|m| !m.is_owner));
    assert_eq!(q_members(chat_of(&n, "team@chatroom"), None, &vec![], &n.map).count, 0);
}

fn at(username: &str, last: i64) -> SessionTime {
    SessionTime { username: s(username), last }
}

#[test]
fn new_messages_that_are_cut_off_come_with_the_next_request() {
    let n = names();
    let sessions = vec![at("wxid_a", 30), at("wxid_b", 25), at("wxid_c", 5)];
    let mut state: StrMap<i64> = StrMap::new();
    state.insert(s("wxid_a"), 10);
    state.insert(s("wxid_b"), 10);
    state.insert(s("wxid_c"), 5);
    let changed = changed_sessions(&sessions, &Some(state), 0);
    let got: Vec<(&str, i64)> = changed.iter().map(|c| (c.username.as_str(), c.since)).collect();
    assert_eq!(got, vec![("wxid_a", 10), ("wxid_b", 10)]);
    let fetched = vec![
        ChangedRows {
            username: s("wxid_a"),
            table: table(vec![message(1, 20, 1, "x"), message(2, 30, 1, "y")]),
        },
        ChangedRows { username: s("wxid_b"), table: table(vec![message(3, 25, 2, "z")]) },
    ];
    let r = q_new_messages(&n, &sessions, &changed, &fetched, 1);
    assert_eq!(r.count, 1);
    assert_eq!(r.messages[0].message.content, "x");
    assert_eq!(r.messages[0].chat.display, "Alice");
    assert_eq!(r.new_state.get("wxid_a"), Some(&20));
    assert_eq!(r.new_state.get("wxid_b"), Some(&10));
    assert_eq!(r.new_state.get("wxid_c"), Some(&5));
    let again = changed_sessions(&sessions, &Some(r.new_state), 0);
    assert_eq!(again.len(), 2);
    let r = q_new_messages(&n, &sessions, &changed, &fetched, 9);
    let times: Vec<i64> = r.messages.iter().map(|m| m.message.timestamp).collect();
    assert_eq!(times, vec![20, 25, 30]);
    assert_eq!(changed_sessions(&sessions, &Some(r.new_state), 0).len(), 0);
}

#[test]
fn chats_never_seen_go_back_one_day() {
    assert_eq!(fallback_time(100_000), 13_600);
    let sessions = vec![at("a", 13_600), at("b", 13_601)];
    let changed = changed_sessions(&sessions, &None, 13_600);
    assert_eq!(changed.len(), 1);
    assert_eq!(changed[0].username, "b");
    assert_eq!(per_table_limit(0), 200);
    assert_eq!(per_table_limit(40), 200);
    assert_eq!(per_table_limit(41), 205);
    assert_eq!(per_table_limit(usize::MAX), usize::MAX);
    let r = q_new_messages(&names(), &sessions, &vec![], &vec![], 9);
    assert_eq!((r.count, r.new_state.get("a")), (0, Some(&13_600)));
}

#[test]
fn favorites_are_labelled_and_shortened() {
    let row = |t: i64, ts: i64, c: &str| FavoriteRow {
        local_id: 1,
        fav_type: t,
        update_time: ts,
        content: s(c),
        fromusr: s("f"),
        chatname: s("c"),
    };
    let list = q_favorites(&vec![
        row(1, 1_700_000_000_123, "a"), row(2, 5, ""), row(5, 0, ""), row(19, 0, ""), row(20, 0, ""),
        row(7, 0, ""),
    ]);
    assert_eq!(list.count, 6);
    let kinds: Vec<&str> = list.items.iter().map(|i| i.kind).collect();
    assert_eq!(kinds, vec!["文本", "图片", "文章", "名片", "视频", "其他"]);
    assert_eq!(list.items[0].timestamp, 1_700_000_000);
    assert_eq!(list.items[1].timestamp, 5);
    assert_eq!(to_seconds(9_999_999_999), 9_999_999_999);
    assert_eq!(to_seconds(10_000_000_000), 10_000_000);
    assert_eq!(to_seconds(-5), -5);
    let hundred = "字".repeat(100);
    assert_eq!(preview_of(&hundred), hundred);
    assert_eq!(preview_of(&format!("{}x", hundred)), format!("{}...", hundred));
}

fn counts(count: i64, kinds: &[(i64, i64)], senders: &[(i64, i64)], times: &[i64]) -> TableCounts {
    TableCounts {
        count,
        kinds: kinds.to_vec(),
        times: times.to_vec(),
        senders: senders.to_vec(),
        id2u: [(1, s("wxid_a")), (2, s("wxid_b")), (3, s("team@chatroom"))].into(),
    }
}

fn pairs(all: &[Tally]) -> Vec<(&str, i64)> {
    all.iter().map(|t| (t.name.as_str(), t.count)).collect()
}

#[test]
fn statistics_are_summed_over_the_tables() {
    let n = names();
    let tables = vec![
        counts(4, &[(1, 3), (3, 1)], &[(1, 1), (2, 2), (3, 5), (9, 5)], &[0, 3600]),
        counts(2, &[(3, 1), (34, 1)], &[(1, 2)], &[0]),
    ];
    let st = q_stats(&n, chat_of(&n, "team@chatroom"), &tables).unwrap();
    assert_eq!(st.total, 6);
    assert_eq!(pairs(&st.by_type), vec![("文本", 3), ("图片", 2), ("语音", 1)]);
    assert_eq!(pairs(&st.top_senders), vec![("Alice", 3), ("Bob", 2)]);
    assert_eq!(st.by_hour.len(), 24);
    assert_eq!(st.by_hour.iter().sum::<i64>(), 3);
    let st = q_stats(&n, chat_of(&n, "wxid_a"), &tables).unwrap();
    assert_eq!(st.top_senders.len(), 0);
    match q_stats(&n, chat_of(&n, "wxid_a"), &vec![]) {
        Err(e) => assert_eq!(e.message(), "找不到 Alice 的消息记录"),
        Ok(_) => panic!(),
    }
}

#[test]
fn hours_are_counted_as_given() {
    let n = names();
    let tables = vec![counts(0, &[], &[], &[])];
    let hours = vec![Some(0), Some(23), None, Some(23)];
    let st = stats_from(&n, chat_of(&n, "wxid_a"), &tables, &hours);
    assert_eq!(st.by_hour[0], 1);
    assert_eq!(st.by_hour[23], 2);
    assert_eq!(st.by_hour.iter().sum::<i64>(), 3);
    assert_eq!(count_hours(&vec![]), vec![0; 24]);
}

#[test]
fn hours_are_those_of_the_local_clock() {
    let n = names();
    let times: Vec<i64> = vec![1_700_000_000, -7_201, i64::MAX];
    let tables = vec![counts(3, &[], &[], &times)];
    let st = q_stats(&n, chat_of(&n, "wxid_a"), &tables).unwrap();
    let mut want = vec![0i64; 24];
    for t in &times[..2] {
        want[Local.timestamp_opt(*t, 0).unwrap().hour() as usize] += 1;
    }
    assert_eq!(st.by_hour, want);
}

#[test]
fn only_ten_senders_are_listed() {
    let n = names();
    let mut t = counts(0, &[], &[], &[]);
    for i in 0..12 {
        t.id2u.insert(100 + i, format!("u{:02}", i));
        t.senders.push((100 + i, i / 2));
    }
    let st = q_stats(&n, chat_of(&n, "team@chatroom"), &vec![t]).unwrap();
    assert_eq!(st.top_senders.len(), 10);
    assert_eq!(pairs(&st.top_senders)[..3], [("u10", 5), ("u11", 5), ("u08", 4)]);
}

#[test]
fn counts_that_leave_the_range_are_told() {
    assert!(can_count(&vec![counts(i64::MAX, &[(1, 1)], &[], &[])]));
    assert!(!can_count(&vec![counts(i64::MAX, &[], &[], &[]), counts(1, &[], &[], &[])]));
    assert!(!can_count(&vec![counts(0, &[(1, i64::MAX), (2, 1)], &[], &[])]));
    assert!(!can_count(&vec![counts(0, &[], &[(1, i64::MIN)], &[])]));
    assert!(can_count(&vec![]));
}

#[test]
fn tallies_under_one_name_are_added() {
    let t = |n: &str, c: i64| Tally { name: s(n), count: c };
    let r = rank(&vec![t("b", 1), t("a", 2), t("b", 3), t("c", 2)]);
    assert_eq!(pairs(&r), vec![("b", 4), ("a", 2), ("c", 2)]);
}

#[test]
fn notifications_tell_of_their_posts() {
    let n = names();
    let row = |id: i64, feed: i64, nick: &str, text: &str| NoticeRow {
        local_id: id,
        create_time: 1_700_000_000 + id,
        notice_type: 1,
        feed_id: feed,
        from_username: s("wxid_b"),
        from_nickname: s(nick),
        content: s(text),
    };
    let rows = vec![row(1, 9, "", ""), row(2, 4, "Nick", "nice"), row(3, 9, "", " ")];
    assert_eq!(feed_ids(&rows), vec![4, 9]);
    assert_eq!(feed_ids(&vec![]), Vec::<i64>::new());
    let posts = vec![PostRow {
        tid: 9,
        user_name: String::new(),
        content: format!(
            "<username>wxid_a</username><contentDesc>{}</contentDesc>",
            "字".repeat(61)
        ),
    }];
    let list = q_sns_notifications(&n, &rows, &posts);
    assert_eq!(list.total, 3);
    let a = &list.notifications[0];
    assert_eq!((a.kind, a.from_nickname.as_str()), ("like", "Bob"));
    assert_eq!((a.feed_author_username.as_str(), a.feed_author.as_str()), ("wxid_a", "Alice"));
    assert_eq!(a.feed_preview, "字".repeat(60));
    assert_eq!(a.timestamp, 1_700_000_001);
    let b = &list.notifications[1];
    assert_eq!((b.kind, b.from_nickname.as_str()), ("comment", "Nick"));
    assert_eq!((b.feed_author.as_str(), b.feed_preview.as_str()), ("", ""));
    assert_eq!(list.notifications[2].kind, "comment");
}
