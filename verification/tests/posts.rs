use wx_cli::messages::QueryError;
use wx_cli::names::{load_names, ContactRow, Names};
use wx_cli::posts::{
    parse_post_xml, q_sns_feed, q_sns_search, select_posts, ParsedPost, PostFilter, PostRow,
    SNS_MAX_SCAN,
};

fn make_post_xml(
    create_time: &str,
    desc: &str,
    username_tag: Option<&str>,
    media: usize,
    location: Option<&str>,
) -> String {
    let username = username_tag.map(|u| format!("<username>{}</username>", u)).unwrap_or_default();
    let media_tags = "<media>...</media>".repeat(media);
    let media_list = if media > 0 {
        format!("<mediaList>{}</mediaList>", media_tags)
    } else {
        String::new()
    };
    let loc = location
        .map(|p| format!(r#"<location poiName="{}" longitude="0" latitude="0" />"#, p))
        .unwrap_or_default();
    format!(
        "<TimelineObject>{}<createTime>{}</createTime><contentDesc>{}</contentDesc>{}{}</TimelineObject>",
        username, create_time, desc, media_list, loc
    )
}

#[test]
fn parse_uses_user_name_column_when_present() {
    let xml = make_post_xml("1700000000", "hello", Some("wxid_xml"), 0, None);
    let p = parse_post_xml(1, "wxid_column", &xml);
    assert_eq!(p.author_username, "wxid_column");
    assert_eq!(p.create_time, 1700000000);
    assert_eq!(p.content, "hello");
    assert_eq!(p.media_count, 0);
    assert_eq!(p.location, "");
}

#[test]
fn parse_falls_back_to_xml_username_when_column_empty() {
    let xml = make_post_xml("1700000001", "world", Some("wxid_xml_only"), 0, None);
    let p = parse_post_xml(2, "", &xml);
    assert_eq!(p.author_username, "wxid_xml_only");
}

#[test]
fn parse_handles_missing_create_time() {
    let xml = "<TimelineObject><contentDesc>x</contentDesc></TimelineObject>";
    let p = parse_post_xml(3, "wxid", xml);
    assert_eq!(p.create_time, 0);
    assert_eq!(p.content, "x");
}

#[test]
fn parse_counts_media_and_extracts_location() {
    let xml = make_post_xml("1700000002", "post", None, 3, Some("Wuxi"));
    let p = parse_post_xml(4, "wxid", &xml);
    assert_eq!(p.media_count, 3);
    assert_eq!(p.location, "Wuxi");
}

#[test]
fn parse_when_both_column_and_xml_username_empty_returns_empty_author() {
    let xml = "<TimelineObject><createTime>1700000003</createTime><contentDesc>orphan</contentDesc></TimelineObject>";
    let p = parse_post_xml(5, "", xml);
    assert_eq!(p.author_username, "");
}

#[test]
fn create_time_that_is_no_number_is_zero() {
    for t in ["", "abc", "12x", "99999999999999999999", "-"] {
        let xml = make_post_xml(t, "d", None, 0, None);
        assert_eq!(parse_post_xml(1, "u", &xml).create_time, 0);
    }
    let xml = make_post_xml(" -5 ", "d", None, 0, None);
    assert_eq!(parse_post_xml(1, "u", &xml).create_time, -5);
}

#[test]
fn location_is_the_last_name_in_the_first_tag_that_has_one() {
    let two = r#"<location city="x"/><location poiName="A" poiName="B"><location poiName="C">"#;
    assert_eq!(parse_post_xml(1, "u", two).location, "B");
    let none = r#"<location>poiName="A""#;
    assert_eq!(parse_post_xml(1, "u", none).location, "");
    let open = r#"<location poiName="A"#;
    assert_eq!(parse_post_xml(1, "u", open).location, "");
    let angle = r#"<location poiName="a>b""#;
    assert_eq!(parse_post_xml(1, "u", angle).location, "a>b");
}

#[test]
fn only_media_tags_in_closed_lists_are_counted() {
    let xml = "<mediaList><media><media ></media><media></mediaList><media>";
    assert_eq!(parse_post_xml(1, "u", xml).media_count, 2);
    let xml = "<TimelineObject><media>a</media><mediaList><media>b</media><mediaId>c</mediaId></mediaList></TimelineObject>";
    assert_eq!(parse_post_xml(6, "wxid", xml).media_count, 1);
    assert_eq!(parse_post_xml(1, "u", "<media>a</media>").media_count, 0);
    assert_eq!(parse_post_xml(1, "u", "<mediaList><media>").media_count, 0);
    let xml = "<mediaList><media></mediaList><media><mediaList><media><media></mediaList>";
    assert_eq!(parse_post_xml(1, "u", xml).media_count, 3);
    let xml = "<mediaList></mediaList><mediaList><media></mediaList><mediaList><media>";
    assert_eq!(parse_post_xml(1, "u", xml).media_count, 1);
    let xml = "<mediaList><med</mediaList><mediaList>ia></mediaList></mediaList>";
    assert_eq!(parse_post_xml(1, "u", xml).media_count, 0);
    let xml = "</mediaList><mediaList><mediaList><media></mediaList>";
    assert_eq!(parse_post_xml(1, "u", xml).media_count, 1);
}

fn names() -> Names {
    load_names(&vec![
        ContactRow {
            username: "wxid_a".to_string(),
            nick_name: "Alice".to_string(),
            remark: String::new(),
            verify_flag: 0,
        },
        ContactRow {
            username: "wxid_b".to_string(),
            nick_name: "Bob".to_string(),
            remark: String::new(),
            verify_flag: 0,
        },
    ])
}

fn row(tid: i64, user: &str, time: &str, desc: &str, tag: Option<&str>) -> PostRow {
    PostRow {
        tid,
        user_name: user.to_string(),
        content: make_post_xml(time, desc, tag, 0, None),
    }
}

fn rows() -> Vec<PostRow> {
    vec![
        row(9, "wxid_a", "100", "first", None),
        row(8, "wxid_b", "300", "Second One", None),
        row(7, "", "200", "forwarded", Some("wxid_a")),
        row(6, "wxid_a", "300", "another", None),
    ]
}

fn tids(list: &[wx_cli::posts::Post]) -> Vec<i64> {
    list.iter().map(|p| p.post.tid).collect()
}

#[test]
fn feed_lists_the_newest_first() {
    let list = q_sns_feed(&names(), &rows(), 20, None, None, None).unwrap();
    assert_eq!(tids(&list.posts), vec![8, 6, 7, 9]);
    assert_eq!(list.total, 4);
    assert_eq!(list.posts[0].author, "Bob");
    assert_eq!(list.posts[2].post.author_username, "wxid_a");
    assert_eq!(list.posts[2].author, "Alice");
}

#[test]
fn feed_is_cut_off_after_it_is_sorted() {
    let list = q_sns_feed(&names(), &rows(), 2, None, None, None).unwrap();
    assert_eq!(tids(&list.posts), vec![8, 6]);
    assert_eq!(list.total, 2);
}

#[test]
fn feed_finds_posts_whose_author_only_the_xml_tells() {
    let list = q_sns_feed(&names(), &rows(), 20, None, None, Some("alice")).unwrap();
    assert_eq!(tids(&list.posts), vec![6, 7, 9]);
    let list = q_sns_feed(&names(), &rows(), 20, Some(200), Some(299), Some("Alice")).unwrap();
    assert_eq!(tids(&list.posts), vec![7]);
}

#[test]
fn feed_of_an_unknown_author_fails() {
    match q_sns_feed(&names(), &rows(), 20, None, None, Some("nobody")) {
        Err(e) => assert_eq!(e.message(), "找不到联系人: nobody"),
        Ok(_) => panic!(),
    }
}

#[test]
fn feed_reads_no_more_rows_than_it_may() {
    let mut many: Vec<PostRow> = Vec::new();
    for i in 0..(SNS_MAX_SCAN as i64) {
        many.push(PostRow {
            tid: i,
            user_name: "u".to_string(),
            content: "<createTime>1</createTime>".to_string(),
        });
    }
    many.push(PostRow {
        tid: -1,
        user_name: "u".to_string(),
        content: "<createTime>2</createTime>".to_string(),
    });
    let filter = PostFilter { author: None, since: None, until: None, keyword: None };
    let got = select_posts(&many, &filter, 20_000);
    assert_eq!(got.len(), 10_000);
    assert!(got.iter().all(|p| p.create_time == 1));
    assert_eq!(got[0].tid, 0);
}

#[test]
fn search_finds_a_keyword_in_any_case() {
    let found = q_sns_search(&names(), "SECOND", &rows(), 20, None, None, None).unwrap();
    assert_eq!(found.keyword, "SECOND");
    assert_eq!(tids(&found.list.posts), vec![8]);
    let found = q_sns_search(&names(), "o", &rows(), 20, None, None, Some("Alice")).unwrap();
    assert_eq!(tids(&found.list.posts), vec![6, 7]);
}

#[test]
fn search_looks_at_the_text_alone() {
    let found = q_sns_search(&names(), "wxid", &rows(), 20, None, None, None).unwrap();
    assert_eq!(found.list.total, 0);
}

#[test]
fn search_wants_a_keyword() {
    for k in ["", " ", "\t\u{3000}\n"] {
        let r = q_sns_search(&names(), k, &rows(), 20, None, None, Some("nobody"));
        assert!(matches!(r, Err(QueryError::EmptyKeyword)));
    }
    assert_eq!(QueryError::EmptyKeyword.message(), "搜索关键词不能为空");
    let r = q_sns_search(&names(), "k", &rows(), 20, None, None, Some("nobody"));
    assert!(matches!(r, Err(QueryError::UnknownContact(_))));
}

#[test]
fn filter_takes_texts_that_are_in_lower_case_already() {
    let p = ParsedPost {
        tid: 1,
        create_time: 5,
        author_username: "a".to_string(),
        content: "ignored".to_string(),
        media_count: 0,
        location: String::new(),
    };
    let f = PostFilter {
        author: Some("a".to_string()),
        since: Some(5),
        until: Some(5),
        keyword: None,
    };
    assert!(f.accepts_lowered(&p, "abc", Some("bc")));
    assert!(!f.accepts_lowered(&p, "abc", Some("BC")));
    assert!(f.accepts_lowered(&p, "abc", None));
    assert!(f.accepts(&p));
}
