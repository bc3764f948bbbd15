use std::collections::HashMap;
use wx_cli::content::{
    decompress_message, decompress_or_str, extract_xml_text, fmt_content, fmt_type,
    message_text_from, parse_appmsg, parse_revoke, parse_sysmsg, sender_label, show_name,
    strip_group_prefix, summary_text_from, unescape_html,
};
use wx_cli::strmap::StrMap;

#[test]
fn types_have_labels() {
    for (t, label) in [
        (1, "文本"), (3, "图片"), (34, "语音"), (42, "名片"), (43, "视频"), (47, "表情"), (48, "位置"),
        (49, "链接/文件"), (50, "通话"), (10000, "系统"), (10002, "撤回"), (7, "type=7"), (0, "type=0"),
        (-1, "type=4294967295"), (0x1_0000_0001, "文本"), (21474836529, "链接/文件"),
    ] {
        assert_eq!(fmt_type(t), label, "{}", t);
    }
}

#[test]
fn xml_text_is_trimmed_and_taken_from_the_first_tag() {
    assert_eq!(extract_xml_text("<a> x </a><a>y</a>", "a").unwrap(), "x");
    assert_eq!(extract_xml_text("</a><a>z</a>", "a").unwrap(), "z");
    assert_eq!(extract_xml_text("<a>x", "a"), None);
    assert_eq!(extract_xml_text("<a b=\"1\">x</a>", "a"), None);
    assert_eq!(extract_xml_text("", "a"), None);
    assert_eq!(extract_xml_text("<a></a>", "a").unwrap(), "");
}

#[test]
fn entities_are_replaced_one_after_the_other() {
    assert_eq!(unescape_html("&lt;a&gt; &amp; &quot;b&quot; &apos;c&apos;"), "<a> & \"b\" 'c'");
    assert_eq!(unescape_html("&amp;lt;"), "&lt;");
    assert_eq!(unescape_html("&amp;quot;"), "\"");
}

#[test]
fn app_messages_are_summed_up() {
    let app = |t: &str, title: &str| format!("<appmsg><title>{}</title><type>{}</type></appmsg>", title, t);
    assert_eq!(parse_appmsg(&app("6", "f.pdf")).unwrap(), "[文件] f.pdf");
    assert_eq!(parse_appmsg(&app("6", "")).unwrap(), "[文件]");
    assert_eq!(parse_appmsg(&app("33", "m")).unwrap(), "[小程序] m");
    assert_eq!(parse_appmsg(&app("36", "")).unwrap(), "[小程序]");
    assert_eq!(parse_appmsg(&app("44", "m")).unwrap(), "[小程序] m");
    assert_eq!(parse_appmsg(&app("5", "l")).unwrap(), "[链接] l");
    assert_eq!(parse_appmsg(&app("5", "")).unwrap(), "[链接/文件]");
    assert_eq!(parse_appmsg("<appmsg><title>t</title>").unwrap(), "[链接] t");
    assert_eq!(parse_appmsg("<appmsg></appmsg>"), None);
    assert_eq!(parse_appmsg(&app("57", "q")).unwrap(), "[引用] q");
    assert_eq!(parse_appmsg(&app("57", "")).unwrap(), "[引用]");
}

#[test]
fn quoted_messages_are_shortened() {
    let quote = |c: &str| {
        format!("<appmsg><title>q</title><type>57</type><content>{}</content></appmsg>", c)
    };
    assert_eq!(parse_appmsg(&quote("a  b\n c")).unwrap(), "[引用] q\n  \u{21b3} a b c");
    let long = "x".repeat(41);
    assert_eq!(
        parse_appmsg(&quote(&long)).unwrap(),
        format!("[引用] q\n  \u{21b3} {}...", "x".repeat(40))
    );
    let just = "字".repeat(40);
    assert_eq!(parse_appmsg(&quote(&just)).unwrap(), format!("[引用] q\n  \u{21b3} {}", just));
    let inner = "&lt;appmsg&gt;&lt;title&gt;f&lt;/title&gt;&lt;type&gt;6&lt;/type&gt;&lt;/appmsg&gt;";
    assert_eq!(parse_appmsg(&quote(inner)).unwrap(), "[引用] q\n  \u{21b3} [文件] f");
    let untitled = "&lt;appmsg&gt;  x";
    assert_eq!(parse_appmsg(&quote(untitled)).unwrap(), "[引用] q\n  \u{21b3} <appmsg> x");
}

#[test]
fn revoked_and_system_messages() {
    assert_eq!(parse_revoke("<content></content>").unwrap(), "[撤回了一条消息]");
    assert_eq!(parse_revoke("x"), None);
    let long = "字".repeat(31);
    assert_eq!(
        parse_revoke(&format!("<content>{}</content>", long)).unwrap(),
        format!("[撤回] {}", "字".repeat(30))
    );
    assert_eq!(parse_sysmsg("plain").unwrap(), "[系统] plain");
    assert_eq!(parse_sysmsg("<a/>").unwrap(), "[系统消息]");
    assert_eq!(parse_sysmsg("<content> hi </content>").unwrap(), "[系统] hi");
    assert_eq!(parse_sysmsg("<content></content>").unwrap(), "[系统消息]");
    assert_eq!(parse_sysmsg("").unwrap(), "[系统] ");
    assert_eq!(parse_sysmsg(&"y".repeat(60)).unwrap(), format!("[系统] {}", "y".repeat(50)));
}

#[test]
fn contents_are_shown_by_type() {
    assert_eq!(fmt_content(7, 3, "x", false), "[图片] local_id=7");
    assert_eq!(fmt_content(7, 34, "x", false), "[语音]");
    assert_eq!(fmt_content(7, 43, "x", false), "[视频]");
    assert_eq!(fmt_content(7, 47, "x", false), "[表情]");
    assert_eq!(fmt_content(7, 50, "x", false), "[通话]");
    assert_eq!(fmt_content(7, 10000, "x", false), "[系统] x");
    assert_eq!(fmt_content(7, 10002, "x", false), "[撤回了一条消息]");
    assert_eq!(fmt_content(7, 1, "u:\nhello", true), "hello");
    assert_eq!(fmt_content(7, 1, "u:\nhello", false), "u:\nhello");
    assert_eq!(fmt_content(7, 1, "a:\nb:\nc", true), "b:\nc");
    assert_eq!(
        fmt_content(7, 49, "u:\n<appmsg><title>t</title></appmsg>", true),
        "[链接] t"
    );
    assert_eq!(fmt_content(7, 49, "<appmsg>", false), "<appmsg>");
    assert_eq!(fmt_content(7, 1, "<appmsg><title>t</title>", false), "<appmsg><title>t</title>");
}

fn names() -> StrMap<String> {
    let mut m: StrMap<String> = StrMap::new();
    m.insert("a".to_string(), "Alice".to_string());
    m
}

#[test]
fn senders_are_named() {
    let id2u: HashMap<i64, String> =
        [(1, "a".to_string()), (2, "g@chatroom".to_string()), (3, "x".to_string())].into();
    let n = names();
    assert_eq!(sender_label(1, "", true, "g@chatroom", &id2u, &n), "Alice");
    assert_eq!(sender_label(3, "", true, "g@chatroom", &id2u, &n), "x");
    assert_eq!(sender_label(2, "a:\nhi", true, "g@chatroom", &id2u, &n), "Alice");
    assert_eq!(sender_label(9, "b:\nhi", true, "g@chatroom", &id2u, &n), "b");
    assert_eq!(sender_label(9, "hi", true, "g@chatroom", &id2u, &n), "");
    assert_eq!(sender_label(1, "", false, "a", &id2u, &n), "");
    assert_eq!(sender_label(3, "", false, "a", &id2u, &n), "x");
    assert_eq!(sender_label(9, "a:\nhi", false, "a", &id2u, &n), "");
    assert_eq!(show_name(&n, "a"), "Alice");
    assert_eq!(show_name(&n, "q"), "q");
}

#[test]
fn prefix_of_group_messages_is_stripped() {
    assert_eq!(strip_group_prefix("u:\nx"), "x");
    assert_eq!(strip_group_prefix("u:\n"), "");
    assert_eq!(strip_group_prefix("u: x"), "u: x");
}

#[test]
fn compressed_contents_are_decompressed() {
    let packed = zstd::encode_all("héllo 消息".as_bytes(), 3).unwrap();
    assert_eq!(decompress_message(&packed, 4), "héllo 消息");
    assert_eq!(decompress_or_str(&packed), "héllo 消息");
    assert_ne!(decompress_message(&packed, 0), "héllo 消息");
    assert_eq!(decompress_message(b"plain", 4), "plain");
    assert_eq!(decompress_or_str(b"plain"), "plain");
    assert_eq!(decompress_message(b"", 4), "");
    assert_eq!(decompress_or_str(b""), "");
    assert_eq!(decompress_message(&[0xff, b'a'], 0), "\u{FFFD}a");
    let broken = zstd::encode_all(&[0xffu8, b'a'][..], 3).unwrap();
    assert_eq!(decompress_message(&broken, 4), "\u{FFFD}a");
    // A summary that is no text once it is decompressed is read as it stands.
    assert_eq!(decompress_or_str(&broken), String::from_utf8_lossy(&broken));
}

#[test]
fn decompressed_bytes_are_taken_as_given() {
    assert_eq!(message_text_from(b"raw", 4, Some(b"dec".to_vec())), "dec");
    assert_eq!(message_text_from(b"raw", 1, Some(b"dec".to_vec())), "raw");
    assert_eq!(message_text_from(b"raw", 4, None), "raw");
    assert_eq!(message_text_from(b"", 4, Some(b"dec".to_vec())), "");
    assert_eq!(summary_text_from(b"raw", Some(b"dec".to_vec())), "dec");
    assert_eq!(summary_text_from(b"raw", Some(vec![0xff])), "raw");
    assert_eq!(summary_text_from(b"", Some(b"dec".to_vec())), "");
}
