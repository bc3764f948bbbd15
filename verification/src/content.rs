use std::collections::HashMap;
use vstd::prelude::*;
use vstd::slice::slice_subrange;
use vstd::utf8::{decode_utf8, valid_utf8};

use crate::number::{decimal, i64_text};
use crate::outside::{lossy_text, utf8_lossy, utf8_text, zstd_decode, zstd_decoded};
use crate::strmap::StrMap;
use crate::text::{
    after, before, begins, chars_of, concat2, concat3, contains, find, head, lemma_replaced_len,
    lemma_trimmed_len, occurs, position_of, replace, replaced, same, single_space, single_spaced,
    split_first, starts_with, string_of, take_chars, trim_slice, trimmed, lemma_find_some,
};

verus! {

/// The kind of a message: the low thirty-two bits of its type.
pub open spec fn base_type(t: i64) -> int {
    t as int % 0x1_0000_0000
}

fn base_of(t: i64) -> (r: i64)
    ensures
        r == base_type(t),
{
    let u: u64 = t as u64;
    let low: u64 = u & 0xFFFF_FFFF;
    proof {
        assert(low == u % 0x1_0000_0000) by (bit_vector)
            requires
                low == u & 0xFFFF_FFFF,
        ;
        if t < 0 {
            assert(u == t + 0x1_0000_0000_0000_0000) by (bit_vector)
                requires
                    u == t as u64,
                    t < 0,
            ;
            assert((t + 0x1_0000_0000_0000_0000) % 0x1_0000_0000 == t as int % 0x1_0000_0000);
        }
    }
    low as i64
}

/// The label of a message's kind.
pub open spec fn type_label(t: i64) -> Seq<char> {
    let base = base_type(t);
    if base == 1 {
        "文本"@
    } else if base == 3 {
        "图片"@
    } else if base == 34 {
        "语音"@
    } else if base == 42 {
        "名片"@
    } else if base == 43 {
        "视频"@
    } else if base == 47 {
        "表情"@
    } else if base == 48 {
        "位置"@
    } else if base == 49 {
        "链接/文件"@
    } else if base == 50 {
        "通话"@
    } else if base == 10000 {
        "系统"@
    } else if base == 10002 {
        "撤回"@
    } else {
        "type="@ + decimal(base)
    }
}

/// The label of a message's kind.
pub fn fmt_type(t: i64) -> (r: String)
    ensures
        r@ == type_label(t),
{
    let base: i64 = base_of(t);
    let known = match base {
        1 => "文本",
        3 => "图片",
        34 => "语音",
        42 => "名片",
        43 => "视频",
        47 => "表情",
        48 => "位置",
        49 => "链接/文件",
        50 => "通话",
        10000 => "系统",
        10002 => "撤回",
        _ => return concat2("type=", i64_text(base).as_str()),
    };
    known.to_owned()
}

/// The text of the first element `tag` of an XML text, trimmed: what stands between `<tag>` and
/// the `</tag>` after it.
pub open spec fn xml_text(xml: Seq<char>, tag: Seq<char>) -> Option<Seq<char>> {
    let open = "<"@ + tag + ">"@;
    let close = "</"@ + tag + ">"@;
    match find(xml, open) {
        Some(i) => {
            let rest = xml.skip(i + open.len());
            match find(rest, close) {
                Some(j) => Some(trimmed(rest.take(j))),
                None => None,
            }
        },
        None => None,
    }
}

/// The text of the first element `tag` of an XML text, trimmed.
pub fn extract_xml_text(xml: &str, tag: &str) -> (r: Option<String>)
    ensures
        match r {
            Some(s) => xml_text(xml@, tag@) == Some(s@),
            None => xml_text(xml@, tag@) is None,
        },
{
    let v = chars_of(xml);
    let open = chars_of(concat3("<", tag, ">").as_str());
    let close = chars_of(concat3("</", tag, ">").as_str());
    match position_of(v.as_slice(), open.as_slice()) {
        Some(i) => {
            assert(i + open.len() <= v.len());
            let rest = slice_subrange(v.as_slice(), i + open.len(), v.len());
            assert(rest@ =~= xml@.skip(i + open@.len()));
            match position_of(rest, close.as_slice()) {
                Some(j) => {
                    let inner = slice_subrange(rest, 0, j);
                    assert(inner@ =~= rest@.take(j as int));
                    Some(string_of(trim_slice(inner)))
                },
                None => None,
            }
        },
        None => None,
    }
}

/// The text of an element is shorter than the text that holds the element.
pub proof fn lemma_xml_text_shorter(xml: Seq<char>, tag: Seq<char>)
    ensures
        xml_text(xml, tag) matches Some(s) ==> s.len() < xml.len(),
{
    let open = "<"@ + tag + ">"@;
    let close = "</"@ + tag + ">"@;
    reveal_strlit("<");
    lemma_find_some(xml, open);
    if let Some(i) = find(xml, open) {
        let rest = xml.skip(i + open.len());
        lemma_find_some(rest, close);
        if let Some(j) = find(rest, close) {
            lemma_trimmed_len(rest.take(j));
        }
    }
}

/// An HTML text with its five character references resolved, one after the other.
pub open spec fn unescaped(s: Seq<char>) -> Seq<char> {
    let a = replaced(s, "&lt;"@, "<"@);
    let b = replaced(a, "&gt;"@, ">"@);
    let c = replaced(b, "&amp;"@, "&"@);
    let d = replaced(c, "&quot;"@, "\""@);
    replaced(d, "&apos;"@, "'"@)
}

/// An HTML text with its five character references resolved, one after the other.
pub fn unescape_html(s: &str) -> (r: String)
    ensures
        r@ == unescaped(s@),
{
    proof {
        reveal_references();
    }
    let a = replace(s, "&lt;", "<");
    let b = replace(a.as_str(), "&gt;", ">");
    let c = replace(b.as_str(), "&amp;", "&");
    let d = replace(c.as_str(), "&quot;", "\"");
    replace(d.as_str(), "&apos;", "'")
}

proof fn reveal_references()
    ensures
        "&lt;"@.len() == 4,
        "&gt;"@.len() == 4,
        "&amp;"@.len() == 5,
        "&quot;"@.len() == 6,
        "&apos;"@.len() == 6,
        "<"@.len() == 1,
        ">"@.len() == 1,
        "&"@.len() == 1,
        "\""@.len() == 1,
        "'"@.len() == 1,
{
    reveal_strlit("&lt;");
    reveal_strlit("&gt;");
    reveal_strlit("&amp;");
    reveal_strlit("&quot;");
    reveal_strlit("&apos;");
    reveal_strlit("<");
    reveal_strlit(">");
    reveal_strlit("&");
    reveal_strlit("\"");
    reveal_strlit("'");
}

/// Resolving character references never makes a text longer.
pub proof fn lemma_unescaped_len(s: Seq<char>)
    ensures
        unescaped(s).len() <= s.len(),
{
    reveal_references();
    let a = replaced(s, "&lt;"@, "<"@);
    let b = replaced(a, "&gt;"@, ">"@);
    let c = replaced(b, "&amp;"@, "&"@);
    let d = replaced(c, "&quot;"@, "\""@);
    lemma_replaced_len(s, "&lt;"@, "<"@);
    lemma_replaced_len(a, "&gt;"@, ">"@);
    lemma_replaced_len(b, "&amp;"@, "&"@);
    lemma_replaced_len(c, "&quot;"@, "\""@);
    lemma_replaced_len(d, "&apos;"@, "'"@);
}

/// A label, with a title after it where there is one.
pub open spec fn titled(label: Seq<char>, bare: Seq<char>, title: Seq<char>) -> Seq<char> {
    if title.len() > 0 {
        label + title
    } else {
        bare
    }
}

fn with_title(label: &str, bare: &str, title: &str) -> (r: String)
    ensures
        r@ == titled(label@, bare@, title@),
{
    if !title.is_empty() {
        concat2(label, title)
    } else {
        bare.to_owned()
    }
}

/// A quoted text on one line, cut after forty characters.
pub open spec fn quoted_plain(s: Seq<char>) -> Seq<char> {
    let line = single_spaced(s);
    if line.len() > 40 {
        line.take(40) + "..."@
    } else {
        line
    }
}

/// The summary of a quoted message: that of the shared item in it, where it is one.
pub open spec fn quoted(escaped: Seq<char>) -> Seq<char>
    decreases escaped.len(), 1nat,
{
    proof {
        lemma_unescaped_len(escaped);
    }
    let inner = unescaped(escaped);
    if occurs(inner, "<appmsg"@) && appmsg_summary(inner) is Some {
        appmsg_summary(inner)->0
    } else {
        quoted_plain(inner)
    }
}

/// The summary of a shared item: a file, a quotation, a small program or a link.
pub open spec fn appmsg_summary(text: Seq<char>) -> Option<Seq<char>>
    decreases text.len(), 0nat,
{
    match xml_text(text, "title"@) {
        None => None,
        Some(title) => {
            let kind = match xml_text(text, "type"@) {
                Some(k) => k,
                None => Seq::empty(),
            };
            if kind == "6"@ {
                Some(titled("[文件] "@, "[文件]"@, title))
            } else if kind == "57"@ {
                let quote = titled("[引用] "@, "[引用]"@, title);
                proof {
                    lemma_xml_text_shorter(text, "content"@);
                }
                let inner = match xml_text(text, "content"@) {
                    Some(s) => if s.len() < text.len() {
                        quoted(s)
                    } else {
                        Seq::empty()
                    },
                    None => Seq::empty(),
                };
                if inner.len() > 0 {
                    Some(quote + "\n  \u{21b3} "@ + inner)
                } else {
                    Some(quote)
                }
            } else if kind == "33"@ || kind == "36"@ || kind == "44"@ {
                Some(titled("[小程序] "@, "[小程序]"@, title))
            } else {
                Some(titled("[链接] "@, "[链接/文件]"@, title))
            }
        },
    }
}

fn quote_of(escaped: &str) -> (r: String)
    ensures
        r@ == quoted(escaped@),
    decreases escaped@.len(), 1nat,
{
    let inner = unescape_html(escaped);
    proof {
        lemma_unescaped_len(escaped@);
    }
    if contains(inner.as_str(), "<appmsg") {
        if let Some(parsed) = parse_appmsg(inner.as_str()) {
            return parsed;
        }
    }
    let line = single_space(inner.as_str());
    let n: usize = chars_of(line.as_str()).len();
    if n > 40 {
        concat2(take_chars(line.as_str(), 40).as_str(), "...")
    } else {
        line
    }
}

/// The summary of a shared item.
pub fn parse_appmsg(text: &str) -> (r: Option<String>)
    ensures
        match r {
            Some(s) => appmsg_summary(text@) == Some(s@),
            None => appmsg_summary(text@) is None,
        },
    decreases text@.len(), 0nat,
{
    let title = match extract_xml_text(text, "title") {
        Some(t) => t,
        None => return None,
    };
    let kind = match extract_xml_text(text, "type") {
        Some(k) => k,
        None => String::new(),
    };
    if same(kind.as_str(), "6") {
        return Some(with_title("[文件] ", "[文件]", title.as_str()));
    }
    if same(kind.as_str(), "57") {
        proof {
            lemma_xml_text_shorter(text@, "content"@);
        }
        let inner = match extract_xml_text(text, "content") {
            Some(s) => quote_of(s.as_str()),
            None => String::new(),
        };
        let quote = with_title("[引用] ", "[引用]", title.as_str());
        if !inner.as_str().is_empty() {
            return Some(concat3(quote.as_str(), "\n  \u{21b3} ", inner.as_str()));
        } else {
            return Some(quote);
        }
    }
    if same(kind.as_str(), "33") || same(kind.as_str(), "36") || same(kind.as_str(), "44") {
        return Some(with_title("[小程序] ", "[小程序]", title.as_str()));
    }
    Some(with_title("[链接] ", "[链接/文件]", title.as_str()))
}

/// The summary of a recalled message.
pub open spec fn revoke_summary(xml: Seq<char>) -> Option<Seq<char>> {
    match xml_text(xml, "content"@) {
        Some(inner) => if inner.len() == 0 {
            Some("[撤回了一条消息]"@)
        } else {
            Some("[撤回] "@ + head(inner, 30))
        },
        None => None,
    }
}

/// The summary of a recalled message: its first thirty characters.
pub fn parse_revoke(xml: &str) -> (r: Option<String>)
    ensures
        match r {
            Some(s) => revoke_summary(xml@) == Some(s@),
            None => revoke_summary(xml@) is None,
        },
{
    match extract_xml_text(xml, "content") {
        Some(inner) => {
            if inner.as_str().is_empty() {
                Some("[撤回了一条消息]".to_owned())
            } else {
                Some(concat2("[撤回] ", take_chars(inner.as_str(), 30).as_str()))
            }
        },
        None => None,
    }
}

/// The summary of a system message.
pub open spec fn sysmsg_summary(xml: Seq<char>) -> Seq<char> {
    match xml_text(xml, "content"@) {
        Some(s) => if s.len() > 0 {
            "[系统] "@ + head(s, 50)
        } else {
            plain_sysmsg(xml)
        },
        None => plain_sysmsg(xml),
    }
}

/// The summary of a system message without content.
pub open spec fn plain_sysmsg(xml: Seq<char>) -> Seq<char> {
    if begins(xml, "<"@) {
        "[系统消息]"@
    } else {
        "[系统] "@ + head(xml, 50)
    }
}

/// The summary of a system message; there always is one.
pub fn parse_sysmsg(xml: &str) -> (r: Option<String>)
    ensures
        r is Some,
        r->0@ == sysmsg_summary(xml@),
{
    if let Some(s) = extract_xml_text(xml, "content") {
        if !s.as_str().is_empty() {
            return Some(concat2("[系统] ", take_chars(s.as_str(), 50).as_str()));
        }
    }
    if !starts_with(xml, "<") {
        return Some(concat2("[系统] ", take_chars(xml, 50).as_str()));
    }
    Some("[系统消息]".to_owned())
}

/// A group message without the name of its sender, which stands before the first colon with a
/// line feed.
pub open spec fn without_prefix(s: Seq<char>) -> Seq<char> {
    after(s, ":\n"@)
}

/// A group message without the name of its sender.
pub fn strip_group_prefix(s: &str) -> (r: String)
    ensures
        r@ == without_prefix(s@),
{
    match split_first(s, ":\n") {
        Some((_, rest)) => rest,
        None => s.to_owned(),
    }
}

/// What is shown of a message.
pub open spec fn content_text(local_id: i64, local_type: i64, content: Seq<char>, is_group: bool) -> Seq<
    char,
> {
    let base = base_type(local_type);
    let text = if is_group {
        without_prefix(content)
    } else {
        content
    };
    if base == 3 {
        "[图片] local_id="@ + decimal(local_id as int)
    } else if base == 34 {
        "[语音]"@
    } else if base == 43 {
        "[视频]"@
    } else if base == 47 {
        "[表情]"@
    } else if base == 50 {
        "[通话]"@
    } else if base == 10000 {
        sysmsg_summary(content)
    } else if base == 10002 {
        match revoke_summary(content) {
            Some(s) => s,
            None => "[撤回了一条消息]"@,
        }
    } else if base == 49 && occurs(text, "<appmsg"@) && appmsg_summary(text) is Some {
        appmsg_summary(text)->0
    } else {
        text
    }
}

/// What is shown of a message.
pub fn fmt_content(local_id: i64, local_type: i64, content: &str, is_group: bool) -> (r: String)
    ensures
        r@ == content_text(local_id, local_type, content@, is_group),
{
    let base: i64 = base_of(local_type);
    match base {
        3 => return concat2("[图片] local_id=", i64_text(local_id).as_str()),
        34 => return "[语音]".to_owned(),
        43 => return "[视频]".to_owned(),
        47 => return "[表情]".to_owned(),
        50 => return "[通话]".to_owned(),
        10000 => return match parse_sysmsg(content) {
            Some(s) => s,
            None => "[系统消息]".to_owned(),
        },
        10002 => return match parse_revoke(content) {
            Some(s) => s,
            None => "[撤回了一条消息]".to_owned(),
        },
        _ => {},
    }
    let text = if is_group {
        strip_group_prefix(content)
    } else {
        content.to_owned()
    };
    if base == 49 && contains(text.as_str(), "<appmsg") {
        if let Some(parsed) = parse_appmsg(text.as_str()) {
            return parsed;
        }
    }
    text
}

/// The display name of a user: the one that the contacts give, or the user name itself.
pub open spec fn shown_name(names: Map<Seq<char>, String>, username: Seq<char>) -> Seq<char> {
    if names.contains_key(username) {
        names[username]@
    } else {
        username
    }
}

/// The display name of a user.
pub fn show_name(names: &StrMap<String>, username: &str) -> (r: String)
    ensures
        r@ == shown_name(names@, username@),
{
    match names.get(username) {
        Some(d) => d.clone(),
        None => username.to_owned(),
    }
}

/// The user name of a sender, where the table of senders has it.
pub open spec fn sender_name(id2u: Map<i64, String>, id: i64) -> Seq<char> {
    if id2u.contains_key(id) {
        id2u[id]@
    } else {
        Seq::empty()
    }
}

/// Who is shown as the sender of a message. The other side of a private chat and the group itself
/// are not shown; where the table does not name the sender of a group message, the message does.
pub open spec fn sender_shown(
    id: i64,
    content: Seq<char>,
    is_group: bool,
    chat: Seq<char>,
    id2u: Map<i64, String>,
    names: Map<Seq<char>, String>,
) -> Seq<char> {
    let sender = sender_name(id2u, id);
    if sender.len() > 0 && sender != chat {
        shown_name(names, sender)
    } else if is_group && occurs(content, ":\n"@) {
        shown_name(names, before(content, ":\n"@))
    } else {
        Seq::empty()
    }
}

/// Who is shown as the sender of a message.
pub fn sender_label(
    real_sender_id: i64,
    content: &str,
    is_group: bool,
    chat_username: &str,
    id2u: &HashMap<i64, String>,
    names: &StrMap<String>,
) -> (r: String)
    ensures
        r@ == sender_shown(real_sender_id, content@, is_group, chat_username@, id2u@, names@),
{
    broadcast use vstd::std_specs::hash::group_hash_axioms;

    let sender = match id2u.get(&real_sender_id) {
        Some(u) => u.clone(),
        None => String::new(),
    };
    assert(sender@ == sender_name(id2u@, real_sender_id));
    if !sender.as_str().is_empty() && !same(sender.as_str(), chat_username) {
        return show_name(names, sender.as_str());
    }
    if is_group {
        if let Some((raw, _)) = split_first(content, ":\n") {
            return show_name(names, raw.as_str());
        }
    }
    String::new()
}

/// The text of a message: that of the decompressed data where the message is compressed and could
/// be decompressed, else that of the data itself.
pub open spec fn message_text(data: Seq<u8>, ct: i64, decoded: Option<Seq<u8>>) -> Seq<char> {
    if ct == 4 && data.len() > 0 && decoded is Some {
        lossy_text(decoded->0)
    } else {
        lossy_text(data)
    }
}

/// The text of a message, given what decompression made of its data.
pub fn message_text_from(data: &[u8], ct: i64, decoded: Option<Vec<u8>>) -> (r: String)
    ensures
        r@ == message_text(
            data@,
            ct,
            match decoded {
                Some(d) => Some(d@),
                None => None,
            },
        ),
        ct != 4 && valid_utf8(data@) ==> r@ == decode_utf8(data@),
{
    if ct == 4 && data.len() > 0 {
        if let Some(d) = decoded {
            return utf8_lossy(d.as_slice());
        }
    }
    utf8_lossy(data)
}

/// The text of a message.
pub fn decompress_message(data: &[u8], ct: i64) -> (r: String)
    ensures
        r@ == message_text(data@, ct, zstd_decoded(data@)),
        ct != 4 && valid_utf8(data@) ==> r@ == decode_utf8(data@),
{
    if ct == 4 && data.len() > 0 {
        message_text_from(data, ct, zstd_decode(data))
    } else {
        message_text_from(data, ct, None)
    }
}

/// The text of a summary: that of the decompressed data where it is a text, else that of the data
/// itself.
pub open spec fn summary_text(data: Seq<u8>, decoded: Option<Seq<u8>>) -> Seq<char> {
    if data.len() == 0 {
        Seq::empty()
    } else if decoded is Some && valid_utf8(decoded->0) {
        decode_utf8(decoded->0)
    } else {
        lossy_text(data)
    }
}

/// The text of a summary, given what decompression made of its data.
pub fn summary_text_from(data: &[u8], decoded: Option<Vec<u8>>) -> (r: String)
    ensures
        r@ == summary_text(
            data@,
            match decoded {
                Some(d) => Some(d@),
                None => None,
            },
        ),
        decoded is None && valid_utf8(data@) ==> r@ == decode_utf8(data@),
{
    if data.len() == 0 {
        assert(decode_utf8(data@) =~= Seq::<char>::empty());
        return String::new();
    }
    if let Some(d) = decoded {
        if let Some(s) = utf8_text(d) {
            return s;
        }
    }
    utf8_lossy(data)
}

/// The text of a summary.
pub fn decompress_or_str(data: &[u8]) -> (r: String)
    ensures
        r@ == summary_text(data@, zstd_decoded(data@)),
{
    if data.len() == 0 {
        return String::new();
    }
    summary_text_from(data, zstd_decode(data))
}

} // verus!
