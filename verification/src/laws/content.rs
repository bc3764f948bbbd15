use vstd::prelude::*;
use vstd::utf8::{decode_utf8, valid_utf8};

use crate::content::{
    appmsg_summary, content_text, message_text, quoted, revoke_summary, sender_shown, shown_name,
    summary_text, sysmsg_summary, type_label, unescaped, without_prefix, xml_text,
};
use crate::laws::text::{
    is_word, law_begins, law_found, law_found_behind, law_line_of_words, law_not_found_without,
    law_replaced, law_replaced_nowhere, law_stands_where_found,
};
use crate::number::decimal;
use crate::outside::lossy_text;
use crate::text::{find, replaced, single_spaced, trimmed};

verus! {

/// The kind of a message is in the low thirty-two bits of its type: two types that agree in them
/// have one label, and messages of the two are shown alike.
pub proof fn law_low_bits_decide(a: i64, b: i64, local_id: i64, text: Seq<char>, is_group: bool)
    requires
        a as int % 4294967296 == b as int % 4294967296,
    ensures
        type_label(a) == type_label(b),
        content_text(local_id, a, text, is_group) == content_text(local_id, b, text, is_group),
{
}

/// What the kinds of messages are called.
pub proof fn law_kind_labels(t: i64)
    ensures
        ({
            let low = t as int % 4294967296;
            &&& low == 1 ==> type_label(t) == "文本"@
            &&& low == 3 ==> type_label(t) == "图片"@
            &&& low == 34 ==> type_label(t) == "语音"@
            &&& low == 42 ==> type_label(t) == "名片"@
            &&& low == 43 ==> type_label(t) == "视频"@
            &&& low == 47 ==> type_label(t) == "表情"@
            &&& low == 48 ==> type_label(t) == "位置"@
            &&& low == 49 ==> type_label(t) == "链接/文件"@
            &&& low == 50 ==> type_label(t) == "通话"@
            &&& low == 10000 ==> type_label(t) == "系统"@
            &&& low == 10002 ==> type_label(t) == "撤回"@
        }),
{
}

/// A kind without a name is called by its number.
pub proof fn law_other_kinds_numbered(t: i64, n: int)
    requires
        n == t as int % 4294967296,
        n != 1 && n != 3 && n != 34 && n != 42 && n != 43 && n != 47 && n != 48 && n != 49,
        n != 50 && n != 10000 && n != 10002,
    ensures
        type_label(t) == "type="@ + decimal(n),
{
}

/// What is shown of messages that are no text.
pub proof fn law_media_shown(local_id: i64, t: i64, text: Seq<char>, is_group: bool)
    ensures
        ({
            let low = t as int % 4294967296;
            let shown = content_text(local_id, t, text, is_group);
            &&& low == 3 ==> shown == "[图片] local_id="@ + decimal(local_id as int)
            &&& low == 34 ==> shown == "[语音]"@
            &&& low == 43 ==> shown == "[视频]"@
            &&& low == 47 ==> shown == "[表情]"@
            &&& low == 50 ==> shown == "[通话]"@
        }),
{
}

/// A system message and a recalled one are shown by what they say, and the name of a sender is not
/// taken off.
pub proof fn law_notices_shown(
    local_id: i64,
    t: i64,
    text: Seq<char>,
    is_group: bool,
    said: Seq<char>,
)
    requires
        xml_text(text, "content"@) == Some(said),
    ensures
        ({
            let low = t as int % 4294967296;
            let shown = content_text(local_id, t, text, is_group);
            &&& low == 10000 && 0 < said.len() <= 50 ==> shown == "[系统] "@ + said
            &&& low == 10000 && said.len() > 50 ==> shown == "[系统] "@ + said.take(50)
            &&& low == 10002 && 0 < said.len() <= 30 ==> shown == "[撤回] "@ + said
            &&& low == 10002 && said.len() > 30 ==> shown == "[撤回] "@ + said.take(30)
            &&& low == 10002 && said.len() == 0 ==> shown == "[撤回了一条消息]"@
        }),
{
}

/// A system message that says nothing is shown as it is, but for XML; a recalled one as recalled.
pub proof fn law_bare_notices_shown(local_id: i64, t: i64, text: Seq<char>, is_group: bool)
    requires
        xml_text(text, "content"@) is None || xml_text(text, "content"@)->0.len() == 0,
    ensures
        ({
            let low = t as int % 4294967296;
            let shown = content_text(local_id, t, text, is_group);
            let xml = text.len() > 0 && text[0] == '<';
            &&& low == 10000 && xml ==> shown == "[系统消息]"@
            &&& low == 10000 && !xml && text.len() <= 50 ==> shown == "[系统] "@ + text
            &&& low == 10000 && !xml && text.len() > 50 ==> shown == "[系统] "@ + text.take(50)
            &&& low == 10002 ==> shown == "[撤回了一条消息]"@
        }),
{
    reveal_strlit("<");
    law_begins(text, "<"@, Seq::empty());
    if text.len() > 0 && text[0] == '<' {
        assert(text.subrange(0, 1) =~= "<"@);
    }
}

/// A message of a private chat is shown as it is, where it is neither of the kinds that are not
/// texts nor a shared item.
pub proof fn law_private_text_shown(local_id: i64, t: i64, text: Seq<char>)
    requires
        ({
            let low = t as int % 4294967296;
            &&& low != 3 && low != 34 && low != 43 && low != 47 && low != 50
            &&& low != 10000 && low != 10002 && low != 49
        }),
    ensures
        content_text(local_id, t, text, false) == text,
{
}

/// A message of a group is shown without what stands before the first colon with a line feed, and
/// without these.
pub proof fn law_group_text_shown(local_id: i64, t: i64, text: Seq<char>)
    requires
        ({
            let low = t as int % 4294967296;
            &&& low != 3 && low != 34 && low != 43 && low != 47 && low != 50
            &&& low != 10000 && low != 10002 && low != 49
        }),
    ensures
        match find(text, seq![':', '\n']) {
            Some(i) => content_text(local_id, t, text, true) == text.skip(i + 2),
            None => content_text(local_id, t, text, true) == text,
        },
{
    law_prefix_taken_off(text);
}

/// What stands before the first colon with a line feed is the sender, and is taken off.
pub proof fn law_prefix_taken_off(text: Seq<char>)
    ensures
        match find(text, seq![':', '\n']) {
            Some(i) => without_prefix(text) == text.skip(i + 2),
            None => without_prefix(text) == text,
        },
{
    reveal_strlit(":\n");
    assert(":\n"@ =~= seq![':', '\n']);
}

/// A shared item is shown by its summary: where the low thirty-two bits of the type are forty-nine,
/// the text holds an `<appmsg` somewhere and has a title.
pub proof fn law_item_shown(local_id: i64, t: i64, text: Seq<char>, i: int)
    requires
        t as int % 4294967296 == 49,
        0 <= i,
        i + 7 <= text.len(),
        text.subrange(i, i + 7) == seq!['<', 'a', 'p', 'p', 'm', 's', 'g'],
        xml_text(text, "title"@) is Some,
    ensures
        appmsg_summary(text) is Some,
        content_text(local_id, t, text, false) == appmsg_summary(text)->0,
{
    reveal_strlit("<appmsg");
    assert("<appmsg"@ =~= seq!['<', 'a', 'p', 'p', 'm', 's', 'g']);
    law_found(text, "<appmsg"@, i);
}

/// The same in a group, with the sender taken off.
pub proof fn law_group_item_shown(local_id: i64, t: i64, text: Seq<char>, said: Seq<char>)
    requires
        t as int % 4294967296 == 49,
        match find(text, seq![':', '\n']) {
            Some(i) => said == text.skip(i + 2),
            None => said == text,
        },
    ensures
        content_text(local_id, t, text, true) == content_text(local_id, t, said, false),
        find(said, "<appmsg"@) is Some && xml_text(said, "title"@) is Some ==> appmsg_summary(
            said,
        ) is Some && content_text(local_id, t, text, true) == appmsg_summary(said)->0,
{
    law_prefix_taken_off(text);
    law_stands_where_found(said, "<appmsg"@);
}

/// A message of that kind that is no item, or has no title, is shown as it is.
pub proof fn law_no_item_shown(local_id: i64, t: i64, text: Seq<char>)
    requires
        t as int % 4294967296 == 49,
        find(text, "<appmsg"@) is None || xml_text(text, "title"@) is None,
    ensures
        content_text(local_id, t, text, false) == text,
{
    law_stands_where_found(text, "<appmsg"@);
}

/// What an item is called goes by its type: a file, a small program, a quotation or a link.
pub proof fn law_item_summary(text: Seq<char>, title: Seq<char>, kind: Seq<char>)
    requires
        xml_text(text, "title"@) == Some(title),
        xml_text(text, "type"@) == Some(kind) || (xml_text(text, "type"@) is None && kind.len()
            == 0),
    ensures
        appmsg_summary(text) is Some,
        ({
            let shown = appmsg_summary(text)->0;
            let program = kind == seq!['3', '3'] || kind == seq!['3', '6'] || kind == seq![
                '4',
                '4',
            ];
            let quote = kind == seq!['5', '7'];
            let file = kind == seq!['6'];
            &&& title.len() > 0 && file ==> shown == "[文件] "@ + title
            &&& title.len() > 0 && program ==> shown == "[小程序] "@ + title
            &&& title.len() > 0 && !file && !program && !quote ==> shown == "[链接] "@ + title
            &&& title.len() == 0 && file ==> shown == "[文件]"@
            &&& title.len() == 0 && program ==> shown == "[小程序]"@
            &&& title.len() == 0 && !file && !program && !quote ==> shown == "[链接/文件]"@
        }),
{
    lemma_kinds();
    if xml_text(text, "type"@) is None {
        assert(kind =~= Seq::<char>::empty());
    }
}

proof fn lemma_kinds()
    ensures
        "6"@ == seq!['6'],
        "57"@ == seq!['5', '7'],
        "33"@ == seq!['3', '3'],
        "36"@ == seq!['3', '6'],
        "44"@ == seq!['4', '4'],
{
    reveal_strlit("6");
    reveal_strlit("57");
    reveal_strlit("33");
    reveal_strlit("36");
    reveal_strlit("44");
    assert("6"@ =~= seq!['6']);
    assert("57"@ =~= seq!['5', '7']);
    assert("33"@ =~= seq!['3', '3']);
    assert("36"@ =~= seq!['3', '6']);
    assert("44"@ =~= seq!['4', '4']);
}

/// A quotation is shown by its own title, with what it quotes on a line of its own below.
pub proof fn law_quotation_summary(text: Seq<char>, title: Seq<char>, inner: Seq<char>)
    requires
        xml_text(text, "title"@) == Some(title),
        xml_text(text, "type"@) == Some(seq!['5', '7']),
        xml_text(text, "content"@) == Some(inner) || (xml_text(text, "content"@) is None
            && inner.len() == 0),
    ensures
        appmsg_summary(text) is Some,
        ({
            let shown = appmsg_summary(text)->0;
            let first = if title.len() > 0 {
                "[引用] "@ + title
            } else {
                "[引用]"@
            };
            &&& inner.len() == 0 ==> shown == first
            &&& xml_text(text, "content"@) is Some && quoted(inner).len() > 0 ==> shown == first
                + "\n  \u{21b3} "@ + quoted(inner)
            &&& xml_text(text, "content"@) is Some && quoted(inner).len() == 0 ==> shown == first
        }),
{
    lemma_kinds();
    crate::content::lemma_xml_text_shorter(text, "content"@);
    if inner.len() == 0 {
        assert(inner =~= Seq::<char>::empty());
        lemma_nothing_quoted();
    }
}

proof fn lemma_nothing_quoted()
    ensures
        quoted(Seq::empty()) == Seq::<char>::empty(),
{
    let none = Seq::<char>::empty();
    law_unescaped_plain(none);
    reveal_strlit("<appmsg");
    law_not_found_without(none, "<appmsg"@, '<');
    law_line_of_words(seq!['x'], ' ', none);
}

/// Of what is quoted the first forty characters are shown, with dots where there is more.
pub proof fn law_quoted_word(s: Seq<char>)
    requires
        s.len() > 0,
        is_word(s),
        !s.contains('&'),
        !s.contains('<'),
    ensures
        s.len() <= 40 ==> quoted(s) == s,
        s.len() > 40 ==> quoted(s) == s.take(40) + "..."@,
{
    law_unescaped_plain(s);
    reveal_strlit("<appmsg");
    law_not_found_without(s, "<appmsg"@, '<');
    law_line_of_words(s, ' ', Seq::empty());
}

/// What is quoted is shown on one line, with the references in it resolved, and cut after forty
/// characters, where it is no shared item.
pub proof fn law_quoted_line(s: Seq<char>)
    requires
        find(unescaped(s), "<appmsg"@) is None || xml_text(unescaped(s), "title"@) is None,
    ensures
        ({
            let line = single_spaced(unescaped(s));
            &&& line.len() <= 40 ==> quoted(s) == line
            &&& line.len() > 40 ==> quoted(s) == line.take(40) + "..."@
        }),
{
    law_stands_where_found(unescaped(s), "<appmsg"@);
}

/// A shared item that is quoted is shown by its own summary.
pub proof fn law_quoted_item(s: Seq<char>)
    requires
        find(unescaped(s), "<appmsg"@) is Some,
        xml_text(unescaped(s), "title"@) is Some,
    ensures
        appmsg_summary(unescaped(s)) is Some,
        quoted(s) == appmsg_summary(unescaped(s))->0,
{
    law_stands_where_found(unescaped(s), "<appmsg"@);
}

/// An item without a title has no summary.
pub proof fn law_untitled_item(text: Seq<char>)
    requires
        xml_text(text, "title"@) is None,
    ensures
        appmsg_summary(text) is None,
{
}

/// A text without an ampersand has nothing to resolve.
pub proof fn law_unescaped_plain(s: Seq<char>)
    requires
        !s.contains('&'),
    ensures
        unescaped(s) == s,
{
    lemma_references();
    law_not_found_without(s, "&lt;"@, '&');
    law_not_found_without(s, "&gt;"@, '&');
    law_not_found_without(s, "&amp;"@, '&');
    law_not_found_without(s, "&quot;"@, '&');
    law_not_found_without(s, "&apos;"@, '&');
}

proof fn lemma_references()
    ensures
        "&lt;"@ == seq!['&', 'l', 't', ';'],
        "&gt;"@ == seq!['&', 'g', 't', ';'],
        "&amp;"@ == seq!['&', 'a', 'm', 'p', ';'],
        "&quot;"@ == seq!['&', 'q', 'u', 'o', 't', ';'],
        "&apos;"@ == seq!['&', 'a', 'p', 'o', 's', ';'],
        "<"@ == seq!['<'],
        ">"@ == seq!['>'],
        "&"@ == seq!['&'],
        "\""@ == seq!['"'],
        "'"@ == seq!['\''],
{
    reveal_strlit("&lt;");
    reveal_strlit("&gt;");
    reveal_strlit("&amp;");
    reveal_strlit("&quot;");
    reveal_strlit("&apos;");
    reveal_strlit("<");
    reveal_strlit(">");
    reveal_strlit("&");
    reveal_strlit("\"");
    reveal_strlit("'");
    assert("&lt;"@ =~= seq!['&', 'l', 't', ';']);
    assert("&gt;"@ =~= seq!['&', 'g', 't', ';']);
    assert("&amp;"@ =~= seq!['&', 'a', 'm', 'p', ';']);
    assert("&quot;"@ =~= seq!['&', 'q', 'u', 'o', 't', ';']);
    assert("&apos;"@ =~= seq!['&', 'a', 'p', 'o', 's', ';']);
    assert("<"@ =~= seq!['<']);
    assert(">"@ =~= seq!['>']);
    assert("&"@ =~= seq!['&']);
    assert("\""@ =~= seq!['"']);
    assert("'"@ =~= seq!['\'']);
}

/// A text in which a reference does not stand: there is one ampersand, and another follows it.
proof fn lemma_other_reference(a: Seq<char>, p: Seq<char>, b: Seq<char>, q: Seq<char>)
    requires
        p.len() > 1,
        q.len() > 1,
        p[0] == '&',
        q[0] == '&',
        !a.contains('&'),
        !b.contains('&'),
        forall|k: int| 1 <= k < p.len() ==> #[trigger] p[k] != '&',
        exists|k: int| 0 <= k < p.len() && k < q.len() && #[trigger] p[k] != q[k],
    ensures
        find(a + p + b, q) is None,
{
    let s = a + p + b;
    law_stands_where_found(s, q);
    if let Some(i) = find(s, q) {
        let n = a.len() as int;
        assert(s.subrange(i, i + q.len())[0] == '&');
        assert(s[i] == '&');
        if i < n {
            assert(a[i] == '&');
        } else if i < n + p.len() {
            assert(p[i - n] == '&');
            assert(i == n);
            let k = choose|k: int| 0 <= k < p.len() && k < q.len() && #[trigger] p[k] != q[k];
            assert(s.subrange(i, i + q.len())[k] == s[n + k]);
            assert(s[n + k] == p[k]);
        } else {
            assert(b[i - n - p.len()] == '&');
        }
    }
}

/// A reference in a text without other ampersands is resolved.
proof fn lemma_one_resolved(a: Seq<char>, p: Seq<char>, b: Seq<char>, to: Seq<char>)
    requires
        p.len() > 1,
        p[0] == '&',
        !a.contains('&'),
        !b.contains('&'),
    ensures
        replaced(a + p + b, p, to) == a + to + b,
{
    law_found_behind(a, p, b, '&');
    law_replaced(a, p, b, to);
    law_not_found_without(b, p, '&');
    law_replaced_nowhere(b, p, to);
}

proof fn lemma_plain_then(s: Seq<char>, p: Seq<char>, to: Seq<char>)
    requires
        p.len() > 0,
        p[0] == '&',
        !s.contains('&'),
    ensures
        replaced(s, p, to) == s,
{
    law_not_found_without(s, p, '&');
    law_replaced_nowhere(s, p, to);
}

proof fn lemma_no_ampersand(a: Seq<char>, c: char, b: Seq<char>)
    requires
        !a.contains('&'),
        !b.contains('&'),
        c != '&',
    ensures
        !(a + seq![c] + b).contains('&'),
{
    let s = a + seq![c] + b;
    if s.contains('&') {
        let k = choose|k: int| 0 <= k < s.len() && s[k] == '&';
        if k < a.len() {
            assert(a[k] == '&');
        } else if k > a.len() {
            assert(b[k - a.len() - 1] == '&');
        }
    }
}

/// The references of HTML stand for their characters.
pub proof fn law_references_resolved(a: Seq<char>, b: Seq<char>)
    requires
        !a.contains('&'),
        !b.contains('&'),
    ensures
        unescaped(a + seq!['&', 'l', 't', ';'] + b) == a + seq!['<'] + b,
        unescaped(a + seq!['&', 'g', 't', ';'] + b) == a + seq!['>'] + b,
        unescaped(a + seq!['&', 'q', 'u', 'o', 't', ';'] + b) == a + seq!['"'] + b,
        unescaped(a + seq!['&', 'a', 'p', 'o', 's', ';'] + b) == a + seq!['\''] + b,
{
    lemma_references();
    lemma_less_resolved(a, b);
    lemma_greater_resolved(a, b);
    lemma_quotation_resolved(a, b);
    lemma_apostrophe_resolved(a, b);
}

proof fn lemma_seconds()
    ensures
        "&lt;"@.len() > 1 && "&gt;"@.len() > 1 && "&amp;"@.len() > 2 && "&quot;"@.len() > 1
            && "&apos;"@.len() > 2,
        "&lt;"@[0] == '&' && "&gt;"@[0] == '&' && "&amp;"@[0] == '&' && "&quot;"@[0] == '&'
            && "&apos;"@[0] == '&',
        "&lt;"@[1] == 'l' && "&gt;"@[1] == 'g' && "&amp;"@[1] == 'a' && "&quot;"@[1] == 'q'
            && "&apos;"@[1] == 'a',
        "&amp;"@[2] == 'm' && "&apos;"@[2] == 'p',
        forall|k: int| 1 <= k < "&gt;"@.len() ==> #[trigger] "&gt;"@[k] != '&',
        forall|k: int| 1 <= k < "&quot;"@.len() ==> #[trigger] "&quot;"@[k] != '&',
        forall|k: int| 1 <= k < "&apos;"@.len() ==> #[trigger] "&apos;"@[k] != '&',
{
    lemma_references();
}

proof fn lemma_less_resolved(a: Seq<char>, b: Seq<char>)
    requires
        !a.contains('&'),
        !b.contains('&'),
    ensures
        unescaped(a + "&lt;"@ + b) == a + seq!['<'] + b,
{
    lemma_seconds();
    lemma_one_resolved(a, "&lt;"@, b, "<"@);
    assert("<"@ == seq!['<']) by {
        lemma_references();
    }
    let s = a + seq!['<'] + b;
    lemma_no_ampersand(a, '<', b);
    lemma_plain_then(s, "&gt;"@, ">"@);
    lemma_plain_then(s, "&amp;"@, "&"@);
    lemma_plain_then(s, "&quot;"@, "\""@);
    lemma_plain_then(s, "&apos;"@, "'"@);
}

proof fn lemma_greater_resolved(a: Seq<char>, b: Seq<char>)
    requires
        !a.contains('&'),
        !b.contains('&'),
    ensures
        unescaped(a + "&gt;"@ + b) == a + seq!['>'] + b,
{
    lemma_seconds();
    let t = a + "&gt;"@ + b;
    lemma_other_reference(a, "&gt;"@, b, "&lt;"@);
    law_replaced_nowhere(t, "&lt;"@, "<"@);
    lemma_one_resolved(a, "&gt;"@, b, ">"@);
    assert(">"@ == seq!['>']) by {
        lemma_references();
    }
    let s = a + seq!['>'] + b;
    lemma_no_ampersand(a, '>', b);
    lemma_plain_then(s, "&amp;"@, "&"@);
    lemma_plain_then(s, "&quot;"@, "\""@);
    lemma_plain_then(s, "&apos;"@, "'"@);
}

proof fn lemma_quotation_resolved(a: Seq<char>, b: Seq<char>)
    requires
        !a.contains('&'),
        !b.contains('&'),
    ensures
        unescaped(a + "&quot;"@ + b) == a + seq!['"'] + b,
{
    lemma_seconds();
    let t = a + "&quot;"@ + b;
    lemma_other_reference(a, "&quot;"@, b, "&lt;"@);
    lemma_other_reference(a, "&quot;"@, b, "&gt;"@);
    lemma_other_reference(a, "&quot;"@, b, "&amp;"@);
    law_replaced_nowhere(t, "&lt;"@, "<"@);
    law_replaced_nowhere(t, "&gt;"@, ">"@);
    law_replaced_nowhere(t, "&amp;"@, "&"@);
    lemma_one_resolved(a, "&quot;"@, b, "\""@);
    assert("\""@ == seq!['"']) by {
        lemma_references();
    }
    let s = a + seq!['"'] + b;
    lemma_no_ampersand(a, '"', b);
    lemma_plain_then(s, "&apos;"@, "'"@);
}

proof fn lemma_apostrophe_resolved(a: Seq<char>, b: Seq<char>)
    requires
        !a.contains('&'),
        !b.contains('&'),
    ensures
        unescaped(a + "&apos;"@ + b) == a + seq!['\''] + b,
{
    lemma_seconds();
    let t = a + "&apos;"@ + b;
    lemma_other_reference(a, "&apos;"@, b, "&lt;"@);
    lemma_other_reference(a, "&apos;"@, b, "&gt;"@);
    lemma_other_reference(a, "&apos;"@, b, "&amp;"@);
    lemma_other_reference(a, "&apos;"@, b, "&quot;"@);
    law_replaced_nowhere(t, "&lt;"@, "<"@);
    law_replaced_nowhere(t, "&gt;"@, ">"@);
    law_replaced_nowhere(t, "&amp;"@, "&"@);
    law_replaced_nowhere(t, "&quot;"@, "\""@);
    lemma_one_resolved(a, "&apos;"@, b, "'"@);
    assert("'"@ == seq!['\'']) by {
        lemma_references();
    }
}

/// An escaped ampersand becomes one, and what follows it is not resolved once more as an angle
/// bracket.
pub proof fn law_ampersand_resolved(a: Seq<char>, b: Seq<char>)
    requires
        !a.contains('&'),
        !b.contains('&'),
        b.len() > 0 ==> b[0] != 'q' && b[0] != 'a',
    ensures
        unescaped(a + seq!['&', 'a', 'm', 'p', ';'] + b) == a + seq!['&'] + b,
{
    lemma_references();
    let lt = "&lt;"@;
    let gt = "&gt;"@;
    let amp = "&amp;"@;
    let quot = "&quot;"@;
    let apos = "&apos;"@;
    assert(lt[1] == 'l' && gt[1] == 'g' && amp[1] == 'a');
    lemma_other_reference(a, amp, b, lt);
    lemma_other_reference(a, amp, b, gt);
    lemma_one_resolved(a, amp, b, "&"@);
    let s = a + seq!['&'] + b;
    lemma_not_quote(a, b, quot, 'q');
    lemma_not_quote(a, b, apos, 'a');
    law_replaced_nowhere(s, quot, "\""@);
    law_replaced_nowhere(s, apos, "'"@);
}

proof fn lemma_not_quote(a: Seq<char>, b: Seq<char>, q: Seq<char>, c: char)
    requires
        q.len() > 1,
        q[0] == '&',
        q[1] == c,
        c != '&',
        !a.contains('&'),
        !b.contains('&'),
        b.len() > 0 ==> b[0] != c,
    ensures
        find(a + seq!['&'] + b, q) is None,
{
    let s = a + seq!['&'] + b;
    law_stands_where_found(s, q);
    if let Some(i) = find(s, q) {
        let n = a.len() as int;
        assert(s.subrange(i, i + q.len())[0] == s[i]);
        assert(s.subrange(i, i + q.len())[1] == s[i + 1]);
        if i < n {
            assert(a[i] == '&');
        } else if i == n {
            assert(s[n + 1] == b[0]);
        } else {
            assert(b[i - n - 1] == '&');
        }
    }
}

/// The text of an element is what stands between its two tags, without the white space around it.
pub proof fn law_element_text(tag: Seq<char>, a: Seq<char>, inner: Seq<char>, b: Seq<char>)
    requires
        !a.contains('<'),
        !inner.contains('<'),
    ensures
        xml_text(
            a + (seq!['<'] + tag + seq!['>']) + (inner + (seq!['<', '/'] + tag + seq!['>']) + b),
            tag,
        ) == Some(trimmed(inner)),
{
    lemma_tags(tag);
    let open = "<"@ + tag + ">"@;
    let close = "</"@ + tag + ">"@;
    let rest = inner + close + b;
    let xml = a + open + rest;
    law_found_behind(a, open, rest, '<');
    assert(xml.skip((a.len() + open.len()) as int) =~= rest);
    law_found_behind(inner, close, b, '<');
    assert(rest.take(inner.len() as int) =~= inner);
}

proof fn lemma_tags(tag: Seq<char>)
    ensures
        "<"@ + tag + ">"@ == seq!['<'] + tag + seq!['>'],
        "</"@ + tag + ">"@ == seq!['<', '/'] + tag + seq!['>'],
{
    reveal_strlit("<");
    reveal_strlit(">");
    reveal_strlit("</");
    assert("<"@ =~= seq!['<']);
    assert(">"@ =~= seq!['>']);
    assert("</"@ =~= seq!['<', '/']);
}

/// The first element with a tag counts: what stands before it may hold other elements.
pub proof fn law_first_element(xml: Seq<char>, tag: Seq<char>, i: int, j: int)
    requires
        find(xml, seq!['<'] + tag + seq!['>']) == Some(i),
        find(xml.skip(i + tag.len() + 2), seq!['<', '/'] + tag + seq!['>']) == Some(j),
    ensures
        xml_text(xml, tag) == Some(trimmed(xml.subrange(i + tag.len() + 2, i + tag.len() + 2 + j))),
{
    lemma_tags(tag);
    law_stands_where_found(xml, seq!['<'] + tag + seq!['>']);
    let k = i + tag.len() + 2;
    let rest = xml.skip(k);
    law_stands_where_found(rest, seq!['<', '/'] + tag + seq!['>']);
    assert(rest.take(j) =~= xml.subrange(k, k + j));
}

/// There is no element without its two tags.
pub proof fn law_no_element(xml: Seq<char>, tag: Seq<char>)
    requires
        match find(xml, seq!['<'] + tag + seq!['>']) {
            Some(i) => find(
                xml.skip(i + tag.len() + 2),
                seq!['<', '/'] + tag + seq!['>'],
            ) is None,
            None => true,
        },
    ensures
        xml_text(xml, tag) is None,
{
    lemma_tags(tag);
}

/// The summaries of notices hold no more of them than there is room for.
pub proof fn law_notice_summaries(xml: Seq<char>, said: Seq<char>)
    requires
        xml_text(xml, "content"@) == Some(said),
        said.len() > 0,
    ensures
        revoke_summary(xml) == Some("[撤回] "@ + (if said.len() > 30 {
            said.take(30)
        } else {
            said
        })),
        sysmsg_summary(xml) == "[系统] "@ + (if said.len() > 50 {
            said.take(50)
        } else {
            said
        }),
{
}

/// A user is shown by the display name where there is one, else by the user name.
pub proof fn law_shown_name(names: Map<Seq<char>, String>, u: Seq<char>)
    ensures
        names.contains_key(u) ==> shown_name(names, u) == names[u]@,
        !names.contains_key(u) ==> shown_name(names, u) == u,
{
}

/// The sender whom the table names is shown by the display name, but not the chat itself.
pub proof fn law_known_sender_shown(
    id: i64,
    text: Seq<char>,
    is_group: bool,
    chat: Seq<char>,
    id2u: Map<i64, String>,
    names: Map<Seq<char>, String>,
)
    requires
        id2u.contains_key(id),
        id2u[id]@.len() > 0,
        id2u[id]@ != chat,
    ensures
        names.contains_key(id2u[id]@) ==> sender_shown(id, text, is_group, chat, id2u, names)
            == names[id2u[id]@]@,
        !names.contains_key(id2u[id]@) ==> sender_shown(id, text, is_group, chat, id2u, names)
            == id2u[id]@,
{
}

/// Where the table does not name the sender, or names the chat itself: in a private chat nobody is
/// shown, in a group whoever stands before the first colon with a line feed.
pub proof fn law_other_sender_shown(
    id: i64,
    text: Seq<char>,
    chat: Seq<char>,
    id2u: Map<i64, String>,
    names: Map<Seq<char>, String>,
)
    requires
        !id2u.contains_key(id) || id2u[id]@.len() == 0 || id2u[id]@ == chat,
    ensures
        sender_shown(id, text, false, chat, id2u, names).len() == 0,
        match find(text, seq![':', '\n']) {
            Some(i) => {
                let sender = text.take(i);
                let shown = sender_shown(id, text, true, chat, id2u, names);
                &&& names.contains_key(sender) ==> shown == names[sender]@
                &&& !names.contains_key(sender) ==> shown == sender
            },
            None => sender_shown(id, text, true, chat, id2u, names).len() == 0,
        },
{
    reveal_strlit(":\n");
    assert(":\n"@ =~= seq![':', '\n']);
    law_stands_where_found(text, ":\n"@);
}

/// A message that is not compressed is its own text, and one that is compressed the text of what
/// decompression gave.
pub proof fn law_message_text(data: Seq<u8>, ct: i64, decoded: Seq<u8>)
    ensures
        ct != 4 ==> message_text(data, ct, Some(decoded)) == lossy_text(data),
        ct == 4 && data.len() > 0 ==> message_text(data, ct, Some(decoded)) == lossy_text(decoded),
        message_text(data, ct, None) == lossy_text(data),
{
}

/// A summary is the text of what decompression gave, where that is a text, else its own text.
pub proof fn law_summary_text(data: Seq<u8>, decoded: Seq<u8>)
    requires
        data.len() > 0,
    ensures
        valid_utf8(decoded) ==> summary_text(data, Some(decoded)) == decode_utf8(decoded),
        !valid_utf8(decoded) ==> summary_text(data, Some(decoded)) == lossy_text(data),
        summary_text(data, None) == lossy_text(data),
        summary_text(Seq::empty(), Some(decoded)).len() == 0,
{
}

} // verus!
