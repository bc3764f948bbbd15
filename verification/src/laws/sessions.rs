use vstd::prelude::*;
use vstd::utf8::{decode_utf8, valid_utf8};

use crate::laws::content::law_prefix_taken_off;
use crate::names::{chat_type, Names};
use crate::order::first_of;
use crate::outside::{lossy_text, lowercase, zstd_decoded};
use crate::sessions::{
    asked, filter_words, narrowed, tell_sessions, SessionEntry, SessionRow, TypeSet,
};
use crate::text::{find, trimmed};
use crate::time::shows_time;

verus! {

/// Each word of a filter that is known asks for its own type of chat and no other.
pub proof fn law_words_ask(words: Seq<Seq<char>>)
    ensures
        narrowed(words) matches Some(set) ==> {
            &&& set.private == words.contains("private"@)
            &&& set.group == words.contains("group"@)
            &&& set.official == (words.contains("official"@) || words.contains("official_account"@))
            &&& set.folded == (words.contains("folded"@) || words.contains("fold"@))
        },
{
}

/// A filter narrows the list just where it asks for a type of chat, and neither for all nor for
/// nothing.
pub proof fn law_filter_narrows(words: Seq<Seq<char>>)
    ensures
        narrowed(words) is Some <==> {
            &&& !words.contains("all"@)
            &&& !words.contains(Seq::empty())
            &&& {
                ||| words.contains("private"@) || words.contains("group"@)
                ||| words.contains("official"@) || words.contains("official_account"@)
                ||| words.contains("folded"@) || words.contains("fold"@)
            }
        },
{
    reveal_strlit("");
    assert(""@ =~= Seq::<char>::empty());
}

/// A word that asks for one type of chat, alone in a filter, narrows the list to this type.
pub proof fn law_single_word(w: Seq<char>)
    requires
        w == "private"@ || w == "group"@ || w == "official"@ || w == "official_account"@ || w
            == "folded"@ || w == "fold"@,
    ensures
        narrowed(seq![w]) is Some,
        narrowed(seq![w])->0.private == (w == "private"@),
        narrowed(seq![w])->0.group == (w == "group"@),
        narrowed(seq![w])->0.official == (w == "official"@ || w == "official_account"@),
        narrowed(seq![w])->0.folded == (w == "folded"@ || w == "fold"@),
{
    let words = seq![w];
    assert(words[0] == w);
    assert forall|x: Seq<char>| words.contains(x) implies x == w by {}
    reveal_strlit("private");
    reveal_strlit("group");
    reveal_strlit("official");
    reveal_strlit("official_account");
    reveal_strlit("folded");
    reveal_strlit("fold");
    reveal_strlit("all");
    assert("private"@.len() == 7);
    assert("group"@.len() == 5);
    assert("official"@.len() == 8);
    assert("official_account"@.len() == 16);
    assert("folded"@.len() == 6);
    assert("fold"@.len() == 4);
    assert("all"@.len() == 3);
    law_filter_narrows(words);
    law_words_ask(words);
    if words.contains("all"@) {
        assert("all"@ == w);
    }
    if words.contains(Seq::empty()) {
        assert(Seq::<char>::empty() == w);
    }
}

/// The words of a filter count without the white space around them and in lower case.
pub proof fn law_filter_words(filter: Seq<Seq<char>>, i: int)
    requires
        0 <= i < filter.len(),
    ensures
        filter_words(filter).len() == filter.len(),
        filter_words(filter)[i] == lowercase(trimmed(filter[i])),
{
}

/// Without a filter every chat is listed, with one just those of a type that it has.
pub proof fn law_asked(set: TypeSet, names: Names, row: SessionRow)
    ensures
        asked(None, names, row),
        ({
            let kind = chat_type(row.username@, names.verified(row.username@));
            &&& kind == "private"@ ==> asked(Some(set), names, row) == set.private
            &&& kind == "group"@ ==> asked(Some(set), names, row) == set.group
            &&& kind == "official_account"@ ==> asked(Some(set), names, row) == set.official
            &&& kind == "folded"@ ==> asked(Some(set), names, row) == set.folded
        }),
{
    reveal_strlit("group");
    reveal_strlit("folded");
    reveal_strlit("official_account");
    reveal_strlit("private");
    assert("group"@.len() == 5);
    assert("folded"@.len() == 6);
    assert("official_account"@.len() == 16);
    assert("private"@.len() == 7);
}

/// A chat is listed with what its row says of it.
pub proof fn law_session_listed(e: SessionEntry, row: SessionRow, text: Seq<char>, names: Names)
    requires
        e.tells(row, text, names),
    ensures
        e.chat.username@ == row.username@,
        names.map@.contains_key(row.username@) ==> e.chat.display@ == names.map@[row.username@]@,
        !names.map@.contains_key(row.username@) ==> e.chat.display@ == row.username@,
        e.unread == row.unread,
        e.timestamp == row.last_timestamp,
        shows_time(row.last_timestamp, "%m-%d %H:%M"@, e.time@),
        e.last_msg_type@ == crate::content::type_label(row.last_msg_type),
{
}

/// The summary of a chat is shown without the sender that stands before it.
pub proof fn law_session_summary(e: SessionEntry, row: SessionRow, text: Seq<char>, names: Names)
    requires
        e.tells(row, text, names),
    ensures
        match find(text, seq![':', '\n']) {
            Some(i) => e.summary@ == text.skip(i + 2),
            None => e.summary@ == text,
        },
{
    law_prefix_taken_off(text);
}

/// The sender of the last message is shown in groups alone: by the display name of the contacts,
/// else by the name of the row, else by the user name.
pub proof fn law_last_sender(e: SessionEntry, row: SessionRow, text: Seq<char>, names: Names)
    requires
        e.tells(row, text, names),
    ensures
        ({
            let s = row.sender@;
            &&& !e.chat.is_group || s.len() == 0 ==> e.last_sender@.len() == 0
            &&& e.chat.is_group && s.len() > 0 && names.map@.contains_key(s) ==> e.last_sender@
                == names.map@[s]@
            &&& e.chat.is_group && s.len() > 0 && !names.map@.contains_key(s)
                && row.sender_name@.len() > 0 ==> e.last_sender@ == row.sender_name@
            &&& e.chat.is_group && s.len() > 0 && !names.map@.contains_key(s)
                && row.sender_name@.len() == 0 ==> e.last_sender@ == s
        }),
{
}

/// The chats that are listed are those of a type that is asked for, from the first row on: none of
/// them is left out before the list is full.
pub proof fn law_unread_complete(
    all: Seq<SessionEntry>,
    rows: Seq<SessionRow>,
    types: Option<TypeSet>,
    names: Names,
    limit: int,
    i: int,
)
    requires
        0 <= limit,
        0 <= i < rows.len(),
        asked(types, names, rows[i]),
        tell_sessions(
            all,
            first_of(rows.filter(|row: SessionRow| asked(types, names, row)), limit),
            names,
        ),
    ensures
        all.len() <= limit,
        all.len() < limit ==> exists|k: int|
            0 <= k < all.len() && (#[trigger] all[k]).tells(rows[i], rows[i].text(), names),
{
    let want = |row: SessionRow| asked(types, names, row);
    let kept = rows.filter(want);
    if all.len() < limit {
        assert(first_of(kept, limit) == kept);
        assert(want(rows[i]));
        rows.lemma_filter_contains(want, i);
        let k = choose|k: int| 0 <= k < kept.len() && kept[k] == rows[i];
        assert(all[k].tells(kept[k], kept[k].text(), names));
    }
}

/// The text of a row's summary is that of what decompression gives, where that is a text, else its
/// own.
pub proof fn law_row_summary(row: SessionRow)
    ensures
        row.summary@.len() == 0 ==> row.text().len() == 0,
        row.summary@.len() > 0 && zstd_decoded(row.summary@) is None ==> row.text() == lossy_text(
            row.summary@,
        ),
        row.summary@.len() > 0 && zstd_decoded(row.summary@) is Some && valid_utf8(
            zstd_decoded(row.summary@)->0,
        ) ==> row.text() == decode_utf8(zstd_decoded(row.summary@)->0),
        row.summary@.len() > 0 && zstd_decoded(row.summary@) is Some && !valid_utf8(
            zstd_decoded(row.summary@)->0,
        ) ==> row.text() == lossy_text(row.summary@),
{
}

} // verus!
