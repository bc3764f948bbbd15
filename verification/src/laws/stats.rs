use vstd::prelude::*;

use crate::content::{shown_name, type_label};
use crate::laws::order::{law_all_of_from, law_all_of_holds};
use crate::messages::Chat;
use crate::names::Names;
use crate::order::{all_of, lemma_text_lt_irreflexive, text_lt};
use crate::stats::{
    all_kind_parts, all_kinds, all_sender_parts, all_senders, all_times, count_weight, counts_fit,
    hour_count, kind_parts, rows_weight, sender_parts, show_hours, shows_hour, total_count, Stats,
    TableCounts,
};
use crate::tally::{ranked, sum_for, Tally};

verus! {

/// What is counted under a name adds up.
pub proof fn law_sum_for(all: Seq<(Seq<char>, int)>, name: Seq<char>, other: Seq<char>, n: int)
    ensures
        sum_for(Seq::empty(), name) == 0,
        sum_for(all.push((name, n)), name) == sum_for(all, name) + n,
        other != name ==> sum_for(all.push((other, n)), name) == sum_for(all, name),
{
    assert(all.push((name, n)).drop_last() =~= all);
    assert(all.push((other, n)).drop_last() =~= all);
}

/// A ranking names everything that was counted, once, with its sum, and nothing else.
pub proof fn law_ranking_complete(ranks: Seq<Tally>, all: Seq<(Seq<char>, int)>, k: int)
    requires
        ranked(ranks, all),
        0 <= k < all.len(),
    ensures
        exists|i: int|
            0 <= i < ranks.len() && (#[trigger] ranks[i]).name@ == all[k].0 && ranks[i].count
                == sum_for(all, all[k].0),
{
    assert(crate::tally::is_ranked(ranks, all[k].0));
    let i = choose|i: int| 0 <= i < ranks.len() && (#[trigger] ranks[i]).name@ == all[k].0;
    assert(ranks[i].name@ == all[k].0);
}

/// A ranking goes from the greatest number to the least; of two with one number the lesser name
/// comes first, and no name comes twice.
pub proof fn law_ranking_in_order(ranks: Seq<Tally>, all: Seq<(Seq<char>, int)>, i: int, j: int)
    requires
        ranked(ranks, all),
        0 <= i < j < ranks.len(),
    ensures
        ranks[i].count >= ranks[j].count,
        ranks[i].count == ranks[j].count ==> text_lt(ranks[i].name@, ranks[j].name@),
        ranks[i].name@ != ranks[j].name@,
        exists|k: int| 0 <= k < all.len() && (#[trigger] all[k]).0 == ranks[i].name@,
{
    assert(crate::tally::outranks(ranks[i], ranks[j]));
    lemma_text_lt_irreflexive(ranks[i].name@);
    assert(ranks[i].count == sum_for(all, ranks[i].name@));
    assert(ranks[j].count == sum_for(all, ranks[j].name@));
    assert(crate::tally::is_counted(all, ranks[i].name@));
}

/// The messages of all tables are counted.
pub proof fn law_total(tables: Seq<TableCounts>, t: TableCounts)
    ensures
        total_count(Seq::empty()) == 0,
        total_count(tables.push(t)) == total_count(tables) + t.count,
{
    assert(tables.push(t).drop_last() =~= tables);
}

/// Every row for a kind, in any table, is counted under the label of the kind.
pub proof fn law_kinds_counted(tables: Seq<TableCounts>, k: int, i: int)
    requires
        0 <= k < tables.len(),
        0 <= i < tables[k].kinds@.len(),
    ensures
        all_kind_parts(tables).len() == all_kinds(tables).len(),
        all_kind_parts(tables).contains(
            (type_label(tables[k].kinds@[i].0), tables[k].kinds@[i].1 as int),
        ),
{
    let rows = tables.map_values(|t: TableCounts| t.kinds@);
    assert(rows[k] == tables[k].kinds@);
    law_all_of_holds(rows, k, i);
    let r = tables[k].kinds@[i];
    let j = choose|j: int| 0 <= j < all_of(rows).len() && all_of(rows)[j] == r;
    assert(all_kind_parts(tables)[j] == (type_label(r.0), r.1 as int));
}

/// What is counted of kinds are labels with the numbers of their rows, one for each.
pub proof fn law_kind_parts(kinds: Seq<(i64, i64)>, i: int)
    requires
        0 <= i < kinds.len(),
    ensures
        kind_parts(kinds).len() == kinds.len(),
        kind_parts(kinds)[i].0 == type_label(kinds[i].0),
        kind_parts(kinds)[i].1 == kinds[i].1,
{
}

/// Every sender whom the table names is counted under the display name, but for the chat itself.
pub proof fn law_sender_counted(
    t: TableCounts,
    username: Seq<char>,
    names: Map<Seq<char>, String>,
    i: int,
)
    requires
        0 <= i < t.senders@.len(),
        t.id2u@.contains_key(t.senders@[i].0),
        t.id2u@[t.senders@[i].0]@ != username,
    ensures
        ({
            let u = t.id2u@[t.senders@[i].0]@;
            let n = t.senders@[i].1 as int;
            &&& names.contains_key(u) ==> sender_parts(t, username, names).contains((names[u]@, n))
            &&& !names.contains_key(u) ==> sender_parts(t, username, names).contains((u, n))
        }),
{
    let member = |r: (i64, i64)| crate::stats::is_member(r, t.id2u@, username);
    let rows = t.senders@;
    assert(member(rows[i]));
    rows.lemma_filter_contains(member, i);
    let kept = rows.filter(member);
    let j = choose|j: int| 0 <= j < kept.len() && kept[j] == rows[i];
    let u = t.id2u@[rows[i].0]@;
    assert(sender_parts(t, username, names)[j].0 == shown_name(names, u));
    assert(sender_parts(t, username, names)[j].1 == rows[i].1);
    assert(sender_parts(t, username, names)[j] == (
        shown_name(names, u),
        rows[i].1 as int,
    ));
}

/// Nobody else is counted.
pub proof fn law_only_senders_counted(
    t: TableCounts,
    username: Seq<char>,
    names: Map<Seq<char>, String>,
    k: int,
)
    requires
        0 <= k < sender_parts(t, username, names).len(),
    ensures
        exists|i: int|
            {
                &&& 0 <= i < t.senders@.len()
                &&& t.id2u@.contains_key((#[trigger] t.senders@[i]).0)
                &&& t.id2u@[t.senders@[i].0]@ != username
                &&& sender_parts(t, username, names)[k].1 == t.senders@[i].1
                &&& sender_parts(t, username, names)[k].0 == shown_name(
                    names,
                    t.id2u@[t.senders@[i].0]@,
                )
            },
{
    let member = |r: (i64, i64)| crate::stats::is_member(r, t.id2u@, username);
    let rows = t.senders@;
    let kept = rows.filter(member);
    assert(sender_parts(t, username, names).len() == kept.len());
    rows.lemma_filter_pred(member, k);
    assert(kept.contains(kept[k]));
    rows.lemma_filter_contains_rev(member, kept[k]);
    let i = choose|i: int| 0 <= i < rows.len() && rows[i] == kept[k];
    assert(t.id2u@.contains_key(t.senders@[i].0));
    assert(sender_parts(t, username, names)[k].1 == rows[i].1);
}

/// Senders are counted in groups alone, and there in every table.
pub proof fn law_senders_of_groups(
    tables: Seq<TableCounts>,
    chat: Chat,
    names: Map<Seq<char>, String>,
    k: int,
    i: int,
)
    requires
        0 <= k < tables.len(),
        0 <= i < sender_parts(tables[k], chat.username@, names).len(),
    ensures
        !chat.is_group ==> all_sender_parts(tables, chat, names).len() == 0,
        chat.is_group ==> all_sender_parts(tables, chat, names).contains(
            sender_parts(tables[k], chat.username@, names)[i],
        ),
{
    let rows = tables.map_values(|t: TableCounts| sender_parts(t, chat.username@, names));
    assert(rows[k] == sender_parts(tables[k], chat.username@, names));
    law_all_of_holds(rows, k, i);
}

/// What is counted of senders comes from one of the tables.
pub proof fn law_senders_from_tables(
    tables: Seq<TableCounts>,
    chat: Chat,
    names: Map<Seq<char>, String>,
    j: int,
) -> (at: (int, int))
    requires
        0 <= j < all_sender_parts(tables, chat, names).len(),
    ensures
        chat.is_group,
        0 <= at.0 < tables.len(),
        0 <= at.1 < sender_parts(tables[at.0], chat.username@, names).len(),
        all_sender_parts(tables, chat, names)[j] == sender_parts(
            tables[at.0],
            chat.username@,
            names,
        )[at.1],
{
    law_all_of_from(
        tables.map_values(|t: TableCounts| sender_parts(t, chat.username@, names)),
        j,
    )
}

/// A time counts in its own hour and in no other.
pub proof fn law_hour_counted(hours: Seq<Option<u32>>, hour: u32, h: int)
    ensures
        hour_count(Seq::empty(), h) == 0,
        hour_count(hours.push(Some(hour)), hour as int) == hour_count(hours, hour as int) + 1,
        h != hour ==> hour_count(hours.push(Some(hour)), h) == hour_count(hours, h),
        hour_count(hours.push(None), h) == hour_count(hours, h),
{
    assert(hours.push(Some(hour)).drop_last() =~= hours);
    assert(hours.push(None).drop_last() =~= hours);
}

/// An hour is known where the calendar reaches the time, and is one of the day.
pub proof fn law_hour_known(hour: Option<u32>, ts: i64)
    requires
        shows_hour(hour, ts),
    ensures
        hour is Some <==> -8_334_601_228_800 <= ts <= 8_210_266_876_799,
        hour is Some ==> hour->0 < 24,
{
}

/// Statistics tell the number of all messages, the kinds and the ten senders with the most
/// messages, and how many messages there are in each hour.
pub proof fn law_stats_told(
    s: Stats,
    chat: Chat,
    tables: Seq<TableCounts>,
    hours: Seq<Option<u32>>,
    names: Names,
    h: int,
)
    requires
        s.tells(chat, tables, hours, names),
        0 <= h < 24,
    ensures
        s.chat == chat,
        s.total == total_count(tables),
        ranked(s.by_type@, all_kind_parts(tables)),
        s.top_senders@.len() <= 10,
        exists|all: Seq<Tally>| #[trigger]
            ranked(all, all_sender_parts(tables, chat, names.map@)) && s.top_senders@.is_prefix_of(
                all,
            ) && (all.len() <= 10 ==> s.top_senders@ == all) && (all.len() > 10
                ==> s.top_senders@.len() == 10),
        s.by_hour@.len() == 24,
        s.by_hour@[h] == hour_count(hours, h),
{
    let all = choose|all: Seq<Tally>| #[trigger]
        ranked(all, all_sender_parts(tables, chat, names.map@)) && s.top_senders@
            == crate::order::first_of(all, crate::stats::TOP_SENDERS as int);
    assert(ranked(all, all_sender_parts(tables, chat, names.map@)));
    assert(s.top_senders@.is_prefix_of(all));
}

/// Every time, in any table, is one of all.
pub proof fn law_all_times(tables: Seq<TableCounts>, k: int, i: int)
    requires
        0 <= k < tables.len(),
        0 <= i < tables[k].times@.len(),
    ensures
        all_times(tables).contains(tables[k].times@[i]),
{
    let rows = tables.map_values(|t: TableCounts| t.times@);
    assert(rows[k] == tables[k].times@);
    law_all_of_holds(rows, k, i);
}

/// Each time has its own hour.
pub proof fn law_hours_of_times(hours: Seq<Option<u32>>, times: Seq<i64>, i: int)
    requires
        show_hours(hours, times),
        0 <= i < times.len(),
    ensures
        hours.len() == times.len(),
        hours[i] is Some <==> -8_334_601_228_800 <= times[i] <= 8_210_266_876_799,
        hours[i] is Some ==> hours[i]->0 < 24,
{
    assert(shows_hour(hours[i], times[i]));
}

/// Numbers can be counted where what they add up to, by their sizes, stays in range.
pub proof fn law_counts_fit(tables: Seq<TableCounts>)
    ensures
        counts_fit(tables) <==> {
            &&& count_weight(tables) <= 9223372036854775807
            &&& rows_weight(all_kinds(tables)) <= 9223372036854775807
            &&& rows_weight(all_senders(tables)) <= 9223372036854775807
            &&& all_times(tables).len() <= 9223372036854775807
        },
{
}

/// The size of a number is the number without its sign, and sizes add up.
pub proof fn law_weights(
    rows: Seq<(i64, i64)>,
    id: i64,
    n: i64,
    tables: Seq<TableCounts>,
    t: TableCounts,
)
    ensures
        rows_weight(Seq::empty()) == 0,
        n >= 0 ==> rows_weight(rows.push((id, n))) == rows_weight(rows) + n,
        n < 0 ==> rows_weight(rows.push((id, n))) == rows_weight(rows) - n,
        count_weight(Seq::empty()) == 0,
        t.count >= 0 ==> count_weight(tables.push(t)) == count_weight(tables) + t.count,
        t.count < 0 ==> count_weight(tables.push(t)) == count_weight(tables) - t.count,
{
    assert(rows.push((id, n)).drop_last() =~= rows);
    assert(tables.push(t).drop_last() =~= tables);
}

/// Every row for a sender, in any table, is one of all.
pub proof fn law_all_senders(tables: Seq<TableCounts>, k: int, i: int)
    requires
        0 <= k < tables.len(),
        0 <= i < tables[k].senders@.len(),
    ensures
        all_senders(tables).contains(tables[k].senders@[i]),
{
    let rows = tables.map_values(|t: TableCounts| t.senders@);
    assert(rows[k] == tables[k].senders@);
    law_all_of_holds(rows, k, i);
}

} // verus!
