use std::collections::HashMap;
use vstd::prelude::*;

use crate::content::{fmt_type, show_name, shown_name, type_label};
use crate::messages::{Chat, QueryError};
use crate::names::Names;
use crate::order::{all_of, first_of, lemma_all_of_push};
use crate::strmap::StrMap;
use crate::tally::{parts, rank, ranked, size, weight, Tally};
use crate::text::same;
use crate::time::{hour_at, in_calendar, local_hour};

verus! {

/// What was counted in one table of messages.
pub struct TableCounts {
    /// How many messages there are.
    pub count: i64,
    /// How many of each kind.
    pub kinds: Vec<(i64, i64)>,
    /// When each was sent.
    pub times: Vec<i64>,
    /// How many of each sender.
    pub senders: Vec<(i64, i64)>,
    /// The user names of the senders.
    pub id2u: HashMap<i64, String>,
}

/// The sum of the sizes of the numbers of some rows.
pub open spec fn rows_weight(rows: Seq<(i64, i64)>) -> int
    decreases rows.len(),
{
    if rows.len() == 0 {
        0
    } else {
        rows_weight(rows.drop_last()) + size(rows.last().1 as int)
    }
}

/// The sum of the sizes of the numbers of messages.
pub open spec fn count_weight(tables: Seq<TableCounts>) -> int
    decreases tables.len(),
{
    if tables.len() == 0 {
        0
    } else {
        count_weight(tables.drop_last()) + size(tables.last().count as int)
    }
}

/// The number of messages in all tables.
pub open spec fn total_count(tables: Seq<TableCounts>) -> int
    decreases tables.len(),
{
    if tables.len() == 0 {
        0
    } else {
        total_count(tables.drop_last()) + tables.last().count
    }
}

/// The rows for the kinds in all tables.
pub open spec fn all_kinds(tables: Seq<TableCounts>) -> Seq<(i64, i64)> {
    all_of(tables.map_values(|t: TableCounts| t.kinds@))
}

/// The rows for the senders in all tables.
pub open spec fn all_senders(tables: Seq<TableCounts>) -> Seq<(i64, i64)> {
    all_of(tables.map_values(|t: TableCounts| t.senders@))
}

/// The times of the messages in all tables.
pub open spec fn all_times(tables: Seq<TableCounts>) -> Seq<i64> {
    all_of(tables.map_values(|t: TableCounts| t.times@))
}

/// Whether the numbers can be added without leaving their range.
pub open spec fn counts_fit(tables: Seq<TableCounts>) -> bool {
    &&& count_weight(tables) <= i64::MAX
    &&& rows_weight(all_kinds(tables)) <= i64::MAX
    &&& rows_weight(all_senders(tables)) <= i64::MAX
    &&& all_times(tables).len() <= i64::MAX
}

/// What is counted of the kinds in one table: the labels with their numbers.
pub open spec fn kind_parts(kinds: Seq<(i64, i64)>) -> Seq<(Seq<char>, int)> {
    kinds.map_values(|r: (i64, i64)| (type_label(r.0), r.1 as int))
}

/// What is counted of the kinds in all tables.
pub open spec fn all_kind_parts(tables: Seq<TableCounts>) -> Seq<(Seq<char>, int)> {
    kind_parts(all_kinds(tables))
}

/// Whether a row is that of a sender who is known and is not the chat itself.
pub open spec fn is_member(r: (i64, i64), id2u: Map<i64, String>, username: Seq<char>) -> bool {
    id2u.contains_key(r.0) && id2u[r.0]@ != username
}

/// What is counted of the senders in one table: the display names with their numbers.
pub open spec fn sender_parts(
    t: TableCounts,
    username: Seq<char>,
    names: Map<Seq<char>, String>,
) -> Seq<(Seq<char>, int)> {
    t.senders@.filter(|r: (i64, i64)| is_member(r, t.id2u@, username)).map_values(
        |r: (i64, i64)| (shown_name(names, t.id2u@[r.0]@), r.1 as int),
    )
}

/// What is counted of the senders in all tables; nothing outside of groups.
pub open spec fn all_sender_parts(
    tables: Seq<TableCounts>,
    chat: Chat,
    names: Map<Seq<char>, String>,
) -> Seq<(Seq<char>, int)> {
    if chat.is_group {
        all_of(tables.map_values(|t: TableCounts| sender_parts(t, chat.username@, names)))
    } else {
        Seq::empty()
    }
}

/// Whether `hours` gives the hour of the day for each time that the calendar reaches.
pub open spec fn show_hours(hours: Seq<Option<u32>>, times: Seq<i64>) -> bool {
    &&& hours.len() == times.len()
    &&& forall|i: int| 0 <= i < times.len() ==> shows_hour(#[trigger] hours[i], times[i])
}

/// Whether `hour` is the hour of the day of a time, wherever the machine stands.
pub open spec fn shows_hour(hour: Option<u32>, ts: i64) -> bool {
    match hour {
        Some(h) => in_calendar(ts as int) && h < 24 && exists|zone: int|
            -86400 < zone < 86400 && h == #[trigger] hour_at(ts + zone),
        None => !in_calendar(ts as int),
    }
}

/// How many of some times fall into an hour of the day.
pub open spec fn hour_count(hours: Seq<Option<u32>>, h: int) -> int
    decreases hours.len(),
{
    if hours.len() == 0 {
        0
    } else {
        hour_count(hours.drop_last(), h) + if hours.last() is Some && hours.last()->0 == h {
            1int
        } else {
            0
        }
    }
}

proof fn lemma_hour_count(hours: Seq<Option<u32>>, h: int)
    ensures
        0 <= hour_count(hours, h) <= hours.len(),
    decreases hours.len(),
{
    if hours.len() > 0 {
        lemma_hour_count(hours.drop_last(), h);
    }
}

/// How many of some times fall into each hour of the day.
pub fn count_hours(hours: &Vec<Option<u32>>) -> (r: Vec<i64>)
    requires
        hours@.len() <= i64::MAX,
    ensures
        r@.len() == 24,
        forall|h: int| 0 <= h < 24 ==> #[trigger] r@[h] == hour_count(hours@, h),
{
    let mut counts: Vec<i64> = Vec::new();
    let mut k: usize = 0;
    while k < 24
        invariant
            k <= 24,
            counts.len() == k,
            forall|h: int| 0 <= h < k ==> #[trigger] counts@[h] == 0,
        decreases 24 - k,
    {
        counts.push(0);
        k = k + 1;
    }
    let mut i: usize = 0;
    while i < hours.len()
        invariant
            i <= hours.len(),
            hours@.len() <= i64::MAX,
            counts.len() == 24,
            forall|h: int|
                0 <= h < 24 ==> #[trigger] counts@[h] == hour_count(hours@.take(i as int), h),
        decreases hours.len() - i,
    {
        proof {
            assert(hours@.take(i + 1).drop_last() =~= hours@.take(i as int));
            assert(hours@.take(i + 1).last() == hours@[i as int]);
        }
        let ghost before = counts@;
        if let Some(hour) = hours[i] {
            if hour < 24 {
                let at: usize = hour as usize;
                let now: i64 = counts[at];
                proof {
                    lemma_hour_count(hours@.take(i as int), at as int);
                }
                counts.set(at, now + 1);
            }
        }
        assert forall|h: int| 0 <= h < 24 implies #[trigger] counts@[h] == hour_count(
            hours@.take(i + 1),
            h,
        ) by {
            assert(before[h] == hour_count(hours@.take(i as int), h));
        }
        i = i + 1;
    }
    assert(hours@.take(i as int) =~= hours@);
    counts
}

/// The hours of the day of all messages.
pub fn local_hours(tables: &Vec<TableCounts>) -> (r: Vec<Option<u32>>)
    ensures
        show_hours(r@, all_times(tables@)),
{
    let mut hours: Vec<Option<u32>> = Vec::new();
    let ghost times = tables@.map_values(|t: TableCounts| t.times@);
    let mut i: usize = 0;
    assert(times.take(0) =~= Seq::empty());
    while i < tables.len()
        invariant
            i <= tables.len(),
            times == tables@.map_values(|t: TableCounts| t.times@),
            show_hours(hours@, all_of(times.take(i as int))),
        decreases tables.len() - i,
    {
        let here = &tables[i].times;
        let ghost done = all_of(times.take(i as int));
        let mut j: usize = 0;
        assert(here@.take(0) =~= Seq::empty());
        assert(done + here@.take(0) =~= done);
        while j < here.len()
            invariant
                j <= here.len(),
                show_hours(hours@, done + here@.take(j as int)),
            decreases here.len() - j,
        {
            let h = local_hour(here[j]);
            let ghost old_hours = hours@;
            hours.push(h);
            proof {
                let more = done + here@.take(j + 1);
                assert(more =~= (done + here@.take(j as int)).push(here@[j as int]));
                assert(shows_hour(h, here@[j as int]));
                assert forall|k: int| 0 <= k < more.len() implies shows_hour(
                    #[trigger] hours@[k],
                    more[k],
                ) by {
                    if k < old_hours.len() {
                        assert(hours@[k] == old_hours[k]);
                    }
                }
            }
            j = j + 1;
        }
        proof {
            assert(here@.take(j as int) =~= here@);
            lemma_all_of_push(times.take(i as int), here@);
            assert(times.take(i + 1) =~= times.take(i as int).push(here@));
        }
        i = i + 1;
    }
    assert(times.take(i as int) =~= times);
    hours
}

/// The kinds of messages in all tables, under their labels.
pub fn name_kinds(tables: &Vec<TableCounts>) -> (r: Vec<Tally>)
    ensures
        parts(r@) == all_kind_parts(tables@),
{
    let mut out: Vec<Tally> = Vec::new();
    let ghost kinds = tables@.map_values(|t: TableCounts| t.kinds@);
    let mut i: usize = 0;
    assert(kinds.take(0) =~= Seq::empty());
    assert(parts(out@) =~= kind_parts(Seq::empty()));
    while i < tables.len()
        invariant
            i <= tables.len(),
            kinds == tables@.map_values(|t: TableCounts| t.kinds@),
            parts(out@) == kind_parts(all_of(kinds.take(i as int))),
        decreases tables.len() - i,
    {
        let here = &tables[i].kinds;
        let ghost done = all_of(kinds.take(i as int));
        let mut j: usize = 0;
        assert(done + here@.take(0) =~= done);
        while j < here.len()
            invariant
                j <= here.len(),
                parts(out@) == kind_parts(done + here@.take(j as int)),
            decreases here.len() - j,
        {
            let ghost before = out@;
            out.push(Tally { name: fmt_type(here[j].0), count: here[j].1 });
            proof {
                let more = done + here@.take(j + 1);
                assert(more =~= (done + here@.take(j as int)).push(here@[j as int]));
                assert(parts(out@) =~= parts(before).push(
                    (type_label(here@[j as int].0), here@[j as int].1 as int),
                ));
                assert(kind_parts(more) =~= parts(out@));
            }
            j = j + 1;
        }
        proof {
            assert(here@.take(j as int) =~= here@);
            lemma_all_of_push(kinds.take(i as int), here@);
            assert(kinds.take(i + 1) =~= kinds.take(i as int).push(here@));
        }
        i = i + 1;
    }
    assert(kinds.take(i as int) =~= kinds);
    out
}

/// The senders in one table, under their display names.
fn name_table_senders(t: &TableCounts, username: &str, names: &StrMap<String>) -> (r: Vec<Tally>)
    ensures
        parts(r@) == sender_parts(*t, username@, names@),
{
    broadcast use vstd::std_specs::hash::group_hash_axioms;

    let mut out: Vec<Tally> = Vec::new();
    let ghost member = |r: (i64, i64)| is_member(r, t.id2u@, username@);
    let ghost part = |r: (i64, i64)| (shown_name(names@, t.id2u@[r.0]@), r.1 as int);
    let ghost rows = t.senders@;
    let mut i: usize = 0;
    assert(rows.take(0).filter(member) =~= Seq::empty()) by {
        reveal(Seq::filter);
    }
    assert(parts(out@) =~= rows.take(0).filter(member).map_values(part));
    while i < t.senders.len()
        invariant
            i <= t.senders.len(),
            rows == t.senders@,
            member == (|r: (i64, i64)| is_member(r, t.id2u@, username@)),
            part == (|r: (i64, i64)| (shown_name(names@, t.id2u@[r.0]@), r.1 as int)),
            parts(out@) == rows.take(i as int).filter(member).map_values(part),
        decreases t.senders.len() - i,
    {
        broadcast use vstd::std_specs::hash::group_hash_axioms;

        let row = t.senders[i];
        proof {
            reveal(Seq::filter);
            assert(rows.take(i + 1).drop_last() =~= rows.take(i as int));
            assert(rows.take(i + 1).last() == row);
        }
        let ghost before = out@;
        let ghost kept = rows.take(i as int).filter(member);
        if let Some(u) = t.id2u.get(&row.0) {
            if !same(u.as_str(), username) {
                out.push(Tally { name: show_name(names, u.as_str()), count: row.1 });
                proof {
                    assert(member(row));
                    assert(parts(out@) =~= parts(before).push(part(row)));
                    assert(kept.push(row).map_values(part) =~= kept.map_values(part).push(
                        part(row),
                    ));
                }
            }
        }
        i = i + 1;
    }
    assert(rows.take(i as int) =~= rows);
    out
}

/// The senders in all tables, under their display names; nobody outside of groups.
pub fn name_senders(tables: &Vec<TableCounts>, chat: &Chat, names: &StrMap<String>) -> (r: Vec<
    Tally,
>)
    ensures
        parts(r@) == all_sender_parts(tables@, *chat, names@),
{
    let mut out: Vec<Tally> = Vec::new();
    assert(parts(out@) =~= Seq::empty());
    if !chat.is_group {
        return out;
    }
    let ghost all = tables@.map_values(
        |t: TableCounts| sender_parts(t, chat.username@, names@),
    );
    let mut i: usize = 0;
    assert(all.take(0) =~= Seq::empty());
    while i < tables.len()
        invariant
            i <= tables.len(),
            all == tables@.map_values(|t: TableCounts| sender_parts(t, chat.username@, names@)),
            parts(out@) == all_of(all.take(i as int)),
        decreases tables.len() - i,
    {
        let mut here = name_table_senders(&tables[i], chat.username.as_str(), names);
        proof {
            lemma_all_of_push(all.take(i as int), parts(here@));
            assert(all.take(i + 1) =~= all.take(i as int).push(parts(here@)));
            assert(parts(out@ + here@) =~= parts(out@) + parts(here@));
        }
        out.append(&mut here);
        i = i + 1;
    }
    assert(all.take(i as int) =~= all);
    out
}

proof fn lemma_kind_weight(kinds: Seq<(i64, i64)>)
    ensures
        weight(kind_parts(kinds)) == rows_weight(kinds),
    decreases kinds.len(),
{
    if kinds.len() > 0 {
        lemma_kind_weight(kinds.drop_last());
        assert(kind_parts(kinds).drop_last() =~= kind_parts(kinds.drop_last()));
    }
}

proof fn lemma_weight_add(a: Seq<(Seq<char>, int)>, b: Seq<(Seq<char>, int)>)
    ensures
        weight(a + b) == weight(a) + weight(b),
    decreases b.len(),
{
    if b.len() > 0 {
        lemma_weight_add(a, b.drop_last());
        assert((a + b).drop_last() =~= a + b.drop_last());
    } else {
        assert(a + b =~= a);
    }
}

proof fn lemma_rows_weight_add(a: Seq<(i64, i64)>, b: Seq<(i64, i64)>)
    ensures
        rows_weight(a + b) == rows_weight(a) + rows_weight(b),
    decreases b.len(),
{
    if b.len() > 0 {
        lemma_rows_weight_add(a, b.drop_last());
        assert((a + b).drop_last() =~= a + b.drop_last());
    } else {
        assert(a + b =~= a);
    }
}

proof fn lemma_kept_weight(
    rows: Seq<(i64, i64)>,
    member: spec_fn((i64, i64)) -> bool,
    part: spec_fn((i64, i64)) -> (Seq<char>, int),
)
    requires
        forall|r: (i64, i64)| (#[trigger] part(r)).1 == r.1,
    ensures
        weight(rows.filter(member).map_values(part)) <= rows_weight(rows),
    decreases rows.len(),
{
    reveal(Seq::filter);
    if rows.len() > 0 {
        let rest = rows.drop_last();
        lemma_kept_weight(rest, member, part);
        let kept = rest.filter(member);
        if member(rows.last()) {
            assert(rows.filter(member) == kept.push(rows.last()));
            assert(kept.push(rows.last()).map_values(part) =~= kept.map_values(part).push(
                part(rows.last()),
            ));
            assert(kept.map_values(part).push(part(rows.last())).drop_last() =~= kept.map_values(
                part,
            ));
        }
    } else {
        assert(rows.filter(member).map_values(part) =~= Seq::empty());
    }
}

proof fn lemma_sender_weight(
    tables: Seq<TableCounts>,
    username: Seq<char>,
    names: Map<Seq<char>, String>,
)
    ensures
        weight(
            all_of(tables.map_values(|t: TableCounts| sender_parts(t, username, names))),
        ) <= rows_weight(all_senders(tables)),
    decreases tables.len(),
{
    let f = |t: TableCounts| sender_parts(t, username, names);
    let g = |t: TableCounts| t.senders@;
    if tables.len() > 0 {
        let rest = tables.drop_last();
        let t = tables.last();
        lemma_sender_weight(rest, username, names);
        assert(tables.map_values(f).drop_last() =~= rest.map_values(f));
        assert(tables.map_values(g).drop_last() =~= rest.map_values(g));
        lemma_weight_add(all_of(rest.map_values(f)), sender_parts(t, username, names));
        lemma_rows_weight_add(all_of(rest.map_values(g)), t.senders@);
        lemma_kept_weight(
            t.senders@,
            |r: (i64, i64)| is_member(r, t.id2u@, username),
            |r: (i64, i64)| (shown_name(names, t.id2u@[r.0]@), r.1 as int),
        );
    }
}

proof fn lemma_total(tables: Seq<TableCounts>, n: int)
    requires
        0 <= n <= tables.len(),
    ensures
        size(total_count(tables.take(n))) <= count_weight(tables.take(n)) <= count_weight(tables),
    decreases tables.len(), n,
{
    if n > 0 {
        lemma_total(tables.take(n), n - 1);
        assert(tables.take(n).take(n - 1) =~= tables.take(n).drop_last());
    }
    lemma_count_weight(tables, n);
}

proof fn lemma_count_weight(tables: Seq<TableCounts>, n: int)
    requires
        0 <= n <= tables.len(),
    ensures
        0 <= count_weight(tables.take(n)) <= count_weight(tables),
    decreases tables.len(),
{
    if n < tables.len() {
        lemma_count_weight(tables.drop_last(), n);
        assert(tables.drop_last().take(n) =~= tables.take(n));
    } else {
        assert(tables.take(n) =~= tables);
        if n > 0 {
            lemma_count_weight(tables.drop_last(), n - 1);
        }
    }
}

/// The number of messages in all tables.
pub fn sum_counts(tables: &Vec<TableCounts>) -> (r: i64)
    requires
        count_weight(tables@) <= i64::MAX,
    ensures
        r == total_count(tables@),
{
    let mut total: i64 = 0;
    let mut i: usize = 0;
    while i < tables.len()
        invariant
            i <= tables.len(),
            count_weight(tables@) <= i64::MAX,
            total == total_count(tables@.take(i as int)),
        decreases tables.len() - i,
    {
        proof {
            lemma_total(tables@, i + 1);
            assert(tables@.take(i + 1).drop_last() =~= tables@.take(i as int));
        }
        total = total + tables[i].count;
        i = i + 1;
    }
    assert(tables@.take(i as int) =~= tables@);
    total
}

/// How many senders are listed.
pub const TOP_SENDERS: usize = 10;

/// The statistics of a chat.
pub struct Stats {
    /// The chat.
    pub chat: Chat,
    /// How many messages there are.
    pub total: i64,
    /// How many of each kind, the greatest number first.
    pub by_type: Vec<Tally>,
    /// How many of each sender, the greatest number first.
    pub top_senders: Vec<Tally>,
    /// How many in each hour of the day.
    pub by_hour: Vec<i64>,
}

impl Stats {
    /// Whether these are the statistics of a chat whose messages fall into the given hours.
    pub open spec fn tells(
        &self,
        chat: Chat,
        tables: Seq<TableCounts>,
        hours: Seq<Option<u32>>,
        names: Names,
    ) -> bool {
        &&& self.chat == chat
        &&& self.total == total_count(tables)
        &&& ranked(self.by_type@, all_kind_parts(tables))
        &&& exists|all: Seq<Tally>| #[trigger]
            ranked(all, all_sender_parts(tables, chat, names.map@)) && self.top_senders@
                == first_of(all, TOP_SENDERS as int)
        &&& self.by_hour@.len() == 24
        &&& forall|h: int| 0 <= h < 24 ==> #[trigger] self.by_hour@[h] == hour_count(hours, h)
    }
}

/// The statistics of a chat whose messages fall into the given hours of the day.
pub fn stats_from(
    names: &Names,
    chat: Chat,
    tables: &Vec<TableCounts>,
    hours: &Vec<Option<u32>>,
) -> (r: Stats)
    requires
        counts_fit(tables@),
        hours@.len() <= i64::MAX,
    ensures
        r.tells(chat, tables@, hours@, *names),
{
    let total: i64 = sum_counts(tables);
    let kinds = name_kinds(tables);
    proof {
        lemma_kind_weight(all_kinds(tables@));
    }
    let by_type = rank(&kinds);
    let senders = name_senders(tables, &chat, &names.map);
    proof {
        lemma_sender_weight(tables@, chat.username@, names.map@);
    }
    let mut top_senders = rank(&senders);
    let ghost all = top_senders@;
    top_senders.truncate(TOP_SENDERS);
    assert(top_senders@ =~= first_of(all, TOP_SENDERS as int));
    let by_hour = count_hours(hours);
    Stats { chat, total, by_type, top_senders, by_hour }
}

/// The statistics of a chat, from what was counted in all its tables.
pub fn q_stats(names: &Names, chat: Chat, tables: &Vec<TableCounts>) -> (r: Result<
    Stats,
    QueryError,
>)
    requires
        counts_fit(tables@),
    ensures
        match r {
            Ok(s) => tables@.len() > 0 && exists|hours: Seq<Option<u32>>| #[trigger]
                show_hours(hours, all_times(tables@)) && s.tells(chat, tables@, hours, *names),
            Err(QueryError::NoMessages(d)) => tables@.len() == 0 && d@ == chat.display@,
            Err(_) => false,
        },
{
    if tables.len() == 0 {
        return Err(QueryError::NoMessages(chat.display.clone()));
    }
    let hours = local_hours(tables);
    Ok(stats_from(names, chat, tables, &hours))
}

/// Adds the size of a number, where the sum stays in range.
fn add_size(total: i64, n: i64) -> (r: Option<i64>)
    requires
        0 <= total,
    ensures
        match r {
            Some(t) => t == total + size(n as int),
            None => total + size(n as int) > i64::MAX,
        },
{
    if n == i64::MIN {
        return None;
    }
    let m: i64 = if n < 0 {
        -n
    } else {
        n
    };
    if m > i64::MAX - total {
        None
    } else {
        Some(total + m)
    }
}

proof fn lemma_rows_weight(rows: Seq<(i64, i64)>, n: int)
    requires
        0 <= n <= rows.len(),
    ensures
        0 <= rows_weight(rows.take(n)) <= rows_weight(rows),
    decreases rows.len(),
{
    if n < rows.len() {
        lemma_rows_weight(rows.drop_last(), n);
        assert(rows.drop_last().take(n) =~= rows.take(n));
    } else {
        assert(rows.take(n) =~= rows);
        if n > 0 {
            lemma_rows_weight(rows.drop_last(), n - 1);
        }
    }
}

/// Adds the sizes of the numbers of some rows, where the sum stays in range.
fn add_rows(total: i64, rows: &Vec<(i64, i64)>) -> (r: Option<i64>)
    requires
        0 <= total,
    ensures
        match r {
            Some(t) => t == total + rows_weight(rows@),
            None => total + rows_weight(rows@) > i64::MAX,
        },
{
    let mut sum: i64 = total;
    let mut i: usize = 0;
    while i < rows.len()
        invariant
            i <= rows.len(),
            0 <= total <= sum,
            sum == total + rows_weight(rows@.take(i as int)),
        decreases rows.len() - i,
    {
        proof {
            assert(rows@.take(i + 1).drop_last() =~= rows@.take(i as int));
            lemma_rows_weight(rows@, i + 1);
        }
        match add_size(sum, rows[i].1) {
            Some(t) => {
                sum = t;
            },
            None => {
                return None;
            },
        }
        i = i + 1;
    }
    assert(rows@.take(i as int) =~= rows@);
    Some(sum)
}

proof fn lemma_prefix_fits(tables: Seq<TableCounts>, n: int)
    requires
        0 <= n <= tables.len(),
    ensures
        0 <= count_weight(tables.take(n)) <= count_weight(tables),
        0 <= rows_weight(all_kinds(tables.take(n))) <= rows_weight(all_kinds(tables)),
        0 <= rows_weight(all_senders(tables.take(n))) <= rows_weight(all_senders(tables)),
        all_times(tables.take(n)).len() <= all_times(tables).len(),
    decreases tables.len(),
{
    lemma_count_weight(tables, n);
    if tables.len() > 0 {
        let rest = tables.drop_last();
        lemma_fits_step(rest, tables.last());
        assert(rest.push(tables.last()) =~= tables);
        if n < tables.len() {
            lemma_prefix_fits(rest, n);
            assert(rest.take(n) =~= tables.take(n));
        } else {
            assert(tables.take(n) =~= tables);
            lemma_prefix_fits(rest, n - 1);
            assert(rest.take(n - 1) =~= rest);
        }
    } else {
        assert(tables.take(n) =~= tables);
        assert(tables.map_values(|t: TableCounts| t.kinds@) =~= Seq::empty());
        assert(tables.map_values(|t: TableCounts| t.senders@) =~= Seq::empty());
    }
}

proof fn lemma_fits_step(rest: Seq<TableCounts>, t: TableCounts)
    ensures
        count_weight(rest.push(t)) == count_weight(rest) + size(t.count as int),
        rows_weight(all_kinds(rest.push(t))) == rows_weight(all_kinds(rest)) + rows_weight(
            t.kinds@,
        ),
        rows_weight(all_senders(rest.push(t))) == rows_weight(all_senders(rest)) + rows_weight(
            t.senders@,
        ),
        all_times(rest.push(t)).len() == all_times(rest).len() + t.times@.len(),
        rows_weight(t.kinds@) >= 0,
        rows_weight(t.senders@) >= 0,
{
    let all = rest.push(t);
    assert(all.drop_last() =~= rest);
    let k = |t: TableCounts| t.kinds@;
    let s = |t: TableCounts| t.senders@;
    let h = |t: TableCounts| t.times@;
    assert(all.map_values(k) =~= rest.map_values(k).push(t.kinds@));
    assert(all.map_values(s) =~= rest.map_values(s).push(t.senders@));
    assert(all.map_values(h) =~= rest.map_values(h).push(t.times@));
    lemma_all_of_push(rest.map_values(k), t.kinds@);
    lemma_all_of_push(rest.map_values(s), t.senders@);
    lemma_all_of_push(rest.map_values(h), t.times@);
    lemma_rows_weight_add(all_kinds(rest), t.kinds@);
    lemma_rows_weight_add(all_senders(rest), t.senders@);
    lemma_rows_weight(t.kinds@, t.kinds@.len() as int);
    lemma_rows_weight(t.senders@, t.senders@.len() as int);
    assert(t.kinds@.take(t.kinds@.len() as int) =~= t.kinds@);
    assert(t.senders@.take(t.senders@.len() as int) =~= t.senders@);
}

/// Whether the numbers can be added without leaving their range.
pub fn can_count(tables: &Vec<TableCounts>) -> (r: bool)
    ensures
        r == counts_fit(tables@),
{
    let mut counts: i64 = 0;
    let mut kinds: i64 = 0;
    let mut senders: i64 = 0;
    let mut times: i64 = 0;
    let mut i: usize = 0;
    proof {
        lemma_prefix_fits(tables@, 0);
        assert(tables@.take(0) =~= Seq::empty());
        assert(tables@.take(0).map_values(|t: TableCounts| t.kinds@) =~= Seq::empty());
        assert(tables@.take(0).map_values(|t: TableCounts| t.senders@) =~= Seq::empty());
        assert(tables@.take(0).map_values(|t: TableCounts| t.times@) =~= Seq::empty());
    }
    while i < tables.len()
        invariant
            i <= tables.len(),
            counts == count_weight(tables@.take(i as int)),
            kinds == rows_weight(all_kinds(tables@.take(i as int))),
            senders == rows_weight(all_senders(tables@.take(i as int))),
            times == all_times(tables@.take(i as int)).len(),
        decreases tables.len() - i,
    {
        let t = &tables[i];
        proof {
            lemma_prefix_fits(tables@, i as int);
            lemma_prefix_fits(tables@, i + 1);
            lemma_fits_step(tables@.take(i as int), *t);
            assert(tables@.take(i + 1) =~= tables@.take(i as int).push(*t));
        }
        match (add_size(counts, t.count), add_rows(kinds, &t.kinds), add_rows(senders, &t.senders)) {
            (Some(c), Some(k), Some(s)) => {
                counts = c;
                kinds = k;
                senders = s;
            },
            _ => {
                return false;
            },
        }
        if t.times.len() as u128 > (i64::MAX - times) as u128 {
            return false;
        }
        times = times + t.times.len() as i64;
        i = i + 1;
    }
    assert(tables@.take(i as int) =~= tables@);
    true
}

/// How many of some times fall into the first `n` hours of the day.
pub open spec fn first_hours(hours: Seq<Option<u32>>, n: int) -> int
    decreases n,
{
    if n <= 0 {
        0
    } else {
        first_hours(hours, n - 1) + hour_count(hours, n - 1)
    }
}

/// How many times the calendar reaches.
pub open spec fn dated(times: Seq<i64>) -> int
    decreases times.len(),
{
    if times.len() == 0 {
        0
    } else {
        dated(times.drop_last()) + if in_calendar(times.last() as int) {
            1int
        } else {
            0
        }
    }
}

/// Every message whose time the calendar reaches is counted in one hour of the day, and no other.
pub proof fn law_hours_complete(hours: Seq<Option<u32>>, times: Seq<i64>)
    requires
        show_hours(hours, times),
    ensures
        first_hours(hours, 24) == dated(times),
    decreases times.len(),
{
    if times.len() > 0 {
        let rest = hours.drop_last();
        assert forall|i: int| 0 <= i < rest.len() implies shows_hour(
            #[trigger] rest[i],
            times.drop_last()[i],
        ) by {
            assert(rest[i] == hours[i]);
        }
        law_hours_complete(rest, times.drop_last());
        assert(shows_hour(hours[hours.len() - 1], times.last()));
        lemma_one_hour(hours, 24);
    } else {
        lemma_no_hours(hours, 24);
    }
}

proof fn lemma_one_hour(hours: Seq<Option<u32>>, n: int)
    requires
        hours.len() > 0,
        0 <= n,
    ensures
        first_hours(hours, n) == first_hours(hours.drop_last(), n) + if hours.last() is Some
            && hours.last()->0 < n {
            1int
        } else {
            0
        },
    decreases n,
{
    if n > 0 {
        lemma_one_hour(hours, n - 1);
    }
}

proof fn lemma_no_hours(hours: Seq<Option<u32>>, n: int)
    requires
        hours.len() == 0,
    ensures
        first_hours(hours, n) == 0,
    decreases n,
{
    if n > 0 {
        lemma_no_hours(hours, n - 1);
    }
}

} // verus!
