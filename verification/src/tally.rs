use vstd::prelude::*;

use crate::order::{
    lemma_order_exists, lemma_text_lt_irreflexive, lemma_text_lt_transitive, order_of, precedes,
    sort_by_keys, text_lt, Descending,
};
use crate::strmap::StrMap;

verus! {

/// How often something with a name was counted.
pub struct Tally {
    /// The name.
    pub name: String,
    /// The number.
    pub count: i64,
}

/// The names and numbers of some tallies.
pub open spec fn parts(all: Seq<Tally>) -> Seq<(Seq<char>, int)> {
    all.map_values(|t: Tally| (t.name@, t.count as int))
}

/// The sum of the numbers under one name.
pub open spec fn sum_for(all: Seq<(Seq<char>, int)>, name: Seq<char>) -> int
    decreases all.len(),
{
    if all.len() == 0 {
        0
    } else {
        sum_for(all.drop_last(), name) + if all.last().0 == name {
            all.last().1
        } else {
            0
        }
    }
}

/// The distance of a number from zero.
pub open spec fn size(n: int) -> int {
    if n < 0 {
        -n
    } else {
        n
    }
}

/// The sum of the sizes of all the numbers.
pub open spec fn weight(all: Seq<(Seq<char>, int)>) -> int
    decreases all.len(),
{
    if all.len() == 0 {
        0
    } else {
        weight(all.drop_last()) + size(all.last().1)
    }
}

proof fn lemma_sum_in_weight(all: Seq<(Seq<char>, int)>, name: Seq<char>)
    ensures
        size(sum_for(all, name)) <= weight(all),
    decreases all.len(),
{
    if all.len() > 0 {
        lemma_sum_in_weight(all.drop_last(), name);
    }
}

proof fn lemma_weight_of_prefix(all: Seq<(Seq<char>, int)>, n: int)
    requires
        0 <= n <= all.len(),
    ensures
        weight(all.take(n)) <= weight(all),
    decreases all.len() - n,
{
    if n < all.len() {
        lemma_weight_of_prefix(all, n + 1);
        assert(all.take(n + 1).drop_last() =~= all.take(n));
    } else {
        assert(all.take(n) =~= all);
    }
}

/// Whether a name was counted.
pub open spec fn is_counted(all: Seq<(Seq<char>, int)>, name: Seq<char>) -> bool {
    exists|i: int| 0 <= i < all.len() && (#[trigger] all[i]).0 == name
}

/// Whether a name is among the tallies.
pub open spec fn is_ranked(ranks: Seq<Tally>, name: Seq<char>) -> bool {
    exists|i: int| 0 <= i < ranks.len() && (#[trigger] ranks[i]).name@ == name
}

/// Whether one tally stands before another: by the greater number, else by the name.
pub open spec fn outranks(a: Tally, b: Tally) -> bool {
    a.count > b.count || a.count == b.count && text_lt(a.name@, b.name@)
}

/// Whether `ranks` gives every name that was counted once, with the sum of its numbers, the
/// greatest first.
pub open spec fn ranked(ranks: Seq<Tally>, all: Seq<(Seq<char>, int)>) -> bool {
    &&& forall|i: int|
        0 <= i < ranks.len() ==> is_counted(all, (#[trigger] ranks[i]).name@) && ranks[i].count
            == sum_for(all, ranks[i].name@)
    &&& forall|k: int| 0 <= k < all.len() ==> is_ranked(ranks, (#[trigger] all[k]).0)
    &&& forall|i: int, j: int|
        0 <= i < j < ranks.len() ==> outranks(#[trigger] ranks[i], #[trigger] ranks[j])
}

/// Whether a map gives every name that was counted the sum of its numbers.
spec fn sums(m: Map<Seq<char>, i64>, all: Seq<(Seq<char>, int)>) -> bool {
    &&& forall|k: Seq<char>| #[trigger] m.contains_key(k) <==> is_counted(all, k)
    &&& forall|k: Seq<char>| #[trigger] m.contains_key(k) ==> m[k] == sum_for(all, k)
    &&& forall|k: Seq<char>| !is_counted(all, k) ==> #[trigger] sum_for(all, k) == 0
}

proof fn lemma_sums_push(
    m: Map<Seq<char>, i64>,
    all: Seq<(Seq<char>, int)>,
    name: Seq<char>,
    n: int,
    v: i64,
)
    requires
        sums(m, all),
        v == sum_for(all, name) + n,
    ensures
        sums(m.insert(name, v), all.push((name, n))),
{
    let more = all.push((name, n));
    assert(more.drop_last() =~= all);
    assert(more[all.len() as int].0 == name);
    assert forall|k: Seq<char>| is_counted(more, k) <==> is_counted(all, k) || k == name by {
        if is_counted(all, k) {
            let i = choose|i: int| 0 <= i < all.len() && (#[trigger] all[i]).0 == k;
            assert(more[i].0 == k);
        }
        if is_counted(more, k) && k != name {
            let i = choose|i: int| 0 <= i < more.len() && (#[trigger] more[i]).0 == k;
            assert(all[i].0 == k);
        }
    }
    assert forall|k: Seq<char>| #[trigger] sum_for(more, k) == sum_for(all, k) + if k == name {
        n
    } else {
        0
    } by {}
    let after = m.insert(name, v);
    assert forall|k: Seq<char>| #[trigger] after.contains_key(k) implies after[k] == sum_for(
        more,
        k,
    ) by {
        assert(k != name ==> m.contains_key(k));
    }
}

fn sum_up(all: &Vec<Tally>) -> (r: StrMap<i64>)
    requires
        weight(parts(all@)) <= i64::MAX,
    ensures
        sums(r@, parts(all@)),
{
    let ghost p = parts(all@);
    let mut m: StrMap<i64> = StrMap::new();
    let mut i: usize = 0;
    assert(p.take(0) =~= Seq::empty());
    while i < all.len()
        invariant
            i <= all.len(),
            p == parts(all@),
            weight(p) <= i64::MAX,
            sums(m@, p.take(i as int)),
        decreases all.len() - i,
    {
        let t = &all[i];
        let before: i64 = match m.get(t.name.as_str()) {
            Some(n) => *n,
            None => 0,
        };
        proof {
            lemma_weight_of_prefix(p, i as int);
            lemma_weight_of_prefix(p, i + 1);
            assert(p.take(i + 1) =~= p.take(i as int).push(p[i as int]));
            assert(p.take(i + 1).drop_last() =~= p.take(i as int));
            lemma_sum_in_weight(p.take(i as int), t.name@);
            lemma_sum_in_weight(p.take(i + 1), t.name@);
            assert(before == sum_for(p.take(i as int), t.name@));
            lemma_sums_push(
                m@,
                p.take(i as int),
                t.name@,
                t.count as int,
                (before + t.count) as i64,
            );
        }
        m.insert(t.name.clone(), before + t.count);
        i = i + 1;
    }
    assert(p.take(i as int) =~= p);
    m
}

/// The sums of the numbers under each name, the greatest first.
pub fn rank(all: &Vec<Tally>) -> (r: Vec<Tally>)
    requires
        weight(parts(all@)) <= i64::MAX,
    ensures
        ranked(r@, parts(all@)),
{
    let ghost p = parts(all@);
    let m = sum_up(all);
    let n: usize = m.len();
    let mut listed: Vec<Tally> = Vec::new();
    let mut keys: Vec<Descending> = Vec::new();
    let mut i: usize = 0;
    while i < n
        invariant
            i <= n,
            n == m.keys().len(),
            listed.len() == i,
            keys.len() == i,
            sums(m@, p),
            forall|j: int|
                0 <= j < i ==> (#[trigger] listed@[j]).name@ == m.keys()[j] && m@.contains_key(
                    listed@[j].name@,
                ) && listed@[j].count == m@[listed@[j].name@],
            forall|j: int| 0 <= j < i ==> (#[trigger] keys@[j]) == Descending(listed@[j].count),
        decreases n - i,
    {
        let (name, count) = m.at(i);
        keys.push(Descending(*count));
        listed.push(Tally { name: name.clone(), count: *count });
        i = i + 1;
    }
    let ghost l = listed@;
    let ghost order = order_of(keys@);
    let ranks = sort_by_keys(listed, &keys);
    proof {
        lemma_order_exists(keys@);
        assert forall|k: int| 0 <= k < p.len() implies is_ranked(
            ranks@,
            (#[trigger] p[k]).0,
        ) by {
            assert(is_counted(p, p[k].0));
            assert(m@.contains_key(p[k].0));
            assert(m.keys().contains(p[k].0));
            let j = choose|j: int| 0 <= j < m.keys().len() && m.keys()[j] == p[k].0;
            assert(order.contains(j));
            let q = choose|q: int| 0 <= q < order.len() && order[q] == j;
            assert(ranks@[q] == l[j]);
        }
        assert forall|i: int, j: int| 0 <= i < j < ranks@.len() implies outranks(
            #[trigger] ranks@[i],
            #[trigger] ranks@[j],
        ) by {
            assert(ranks@[i] == l[order[i]] && ranks@[j] == l[order[j]]);
            assert(precedes(keys@, order[i], order[j]));
            if l[order[i]].count == l[order[j]].count {
                assert(order[i] < order[j]);
                assert(text_lt(m.keys()[order[i]], m.keys()[order[j]]));
            }
        }
        assert forall|i: int| 0 <= i < ranks@.len() implies is_counted(
            p,
            (#[trigger] ranks@[i]).name@,
        ) && ranks@[i].count == sum_for(p, ranks@[i].name@) by {
            assert(ranks@[i] == l[order[i]]);
        }
    }
    ranks
}

/// Counting says in one way only who comes where.
pub proof fn law_ranking_unique(a: Seq<Tally>, b: Seq<Tally>, all: Seq<(Seq<char>, int)>, i: int)
    requires
        ranked(a, all),
        ranked(b, all),
        0 <= i < a.len(),
    ensures
        i < b.len(),
        a[i].name@ == b[i].name@,
        a[i].count == b[i].count,
    decreases i,
{
    assert forall|j: int| 0 <= j < i implies #[trigger] agree(a, b, j) by {
        law_ranking_unique(a, b, all, j);
    }
    lemma_same_rank(a, b, all, i);
}

spec fn agree(a: Seq<Tally>, b: Seq<Tally>, i: int) -> bool {
    i < b.len() && a[i].name@ == b[i].name@
}

proof fn lemma_same_rank(a: Seq<Tally>, b: Seq<Tally>, all: Seq<(Seq<char>, int)>, i: int)
    requires
        ranked(a, all),
        ranked(b, all),
        0 <= i < a.len(),
        forall|j: int| 0 <= j < i ==> #[trigger] agree(a, b, j),
    ensures
        i < b.len(),
        a[i].name@ == b[i].name@,
{
    let k = lemma_rank_of(a, b, all, i);
    if k < i {
        assert(agree(a, b, k));
        assert(outranks(a[k], a[i]));
        lemma_text_lt_irreflexive(a[i].name@);
    } else if k > i {
        let j = lemma_rank_of(b, a, all, i);
        assert(outranks(b[i], b[k]));
        if j < i {
            assert(agree(a, b, j));
            assert(outranks(b[j], b[i]));
            lemma_text_lt_irreflexive(b[i].name@);
        } else if j > i {
            assert(outranks(a[i], a[j]));
            if a[i].count == b[i].count {
                lemma_text_lt_transitive(b[i].name@, a[i].name@, b[i].name@);
                lemma_text_lt_irreflexive(b[i].name@);
            }
        }
    }
}

proof fn lemma_rank_of(a: Seq<Tally>, b: Seq<Tally>, all: Seq<(Seq<char>, int)>, i: int) -> (k: int)
    requires
        ranked(a, all),
        ranked(b, all),
        0 <= i < a.len(),
    ensures
        0 <= k < b.len(),
        b[k].name@ == a[i].name@,
        b[k].count == a[i].count,
{
    assert(is_counted(all, a[i].name@));
    let x = choose|x: int| 0 <= x < all.len() && (#[trigger] all[x]).0 == a[i].name@;
    assert(is_ranked(b, all[x].0));
    choose|k: int| 0 <= k < b.len() && (#[trigger] b[k]).name@ == all[x].0
}

/// The sum of all the numbers.
pub open spec fn sum_of(all: Seq<(Seq<char>, int)>) -> int
    decreases all.len(),
{
    if all.len() == 0 {
        0
    } else {
        sum_of(all.drop_last()) + all.last().1
    }
}

/// What is counted under other names.
spec fn without(all: Seq<(Seq<char>, int)>, name: Seq<char>) -> Seq<(Seq<char>, int)>
    decreases all.len(),
{
    if all.len() == 0 {
        Seq::empty()
    } else if all.last().0 == name {
        without(all.drop_last(), name)
    } else {
        without(all.drop_last(), name).push(all.last())
    }
}

proof fn lemma_without(all: Seq<(Seq<char>, int)>, name: Seq<char>, other: Seq<char>)
    ensures
        sum_of(all) == sum_of(without(all, name)) + sum_for(all, name),
        other != name ==> sum_for(without(all, name), other) == sum_for(all, other),
        is_counted(without(all, name), other) <==> is_counted(all, other) && other != name,
    decreases all.len(),
{
    if all.len() > 0 {
        let rest = all.drop_last();
        lemma_without(rest, name, other);
        let less = without(all, name);
        let last = all.last();
        assert(all[all.len() - 1] == last);
        if last.0 != name {
            assert(less.drop_last() =~= without(rest, name));
            assert(less[less.len() - 1] == last);
        }
        if is_counted(all, other) && last.0 != other {
            let i = choose|i: int| 0 <= i < all.len() && (#[trigger] all[i]).0 == other;
            assert(rest[i].0 == other);
        }
        if is_counted(rest, other) {
            let i = choose|i: int| 0 <= i < rest.len() && (#[trigger] rest[i]).0 == other;
            assert(all[i].0 == other);
        }
        let before = without(rest, name);
        if is_counted(before, other) && last.0 != name {
            let i = choose|i: int| 0 <= i < before.len() && (#[trigger] before[i]).0 == other;
            assert(less[i].0 == other);
        }
        if is_counted(less, other) && last.0 != name && last.0 != other {
            let i = choose|i: int| 0 <= i < less.len() && (#[trigger] less[i]).0 == other;
            assert(before[i].0 == other);
        }
    }
}

/// A ranking loses nothing: its numbers add up to all that was counted.
pub proof fn law_ranking_keeps_sum(ranks: Seq<Tally>, all: Seq<(Seq<char>, int)>)
    requires
        ranked(ranks, all),
    ensures
        sum_of(parts(ranks)) == sum_of(all),
    decreases ranks.len(),
{
    if ranks.len() == 0 {
        if all.len() > 0 {
            assert(is_ranked(ranks, all[0].0));
        }
        assert(parts(ranks) =~= Seq::empty());
    } else {
        let rest = ranks.drop_last();
        let last = ranks.last();
        let name = last.name@;
        let less = without(all, name);
        assert(ranks[ranks.len() - 1] == last);
        assert(parts(ranks).drop_last() =~= parts(rest));
        lemma_without(all, name, name);
        assert forall|i: int| 0 <= i < rest.len() implies is_counted(
            less,
            (#[trigger] rest[i]).name@,
        ) && rest[i].count == sum_for(less, rest[i].name@) by {
            assert(rest[i] == ranks[i]);
            assert(outranks(ranks[i], ranks[ranks.len() - 1]));
            lemma_text_lt_irreflexive(name);
            lemma_without(all, name, rest[i].name@);
        }
        assert forall|k: int| 0 <= k < less.len() implies is_ranked(
            rest,
            (#[trigger] less[k]).0,
        ) by {
            let other = less[k].0;
            lemma_without(all, name, other);
            assert(is_counted(less, other));
            let j = choose|j: int| 0 <= j < all.len() && (#[trigger] all[j]).0 == other;
            assert(is_ranked(ranks, all[j].0));
            let r = choose|r: int| 0 <= r < ranks.len() && (#[trigger] ranks[r]).name@ == other;
            assert(rest[r].name@ == other);
        }
        assert forall|i: int, j: int| 0 <= i < j < rest.len() implies outranks(
            #[trigger] rest[i],
            #[trigger] rest[j],
        ) by {
            assert(rest[i] == ranks[i] && rest[j] == ranks[j]);
        }
        law_ranking_keeps_sum(rest, less);
    }
}

} // verus!
