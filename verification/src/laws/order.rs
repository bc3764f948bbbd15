use vstd::prelude::*;
use vstd::utf8::encode_utf8;

use crate::order::{
    all_of, bytes_lt, capped, first_of, law_sorted_in_order, law_sorted_same_elements,
    lemma_all_of_push, lemma_order_exists, order_of, precedes, sorted_by, text_lt, Descending,
    MarkedFirst, SortKey,
};

verus! {

/// The first elements of a row are as many as are asked for, or all.
pub proof fn law_first_of<T>(s: Seq<T>, n: int)
    requires
        0 <= n,
    ensures
        first_of(s, n).len() == (if s.len() < n {
            s.len() as int
        } else {
            n
        }),
        forall|i: int| 0 <= i < first_of(s, n).len() ==> #[trigger] first_of(s, n)[i] == s[i],
        first_of(s, n).is_prefix_of(s),
{
}

/// Rows one after the other hold all elements, in their order.
pub proof fn law_all_of<T>(rows: Seq<Seq<T>>, row: Seq<T>)
    ensures
        all_of(Seq::<Seq<T>>::empty()) == Seq::<T>::empty(),
        all_of(seq![row]) == row,
        all_of(rows.push(row)) == all_of(rows) + row,
        all_of(rows.push(row)).len() == all_of(rows).len() + row.len(),
{
    lemma_all_of_push(rows, row);
    let none = Seq::<Seq<T>>::empty();
    lemma_all_of_push(none, row);
    assert(none.push(row) =~= seq![row]);
    assert(Seq::<T>::empty() + row =~= row);
}

/// Every element of a row stands among the elements of all rows.
pub proof fn law_all_of_holds<T>(rows: Seq<Seq<T>>, k: int, i: int)
    requires
        0 <= k < rows.len(),
        0 <= i < rows[k].len(),
    ensures
        all_of(rows).contains(rows[k][i]),
    decreases rows.len(),
{
    let rest = rows.drop_last();
    let s = all_of(rows);
    if k == rest.len() {
        assert(s[all_of(rest).len() + i] == rows[k][i]);
    } else {
        law_all_of_holds(rest, k, i);
        let j = choose|j: int| 0 <= j < all_of(rest).len() && all_of(rest)[j] == rows[k][i];
        assert(s[j] == rows[k][i]);
    }
}

/// Every element of all rows is that of one of them.
pub proof fn law_all_of_from<T>(rows: Seq<Seq<T>>, j: int) -> (at: (int, int))
    requires
        0 <= j < all_of(rows).len(),
    ensures
        0 <= at.0 < rows.len(),
        0 <= at.1 < rows[at.0].len(),
        all_of(rows)[j] == rows[at.0][at.1],
    decreases rows.len(),
{
    let rest = rows.drop_last();
    let n = all_of(rest).len() as int;
    if j >= n {
        (rest.len() as int, j - n)
    } else {
        law_all_of_from(rest, j)
    }
}

/// Rows that are cut off keep their first elements.
pub proof fn law_capped<T>(rows: Seq<Seq<T>>, cap: int, k: int)
    requires
        0 <= cap,
        0 <= k < rows.len(),
    ensures
        capped(rows, cap).len() == rows.len(),
        capped(rows, cap)[k].is_prefix_of(rows[k]),
        rows[k].len() <= cap ==> capped(rows, cap)[k] == rows[k],
        rows[k].len() > cap ==> capped(rows, cap)[k].len() == cap,
{
}

/// Sorting only moves elements.
pub proof fn law_sorted_elements<T, K: SortKey>(s: Seq<T>, key: spec_fn(T) -> K)
    ensures
        sorted_by(s, key).len() == s.len(),
        sorted_by(s, key).to_multiset() == s.to_multiset(),
{
    law_sorted_in_order(s, key);
    law_sorted_same_elements(s, s.map_values(key));
}

/// Where each element of a sorted row stood before: of two elements that nothing puts before one
/// another the first stays first.
pub proof fn law_sorted_places<T, K: SortKey>(s: Seq<T>, key: spec_fn(T) -> K) -> (order: Seq<int>)
    ensures
        order.len() == s.len(),
        sorted_by(s, key).len() == s.len(),
        forall|i: int| 0 <= i < s.len() ==> 0 <= #[trigger] order[i] < s.len(),
        forall|i: int| 0 <= i < s.len() ==> #[trigger] sorted_by(s, key)[i] == s[order[i]],
        forall|k: int| 0 <= k < s.len() ==> #[trigger] order.contains(k),
        forall|i: int, j: int|
            0 <= i < j < s.len() && !key(s[#[trigger] order[i]]).lt(key(s[#[trigger] order[j]]))
                ==> order[i] < order[j],
{
    let keys = s.map_values(key);
    lemma_order_exists(keys);
    let order = order_of(keys);
    assert forall|i: int, j: int|
        0 <= i < j < s.len() && !key(s[#[trigger] order[i]]).lt(
            key(s[#[trigger] order[j]]),
        ) implies order[i] < order[j] by {
        assert(precedes(keys, order[i], order[j]));
    }
    order
}

/// Numbers that are sorted from the least on do not fall.
pub proof fn law_ascending<T>(s: Seq<T>, key: spec_fn(T) -> i64, i: int, j: int)
    requires
        0 <= i <= j < s.len(),
    ensures
        sorted_by(s, key).len() == s.len(),
        key(sorted_by(s, key)[i]) <= key(sorted_by(s, key)[j]),
{
    law_sorted_in_order(s, key);
}

/// Numbers that are sorted from the greatest on do not rise.
pub proof fn law_descending(a: i64, b: i64)
    ensures
        Descending(a).lt(Descending(b)) <==> a > b,
        a.lt(b) <==> a < b,
{
}

/// What is marked comes before what is not, and of the rest the text decides.
pub proof fn law_marked_first(a: MarkedFirst, b: MarkedFirst)
    ensures
        a.marked && !b.marked ==> a.lt(b) && !b.lt(a),
        a.marked == b.marked ==> a.lt(b) == text_lt(a.text@, b.text@),
{
}

/// Of two rows of bytes that are the same up to a place, the byte at that place decides, and a row
/// that ends there comes first.
pub proof fn law_bytes_order(a: Seq<u8>, b: Seq<u8>, k: int)
    requires
        0 <= k <= a.len(),
        k <= b.len(),
        forall|i: int| 0 <= i < k ==> #[trigger] a[i] == b[i],
    ensures
        k < a.len() && k < b.len() && a[k] < b[k] ==> bytes_lt(a, b) && !bytes_lt(b, a),
        k == a.len() && k < b.len() ==> bytes_lt(a, b) && !bytes_lt(b, a),
        k == a.len() && k == b.len() ==> !bytes_lt(a, b) && !bytes_lt(b, a),
    decreases k,
{
    if k > 0 {
        assert(a[0] == b[0]);
        let (c, d) = (a.skip(1), b.skip(1));
        assert forall|i: int| 0 <= i < k - 1 implies #[trigger] c[i] == d[i] by {
            assert(a[i + 1] == b[i + 1]);
        }
        law_bytes_order(c, d, k - 1);
    }
}

/// Texts stand in the order of their bytes.
pub proof fn law_text_order(a: Seq<char>, b: Seq<char>)
    ensures
        text_lt(a, b) == bytes_lt(encode_utf8(a), encode_utf8(b)),
{
}

/// Of two elements of which the second is not put before the first, the first stays first.
pub proof fn law_first_stays_first<T, K: SortKey>(
    s: Seq<T>,
    key: spec_fn(T) -> K,
    p: int,
    q: int,
) -> (at: (int, int))
    requires
        0 <= p < q < s.len(),
        !key(s[q]).lt(key(s[p])),
    ensures
        0 <= at.0 < at.1 < sorted_by(s, key).len(),
        sorted_by(s, key)[at.0] == s[p],
        sorted_by(s, key)[at.1] == s[q],
{
    let order = law_sorted_places(s, key);
    assert(order.contains(p));
    assert(order.contains(q));
    let i = choose|i: int| 0 <= i < order.len() && order[i] == p;
    let j = choose|j: int| 0 <= j < order.len() && order[j] == q;
    if j < i {
        assert(!key(s[order[j]]).lt(key(s[order[i]])));
        assert(order[j] < order[i]);
    }
    (i, j)
}

} // verus!
