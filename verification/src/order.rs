use vstd::prelude::*;
use vstd::utf8::encode_utf8;

verus! {

/// The lexicographic order of byte strings.
pub open spec fn bytes_lt(a: Seq<u8>, b: Seq<u8>) -> bool
    decreases a.len(),
{
    if b.len() == 0 {
        false
    } else if a.len() == 0 {
        true
    } else {
        a[0] < b[0] || (a[0] == b[0] && bytes_lt(a.skip(1), b.skip(1)))
    }
}

proof fn lemma_bytes_lt_irreflexive(a: Seq<u8>)
    ensures
        !bytes_lt(a, a),
    decreases a.len(),
{
    if a.len() > 0 {
        lemma_bytes_lt_irreflexive(a.skip(1));
    }
}

proof fn lemma_bytes_lt_transitive(a: Seq<u8>, b: Seq<u8>, c: Seq<u8>)
    requires
        bytes_lt(a, b),
        bytes_lt(b, c),
    ensures
        bytes_lt(a, c),
    decreases a.len(),
{
    if a.len() > 0 && a[0] == b[0] && b[0] == c[0] {
        lemma_bytes_lt_transitive(a.skip(1), b.skip(1), c.skip(1));
    }
}

proof fn lemma_bytes_lt_total(a: Seq<u8>, b: Seq<u8>)
    ensures
        bytes_lt(a, b) || bytes_lt(b, a) || a == b,
    decreases a.len(),
{
    if a.len() > 0 && b.len() > 0 && a[0] == b[0] {
        lemma_bytes_lt_total(a.skip(1), b.skip(1));
        if a.skip(1) == b.skip(1) {
            assert(a =~= seq![a[0]] + a.skip(1));
            assert(b =~= seq![b[0]] + b.skip(1));
        }
    } else if a.len() == 0 && b.len() == 0 {
        assert(a =~= b);
    }
}

/// The order of texts: lexicographic, by the bytes of their UTF-8 form.
pub open spec fn text_lt(a: Seq<char>, b: Seq<char>) -> bool {
    bytes_lt(encode_utf8(a), encode_utf8(b))
}

/// Texts are strictly and totally ordered.
pub proof fn lemma_text_lt_irreflexive(a: Seq<char>)
    ensures
        !text_lt(a, a),
{
    lemma_bytes_lt_irreflexive(encode_utf8(a));
}

/// The order of texts is transitive.
pub proof fn lemma_text_lt_transitive(a: Seq<char>, b: Seq<char>, c: Seq<char>)
    requires
        text_lt(a, b),
        text_lt(b, c),
    ensures
        text_lt(a, c),
{
    lemma_bytes_lt_transitive(encode_utf8(a), encode_utf8(b), encode_utf8(c));
}

/// Of two texts one comes first, or they are the same.
pub proof fn lemma_text_lt_total(a: Seq<char>, b: Seq<char>)
    ensures
        text_lt(a, b) || text_lt(b, a) || a == b,
{
    lemma_bytes_lt_total(encode_utf8(a), encode_utf8(b));
    crate::text::lemma_same_bytes(a, b);
}

/// Whether `a` comes before `b`.
pub fn is_text_lt(a: &str, b: &str) -> (r: bool)
    ensures
        r == text_lt(a@, b@),
{
    let av = a.as_bytes();
    let bv = b.as_bytes();
    let mut i: usize = 0;
    assert(av@.skip(0) =~= av@);
    assert(bv@.skip(0) =~= bv@);
    loop
        invariant
            i <= av.len(),
            i <= bv.len(),
            av@ == encode_utf8(a@),
            bv@ == encode_utf8(b@),
            bytes_lt(av@, bv@) == bytes_lt(av@.skip(i as int), bv@.skip(i as int)),
        decreases av.len() - i,
    {
        if i == bv.len() {
            return false;
        }
        if i == av.len() {
            return true;
        }
        if av[i] != bv[i] {
            return av[i] < bv[i];
        }
        assert(av@.skip(i as int).skip(1) =~= av@.skip(i + 1));
        assert(bv@.skip(i as int).skip(1) =~= bv@.skip(i + 1));
        i = i + 1;
    }
}

/// A value by which things are sorted.
pub trait SortKey: Sized {
    /// Whether `self` is sorted before `other`.
    spec fn lt(self, other: Self) -> bool;

    /// Nothing is sorted before itself.
    proof fn lt_irreflexive(a: Self)
        ensures
            !a.lt(a),
    ;

    /// What is sorted before something is sorted before all that comes after that.
    proof fn lt_transitive(a: Self, b: Self, c: Self)
        ensures
            a.lt(b) && b.lt(c) ==> a.lt(c),
    ;

    /// A third value comes after the lesser or before the greater of two.
    proof fn lt_weak(a: Self, b: Self, c: Self)
        ensures
            a.lt(c) ==> a.lt(b) || b.lt(c),
    ;

    /// Whether `self` is sorted before `other`.
    fn is_lt(&self, other: &Self) -> (r: bool)
        ensures
            r == self.lt(*other),
    ;
}

/// Sorts numbers from the least to the greatest.
impl SortKey for i64 {
    open spec fn lt(self, other: Self) -> bool {
        self < other
    }

    proof fn lt_irreflexive(a: Self) {
    }

    proof fn lt_transitive(a: Self, b: Self, c: Self) {
    }

    proof fn lt_weak(a: Self, b: Self, c: Self) {
    }

    fn is_lt(&self, other: &Self) -> (r: bool) {
        *self < *other
    }
}

/// A number that is sorted from the greatest to the least.
pub struct Descending(pub i64);

impl SortKey for Descending {
    open spec fn lt(self, other: Self) -> bool {
        self.0 > other.0
    }

    proof fn lt_irreflexive(a: Self) {
    }

    proof fn lt_transitive(a: Self, b: Self, c: Self) {
    }

    proof fn lt_weak(a: Self, b: Self, c: Self) {
    }

    fn is_lt(&self, other: &Self) -> (r: bool) {
        self.0 > other.0
    }
}

/// Sorts texts by the bytes of their UTF-8 form.
impl SortKey for String {
    open spec fn lt(self, other: Self) -> bool {
        text_lt(self@, other@)
    }

    proof fn lt_irreflexive(a: Self) {
        lemma_text_lt_irreflexive(a@);
    }

    proof fn lt_transitive(a: Self, b: Self, c: Self) {
        if text_lt(a@, b@) && text_lt(b@, c@) {
            lemma_text_lt_transitive(a@, b@, c@);
        }
    }

    proof fn lt_weak(a: Self, b: Self, c: Self) {
        if text_lt(a@, c@) && !text_lt(a@, b@) {
            lemma_text_lt_total(a@, b@);
            if text_lt(b@, a@) {
                lemma_text_lt_transitive(b@, a@, c@);
            }
        }
    }

    fn is_lt(&self, other: &Self) -> (r: bool) {
        is_text_lt(self.as_str(), other.as_str())
    }
}

/// A key that sorts what is marked before what is not, and each of the two by a text.
pub struct MarkedFirst {
    /// Whether it is marked.
    pub marked: bool,
    /// The text.
    pub text: String,
}

impl SortKey for MarkedFirst {
    open spec fn lt(self, other: Self) -> bool {
        (self.marked && !other.marked) || (self.marked == other.marked && self.text.lt(other.text))
    }

    proof fn lt_irreflexive(a: Self) {
        String::lt_irreflexive(a.text);
    }

    proof fn lt_transitive(a: Self, b: Self, c: Self) {
        String::lt_transitive(a.text, b.text, c.text);
    }

    proof fn lt_weak(a: Self, b: Self, c: Self) {
        String::lt_weak(a.text, b.text, c.text);
    }

    fn is_lt(&self, other: &Self) -> (r: bool) {
        if self.marked != other.marked {
            self.marked
        } else {
            self.text.is_lt(&other.text)
        }
    }
}

/// Whether, of the places `i` and `j`, the first comes before the second in the sorted row: by
/// their keys, and by their own order where the keys do not decide.
pub open spec fn precedes<K: SortKey>(keys: Seq<K>, i: int, j: int) -> bool {
    keys[i].lt(keys[j]) || (!keys[j].lt(keys[i]) && i < j)
}

/// Whether `order` holds exactly the places from `lo` up to `hi`, each before those it precedes.
pub open spec fn orders<K: SortKey>(keys: Seq<K>, order: Seq<int>, lo: int, hi: int) -> bool {
    &&& order.len() == hi - lo
    &&& forall|i: int| 0 <= i < order.len() ==> lo <= #[trigger] order[i] < hi
    &&& forall|k: int| lo <= k < hi ==> #[trigger] order.contains(k)
    &&& forall|i: int, j: int|
        0 <= i < j < order.len() ==> precedes(keys, #[trigger] order[i], #[trigger] order[j])
}

/// The places of the keys in sorted order; places with equal keys keep their order.
pub open spec fn order_of<K: SortKey>(keys: Seq<K>) -> Seq<int> {
    choose|order: Seq<int>| orders(keys, order, 0, keys.len() as int)
}

proof fn lemma_precedes_asymmetric<K: SortKey>(keys: Seq<K>, i: int, j: int)
    requires
        precedes(keys, i, j),
    ensures
        !precedes(keys, j, i),
{
    K::lt_irreflexive(keys[i]);
    K::lt_transitive(keys[i], keys[j], keys[i]);
}

proof fn lemma_precedes_transitive<K: SortKey>(keys: Seq<K>, i: int, j: int, k: int)
    requires
        precedes(keys, i, j),
        precedes(keys, j, k),
    ensures
        precedes(keys, i, k),
{
    let (a, b, c) = (keys[i], keys[j], keys[k]);
    K::lt_transitive(a, b, c);
    K::lt_weak(a, c, b);
    K::lt_weak(b, a, c);
    K::lt_weak(c, b, a);
    K::lt_transitive(c, a, b);
    K::lt_transitive(b, c, a);
    K::lt_irreflexive(a);
    K::lt_irreflexive(b);
}

/// There is only one sorted order of a row of keys.
pub proof fn law_order_unique<K: SortKey>(keys: Seq<K>, a: Seq<int>, b: Seq<int>, lo: int, hi: int)
    requires
        orders(keys, a, lo, hi),
        orders(keys, b, lo, hi),
    ensures
        a == b,
{
    lemma_same_prefix(keys, a, b, lo, hi, a.len() as int);
    assert(a =~= b);
}

proof fn lemma_same_prefix<K: SortKey>(
    keys: Seq<K>,
    a: Seq<int>,
    b: Seq<int>,
    lo: int,
    hi: int,
    n: int,
)
    requires
        orders(keys, a, lo, hi),
        orders(keys, b, lo, hi),
        0 <= n <= a.len(),
    ensures
        forall|i: int| 0 <= i < n ==> a[i] == b[i],
    decreases n,
{
    if n > 0 {
        let m = n - 1;
        lemma_same_prefix(keys, a, b, lo, hi, m);
        if a[m] != b[m] {
            assert(b.contains(a[m]));
            let j = choose|j: int| 0 <= j < b.len() && b[j] == a[m];
            assert(a.contains(b[m]));
            let k = choose|k: int| 0 <= k < a.len() && a[k] == b[m];
            if j < m {
                assert(a[j] == a[m]);
                assert(precedes(keys, a[j], a[m]));
                lemma_precedes_asymmetric(keys, a[j], a[m]);
            }
            if k < m {
                assert(b[k] == b[m]);
                assert(precedes(keys, b[k], b[m]));
                lemma_precedes_asymmetric(keys, b[k], b[m]);
            }
            assert(precedes(keys, b[m], b[j]));
            assert(precedes(keys, a[m], a[k]));
            lemma_precedes_asymmetric(keys, b[m], a[m]);
        }
    }
}

/// The integers of a row of places.
pub open spec fn places(v: Seq<usize>) -> Seq<int> {
    v.map_values(|i: usize| i as int)
}

fn does_precede<K: SortKey>(keys: &Vec<K>, i: usize, j: usize) -> (r: bool)
    requires
        i < keys.len(),
        j < keys.len(),
    ensures
        r == precedes(keys@, i as int, j as int),
{
    if keys[i].is_lt(&keys[j]) {
        true
    } else if keys[j].is_lt(&keys[i]) {
        false
    } else {
        i < j
    }
}

/// Merges two sorted rows of neighbouring places.
fn merge<K: SortKey>(
    keys: &Vec<K>,
    a: &Vec<usize>,
    b: &Vec<usize>,
    Ghost(lo): Ghost<int>,
    Ghost(mid): Ghost<int>,
    Ghost(hi): Ghost<int>,
) -> (r: Vec<usize>)
    requires
        0 <= lo <= mid <= hi <= keys.len(),
        orders(keys@, places(a@), lo, mid),
        orders(keys@, places(b@), mid, hi),
    ensures
        orders(keys@, places(r@), lo, hi),
{
    let mut out: Vec<usize> = Vec::new();
    let mut i: usize = 0;
    let mut j: usize = 0;
    let ghost pa = places(a@);
    let ghost pb = places(b@);
    assert(a.len() == mid - lo);
    assert(b.len() == hi - mid);
    while i < a.len() || j < b.len()
        invariant
            0 <= lo <= mid <= hi <= keys.len(),
            pa == places(a@),
            pb == places(b@),
            orders(keys@, pa, lo, mid),
            orders(keys@, pb, mid, hi),
            i <= a.len(),
            j <= b.len(),
            out.len() == i + j,
            forall|k: int| 0 <= k < out.len() ==> lo <= #[trigger] places(out@)[k] < hi,
            forall|k: int, l: int|
                0 <= k < l < out.len() ==> precedes(
                    keys@,
                    #[trigger] places(out@)[k],
                    #[trigger] places(out@)[l],
                ),
            forall|k: int, l: int|
                0 <= k < out.len() && i <= l < a.len() ==> precedes(
                    keys@,
                    #[trigger] places(out@)[k],
                    #[trigger] pa[l],
                ),
            forall|k: int, l: int|
                0 <= k < out.len() && j <= l < b.len() ==> precedes(
                    keys@,
                    #[trigger] places(out@)[k],
                    #[trigger] pb[l],
                ),
            forall|k: int| 0 <= k < i ==> places(out@).contains(#[trigger] pa[k]),
            forall|k: int| 0 <= k < j ==> places(out@).contains(#[trigger] pb[k]),
        decreases a.len() - i + (b.len() - j),
    {
        let ghost old_out = places(out@);
        let ghost (oi, oj) = (i as int, j as int);
        proof {
            if i < a.len() {
                assert(pa[i as int] == a@[i as int] as int);
                assert(lo <= pa[i as int] < mid);
            }
            if j < b.len() {
                assert(pb[j as int] == b@[j as int] as int);
                assert(mid <= pb[j as int] < hi);
            }
        }
        if j == b.len() || (i < a.len() && does_precede(keys, a[i], b[j])) {
            out.push(a[i]);
            proof {
                let x = pa[oi];
                assert(places(out@) =~= old_out.push(x));
                assert forall|l: int| oj <= l < b.len() implies precedes(
                    keys@,
                    x,
                    #[trigger] pb[l],
                ) by {
                    if l > oj {
                        lemma_precedes_transitive(keys@, x, pb[oj], pb[l]);
                    }
                }
                assert(places(out@)[out.len() - 1] == x);
                lemma_push_contains(old_out, x);
            }
            i = i + 1;
        } else {
            out.push(b[j]);
            proof {
                let x = pb[oj];
                assert(places(out@) =~= old_out.push(x));
                assert forall|l: int| oi <= l < a.len() implies precedes(
                    keys@,
                    x,
                    #[trigger] pa[l],
                ) by {
                    let y = pa[oi];
                    assert(precedes(keys@, x, y));
                    if l > oi {
                        lemma_precedes_transitive(keys@, x, y, pa[l]);
                    }
                }
                assert(places(out@)[out.len() - 1] == x);
                lemma_push_contains(old_out, x);
            }
            j = j + 1;
        }
    }
    assert forall|k: int| lo <= k < hi implies #[trigger] places(out@).contains(k) by {
        if k < mid {
            assert(pa.contains(k));
            let l = choose|l: int| 0 <= l < pa.len() && pa[l] == k;
            assert(places(out@).contains(pa[l]));
        } else {
            assert(pb.contains(k));
            let l = choose|l: int| 0 <= l < pb.len() && pb[l] == k;
            assert(places(out@).contains(pb[l]));
        }
    }
    out
}

proof fn lemma_push_contains(s: Seq<int>, x: int)
    ensures
        s.push(x).contains(x),
        forall|y: int| s.contains(y) ==> #[trigger] s.push(x).contains(y),
{
    assert(s.push(x)[s.len() as int] == x);
    assert forall|y: int| s.contains(y) implies #[trigger] s.push(x).contains(y) by {
        let i = choose|i: int| 0 <= i < s.len() && s[i] == y;
        assert(s.push(x)[i] == y);
    }
}

fn sort_range<K: SortKey>(keys: &Vec<K>, lo: usize, hi: usize) -> (r: Vec<usize>)
    requires
        lo <= hi <= keys.len(),
    ensures
        orders(keys@, places(r@), lo as int, hi as int),
    decreases hi - lo,
{
    let mut out: Vec<usize> = Vec::new();
    if hi - lo == 0 {
        return out;
    }
    if hi - lo == 1 {
        out.push(lo);
        assert(places(out@)[0] == lo);
        return out;
    }
    let mid: usize = lo + (hi - lo) / 2;
    let a = sort_range(keys, lo, mid);
    let b = sort_range(keys, mid, hi);
    merge(keys, &a, &b, Ghost(lo as int), Ghost(mid as int), Ghost(hi as int))
}

/// The places of the keys in sorted order; places with equal keys keep their order.
pub fn sorted_places<K: SortKey>(keys: &Vec<K>) -> (r: Vec<usize>)
    ensures
        places(r@) == order_of(keys@),
        orders(keys@, places(r@), 0, keys.len() as int),
{
    let r = sort_range(keys, 0, keys.len());
    proof {
        law_order_unique(keys@, places(r@), order_of(keys@), 0, keys.len() as int);
    }
    r
}

/// Every row of keys has a sorted order.
pub proof fn lemma_order_exists<K: SortKey>(keys: Seq<K>)
    ensures
        orders(keys, order_of(keys), 0, keys.len() as int),
{
    let order = lemma_order_prefix(keys, keys.len() as int);
}

proof fn lemma_order_prefix<K: SortKey>(keys: Seq<K>, n: int) -> (order: Seq<int>)
    requires
        0 <= n <= keys.len(),
    ensures
        orders(keys, order, 0, n),
    decreases n,
{
    if n == 0 {
        Seq::empty()
    } else {
        let x = n - 1;
        let before = lemma_order_prefix(keys, x);
        let p = lemma_insert_place(keys, before, x, x);
        let order = before.insert(p, x);
        assert forall|k: int| 0 <= k < n implies #[trigger] order.contains(k) by {
            if k == x {
                assert(order[p] == x);
            } else {
                assert(before.contains(k));
                let i = choose|i: int| 0 <= i < before.len() && before[i] == k;
                if i < p {
                    assert(order[i] == k);
                } else {
                    assert(order[i + 1] == k);
                }
            }
        }
        assert forall|i: int, j: int| 0 <= i < j < order.len() implies precedes(
            keys,
            #[trigger] order[i],
            #[trigger] order[j],
        ) by {
            if i < p && j == p {
                assert(order[i] == before[i]);
            } else if i == p {
                assert(order[j] == before[j - 1]);
            } else if j < p {
                assert(order[i] == before[i] && order[j] == before[j]);
            } else if i < p {
                assert(order[i] == before[i] && order[j] == before[j - 1]);
            } else {
                assert(order[i] == before[i - 1] && order[j] == before[j - 1]);
            }
        }
        order
    }
}

/// Where place `x` goes among the first `n` of `order`: after those that precede it.
proof fn lemma_insert_place<K: SortKey>(keys: Seq<K>, order: Seq<int>, x: int, n: int) -> (p: int)
    requires
        orders(keys, order, 0, x),
        0 <= n <= order.len(),
        forall|i: int| n <= i < order.len() ==> precedes(keys, x, #[trigger] order[i]),
    ensures
        0 <= p <= order.len(),
        forall|i: int| 0 <= i < p ==> precedes(keys, #[trigger] order[i], x),
        forall|i: int| p <= i < order.len() ==> precedes(keys, x, #[trigger] order[i]),
    decreases n,
{
    if n == 0 {
        0
    } else if precedes(keys, order[n - 1], x) {
        assert forall|i: int| 0 <= i < n implies precedes(keys, #[trigger] order[i], x) by {
            if i < n - 1 {
                lemma_precedes_transitive(keys, order[i], order[n - 1], x);
            }
        }
        n
    } else {
        lemma_insert_place(keys, order, x, n - 1)
    }
}

/// The elements of `s` in the order in which `order` names their places.
pub open spec fn arranged<T>(s: Seq<T>, order: Seq<int>) -> Seq<T> {
    Seq::new(order.len(), |i: int| s[order[i]])
}

/// The elements in the order in which `order` names their places.
fn arrange<T>(items: Vec<T>, order: &Vec<usize>) -> (r: Vec<T>)
    requires
        forall|i: int| 0 <= i < order.len() ==> #[trigger] order@[i] < items.len(),
        forall|i: int, j: int| 0 <= i < j < order.len() ==> order@[i] != order@[j],
    ensures
        r@ == arranged(items@, places(order@)),
{
    let ghost all = items@;
    let mut items = items;
    let n: usize = items.len();
    let mut slots: Vec<Option<T>> = Vec::new();
    while items.len() > 0
        invariant
            n == all.len(),
            items.len() + slots.len() == n,
            items@ == all.take(items.len() as int),
            forall|i: int| 0 <= i < slots.len() ==> #[trigger] slots@[i] == Some(all[n - 1 - i]),
        decreases items.len(),
    {
        slots.push(items.pop());
    }
    let mut out: Vec<T> = Vec::new();
    let mut k: usize = 0;
    while k < order.len()
        invariant
            n == all.len(),
            slots.len() == n,
            k <= order.len(),
            forall|i: int| 0 <= i < order.len() ==> #[trigger] order@[i] < n,
            forall|i: int, j: int| 0 <= i < j < order.len() ==> order@[i] != order@[j],
            out.len() == k,
            forall|i: int| 0 <= i < k ==> #[trigger] out@[i] == all[order@[i] as int],
            forall|i: int|
                k <= i < order.len() ==> slots@[n - 1 - #[trigger] order@[i]] == Some(
                    all[order@[i] as int],
                ),
        decreases order.len() - k,
    {
        assert(order@[k as int] < n);
        let at: usize = n - 1 - order[k];
        assert(slots@[n - 1 - order@[k as int]] == Some(all[order@[k as int] as int]));
        let taken = slots[at].take();
        match taken {
            Some(x) => {
                out.push(x);
            },
            None => {},
        }
        k = k + 1;
    }
    assert(out@ =~= arranged(all, places(order@)));
    out
}

/// The elements sorted by their keys; elements with equal keys keep their order.
pub fn sort_by_keys<T, K: SortKey>(items: Vec<T>, keys: &Vec<K>) -> (r: Vec<T>)
    requires
        keys.len() == items.len(),
    ensures
        r@ == arranged(items@, order_of(keys@)),
        orders(keys@, order_of(keys@), 0, keys.len() as int),
{
    let order = sorted_places(keys);
    proof {
        assert forall|i: int| 0 <= i < order.len() implies #[trigger] order@[i] < items.len() by {
            assert(places(order@)[i] < keys.len());
        }
        assert forall|i: int, j: int| 0 <= i < j < order.len() implies order@[i] != order@[j] by {
            assert(precedes(keys@, places(order@)[i], places(order@)[j]));
            lemma_precedes_asymmetric(keys@, places(order@)[i], places(order@)[j]);
        }
    }
    arrange(items, &order)
}

/// Sorting keeps every element, as often as it occurs.
pub proof fn law_sorted_same_elements<T, K: SortKey>(s: Seq<T>, keys: Seq<K>)
    requires
        keys.len() == s.len(),
    ensures
        arranged(s, order_of(keys)).to_multiset() == s.to_multiset(),
{
    lemma_order_exists(keys);
    let order = order_of(keys);
    lemma_arranged_multiset(s, order);
}

/// A row of places that names each place once, in any order, only moves the elements.
proof fn lemma_arranged_multiset<T>(s: Seq<T>, order: Seq<int>)
    requires
        order.len() == s.len(),
        forall|i: int| 0 <= i < order.len() ==> 0 <= #[trigger] order[i] < s.len(),
        forall|k: int| 0 <= k < s.len() ==> #[trigger] order.contains(k),
    ensures
        arranged(s, order).to_multiset() == s.to_multiset(),
    decreases s.len(),
{
    broadcast use vstd::multiset::group_multiset_axioms, vstd::seq_lib::group_to_multiset_ensures;

    let a = arranged(s, order);
    if s.len() > 0 {
        let m = s.len() - 1;
        assert(order.contains(m));
        let p = choose|p: int| 0 <= p < order.len() && order[p] == m;
        let rest = order.remove(p);
        let t = s.drop_last();
        lemma_no_duplicates(order, s.len() as int);
        assert forall|i: int| 0 <= i < rest.len() implies 0 <= #[trigger] rest[i] < t.len() by {
            if i < p {
                assert(rest[i] == order[i]);
            } else {
                assert(rest[i] == order[i + 1]);
            }
        }
        assert forall|k: int| 0 <= k < t.len() implies #[trigger] rest.contains(k) by {
            assert(order.contains(k));
            let i = choose|i: int| 0 <= i < order.len() && order[i] == k;
            if i < p {
                assert(rest[i] == k);
            } else {
                assert(rest[i - 1] == k);
            }
        }
        lemma_arranged_multiset(t, rest);
        assert(a.remove(p) =~= arranged(t, rest));
        assert(a[p] == s[m]);
        assert(a =~= a.remove(p).insert(p, s[m]));
        vstd::seq_lib::to_multiset_insert(a.remove(p), p, s[m]);
        assert(s =~= t.push(s[m]));
    } else {
        assert(a =~= s);
    }
}

/// A row of `n` numbers in which each of `0..n` occurs names none of them twice.
proof fn lemma_no_duplicates(order: Seq<int>, n: int)
    requires
        order.len() == n,
        forall|i: int| 0 <= i < order.len() ==> 0 <= #[trigger] order[i] < n,
        forall|k: int| 0 <= k < n ==> #[trigger] order.contains(k),
    ensures
        forall|i: int, j: int| 0 <= i < j < order.len() ==> order[i] != order[j],
{
    let all = vstd::set_lib::set_int_range(0, n);
    vstd::set_lib::lemma_int_range(0, n);
    assert(order.to_set() =~= all) by {
        assert forall|k: int| order.to_set().contains(k) implies all.contains(k) by {
            assert(order.contains(k));
        }
        assert forall|k: int| all.contains(k) implies order.to_set().contains(k) by {
            assert(order.contains(k));
        }
    }
    order.lemma_no_dup_set_cardinality();
    assert(order.no_duplicates());
}

/// The first `limit` elements.
pub open spec fn first_of<T>(s: Seq<T>, limit: int) -> Seq<T> {
    if s.len() <= limit {
        s
    } else {
        s.take(limit)
    }
}

/// The elements sorted by their keys; elements with equal keys keep their order.
pub open spec fn sorted_by<T, K: SortKey>(s: Seq<T>, key: spec_fn(T) -> K) -> Seq<T> {
    arranged(s, order_of(s.map_values(key)))
}

/// Whether the elements stand in the order of their keys already.
pub open spec fn in_order<T, K: SortKey>(s: Seq<T>, key: spec_fn(T) -> K) -> bool {
    forall|i: int, j: int|
        0 <= i <= j < s.len() ==> !key(#[trigger] s[j]).lt(key(#[trigger] s[i]))
}

/// Sorting leaves the elements in the order of their keys.
pub proof fn law_sorted_in_order<T, K: SortKey>(s: Seq<T>, key: spec_fn(T) -> K)
    ensures
        sorted_by(s, key).len() == s.len(),
        in_order(sorted_by(s, key), key),
{
    let keys = s.map_values(key);
    lemma_order_exists(keys);
    let order = order_of(keys);
    let r = sorted_by(s, key);
    assert forall|i: int, j: int| 0 <= i <= j < r.len() implies !key(#[trigger] r[j]).lt(
        key(#[trigger] r[i]),
    ) by {
        assert(r[i] == s[order[i]] && r[j] == s[order[j]]);
        assert(keys[order[i]] == key(r[i]) && keys[order[j]] == key(r[j]));
        K::lt_irreflexive(key(r[i]));
        if i < j {
            assert(precedes(keys, order[i], order[j]));
            K::lt_transitive(key(r[i]), key(r[j]), key(r[i]));
        }
    }
}

/// The rows, one after the other.
pub open spec fn all_of<T>(rows: Seq<Seq<T>>) -> Seq<T>
    decreases rows.len(),
{
    if rows.len() == 0 {
        Seq::empty()
    } else {
        all_of(rows.drop_last()) + rows.last()
    }
}

/// The rows, each cut off after `cap` elements.
pub open spec fn capped<T>(rows: Seq<Seq<T>>, cap: int) -> Seq<Seq<T>> {
    rows.map_values(|r: Seq<T>| first_of(r, cap))
}

/// One row more.
pub proof fn lemma_all_of_push<T>(rows: Seq<Seq<T>>, row: Seq<T>)
    ensures
        all_of(rows.push(row)) == all_of(rows) + row,
{
    assert(rows.push(row).drop_last() =~= rows);
}

/// The place in sorted order of an element that stands behind `j` others of a row in order is no
/// less than `j`.
proof fn lemma_position<K: SortKey>(keys: Seq<K>, a: int, j: int) -> (p: int)
    requires
        0 <= a,
        0 <= j,
        a + j < keys.len(),
        forall|i: int, k: int|
            a <= i <= k <= a + j ==> !(#[trigger] keys[k]).lt(#[trigger] keys[i]),
    ensures
        j <= p < keys.len(),
        order_of(keys)[p] == a + j,
    decreases j,
{
    lemma_order_exists(keys);
    let order = order_of(keys);
    assert(order.contains(a + j));
    let p = choose|p: int| 0 <= p < order.len() && order[p] == a + j;
    if j > 0 {
        let q = lemma_position(keys, a, j - 1);
        assert(order[q] == a + j - 1);
        assert(!keys[a + j].lt(keys[a + j - 1]));
        assert(precedes(keys, order[q], order[p]));
        if p <= q {
            if p < q {
                assert(precedes(keys, order[p], order[q]));
            }
            lemma_precedes_asymmetric(keys, order[q], order[p]);
        }
    }
    p
}

/// Taking out an element that is not among the first `c` in sorted order leaves those as they are.
proof fn lemma_take_out<T, K: SortKey>(s: Seq<T>, keys: Seq<K>, x: int, p: int, c: int)
    requires
        keys.len() == s.len(),
        0 <= x < s.len(),
        0 <= c <= p < s.len(),
        order_of(keys)[p] == x,
    ensures
        first_of(arranged(s.remove(x), order_of(keys.remove(x))), c) == first_of(
            arranged(s, order_of(keys)),
            c,
        ),
{
    lemma_order_exists(keys);
    let order = order_of(keys);
    let less = keys.remove(x);
    let rest = order.remove(p);
    let moved = rest.map_values(
        |i: int|
            if i < x {
                i
            } else {
                i - 1
            },
    );
    assert forall|i: int| 0 <= i < rest.len() implies #[trigger] rest[i] != x by {
        let k = if i < p {
            i
        } else {
            i + 1
        };
        assert(rest[i] == order[k]);
        if order[k] == x {
            if k < p {
                assert(precedes(keys, order[k], order[p]));
                lemma_precedes_asymmetric(keys, order[k], order[p]);
            } else {
                assert(precedes(keys, order[p], order[k]));
                lemma_precedes_asymmetric(keys, order[p], order[k]);
            }
        }
    }
    assert forall|i: int| 0 <= i < rest.len() implies 0 <= #[trigger] rest[i] < keys.len() && (if rest[i] < x { less[rest[i]] } else { less[rest[i] - 1] }) == keys[rest[i]] by {
        let k = if i < p {
            i
        } else {
            i + 1
        };
        assert(rest[i] == order[k]);
        assert(0 <= order[k] < keys.len());
        assert(rest[i] != x);
    }
    assert(orders(less, moved, 0, less.len() as int)) by {
        assert forall|i: int| 0 <= i < moved.len() implies 0 <= #[trigger] moved[i] < less.len() by {
            assert(0 <= rest[i] < keys.len());
            assert(rest[i] != x);
        }
        assert forall|k: int| 0 <= k < less.len() implies #[trigger] moved.contains(k) by {
            let y = if k < x {
                k
            } else {
                k + 1
            };
            assert(order.contains(y));
            let i = choose|i: int| 0 <= i < order.len() && order[i] == y;
            let r = if i < p {
                i
            } else {
                i - 1
            };
            assert(rest[r] == y);
            assert(moved[r] == k);
        }
        assert forall|i: int, j: int| 0 <= i < j < moved.len() implies precedes(
            less,
            #[trigger] moved[i],
            #[trigger] moved[j],
        ) by {
            let ki = if i < p {
                i
            } else {
                i + 1
            };
            let kj = if j < p {
                j
            } else {
                j + 1
            };
            assert(rest[i] == order[ki] && rest[j] == order[kj]);
            assert(precedes(keys, order[ki], order[kj]));
            assert(less[moved[i]] == keys[rest[i]]);
            assert(less[moved[j]] == keys[rest[j]]);
            assert(rest[i] != x && rest[j] != x);
        }
    }
    lemma_order_exists(less);
    law_order_unique(less, moved, order_of(less), 0, less.len() as int);
    let a = arranged(s.remove(x), moved);
    let b = arranged(s, order);
    assert forall|i: int| 0 <= i < c implies a[i] == b[i] by {
        assert(rest[i] == order[i]);
        assert(rest[i] != x);
        assert(0 <= order[i] < s.len());
    }
    assert(first_of(a, c) =~= first_of(b, c));
}

/// Cutting off one row among others, after `cap` elements.
proof fn lemma_cap_one<T, K: SortKey>(
    pre: Seq<T>,
    row: Seq<T>,
    post: Seq<T>,
    key: spec_fn(T) -> K,
    cap: int,
    c: int,
)
    requires
        in_order(row, key),
        0 <= c <= cap,
    ensures
        first_of(sorted_by(pre + row + post, key), c) == first_of(
            sorted_by(pre + first_of(row, cap) + post, key),
            c,
        ),
    decreases row.len(),
{
    if row.len() > cap {
        let s = pre + row + post;
        let keys = s.map_values(key);
        let j = row.len() - 1;
        let x = pre.len() + j;
        assert forall|i: int, k: int| pre.len() <= i <= k <= x implies !(#[trigger] keys[k]).lt(
            #[trigger] keys[i],
        ) by {
            assert(s[i] == row[i - pre.len()]);
            assert(s[k] == row[k - pre.len()]);
        }
        let p = lemma_position(keys, pre.len() as int, j);
        lemma_take_out(s, keys, x, p, c);
        let t = pre + row.drop_last() + post;
        assert(s.remove(x) =~= t);
        assert(keys.remove(x) =~= t.map_values(key));
        assert(in_order(row.drop_last(), key)) by {
            assert forall|i: int, k: int| 0 <= i <= k < row.drop_last().len() implies !key(
                #[trigger] row.drop_last()[k],
            ).lt(key(#[trigger] row.drop_last()[i])) by {
                assert(row.drop_last()[k] == row[k] && row.drop_last()[i] == row[i]);
            }
        }
        lemma_cap_one(pre, row.drop_last(), post, key, cap, c);
        assert(first_of(row.drop_last(), cap) =~= first_of(row, cap));
    }
}

proof fn lemma_cap_all<T, K: SortKey>(
    rows: Seq<Seq<T>>,
    post: Seq<T>,
    key: spec_fn(T) -> K,
    cap: int,
    c: int,
)
    requires
        forall|i: int| 0 <= i < rows.len() ==> in_order(#[trigger] rows[i], key),
        0 <= c <= cap,
    ensures
        first_of(sorted_by(all_of(rows) + post, key), c) == first_of(
            sorted_by(all_of(capped(rows, cap)) + post, key),
            c,
        ),
    decreases rows.len(),
{
    if rows.len() > 0 {
        let rest = rows.drop_last();
        let row = rows.last();
        assert(in_order(rows[rows.len() - 1], key));
        assert forall|i: int| 0 <= i < rest.len() implies in_order(#[trigger] rest[i], key) by {
            assert(rest[i] == rows[i]);
        }
        lemma_cap_one(all_of(rest), row, post, key, cap, c);
        let tail = first_of(row, cap) + post;
        lemma_cap_all(rest, tail, key, cap, c);
        assert(all_of(rest) + first_of(row, cap) + post =~= all_of(rest) + tail);
        assert(capped(rows, cap).drop_last() =~= capped(rest, cap));
        assert(all_of(capped(rest, cap)) + tail =~= all_of(capped(rows, cap)) + post);
    } else {
        assert(capped(rows, cap) =~= rows);
    }
}

/// Of rows that stand in order, no more than `cap` elements each are needed to find the first `c`
/// of all in sorted order, where `cap` is no less than `c`.
pub proof fn law_cap<T, K: SortKey>(rows: Seq<Seq<T>>, key: spec_fn(T) -> K, cap: int, c: int)
    requires
        forall|i: int| 0 <= i < rows.len() ==> in_order(#[trigger] rows[i], key),
        0 <= c <= cap,
    ensures
        first_of(sorted_by(all_of(rows), key), c) == first_of(
            sorted_by(all_of(capped(rows, cap)), key),
            c,
        ),
{
    lemma_cap_all(rows, Seq::empty(), key, cap, c);
    assert(all_of(rows) + Seq::<T>::empty() =~= all_of(rows));
    assert(all_of(capped(rows, cap)) + Seq::<T>::empty() =~= all_of(capped(rows, cap)));
}

} // verus!
