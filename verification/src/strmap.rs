use vstd::prelude::*;

use crate::order::{is_text_lt, lemma_text_lt_irreflexive, lemma_text_lt_total, lemma_text_lt_transitive, text_lt};

verus! {

/// A map from texts to values. Its entries stand in the order of their keys.
#[derive(Debug)]
pub struct StrMap<V> {
    entries: Vec<(String, V)>,
}

/// Whether the keys are different and stand in their order.
pub open spec fn keys_ordered(keys: Seq<Seq<char>>) -> bool {
    forall|i: int, j: int| 0 <= i < j < keys.len() ==> text_lt(#[trigger] keys[i], #[trigger] keys[j])
}

/// The keys of a row of entries.
pub open spec fn keys_of<V>(entries: Seq<(String, V)>) -> Seq<Seq<char>> {
    entries.map_values(|e: (String, V)| e.0@)
}

impl<V> View for StrMap<V> {
    type V = Map<Seq<char>, V>;

    closed spec fn view(&self) -> Map<Seq<char>, V> {
        Map::new(
            |k: Seq<char>| self.keys().contains(k),
            |k: Seq<char>| self.entries@[self.keys().index_of(k)].1,
        )
    }
}

impl<V> StrMap<V> {
    /// The keys of the map, in their order.
    pub closed spec fn keys(&self) -> Seq<Seq<char>> {
        keys_of(self.entries@)
    }

    #[verifier::type_invariant]
    closed spec fn ordered(self) -> bool {
        keys_ordered(self.keys())
    }

    /// The map without entries.
    pub fn new() -> (r: Self)
        ensures
            r@ == Map::<Seq<char>, V>::empty(),
            r.keys() == Seq::<Seq<char>>::empty(),
    {
        let r = StrMap { entries: Vec::new() };
        assert(r.keys() =~= Seq::empty());
        assert(r@ =~= Map::empty());
        r
    }

    /// The number of entries.
    pub fn len(&self) -> (r: usize)
        ensures
            r == self.keys().len(),
            keys_ordered(self.keys()),
            forall|k: Seq<char>| self@.contains_key(k) <==> #[trigger] self.keys().contains(k),
    {
        proof {
            use_type_invariant(self);
        }
        self.entries.len()
    }

    /// The entry at a place in the order of the keys.
    pub fn at(&self, i: usize) -> (r: (&String, &V))
        requires
            i < self.keys().len(),
        ensures
            r.0@ == self.keys()[i as int],
            self@.contains_key(r.0@),
            *r.1 == self@[r.0@],
    {
        proof {
            use_type_invariant(self);
            lemma_index_of(self.keys(), i as int);
        }
        let e = &self.entries[i];
        assert(self.keys().contains(self.keys()[i as int]));
        (&e.0, &e.1)
    }

    /// The first place whose key does not come before `k`.
    fn place(&self, k: &str) -> (r: usize)
        ensures
            r <= self.entries.len(),
            forall|i: int| 0 <= i < r ==> text_lt(#[trigger] self.keys()[i], k@),
            forall|i: int| r <= i < self.entries.len() ==> !text_lt(#[trigger] self.keys()[i], k@),
            r < self.entries.len() && self.keys()[r as int] != k@ ==> !self.keys().contains(k@),
            r == self.entries.len() ==> !self.keys().contains(k@),
    {
        proof {
            use_type_invariant(self);
        }
        let mut lo: usize = 0;
        let mut hi: usize = self.entries.len();
        while lo < hi
            invariant
                lo <= hi <= self.entries.len(),
                keys_ordered(self.keys()),
                forall|i: int| 0 <= i < lo ==> text_lt(#[trigger] self.keys()[i], k@),
                forall|i: int|
                    hi <= i < self.entries.len() ==> !text_lt(#[trigger] self.keys()[i], k@),
            decreases hi - lo,
        {
            let mid: usize = lo + (hi - lo) / 2;
            let less = is_text_lt(self.entries[mid].0.as_str(), k);
            assert(self.keys()[mid as int] == self.entries@[mid as int].0@);
            if less {
                assert forall|i: int| 0 <= i <= mid implies text_lt(
                    #[trigger] self.keys()[i],
                    k@,
                ) by {
                    if i < mid {
                        lemma_text_lt_transitive(self.keys()[i], self.keys()[mid as int], k@);
                    }
                }
                lo = mid + 1;
            } else {
                assert forall|i: int| mid <= i < self.entries.len() implies !text_lt(
                    #[trigger] self.keys()[i],
                    k@,
                ) by {
                    if i > mid && text_lt(self.keys()[i], k@) {
                        lemma_text_lt_transitive(self.keys()[mid as int], self.keys()[i], k@);
                    }
                }
                hi = mid;
            }
        }
        proof {
            if lo == self.entries.len() || self.keys()[lo as int] != k@ {
                assert forall|i: int| 0 <= i < self.keys().len() implies self.keys()[i] != k@ by {
                    lemma_text_lt_irreflexive(k@);
                    if i > lo && self.keys()[i] == k@ {
                        assert(text_lt(self.keys()[lo as int], self.keys()[i]));
                    }
                }
            }
        }
        lo
    }

    /// The value of a key, where the map has it.
    pub fn get(&self, k: &str) -> (r: Option<&V>)
        ensures
            match r {
                Some(v) => self@.contains_key(k@) && *v == self@[k@],
                None => !self@.contains_key(k@),
            },
    {
        proof {
            use_type_invariant(self);
        }
        let i: usize = self.place(k);
        if i < self.entries.len() && crate::text::same(self.entries[i].0.as_str(), k) {
            proof {
                lemma_index_of(self.keys(), i as int);
                assert(self.keys().contains(self.keys()[i as int]));
            }
            Some(&self.entries[i].1)
        } else {
            None
        }
    }

    /// Whether the map has a key.
    pub fn contains_key(&self, k: &str) -> (r: bool)
        ensures
            r == self@.contains_key(k@),
    {
        self.get(k).is_some()
    }

    /// Gives a key a value, in place of the one that it had.
    pub fn insert(&mut self, k: String, v: V)
        ensures
            final(self)@ == old(self)@.insert(k@, v),
    {
        proof {
            use_type_invariant(&*self);
        }
        let ghost before = self.keys();
        let ghost old_entries = self.entries@;
        let i: usize = self.place(k.as_str());
        let known = i < self.entries.len() && crate::text::same(self.entries[i].0.as_str(), k.as_str());
        let mut entries: Vec<(String, V)> = Vec::new();
        std::mem::swap(&mut entries, &mut self.entries);
        let ghost key = k@;
        if known {
            entries.set(i, (k, v));
            proof {
                assert(keys_of(entries@) =~= before);
                assert forall|x: Seq<char>| before.contains(x) implies (entries@[before.index_of(
                    x,
                )].1 == if x == key {
                    v
                } else {
                    old_entries[before.index_of(x)].1
                }) by {
                    lemma_index_of(before, i as int);
                    let j = choose|j: int| 0 <= j < before.len() && before[j] == x;
                    lemma_index_of(before, j);
                }
                assert(before[i as int] == key);
                assert(before.contains(key));
            }
        } else {
            entries.insert(i, (k, v));
            proof {
                let keys = keys_of(entries@);
                assert(keys =~= before.insert(i as int, key));
                assert forall|a: int, b: int| 0 <= a < b < keys.len() implies text_lt(
                    #[trigger] keys[a],
                    #[trigger] keys[b],
                ) by {
                    if a == i {
                        assert(keys[b] == before[b - 1]);
                        lemma_text_lt_total(keys[b], key);
                        assert(before.contains(before[b - 1]));
                    } else if b == i {
                        assert(keys[a] == before[a]);
                    } else {
                        assert(keys[a] == before[if a < i {
                            a
                        } else {
                            a - 1
                        }]);
                        assert(keys[b] == before[if b < i {
                            b
                        } else {
                            b - 1
                        }]);
                    }
                }
                assert forall|x: Seq<char>| keys.contains(x) <==> (x == key || before.contains(x)) by {
                    if keys.contains(x) {
                        let j = choose|j: int| 0 <= j < keys.len() && keys[j] == x;
                        if j < i {
                            assert(before[j] == x);
                        } else if j > i {
                            assert(before[j - 1] == x);
                        }
                    }
                    if before.contains(x) {
                        let j = choose|j: int| 0 <= j < before.len() && before[j] == x;
                        if j < i {
                            assert(keys[j] == x);
                        } else {
                            assert(keys[j + 1] == x);
                        }
                    }
                    assert(keys[i as int] == key);
                }
                assert forall|x: Seq<char>| keys.contains(x) implies (entries@[keys.index_of(x)].1
                    == if x == key {
                    v
                } else {
                    old_entries[before.index_of(x)].1
                }) by {
                    let j = choose|j: int| 0 <= j < keys.len() && keys[j] == x;
                    lemma_index_of(keys, j);
                    if j < i {
                        lemma_index_of(before, j);
                    } else if j > i {
                        lemma_index_of(before, j - 1);
                    } else {
                    }
                    if x == key && j != i {
                        lemma_index_of(keys, i as int);
                    }
                }
            }
        }
        self.entries = entries;
        assert(self@ =~= old(self)@.insert(key, v));
    }
}

impl<V: Clone> Clone for StrMap<V> {
    fn clone(&self) -> (r: Self)
        ensures
            r.keys() == self.keys(),
            r@.dom() == self@.dom(),
            forall|k: Seq<char>|
                self@.contains_key(k) ==> vstd::pervasive::cloned(self@[k], #[trigger] r@[k]),
    {
        proof {
            use_type_invariant(self);
        }
        let mut entries: Vec<(String, V)> = Vec::new();
        let mut i: usize = 0;
        while i < self.entries.len()
            invariant
                i <= self.entries.len(),
                entries.len() == i,
                forall|j: int| 0 <= j < i ==> #[trigger] entries@[j].0 == self.entries@[j].0,
                forall|j: int|
                    0 <= j < i ==> vstd::pervasive::cloned(
                        self.entries@[j].1,
                        #[trigger] entries@[j].1,
                    ),
            decreases self.entries.len() - i,
        {
            let k = self.entries[i].0.clone();
            let v = self.entries[i].1.clone();
            entries.push((k, v));
            i = i + 1;
        }
        assert(keys_of(entries@) =~= self.keys());
        let r = StrMap { entries };
        assert(r@.dom() =~= self@.dom());
        r
    }
}

proof fn lemma_index_of(keys: Seq<Seq<char>>, i: int)
    requires
        keys_ordered(keys),
        0 <= i < keys.len(),
    ensures
        keys.contains(keys[i]),
        keys.index_of(keys[i]) == i,
{
    let x = keys[i];
    assert(keys.contains(x));
    let j = keys.index_of(x);
    assert(0 <= j < keys.len() && keys[j] == x);
    lemma_text_lt_irreflexive(x);
    if j < i {
        assert(text_lt(keys[j], keys[i]));
    } else if i < j {
        assert(text_lt(keys[i], keys[j]));
    }
}

} // verus!
