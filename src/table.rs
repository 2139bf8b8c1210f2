use vstd::prelude::*;

use crate::paths::{compare_paths, lemma_lt_asymmetric, lemma_lt_irreflexive, lemma_lt_trichotomy, lemma_lt_transitive, path_lt};

verus! {

/// A table keyed by path, kept strictly sorted by key so that lookups are binary searches.
#[derive(Clone)]
pub struct SortedTable<V> {
    items: Vec<(String, V)>,
}

impl<V: View> SortedTable<V> {
    /// The key stored at position `i`.
    pub closed spec fn key_at(self, i: int) -> Seq<char> {
        self.items@[i].0@
    }

    /// The number of entries.
    pub closed spec fn size(self) -> nat {
        self.items@.len()
    }

    /// Keys strictly increase, hence are unique.
    pub closed spec fn wf(self) -> bool {
        forall|i: int, j: int|
            0 <= i < j < self.items@.len() ==> path_lt(#[trigger] self.key_at(i), #[trigger] self.key_at(j))
    }

    pub closed spec fn has(self, k: Seq<char>) -> bool {
        exists|i: int| 0 <= i < self.items@.len() && self.key_at(i) == k
    }

    /// What the table maps each key to.
    pub closed spec fn view_map(self) -> Map<Seq<char>, V::V> {
        Map::new(
            |k: Seq<char>| self.has(k),
            |k: Seq<char>|
                self.items@[choose|i: int| 0 <= i < self.items@.len() && self.key_at(i) == k].1@,
        )
    }

    proof fn lemma_unique(self, i: int, j: int)
        requires
            self.wf(),
            0 <= i < self.items@.len(),
            0 <= j < self.items@.len(),
            self.key_at(i) == self.key_at(j),
        ensures
            i == j,
    {
        if i < j {
            assert(path_lt(self.key_at(i), self.key_at(j)));
            lemma_lt_irreflexive(self.key_at(i), 0);
        } else if j < i {
            assert(path_lt(self.key_at(j), self.key_at(i)));
            lemma_lt_irreflexive(self.key_at(i), 0);
        }
    }

    proof fn lemma_view_at(self, i: int)
        requires
            self.wf(),
            0 <= i < self.items@.len(),
        ensures
            self.view_map().contains_key(self.key_at(i)),
            self.view_map()[self.key_at(i)] == self.items@[i].1@,
    {
        let k = self.key_at(i);
        assert(self.has(k));
        let j = choose|j: int| 0 <= j < self.items@.len() && self.key_at(j) == k;
        self.lemma_unique(i, j);
    }

    /// An empty table.
    pub fn new() -> (r: Self)
        ensures
            r.wf(),
            r.view_map() == Map::<Seq<char>, V::V>::empty(),
            r.size() == 0,
    {
        let r = SortedTable { items: Vec::new() };
        assert(r.view_map() =~= Map::<Seq<char>, V::V>::empty());
        r
    }

    /// The number of entries.
    pub fn len(&self) -> (r: usize)
        ensures
            r == self.size(),
    {
        self.items.len()
    }

    /// The first position whose key is not below `k`.
    fn lower_bound(&self, k: &str) -> (p: usize)
        requires
            self.wf(),
        ensures
            p <= self.items@.len(),
            forall|j: int| 0 <= j < p ==> path_lt(#[trigger] self.key_at(j), k@),
            forall|j: int| p <= j < self.items@.len() ==> !path_lt(#[trigger] self.key_at(j), k@),
    {
        let mut lo: usize = 0;
        let mut hi: usize = self.items.len();
        while lo < hi
            invariant
                self.wf(),
                lo <= hi <= self.items@.len(),
                forall|j: int| 0 <= j < lo ==> path_lt(#[trigger] self.key_at(j), k@),
                forall|j: int| hi <= j < self.items@.len() ==> !path_lt(#[trigger] self.key_at(j), k@),
            decreases hi - lo,
        {
            let mid = lo + (hi - lo) / 2;
            let c = compare_paths(self.items[mid].0.as_str(), k);
            if c == -1 {
                assert forall|j: int| 0 <= j < mid + 1 implies path_lt(#[trigger] self.key_at(j), k@) by {
                    if j < mid {
                        assert(path_lt(self.key_at(j), self.key_at(mid as int)));
                        lemma_lt_transitive(self.key_at(j), self.key_at(mid as int), k@, 0);
                    }
                }
                lo = mid + 1;
            } else {
                assert forall|j: int| mid <= j < self.items@.len() implies !path_lt(#[trigger] self.key_at(j), k@) by {
                    if j > mid && path_lt(self.key_at(j), k@) {
                        assert(path_lt(self.key_at(mid as int), self.key_at(j)));
                        lemma_lt_transitive(self.key_at(mid as int), self.key_at(j), k@, 0);
                    }
                }
                hi = mid;
            }
        }
        lo
    }

    /// The position of key `k`, if the table holds it.
    fn find(&self, k: &str) -> (r: Option<usize>)
        requires
            self.wf(),
        ensures
            match r {
                Some(i) => i < self.items@.len() && self.key_at(i as int) == k@,
                None => forall|j: int| 0 <= j < self.items@.len() ==> self.key_at(j) != k@,
            },
    {
        let p = self.lower_bound(k);
        if p < self.items.len() && compare_paths(self.items[p].0.as_str(), k) == 0 {
            Some(p)
        } else {
            assert forall|j: int| 0 <= j < self.items@.len() implies self.key_at(j) != k@ by {
                if j < p {
                    lemma_lt_irreflexive(k@, 0);
                } else if j > p && self.key_at(j) == k@ {
                    assert(path_lt(self.key_at(p as int), self.key_at(j)));
                }
            }
            None
        }
    }

    /// The value stored under `k`.
    pub fn get(&self, k: &str) -> (r: Option<&V>)
        requires
            self.wf(),
        ensures
            match r {
                Some(v) => self.view_map().contains_key(k@) && self.view_map()[k@] == v@,
                None => !self.view_map().contains_key(k@),
            },
    {
        match self.find(k) {
            Some(i) => {
                proof {
                    self.lemma_view_at(i as int);
                }
                Some(&self.items[i].1)
            },
            None => None,
        }
    }

    /// True when the table holds key `k`.
    pub fn contains(&self, k: &str) -> (r: bool)
        requires
            self.wf(),
        ensures
            r == self.view_map().contains_key(k@),
    {
        match self.find(k) {
            Some(i) => {
                proof {
                    self.lemma_view_at(i as int);
                }
                true
            },
            None => false,
        }
    }

    /// Stores `v` under `k`, replacing what `k` held before.
    pub fn insert(&mut self, k: String, v: V)
        requires
            old(self).wf(),
        ensures
            final(self).wf(),
            final(self).view_map() == old(self).view_map().insert(k@, v@),
    {
        let p = self.lower_bound(k.as_str());
        let ghost old_t = *self;
        let ghost kv = k@;
        let ghost vv = v@;
        if p < self.items.len() && compare_paths(self.items[p].0.as_str(), k.as_str()) == 0 {
            self.items.remove(p);
            self.items.insert(p, (k, v));
            proof {
                assert forall|j: int| 0 <= j < self.items@.len() && j != p implies #[trigger] self.key_at(j)
                    == old_t.key_at(j) && self.items@[j].1 == old_t.items@[j].1 by {}
                assert(self.key_at(p as int) == old_t.key_at(p as int));
            }
        } else {
            proof {
                if p < self.items@.len() {
                    lemma_lt_trichotomy(self.key_at(p as int), kv);
                }
            }
            self.items.insert(p, (k, v));
            proof {
                assert forall|j: int| 0 <= j < p implies #[trigger] self.key_at(j) == old_t.key_at(j) by {}
                assert forall|j: int| p < j < self.items@.len() implies #[trigger] self.key_at(j)
                    == old_t.key_at(j - 1) && self.items@[j].1 == old_t.items@[j - 1].1 by {}
                assert forall|i: int, j: int| 0 <= i < j < self.items@.len() implies path_lt(
                    #[trigger] self.key_at(i),
                    #[trigger] self.key_at(j),
                ) by {
                    if j < p {
                    } else if j == p {
                    } else if i < p {
                        // old key at i < kv <= key at j, and kv != key at j
                        lemma_lt_trichotomy(old_t.key_at(j - 1), kv);
                        if path_lt(kv, old_t.key_at(j - 1)) {
                            lemma_lt_transitive(old_t.key_at(i), kv, old_t.key_at(j - 1), 0);
                        } else {
                            lemma_lt_trichotomy(old_t.key_at(p as int), kv);
                            assert(path_lt(old_t.key_at(p as int), old_t.key_at(j - 1)) || p == j - 1);
                            if p < j - 1 {
                                lemma_lt_asymmetric(old_t.key_at(p as int), old_t.key_at(j - 1), 0);
                            }
                        }
                    } else if i == p {
                        lemma_lt_trichotomy(old_t.key_at(j - 1), kv);
                        if !path_lt(kv, old_t.key_at(j - 1)) {
                            lemma_lt_trichotomy(old_t.key_at(p as int), kv);
                            if p < j - 1 {
                                assert(path_lt(old_t.key_at(p as int), old_t.key_at(j - 1)));
                                lemma_lt_asymmetric(old_t.key_at(p as int), old_t.key_at(j - 1), 0);
                            }
                        }
                    } else {
                        assert(path_lt(old_t.key_at(i - 1), old_t.key_at(j - 1)));
                    }
                }
            }
        }
        proof {
            let nm = self.view_map();
            let om = old_t.view_map().insert(kv, vv);
            assert forall|q: Seq<char>| nm.contains_key(q) <==> om.contains_key(q) by {
                if nm.contains_key(q) {
                    let j = choose|j: int| 0 <= j < self.items@.len() && self.key_at(j) == q;
                    if q != kv {
                        if self.items@.len() > old_t.items@.len() && j > p {
                            assert(old_t.key_at(j - 1) == q);
                        } else {
                            assert(old_t.key_at(j) == q);
                        }
                    }
                }
                if om.contains_key(q) && q != kv {
                    let j = choose|j: int| 0 <= j < old_t.items@.len() && old_t.key_at(j) == q;
                    if self.items@.len() > old_t.items@.len() && j >= p {
                        assert(self.key_at(j + 1) == q);
                    } else {
                        assert(self.key_at(j) == q);
                    }
                }
                if q == kv {
                    assert(self.key_at(p as int) == kv);
                }
            }
            assert forall|q: Seq<char>| nm.contains_key(q) implies nm[q] == om[q] by {
                let j = choose|j: int| 0 <= j < self.items@.len() && self.key_at(j) == q;
                self.lemma_view_at(j);
                if q == kv {
                    self.lemma_view_at(p as int);
                } else if self.items@.len() > old_t.items@.len() && j > p {
                    old_t.lemma_view_at(j - 1);
                } else {
                    old_t.lemma_view_at(j);
                }
            }
            assert(nm =~= om);
        }
    }
}

} // verus!
