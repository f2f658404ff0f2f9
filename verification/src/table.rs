use vstd::prelude::*;

use crate::pubkey::Pubkey;

verus! {

/// A table keyed by account address, holding at most one value per key.
///
/// Its model is a finite map from addresses to values.
pub struct KeyedTable<V> {
    entries: Vec<(Pubkey, V)>,
}

impl<V: Copy> KeyedTable<V> {
    /// Whether some entry carries key `k`.
    pub closed spec fn has(&self, k: Pubkey) -> bool {
        exists|i: int| 0 <= i < self.entries@.len() && (#[trigger] self.entries@[i]).0 == k
    }

    /// No key occurs twice.
    pub closed spec fn wf(&self) -> bool {
        forall|i: int, j: int|
            0 <= i < self.entries@.len() && 0 <= j < self.entries@.len() && i != j
                ==> (#[trigger] self.entries@[i]).0 != (#[trigger] self.entries@[j]).0
    }

    pub closed spec fn index_of(&self, k: Pubkey) -> int {
        choose|i: int| 0 <= i < self.entries@.len() && (#[trigger] self.entries@[i]).0 == k
    }

    /// The map from addresses to values that the table holds.
    pub closed spec fn view(&self) -> Map<Pubkey, V> {
        Map::new(|k: Pubkey| self.has(k), |k: Pubkey| self.entries@[self.index_of(k)].1)
    }

    proof fn lemma_view_at(&self, i: int)
        requires
            self.wf(),
            0 <= i < self.entries@.len(),
        ensures
            self.view().contains_key(self.entries@[i].0),
            self.view()[self.entries@[i].0] == self.entries@[i].1,
    {
        let k = self.entries@[i].0;
        assert(self.has(k));
        let j = self.index_of(k);
        assert(self.entries@[j].0 == k);
    }

    /// The empty table.
    pub fn new() -> (r: Self)
        ensures
            r.wf(),
            r.view() == Map::<Pubkey, V>::empty(),
    {
        let r = KeyedTable { entries: Vec::new() };
        assert(r.view() =~= Map::<Pubkey, V>::empty());
        r
    }

    /// Number of keys.
    pub fn len(&self) -> (r: usize)
        requires
            self.wf(),
        ensures
            r as nat == self.view().dom().len(),
    {
        proof {
            self.lemma_len();
        }
        self.entries.len()
    }

    /// A table holds finitely many keys.
    pub proof fn lemma_finite(&self)
        requires
            self.wf(),
        ensures
            self.view().dom().finite(),
    {
        self.lemma_len();
    }

    proof fn lemma_len(&self)
        requires
            self.wf(),
        ensures
            self.view().dom().len() == self.entries@.len(),
            self.view().dom().finite(),
        decreases self.entries@.len(),
    {
        let s = self.entries@.map_values(|e: (Pubkey, V)| e.0);
        assert(s.no_duplicates()) by {
            assert forall|i: int, j: int| 0 <= i < s.len() && 0 <= j < s.len() && i != j implies s[i]
                != s[j] by {
                assert(self.entries@[i].0 != self.entries@[j].0);
            }
        }
        assert(self.view().dom() =~= s.to_set()) by {
            assert forall|k: Pubkey| self.view().dom().contains(k) implies s.to_set().contains(k) by {
                let i = self.index_of(k);
                assert(s[i] == k);
            }
            assert forall|k: Pubkey| s.to_set().contains(k) implies self.view().dom().contains(k) by {
                let i = choose|i: int| 0 <= i < s.len() && s[i] == k;
                assert(self.entries@[i].0 == k);
            }
        }
        s.unique_seq_to_set();
    }

    fn find(&self, k: &Pubkey) -> (r: Option<usize>)
        requires
            self.wf(),
        ensures
            r matches Some(i) ==> i < self.entries@.len() && self.entries@[i as int].0 == *k,
            r is None ==> !self.has(*k),
    {
        let mut i: usize = 0;
        while i < self.entries.len()
            invariant
                0 <= i <= self.entries@.len(),
                forall|j: int| 0 <= j < i ==> (#[trigger] self.entries@[j]).0 != *k,
            decreases self.entries@.len() - i,
        {
            if self.entries[i].0.same_as(k) {
                return Some(i);
            }
            i = i + 1;
        }
        None
    }

    /// The value stored under `k`, if any.
    pub fn get(&self, k: &Pubkey) -> (r: Option<V>)
        requires
            self.wf(),
        ensures
            r == (if self.view().contains_key(*k) { Some(self.view()[*k]) } else { None::<V> }),
    {
        match self.find(k) {
            Some(i) => {
                proof {
                    self.lemma_view_at(i as int);
                }
                Some(self.entries[i].1)
            },
            None => None,
        }
    }

    /// Stores `v` under `k`, returning the value it replaces.
    pub fn insert(&mut self, k: Pubkey, v: V) -> (r: Option<V>)
        requires
            old(self).wf(),
        ensures
            final(self).wf(),
            final(self).view() == old(self).view().insert(k, v),
            r == (if old(self).view().contains_key(k) { Some(old(self).view()[k]) } else { None::<V> }),
    {
        match self.find(&k) {
            Some(i) => {
                proof {
                    self.lemma_view_at(i as int);
                }
                let prev = self.entries[i].1;
                let ghost pre = *self;
                self.entries.set(i, (k, v));
                proof {
                    assert forall|a: int, b: int|
                        0 <= a < self.entries@.len() && 0 <= b < self.entries@.len() && a != b
                        implies (#[trigger] self.entries@[a]).0 != (#[trigger] self.entries@[b]).0 by {
                        assert(pre.entries@[a].0 != pre.entries@[b].0);
                    }
                    assert forall|kk: Pubkey| #![auto] self.has(kk) <==> pre.view().insert(k, v).contains_key(kk) by {
                        if self.has(kk) {
                            let j = choose|j: int| 0 <= j < self.entries@.len() && (#[trigger] self.entries@[j]).0 == kk;
                            if j != i as int {
                                assert(pre.entries@[j].0 == kk);
                            }
                        }
                        if pre.has(kk) && kk != k {
                            let j = choose|j: int| 0 <= j < pre.entries@.len() && (#[trigger] pre.entries@[j]).0 == kk;
                            assert(self.entries@[j].0 == kk);
                        }
                        if kk == k {
                            assert(self.entries@[i as int].0 == kk);
                        }
                    }
                    assert forall|kk: Pubkey| #![auto] self.view().contains_key(kk) implies self.view()[kk]
                        == pre.view().insert(k, v)[kk] by {
                        let j = self.index_of(kk);
                        self.lemma_view_at(j);
                        if kk != k {
                            assert(j != i as int);
                            pre.lemma_view_at(j);
                        }
                    }
                    assert(self.view() =~= pre.view().insert(k, v));
                }
                Some(prev)
            },
            None => {
                let ghost pre = *self;
                self.entries.push((k, v));
                proof {
                    let n = pre.entries@.len() as int;
                    assert forall|a: int, b: int|
                        0 <= a < self.entries@.len() && 0 <= b < self.entries@.len() && a != b
                        implies (#[trigger] self.entries@[a]).0 != (#[trigger] self.entries@[b]).0 by {
                        if a < n && b < n {
                            assert(pre.entries@[a].0 != pre.entries@[b].0);
                        } else if a == n {
                            assert(pre.entries@[b] == self.entries@[b]);
                        } else {
                            assert(pre.entries@[a] == self.entries@[a]);
                        }
                    }
                    assert forall|kk: Pubkey| #![auto] self.has(kk) <==> pre.view().insert(k, v).contains_key(kk) by {
                        if self.has(kk) {
                            let j = choose|j: int| 0 <= j < self.entries@.len() && (#[trigger] self.entries@[j]).0 == kk;
                            if j != n {
                                assert(pre.entries@[j].0 == kk);
                            }
                        }
                        if pre.has(kk) {
                            let j = choose|j: int| 0 <= j < pre.entries@.len() && (#[trigger] pre.entries@[j]).0 == kk;
                            assert(self.entries@[j].0 == kk);
                        }
                        if kk == k {
                            assert(self.entries@[n].0 == kk);
                        }
                    }
                    assert forall|kk: Pubkey| #![auto] self.view().contains_key(kk) implies self.view()[kk]
                        == pre.view().insert(k, v)[kk] by {
                        let j = self.index_of(kk);
                        self.lemma_view_at(j);
                        if kk != k {
                            assert(j != n);
                            pre.lemma_view_at(j);
                        }
                    }
                    assert(self.view() =~= pre.view().insert(k, v));
                }
                None
            },
        }
    }

    /// Removes the value stored under `k`, returning it.
    pub fn remove(&mut self, k: &Pubkey) -> (r: Option<V>)
        requires
            old(self).wf(),
        ensures
            final(self).wf(),
            final(self).view() == old(self).view().remove(*k),
            r == (if old(self).view().contains_key(*k) { Some(old(self).view()[*k]) } else { None::<V> }),
    {
        match self.find(k) {
            Some(i) => {
                proof {
                    self.lemma_view_at(i as int);
                }
                let ghost pre = *self;
                let (_, prev) = self.entries.remove(i);
                proof {
                    let ii = i as int;
                    assert forall|a: int, b: int|
                        0 <= a < self.entries@.len() && 0 <= b < self.entries@.len() && a != b
                        implies (#[trigger] self.entries@[a]).0 != (#[trigger] self.entries@[b]).0 by {
                        let pa = if a < ii { a } else { a + 1 };
                        let pb = if b < ii { b } else { b + 1 };
                        assert(self.entries@[a] == pre.entries@[pa]);
                        assert(self.entries@[b] == pre.entries@[pb]);
                        assert(pre.entries@[pa].0 != pre.entries@[pb].0);
                    }
                    assert forall|kk: Pubkey| #![auto] self.has(kk) <==> pre.view().remove(*k).contains_key(kk) by {
                        if self.has(kk) {
                            let j = choose|j: int| 0 <= j < self.entries@.len() && (#[trigger] self.entries@[j]).0 == kk;
                            let pj = if j < ii { j } else { j + 1 };
                            assert(self.entries@[j] == pre.entries@[pj]);
                            assert(pre.entries@[pj].0 == kk);
                            assert(pj != ii);
                            assert(pre.entries@[pj].0 != pre.entries@[ii].0);
                        }
                        if pre.has(kk) && kk != *k {
                            let j = choose|j: int| 0 <= j < pre.entries@.len() && (#[trigger] pre.entries@[j]).0 == kk;
                            assert(j != ii);
                            let nj = if j < ii { j } else { j - 1 };
                            assert(self.entries@[nj] == pre.entries@[j]);
                        }
                    }
                    assert forall|kk: Pubkey| #![auto] self.view().contains_key(kk) implies self.view()[kk]
                        == pre.view().remove(*k)[kk] by {
                        let j = self.index_of(kk);
                        self.lemma_view_at(j);
                        let pj = if j < ii { j } else { j + 1 };
                        assert(self.entries@[j] == pre.entries@[pj]);
                        pre.lemma_view_at(pj);
                    }
                    assert(self.view() =~= pre.view().remove(*k));
                }
                Some(prev)
            },
            None => {
                proof {
                    assert(self.view() =~= self.view().remove(*k));
                }
                None
            },
        }
    }

    /// All entries, in table order.
    pub fn entries(&self) -> (r: Vec<(Pubkey, V)>)
        requires
            self.wf(),
        ensures
            r@.len() == self.view().dom().len(),
            forall|i: int| 0 <= i < r@.len() ==> self.view().contains_key((#[trigger] r@[i]).0)
                && self.view()[r@[i].0] == r@[i].1,
            forall|k: Pubkey| self.view().contains_key(k) ==> exists|i: int| 0 <= i < r@.len() && (#[trigger] r@[i]).0 == k,
    {
        proof {
            self.lemma_len();
            assert forall|i: int| 0 <= i < self.entries@.len() implies self.view().contains_key((#[trigger] self.entries@[i]).0)
                && self.view()[self.entries@[i].0] == self.entries@[i].1 by {
                self.lemma_view_at(i);
            }
            assert forall|k: Pubkey| self.view().contains_key(k) implies exists|i: int| 0 <= i < self.entries@.len() && (#[trigger] self.entries@[i]).0 == k by {
                let i = self.index_of(k);
                assert(self.entries@[i].0 == k);
            }
        }
        let mut out: Vec<(Pubkey, V)> = Vec::new();
        let mut i: usize = 0;
        while i < self.entries.len()
            invariant
                0 <= i <= self.entries@.len(),
                out@ == self.entries@.subrange(0, i as int),
            decreases self.entries@.len() - i,
        {
            out.push(self.entries[i]);
            i = i + 1;
            proof {
                assert(out@ =~= self.entries@.subrange(0, i as int));
            }
        }
        proof {
            assert(out@ =~= self.entries@);
        }
        out
    }
}

} // verus!
