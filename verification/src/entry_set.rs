use vstd::prelude::*;

verus! {

/// Values whose equality can be decided by executable code.
pub trait Exact: Sized + Copy {
    fn exactly(&self, other: &Self) -> (r: bool)
        ensures
            r == (*self == *other),
    ;
}

/// A finite set of entries kept in insertion order.
pub struct EntrySet<T> {
    items: Vec<T>,
}

impl<T: Exact> EntrySet<T> {
    /// No entry occurs twice.
    pub closed spec fn wf(&self) -> bool {
        self.items@.no_duplicates()
    }

    /// The set of entries.
    pub closed spec fn view(&self) -> Set<T> {
        self.items@.to_set()
    }

    /// The entries in the order they were added.
    pub closed spec fn order(&self) -> Seq<T> {
        self.items@
    }

    pub proof fn lemma_order(&self)
        requires
            self.wf(),
        ensures
            self.order().to_set() == self.view(),
            self.order().no_duplicates(),
    {
    }

    /// The empty set.
    pub fn new() -> (r: Self)
        ensures
            r.wf(),
            r.view() == Set::<T>::empty(),
            r.order() == Seq::<T>::empty(),
    {
        let r = EntrySet { items: Vec::new() };
        assert(r.view() =~= Set::<T>::empty());
        r
    }

    fn position(&self, e: &T) -> (r: Option<usize>)
        ensures
            r matches Some(i) ==> i < self.items@.len() && self.items@[i as int] == *e,
            r is None ==> !self.items@.contains(*e),
    {
        let mut i: usize = 0;
        while i < self.items.len()
            invariant
                0 <= i <= self.items@.len(),
                forall|j: int| 0 <= j < i ==> self.items@[j] != *e,
            decreases self.items@.len() - i,
        {
            if self.items[i].exactly(e) {
                return Some(i);
            }
            i = i + 1;
        }
        None
    }

    /// Whether `e` is in the set.
    pub fn contains(&self, e: &T) -> (r: bool)
        ensures
            r == self.view().contains(*e),
    {
        self.position(e).is_some()
    }

    /// Whether the set is empty.
    pub fn is_empty(&self) -> (r: bool)
        ensures
            r == (self.view() == Set::<T>::empty()),
    {
        if self.items.len() == 0 {
            assert(self.view() =~= Set::<T>::empty());
            true
        } else {
            assert(self.view().contains(self.items@[0]));
            false
        }
    }

    /// Adds `e` (nothing changes if it is already there).
    pub fn insert(&mut self, e: T)
        requires
            old(self).wf(),
        ensures
            final(self).wf(),
            final(self).view() == old(self).view().insert(e),
            final(self).order() == (if old(self).view().contains(e) {
                old(self).order()
            } else {
                old(self).order().push(e)
            }),
    {
        if self.position(&e).is_none() {
            let ghost pre = self.items@;
            self.items.push(e);
            proof {
                assert forall|a: int, b: int| 0 <= a < self.items@.len() && 0 <= b < self.items@.len() && a != b
                    implies self.items@[a] != self.items@[b] by {
                    if a < pre.len() && b < pre.len() {
                        assert(pre[a] != pre[b]);
                    } else if a == pre.len() {
                        assert(pre.contains(pre[b]));
                    } else {
                        assert(pre.contains(pre[a]));
                    }
                }
                assert(self.view() =~= pre.to_set().insert(e)) by {
                    assert forall|x: T| self.view().contains(x) <==> pre.to_set().insert(e).contains(x) by {
                        if self.view().contains(x) && x != e {
                            let j = choose|j: int| 0 <= j < self.items@.len() && self.items@[j] == x;
                            assert(j < pre.len());
                            assert(pre[j] == x);
                        }
                        if pre.to_set().contains(x) {
                            let j = choose|j: int| 0 <= j < pre.len() && pre[j] == x;
                            assert(self.items@[j] == x);
                        }
                        if x == e {
                            assert(self.items@[pre.len() as int] == x);
                        }
                    }
                }
            }
        } else {
            proof {
                assert(self.view() =~= self.view().insert(e));
            }
        }
    }

    /// Removes `e`, telling whether it was there.
    pub fn remove(&mut self, e: &T) -> (r: bool)
        requires
            old(self).wf(),
        ensures
            final(self).wf(),
            final(self).view() == old(self).view().remove(*e),
            r == old(self).view().contains(*e),
            final(self).order() == old(self).order().filter(|x: T| x != *e),
    {
        match self.position(e) {
            Some(i) => {
                let ghost pre = self.items@;
                self.items.remove(i);
                proof {
                    let ii = i as int;
                    assert forall|a: int, b: int| 0 <= a < self.items@.len() && 0 <= b < self.items@.len() && a != b
                        implies self.items@[a] != self.items@[b] by {
                        let pa = if a < ii { a } else { a + 1 };
                        let pb = if b < ii { b } else { b + 1 };
                        assert(self.items@[a] == pre[pa]);
                        assert(self.items@[b] == pre[pb]);
                    }
                    assert forall|x: T| self.view().contains(x) <==> pre.to_set().remove(*e).contains(x) by {
                        if self.view().contains(x) {
                            let j = choose|j: int| 0 <= j < self.items@.len() && self.items@[j] == x;
                            let pj = if j < ii { j } else { j + 1 };
                            assert(pre[pj] == x);
                            assert(pj != ii);
                        }
                        if pre.to_set().contains(x) && x != *e {
                            let j = choose|j: int| 0 <= j < pre.len() && pre[j] == x;
                            assert(j != ii);
                            let nj = if j < ii { j } else { j - 1 };
                            assert(self.items@[nj] == x);
                        }
                    }
                    assert(self.view() =~= pre.to_set().remove(*e));
                    lemma_filter_remove_unique(pre, ii, *e);
                    assert(pre.contains(*e));
                }
                true
            },
            None => {
                proof {
                    assert(self.view() =~= self.view().remove(*e));
                    lemma_filter_absent(self.items@, *e);
                }
                false
            },
        }
    }

    /// The entries, in the order they were added.
    pub fn to_vec(&self) -> (r: Vec<T>)
        ensures
            r@ == self.order(),
    {
        let mut out: Vec<T> = Vec::new();
        let mut i: usize = 0;
        while i < self.items.len()
            invariant
                0 <= i <= self.items@.len(),
                out@ == self.items@.subrange(0, i as int),
            decreases self.items@.len() - i,
        {
            out.push(self.items[i]);
            i = i + 1;
            proof {
                assert(out@ =~= self.items@.subrange(0, i as int));
            }
        }
        proof {
            assert(out@ =~= self.items@);
        }
        out
    }
}

proof fn lemma_filter_absent<T>(s: Seq<T>, e: T)
    requires
        !s.contains(e),
    ensures
        s.filter(|x: T| x != e) == s,
    decreases s.len(),
{
    reveal_with_fuel(Seq::<_>::filter, 1);
    if s.len() > 0 {
        lemma_filter_absent(s.drop_last(), e);
        assert(!s.drop_last().contains(e)) by {
            if s.drop_last().contains(e) {
                let j = choose|j: int| 0 <= j < s.drop_last().len() && s.drop_last()[j] == e;
                assert(s[j] == e);
            }
        }
        assert(s.drop_last().push(s.last()) =~= s);
    } else {
        assert(s.filter(|x: T| x != e) =~= s);
    }
}

proof fn lemma_filter_remove_unique<T>(s: Seq<T>, i: int, e: T)
    requires
        0 <= i < s.len(),
        s[i] == e,
        s.no_duplicates(),
    ensures
        s.filter(|x: T| x != e) == s.remove(i),
    decreases s.len(),
{
    reveal_with_fuel(Seq::<_>::filter, 1);
    let d = s.drop_last();
    if i == s.len() - 1 {
        assert(!d.contains(e)) by {
            if d.contains(e) {
                let j = choose|j: int| 0 <= j < d.len() && d[j] == e;
                assert(s[j] == s[i]);
            }
        }
        lemma_filter_absent(d, e);
        assert(s.remove(i) =~= d);
    } else {
        assert(d.no_duplicates()) by {
            assert forall|a: int, b: int| 0 <= a < d.len() && 0 <= b < d.len() && a != b implies d[a] != d[b] by {
                assert(s[a] != s[b]);
            }
        }
        lemma_filter_remove_unique(d, i, e);
        assert(s.last() != e) by {
            assert(s[s.len() - 1] != s[i]);
        }
        assert(s.remove(i) =~= d.remove(i).push(s.last()));
    }
}

} // verus!
