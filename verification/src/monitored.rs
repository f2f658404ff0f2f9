use std::collections::hash_map::RandomState;
use std::num::NonZeroUsize;

use lru::LruCache;
use vstd::prelude::*;

use crate::pubkey::Pubkey;

verus! {

#[verifier::external_type_specification]
#[verifier::external_body]
#[verifier::reject_recursive_types(K)]
#[verifier::reject_recursive_types(V)]
#[verifier::reject_recursive_types(S)]
pub struct ExLruCache<K, V, S>(lru::LruCache<K, V, S>);

/// The keys an LRU cache holds, least recently used first.
pub uninterp spec fn lru_keys(cache: LruCache<[u8; 32], (), RandomState>) -> Seq<[u8; 32]>;

/// The number of keys an LRU cache holds at most.
pub uninterp spec fn lru_cap(cache: LruCache<[u8; 32], (), RandomState>) -> nat;

/// `keys` without `k`.
pub open spec fn without(keys: Seq<[u8; 32]>, k: [u8; 32]) -> Seq<[u8; 32]> {
    keys.filter(differs_from(k))
}

/// Holds of the keys other than `k`.
pub open spec fn differs_from(k: [u8; 32]) -> spec_fn([u8; 32]) -> bool {
    |x: [u8; 32]| x != k
}

/// The keys after `k` is marked as most recently used in a cache of
/// capacity `cap`: it moves to the end if present; otherwise it is
/// appended, and the least recently used key leaves when the cache is full.
pub open spec fn tracked_keys(keys: Seq<[u8; 32]>, cap: nat, k: [u8; 32]) -> Seq<[u8; 32]> {
    if keys.contains(k) {
        without(keys, k).push(k)
    } else if keys.len() == cap {
        keys.drop_first().push(k)
    } else {
        keys.push(k)
    }
}

/// The key that leaves the cache to make room for `k`, if any.
pub open spec fn evicted_by(keys: Seq<[u8; 32]>, cap: nat, k: [u8; 32]) -> Option<Pubkey> {
    if !keys.contains(k) && keys.len() == cap {
        Some(Pubkey(keys[0]))
    } else {
        None
    }
}

/// What every LRU cache keeps: a positive capacity, no more keys than it,
/// and no key twice.
pub open spec fn lru_shape(keys: Seq<[u8; 32]>, cap: nat) -> bool {
    &&& cap > 0
    &&& keys.len() <= cap
    &&& keys.no_duplicates()
}

/// Calls `LruCache::with_hasher` with std's `RandomState`, trusted to give an
/// empty cache of capacity `cap`.
#[verifier::external_body]
fn lru_new(cap: usize) -> (r: LruCache<[u8; 32], (), RandomState>)
    requires
        cap > 0,
    ensures
        lru_keys(r) == Seq::<[u8; 32]>::empty(),
        lru_cap(r) == cap,
{
    LruCache::with_hasher(NonZeroUsize::new(cap).unwrap(), RandomState::new())
}

/// Calls `LruCache::push`, trusted to behave as its source shows: a present
/// key moves to the most recent end and is handed back; an absent key is
/// appended, and when the cache is full the least recent key leaves and is
/// handed back.
#[verifier::external_body]
fn lru_push(cache: &mut LruCache<[u8; 32], (), RandomState>, key: [u8; 32]) -> (r: Option<[u8; 32]>)
    requires
        lru_shape(lru_keys(*old(cache)), lru_cap(*old(cache))),
    ensures
        lru_cap(*final(cache)) == lru_cap(*old(cache)),
        lru_keys(*old(cache)).contains(key) ==> r == Some(key) && lru_keys(*final(cache))
            == without(lru_keys(*old(cache)), key).push(key),
        !lru_keys(*old(cache)).contains(key) && lru_keys(*old(cache)).len() == lru_cap(*old(cache))
            ==> r == Some(lru_keys(*old(cache))[0]) && lru_keys(*final(cache)) == lru_keys(
            *old(cache),
        ).drop_first().push(key),
        !lru_keys(*old(cache)).contains(key) && lru_keys(*old(cache)).len() < lru_cap(*old(cache))
            ==> r is None && lru_keys(*final(cache)) == lru_keys(*old(cache)).push(key),
{
    cache.push(key, ()).map(|(k, _)| k)
}

/// Calls `LruCache::promote`, trusted to move a present key to the most
/// recent end, to leave the cache unchanged otherwise, and to tell which.
#[verifier::external_body]
fn lru_promote(cache: &mut LruCache<[u8; 32], (), RandomState>, key: &[u8; 32]) -> (r: bool)
    ensures
        lru_cap(*final(cache)) == lru_cap(*old(cache)),
        r == lru_keys(*old(cache)).contains(*key),
        r ==> lru_keys(*final(cache)) == without(lru_keys(*old(cache)), *key).push(*key),
        !r ==> lru_keys(*final(cache)) == lru_keys(*old(cache)),
{
    cache.promote(key)
}

/// Calls `LruCache::pop`, trusted to remove the key if present and to tell
/// whether it was.
#[verifier::external_body]
fn lru_pop(cache: &mut LruCache<[u8; 32], (), RandomState>, key: &[u8; 32]) -> (r: bool)
    ensures
        lru_cap(*final(cache)) == lru_cap(*old(cache)),
        r == lru_keys(*old(cache)).contains(*key),
        lru_keys(*final(cache)) == without(lru_keys(*old(cache)), *key),
{
    cache.pop(key).is_some()
}

/// Calls `LruCache::len`, trusted to count the keys.
#[verifier::external_body]
fn lru_len(cache: &LruCache<[u8; 32], (), RandomState>) -> (r: usize)
    ensures
        r == lru_keys(*cache).len(),
{
    cache.len()
}

proof fn lemma_without_shape(keys: Seq<[u8; 32]>, k: [u8; 32])
    requires
        keys.no_duplicates(),
    ensures
        without(keys, k).no_duplicates(),
        !without(keys, k).contains(k),
        keys.contains(k) ==> without(keys, k).len() + 1 == keys.len(),
        !keys.contains(k) ==> without(keys, k) == keys,
        forall|x: [u8; 32]| x != k ==> (without(keys, k).contains(x) <==> keys.contains(x)),
    decreases keys.len(),
{
    let p = differs_from(k);
    if keys.len() == 0 {
        assert(without(keys, k) =~= keys);
    } else {
        let init = keys.drop_last();
        let last = keys.last();
        assert(keys =~= init.push(last));
        assert(init.no_duplicates());
        lemma_without_shape(init, k);
        init.lemma_filter_push(last, p);
        assert(!init.contains(last));
        if last == k {
            assert(without(keys, k) == without(init, k));
            assert(!init.contains(k));
            assert forall|x: [u8; 32]| x != k implies (without(keys, k).contains(x) <==> keys.contains(x)) by {
                if keys.contains(x) {
                    let i = choose|i: int| 0 <= i < keys.len() && keys[i] == x;
                    assert(i < init.len());
                    assert(init[i] == x);
                }
            }
        } else {
            assert(without(keys, k) == without(init, k).push(last));
            assert(!without(init, k).contains(last));
            assert forall|x: [u8; 32]| x != k implies (without(keys, k).contains(x) <==> keys.contains(x)) by {
                let wi = without(init, k);
                let w = without(keys, k);
                assert(w[w.len() - 1] == last);
                if keys.contains(x) && x != last {
                    let i = choose|i: int| 0 <= i < keys.len() && keys[i] == x;
                    assert(i < init.len());
                    assert(init[i] == x);
                    assert(wi.contains(x));
                    let j = choose|j: int| 0 <= j < wi.len() && wi[j] == x;
                    assert(w[j] == x);
                }
                if w.contains(x) && x != last {
                    let i = choose|i: int| 0 <= i < w.len() && w[i] == x;
                    assert(i < wi.len());
                    assert(wi[i] == x);
                    assert(init.contains(x));
                    let j = choose|j: int| 0 <= j < init.len() && init[j] == x;
                    assert(keys[j] == x);
                }
                if x == last {
                    assert(keys[keys.len() - 1] == x);
                    assert(without(keys, k)[without(keys, k).len() - 1] == x);
                }
            }
            if !keys.contains(k) {
                assert(!init.contains(k));
                assert(without(keys, k) =~= keys);
            }
            assert(without(keys, k).no_duplicates()) by {
                let w = without(keys, k);
                assert forall|i: int, j: int| 0 <= i < w.len() && 0 <= j < w.len() && i != j implies w[i] != w[j] by {
                    if i == w.len() - 1 {
                        assert(without(init, k).contains(w[j]));
                    } else if j == w.len() - 1 {
                        assert(without(init, k).contains(w[i]));
                    }
                }
            }
        }
    }
}

/// Addresses of accounts whose updates are monitored, in least recently
/// used order, up to a fixed capacity.
pub struct MonitoredAccounts {
    cache: LruCache<[u8; 32], (), RandomState>,
}

impl MonitoredAccounts {
    /// The monitored addresses, least recently used first.
    pub closed spec fn keys(&self) -> Seq<[u8; 32]> {
        lru_keys(self.cache)
    }

    /// How many addresses are monitored at most.
    pub closed spec fn cap(&self) -> nat {
        lru_cap(self.cache)
    }

    /// A positive capacity, never exceeded, and no address twice.
    pub open spec fn wf(&self) -> bool {
        lru_shape(self.keys(), self.cap())
    }

    /// An empty set of monitored accounts holding at most `cap` addresses.
    pub fn new(cap: usize) -> (r: MonitoredAccounts)
        requires
            cap > 0,
        ensures
            r.wf(),
            r.keys() == Seq::<[u8; 32]>::empty(),
            r.cap() == cap,
    {
        MonitoredAccounts { cache: lru_new(cap) }
    }

    /// Whether `pubkey` is monitored; if it is, it becomes the most recently
    /// used.
    pub fn promote(&mut self, pubkey: &Pubkey) -> (r: bool)
        requires
            old(self).wf(),
        ensures
            final(self).wf(),
            final(self).cap() == old(self).cap(),
            r == old(self).keys().contains(pubkey.0),
            r ==> final(self).keys() == without(old(self).keys(), pubkey.0).push(pubkey.0),
            !r ==> final(self).keys() == old(self).keys(),
    {
        let r = lru_promote(&mut self.cache, &pubkey.0);
        proof {
            lemma_without_shape(old(self).keys(), pubkey.0);
            if r {
                assert(final(self).keys().len() == old(self).keys().len());
            }
        }
        r
    }

    /// Stops monitoring `pubkey`; tells whether it was monitored.
    pub fn forget(&mut self, pubkey: &Pubkey) -> (r: bool)
        requires
            old(self).wf(),
        ensures
            final(self).wf(),
            final(self).cap() == old(self).cap(),
            r == old(self).keys().contains(pubkey.0),
            final(self).keys() == without(old(self).keys(), pubkey.0),
    {
        let r = lru_pop(&mut self.cache, &pubkey.0);
        proof {
            lemma_without_shape(old(self).keys(), pubkey.0);
        }
        r
    }

    /// Number of monitored addresses.
    pub fn len(&self) -> (r: usize)
        ensures
            r == self.keys().len(),
    {
        lru_len(&self.cache)
    }

    /// Starts monitoring an account: it becomes the most recently used; if
    /// the set was full, the least recently used other account leaves it and
    /// is returned, so that its updates can be stopped and its copy dropped.
    pub fn track_not_delegated_account(&mut self, pubkey: &Pubkey) -> (r: Option<Pubkey>)
        requires
            old(self).wf(),
        ensures
            final(self).wf(),
            final(self).cap() == old(self).cap(),
            final(self).keys() == tracked_keys(old(self).keys(), old(self).cap(), pubkey.0),
            r == evicted_by(old(self).keys(), old(self).cap(), pubkey.0),
            final(self).keys().last() == pubkey.0,
    {
        let pushed = lru_push(&mut self.cache, pubkey.0);
        proof {
            lemma_without_shape(old(self).keys(), pubkey.0);
            let ks = old(self).keys();
            if !ks.contains(pubkey.0) && ks.len() == old(self).cap() {
                assert(ks.drop_first().no_duplicates());
                assert(!ks.drop_first().contains(pubkey.0));
                assert(ks.drop_first().push(pubkey.0).no_duplicates());
            } else if !ks.contains(pubkey.0) {
                assert(ks.push(pubkey.0).no_duplicates());
            } else {
                assert(without(ks, pubkey.0).push(pubkey.0).no_duplicates());
            }
        }
        match pushed {
            Some(k) => {
                let evicted = Pubkey(k);
                if evicted.same_as(pubkey) {
                    None
                } else {
                    Some(evicted)
                }
            },
            None => None,
        }
    }
}

} // verus!
