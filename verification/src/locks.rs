use vstd::prelude::*;

use crate::entry_set::EntrySet;
use crate::pubkey::Pubkey;
use crate::table::KeyedTable;

verus! {

/// The locks that transactions hold on accounts: each account is either
/// write-locked by one transaction, or read-locked by a number of them.
pub struct AccountLocks {
    pub write_locks: EntrySet<Pubkey>,
    pub readonly_locks: KeyedTable<u64>,
}

/// Read lock counts after one more reader of `k`.
pub open spec fn one_more_reader(readers: Map<Pubkey, u64>, k: Pubkey) -> Map<Pubkey, u64> {
    if readers.contains_key(k) {
        readers.insert(k, (readers[k] + 1) as u64)
    } else {
        readers.insert(k, 1)
    }
}

/// Read lock counts after one reader of `k` less; a count that drops to
/// zero is removed.
pub open spec fn one_less_reader(readers: Map<Pubkey, u64>, k: Pubkey) -> Map<Pubkey, u64> {
    if readers.contains_key(k) {
        if readers[k] <= 1 {
            readers.remove(k)
        } else {
            readers.insert(k, (readers[k] - 1) as u64)
        }
    } else {
        readers
    }
}

impl AccountLocks {
    pub open spec fn wf(&self) -> bool {
        self.write_locks.wf() && self.readonly_locks.wf()
    }

    /// The read lock counts.
    pub open spec fn readers(&self) -> Map<Pubkey, u64> {
        self.readonly_locks.view()
    }

    /// Whether `k` is read-locked.
    pub open spec fn read_locked(&self, k: Pubkey) -> bool {
        self.readers().contains_key(k) && self.readers()[k] > 0
    }

    /// Every read lock count is positive and below the largest count.
    pub open spec fn counts_ok(&self) -> bool {
        forall|k: Pubkey| #[trigger] self.readers().contains_key(k) ==> 0 < self.readers()[k] < u64::MAX
    }

    /// No locks.
    pub fn new() -> (r: Self)
        ensures
            r.wf(),
            r.counts_ok(),
            r.write_locks@ == Set::<Pubkey>::empty(),
            r.readers() == Map::<Pubkey, u64>::empty(),
    {
        AccountLocks { write_locks: EntrySet::new(), readonly_locks: KeyedTable::new() }
    }

    /// Whether `key` is read-locked by some transaction.
    pub fn is_locked_readonly(&self, key: &Pubkey) -> (r: bool)
        requires
            self.wf(),
        ensures
            r == self.read_locked(*key),
    {
        match self.readonly_locks.get(key) {
            Some(count) => count > 0,
            None => false,
        }
    }

    /// Whether `key` is write-locked.
    pub fn is_locked_write(&self, key: &Pubkey) -> (r: bool)
        ensures
            r == self.write_locks@.contains(*key),
    {
        self.write_locks.contains(key)
    }

    /// Records the first reader of `key`, which has none.
    pub fn insert_new_readonly(&mut self, key: &Pubkey)
        requires
            old(self).wf(),
            !old(self).readers().contains_key(*key),
        ensures
            final(self).wf(),
            final(self).readers() == old(self).readers().insert(*key, 1),
            final(self).write_locks == old(self).write_locks,
    {
        self.readonly_locks.insert(*key, 1);
    }

    /// Adds a reader of `key` if it already has some; tells whether it had.
    pub fn lock_readonly(&mut self, key: &Pubkey) -> (r: bool)
        requires
            old(self).wf(),
            old(self).readers().contains_key(*key) ==> old(self).readers()[*key] < u64::MAX,
        ensures
            final(self).wf(),
            r == old(self).readers().contains_key(*key),
            r ==> final(self).readers() == one_more_reader(old(self).readers(), *key),
            !r ==> final(self).readers() == old(self).readers(),
            final(self).write_locks == old(self).write_locks,
    {
        match self.readonly_locks.get(key) {
            Some(count) => {
                self.readonly_locks.insert(*key, count + 1);
                true
            },
            None => false,
        }
    }

    /// Removes a reader of `key`, if it has some; the last one removes its
    /// entry.
    pub fn unlock_readonly(&mut self, key: &Pubkey)
        requires
            old(self).wf(),
            old(self).readers().contains_key(*key) ==> old(self).readers()[*key] > 0,
        ensures
            final(self).wf(),
            final(self).readers() == one_less_reader(old(self).readers(), *key),
            final(self).write_locks == old(self).write_locks,
    {
        match self.readonly_locks.get(key) {
            Some(count) => {
                if count - 1 == 0 {
                    self.readonly_locks.remove(key);
                } else {
                    self.readonly_locks.insert(*key, count - 1);
                }
            },
            None => {},
        }
    }

    /// Releases the write lock on `key`.
    pub fn unlock_write(&mut self, key: &Pubkey)
        requires
            old(self).wf(),
        ensures
            final(self).wf(),
            final(self).write_locks@ == old(self).write_locks@.remove(*key),
            final(self).readonly_locks == old(self).readonly_locks,
    {
        self.write_locks.remove(key);
    }
}

/// Why a transaction's locks were refused.
#[derive(Clone, Debug, PartialEq, Eq)]
pub enum LockError {
    /// An account it needs is locked by another transaction.
    AccountInUse,
    /// The transaction was refused before its locks were asked for, for
    /// this reason.
    Refused(String),
}

/// Whether a transaction that writes `writable` and reads `readonly` can
/// take its locks: nothing it writes is locked, nothing it reads is
/// write-locked.
pub open spec fn can_lock(locks: AccountLocks, writable: Seq<Pubkey>, readonly: Seq<Pubkey>) -> bool {
    &&& forall|i: int| 0 <= i < writable.len() ==> !locks.write_locks@.contains(#[trigger] writable[i])
        && !locks.read_locked(writable[i])
    &&& forall|i: int| 0 <= i < readonly.len() ==> !locks.write_locks@.contains(#[trigger] readonly[i])
}

/// Read lock counts after one more reader of each of `keys`.
pub open spec fn more_readers(readers: Map<Pubkey, u64>, keys: Seq<Pubkey>) -> Map<Pubkey, u64>
    decreases keys.len(),
{
    if keys.len() == 0 {
        readers
    } else {
        one_more_reader(more_readers(readers, keys.drop_last()), keys.last())
    }
}

/// Read lock counts after one reader less of each of `keys`.
pub open spec fn fewer_readers(readers: Map<Pubkey, u64>, keys: Seq<Pubkey>) -> Map<Pubkey, u64>
    decreases keys.len(),
{
    if keys.len() == 0 {
        readers
    } else {
        one_less_reader(fewer_readers(readers, keys.drop_last()), keys.last())
    }
}

/// Every account has readers, and `bound` more readers of any account
/// still count below the largest count.
pub open spec fn readers_below(readers: Map<Pubkey, u64>, bound: int) -> bool {
    &&& 0 <= bound < u64::MAX - 1
    &&& forall|k: Pubkey| #[trigger] readers.contains_key(k) ==> 0 < readers[k] && readers[k] + bound < u64::MAX
}

proof fn lemma_more_readers_bounded(readers: Map<Pubkey, u64>, keys: Seq<Pubkey>)
    requires
        readers_below(readers, keys.len() as int),
    ensures
        readers_below(more_readers(readers, keys), 0),
{
    lemma_more_readers_step(readers, keys, 0);
}

proof fn lemma_more_readers_step(readers: Map<Pubkey, u64>, keys: Seq<Pubkey>, extra: int)
    requires
        extra >= 0,
        readers_below(readers, keys.len() + extra),
    ensures
        readers_below(more_readers(readers, keys), extra),
    decreases keys.len(),
{
    if keys.len() > 0 {
        lemma_more_readers_step(readers, keys.drop_last(), extra + 1);
        let m = more_readers(readers, keys.drop_last());
        assert forall|k: Pubkey| #[trigger] more_readers(readers, keys).contains_key(k) implies 0 < more_readers(
            readers,
            keys,
        )[k] && more_readers(readers, keys)[k] + extra < u64::MAX by {
            if k != keys.last() {
                assert(m.contains_key(k));
            }
        }
    }
}

/// Takes the locks of a transaction that writes `writable_keys` and reads
/// `readonly_keys`, or refuses them all if one is in use.
pub fn lock_account(locks: &mut AccountLocks, writable_keys: &Vec<Pubkey>, readonly_keys: &Vec<Pubkey>) -> (r: Result<(), LockError>)
    requires
        old(locks).wf(),
        readers_below(old(locks).readers(), readonly_keys@.len() as int),
    ensures
        final(locks).wf(),
        r is Ok <==> can_lock(*old(locks), writable_keys@, readonly_keys@),
        r is Err ==> *final(locks) == *old(locks) && r == Err::<(), LockError>(LockError::AccountInUse),
        r is Ok ==> r == Ok::<(), LockError>(()),
        r is Ok ==> final(locks).write_locks@ == old(locks).write_locks@.union(writable_keys@.to_set())
            && final(locks).readers() == more_readers(old(locks).readers(), readonly_keys@),
{
    let ghost l0 = *locks;
    let mut i: usize = 0;
    while i < writable_keys.len()
        invariant
            0 <= i <= writable_keys@.len(),
            locks.wf(),
            *locks == l0,
            forall|j: int| 0 <= j < i ==> !locks.write_locks@.contains(#[trigger] writable_keys@[j]) && !locks.read_locked(
                writable_keys@[j],
            ),
        decreases writable_keys@.len() - i,
    {
        if locks.is_locked_write(&writable_keys[i]) || locks.is_locked_readonly(&writable_keys[i]) {
            return Err(LockError::AccountInUse);
        }
        i = i + 1;
    }
    let mut i: usize = 0;
    while i < readonly_keys.len()
        invariant
            0 <= i <= readonly_keys@.len(),
            locks.wf(),
            *locks == l0,
            forall|j: int| 0 <= j < i ==> !locks.write_locks@.contains(#[trigger] readonly_keys@[j]),
            forall|j: int| 0 <= j < writable_keys@.len() ==> !locks.write_locks@.contains(#[trigger] writable_keys@[j])
                && !locks.read_locked(writable_keys@[j]),
        decreases readonly_keys@.len() - i,
    {
        if locks.is_locked_write(&readonly_keys[i]) {
            return Err(LockError::AccountInUse);
        }
        i = i + 1;
    }
    let ghost readers0 = locks.readers();
    let ghost writers0 = locks.write_locks@;
    let mut i: usize = 0;
    while i < writable_keys.len()
        invariant
            0 <= i <= writable_keys@.len(),
            locks.wf(),
            locks.readers() == readers0,
            locks.write_locks@ == writers0.union(writable_keys@.subrange(0, i as int).to_set()),
        decreases writable_keys@.len() - i,
    {
        locks.write_locks.insert(writable_keys[i]);
        proof {
            let a = writable_keys@.subrange(0, i as int);
            let b = writable_keys@.subrange(0, i + 1);
            assert(b =~= a.push(writable_keys@[i as int]));
            a.lemma_push_to_set_commute(writable_keys@[i as int]);
            assert(locks.write_locks@ =~= writers0.union(b.to_set()));
        }
        i = i + 1;
    }
    proof {
        assert(writable_keys@.subrange(0, writable_keys@.len() as int) =~= writable_keys@);
        lemma_more_readers_bounded(readers0, readonly_keys@);
    }
    let ghost writers1 = locks.write_locks@;
    let mut i: usize = 0;
    while i < readonly_keys.len()
        invariant
            0 <= i <= readonly_keys@.len(),
            locks.wf(),
            locks.write_locks@ == writers1,
            readers_below(readers0, readonly_keys@.len() as int),
            locks.readers() == more_readers(readers0, readonly_keys@.subrange(0, i as int)),
        decreases readonly_keys@.len() - i,
    {
        proof {
            let a = readonly_keys@.subrange(0, i as int);
            let b = readonly_keys@.subrange(0, i + 1);
            assert(b.drop_last() =~= a);
            lemma_more_readers_step(readers0, a, readonly_keys@.len() - i);
        }
        let k = readonly_keys[i];
        if !locks.lock_readonly(&k) {
            locks.insert_new_readonly(&k);
        }
        i = i + 1;
    }
    proof {
        assert(readonly_keys@.subrange(0, readonly_keys@.len() as int) =~= readonly_keys@);
    }
    Ok(())
}

/// A transaction's lock request: the accounts it writes and those it
/// reads, or the reason it was refused beforehand.
pub type LockRequest = Result<(Vec<Pubkey>, Vec<Pubkey>), LockError>;

/// Whether a transaction that writes `writable` and reads `readonly` can
/// take its locks, given the write-locked accounts and the read counts.
pub open spec fn lockable(writers: Set<Pubkey>, readers: Map<Pubkey, u64>, writable: Seq<Pubkey>, readonly: Seq<Pubkey>) -> bool {
    &&& forall|i: int| 0 <= i < writable.len() ==> !writers.contains(#[trigger] writable[i]) && !(
    readers.contains_key(writable[i]) && readers[writable[i]] > 0)
    &&& forall|i: int| 0 <= i < readonly.len() ==> !writers.contains(#[trigger] readonly[i])
}

/// The accounts all requests read, counted with repetition.
pub open spec fn readonly_total(requests: Seq<LockRequest>, n: int) -> int
    decreases n,
{
    if n <= 0 {
        0
    } else {
        readonly_total(requests, n - 1) + match requests[n - 1] {
            Ok((_, r)) => r@.len() as int,
            Err(_) => 0int,
        }
    }
}

/// The write-locked accounts, the read counts and the outcomes after the
/// first `n` requests are served in order.
pub open spec fn lock_fold(writers: Set<Pubkey>, readers: Map<Pubkey, u64>, requests: Seq<LockRequest>, n: int) -> (
    Set<Pubkey>,
    Map<Pubkey, u64>,
    Seq<Result<(), LockError>>,
)
    decreases n,
{
    if n <= 0 {
        (writers, readers, Seq::empty())
    } else {
        let (w, r, out) = lock_fold(writers, readers, requests, n - 1);
        match requests[n - 1] {
            Err(e) => (w, r, out.push(Err(e))),
            Ok((wk, rk)) => if lockable(w, r, wk@, rk@) {
                (w.union(wk@.to_set()), more_readers(r, rk@), out.push(Ok(())))
            } else {
                (w, r, out.push(Err(LockError::AccountInUse)))
            },
        }
    }
}

proof fn lemma_readonly_total_mono(requests: Seq<LockRequest>, a: int, b: int)
    requires
        0 <= a <= b,
    ensures
        readonly_total(requests, a) <= readonly_total(requests, b),
    decreases b - a,
{
    if a < b {
        lemma_readonly_total_mono(requests, a, b - 1);
    }
}

/// Serves lock requests in order: each one takes its locks if none of its
/// accounts is in use, given the locks taken before it; a request refused
/// beforehand stays refused.
pub fn lock_accounts_inner(locks: &mut AccountLocks, requests: Vec<LockRequest>) -> (r: Vec<Result<(), LockError>>)
    requires
        old(locks).wf(),
        readers_below(old(locks).readers(), readonly_total(requests@, requests@.len() as int)),
    ensures
        final(locks).wf(),
        readers_below(final(locks).readers(), 0),
        ({
            let (w, rd, out) = lock_fold(old(locks).write_locks@, old(locks).readers(), requests@, requests@.len() as int);
            &&& final(locks).write_locks@ == w
            &&& final(locks).readers() == rd
            &&& r@ == out
        }),
{
    let ghost all = requests@;
    let ghost w0 = locks.write_locks@;
    let ghost r0 = locks.readers();
    let n = requests.len();
    let mut rest = requests;
    let mut out: Vec<Result<(), LockError>> = Vec::new();
    let mut i: usize = 0;
    while i < n
        invariant
            0 <= i <= n,
            n == all.len(),
            locks.wf(),
            rest@ == all.subrange(i as int, n as int),
            readers_below(locks.readers(), readonly_total(all, n as int) - readonly_total(all, i as int)),
            ({
                let (w, rd, o) = lock_fold(w0, r0, all, i as int);
                &&& locks.write_locks@ == w
                &&& locks.readers() == rd
                &&& out@ == o
            }),
        decreases n - i,
    {
        let request = rest.remove(0);
        proof {
            assert(request == all[i as int]);
            assert(rest@ =~= all.subrange(i + 1, n as int));
            lemma_readonly_total_mono(all, i + 1, n as int);
        }
        match request {
            Err(e) => {
                out.push(Err(e));
            },
            Ok((writable, readonly)) => {
                proof {
                    let left = readonly_total(all, n as int) - readonly_total(all, i + 1);
                    assert(readonly_total(all, i + 1) == readonly_total(all, i as int) + readonly@.len());
                    lemma_more_readers_step(locks.readers(), readonly@, left);
                    assert(readers_below(locks.readers(), readonly@.len() as int)) by {
                        assert(left >= 0);
                    }
                }
                let ghost before = *locks;
                let res = lock_account(locks, &writable, &readonly);
                proof {
                    assert(can_lock(before, writable@, readonly@) == lockable(
                        before.write_locks@,
                        before.readers(),
                        writable@,
                        readonly@,
                    ));
                }
                out.push(res);
            },
        }
        i = i + 1;
    }
    out
}

/// Releases the locks a transaction took on `writable_keys` and
/// `readonly_keys`.
pub fn unlock_account(locks: &mut AccountLocks, writable_keys: &Vec<Pubkey>, readonly_keys: &Vec<Pubkey>)
    requires
        old(locks).wf(),
        readers_below(old(locks).readers(), 0),
    ensures
        final(locks).wf(),
        final(locks).write_locks@ == old(locks).write_locks@.difference(writable_keys@.to_set()),
        final(locks).readers() == fewer_readers(old(locks).readers(), readonly_keys@),
        readers_below(final(locks).readers(), 0),
{
    let ghost writers0 = locks.write_locks@;
    let ghost readers0 = locks.readers();
    let mut i: usize = 0;
    while i < writable_keys.len()
        invariant
            0 <= i <= writable_keys@.len(),
            locks.wf(),
            locks.readers() == readers0,
            locks.write_locks@ == writers0.difference(writable_keys@.subrange(0, i as int).to_set()),
        decreases writable_keys@.len() - i,
    {
        locks.unlock_write(&writable_keys[i]);
        proof {
            let a = writable_keys@.subrange(0, i as int);
            let b = writable_keys@.subrange(0, i + 1);
            assert(b =~= a.push(writable_keys@[i as int]));
            a.lemma_push_to_set_commute(writable_keys@[i as int]);
            assert(locks.write_locks@ =~= writers0.difference(b.to_set()));
        }
        i = i + 1;
    }
    proof {
        assert(writable_keys@.subrange(0, writable_keys@.len() as int) =~= writable_keys@);
    }
    let mut i: usize = 0;
    while i < readonly_keys.len()
        invariant
            0 <= i <= readonly_keys@.len(),
            locks.wf(),
            readers_below(locks.readers(), 0),
            locks.write_locks@ == writers0.difference(writable_keys@.to_set()),
            locks.readers() == fewer_readers(readers0, readonly_keys@.subrange(0, i as int)),
        decreases readonly_keys@.len() - i,
    {
        proof {
            let a = readonly_keys@.subrange(0, i as int);
            let b = readonly_keys@.subrange(0, i + 1);
            assert(b.drop_last() =~= a);
        }
        locks.unlock_readonly(&readonly_keys[i]);
        i = i + 1;
    }
    proof {
        assert(readonly_keys@.subrange(0, readonly_keys@.len() as int) =~= readonly_keys@);
    }
}

/// How many readers `readers` records for `k`.
pub open spec fn count_of(readers: Map<Pubkey, u64>, k: Pubkey) -> int {
    if readers.contains_key(k) {
        readers[k] as int
    } else {
        0
    }
}

/// How many times `k` occurs in `keys`.
pub open spec fn occurrences(keys: Seq<Pubkey>, k: Pubkey) -> int
    decreases keys.len(),
{
    if keys.len() == 0 {
        0
    } else {
        occurrences(keys.drop_last(), k) + if keys.last() == k {
            1int
        } else {
            0int
        }
    }
}

/// Every recorded count is positive.
pub open spec fn all_positive(readers: Map<Pubkey, u64>) -> bool {
    forall|k: Pubkey| #[trigger] readers.contains_key(k) ==> readers[k] > 0
}

proof fn lemma_occurrences_nonneg(keys: Seq<Pubkey>, k: Pubkey)
    ensures
        0 <= occurrences(keys, k) <= keys.len(),
    decreases keys.len(),
{
    if keys.len() > 0 {
        lemma_occurrences_nonneg(keys.drop_last(), k);
    }
}

proof fn lemma_more_readers_counts(readers: Map<Pubkey, u64>, keys: Seq<Pubkey>)
    requires
        readers_below(readers, keys.len() as int),
    ensures
        all_positive(more_readers(readers, keys)),
        forall|k: Pubkey| #[trigger] count_of(more_readers(readers, keys), k) == count_of(readers, k) + occurrences(keys, k),
    decreases keys.len(),
{
    if keys.len() > 0 {
        let init = keys.drop_last();
        lemma_more_readers_step(readers, init, 1);
        lemma_more_readers_counts(readers, init);
        let m = more_readers(readers, init);
        assert forall|k: Pubkey| #[trigger] count_of(more_readers(readers, keys), k) == count_of(readers, k) + occurrences(keys, k) by {
            assert(count_of(m, k) == count_of(readers, k) + occurrences(init, k));
        }
    }
}

proof fn lemma_fewer_readers_counts(readers: Map<Pubkey, u64>, keys: Seq<Pubkey>)
    requires
        all_positive(readers),
        forall|k: Pubkey| count_of(readers, k) >= #[trigger] occurrences(keys, k),
    ensures
        all_positive(fewer_readers(readers, keys)),
        forall|k: Pubkey| #[trigger] count_of(fewer_readers(readers, keys), k) == count_of(readers, k) - occurrences(keys, k),
    decreases keys.len(),
{
    if keys.len() > 0 {
        let init = keys.drop_last();
        let last = keys.last();
        assert forall|k: Pubkey| count_of(readers, k) >= #[trigger] occurrences(init, k) by {
            assert(occurrences(keys, k) >= occurrences(init, k));
        }
        lemma_fewer_readers_counts(readers, init);
        let f = fewer_readers(readers, init);
        assert(occurrences(keys, last) == occurrences(init, last) + 1);
        assert(count_of(f, last) >= 1);
        assert forall|k: Pubkey| #[trigger] count_of(fewer_readers(readers, keys), k) == count_of(readers, k) - occurrences(keys, k) by {
            assert(count_of(f, k) == count_of(readers, k) - occurrences(init, k));
        }
    }
}

proof fn lemma_counts_determine(a: Map<Pubkey, u64>, b: Map<Pubkey, u64>)
    requires
        all_positive(a),
        all_positive(b),
        forall|k: Pubkey| #[trigger] count_of(a, k) == count_of(b, k),
    ensures
        a == b,
{
    assert forall|k: Pubkey| a.contains_key(k) == b.contains_key(k) by {
        assert(count_of(a, k) == count_of(b, k));
    }
    assert forall|k: Pubkey| a.contains_key(k) implies a[k] == b[k] by {
        assert(count_of(a, k) == count_of(b, k));
    }
    assert(a =~= b);
}

/// Taking a transaction's locks and releasing them gives back the locks
/// there were: the write locks it took are released, and each read count
/// it raised drops back.
pub proof fn lemma_lock_then_unlock(locks: AccountLocks, writable: Seq<Pubkey>, readonly: Seq<Pubkey>)
    requires
        readers_below(locks.readers(), readonly.len() as int),
        can_lock(locks, writable, readonly),
    ensures
        locks.write_locks@.union(writable.to_set()).difference(writable.to_set()) == locks.write_locks@,
        fewer_readers(more_readers(locks.readers(), readonly), readonly) == locks.readers(),
{
    let w = locks.write_locks@;
    assert forall|k: Pubkey| w.union(writable.to_set()).difference(writable.to_set()).contains(k) == w.contains(k) by {
        if w.contains(k) && writable.to_set().contains(k) {
            let i = choose|i: int| 0 <= i < writable.len() && writable[i] == k;
            assert(!locks.write_locks@.contains(writable[i]));
        }
    }
    assert(w.union(writable.to_set()).difference(writable.to_set()) =~= w);
    let r = locks.readers();
    lemma_more_readers_counts(r, readonly);
    let m = more_readers(r, readonly);
    assert forall|k: Pubkey| count_of(m, k) >= #[trigger] occurrences(readonly, k) by {
        assert(count_of(m, k) == count_of(r, k) + occurrences(readonly, k));
    }
    lemma_fewer_readers_counts(m, readonly);
    let f = fewer_readers(m, readonly);
    assert forall|k: Pubkey| #[trigger] count_of(f, k) == count_of(r, k) by {
        assert(count_of(f, k) == count_of(m, k) - occurrences(readonly, k));
        assert(count_of(m, k) == count_of(r, k) + occurrences(readonly, k));
    }
    lemma_counts_determine(f, r);
}

/// The write-locked accounts and read counts after the locks of the first
/// `n` transactions whose result is `Ok` are released.
pub open spec fn unlock_fold(
    writers: Set<Pubkey>,
    readers: Map<Pubkey, u64>,
    keys: Seq<(Vec<Pubkey>, Vec<Pubkey>)>,
    results: Seq<Result<(), LockError>>,
    n: int,
) -> (Set<Pubkey>, Map<Pubkey, u64>)
    decreases n,
{
    if n <= 0 {
        (writers, readers)
    } else {
        let (w, r) = unlock_fold(writers, readers, keys, results, n - 1);
        if results[n - 1] is Ok {
            (w.difference(keys[n - 1].0@.to_set()), fewer_readers(r, keys[n - 1].1@))
        } else {
            (w, r)
        }
    }
}

/// Releases the locks of the transactions whose locking succeeded: each
/// transaction's keys paired with its locking result, in order.
pub fn unlock_accounts(locks: &mut AccountLocks, keys: &Vec<(Vec<Pubkey>, Vec<Pubkey>)>, results: &Vec<Result<(), LockError>>)
    requires
        old(locks).wf(),
        readers_below(old(locks).readers(), 0),
    ensures
        final(locks).wf(),
        ({
            let n = if keys@.len() < results@.len() { keys@.len() } else { results@.len() };
            let (w, r) = unlock_fold(old(locks).write_locks@, old(locks).readers(), keys@, results@, n as int);
            final(locks).write_locks@ == w && final(locks).readers() == r
        }),
{
    let ghost w0 = locks.write_locks@;
    let ghost r0 = locks.readers();
    let n = if keys.len() < results.len() {
        keys.len()
    } else {
        results.len()
    };
    let mut i: usize = 0;
    while i < n
        invariant
            0 <= i <= n,
            n <= keys@.len(),
            n <= results@.len(),
            n == (if keys@.len() < results@.len() { keys@.len() } else { results@.len() }),
            locks.wf(),
            readers_below(locks.readers(), 0),
            ({
                let (w, r) = unlock_fold(w0, r0, keys@, results@, i as int);
                locks.write_locks@ == w && locks.readers() == r
            }),
        decreases n - i,
    {
        if results[i].is_ok() {
            unlock_account(locks, &keys[i].0, &keys[i].1);
        }
        i = i + 1;
    }
}

/// The accounts written by the first `m` transactions whose result is `Ok`.
spec fn released_writes(keys: Seq<(Vec<Pubkey>, Vec<Pubkey>)>, results: Seq<Result<(), LockError>>, m: int) -> Set<Pubkey>
    decreases m,
{
    if m <= 0 {
        Set::empty()
    } else if results[m - 1] is Ok {
        released_writes(keys, results, m - 1).union(keys[m - 1].0@.to_set())
    } else {
        released_writes(keys, results, m - 1)
    }
}

/// How many read locks of `k` the first `m` transactions whose result is
/// `Ok` hold.
spec fn released_reads(keys: Seq<(Vec<Pubkey>, Vec<Pubkey>)>, results: Seq<Result<(), LockError>>, m: int, k: Pubkey) -> int
    decreases m,
{
    if m <= 0 {
        0
    } else {
        released_reads(keys, results, m - 1, k) + if results[m - 1] is Ok {
            occurrences(keys[m - 1].1@, k)
        } else {
            0int
        }
    }
}

proof fn lemma_released_prefix(
    keys: Seq<(Vec<Pubkey>, Vec<Pubkey>)>,
    a: Seq<Result<(), LockError>>,
    b: Seq<Result<(), LockError>>,
    m: int,
)
    requires
        0 <= m <= a.len(),
        m <= b.len(),
        forall|i: int| 0 <= i < m ==> (a[i] is Ok <==> b[i] is Ok),
    ensures
        released_writes(keys, a, m) == released_writes(keys, b, m),
        forall|k: Pubkey| #[trigger] released_reads(keys, a, m, k) == released_reads(keys, b, m, k),
    decreases m,
{
    if m > 0 {
        lemma_released_prefix(keys, a, b, m - 1);
        assert forall|k: Pubkey| #[trigger] released_reads(keys, a, m, k) == released_reads(keys, b, m, k) by {
            assert(released_reads(keys, a, m - 1, k) == released_reads(keys, b, m - 1, k));
        }
    }
}

proof fn lemma_released_reads_nonneg(keys: Seq<(Vec<Pubkey>, Vec<Pubkey>)>, results: Seq<Result<(), LockError>>, m: int, k: Pubkey)
    ensures
        0 <= released_reads(keys, results, m, k),
    decreases m,
{
    if m > 0 {
        lemma_released_reads_nonneg(keys, results, m - 1, k);
        lemma_occurrences_nonneg(keys[m - 1].1@, k);
    }
}

proof fn lemma_released_reads_mono(keys: Seq<(Vec<Pubkey>, Vec<Pubkey>)>, results: Seq<Result<(), LockError>>, a: int, b: int, k: Pubkey)
    requires
        0 <= a <= b,
    ensures
        0 <= released_reads(keys, results, a, k) <= released_reads(keys, results, b, k),
    decreases b,
{
    if b > a {
        lemma_released_reads_mono(keys, results, a, b - 1, k);
        lemma_occurrences_nonneg(keys[b - 1].1@, k);
    } else {
        lemma_released_reads_nonneg(keys, results, a, k);
    }
}

/// What locking the first `m` of a batch gives: the write locks taken are
/// those of the successful transactions, apart from the ones held before,
/// and each read count grew by the reads of the successful transactions.
proof fn lemma_lock_fold_counts(
    writers: Set<Pubkey>,
    readers: Map<Pubkey, u64>,
    requests: Seq<LockRequest>,
    keys: Seq<(Vec<Pubkey>, Vec<Pubkey>)>,
    m: int,
)
    requires
        0 <= m <= requests.len(),
        readers_below(readers, readonly_total(requests, requests.len() as int)),
        keys.len() == requests.len(),
        forall|i: int|
            0 <= i < requests.len() ==> (#[trigger] requests[i] matches Ok(kk) ==> keys[i].0@ == kk.0@ && keys[i].1@
                == kk.1@),
    ensures
        ({
            let (w, r, o) = lock_fold(writers, readers, requests, m);
            &&& o.len() == m
            &&& (forall|i: int| 0 <= i < m ==> (o[i] is Ok ==> requests[i] is Ok))
            &&& w == writers.union(released_writes(keys, o, m))
            &&& writers.intersect(released_writes(keys, o, m)) == Set::<Pubkey>::empty()
            &&& all_positive(r)
            &&& (forall|k: Pubkey| #[trigger] count_of(r, k) == count_of(readers, k) + released_reads(keys, o, m, k))
            &&& readers_below(r, readonly_total(requests, requests.len() as int) - readonly_total(requests, m))
        }),
    decreases m,
{
    let n = requests.len() as int;
    if m == 0 {
        assert(writers.union(Set::<Pubkey>::empty()) =~= writers);
        assert(writers.intersect(Set::<Pubkey>::empty()) =~= Set::<Pubkey>::empty());
    } else {
    lemma_lock_fold_counts(writers, readers, requests, keys, m - 1);
    lemma_readonly_total_mono(requests, m, n);
    let (w, r, o) = lock_fold(writers, readers, requests, m - 1);
    let (w2, r2, o2) = lock_fold(writers, readers, requests, m);
    let left = readonly_total(requests, n) - readonly_total(requests, m);
    lemma_released_prefix(keys, o, o2, m - 1);
    assert(o2.len() == m);
    assert forall|i: int| 0 <= i < m implies (o2[i] is Ok ==> requests[i] is Ok) by {
        if i < m - 1 {
            assert(o2[i] == o[i]);
        }
    }
    match requests[m - 1] {
        Err(e) => {
            assert(o2[m - 1] is Err);
            assert(readonly_total(requests, m) == readonly_total(requests, m - 1));
        },
        Ok((wk, rk)) => {
            assert(readonly_total(requests, m) == readonly_total(requests, m - 1) + rk@.len());
            if lockable(w, r, wk@, rk@) {
                assert(o2[m - 1] is Ok);
                assert(keys[m - 1].0@ == wk@ && keys[m - 1].1@ == rk@) by {
                    assert(requests[m - 1] matches Ok(kk) ==> keys[m - 1].0@ == kk.0@ && keys[m - 1].1@ == kk.1@);
                }
                let t = released_writes(keys, o, m - 1);
                assert(released_writes(keys, o2, m) == t.union(wk@.to_set()));
                assert(w2 =~= writers.union(t.union(wk@.to_set())));
                assert forall|x: Pubkey| !(writers.contains(x) && #[trigger] wk@.to_set().contains(x)) by {
                    if wk@.to_set().contains(x) {
                        let i = choose|i: int| 0 <= i < wk@.len() && wk@[i] == x;
                        assert(!w.contains(wk@[i]));
                    }
                }
                assert(writers.intersect(t.union(wk@.to_set())) =~= Set::<Pubkey>::empty()) by {
                    assert forall|x: Pubkey| !writers.intersect(t.union(wk@.to_set())).contains(x) by {
                        assert(!(writers.contains(x) && t.contains(x))) by {
                            assert(!writers.intersect(t).contains(x));
                        }
                        assert(!(writers.contains(x) && wk@.to_set().contains(x)));
                    }
                }
                lemma_more_readers_step(r, rk@, left);
                lemma_more_readers_counts(r, rk@);
                assert forall|k: Pubkey| #[trigger] count_of(r2, k) == count_of(readers, k) + released_reads(keys, o2, m, k) by {
                    assert(count_of(r2, k) == count_of(r, k) + occurrences(rk@, k));
                    assert(count_of(r, k) == count_of(readers, k) + released_reads(keys, o, m - 1, k));
                }
            } else {
                assert(o2[m - 1] is Err);
            }
        },
    }
    }
}

/// What releasing the locks of the first `m` successful transactions of a
/// locked batch gives: their write locks are gone and each read count
/// dropped by their reads.
proof fn lemma_unlock_fold_counts(
    writers: Set<Pubkey>,
    readers: Map<Pubkey, u64>,
    keys: Seq<(Vec<Pubkey>, Vec<Pubkey>)>,
    results: Seq<Result<(), LockError>>,
    n: int,
    m: int,
)
    requires
        0 <= m <= n,
        n <= keys.len(),
        n <= results.len(),
        all_positive(readers),
        forall|k: Pubkey| #[trigger] count_of(readers, k) >= released_reads(keys, results, n, k),
    ensures
        ({
            let (w, r) = unlock_fold(writers, readers, keys, results, m);
            &&& w == writers.difference(released_writes(keys, results, m))
            &&& all_positive(r)
            &&& forall|k: Pubkey| #[trigger] count_of(r, k) == count_of(readers, k) - released_reads(keys, results, m, k)
        }),
    decreases m,
{
    if m == 0 {
        assert(writers.difference(Set::<Pubkey>::empty()) =~= writers);
    } else {
    lemma_unlock_fold_counts(writers, readers, keys, results, n, m - 1);
    let (w, r) = unlock_fold(writers, readers, keys, results, m - 1);
    if results[m - 1] is Ok {
        let rk = keys[m - 1].1@;
        assert(w.difference(keys[m - 1].0@.to_set()) =~= writers.difference(released_writes(keys, results, m)));
        assert forall|k: Pubkey| count_of(r, k) >= #[trigger] occurrences(rk, k) by {
            lemma_released_reads_mono(keys, results, m, n, k);
            assert(released_reads(keys, results, m, k) == released_reads(keys, results, m - 1, k) + occurrences(rk, k));
        }
        lemma_fewer_readers_counts(r, rk);
        assert forall|k: Pubkey| #[trigger] count_of(fewer_readers(r, rk), k) == count_of(readers, k) - released_reads(keys, results, m, k) by {
            assert(count_of(fewer_readers(r, rk), k) == count_of(r, k) - occurrences(rk, k));
        }
    }
    }
}

/// Locking a batch of transactions and then releasing the locks of those
/// whose locking succeeded, each with its own keys, gives back the locks
/// there were; the transactions that were refused are neither locked nor
/// unlocked.
pub proof fn lemma_lock_batch_then_unlock(
    writers: Set<Pubkey>,
    readers: Map<Pubkey, u64>,
    requests: Seq<LockRequest>,
    keys: Seq<(Vec<Pubkey>, Vec<Pubkey>)>,
)
    requires
        readers_below(readers, readonly_total(requests, requests.len() as int)),
        keys.len() == requests.len(),
        forall|i: int|
            0 <= i < requests.len() ==> (#[trigger] requests[i] matches Ok(kk) ==> keys[i].0@ == kk.0@ && keys[i].1@
                == kk.1@),
    ensures
        ({
            let n = requests.len() as int;
            let (w, r, out) = lock_fold(writers, readers, requests, n);
            unlock_fold(w, r, keys, out, n) == (writers, readers)
        }),
{
    let n = requests.len() as int;
    lemma_lock_fold_counts(writers, readers, requests, keys, n);
    let (w, r, out) = lock_fold(writers, readers, requests, n);
    assert forall|k: Pubkey| #[trigger] count_of(r, k) >= released_reads(keys, out, n, k) by {
        assert(count_of(r, k) == count_of(readers, k) + released_reads(keys, out, n, k));
    }
    lemma_unlock_fold_counts(w, r, keys, out, n, n);
    let (w2, r2) = unlock_fold(w, r, keys, out, n);
    let t = released_writes(keys, out, n);
    assert(w2 =~= writers) by {
        assert forall|x: Pubkey| w2.contains(x) == writers.contains(x) by {
            if writers.contains(x) {
                assert(!writers.intersect(t).contains(x));
            }
        }
    }
    assert forall|k: Pubkey| #[trigger] count_of(r2, k) == count_of(readers, k) by {
        assert(count_of(r2, k) == count_of(r, k) - released_reads(keys, out, n, k));
    }
    assert(all_positive(readers));
    lemma_counts_determine(r2, readers);
}

/// Taking a reader's lock on `k` and releasing it gives back the counts
/// there were.
pub proof fn lemma_read_lock_then_unlock(readers: Map<Pubkey, u64>, k: Pubkey)
    requires
        readers.contains_key(k) ==> 0 < readers[k] < u64::MAX,
    ensures
        one_less_reader(one_more_reader(readers, k), k) == readers,
{
    if readers.contains_key(k) {
        assert(one_less_reader(one_more_reader(readers, k), k) =~= readers);
    } else {
        assert(one_less_reader(one_more_reader(readers, k), k) =~= readers);
    }
}

} // verus!
