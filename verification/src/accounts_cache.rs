use vstd::prelude::*;

use crate::cloner::Account;
use crate::pubkey::Pubkey;

verus! {

/// An account held by the cache, with its address.
pub struct CachedAccountInner {
    pub account: Account,
    pub pubkey: Pubkey,
}

impl CachedAccountInner {
    /// The cached form of `account` held at `pubkey`.
    pub fn new(account: Account, pubkey: Pubkey) -> (r: CachedAccountInner)
        ensures
            r.account == account,
            r.pubkey == pubkey,
    {
        CachedAccountInner { account, pubkey }
    }

    /// The address the account is held at.
    pub fn pubkey(&self) -> (r: &Pubkey)
        ensures
            *r == self.pubkey,
    {
        &self.pubkey
    }
}

/// The accounts written in the current slot, one per address, with
/// counters of the writes: how many overwrote an account already held and
/// how many bytes they carried, how many bytes first writes carried, and
/// how many bytes of account data the cache holds. The counters wrap
/// around as the atomic counters they stand for do.
pub struct SlotCacheInner {
    pub cache: Vec<(Pubkey, Account)>,
    pub same_account_writes: u64,
    pub same_account_writes_size: u64,
    pub unique_account_writes_size: u64,
    pub size: u64,
    /// The writes taken since the cache was made, in order.
    pub writes: Ghost<Seq<(Pubkey, Account)>>,
}

/// The size of the 64-bit counters' range.
pub open spec fn counter_range() -> int {
    0x1_0000_0000_0000_0000
}

/// The bytes of account data that `entries` hold.
pub open spec fn data_bytes(entries: Seq<(Pubkey, Account)>) -> int
    decreases entries.len(),
{
    if entries.len() == 0 {
        0
    } else {
        data_bytes(entries.drop_last()) + entries.last().1.data@.len()
    }
}

proof fn lemma_data_bytes_nonneg(entries: Seq<(Pubkey, Account)>)
    ensures
        data_bytes(entries) >= 0,
    decreases entries.len(),
{
    if entries.len() > 0 {
        lemma_data_bytes_nonneg(entries.drop_last());
    }
}

proof fn lemma_data_bytes_update(entries: Seq<(Pubkey, Account)>, i: int, x: (Pubkey, Account))
    requires
        0 <= i < entries.len(),
    ensures
        data_bytes(entries.update(i, x)) == data_bytes(entries) - entries[i].1.data@.len() + x.1.data@.len(),
    decreases entries.len(),
{
    let u = entries.update(i, x);
    if i == entries.len() - 1 {
        assert(u.drop_last() =~= entries.drop_last());
    } else {
        assert(u.drop_last() =~= entries.drop_last().update(i, x));
        lemma_data_bytes_update(entries.drop_last(), i, x);
    }
}

proof fn lemma_wrapping_add_mod(held: int, size: u64, len: u64)
    requires
        held >= 0,
        size == held % counter_range(),
    ensures
        vstd::wrapping::u64_specs::wrapping_add(size, len) == (held + len) % counter_range(),
{
    let m = counter_range();
    vstd::arithmetic::div_mod::lemma_add_mod_noop(held, len as int, m);
    vstd::arithmetic::div_mod::lemma_small_mod(len as nat, m as nat);
    if size + len > u64::MAX {
        vstd::arithmetic::div_mod::lemma_mod_sub_multiples_vanish(size + len, m);
        vstd::arithmetic::div_mod::lemma_small_mod((size + len - m) as nat, m as nat);
    } else {
        vstd::arithmetic::div_mod::lemma_small_mod((size + len) as nat, m as nat);
    }
}

proof fn lemma_wrapping_sub_mod(held: int, size: u64, k: u64)
    requires
        held >= 0,
        size == held % counter_range(),
    ensures
        vstd::wrapping::u64_specs::wrapping_sub(size, k) == (held - k) % counter_range(),
{
    let m = counter_range();
    vstd::arithmetic::div_mod::lemma_sub_mod_noop(held, k as int, m);
    vstd::arithmetic::div_mod::lemma_small_mod(k as nat, m as nat);
    if size - k < 0 {
        vstd::arithmetic::div_mod::lemma_mod_add_multiples_vanish(size - k, m);
        vstd::arithmetic::div_mod::lemma_small_mod((size - k + m) as nat, m as nat);
    } else {
        vstd::arithmetic::div_mod::lemma_small_mod((size - k) as nat, m as nat);
    }
}

/// The size counter after an account of `new_len` bytes replaced one of
/// `old_len` bytes: it grows or shrinks by the difference.
pub open spec fn resized(size: u64, old_len: u64, new_len: u64) -> u64 {
    if new_len > old_len {
        vstd::wrapping::u64_specs::wrapping_add(size, (new_len - old_len) as u64)
    } else if old_len > new_len {
        vstd::wrapping::u64_specs::wrapping_sub(size, (old_len - new_len) as u64)
    } else {
        size
    }
}

/// The accounts held after `writes`, by address: the last one written at
/// each.
pub open spec fn written_map(writes: Seq<(Pubkey, Account)>) -> Map<Pubkey, Account>
    decreases writes.len(),
{
    if writes.len() == 0 {
        Map::empty()
    } else {
        written_map(writes.drop_last()).insert(writes.last().0, writes.last().1)
    }
}

/// How many of `writes` overwrote an account already held.
pub open spec fn overwrites(writes: Seq<(Pubkey, Account)>) -> int
    decreases writes.len(),
{
    if writes.len() == 0 {
        0
    } else {
        overwrites(writes.drop_last()) + if written_map(writes.drop_last()).contains_key(writes.last().0) {
            1int
        } else {
            0int
        }
    }
}

/// The bytes that the writes of `writes` which overwrote an account carried.
pub open spec fn overwrite_bytes(writes: Seq<(Pubkey, Account)>) -> int
    decreases writes.len(),
{
    if writes.len() == 0 {
        0
    } else {
        overwrite_bytes(writes.drop_last()) + if written_map(writes.drop_last()).contains_key(writes.last().0) {
            writes.last().1.data@.len() as int
        } else {
            0int
        }
    }
}

/// The bytes that the first writes at an address among `writes` carried.
pub open spec fn first_write_bytes(writes: Seq<(Pubkey, Account)>) -> int
    decreases writes.len(),
{
    if writes.len() == 0 {
        0
    } else {
        first_write_bytes(writes.drop_last()) + if written_map(writes.drop_last()).contains_key(writes.last().0) {
            0int
        } else {
            writes.last().1.data@.len() as int
        }
    }
}

/// The bytes that all of `writes` carried.
pub open spec fn written_bytes(writes: Seq<(Pubkey, Account)>) -> int
    decreases writes.len(),
{
    if writes.len() == 0 {
        0
    } else {
        written_bytes(writes.drop_last()) + writes.last().1.data@.len()
    }
}

proof fn lemma_write_counts(writes: Seq<(Pubkey, Account)>)
    ensures
        overwrites(writes) >= 0,
        overwrite_bytes(writes) >= 0,
        first_write_bytes(writes) >= 0,
        written_bytes(writes) == overwrite_bytes(writes) + first_write_bytes(writes),
    decreases writes.len(),
{
    if writes.len() > 0 {
        lemma_write_counts(writes.drop_last());
    }
}

impl SlotCacheInner {
    /// No two entries share an address; the entries are the last accounts
    /// written at each address; the size counter is the bytes held, and the
    /// write counters count the writes taken, modulo the counters' range.
    pub closed spec fn wf(&self) -> bool {
        &&& self.keys_unique()
        &&& self.view() == written_map(self.writes@)
        &&& self.size == self.held_bytes() % counter_range()
        &&& self.same_account_writes == overwrites(self.writes@) % counter_range()
        &&& self.same_account_writes_size == overwrite_bytes(self.writes@) % counter_range()
        &&& self.unique_account_writes_size == first_write_bytes(self.writes@) % counter_range()
    }

    /// No two entries share an address.
    closed spec fn keys_unique(&self) -> bool {
        forall|i: int, j: int|
            0 <= i < self.cache@.len() && 0 <= j < self.cache@.len() && i != j
                ==> (#[trigger] self.cache@[i]).0 != (#[trigger] self.cache@[j]).0
    }

    /// What a slot cache keeps whatever writes it has taken since it was
    /// made (`writes`, in order): it holds the last account written at each
    /// address; its size counter is the bytes of the accounts it holds; its
    /// counters count the overwrites, the bytes they carried and the bytes
    /// first writes carried, and together the bytes of all writes; all
    /// modulo 2^64, as the counters wrap.
    pub proof fn lemma_tracks_writes(&self)
        requires
            self.wf(),
        ensures
            self.view() == written_map(self.writes@),
            self.size == self.held_bytes() % counter_range(),
            self.same_account_writes == overwrites(self.writes@) % counter_range(),
            self.same_account_writes_size == overwrite_bytes(self.writes@) % counter_range(),
            self.unique_account_writes_size == first_write_bytes(self.writes@) % counter_range(),
            (self.same_account_writes_size + self.unique_account_writes_size) % counter_range() == written_bytes(
                self.writes@,
            ) % counter_range(),
    {
        lemma_write_counts(self.writes@);
        vstd::arithmetic::div_mod::lemma_add_mod_noop(
            overwrite_bytes(self.writes@),
            first_write_bytes(self.writes@),
            counter_range(),
        );
    }

    /// Whether an account is held at `k`.
    pub closed spec fn has(&self, k: Pubkey) -> bool {
        exists|i: int| 0 <= i < self.cache@.len() && (#[trigger] self.cache@[i]).0 == k
    }

    closed spec fn index_of(&self, k: Pubkey) -> int {
        choose|i: int| 0 <= i < self.cache@.len() && (#[trigger] self.cache@[i]).0 == k
    }

    /// The accounts held, by address.
    pub closed spec fn view(&self) -> Map<Pubkey, Account> {
        Map::new(|k: Pubkey| self.has(k), |k: Pubkey| self.cache@[self.index_of(k)].1)
    }

    /// The bytes of account data held.
    pub open spec fn held_bytes(&self) -> int {
        data_bytes(self.cache@)
    }

    proof fn lemma_view_at(&self, i: int)
        requires
            self.keys_unique(),
            0 <= i < self.cache@.len(),
        ensures
            self.view().contains_key(self.cache@[i].0),
            self.view()[self.cache@[i].0] == self.cache@[i].1,
    {
        let k = self.cache@[i].0;
        assert(self.has(k));
        let j = self.index_of(k);
        assert(self.cache@[j].0 == k);
    }

    /// An empty cache with zeroed counters.
    pub fn new() -> (r: Self)
        ensures
            r.wf(),
            r.view() == Map::<Pubkey, Account>::empty(),
            r.same_account_writes == 0,
            r.same_account_writes_size == 0,
            r.unique_account_writes_size == 0,
            r.size == 0,
            r.held_bytes() == 0,
            r.writes@ == Seq::<(Pubkey, Account)>::empty(),
    {
        let r = SlotCacheInner {
            cache: Vec::new(),
            same_account_writes: 0,
            same_account_writes_size: 0,
            unique_account_writes_size: 0,
            size: 0,
            writes: Ghost(Seq::empty()),
        };
        assert(r.view() =~= Map::<Pubkey, Account>::empty());
        r
    }

    fn find(&self, k: &Pubkey) -> (r: Option<usize>)
        ensures
            r matches Some(i) ==> i < self.cache@.len() && self.cache@[i as int].0 == *k,
            r is None ==> !self.has(*k),
    {
        let mut i: usize = 0;
        while i < self.cache.len()
            invariant
                0 <= i <= self.cache@.len(),
                forall|j: int| 0 <= j < i ==> self.cache@[j].0 != *k,
            decreases self.cache@.len() - i,
        {
            if self.cache[i].0.same_as(k) {
                return Some(i);
            }
            i = i + 1;
        }
        None
    }

    /// Whether an account is held at `pubkey`.
    pub fn contains_key(&self, pubkey: &Pubkey) -> (r: bool)
        requires
            self.wf(),
        ensures
            r == self.view().contains_key(*pubkey),
    {
        self.find(pubkey).is_some()
    }

    /// The account held at `pubkey`.
    pub fn get_cloned(&self, pubkey: &Pubkey) -> (r: Option<&Account>)
        requires
            self.wf(),
        ensures
            match r {
                Some(a) => self.view().contains_key(*pubkey) && *a == self.view()[*pubkey],
                None => !self.view().contains_key(*pubkey),
            },
    {
        match self.find(pubkey) {
            Some(i) => {
                proof {
                    self.lemma_view_at(i as int);
                }
                Some(&self.cache[i].1)
            },
            None => None,
        }
    }

    /// Holds `account` at `pubkey`, replacing the account held there, counts
    /// the write, and gives back the item stored.
    pub fn insert(&mut self, pubkey: &Pubkey, account: Account) -> (item: CachedAccountInner)
        requires
            old(self).wf(),
        ensures
            item.pubkey == *pubkey,
            item.account.same_content(account),
            final(self).wf(),
            final(self).view() == old(self).view().insert(*pubkey, account),
            final(self).writes@ == old(self).writes@.push((*pubkey, account)),
            ({
                let data_len = account.data@.len() as u64;
                if old(self).view().contains_key(*pubkey) {
                    let old_len = old(self).view()[*pubkey].data@.len() as u64;
                    &&& final(self).same_account_writes == vstd::wrapping::u64_specs::wrapping_add(
                        old(self).same_account_writes,
                        1,
                    )
                    &&& final(self).same_account_writes_size == vstd::wrapping::u64_specs::wrapping_add(
                        old(self).same_account_writes_size,
                        data_len,
                    )
                    &&& final(self).unique_account_writes_size == old(self).unique_account_writes_size
                    &&& final(self).size == resized(old(self).size, old_len, data_len)
                } else {
                    &&& final(self).same_account_writes == old(self).same_account_writes
                    &&& final(self).same_account_writes_size == old(self).same_account_writes_size
                    &&& final(self).unique_account_writes_size == vstd::wrapping::u64_specs::wrapping_add(
                        old(self).unique_account_writes_size,
                        data_len,
                    )
                    &&& final(self).size == vstd::wrapping::u64_specs::wrapping_add(old(self).size, data_len)
                }
            }),
    {
        let ghost start = *self;
        let ghost written = start.writes@.push((*pubkey, account));
        let data_len = account.data.len() as u64;
        let item = CachedAccountInner::new(account.duplicate(), *pubkey);
        match self.find(pubkey) {
            Some(i) => {
                proof {
                    self.lemma_view_at(i as int);
                }
                let ghost pre = *self;
                let old_entry = self.cache.remove(i);
                self.cache.insert(i, (*pubkey, account));
                proof {
                    assert(self.cache@ =~= pre.cache@.update(i as int, (*pubkey, account)));
                    assert forall|a: int, b: int|
                        0 <= a < self.cache@.len() && 0 <= b < self.cache@.len() && a != b
                        implies (#[trigger] self.cache@[a]).0 != (#[trigger] self.cache@[b]).0 by {
                        assert(pre.cache@[a].0 != pre.cache@[b].0);
                    }
                    assert forall|kk: Pubkey| #![auto] self.view().contains_key(kk) == pre.view().insert(*pubkey, account).contains_key(kk) by {
                        if pre.has(kk) {
                            let j = pre.index_of(kk);
                            assert(self.cache@[j].0 == kk);
                        }
                        if self.has(kk) {
                            let j = self.index_of(kk);
                            if j != i {
                                assert(pre.cache@[j].0 == kk);
                            }
                        }
                        if kk == *pubkey {
                            assert(self.cache@[i as int].0 == kk);
                        }
                    }
                    assert forall|kk: Pubkey| #![auto] self.view().contains_key(kk) implies self.view()[kk]
                        == pre.view().insert(*pubkey, account)[kk] by {
                        let j = self.index_of(kk);
                        self.lemma_view_at(j);
                        if kk != *pubkey {
                            pre.lemma_view_at(j);
                        } else {
                            self.lemma_view_at(i as int);
                        }
                    }
                    assert(self.view() =~= pre.view().insert(*pubkey, account));
                }
                let old_len = old_entry.1.data.len() as u64;
                proof {
                    lemma_data_bytes_update(pre.cache@, i as int, (*pubkey, account));
                    lemma_data_bytes_nonneg(pre.cache@);
                    if pre.size == pre.held_bytes() % counter_range() {
                        if data_len > old_len {
                            lemma_wrapping_add_mod(pre.held_bytes(), pre.size, (data_len - old_len) as u64);
                        } else if old_len > data_len {
                            lemma_wrapping_sub_mod(pre.held_bytes(), pre.size, (old_len - data_len) as u64);
                        }
                    }
                }
                self.same_account_writes = self.same_account_writes.wrapping_add(1);
                self.same_account_writes_size = self.same_account_writes_size.wrapping_add(data_len);
                if data_len > old_len {
                    self.size = self.size.wrapping_add(data_len - old_len);
                } else if old_len > data_len {
                    self.size = self.size.wrapping_sub(old_len - data_len);
                }
            },
            None => {
                let ghost pre = *self;
                self.cache.push((*pubkey, account));
                proof {
                    assert forall|a: int, b: int|
                        0 <= a < self.cache@.len() && 0 <= b < self.cache@.len() && a != b
                        implies (#[trigger] self.cache@[a]).0 != (#[trigger] self.cache@[b]).0 by {
                        if a < pre.cache@.len() && b < pre.cache@.len() {
                            assert(pre.cache@[a].0 != pre.cache@[b].0);
                        } else if a < pre.cache@.len() {
                            assert(pre.cache@[a].0 != *pubkey);
                        } else if b < pre.cache@.len() {
                            assert(pre.cache@[b].0 != *pubkey);
                        }
                    }
                    assert forall|kk: Pubkey| #![auto] self.view().contains_key(kk) == pre.view().insert(*pubkey, account).contains_key(kk) by {
                        if pre.has(kk) {
                            let j = pre.index_of(kk);
                            assert(self.cache@[j].0 == kk);
                        }
                        if self.has(kk) {
                            let j = self.index_of(kk);
                            if j < pre.cache@.len() {
                                assert(pre.cache@[j].0 == kk);
                            }
                        }
                        if kk == *pubkey {
                            assert(self.cache@[pre.cache@.len() as int].0 == kk);
                        }
                    }
                    assert forall|kk: Pubkey| #![auto] self.view().contains_key(kk) implies self.view()[kk]
                        == pre.view().insert(*pubkey, account)[kk] by {
                        let j = self.index_of(kk);
                        self.lemma_view_at(j);
                        if j < pre.cache@.len() {
                            pre.lemma_view_at(j);
                        }
                    }
                    assert(self.view() =~= pre.view().insert(*pubkey, account));
                }
                proof {
                    assert(self.cache@.drop_last() =~= pre.cache@);
                    lemma_data_bytes_nonneg(pre.cache@);
                    if pre.size == pre.held_bytes() % counter_range() {
                        lemma_wrapping_add_mod(pre.held_bytes(), pre.size, data_len);
                    }
                }
                self.size = self.size.wrapping_add(data_len);
                self.unique_account_writes_size = self.unique_account_writes_size.wrapping_add(data_len);
            },
        }
        self.writes = Ghost(written);
        proof {
            let h = start.writes@;
            let len = account.data@.len() as u64;
            assert(written.drop_last() =~= h);
            assert(written.last() == (*pubkey, account));
            lemma_write_counts(h);
            if start.view().contains_key(*pubkey) {
                lemma_wrapping_add_mod(overwrites(h), start.same_account_writes, 1);
                lemma_wrapping_add_mod(overwrite_bytes(h), start.same_account_writes_size, len);
            } else {
                lemma_wrapping_add_mod(first_write_bytes(h), start.unique_account_writes_size, len);
            }
            assert(self.keys_unique());
            assert(self.view() == written_map(written));
            assert(self.size == self.held_bytes() % counter_range());
            assert(self.same_account_writes == overwrites(written) % counter_range());
            assert(self.same_account_writes_size == overwrite_bytes(written) % counter_range());
            assert(self.unique_account_writes_size == first_write_bytes(written) % counter_range());
        }
        item
    }

    /// The bytes all writes carried.
    pub fn total_bytes(&self) -> (r: u64)
        requires
            self.unique_account_writes_size + self.same_account_writes_size <= u64::MAX,
        ensures
            r == self.unique_account_writes_size + self.same_account_writes_size,
    {
        self.unique_account_writes_size + self.same_account_writes_size
    }

    /// The addresses of the accounts held.
    pub fn get_all_pubkeys(&self) -> (r: Vec<Pubkey>)
        requires
            self.wf(),
        ensures
            r@.to_set() == self.view().dom(),
            r@.no_duplicates(),
    {
        let mut out: Vec<Pubkey> = Vec::new();
        let mut i: usize = 0;
        while i < self.cache.len()
            invariant
                0 <= i <= self.cache@.len(),
                self.wf(),
                out@.len() == i,
                forall|j: int| 0 <= j < i ==> out@[j] == #[trigger] self.cache@[j].0,
            decreases self.cache@.len() - i,
        {
            out.push(self.cache[i].0);
            i = i + 1;
        }
        proof {
            assert forall|k: Pubkey| out@.to_set().contains(k) == self.view().dom().contains(k) by {
                if out@.contains(k) {
                    let j = choose|j: int| 0 <= j < out@.len() && out@[j] == k;
                    self.lemma_view_at(j);
                }
                if self.has(k) {
                    let j = self.index_of(k);
                    assert(out@[j] == k);
                }
            }
            assert(out@.to_set() =~= self.view().dom());
            assert forall|a: int, b: int| 0 <= a < out@.len() && 0 <= b < out@.len() && a != b implies out@[a] != out@[b] by {
                assert(self.cache@[a].0 != self.cache@[b].0);
            }
        }
        out
    }

    /// The number of accounts held.
    pub fn len(&self) -> (r: usize)
        requires
            self.wf(),
        ensures
            r == self.view().dom().len(),
    {
        let keys = self.get_all_pubkeys();
        proof {
            keys@.unique_seq_to_set();
        }
        keys.len()
    }
}

/// The accounts written in the current slot, and that slot.
pub struct AccountsCache {
    pub slot_cache: SlotCacheInner,
    pub current_slot: u64,
}

impl AccountsCache {
    pub open spec fn wf(&self) -> bool {
        self.slot_cache.wf()
    }

    /// An empty cache at slot zero.
    pub fn new() -> (r: Self)
        ensures
            r.wf(),
            r.slot_cache.view() == Map::<Pubkey, Account>::empty(),
            r.current_slot == 0,
    {
        AccountsCache { slot_cache: SlotCacheInner::new(), current_slot: 0 }
    }

    /// A fresh, empty slot cache.
    pub fn new_inner(&self) -> (r: SlotCacheInner)
        ensures
            r.wf(),
            r.view() == Map::<Pubkey, Account>::empty(),
            r.size == 0,
    {
        SlotCacheInner::new()
    }

    /// How many bytes of account data the cache holds.
    pub fn size(&self) -> (r: u64)
        ensures
            r == self.slot_cache.size,
    {
        self.slot_cache.size
    }

    /// Writes `account` at `pubkey`, giving back the item stored.
    pub fn store(&mut self, pubkey: &Pubkey, account: Account) -> (item: CachedAccountInner)
        requires
            old(self).wf(),
        ensures
            item.pubkey == *pubkey,
            item.account.same_content(account),
            final(self).wf(),
            final(self).slot_cache.view() == old(self).slot_cache.view().insert(*pubkey, account),
            final(self).current_slot == old(self).current_slot,
    {
        self.slot_cache.insert(pubkey, account)
    }

    /// The account at `pubkey`.
    pub fn load(&self, pubkey: &Pubkey) -> (r: Option<&Account>)
        requires
            self.wf(),
        ensures
            match r {
                Some(a) => self.slot_cache.view().contains_key(*pubkey) && *a == self.slot_cache.view()[*pubkey],
                None => !self.slot_cache.view().contains_key(*pubkey),
            },
    {
        self.slot_cache.get_cloned(pubkey)
    }

    /// The account at `pubkey`, which may only be asked for at the current
    /// slot.
    pub fn load_verifying_slot(&self, slot: u64, pubkey: &Pubkey) -> (r: Option<&Account>)
        requires
            self.wf(),
            slot == self.current_slot,
        ensures
            match r {
                Some(a) => self.slot_cache.view().contains_key(*pubkey) && *a == self.slot_cache.view()[*pubkey],
                None => !self.slot_cache.view().contains_key(*pubkey),
            },
    {
        self.slot_cache.get_cloned(pubkey)
    }

    /// The account at `pubkey` with the current slot.
    pub fn load_with_slot(&self, pubkey: &Pubkey) -> (r: Option<(&Account, u64)>)
        requires
            self.wf(),
        ensures
            match r {
                Some((a, s)) => self.slot_cache.view().contains_key(*pubkey) && *a == self.slot_cache.view()[*pubkey]
                    && s == self.current_slot,
                None => !self.slot_cache.view().contains_key(*pubkey),
            },
    {
        match self.slot_cache.get_cloned(pubkey) {
            Some(a) => Some((a, self.current_slot)),
            None => None,
        }
    }

    /// Whether an account is held at `pubkey`.
    pub fn contains_key(&self, pubkey: &Pubkey) -> (r: bool)
        requires
            self.wf(),
        ensures
            r == self.slot_cache.view().contains_key(*pubkey),
    {
        self.slot_cache.contains_key(pubkey)
    }

    /// The cache holds one slot.
    pub fn num_slots(&self) -> (r: usize)
        ensures
            r == 1,
    {
        1
    }

    /// The slot being written.
    pub fn current_slot(&self) -> (r: u64)
        ensures
            r == self.current_slot,
    {
        self.current_slot
    }

    /// Moves to slot `slot`.
    pub fn set_current_slot(&mut self, slot: u64)
        ensures
            final(self).current_slot == slot,
            final(self).slot_cache == old(self).slot_cache,
    {
        self.current_slot = slot;
    }

    /// The number of accounts held.
    pub fn len(&self) -> (r: usize)
        requires
            self.wf(),
        ensures
            r == self.slot_cache.view().dom().len(),
    {
        self.slot_cache.len()
    }

    /// Whether no account is held.
    pub fn is_empty(&self) -> (r: bool)
        requires
            self.wf(),
        ensures
            r == (self.slot_cache.view().dom().len() == 0),
    {
        self.len() == 0
    }
}

} // verus!
