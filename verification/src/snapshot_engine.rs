use vstd::prelude::*;
use vstd::relations::{sorted_by, total_ordering};

use crate::error::{AccountsDbError, AdbResult};
use crate::snapshot::{snapshot_name, spec_slot_of_path, SnapSlot};

verus! {

broadcast use vstd::seq_lib::group_to_multiset_ensures, vstd::multiset::group_multiset_axioms;

/// Byte-wise lexicographic order, the order of file names.
pub open spec fn lex_le(a: Seq<u8>, b: Seq<u8>) -> bool
    decreases a.len(),
{
    if a.len() == 0 {
        true
    } else if b.len() == 0 {
        false
    } else if a[0] != b[0] {
        a[0] < b[0]
    } else {
        lex_le(a.drop_first(), b.drop_first())
    }
}

/// `lex_le` as a relation.
pub open spec fn name_order() -> spec_fn(Seq<u8>, Seq<u8>) -> bool {
    |a: Seq<u8>, b: Seq<u8>| lex_le(a, b)
}

pub(crate) proof fn lemma_lex_refl(a: Seq<u8>)
    ensures
        lex_le(a, a),
    decreases a.len(),
{
    if a.len() > 0 {
        lemma_lex_refl(a.drop_first());
    }
}

pub(crate) proof fn lemma_lex_antisym(a: Seq<u8>, b: Seq<u8>)
    requires
        lex_le(a, b),
        lex_le(b, a),
    ensures
        a == b,
    decreases a.len(),
{
    if a.len() > 0 && b.len() > 0 {
        lemma_lex_antisym(a.drop_first(), b.drop_first());
        assert(a =~= seq![a[0]] + a.drop_first());
        assert(b =~= seq![b[0]] + b.drop_first());
    } else {
        assert(a =~= b);
    }
}

pub(crate) proof fn lemma_lex_trans(a: Seq<u8>, b: Seq<u8>, c: Seq<u8>)
    requires
        lex_le(a, b),
        lex_le(b, c),
    ensures
        lex_le(a, c),
    decreases a.len(),
{
    if a.len() > 0 && b.len() > 0 && c.len() > 0 && a[0] == b[0] && b[0] == c[0] {
        lemma_lex_trans(a.drop_first(), b.drop_first(), c.drop_first());
    }
}

pub(crate) proof fn lemma_lex_total(a: Seq<u8>, b: Seq<u8>)
    ensures
        lex_le(a, b) || lex_le(b, a),
    decreases a.len(),
{
    if a.len() > 0 && b.len() > 0 && a[0] == b[0] {
        lemma_lex_total(a.drop_first(), b.drop_first());
    }
}

/// File names are totally ordered.
pub proof fn lemma_name_order_total()
    ensures
        total_ordering(name_order()),
{
    assert forall|x: Seq<u8>| #[trigger] name_order()(x, x) by {
        lemma_lex_refl(x);
    }
    assert forall|x: Seq<u8>, y: Seq<u8>| #[trigger] name_order()(x, y) && #[trigger] name_order()(y, x)
        implies x == y by {
        lemma_lex_antisym(x, y);
    }
    assert forall|x: Seq<u8>, y: Seq<u8>, z: Seq<u8>| #[trigger] name_order()(x, y) && #[trigger] name_order()(y, z)
        implies name_order()(x, z) by {
        lemma_lex_trans(x, y, z);
    }
    assert forall|x: Seq<u8>, y: Seq<u8>| #[trigger] name_order()(x, y) || #[trigger] name_order()(y, x) by {
        lemma_lex_total(x, y);
    }
}

proof fn lemma_lex_skip(a: Seq<u8>, b: Seq<u8>, i: int)
    requires
        0 <= i <= a.len(),
        i <= b.len(),
        forall|k: int| 0 <= k < i ==> a[k] == b[k],
    ensures
        lex_le(a, b) == lex_le(a.skip(i), b.skip(i)),
    decreases i,
{
    if i > 0 {
        assert(a[0] == b[0]);
        lemma_lex_skip(a.drop_first(), b.drop_first(), i - 1);
        assert(a.drop_first().skip(i - 1) =~= a.skip(i));
        assert(b.drop_first().skip(i - 1) =~= b.skip(i));
    } else {
        assert(a.skip(0) =~= a);
        assert(b.skip(0) =~= b);
    }
}

/// Whether the name `a` orders at or before `b`.
pub fn name_le(a: &Vec<u8>, b: &Vec<u8>) -> (r: bool)
    ensures
        r == lex_le(a@, b@),
{
    let mut i: usize = 0;
    while i < a.len() && i < b.len() && a[i] == b[i]
        invariant
            i <= a@.len(),
            i <= b@.len(),
            forall|k: int| 0 <= k < i ==> a@[k] == b@[k],
        decreases a@.len() - i,
    {
        i = i + 1;
    }
    proof {
        lemma_lex_skip(a@, b@, i as int);
    }
    if i == a.len() {
        true
    } else if i == b.len() {
        false
    } else {
        a[i] < b[i]
    }
}

/// Whether two names are equal.
pub fn name_eq(a: &Vec<u8>, b: &Vec<u8>) -> (r: bool)
    ensures
        r == (a@ == b@),
{
    let le = name_le(a, b);
    let ge = name_le(b, a);
    proof {
        if le && ge {
            lemma_lex_antisym(a@, b@);
        }
        if a@ == b@ {
            lemma_lex_refl(a@);
        }
    }
    le && ge
}

fn copy_name(a: &Vec<u8>) -> (r: Vec<u8>)
    ensures
        r@ == a@,
{
    let mut out: Vec<u8> = Vec::new();
    let mut i: usize = 0;
    while i < a.len()
        invariant
            0 <= i <= a@.len(),
            out@ == a@.subrange(0, i as int),
        decreases a@.len() - i,
    {
        out.push(a[i]);
        i = i + 1;
        proof {
            assert(out@ =~= a@.subrange(0, i as int));
        }
    }
    proof {
        assert(out@ =~= a@);
    }
    out
}

/// The byte strings of a sequence of names.
pub open spec fn names_of(v: Seq<Vec<u8>>) -> Seq<Seq<u8>> {
    Seq::new(v.len(), |i: int| v[i]@)
}

/// Sorts names by `lex_le`.
pub fn sort_names(v: Vec<Vec<u8>>) -> (r: Vec<Vec<u8>>)
    ensures
        names_of(r@) == names_of(v@).sort_by(name_order()),
{
    let ghost orig = names_of(v@);
    let mut rem = v;
    let mut out: Vec<Vec<u8>> = Vec::new();
    proof {
        lemma_name_order_total();
    }
    while rem.len() > 0
        invariant
            total_ordering(name_order()),
            names_of(out@).to_multiset().add(names_of(rem@).to_multiset()) == orig.to_multiset(),
            sorted_by(names_of(out@), name_order()),
            forall|i: int, j: int| 0 <= i < names_of(out@).len() && 0 <= j < names_of(rem@).len()
                ==> lex_le(#[trigger] names_of(out@)[i], #[trigger] names_of(rem@)[j]),
        decreases rem@.len(),
    {
        let mut best: usize = 0;
        let mut k: usize = 1;
        proof {
            lemma_lex_refl(names_of(rem@)[0]);
        }
        while k < rem.len()
            invariant
                total_ordering(name_order()),
                0 <= best < rem@.len(),
                1 <= k <= rem@.len(),
                forall|j: int| 0 <= j < k ==> lex_le(names_of(rem@)[best as int], #[trigger] names_of(rem@)[j]),
            decreases rem@.len() - k,
        {
            if !name_le(&rem[best], &rem[k]) {
                proof {
                    lemma_lex_total(rem@[best as int]@, rem@[k as int]@);
                    assert forall|j: int| 0 <= j < k + 1 implies lex_le(names_of(rem@)[k as int], #[trigger] names_of(rem@)[j]) by {
                        if j < k {
                            lemma_lex_trans(names_of(rem@)[k as int], names_of(rem@)[best as int], names_of(rem@)[j]);
                        } else {
                            lemma_lex_refl(names_of(rem@)[k as int]);
                        }
                    }
                }
                best = k;
            }
            k = k + 1;
        }
        let ghost rem_dv = names_of(rem@);
        let ghost out_dv = names_of(out@);
        let chosen = rem.remove(best);
        proof {
            assert(names_of(rem@) =~= rem_dv.remove(best as int));
            assert(rem_dv[best as int] == chosen@);
        }
        out.push(chosen);
        proof {
            assert(names_of(out@) =~= out_dv.push(chosen@));
            assert(rem_dv.remove(best as int).to_multiset() =~= rem_dv.to_multiset().remove(rem_dv[best as int]));
            assert(out_dv.push(chosen@).to_multiset() =~= out_dv.to_multiset().insert(chosen@));
            assert(names_of(out@).to_multiset().add(names_of(rem@).to_multiset()) =~= orig.to_multiset());
            assert forall|i: int, j: int| 0 <= i < j < names_of(out@).len() implies #[trigger] name_order()(
                names_of(out@)[i],
                names_of(out@)[j],
            ) by {
                if j < out_dv.len() {
                } else {
                    assert(lex_le(out_dv[i], rem_dv[best as int]));
                }
            }
            assert forall|i: int, j: int| 0 <= i < names_of(out@).len() && 0 <= j < names_of(rem@).len()
                implies lex_le(#[trigger] names_of(out@)[i], #[trigger] names_of(rem@)[j]) by {
                let pj = if j < best { j } else { j + 1 };
                assert(names_of(rem@)[j] == rem_dv[pj]);
                if i < out_dv.len() {
                    assert(lex_le(out_dv[i], rem_dv[pj]));
                }
            }
        }
    }
    proof {
        assert(names_of(rem@) =~= Seq::<Seq<u8>>::empty());
        assert(names_of(out@).to_multiset() =~= orig.to_multiset());
        orig.lemma_sort_by_ensures(name_order());
        vstd::seq_lib::lemma_sorted_unique(names_of(out@), orig.sort_by(name_order()), name_order());
    }
    out
}

/// Whether a name is that of a snapshot (its slot can be parsed).
pub open spec fn is_snapshot_name(n: Seq<u8>) -> bool {
    spec_slot_of_path(n) is Some
}

/// The snapshots kept after a restart: the snapshot names among `entries`,
/// sorted, of which only the `max_count` last ones are kept.
pub open spec fn spec_read_snapshots(entries: Seq<Seq<u8>>, max_count: nat) -> Seq<Seq<u8>> {
    let sorted = entries.filter(|n: Seq<u8>| is_snapshot_name(n)).sort_by(name_order());
    if sorted.len() > max_count {
        sorted.subrange(sorted.len() - max_count, sorted.len() as int)
    } else {
        sorted
    }
}

/// Picks, among the names of the directory entries `entries`, the snapshot
/// directories to keep track of: those whose name has a slot, in name order,
/// at most `max_count` of them (the last ones).
pub fn read_snapshots(entries: &Vec<Vec<u8>>, max_count: usize) -> (r: Vec<Vec<u8>>)
    ensures
        names_of(r@) == spec_read_snapshots(names_of(entries@), max_count as nat),
{
    let ghost all = names_of(entries@);
    let mut kept: Vec<Vec<u8>> = Vec::new();
    let mut i: usize = 0;
    while i < entries.len()
        invariant
            0 <= i <= entries@.len(),
            all == names_of(entries@),
            names_of(kept@) == all.subrange(0, i as int).filter(|n: Seq<u8>| is_snapshot_name(n)),
        decreases entries@.len() - i,
    {
        let e = &entries[i];
        let ok = SnapSlot::try_from_bytes(e.as_slice()).is_some();
        let ghost pre = names_of(kept@);
        if ok {
            kept.push(copy_name(e));
        }
        proof {
            reveal_with_fuel(Seq::<_>::filter, 1);
            assert(all.subrange(0, i as int + 1).drop_last() =~= all.subrange(0, i as int));
            assert(all[i as int] == e@);
            if ok {
                assert(names_of(kept@) =~= pre.push(e@));
            } else {
                assert(names_of(kept@) =~= pre);
            }
        }
        i = i + 1;
    }
    proof {
        assert(all.subrange(0, entries@.len() as int) =~= all);
    }
    let sorted = sort_names(kept);
    if sorted.len() <= max_count {
        return sorted;
    }
    let from = sorted.len() - max_count;
    let mut out: Vec<Vec<u8>> = Vec::new();
    let mut k = from;
    while k < sorted.len()
        invariant
            from <= k <= sorted@.len(),
            names_of(out@) == names_of(sorted@).subrange(from as int, k as int),
        decreases sorted@.len() - k,
    {
        let c = copy_name(&sorted[k]);
        let ghost pre = names_of(out@);
        out.push(c);
        proof {
            assert(names_of(out@) =~= pre.push(c@));
            assert(names_of(sorted@)[k as int] == c@);
        }
        k = k + 1;
        proof {
            assert(names_of(out@) =~= names_of(sorted@).subrange(from as int, k as int));
        }
    }
    out
}

/// What the file system must do to take a snapshot: remove the evicted
/// snapshot (if any) and create the new one, by reference linking when the
/// file system supports it or by copying otherwise.
pub struct SnapshotPlan {
    pub evicted: Option<Vec<u8>>,
    pub created: Vec<u8>,
    pub reflink: bool,
}

/// What the file system must do to roll back: remove the newer snapshots
/// and the current database, and move the chosen snapshot in its place.
pub struct RollbackPlan {
    pub slot: u64,
    pub chosen: Vec<u8>,
    pub removed: Vec<Vec<u8>>,
}

/// Bookkeeping of database snapshots: the names of the existing snapshot
/// directories, oldest first, and how many of them to keep.
pub struct SnapshotEngine {
    dbpath: Vec<u8>,
    is_cow_supported: bool,
    snapshots: Vec<Vec<u8>>,
    max_count: usize,
}

impl SnapshotEngine {
    /// The names of the snapshots tracked, oldest first.
    pub closed spec fn names(&self) -> Seq<Seq<u8>> {
        names_of(self.snapshots@)
    }

    pub closed spec fn spec_max_count(&self) -> usize {
        self.max_count
    }

    pub closed spec fn spec_cow(&self) -> bool {
        self.is_cow_supported
    }

    pub closed spec fn spec_dbpath(&self) -> Seq<u8> {
        self.dbpath@
    }

    /// Every tracked name has a slot and at most `max_count` are tracked.
    pub open spec fn wf(&self) -> bool {
        &&& forall|i: int| 0 <= i < self.names().len() ==> is_snapshot_name(#[trigger] self.names()[i])
        &&& self.names().len() <= self.spec_max_count()
    }

    /// An engine over the database directory `dbpath`, tracking the
    /// snapshot directories found among `entries`.
    pub fn new(dbpath: Vec<u8>, is_cow_supported: bool, entries: &Vec<Vec<u8>>, max_count: usize) -> (r: Self)
        ensures
            r.names() == spec_read_snapshots(names_of(entries@), max_count as nat),
            r.spec_max_count() == max_count,
            r.spec_cow() == is_cow_supported,
            r.spec_dbpath() == dbpath@,
            r.wf(),
    {
        let snapshots = read_snapshots(entries, max_count);
        proof {
            let f = names_of(entries@).filter(|n: Seq<u8>| is_snapshot_name(n));
            lemma_name_order_total();
            f.lemma_sort_by_ensures(name_order());
            let sorted = f.sort_by(name_order());
            assert forall|i: int| 0 <= i < sorted.len() implies is_snapshot_name(#[trigger] sorted[i]) by {
                assert(sorted.to_multiset().count(sorted[i]) > 0);
                assert(f.contains(sorted[i]));
                let j = choose|j: int| 0 <= j < f.len() && f[j] == sorted[i];
                names_of(entries@).lemma_filter_pred(|n: Seq<u8>| is_snapshot_name(n), j);
            }
        }
        SnapshotEngine { dbpath, is_cow_supported, snapshots, max_count }
    }

    /// The database directory.
    pub fn database_path(&self) -> (r: &Vec<u8>)
        ensures
            r@ == self.spec_dbpath(),
    {
        &self.dbpath
    }

    /// Records a snapshot of the database at `slot`: when `max_count`
    /// snapshots are already tracked the oldest one is evicted.
    pub fn snapshot(&mut self, slot: u64) -> (r: SnapshotPlan)
        ensures
            final(self).spec_max_count() == old(self).spec_max_count(),
            final(self).spec_cow() == old(self).spec_cow(),
            final(self).spec_dbpath() == old(self).spec_dbpath(),
            r.created@ == snapshot_name(slot),
            r.reflink == old(self).spec_cow(),
            if old(self).names().len() == old(self).spec_max_count() && old(self).names().len() > 0 {
                &&& r.evicted matches Some(e) && e@ == old(self).names()[0]
                &&& final(self).names() == old(self).names().drop_first().push(snapshot_name(slot))
            } else {
                &&& r.evicted is None
                &&& final(self).names() == old(self).names().push(snapshot_name(slot))
            },
            old(self).wf() && old(self).spec_max_count() > 0 ==> final(self).wf(),
    {
        let ghost pre = self.names();
        let mut evicted: Option<Vec<u8>> = None;
        if self.snapshots.len() == self.max_count && self.snapshots.len() > 0 {
            let old = self.snapshots.remove(0);
            proof {
                assert(names_of(self.snapshots@) =~= pre.drop_first());
            }
            evicted = Some(old);
        }
        let ghost mid = self.names();
        let name = SnapSlot(slot).file_name();
        self.snapshots.push(copy_name(&name));
        proof {
            assert(names_of(self.snapshots@) =~= mid.push(snapshot_name(slot)));
            if pre.len() <= self.max_count && self.max_count > 0 {
                crate::snapshot::lemma_snapshot_path_roundtrip(Seq::<u8>::empty(), slot);
                assert(crate::snapshot::join_path(Seq::<u8>::empty(), snapshot_name(slot)) =~= snapshot_name(slot));
            }
        }
        SnapshotPlan { evicted, created: name, reflink: self.is_cow_supported }
    }

    /// Whether a snapshot of `slot` is tracked.
    pub fn snapshot_exists(&self, slot: u64) -> (r: bool)
        ensures
            r == self.names().contains(snapshot_name(slot)),
    {
        let name = SnapSlot(slot).file_name();
        let mut i: usize = 0;
        while i < self.snapshots.len()
            invariant
                0 <= i <= self.snapshots@.len(),
                name@ == snapshot_name(slot),
                forall|j: int| 0 <= j < i ==> self.names()[j] != name@,
            decreases self.snapshots@.len() - i,
        {
            if name_eq(&self.snapshots[i], &name) {
                proof {
                    assert(self.names()[i as int] == name@);
                }
                return true;
            }
            i = i + 1;
        }
        false
    }

    /// Rolls back to the most recent snapshot whose name orders at or
    /// before the name of `slot`: that snapshot and every newer one stop
    /// being tracked, the newer ones are to be removed, and the slot of the
    /// chosen one is returned. Fails when there is no such snapshot.
    pub fn try_switch_to_snapshot(&mut self, slot: u64) -> (r: AdbResult<RollbackPlan>)
        requires
            old(self).wf(),
        ensures
            final(self).spec_max_count() == old(self).spec_max_count(),
            final(self).spec_cow() == old(self).spec_cow(),
            final(self).spec_dbpath() == old(self).spec_dbpath(),
            final(self).wf(),
            (exists|i: int| 0 <= i < old(self).names().len() && lex_le(#[trigger] old(self).names()[i], snapshot_name(slot)))
                <==> r is Ok,
            r matches Err(e) ==> e == AccountsDbError::SnapshotMissing(slot) && final(self).names() == old(self).names(),
            r matches Ok(plan) ==> {
                let i = final(self).names().len() as int;
                &&& 0 <= i < old(self).names().len()
                &&& final(self).names() == old(self).names().subrange(0, i)
                &&& plan.chosen@ == old(self).names()[i]
                &&& lex_le(old(self).names()[i], snapshot_name(slot))
                &&& forall|j: int| i < j < old(self).names().len() ==> !lex_le(#[trigger] old(self).names()[j], snapshot_name(slot))
                &&& names_of(plan.removed@) == old(self).names().subrange(i + 1, old(self).names().len() as int)
                &&& spec_slot_of_path(plan.chosen@) == Some(plan.slot)
            },
    {
        let spath = SnapSlot(slot).file_name();
        let mut i = self.snapshots.len();
        while i > 0 && !name_le(&self.snapshots[i - 1], &spath)
            invariant
                i <= self.snapshots@.len(),
                spath@ == snapshot_name(slot),
                forall|j: int| i <= j < self.names().len() ==> !lex_le(#[trigger] self.names()[j], snapshot_name(slot)),
            decreases i,
        {
            i = i - 1;
        }
        if i == 0 {
            return Err(AccountsDbError::SnapshotMissing(slot));
        }
        let index = i - 1;
        let ghost pre = self.names();
        let mut removed: Vec<Vec<u8>> = Vec::new();
        let mut k = index + 1;
        while k < self.snapshots.len()
            invariant
                index + 1 <= k <= self.snapshots@.len(),
                self.names() == pre,
                names_of(removed@) == pre.subrange(index as int + 1, k as int),
            decreases self.snapshots@.len() - k,
        {
            let c = copy_name(&self.snapshots[k]);
            let ghost prev = names_of(removed@);
            removed.push(c);
            proof {
                assert(names_of(removed@) =~= prev.push(c@));
                assert(pre[k as int] == c@);
            }
            k = k + 1;
            proof {
                assert(names_of(removed@) =~= pre.subrange(index as int + 1, k as int));
            }
        }
        let chosen = copy_name(&self.snapshots[index]);
        self.snapshots.truncate(index);
        proof {
            assert(names_of(self.snapshots@) =~= pre.subrange(0, index as int));
            assert(is_snapshot_name(pre[index as int]));
        }
        let slot_of_chosen = match SnapSlot::try_from_bytes(chosen.as_slice()) {
            Some(s) => s,
            None => 0,
        };
        Ok(RollbackPlan { slot: slot_of_chosen, chosen, removed })
    }
}

/// Ten to the power `k`.
pub open spec fn pow10(k: nat) -> nat
    decreases k,
{
    if k == 0 {
        1
    } else {
        10 * pow10((k - 1) as nat)
    }
}

proof fn lemma_pow10_positive(k: nat)
    ensures
        pow10(k) >= 1,
    decreases k,
{
    if k > 0 {
        lemma_pow10_positive((k - 1) as nat);
    }
}

proof fn lemma_digits_below_pow10(s: Seq<u8>)
    requires
        crate::snapshot::all_digits(s),
    ensures
        crate::snapshot::digits_value(s) < pow10(s.len()),
    decreases s.len(),
{
    if s.len() > 0 {
        let init = s.drop_last();
        assert(crate::snapshot::all_digits(init)) by {
            assert forall|i: int| 0 <= i < init.len() implies #[trigger] crate::snapshot::is_digit(init[i]) by {
                assert(init[i] == s[i]);
            }
        }
        lemma_digits_below_pow10(init);
        assert(crate::snapshot::is_digit(s[s.len() - 1]));
    }
}

proof fn lemma_digits_front(s: Seq<u8>)
    requires
        s.len() >= 1,
        crate::snapshot::all_digits(s),
    ensures
        crate::snapshot::digits_value(s) == (s[0] - crate::snapshot::ZERO) * pow10((s.len() - 1) as nat)
            + crate::snapshot::digits_value(s.drop_first()),
    decreases s.len(),
{
    let init = s.drop_last();
    assert(crate::snapshot::digits_value(s) == crate::snapshot::digits_value(init) * 10 + (s.last()
        - crate::snapshot::ZERO) as nat);
    if s.len() == 1 {
        assert(init =~= Seq::<u8>::empty());
        assert(s.drop_first() =~= Seq::<u8>::empty());
        assert(crate::snapshot::digits_value(init) == 0);
        assert(crate::snapshot::digits_value(s.drop_first()) == 0);
        assert(pow10(0) == 1);
        assert(s.last() == s[0]);
        assert(crate::snapshot::is_digit(s[0]));
    } else {
        assert(crate::snapshot::all_digits(init)) by {
            assert forall|i: int| 0 <= i < init.len() implies #[trigger] crate::snapshot::is_digit(init[i]) by {
                assert(init[i] == s[i]);
            }
        }
        lemma_digits_front(init);
        assert(s.drop_first().drop_last() =~= init.drop_first());
        assert(s.drop_first().last() == s.last());
        let d0 = s[0] - crate::snapshot::ZERO;
        let p = pow10((s.len() - 2) as nat);
        let vi = crate::snapshot::digits_value(init.drop_first());
        let l = s.last() - crate::snapshot::ZERO;
        assert(init[0] == s[0]);
        assert(pow10((s.len() - 1) as nat) == 10 * p);
        assert(crate::snapshot::is_digit(s.last()));
        assert(crate::snapshot::digits_value(s.drop_first()) == vi * 10 + l);
        assert((d0 * p + vi) * 10 + l == d0 * (10 * p) + (vi * 10 + l)) by (nonlinear_arith);
    }
}

proof fn lemma_lex_matches_value(x: Seq<u8>, y: Seq<u8>)
    requires
        x.len() == y.len(),
        crate::snapshot::all_digits(x),
        crate::snapshot::all_digits(y),
    ensures
        lex_le(x, y) <==> crate::snapshot::digits_value(x) <= crate::snapshot::digits_value(y),
    decreases x.len(),
{
    if x.len() > 0 {
        let xs = x.drop_first();
        let ys = y.drop_first();
        assert(crate::snapshot::all_digits(xs)) by {
            assert forall|i: int| 0 <= i < xs.len() implies #[trigger] crate::snapshot::is_digit(xs[i]) by {
                assert(xs[i] == x[i + 1]);
            }
        }
        assert(crate::snapshot::all_digits(ys)) by {
            assert forall|i: int| 0 <= i < ys.len() implies #[trigger] crate::snapshot::is_digit(ys[i]) by {
                assert(ys[i] == y[i + 1]);
            }
        }
        lemma_lex_matches_value(xs, ys);
        lemma_digits_front(x);
        lemma_digits_front(y);
        lemma_digits_below_pow10(xs);
        lemma_digits_below_pow10(ys);
        let p = pow10((x.len() - 1) as nat);
        lemma_pow10_positive((x.len() - 1) as nat);
        assert(crate::snapshot::is_digit(x[0]));
        assert(crate::snapshot::is_digit(y[0]));
        let dx = x[0] - crate::snapshot::ZERO;
        let dy = y[0] - crate::snapshot::ZERO;
        let vx = crate::snapshot::digits_value(xs);
        let vy = crate::snapshot::digits_value(ys);
        if dx < dy {
            assert(dx * p + vx < dy * p + vy) by (nonlinear_arith)
                requires
                    dx < dy,
                    0 <= vx < p,
                    0 <= vy,
                    0 <= dx,
            ;
        } else if dy < dx {
            assert(dy * p + vy < dx * p + vx) by (nonlinear_arith)
                requires
                    dy < dx,
                    0 <= vy < p,
                    0 <= vx,
                    0 <= dy,
            ;
        }
    }
}

proof fn lemma_lex_common_prefix(p: Seq<u8>, x: Seq<u8>, y: Seq<u8>)
    ensures
        lex_le(p + x, p + y) == lex_le(x, y),
    decreases p.len(),
{
    if p.len() > 0 {
        assert((p + x).drop_first() =~= p.drop_first() + x);
        assert((p + y).drop_first() =~= p.drop_first() + y);
        lemma_lex_common_prefix(p.drop_first(), x, y);
    } else {
        assert(p + x =~= x);
        assert(p + y =~= y);
    }
}

proof fn lemma_decimal_short(n: nat, k: nat)
    requires
        k >= 1,
        n < pow10(k),
    ensures
        crate::snapshot::decimal(n).len() <= k,
    decreases k,
{
    if n >= 10 {
        assert(n / 10 < pow10((k - 1) as nat)) by {
            assert(k >= 2) by {
                if k == 1 {
                    assert(pow10(1) == 10) by {
                        reveal_with_fuel(pow10, 2);
                    }
                }
            }
        }
        lemma_decimal_short(n / 10, (k - 1) as nat);
    }
}

/// The largest slot whose snapshot name is padded to the full width.
pub open spec fn max_padded_slot() -> nat {
    999_999_999_999
}

/// Snapshot names of slots that fit the padding sort as the slots do: the
/// padding makes the order of names the order of numbers.
pub proof fn lemma_snapshot_names_sort_by_slot(a: u64, b: u64)
    requires
        a <= max_padded_slot(),
        b <= max_padded_slot(),
    ensures
        lex_le(snapshot_name(a), snapshot_name(b)) <==> a <= b,
{
    assert(pow10(12) == 1_000_000_000_000) by {
        reveal_with_fuel(pow10, 13);
    }
    lemma_decimal_short(a as nat, 12);
    lemma_decimal_short(b as nat, 12);
    crate::snapshot::lemma_padded_decimal(a as nat);
    crate::snapshot::lemma_padded_decimal(b as nat);
    let pa = crate::snapshot::padded_decimal(a as nat);
    let pb = crate::snapshot::padded_decimal(b as nat);
    assert(pa.len() == 12);
    assert(pb.len() == 12);
    lemma_lex_matches_value(pa, pb);
    let prefix = seq![115u8, 110u8, 97u8, 112u8, 115u8, 104u8, 111u8, 116u8, crate::snapshot::DASH];
    lemma_lex_common_prefix(prefix, pa, pb);
}

/// Snapshot paths inside one directory sort as their slots do, for slots
/// that fit the padding: the directory is a common prefix, and the names
/// sort by slot.
pub proof fn lemma_snapshot_paths_sort_by_slot(parent: Seq<u8>, a: u64, b: u64)
    requires
        a <= max_padded_slot(),
        b <= max_padded_slot(),
    ensures
        lex_le(
            crate::snapshot::join_path(parent, snapshot_name(a)),
            crate::snapshot::join_path(parent, snapshot_name(b)),
        ) <==> a <= b,
{
    lemma_snapshot_names_sort_by_slot(a, b);
    let dir = if parent.len() > 0 && parent.last() != crate::snapshot::SLASH {
        parent.push(crate::snapshot::SLASH)
    } else {
        parent
    };
    lemma_lex_common_prefix(dir, snapshot_name(a), snapshot_name(b));
}

/// Rolling back to a snapshot taken by the engine goes to a slot no later
/// than the one asked for: the chosen name orders at or before the asked
/// slot's name, and its slot reads back from it.
pub proof fn lemma_rollback_goes_back(chosen_slot: u64, taken_at: u64, slot: u64)
    requires
        taken_at <= max_padded_slot(),
        slot <= max_padded_slot(),
        lex_le(snapshot_name(taken_at), snapshot_name(slot)),
        spec_slot_of_path(snapshot_name(taken_at)) == Some(chosen_slot),
    ensures
        chosen_slot == taken_at,
        chosen_slot <= slot,
{
    crate::snapshot::lemma_snapshot_path_roundtrip(Seq::<u8>::empty(), taken_at);
    assert(crate::snapshot::join_path(Seq::<u8>::empty(), snapshot_name(taken_at)) =~= snapshot_name(taken_at));
    lemma_snapshot_names_sort_by_slot(taken_at, slot);
}

} // verus!
