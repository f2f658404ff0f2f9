use vstd::prelude::*;

use crate::entry_set::{EntrySet, Exact};
use crate::error::{AccountsDbError, AdbResult};
use crate::pubkey::Pubkey;
use crate::snapshot_engine::{lemma_lex_refl, lemma_lex_total, lemma_lex_trans, lex_le, name_le};
use crate::storage::{Allocation, ExistingAllocation};
use crate::table::KeyedTable;

verus! {

/// One record of the programs index: account `pubkey`, stored at block
/// `offset`, is owned by `owner`.
#[derive(Clone, Copy, Debug)]
pub struct ProgramEntry {
    pub owner: Pubkey,
    pub offset: u32,
    pub pubkey: Pubkey,
}

impl Exact for ProgramEntry {
    fn exactly(&self, other: &Self) -> (r: bool) {
        self.offset == other.offset && self.owner.same_as(&other.owner) && self.pubkey.same_as(
            &other.pubkey,
        )
    }
}

/// One record of the deallocations index: a free run of `blocks` blocks at
/// block `offset`, kept for recycling.
#[derive(Clone, Copy, Debug, PartialEq, Eq, Structural)]
pub struct Dealloc {
    pub offset: u32,
    pub blocks: u32,
}

impl Exact for Dealloc {
    fn exactly(&self, other: &Self) -> (r: bool) {
        self.offset == other.offset && self.blocks == other.blocks
    }
}

/// The position of an offset among free runs of equal size: records of one
/// size are ordered by the bytes of the offset, least significant byte first.
pub open spec fn dup_rank(offset: u32) -> u32 {
    ((offset & 0xff) << 24u32) | (((offset >> 8u32) & 0xff) << 16u32) | (((offset >> 16u32) & 0xff)
        << 8u32) | (offset >> 24u32)
}

fn dup_rank_of(offset: u32) -> (r: u32)
    ensures
        r == dup_rank(offset),
{
    ((offset & 0xff) << 24u32) | (((offset >> 8u32) & 0xff) << 16u32) | (((offset >> 16u32) & 0xff)
        << 8u32) | (offset >> 24u32)
}

/// The order in which free runs are looked at when recycling: by size,
/// then by `dup_rank` of the offset.
pub open spec fn dealloc_before(a: Dealloc, b: Dealloc) -> bool {
    a.blocks < b.blocks || (a.blocks == b.blocks && dup_rank(a.offset) <= dup_rank(b.offset))
}

/// Some record among the first `n` of `all` is owned by `program` and
/// carries the (offset, account) pair `p`.
pub open spec fn came_from(all: Seq<ProgramEntry>, n: int, program: Pubkey, p: (u32, Pubkey)) -> bool {
    exists|j: int| 0 <= j < n && (#[trigger] all[j]).owner == program && all[j].offset == p.0 && all[j].pubkey == p.1
}

/// The bytes of a programs index record under its owner: the offset, least
/// significant byte first, then the account address. The records of one
/// owner are kept in the byte-wise order of these bytes.
pub open spec fn record_bytes(p: (u32, Pubkey)) -> Seq<u8> {
    seq![
        (p.0 & 0xff) as u8,
        ((p.0 >> 8u32) & 0xff) as u8,
        ((p.0 >> 16u32) & 0xff) as u8,
        (p.0 >> 24u32) as u8,
    ] + p.1.0@
}

fn record_bytes_of(p: (u32, Pubkey)) -> (r: Vec<u8>)
    ensures
        r@ == record_bytes(p),
{
    let o = p.0;
    let mut v: Vec<u8> = Vec::new();
    v.push((o & 0xff) as u8);
    v.push(((o >> 8u32) & 0xff) as u8);
    v.push(((o >> 16u32) & 0xff) as u8);
    v.push((o >> 24u32) as u8);
    let ghost head = v@;
    let bytes = p.1.0;
    let mut i: usize = 0;
    while i < 32
        invariant
            0 <= i <= 32,
            bytes@.len() == 32,
            bytes == p.1.0,
            head == seq![
                (p.0 & 0xff) as u8,
                ((p.0 >> 8u32) & 0xff) as u8,
                ((p.0 >> 16u32) & 0xff) as u8,
                (p.0 >> 24u32) as u8,
            ],
            v@ == head + bytes@.subrange(0, i as int),
        decreases 32 - i,
    {
        v.push(bytes[i]);
        i = i + 1;
        proof {
            assert(v@ =~= head + bytes@.subrange(0, i as int));
        }
    }
    proof {
        assert(bytes@.subrange(0, 32) =~= bytes@);
    }
    v
}

/// Sorts items by their byte keys, in byte-wise order.
fn sort_by_key<T>(v: Vec<(Vec<u8>, T)>) -> (r: Vec<(Vec<u8>, T)>)
    ensures
        r@.to_multiset() == v@.to_multiset(),
        forall|i: int, j: int| #![trigger r@[i], r@[j]] 0 <= i < j < r@.len() ==> lex_le(r@[i].0@, r@[j].0@),
{
    broadcast use vstd::seq_lib::group_to_multiset_ensures, vstd::multiset::group_multiset_axioms;

    let ghost orig = v@;
    let mut rem = v;
    let mut out: Vec<(Vec<u8>, T)> = Vec::new();
    proof {
        assert(out@.to_multiset() =~= vstd::multiset::Multiset::<(Vec<u8>, T)>::empty());
        assert(out@.to_multiset().add(rem@.to_multiset()) =~= orig.to_multiset());
    }
    while rem.len() > 0
        invariant
            out@.to_multiset().add(rem@.to_multiset()) == orig.to_multiset(),
            forall|i: int, j: int| #![trigger out@[i], out@[j]] 0 <= i < j < out@.len() ==> lex_le(out@[i].0@, out@[j].0@),
            forall|i: int, j: int| #![trigger out@[i], rem@[j]] 0 <= i < out@.len() && 0 <= j < rem@.len() ==> lex_le(
                out@[i].0@,
                rem@[j].0@,
            ),
        decreases rem@.len(),
    {
        let mut best: usize = 0;
        let mut k: usize = 1;
        proof {
            lemma_lex_refl(rem@[0].0@);
        }
        while k < rem.len()
            invariant
                0 <= best < rem@.len(),
                1 <= k <= rem@.len(),
                forall|j: int| 0 <= j < k ==> lex_le(rem@[best as int].0@, #[trigger] rem@[j].0@),
            decreases rem@.len() - k,
        {
            if !name_le(&rem[best].0, &rem[k].0) {
                proof {
                    lemma_lex_total(rem@[best as int].0@, rem@[k as int].0@);
                    assert forall|j: int| 0 <= j < k + 1 implies lex_le(rem@[k as int].0@, #[trigger] rem@[j].0@) by {
                        if j < k {
                            lemma_lex_trans(rem@[k as int].0@, rem@[best as int].0@, rem@[j].0@);
                        } else {
                            lemma_lex_refl(rem@[k as int].0@);
                        }
                    }
                }
                best = k;
            }
            k = k + 1;
        }
        let ghost rem0 = rem@;
        let ghost out0 = out@;
        let chosen = rem.remove(best);
        proof {
            assert(rem@ =~= rem0.remove(best as int));
            assert(rem0[best as int] == chosen);
        }
        out.push(chosen);
        proof {
            assert(out@ =~= out0.push(chosen));
            rem0.to_multiset_ensures();
            out0.to_multiset_ensures();
            assert(rem0.remove(best as int).to_multiset() =~= rem0.to_multiset().remove(rem0[best as int]));
            assert(out0.push(chosen).to_multiset() =~= out0.to_multiset().insert(chosen));
            assert(out@.to_multiset().add(rem@.to_multiset()) =~= orig.to_multiset());
            assert forall|i: int, j: int| #![trigger out@[i], out@[j]] 0 <= i < j < out@.len() implies lex_le(
                out@[i].0@,
                out@[j].0@,
            ) by {
                if j == out0.len() {
                    assert(out@[i] == out0[i]);
                    assert(lex_le(out0[i].0@, rem0[best as int].0@));
                } else {
                    assert(out@[i] == out0[i] && out@[j] == out0[j]);
                }
            }
            assert forall|i: int, j: int| #![trigger out@[i], rem@[j]] 0 <= i < out@.len() && 0 <= j < rem@.len()
                implies lex_le(out@[i].0@, rem@[j].0@) by {
                let pj = if j < best { j } else { j + 1 };
                assert(rem@[j] == rem0[pj]);
                if i < out0.len() {
                    assert(out@[i] == out0[i]);
                    assert(lex_le(out0[i].0@, rem0[pj].0@));
                } else {
                    assert(lex_le(rem0[best as int].0@, rem0[pj].0@));
                }
            }
        }
    }
    proof {
        assert(rem@ =~= Seq::<(Vec<u8>, T)>::empty());
        assert(out@.to_multiset() =~= orig.to_multiset());
    }
    out
}

/// `records` in the byte-wise order of their bytes.
fn sort_records(records: Vec<(u32, Pubkey)>) -> (r: Vec<(u32, Pubkey)>)
    requires
        records@.no_duplicates(),
    ensures
        r@.no_duplicates(),
        r@.len() == records@.len(),
        forall|x: (u32, Pubkey)| r@.contains(x) <==> records@.contains(x),
        forall|i: int, j: int| #![trigger r@[i], r@[j]] 0 <= i < j < r@.len() ==> lex_le(
            record_bytes(r@[i]),
            record_bytes(r@[j]),
        ),
{
    broadcast use vstd::seq_lib::group_to_multiset_ensures, vstd::multiset::group_multiset_axioms;

    let mut keyed: Vec<(Vec<u8>, (u32, Pubkey))> = Vec::new();
    let mut i: usize = 0;
    while i < records.len()
        invariant
            0 <= i <= records@.len(),
            keyed@.len() == i,
            forall|k: int| 0 <= k < i ==> (#[trigger] keyed@[k]).1 == records@[k] && keyed@[k].0@ == record_bytes(
                records@[k],
            ),
        decreases records@.len() - i,
    {
        keyed.push((record_bytes_of(records[i]), records[i]));
        i = i + 1;
    }
    let ghost keys = keyed@;
    proof {
        assert forall|a: int, b: int| 0 <= a < keys.len() && 0 <= b < keys.len() && a != b implies keys[a]
            != keys[b] by {
            assert(keys[a].1 == records@[a] && keys[b].1 == records@[b]);
        }
        assert(keys.no_duplicates());
        keys.lemma_multiset_has_no_duplicates();
    }
    let sorted = sort_by_key(keyed);
    proof {
        keys.to_multiset_ensures();
        sorted@.to_multiset_ensures();
        assert forall|x: (Vec<u8>, (u32, Pubkey))| sorted@.to_multiset().contains(x) implies sorted@.to_multiset().count(x)
            == 1 by {
            assert(keys.to_multiset().contains(x));
        }
        sorted@.lemma_multiset_has_no_duplicates_conv();
    }
    let mut out: Vec<(u32, Pubkey)> = Vec::new();
    let mut i: usize = 0;
    while i < sorted.len()
        invariant
            0 <= i <= sorted@.len(),
            out@.len() == i,
            forall|k: int| 0 <= k < i ==> (#[trigger] out@[k]) == sorted@[k].1,
        decreases sorted@.len() - i,
    {
        out.push(sorted[i].1);
        i = i + 1;
    }
    proof {
        // each sorted item is one of the keyed items
        assert forall|k: int| 0 <= k < sorted@.len() implies exists|a: int|
            0 <= a < keys.len() && #[trigger] sorted@[k] == keys[a] by {
            assert(sorted@.contains(sorted@[k]));
            assert(sorted@.to_multiset().count(sorted@[k]) > 0);
            assert(keys.contains(sorted@[k]));
        }
        assert forall|k: int| 0 <= k < out@.len() implies record_bytes(#[trigger] out@[k]) == sorted@[k].0@ by {
            let a = choose|a: int| 0 <= a < keys.len() && sorted@[k] == keys[a];
        }
        assert forall|p: int, q: int| 0 <= p < out@.len() && 0 <= q < out@.len() && p != q implies out@[p]
            != out@[q] by {
            let a = choose|a: int| 0 <= a < keys.len() && sorted@[p] == keys[a];
            let b = choose|b: int| 0 <= b < keys.len() && sorted@[q] == keys[b];
            assert(sorted@[p] != sorted@[q]);
            assert(a != b);
            assert(records@[a] != records@[b]);
        }
        assert forall|x: (u32, Pubkey)| out@.contains(x) <==> records@.contains(x) by {
            if out@.contains(x) {
                let k = choose|k: int| 0 <= k < out@.len() && out@[k] == x;
                let a = choose|a: int| 0 <= a < keys.len() && sorted@[k] == keys[a];
                assert(records@[a] == x);
            }
            if records@.contains(x) {
                let a = choose|a: int| 0 <= a < records@.len() && records@[a] == x;
                assert(keys.contains(keys[a]));
                assert(keys.to_multiset().count(keys[a]) > 0);
                assert(sorted@.contains(keys[a]));
                let k = choose|k: int| 0 <= k < sorted@.len() && sorted@[k] == keys[a];
                assert(out@[k] == x);
            }
        }
        assert forall|p: int, q: int| #![trigger out@[p], out@[q]] 0 <= p < q < out@.len() implies lex_le(
            record_bytes(out@[p]),
            record_bytes(out@[q]),
        ) by {
            assert(lex_le(sorted@[p].0@, sorted@[q].0@));
            assert(record_bytes(out@[p]) == sorted@[p].0@);
            assert(record_bytes(out@[q]) == sorted@[q].0@);
        }
        assert(sorted@.len() == keys.len());
    }
    out
}

/// The bytes under which a programs index record is kept: its owner's
/// address, then the record's own bytes.
pub open spec fn entry_bytes(e: ProgramEntry) -> Seq<u8> {
    e.owner.0@ + record_bytes((e.offset, e.pubkey))
}

fn entry_bytes_of(e: ProgramEntry) -> (r: Vec<u8>)
    ensures
        r@ == entry_bytes(e),
{
    let owner = e.owner.0;
    let mut v: Vec<u8> = Vec::new();
    let mut i: usize = 0;
    while i < 32
        invariant
            0 <= i <= 32,
            owner@.len() == 32,
            owner == e.owner.0,
            v@ == owner@.subrange(0, i as int),
        decreases 32 - i,
    {
        v.push(owner[i]);
        i = i + 1;
        proof {
            assert(v@ =~= owner@.subrange(0, i as int));
        }
    }
    proof {
        assert(owner@.subrange(0, 32) =~= owner@);
    }
    let rest = record_bytes_of((e.offset, e.pubkey));
    let mut j: usize = 0;
    while j < rest.len()
        invariant
            0 <= j <= rest@.len(),
            v@ == owner@ + rest@.subrange(0, j as int),
            owner@.subrange(0, 32) == owner@,
        decreases rest@.len() - j,
    {
        v.push(rest[j]);
        j = j + 1;
        proof {
            assert(v@ =~= owner@ + rest@.subrange(0, j as int));
        }
    }
    proof {
        assert(rest@.subrange(0, rest@.len() as int) =~= rest@);
    }
    v
}

/// `records` in the byte-wise order of their bytes under their owners.
fn sort_entries(records: Vec<ProgramEntry>) -> (r: Vec<ProgramEntry>)
    requires
        records@.no_duplicates(),
    ensures
        r@.no_duplicates(),
        r@.len() == records@.len(),
        forall|x: ProgramEntry| r@.contains(x) <==> records@.contains(x),
        forall|i: int, j: int| #![trigger r@[i], r@[j]] 0 <= i < j < r@.len() ==> lex_le(
            entry_bytes(r@[i]),
            entry_bytes(r@[j]),
        ),
{
    broadcast use vstd::seq_lib::group_to_multiset_ensures, vstd::multiset::group_multiset_axioms;

    let mut keyed: Vec<(Vec<u8>, ProgramEntry)> = Vec::new();
    let mut i: usize = 0;
    while i < records.len()
        invariant
            0 <= i <= records@.len(),
            keyed@.len() == i,
            forall|k: int| 0 <= k < i ==> (#[trigger] keyed@[k]).1 == records@[k] && keyed@[k].0@ == entry_bytes(
                records@[k],
            ),
        decreases records@.len() - i,
    {
        keyed.push((entry_bytes_of(records[i]), records[i]));
        i = i + 1;
    }
    let ghost keys = keyed@;
    proof {
        assert forall|a: int, b: int| 0 <= a < keys.len() && 0 <= b < keys.len() && a != b implies keys[a]
            != keys[b] by {
            assert(keys[a].1 == records@[a] && keys[b].1 == records@[b]);
        }
        assert(keys.no_duplicates());
        keys.lemma_multiset_has_no_duplicates();
    }
    let sorted = sort_by_key(keyed);
    proof {
        keys.to_multiset_ensures();
        sorted@.to_multiset_ensures();
        assert forall|x: (Vec<u8>, ProgramEntry)| sorted@.to_multiset().contains(x) implies sorted@.to_multiset().count(x)
            == 1 by {
            assert(keys.to_multiset().contains(x));
        }
        sorted@.lemma_multiset_has_no_duplicates_conv();
    }
    let mut out: Vec<ProgramEntry> = Vec::new();
    let mut i: usize = 0;
    while i < sorted.len()
        invariant
            0 <= i <= sorted@.len(),
            out@.len() == i,
            forall|k: int| 0 <= k < i ==> (#[trigger] out@[k]) == sorted@[k].1,
        decreases sorted@.len() - i,
    {
        out.push(sorted[i].1);
        i = i + 1;
    }
    proof {
        // each sorted item is one of the keyed items
        assert forall|k: int| 0 <= k < sorted@.len() implies exists|a: int|
            0 <= a < keys.len() && #[trigger] sorted@[k] == keys[a] by {
            assert(sorted@.contains(sorted@[k]));
            assert(sorted@.to_multiset().count(sorted@[k]) > 0);
            assert(keys.contains(sorted@[k]));
        }
        assert forall|k: int| 0 <= k < out@.len() implies entry_bytes(#[trigger] out@[k]) == sorted@[k].0@ by {
            let a = choose|a: int| 0 <= a < keys.len() && sorted@[k] == keys[a];
        }
        assert forall|p: int, q: int| 0 <= p < out@.len() && 0 <= q < out@.len() && p != q implies out@[p]
            != out@[q] by {
            let a = choose|a: int| 0 <= a < keys.len() && sorted@[p] == keys[a];
            let b = choose|b: int| 0 <= b < keys.len() && sorted@[q] == keys[b];
            assert(sorted@[p] != sorted@[q]);
            assert(a != b);
            assert(records@[a] != records@[b]);
        }
        assert forall|x: ProgramEntry| out@.contains(x) <==> records@.contains(x) by {
            if out@.contains(x) {
                let k = choose|k: int| 0 <= k < out@.len() && out@[k] == x;
                let a = choose|a: int| 0 <= a < keys.len() && sorted@[k] == keys[a];
                assert(records@[a] == x);
            }
            if records@.contains(x) {
                let a = choose|a: int| 0 <= a < records@.len() && records@[a] == x;
                assert(keys.contains(keys[a]));
                assert(keys.to_multiset().count(keys[a]) > 0);
                assert(sorted@.contains(keys[a]));
                let k = choose|k: int| 0 <= k < sorted@.len() && sorted@[k] == keys[a];
                assert(out@[k] == x);
            }
        }
        assert forall|p: int, q: int| #![trigger out@[p], out@[q]] 0 <= p < q < out@.len() implies lex_le(
            entry_bytes(out@[p]),
            entry_bytes(out@[q]),
        ) by {
            assert(lex_le(sorted@[p].0@, sorted@[q].0@));
            assert(entry_bytes(out@[p]) == sorted@[p].0@);
            assert(entry_bytes(out@[q]) == sorted@[q].0@);
        }
        assert(sorted@.len() == keys.len());
    }
    out
}

/// `entries` are the records of `records`, each once, in the byte-wise
/// order of the bytes they are kept under, and `pairs` are their (offset,
/// account) pairs in that order.
pub open spec fn in_key_order(entries: Seq<ProgramEntry>, records: Set<ProgramEntry>, pairs: Seq<(u32, Pubkey)>) -> bool {
    &&& entries.no_duplicates()
    &&& entries.to_set() == records
    &&& pairs.len() == entries.len()
    &&& forall|i: int| 0 <= i < pairs.len() ==> #[trigger] pairs[i] == (entries[i].offset, entries[i].pubkey)
    &&& forall|i: int, j: int| #![trigger entries[i], entries[j]] 0 <= i < j < entries.len() ==> lex_le(
        entry_bytes(entries[i]),
        entry_bytes(entries[j]),
    )
}

/// Index manager of the accounts database.
///
/// It keeps four indices:
/// * accounts: account address -> (block offset, block count) in main storage;
/// * programs: (owner, offset, account address) records, for lookups by owner;
/// * deallocations: free runs of blocks left behind by moved or removed accounts;
/// * owners: account address -> owner, used to clean up the programs index.
pub struct AccountsDbIndex {
    accounts: KeyedTable<(u32, u32)>,
    programs: EntrySet<ProgramEntry>,
    deallocations: EntrySet<Dealloc>,
    owners: KeyedTable<Pubkey>,
}

impl AccountsDbIndex {
    pub closed spec fn wf(&self) -> bool {
        &&& self.accounts.wf()
        &&& self.programs.wf()
        &&& self.deallocations.wf()
        &&& self.owners.wf()
    }

    /// Account address -> (offset, blocks).
    pub closed spec fn accounts_view(&self) -> Map<Pubkey, (u32, u32)> {
        self.accounts.view()
    }

    /// The programs index records.
    pub closed spec fn programs_view(&self) -> Set<ProgramEntry> {
        self.programs.view()
    }

    /// The free runs kept for recycling.
    pub closed spec fn deallocations_view(&self) -> Set<Dealloc> {
        self.deallocations.view()
    }

    /// Account address -> owner.
    pub closed spec fn owners_view(&self) -> Map<Pubkey, Pubkey> {
        self.owners.view()
    }

    /// The programs index once the record of `pubkey` at `offset` under its
    /// recorded owner is dropped.
    pub open spec fn unlinked_programs(&self, pubkey: Pubkey, offset: u32) -> Set<ProgramEntry> {
        if self.owners_view().contains_key(pubkey) {
            self.programs_view().remove(
                ProgramEntry { owner: self.owners_view()[pubkey], offset, pubkey },
            )
        } else {
            self.programs_view()
        }
    }

    /// Some programs index record carries the (offset, account) pair `p`.
    pub open spec fn records_pair(&self, p: (u32, Pubkey)) -> bool {
        exists|e: ProgramEntry| #[trigger] self.programs_view().contains(e) && e.offset == p.0 && e.pubkey == p.1
    }

    /// The indices agree: every account has exactly its owner recorded, and
    /// the programs index holds one record per account, matching both.
    pub open spec fn consistent(&self) -> bool {
        &&& self.owners_view().dom() == self.accounts_view().dom()
        &&& forall|e: ProgramEntry| #[trigger]
            self.programs_view().contains(e) ==> {
                &&& self.accounts_view().contains_key(e.pubkey)
                &&& self.owners_view()[e.pubkey] == e.owner
                &&& self.accounts_view()[e.pubkey].0 == e.offset
            }
        &&& forall|pk: Pubkey| #[trigger]
            self.accounts_view().contains_key(pk) ==> self.programs_view().contains(
                ProgramEntry {
                    owner: self.owners_view()[pk],
                    offset: self.accounts_view()[pk].0,
                    pubkey: pk,
                },
            )
    }

    /// An empty index.
    pub fn new() -> (r: Self)
        ensures
            r.wf(),
            r.consistent(),
            r.accounts_view() == Map::<Pubkey, (u32, u32)>::empty(),
            r.programs_view() == Set::<ProgramEntry>::empty(),
            r.deallocations_view() == Set::<Dealloc>::empty(),
            r.owners_view() == Map::<Pubkey, Pubkey>::empty(),
    {
        let r = AccountsDbIndex {
            accounts: KeyedTable::new(),
            programs: EntrySet::new(),
            deallocations: EntrySet::new(),
            owners: KeyedTable::new(),
        };
        assert(r.owners_view().dom() =~= r.accounts_view().dom());
        r
    }

    /// Retrieve the offset at which the account can be read from main storage.
    pub fn get_account_offset(&self, pubkey: &Pubkey) -> (r: AdbResult<u32>)
        requires
            self.wf(),
        ensures
            r == (if self.accounts_view().contains_key(*pubkey) {
                Ok::<u32, AccountsDbError>(self.accounts_view()[*pubkey].0)
            } else {
                Err::<u32, AccountsDbError>(AccountsDbError::NotFound)
            }),
    {
        match self.accounts.get(pubkey) {
            Some((offset, _)) => Ok(offset),
            None => Err(AccountsDbError::NotFound),
        }
    }

    /// Retrieve the offset and the size (number of blocks) the account occupies.
    pub fn get_allocation(&self, pubkey: &Pubkey) -> (r: AdbResult<ExistingAllocation>)
        requires
            self.wf(),
        ensures
            r == (if self.accounts_view().contains_key(*pubkey) {
                Ok::<ExistingAllocation, AccountsDbError>(
                    ExistingAllocation {
                        offset: self.accounts_view()[*pubkey].0,
                        blocks: self.accounts_view()[*pubkey].1,
                    },
                )
            } else {
                Err::<ExistingAllocation, AccountsDbError>(AccountsDbError::NotFound)
            }),
    {
        match self.accounts.get(pubkey) {
            Some((offset, blocks)) => Ok(ExistingAllocation { offset, blocks }),
            None => Err(AccountsDbError::NotFound),
        }
    }

    /// Drops the programs index record of `pubkey` at `offset` under its
    /// recorded owner, and the owner record itself.
    pub fn remove_programs_index_entry(&mut self, pubkey: &Pubkey, offset: u32)
        requires
            old(self).wf(),
        ensures
            final(self).wf(),
            final(self).programs_view() == old(self).unlinked_programs(*pubkey, offset),
            final(self).owners_view() == old(self).owners_view().remove(*pubkey),
            final(self).accounts_view() == old(self).accounts_view(),
            final(self).deallocations_view() == old(self).deallocations_view(),
    {
        match self.owners.get(pubkey) {
            Some(owner) => {
                let entry = ProgramEntry { owner, offset, pubkey: *pubkey };
                self.programs.remove(&entry);
                self.owners.remove(pubkey);
            },
            None => {
                proof {
                    assert(self.owners_view() =~= self.owners_view().remove(*pubkey));
                }
            },
        }
    }

    /// Move an indexed account to a new allocation, recording its previous
    /// run as free; returns the previous run. An account that is not
    /// indexed is not found.
    pub fn reallocate_account(&mut self, pubkey: &Pubkey, offset: u32, blocks: u32) -> (r: AdbResult<ExistingAllocation>)
        requires
            old(self).wf(),
        ensures
            final(self).wf(),
            !old(self).accounts_view().contains_key(*pubkey) ==> r == Err::<ExistingAllocation, AccountsDbError>(
                AccountsDbError::NotFound,
            ) && *final(self) == *old(self),
            old(self).accounts_view().contains_key(*pubkey) ==> {
                &&& r == Ok::<ExistingAllocation, AccountsDbError>(
                    ExistingAllocation {
                        offset: old(self).accounts_view()[*pubkey].0,
                        blocks: old(self).accounts_view()[*pubkey].1,
                    },
                )
                &&& final(self).accounts_view() == old(self).accounts_view().insert(*pubkey, (offset, blocks))
                &&& final(self).deallocations_view() == old(self).deallocations_view().insert(
                    Dealloc {
                        offset: old(self).accounts_view()[*pubkey].0,
                        blocks: old(self).accounts_view()[*pubkey].1,
                    },
                )
                &&& final(self).programs_view() == old(self).unlinked_programs(
                    *pubkey,
                    old(self).accounts_view()[*pubkey].0,
                )
                &&& final(self).owners_view() == old(self).owners_view().remove(*pubkey)
            },
    {
        let allocation = match self.get_allocation(pubkey) {
            Ok(a) => a,
            Err(e) => return Err(e),
        };
        self.deallocations.insert(Dealloc { offset: allocation.offset, blocks: allocation.blocks });
        self.accounts.insert(*pubkey, (offset, blocks));
        self.remove_programs_index_entry(pubkey, allocation.offset);
        Ok(allocation)
    }

    /// Insert the account's allocation into the indices; if the account is
    /// already present, its previous run is recorded as free and returned.
    pub fn insert_account(&mut self, pubkey: &Pubkey, owner: &Pubkey, allocation: Allocation) -> (r: AdbResult<Option<ExistingAllocation>>)
        requires
            old(self).wf(),
        ensures
            final(self).wf(),
            old(self).consistent() ==> final(self).consistent(),
            final(self).accounts_view() == old(self).accounts_view().insert(
                *pubkey,
                (allocation.offset, allocation.blocks),
            ),
            final(self).owners_view() == old(self).owners_view().insert(*pubkey, *owner),
            old(self).accounts_view().contains_key(*pubkey) ==> {
                let prev = old(self).accounts_view()[*pubkey];
                &&& r == Ok::<Option<ExistingAllocation>, AccountsDbError>(
                    Some(ExistingAllocation { offset: prev.0, blocks: prev.1 }),
                )
                &&& final(self).deallocations_view() == old(self).deallocations_view().insert(
                    Dealloc { offset: prev.0, blocks: prev.1 },
                )
                &&& final(self).programs_view() == old(self).unlinked_programs(*pubkey, prev.0).insert(
                    ProgramEntry { owner: *owner, offset: allocation.offset, pubkey: *pubkey },
                )
            },
            !old(self).accounts_view().contains_key(*pubkey) ==> {
                &&& r == Ok::<Option<ExistingAllocation>, AccountsDbError>(None)
                &&& final(self).deallocations_view() == old(self).deallocations_view()
                &&& final(self).programs_view() == old(self).programs_view().insert(
                    ProgramEntry { owner: *owner, offset: allocation.offset, pubkey: *pubkey },
                )
            },
    {
        let ghost pre = *self;
        let mut dealloc: Option<ExistingAllocation> = None;
        if self.accounts.get(pubkey).is_some() {
            match self.reallocate_account(pubkey, allocation.offset, allocation.blocks) {
                Ok(previous) => {
                    dealloc = Some(previous);
                },
                Err(e) => return Err(e),
            }
        } else {
            self.accounts.insert(*pubkey, (allocation.offset, allocation.blocks));
        }
        let ghost mid = *self;
        self.programs.insert(ProgramEntry { owner: *owner, offset: allocation.offset, pubkey: *pubkey });
        self.owners.insert(*pubkey, *owner);
        proof {
            assert(self.owners_view() =~= pre.owners_view().insert(*pubkey, *owner));
            if pre.consistent() {
                assert(self.owners_view().dom() =~= self.accounts_view().dom());
                assert forall|e: ProgramEntry| #[trigger] self.programs_view().contains(e) implies {
                    &&& self.accounts_view().contains_key(e.pubkey)
                    &&& self.owners_view()[e.pubkey] == e.owner
                    &&& self.accounts_view()[e.pubkey].0 == e.offset
                } by {
                    if e.pubkey != *pubkey {
                        assert(pre.programs_view().contains(e));
                    } else if e != (ProgramEntry { owner: *owner, offset: allocation.offset, pubkey: *pubkey }) {
                        assert(pre.programs_view().contains(e));
                        if pre.accounts_view().contains_key(*pubkey) {
                            assert(pre.owners_view().contains_key(*pubkey));
                            assert(e == ProgramEntry {
                                owner: pre.owners_view()[*pubkey],
                                offset: pre.accounts_view()[*pubkey].0,
                                pubkey: *pubkey,
                            });
                        }
                    }
                }
                assert forall|pk: Pubkey| #[trigger] self.accounts_view().contains_key(pk) implies self.programs_view().contains(
                    ProgramEntry {
                        owner: self.owners_view()[pk],
                        offset: self.accounts_view()[pk].0,
                        pubkey: pk,
                    },
                ) by {
                    if pk != *pubkey {
                        assert(pre.accounts_view().contains_key(pk));
                        let e = ProgramEntry {
                            owner: pre.owners_view()[pk],
                            offset: pre.accounts_view()[pk].0,
                            pubkey: pk,
                        };
                        assert(pre.programs_view().contains(e));
                    }
                }
            }
        }
        Ok(dealloc)
    }

    /// Removes the account from the indices and marks its run for recycling.
    pub fn remove_account(&mut self, pubkey: &Pubkey) -> (r: AdbResult<()>)
        requires
            old(self).wf(),
        ensures
            final(self).wf(),
            r == Ok::<(), AccountsDbError>(()),
            old(self).consistent() ==> final(self).consistent(),
            final(self).accounts_view() == old(self).accounts_view().remove(*pubkey),
            old(self).accounts_view().contains_key(*pubkey) ==> {
                let prev = old(self).accounts_view()[*pubkey];
                &&& final(self).deallocations_view() == old(self).deallocations_view().insert(
                    Dealloc { offset: prev.0, blocks: prev.1 },
                )
                &&& final(self).programs_view() == old(self).unlinked_programs(*pubkey, prev.0)
                &&& final(self).owners_view() == old(self).owners_view().remove(*pubkey)
            },
            !old(self).accounts_view().contains_key(*pubkey) ==> {
                &&& final(self).deallocations_view() == old(self).deallocations_view()
                &&& final(self).programs_view() == old(self).programs_view()
                &&& final(self).owners_view() == old(self).owners_view()
            },
    {
        let ghost pre = *self;
        if self.accounts.get(pubkey).is_none() {
            proof {
                assert(self.accounts_view() =~= pre.accounts_view().remove(*pubkey));
            }
            return Ok(());
        }
        let (offset, blocks) = match self.accounts.remove(pubkey) {
            Some(found) => found,
            None => return Ok(()),
        };
        self.deallocations.insert(Dealloc { offset, blocks });
        self.remove_programs_index_entry(pubkey, offset);
        proof {
            if pre.consistent() {
                assert(self.owners_view().dom() =~= self.accounts_view().dom());
                assert forall|e: ProgramEntry| #[trigger] self.programs_view().contains(e) implies {
                    &&& self.accounts_view().contains_key(e.pubkey)
                    &&& self.owners_view()[e.pubkey] == e.owner
                    &&& self.accounts_view()[e.pubkey].0 == e.offset
                } by {
                    assert(pre.programs_view().contains(e));
                    if e.pubkey == *pubkey {
                        assert(pre.owners_view().contains_key(*pubkey));
                        assert(e == ProgramEntry { owner: pre.owners_view()[*pubkey], offset, pubkey: *pubkey });
                    }
                }
                assert forall|pk: Pubkey| #[trigger] self.accounts_view().contains_key(pk) implies self.programs_view().contains(
                    ProgramEntry {
                        owner: self.owners_view()[pk],
                        offset: self.accounts_view()[pk].0,
                        pubkey: pk,
                    },
                ) by {
                    assert(pre.accounts_view().contains_key(pk));
                    let e = ProgramEntry {
                        owner: pre.owners_view()[pk],
                        offset: pre.accounts_view()[pk].0,
                        pubkey: pk,
                    };
                    assert(pre.programs_view().contains(e));
                }
            }
        }
        Ok(())
    }

    /// Ensures that the owner recorded for the account matches `owner`; if
    /// not, the stale programs record is dropped and the current one added.
    pub fn ensure_correct_owner(&mut self, pubkey: &Pubkey, owner: &Pubkey) -> (r: AdbResult<()>)
        requires
            old(self).wf(),
        ensures
            final(self).wf(),
            old(self).consistent() ==> final(self).consistent(),
            final(self).accounts_view() == old(self).accounts_view(),
            final(self).deallocations_view() == old(self).deallocations_view(),
            !old(self).owners_view().contains_key(*pubkey) || old(self).owners_view()[*pubkey] == *owner ==> {
                &&& r == Ok::<(), AccountsDbError>(())
                &&& final(self).programs_view() == old(self).programs_view()
                &&& final(self).owners_view() == old(self).owners_view()
            },
            old(self).owners_view().contains_key(*pubkey) && old(self).owners_view()[*pubkey] != *owner
                && !old(self).accounts_view().contains_key(*pubkey) ==> {
                &&& r == Err::<(), AccountsDbError>(AccountsDbError::NotFound)
                &&& final(self).programs_view() == old(self).programs_view()
                &&& final(self).owners_view() == old(self).owners_view()
            },
            old(self).owners_view().contains_key(*pubkey) && old(self).owners_view()[*pubkey] != *owner
                && old(self).accounts_view().contains_key(*pubkey) ==> {
                &&& r == Ok::<(), AccountsDbError>(())
                &&& final(self).programs_view() == old(self).unlinked_programs(
                    *pubkey,
                    old(self).accounts_view()[*pubkey].0,
                ).insert(
                    ProgramEntry {
                        owner: *owner,
                        offset: old(self).accounts_view()[*pubkey].0,
                        pubkey: *pubkey,
                    },
                )
                &&& final(self).owners_view() == old(self).owners_view().insert(*pubkey, *owner)
            },
    {
        let ghost pre = *self;
        match self.owners.get(pubkey) {
            Some(current) => {
                if current.same_as(owner) {
                    return Ok(());
                }
            },
            None => return Ok(()),
        }
        let allocation = match self.get_allocation(pubkey) {
            Ok(a) => a,
            Err(e) => return Err(e),
        };
        self.remove_programs_index_entry(pubkey, allocation.offset);
        self.programs.insert(ProgramEntry { owner: *owner, offset: allocation.offset, pubkey: *pubkey });
        self.owners.insert(*pubkey, *owner);
        proof {
            assert(self.owners_view() =~= pre.owners_view().insert(*pubkey, *owner));
            if pre.consistent() {
                assert(self.owners_view().dom() =~= self.accounts_view().dom());
                assert forall|e: ProgramEntry| #[trigger] self.programs_view().contains(e) implies {
                    &&& self.accounts_view().contains_key(e.pubkey)
                    &&& self.owners_view()[e.pubkey] == e.owner
                    &&& self.accounts_view()[e.pubkey].0 == e.offset
                } by {
                    if e.pubkey != *pubkey {
                        assert(pre.programs_view().contains(e));
                    }
                }
                assert forall|pk: Pubkey| #[trigger] self.accounts_view().contains_key(pk) implies self.programs_view().contains(
                    ProgramEntry {
                        owner: self.owners_view()[pk],
                        offset: self.accounts_view()[pk].0,
                        pubkey: pk,
                    },
                ) by {
                    if pk != *pubkey {
                        let e = ProgramEntry {
                            owner: pre.owners_view()[pk],
                            offset: pre.accounts_view()[pk].0,
                            pubkey: pk,
                        };
                        assert(pre.programs_view().contains(e));
                    }
                }
            }
        }
        Ok(())
    }

    /// Takes a recorded free run of at least `space` blocks: the first one in
    /// `dealloc_before` order among those large enough.
    pub fn try_recycle_allocation(&mut self, space: u32) -> (r: AdbResult<ExistingAllocation>)
        requires
            old(self).wf(),
        ensures
            final(self).wf(),
            final(self).accounts_view() == old(self).accounts_view(),
            final(self).programs_view() == old(self).programs_view(),
            final(self).owners_view() == old(self).owners_view(),
            (exists|d: Dealloc| #[trigger] old(self).deallocations_view().contains(d) && d.blocks >= space)
                <==> r is Ok,
            r matches Ok(a) ==> {
                let taken = Dealloc { offset: a.offset, blocks: a.blocks };
                &&& old(self).deallocations_view().contains(taken)
                &&& a.blocks >= space
                &&& forall|d: Dealloc| #[trigger] old(self).deallocations_view().contains(d) && d.blocks >= space
                    ==> dealloc_before(taken, d)
                &&& final(self).deallocations_view() == old(self).deallocations_view().remove(taken)
            },
            r matches Err(e) ==> e == AccountsDbError::NotFound && final(self).deallocations_view()
                == old(self).deallocations_view(),
    {
        let all = self.deallocations.to_vec();
        proof {
            self.deallocations.lemma_order();
        }
        let mut best: Option<usize> = None;
        let mut i: usize = 0;
        while i < all.len()
            invariant
                0 <= i <= all@.len(),
                all@.to_set() == self.deallocations_view(),
                best matches Some(b) ==> b < i && all@[b as int].blocks >= space,
                forall|j: int| 0 <= j < i && (#[trigger] all@[j]).blocks >= space ==> (best matches Some(
                    b,
                ) && dealloc_before(all@[b as int], all@[j])),
            decreases all@.len() - i,
        {
            let d = all[i];
            if d.blocks >= space {
                let better = match best {
                    None => true,
                    Some(b) => d.blocks < all[b].blocks || (d.blocks == all[b].blocks && dup_rank_of(d.offset)
                        < dup_rank_of(all[b].offset)),
                };
                if better {
                    best = Some(i);
                }
            }
            i = i + 1;
        }
        match best {
            Some(bi) => {
                let b = all[bi];
                proof {
                    assert(all@.to_set().contains(all@[bi as int]));
                    assert forall|d: Dealloc| #[trigger] self.deallocations_view().contains(d) && d.blocks >= space
                        implies dealloc_before(b, d) by {
                        let j = choose|j: int| 0 <= j < all@.len() && all@[j] == d;
                        assert(all@[j].blocks >= space);
                    }
                }
                self.deallocations.remove(&b);
                Ok(ExistingAllocation { offset: b.offset, blocks: b.blocks })
            },
            None => {
                proof {
                    assert forall|d: Dealloc| #[trigger] self.deallocations_view().contains(d) implies d.blocks < space by {
                        let j = choose|j: int| 0 <= j < all@.len() && all@[j] == d;
                        if all@[j].blocks >= space {
                            assert(best is Some);
                        }
                    }
                }
                Err(AccountsDbError::NotFound)
            },
        }
    }

    /// The (offset, account) pairs of every account owned by `program`; fails
    /// with `NotFound` when the program owns no account.
    pub fn get_program_accounts_iter(&self, program: &Pubkey) -> (r: AdbResult<Vec<(u32, Pubkey)>>)
        requires
            self.wf(),
        ensures
            (exists|e: ProgramEntry| #[trigger] self.programs_view().contains(e) && e.owner == *program)
                <==> r is Ok,
            r matches Err(e) ==> e == AccountsDbError::NotFound,
            r matches Ok(v) ==> {
                &&& v@.no_duplicates()
                &&& forall|i: int| 0 <= i < v@.len() ==> self.programs_view().contains(
                    ProgramEntry { owner: *program, offset: (#[trigger] v@[i]).0, pubkey: v@[i].1 },
                )
                &&& forall|e: ProgramEntry| #[trigger] self.programs_view().contains(e) && e.owner == *program
                    ==> v@.contains((e.offset, e.pubkey))
                &&& forall|i: int, j: int| #![trigger v@[i], v@[j]] 0 <= i < j < v@.len() ==> lex_le(
                    record_bytes(v@[i]),
                    record_bytes(v@[j]),
                )
            },
    {
        let all = self.programs.to_vec();
        proof {
            self.programs.lemma_order();
        }
        let mut out: Vec<(u32, Pubkey)> = Vec::new();
        let mut i: usize = 0;
        while i < all.len()
            invariant
                0 <= i <= all@.len(),
                all@.to_set() == self.programs_view(),
                all@.no_duplicates(),
                out@.no_duplicates(),
                forall|k: int| 0 <= k < out@.len() ==> came_from(all@, i as int, *program, #[trigger] out@[k]),
                forall|j: int| 0 <= j < i && (#[trigger] all@[j]).owner == *program ==> out@.contains(
                    (all@[j].offset, all@[j].pubkey),
                ),
            decreases all@.len() - i,
        {
            let e = all[i];
            if e.owner.same_as(program) {
                proof {
                    assert(!out@.contains((e.offset, e.pubkey))) by {
                        if out@.contains((e.offset, e.pubkey)) {
                            let k = choose|k: int| 0 <= k < out@.len() && out@[k] == (e.offset, e.pubkey);
                            assert(came_from(all@, i as int, *program, out@[k]));
                            let j = choose|j: int| 0 <= j < i && (#[trigger] all@[j]).owner == *program
                                && all@[j].offset == out@[k].0 && all@[j].pubkey == out@[k].1;
                            assert(all@[j] == all@[i as int]);
                        }
                    }
                }
                let ghost pre = out@;
                out.push((e.offset, e.pubkey));
                proof {
                    assert forall|k: int| 0 <= k < out@.len() implies came_from(all@, i + 1, *program, #[trigger] out@[k]) by {
                        if k == pre.len() {
                            assert(all@[i as int].owner == *program);
                        } else {
                            assert(out@[k] == pre[k]);
                            assert(came_from(all@, i as int, *program, pre[k]));
                            let j = choose|j: int| 0 <= j < i && (#[trigger] all@[j]).owner == *program
                                && all@[j].offset == pre[k].0 && all@[j].pubkey == pre[k].1;
                            assert(all@[j].owner == *program);
                        }
                    }
                    assert forall|j: int| 0 <= j < i + 1 && (#[trigger] all@[j]).owner == *program implies out@.contains(
                        (all@[j].offset, all@[j].pubkey),
                    ) by {
                        if j == i {
                            assert(out@[pre.len() as int] == (e.offset, e.pubkey));
                        } else {
                            let k = choose|k: int| 0 <= k < pre.len() && pre[k] == (all@[j].offset, all@[j].pubkey);
                            assert(out@[k] == pre[k]);
                        }
                    }
                }
            }
            i = i + 1;
        }
        proof {
            assert forall|e: ProgramEntry| #[trigger] self.programs_view().contains(e) && e.owner == *program
                implies out@.contains((e.offset, e.pubkey)) by {
                let j = choose|j: int| 0 <= j < all@.len() && all@[j] == e;
                assert(all@[j].owner == *program);
            }
            assert forall|k: int| 0 <= k < out@.len() implies self.programs_view().contains(
                ProgramEntry { owner: *program, offset: (#[trigger] out@[k]).0, pubkey: out@[k].1 },
            ) by {
                assert(came_from(all@, i as int, *program, out@[k]));
                let j = choose|j: int| 0 <= j < i && (#[trigger] all@[j]).owner == *program
                    && all@[j].offset == out@[k].0 && all@[j].pubkey == out@[k].1;
                assert(all@[j] == ProgramEntry { owner: *program, offset: out@[k].0, pubkey: out@[k].1 });
                assert(all@.to_set().contains(all@[j]));
            }
        }
        if out.len() == 0 {
            proof {
                assert forall|e: ProgramEntry| #[trigger] self.programs_view().contains(e) implies e.owner != *program by {
                    if e.owner == *program {
                        assert(out@.contains((e.offset, e.pubkey)));
                    }
                }
            }
            return Err(AccountsDbError::NotFound);
        }
        proof {
            let k = 0int;
            assert(self.programs_view().contains(
                ProgramEntry { owner: *program, offset: out@[k].0, pubkey: out@[k].1 },
            ));
        }
        let sorted = sort_records(out);
        proof {
            assert forall|i: int| 0 <= i < sorted@.len() implies self.programs_view().contains(
                ProgramEntry { owner: *program, offset: (#[trigger] sorted@[i]).0, pubkey: sorted@[i].1 },
            ) by {
                assert(sorted@.contains(sorted@[i]));
                let k = choose|k: int| 0 <= k < out@.len() && out@[k] == sorted@[i];
                assert(self.programs_view().contains(
                    ProgramEntry { owner: *program, offset: out@[k].0, pubkey: out@[k].1 },
                ));
            }
            assert forall|e: ProgramEntry| #[trigger] self.programs_view().contains(e) && e.owner == *program
                implies sorted@.contains((e.offset, e.pubkey)) by {
                assert(out@.contains((e.offset, e.pubkey)));
            }
        }
        Ok(sorted)
    }

    /// The (offset, account) pairs of every record of the programs index;
    /// fails with `NotFound` when the index is empty.
    pub fn get_all_accounts(&self) -> (r: AdbResult<Vec<(u32, Pubkey)>>)
        requires
            self.wf(),
        ensures
            (self.programs_view() == Set::<ProgramEntry>::empty()) <==> r is Err,
            r matches Err(e) ==> e == AccountsDbError::NotFound,
            r matches Ok(v) ==> {
                &&& v@.len() == self.programs_view().len()
                &&& forall|i: int| 0 <= i < v@.len() ==> self.records_pair(#[trigger] v@[i])
                &&& forall|e: ProgramEntry| #[trigger] self.programs_view().contains(e) ==> v@.contains(
                    (e.offset, e.pubkey),
                )
                &&& exists|s: Seq<ProgramEntry>| #[trigger] in_key_order(s, self.programs_view(), v@)
            },
    {
        if self.programs.is_empty() {
            return Err(AccountsDbError::NotFound);
        }
        let unsorted = self.programs.to_vec();
        proof {
            self.programs.lemma_order();
        }
        let all = sort_entries(unsorted);
        proof {
            assert(all@.to_set() =~= self.programs_view()) by {
                assert forall|e: ProgramEntry| all@.to_set().contains(e) <==> unsorted@.contains(e) by {}
            }
            all@.unique_seq_to_set();
        }
        let mut out: Vec<(u32, Pubkey)> = Vec::new();
        let mut i: usize = 0;
        while i < all.len()
            invariant
                0 <= i <= all@.len(),
                out@.len() == i,
                forall|k: int| 0 <= k < i ==> (#[trigger] out@[k]) == (all@[k].offset, all@[k].pubkey),
            decreases all@.len() - i,
        {
            out.push((all[i].offset, all[i].pubkey));
            i = i + 1;
        }
        proof {
            assert forall|k: int| 0 <= k < out@.len() implies self.records_pair(#[trigger] out@[k]) by {
                assert(all@.to_set().contains(all@[k]));
                assert(self.programs_view().contains(all@[k]) && all@[k].offset == out@[k].0
                    && all@[k].pubkey == out@[k].1);
            }
            assert forall|e: ProgramEntry| #[trigger] self.programs_view().contains(e) implies out@.contains(
                (e.offset, e.pubkey),
            ) by {
                let j = choose|j: int| 0 <= j < all@.len() && all@[j] == e;
                assert(out@[j] == (e.offset, e.pubkey));
            }
            assert(out@.len() == all@.len());
            assert(all@.to_set().len() == all@.len());
            assert(out@.len() == self.programs_view().len());
            assert(in_key_order(all@, self.programs_view(), out@));
        }
        Ok(out)
    }
}

} // verus!
