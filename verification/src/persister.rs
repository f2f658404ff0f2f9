use vstd::prelude::*;

use crate::snapshot::{parse_u64, spec_parse_u64};

verus! {

/// The byte that separates the slot from the storage id in a storage
/// file's name.
pub const DOT: u8 = 46;

/// How many slots pass each time before accounts are flushed to disk.
pub const FLUSH_ACCOUNTS_SLOT_FREQ: u64 = 500;

/// How many slots pass between two cleanups of old storage files.
pub const STORAGE_CLEANUP_SLOT_FREQ: u64 = 2500;

/// What parsing `s` as a `u32` gives.
pub open spec fn spec_parse_u32(s: Seq<u8>) -> Option<u32> {
    match spec_parse_u64(s) {
        Some(v) => if v <= u32::MAX {
            Some(v as u32)
        } else {
            None
        },
        None => None,
    }
}

/// The position of the first dot in `s` at or after `from`, or `s.len()`.
pub open spec fn dot_from(s: Seq<u8>, from: int) -> int
    decreases s.len() - from,
{
    if from >= s.len() {
        s.len() as int
    } else if s[from] == DOT {
        from
    } else {
        dot_from(s, from + 1)
    }
}

/// The slot and storage id that a storage file's name `<slot>.<id>`
/// holds: exactly one dot, a slot that parses as a `u64` and an id that
/// parses as a `u32`.
pub open spec fn storage_file_name(name: Seq<u8>) -> Option<(u64, u32)> {
    let d = dot_from(name, 0);
    if d >= name.len() || dot_from(name, d + 1) < name.len() {
        None
    } else {
        match (spec_parse_u64(name.subrange(0, d)), spec_parse_u32(name.subrange(d + 1, name.len() as int))) {
            (Some(slot), Some(id)) => Some((slot, id)),
            _ => None,
        }
    }
}

/// The slot that a storage file's name begins with: the text before its
/// first dot (all of it when there is none), parsed as a `u64`.
pub open spec fn storage_file_slot(name: Seq<u8>) -> Option<u64> {
    spec_parse_u64(name.subrange(0, dot_from(name, 0)))
}

proof fn lemma_dot_from(s: Seq<u8>, from: int)
    requires
        0 <= from <= s.len(),
    ensures
        from <= dot_from(s, from) <= s.len(),
        dot_from(s, from) < s.len() ==> s[dot_from(s, from)] == DOT,
        forall|i: int| from <= i < dot_from(s, from) ==> s[i] != DOT,
    decreases s.len() - from,
{
    if from < s.len() && s[from] != DOT {
        lemma_dot_from(s, from + 1);
    }
}

fn find_dot(b: &[u8], from: usize) -> (r: usize)
    requires
        from <= b@.len(),
    ensures
        r == dot_from(b@, from as int),
{
    let mut i = from;
    while i < b.len() && b[i] != DOT
        invariant
            from <= i <= b@.len(),
            dot_from(b@, from as int) == dot_from(b@, i as int),
        decreases b@.len() - i,
    {
        i = i + 1;
    }
    i
}

/// Parses a storage file's name `<slot>.<id>`.
pub fn parse_storage_file_name(name: &[u8]) -> (r: Option<(u64, u32)>)
    ensures
        r == storage_file_name(name@),
{
    let d = find_dot(name, 0);
    proof {
        lemma_dot_from(name@, 0);
    }
    if d >= name.len() {
        return None;
    }
    let d2 = find_dot(name, d + 1);
    if d2 < name.len() {
        return None;
    }
    let slot = parse_u64(name, 0, d);
    let id = match parse_u64(name, d + 1, name.len()) {
        Some(v) => if v <= 0xffff_ffffu64 {
            Some(v as u32)
        } else {
            None
        },
        None => None,
    };
    match (slot, id) {
        (Some(s), Some(i)) => Some((s, i)),
        _ => None,
    }
}

/// The slot a storage file's name begins with.
pub fn parse_storage_file_slot(name: &[u8]) -> (r: Option<u64>)
    ensures
        r == storage_file_slot(name@),
{
    let d = find_dot(name, 0);
    proof {
        lemma_dot_from(name@, 0);
    }
    parse_u64(name, 0, d)
}

/// Whether storage `(slot_a, id_a)` is more recent than `(slot_b, id_b)`:
/// a later slot, or the same slot and a larger id.
pub open spec fn more_recent(a: (u64, u32), b: (u64, u32)) -> bool {
    a.0 > b.0 || (a.0 == b.0 && a.1 > b.1)
}

/// The position of the store to load among `files`: the most recent one
/// whose slot is at most `max_slot`, the first of equals.
pub open spec fn is_most_recent_store(files: Seq<(u64, u32)>, max_slot: u64, i: int) -> bool {
    &&& 0 <= i < files.len()
    &&& files[i].0 <= max_slot
    &&& forall|j: int| 0 <= j < files.len() && files[j].0 <= max_slot ==> !more_recent(files[j], files[i])
    &&& forall|j: int| 0 <= j < i && files[j].0 <= max_slot ==> more_recent(files[i], files[j])
}

/// Picks the store to load: the most recent storage file (by slot, then
/// id) whose slot is at most `max_slot`; none if every file is later.
pub fn select_most_recent_store(files: &Vec<(u64, u32)>, max_slot: u64) -> (r: Option<usize>)
    ensures
        r matches Some(i) ==> is_most_recent_store(files@, max_slot, i as int),
        r is None <==> forall|j: int| 0 <= j < files@.len() ==> files@[j].0 > max_slot,
{
    let mut best: Option<usize> = None;
    let mut i: usize = 0;
    while i < files.len()
        invariant
            0 <= i <= files@.len(),
            best matches Some(b) ==> b < i && is_most_recent_store(files@.subrange(0, i as int), max_slot, b as int),
            best is None ==> forall|j: int| 0 <= j < i ==> files@[j].0 > max_slot,
        decreases files@.len() - i,
    {
        let (slot, id) = files[i];
        if slot <= max_slot {
            match best {
                None => {
                    best = Some(i);
                },
                Some(b) => {
                    let (bs, bi) = files[b];
                    if slot > bs || (slot == bs && id > bi) {
                        best = Some(i);
                    }
                },
            }
        }
        proof {
            let sub = files@.subrange(0, i + 1);
            if let Some(b) = best {
                assert forall|j: int| 0 <= j < sub.len() && sub[j].0 <= max_slot implies !more_recent(sub[j], sub[b as int]) by {
                    if j < i {
                        assert(files@.subrange(0, i as int)[j] == sub[j]);
                    }
                }
                assert forall|j: int| 0 <= j < b && sub[j].0 <= max_slot implies more_recent(sub[b as int], sub[j]) by {
                    assert(files@.subrange(0, i as int)[j] == sub[j]);
                }
            }
        }
        i = i + 1;
    }
    proof {
        assert(files@.subrange(0, files@.len() as int) =~= files@);
    }
    best
}

/// What the persister keeps between flushes: the id the next storage file
/// gets, and when old storage files were last cleaned up.
pub struct PersisterState {
    pub next_id: u32,
    pub storage_cleanup_slot_freq: u64,
    pub last_storage_cleanup_slot: u64,
}

impl PersisterState {
    /// The first id is zero; old files are cleaned up every
    /// `STORAGE_CLEANUP_SLOT_FREQ` slots.
    pub fn new() -> (r: Self)
        ensures
            r.next_id == 0,
            r.storage_cleanup_slot_freq == STORAGE_CLEANUP_SLOT_FREQ,
            r.last_storage_cleanup_slot == 0,
    {
        PersisterState { next_id: 0, storage_cleanup_slot_freq: 5 * FLUSH_ACCOUNTS_SLOT_FREQ, last_storage_cleanup_slot: 0 }
    }

    /// Takes the id of the next storage file. Ids are never reused: the last
    /// id is never handed out.
    pub fn next_id(&mut self) -> (r: u32)
        requires
            old(self).next_id < u32::MAX,
        ensures
            r == old(self).next_id,
            final(self).next_id == old(self).next_id + 1,
            final(self).storage_cleanup_slot_freq == old(self).storage_cleanup_slot_freq,
            final(self).last_storage_cleanup_slot == old(self).last_storage_cleanup_slot,
    {
        let id = self.next_id;
        self.next_id = id + 1;
        id
    }

    /// Decides, after flushing `slot`, whether old storage files are cleaned
    /// up: once `storage_cleanup_slot_freq` slots passed since the last
    /// cleanup. If so, the cleanup is recorded at `slot` and the last slot
    /// whose files are deleted is returned.
    pub fn cleanup_after_flush(&mut self, slot: u64) -> (r: Option<u64>)
        ensures
            final(self).next_id == old(self).next_id,
            final(self).storage_cleanup_slot_freq == old(self).storage_cleanup_slot_freq,
            ({
                let since = if slot >= old(self).last_storage_cleanup_slot {
                    slot - old(self).last_storage_cleanup_slot
                } else {
                    0
                };
                if since >= old(self).storage_cleanup_slot_freq {
                    &&& r == Some(
                        (if slot >= old(self).storage_cleanup_slot_freq {
                            slot - old(self).storage_cleanup_slot_freq
                        } else {
                            0
                        }) as u64,
                    )
                    &&& final(self).last_storage_cleanup_slot == slot
                } else {
                    &&& r is None
                    &&& final(self).last_storage_cleanup_slot == old(self).last_storage_cleanup_slot
                }
            }),
    {
        let since = slot.saturating_sub(self.last_storage_cleanup_slot);
        if since >= self.storage_cleanup_slot_freq {
            let keep_after = slot.saturating_sub(self.storage_cleanup_slot_freq);
            self.last_storage_cleanup_slot = slot;
            Some(keep_after)
        } else {
            None
        }
    }
}

/// Whether a storage file of `slot` is deleted by a cleanup that keeps the
/// files after `keep_after`.
pub fn is_expired_storage(slot: u64, keep_after: u64) -> (r: bool)
    ensures
        r == (slot <= keep_after),
{
    slot <= keep_after
}

} // verus!
