use vstd::prelude::*;

verus! {

/// Accounts are stored aligned to this many bytes, so an offset is kept
/// divided by it.
pub const ALIGN_BOUNDARY_OFFSET: usize = 8;

/// The reduced offset that marks an account held in the write cache rather
/// than in a storage file: the largest value of 31 bits, which no stored
/// account can have.
pub const CACHED_OFFSET: u32 = 0x7fff_ffff;

/// The storage id of accounts held in the write cache.
pub const CACHE_VIRTUAL_STORAGE_ID: u32 = 0xffff_ffff;

/// Where an account is stored.
#[derive(Clone, Copy, Debug, PartialEq, Eq)]
pub enum StorageLocation {
    /// In the storage file with this id, at this byte offset.
    AppendVec(u32, usize),
    /// In the write cache.
    Cached,
}

impl StorageLocation {
    /// Whether the account is in the write cache.
    pub fn is_cached(&self) -> (r: bool)
        ensures
            r == (*self is Cached),
    {
        match self {
            StorageLocation::Cached => true,
            _ => false,
        }
    }
}

/// Where an account is stored and whether it holds no lamports, packed in
/// two words: the storage id, and 31 bits of reduced offset below a flag
/// bit for zero lamports.
#[derive(Clone, Copy, Debug, PartialEq, Eq, Structural)]
pub struct AccountInfo {
    pub store_id: u32,
    pub packed_offset_and_flags: u32,
}

/// The packed word for a reduced offset and the zero-lamport flag.
pub open spec fn pack(offset_reduced: u32, is_zero_lamport: bool) -> u32 {
    offset_reduced | (if is_zero_lamport { 0x8000_0000u32 } else { 0u32 })
}

/// Whether a storage offset can be recorded: it is aligned, and its reduced
/// form fits in 31 bits without being the cache marker.
pub open spec fn storable_offset(offset: usize) -> bool {
    offset % 8 == 0 && offset / 8 < CACHED_OFFSET
}

impl AccountInfo {
    /// The reduced offset, the low 31 bits of the packed word.
    pub open spec fn offset_reduced(self) -> u32 {
        self.packed_offset_and_flags & 0x7fff_ffffu32
    }

    /// The zero-lamport flag, the top bit of the packed word.
    pub open spec fn zero_lamport_flag(self) -> bool {
        self.packed_offset_and_flags & 0x8000_0000u32 != 0
    }

    /// Records where an account holding `lamports` is stored. An account in
    /// a storage file needs an offset that can be recorded exactly.
    pub fn new(storage_location: StorageLocation, lamports: u64) -> (r: Self)
        requires
            storage_location matches StorageLocation::AppendVec(_, offset) ==> storable_offset(offset),
        ensures
            r.zero_lamport_flag() == (lamports == 0),
            storage_location is Cached ==> r.store_id == CACHE_VIRTUAL_STORAGE_ID && r.offset_reduced() == CACHED_OFFSET,
            storage_location matches StorageLocation::AppendVec(id, offset) ==> r.store_id == id
                && r.offset_reduced() == offset / 8 && Self::reduced_offset_to_offset_spec(r.offset_reduced()) == offset,
            r.packed_offset_and_flags == pack(r.offset_reduced(), lamports == 0),
    {
        let (store_id, reduced) = match storage_location {
            StorageLocation::AppendVec(store_id, offset) => (store_id, Self::get_reduced_offset(offset)),
            StorageLocation::Cached => (CACHE_VIRTUAL_STORAGE_ID, CACHED_OFFSET),
        };
        let zero = lamports == 0;
        let flag: u32 = if zero { 0x8000_0000u32 } else { 0u32 };
        let packed = reduced | flag;
        proof {
            assert(reduced <= 0x7fff_ffffu32);
            assert((reduced | 0x8000_0000u32) & 0x7fff_ffffu32 == reduced) by (bit_vector)
                requires reduced <= 0x7fff_ffffu32;
            assert((reduced | 0u32) & 0x7fff_ffffu32 == reduced) by (bit_vector)
                requires reduced <= 0x7fff_ffffu32;
            assert((reduced | 0x8000_0000u32) & 0x8000_0000u32 != 0) by (bit_vector);
            assert((reduced | 0u32) & 0x8000_0000u32 == 0) by (bit_vector)
                requires reduced <= 0x7fff_ffffu32;
        }
        AccountInfo { store_id, packed_offset_and_flags: packed }
    }

    /// The spec of `reduced_offset_to_offset`.
    pub open spec fn reduced_offset_to_offset_spec(reduced_offset: u32) -> int {
        reduced_offset * 8
    }

    /// The offset divided by the alignment.
    pub fn get_reduced_offset(offset: usize) -> (r: u32)
        requires
            offset / 8 <= u32::MAX,
        ensures
            r == offset / 8,
    {
        (offset / ALIGN_BOUNDARY_OFFSET) as u32
    }

    /// The byte offset a reduced offset stands for.
    pub fn reduced_offset_to_offset(reduced_offset: u32) -> (r: usize)
        requires
            reduced_offset * 8 <= usize::MAX,
        ensures
            r == Self::reduced_offset_to_offset_spec(reduced_offset),
    {
        (reduced_offset as usize) * ALIGN_BOUNDARY_OFFSET
    }

    /// Whether the account holds no lamports.
    pub fn is_zero_lamport(&self) -> (r: bool)
        ensures
            r == self.zero_lamport_flag(),
    {
        self.packed_offset_and_flags & 0x8000_0000u32 != 0
    }

    /// Whether the account is in the write cache.
    pub fn is_cached(&self) -> (r: bool)
        ensures
            r == (self.offset_reduced() == CACHED_OFFSET),
    {
        self.packed_offset_and_flags & 0x7fff_ffffu32 == CACHED_OFFSET
    }
}

/// Whether the accounts hash was verified: when verification completed, or
/// never had to run in the background. There is one flag, held in one
/// place: it cannot be copied, so whoever holds it sees completion.
#[derive(Debug)]
pub struct VerifyAccountsHashInBackground {
    pub verified: bool,
}

impl VerifyAccountsHashInBackground {
    /// Not verified yet.
    pub fn new() -> (r: Self)
        ensures
            !r.verified,
    {
        VerifyAccountsHashInBackground { verified: false }
    }

    /// Records that verification completed successfully, in the background
    /// or in the foreground.
    pub fn verification_complete(&mut self)
        ensures
            final(self).verified,
    {
        self.verified = true;
    }
}

} // verus!
