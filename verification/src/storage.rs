use vstd::prelude::*;

use crate::error::{AccountsDbError, AdbResult, InternalError};

verus! {

/// A freshly reserved (or recycled) run of blocks in the main storage.
///
/// `offset` counts blocks from the start of the storage region, `blocks` is
/// the length of the run.
#[derive(Clone, Copy, Debug, PartialEq, Eq)]
pub struct Allocation {
    pub offset: u32,
    pub blocks: u32,
}

/// A run of blocks that an account occupied before it moved or was removed.
#[derive(Clone, Copy, Debug, PartialEq, Eq)]
pub struct ExistingAllocation {
    pub offset: u32,
    pub blocks: u32,
}

impl ExistingAllocation {
    /// The record of an allocation once it is in use.
    pub fn from_allocation(value: Allocation) -> (r: ExistingAllocation)
        ensures
            r.offset == value.offset,
            r.blocks == value.blocks,
    {
        ExistingAllocation { offset: value.offset, blocks: value.blocks }
    }
}

} // verus!

verus! {

/// Extra space at the start of the database file reserved for metadata.
pub const METADATA_STORAGE_SIZE: usize = 256;

/// Byte length of the metadata fields actually written:
/// head (8), slot (8), block size (4), total blocks (4), deallocated (4).
pub const METADATA_HEADER_LEN: usize = 28;

/// Minimal configured size of a new database file, in bytes.
pub const MIN_DB_SIZE: usize = 16777216;

/// Size of the indivisible unit of allocation.
#[derive(Clone, Copy, Debug, PartialEq, Eq, Structural)]
pub enum BlockSize {
    Block128,
    Block256,
    Block512,
}

impl BlockSize {
    pub open spec fn spec_bytes(self) -> u32 {
        match self {
            BlockSize::Block128 => 128,
            BlockSize::Block256 => 256,
            BlockSize::Block512 => 512,
        }
    }

    /// The block size in bytes.
    pub fn bytes(&self) -> (r: u32)
        ensures
            r == self.spec_bytes(),
    {
        match self {
            BlockSize::Block128 => 128,
            BlockSize::Block256 => 256,
            BlockSize::Block512 => 512,
        }
    }
}

/// Whether `bs` is one of the supported block sizes.
pub open spec fn is_block_size(bs: u32) -> bool {
    bs == 128 || bs == 256 || bs == 512
}

/// Configuration of the accounts database storage and index.
#[derive(Clone, Copy, Debug)]
pub struct AccountsDbConfig {
    /// Requested size of the main storage, in bytes.
    pub db_size: usize,
    /// Size of the allocation unit.
    pub block_size: BlockSize,
    /// Size of the index memory maps, in bytes.
    pub index_map_size: usize,
    /// Number of snapshots to keep.
    pub max_snapshots: u16,
    /// A snapshot is taken every this many slots.
    pub snapshot_frequency: u64,
}

/// `a / b` rounded up.
pub open spec fn div_ceil(a: nat, b: nat) -> nat {
    if a % b == 0 {
        a / b
    } else {
        a / b + 1
    }
}

/// The file size the database occupies for a configuration: the storage
/// rounded up to whole blocks, plus the metadata section rounded up to
/// whole blocks.
pub open spec fn spec_db_size(db_size: nat, block_size: nat) -> nat {
    (div_ceil(db_size, block_size) + div_ceil(METADATA_STORAGE_SIZE as nat, block_size)) * block_size
}

fn usize_div_ceil(a: usize, b: usize) -> (r: usize)
    requires
        b > 0,
    ensures
        r == div_ceil(a as nat, b as nat),
{
    if a % b == 0 {
        a / b
    } else {
        assert(a / b < usize::MAX) by (nonlinear_arith)
            requires
                b > 1,
        ;
        a / b + 1
    }
}

/// The file size the database occupies for `config`.
pub fn calculate_db_size(config: &AccountsDbConfig) -> (r: usize)
    requires
        spec_db_size(config.db_size as nat, config.block_size.spec_bytes() as nat) <= usize::MAX,
    ensures
        r == spec_db_size(config.db_size as nat, config.block_size.spec_bytes() as nat),
{
    let block_size = config.block_size.bytes() as usize;
    let block_num = usize_div_ceil(config.db_size, block_size);
    let meta_blocks = usize_div_ceil(METADATA_STORAGE_SIZE, block_size);
    (block_num + meta_blocks) * block_size
}

/// The file size the database occupies for `config`, or none when it does
/// not fit in a `usize`.
pub fn checked_db_size(config: &AccountsDbConfig) -> (r: Option<usize>)
    ensures
        r == (if spec_db_size(config.db_size as nat, config.block_size.spec_bytes() as nat) <= usize::MAX {
            Some(spec_db_size(config.db_size as nat, config.block_size.spec_bytes() as nat) as usize)
        } else {
            None::<usize>
        }),
{
    let block_size = config.block_size.bytes() as usize;
    let block_num = usize_div_ceil(config.db_size, block_size);
    let meta_blocks = usize_div_ceil(METADATA_STORAGE_SIZE, block_size);
    match block_num.checked_add(meta_blocks) {
        Some(blocks) => blocks.checked_mul(block_size),
        None => {
            assert((block_num + meta_blocks) * block_size >= block_num + meta_blocks) by (nonlinear_arith)
                requires
                    block_size >= 1,
                    block_num + meta_blocks >= 0,
            ;
            None
        },
    }
}

/// How a backing file of `current` bytes must be grown to hold `size`
/// bytes: the new length, or `None` when it is already large enough.
/// Files are never shrunk.
pub fn adjust_database_file_size(current: u64, size: u64) -> (r: Option<u64>)
    ensures
        r == (if current >= size { None::<u64> } else { Some(size) }),
{
    if current >= size {
        None
    } else {
        Some(size)
    }
}

/// Byte `i` (least significant first) of `x`.
pub open spec fn byte_of_u64(x: u64, i: u64) -> u8 {
    if i == 0 {
        x as u8
    } else if i == 1 {
        (x >> 8u64) as u8
    } else if i == 2 {
        (x >> 16u64) as u8
    } else if i == 3 {
        (x >> 24u64) as u8
    } else if i == 4 {
        (x >> 32u64) as u8
    } else if i == 5 {
        (x >> 40u64) as u8
    } else if i == 6 {
        (x >> 48u64) as u8
    } else {
        (x >> 56u64) as u8
    }
}

/// Byte `i` (least significant first) of `x`.
pub open spec fn byte_of_u32(x: u32, i: u32) -> u8 {
    if i == 0 {
        x as u8
    } else if i == 1 {
        (x >> 8u32) as u8
    } else if i == 2 {
        (x >> 16u32) as u8
    } else {
        (x >> 24u32) as u8
    }
}

/// The little endian `u64` held by `b[at..at + 8]`.
pub open spec fn le_u64_at(b: Seq<u8>, at: int) -> u64 {
    (b[at] as u64) | ((b[at + 1] as u64) << 8u64) | ((b[at + 2] as u64) << 16u64) | ((b[at + 3] as u64)
        << 24u64) | ((b[at + 4] as u64) << 32u64) | ((b[at + 5] as u64) << 40u64) | ((b[at + 6] as u64)
        << 48u64) | ((b[at + 7] as u64) << 56u64)
}

/// The little endian `u32` held by `b[at..at + 4]`.
pub open spec fn le_u32_at(b: Seq<u8>, at: int) -> u32 {
    (b[at] as u32) | ((b[at + 1] as u32) << 8u32) | ((b[at + 2] as u32) << 16u32) | ((b[at + 3] as u32)
        << 24u32)
}

fn push_u64_le(out: &mut Vec<u8>, x: u64)
    ensures
        final(out)@ == old(out)@ + seq![
            byte_of_u64(x, 0), byte_of_u64(x, 1), byte_of_u64(x, 2), byte_of_u64(x, 3),
            byte_of_u64(x, 4), byte_of_u64(x, 5), byte_of_u64(x, 6), byte_of_u64(x, 7),
        ],
{
    let ghost pre = out@;
    out.push(#[verifier::truncate] (x as u8));
    out.push(#[verifier::truncate] ((x >> 8u64) as u8));
    out.push(#[verifier::truncate] ((x >> 16u64) as u8));
    out.push(#[verifier::truncate] ((x >> 24u64) as u8));
    out.push(#[verifier::truncate] ((x >> 32u64) as u8));
    out.push(#[verifier::truncate] ((x >> 40u64) as u8));
    out.push(#[verifier::truncate] ((x >> 48u64) as u8));
    out.push(#[verifier::truncate] ((x >> 56u64) as u8));
    proof {
        assert(out@ =~= pre + seq![
            byte_of_u64(x, 0), byte_of_u64(x, 1), byte_of_u64(x, 2), byte_of_u64(x, 3),
            byte_of_u64(x, 4), byte_of_u64(x, 5), byte_of_u64(x, 6), byte_of_u64(x, 7),
        ]);
    }
}

fn push_u32_le(out: &mut Vec<u8>, x: u32)
    ensures
        final(out)@ == old(out)@ + seq![
            byte_of_u32(x, 0), byte_of_u32(x, 1), byte_of_u32(x, 2), byte_of_u32(x, 3),
        ],
{
    let ghost pre = out@;
    out.push(#[verifier::truncate] (x as u8));
    out.push(#[verifier::truncate] ((x >> 8u32) as u8));
    out.push(#[verifier::truncate] ((x >> 16u32) as u8));
    out.push(#[verifier::truncate] ((x >> 24u32) as u8));
    proof {
        assert(out@ =~= pre + seq![
            byte_of_u32(x, 0), byte_of_u32(x, 1), byte_of_u32(x, 2), byte_of_u32(x, 3),
        ]);
    }
}

fn read_u64_le(b: &[u8], at: usize) -> (r: u64)
    requires
        at + 8 <= b@.len(),
    ensures
        r == le_u64_at(b@, at as int),
{
    (b[at] as u64) | ((b[at + 1] as u64) << 8u64) | ((b[at + 2] as u64) << 16u64) | ((b[at + 3] as u64)
        << 24u64) | ((b[at + 4] as u64) << 32u64) | ((b[at + 5] as u64) << 40u64) | ((b[at + 6] as u64)
        << 48u64) | ((b[at + 7] as u64) << 56u64)
}

fn read_u32_le(b: &[u8], at: usize) -> (r: u32)
    requires
        at + 4 <= b@.len(),
    ensures
        r == le_u32_at(b@, at as int),
{
    (b[at] as u32) | ((b[at + 1] as u32) << 8u32) | ((b[at + 2] as u32) << 16u32) | ((b[at + 3] as u32)
        << 24u32)
}

/// The persisted metadata fields of the database file, in layout order.
#[derive(Clone, Copy, Debug, PartialEq, Eq, Structural)]
pub struct MetaHeader {
    /// Offset (in blocks) where the next allocation will be served.
    pub head: u64,
    /// Latest slot observed.
    pub slot: u64,
    /// Size of a block in bytes.
    pub block_size: u32,
    /// Total number of blocks.
    pub total_blocks: u32,
    /// Number of deallocated blocks.
    pub deallocated: u32,
}

impl MetaHeader {
    /// The header that `bytes` holds.
    pub open spec fn spec_decode(bytes: Seq<u8>) -> MetaHeader {
        MetaHeader {
            head: le_u64_at(bytes, 0),
            slot: le_u64_at(bytes, 8),
            block_size: le_u32_at(bytes, 16),
            total_blocks: le_u32_at(bytes, 20),
            deallocated: le_u32_at(bytes, 24),
        }
    }

    /// The little endian bytes of the header, in layout order.
    pub open spec fn spec_encode(self) -> Seq<u8> {
        seq![
            byte_of_u64(self.head, 0), byte_of_u64(self.head, 1), byte_of_u64(self.head, 2),
            byte_of_u64(self.head, 3), byte_of_u64(self.head, 4), byte_of_u64(self.head, 5),
            byte_of_u64(self.head, 6), byte_of_u64(self.head, 7),
            byte_of_u64(self.slot, 0), byte_of_u64(self.slot, 1), byte_of_u64(self.slot, 2),
            byte_of_u64(self.slot, 3), byte_of_u64(self.slot, 4), byte_of_u64(self.slot, 5),
            byte_of_u64(self.slot, 6), byte_of_u64(self.slot, 7),
            byte_of_u32(self.block_size, 0), byte_of_u32(self.block_size, 1),
            byte_of_u32(self.block_size, 2), byte_of_u32(self.block_size, 3),
            byte_of_u32(self.total_blocks, 0), byte_of_u32(self.total_blocks, 1),
            byte_of_u32(self.total_blocks, 2), byte_of_u32(self.total_blocks, 3),
            byte_of_u32(self.deallocated, 0), byte_of_u32(self.deallocated, 1),
            byte_of_u32(self.deallocated, 2), byte_of_u32(self.deallocated, 3),
        ]
    }

    /// The little endian bytes of the header, in layout order.
    pub fn encode(&self) -> (r: Vec<u8>)
        ensures
            r@ == self.spec_encode(),
            r@.len() == METADATA_HEADER_LEN,
            MetaHeader::spec_decode(r@) == *self,
    {
        let mut out: Vec<u8> = Vec::new();
        push_u64_le(&mut out, self.head);
        push_u64_le(&mut out, self.slot);
        push_u32_le(&mut out, self.block_size);
        push_u32_le(&mut out, self.total_blocks);
        push_u32_le(&mut out, self.deallocated);
        proof {
            assert(out@ =~= self.spec_encode());
            lemma_header_roundtrip(*self);
        }
        out
    }

    /// Reads the header from the start of `bytes`.
    pub fn decode(bytes: &[u8]) -> (r: MetaHeader)
        requires
            bytes@.len() >= METADATA_HEADER_LEN,
        ensures
            r == MetaHeader::spec_decode(bytes@),
    {
        MetaHeader {
            head: read_u64_le(bytes, 0),
            slot: read_u64_le(bytes, 8),
            block_size: read_u32_le(bytes, 16),
            total_blocks: read_u32_le(bytes, 20),
            deallocated: read_u32_le(bytes, 24),
        }
    }
}

/// Reading back the bytes of a `u64` gives the `u64`.
pub proof fn lemma_u64_le_roundtrip(x: u64)
    ensures
        (byte_of_u64(x, 0) as u64) | ((byte_of_u64(x, 1) as u64) << 8u64) | ((byte_of_u64(x, 2) as u64)
            << 16u64) | ((byte_of_u64(x, 3) as u64) << 24u64) | ((byte_of_u64(x, 4) as u64) << 32u64)
            | ((byte_of_u64(x, 5) as u64) << 40u64) | ((byte_of_u64(x, 6) as u64) << 48u64) | ((
        byte_of_u64(x, 7) as u64) << 56u64) == x,
{
    let b0 = byte_of_u64(x, 0);
    let b1 = byte_of_u64(x, 1);
    let b2 = byte_of_u64(x, 2);
    let b3 = byte_of_u64(x, 3);
    let b4 = byte_of_u64(x, 4);
    let b5 = byte_of_u64(x, 5);
    let b6 = byte_of_u64(x, 6);
    let b7 = byte_of_u64(x, 7);
    assert((b0 as u64) | ((b1 as u64) << 8u64) | ((b2 as u64) << 16u64) | ((b3 as u64) << 24u64) | ((b4 as u64)
        << 32u64) | ((b5 as u64) << 40u64) | ((b6 as u64) << 48u64) | ((b7 as u64) << 56u64) == x)
        by (bit_vector)
        requires
            b0 == x as u8,
            b1 == (x >> 8u64) as u8,
            b2 == (x >> 16u64) as u8,
            b3 == (x >> 24u64) as u8,
            b4 == (x >> 32u64) as u8,
            b5 == (x >> 40u64) as u8,
            b6 == (x >> 48u64) as u8,
            b7 == (x >> 56u64) as u8,
    ;
}

/// Reading back the bytes of a `u32` gives the `u32`.
pub proof fn lemma_u32_le_roundtrip(x: u32)
    ensures
        (byte_of_u32(x, 0) as u32) | ((byte_of_u32(x, 1) as u32) << 8u32) | ((byte_of_u32(x, 2) as u32)
            << 16u32) | ((byte_of_u32(x, 3) as u32) << 24u32) == x,
{
    let b0 = byte_of_u32(x, 0);
    let b1 = byte_of_u32(x, 1);
    let b2 = byte_of_u32(x, 2);
    let b3 = byte_of_u32(x, 3);
    assert((b0 as u32) | ((b1 as u32) << 8u32) | ((b2 as u32) << 16u32) | ((b3 as u32) << 24u32) == x)
        by (bit_vector)
        requires
            b0 == x as u8,
            b1 == (x >> 8u32) as u8,
            b2 == (x >> 16u32) as u8,
            b3 == (x >> 24u32) as u8,
    ;
}

/// Decoding the bytes an encoding produced gives back the header.
pub proof fn lemma_header_roundtrip(h: MetaHeader)
    ensures
        MetaHeader::spec_decode(h.spec_encode()) == h,
{
    lemma_u64_le_roundtrip(h.head);
    lemma_u64_le_roundtrip(h.slot);
    lemma_u32_le_roundtrip(h.block_size);
    lemma_u32_le_roundtrip(h.total_blocks);
    lemma_u32_le_roundtrip(h.deallocated);
}

/// The metadata read from `header` for a memory map of `mmap_len` bytes: the
/// total number of blocks follows the map length (the new value is reported
/// when it differs from the recorded one); metadata with an unknown block
/// size or no blocks is refused.
pub open spec fn spec_read_meta(header: Seq<u8>, mmap_len: usize) -> AdbResult<(StorageMeta, Option<u32>)> {
    let h = MetaHeader::spec_decode(header);
    let adjusted = (mmap_len as nat / h.block_size as nat) as u32;
    let total = if adjusted != h.total_blocks { adjusted } else { h.total_blocks };
    if total != 0 && is_block_size(h.block_size) {
        Ok((
            StorageMeta {
                head: h.head,
                slot: h.slot,
                block_size: h.block_size,
                total_blocks: total,
                deallocated: h.deallocated,
            },
            if adjusted != h.total_blocks { Some(adjusted) } else { None },
        ))
    } else {
        Err(AccountsDbError::Internal(InternalError::UninitializedMetadata))
    }
}

/// Storage metadata: where the next allocation is served, the latest slot,
/// the block size, the total number of blocks and the number of blocks
/// deallocated so far.
#[derive(Clone, Copy, Debug)]
pub struct StorageMeta {
    pub head: u64,
    pub slot: u64,
    pub block_size: u32,
    pub total_blocks: u32,
    pub deallocated: u32,
}

impl StorageMeta {
    /// The block size is a supported one and the storage has blocks.
    pub open spec fn wf(&self) -> bool {
        is_block_size(self.block_size) && self.total_blocks != 0
    }

    /// The metadata header of a freshly created database file for `config`,
    /// and the length the file must be grown to.
    pub fn init_adb_file(config: &AccountsDbConfig) -> (r: (Vec<u8>, u64))
        requires
            config.db_size > MIN_DB_SIZE,
            spec_db_size(config.db_size as nat, config.block_size.spec_bytes() as nat) <= u64::MAX,
            spec_db_size(config.db_size as nat, config.block_size.spec_bytes() as nat) <= usize::MAX,
        ensures
            r.1 == spec_db_size(config.db_size as nat, config.block_size.spec_bytes() as nat),
            MetaHeader::spec_decode(r.0@) == (MetaHeader {
                head: 0,
                slot: 0,
                block_size: config.block_size.spec_bytes(),
                total_blocks: (spec_db_size(config.db_size as nat, config.block_size.spec_bytes() as nat)
                    / (config.block_size.spec_bytes() as nat)) as u32,
                deallocated: 0,
            }),
            r.0@.len() == METADATA_HEADER_LEN,
    {
        let db_size = calculate_db_size(config);
        let block_size = config.block_size.bytes();
        let total_blocks = #[verifier::truncate] ((db_size / block_size as usize) as u32);
        let header = MetaHeader { head: 0, slot: 0, block_size, total_blocks, deallocated: 0 };
        (header.encode(), db_size as u64)
    }

    /// Reads the metadata of an existing database file whose memory map is
    /// `mmap_len` bytes long. When the file was grown, the total number of
    /// blocks is readjusted to the new length; the new value is returned so
    /// that it can be persisted. Metadata with an unknown block size or no
    /// blocks is refused.
    pub fn new(header: &[u8], mmap_len: usize) -> (r: AdbResult<(StorageMeta, Option<u32>)>)
        requires
            header@.len() >= METADATA_HEADER_LEN,
            MetaHeader::spec_decode(header@).block_size != 0,
        ensures
            r == spec_read_meta(header@, mmap_len),
            r matches Ok((m, _)) ==> m.wf(),
    {
        let h = MetaHeader::decode(header);
        let block_size = h.block_size;
        let block_size_is_initialized = block_size == 128 || block_size == 256 || block_size == 512;
        let mut total_blocks = h.total_blocks;
        let adjusted_total_blocks = #[verifier::truncate] ((mmap_len / block_size as usize) as u32);
        let mut rewritten: Option<u32> = None;
        if adjusted_total_blocks != total_blocks {
            total_blocks = adjusted_total_blocks;
            rewritten = Some(adjusted_total_blocks);
        }
        if !(total_blocks != 0 && block_size_is_initialized) {
            return Err(AccountsDbError::Internal(InternalError::UninitializedMetadata));
        }
        Ok((
            StorageMeta {
                head: h.head,
                slot: h.slot,
                block_size,
                total_blocks,
                deallocated: h.deallocated,
            },
            rewritten,
        ))
    }
}

/// The main accounts storage: a bump allocator over fixed size blocks that
/// follow the metadata section of the database file.
pub struct AccountsStorage {
    meta: StorageMeta,
    mmap_len: usize,
}

impl AccountsStorage {
    pub closed spec fn spec_meta(&self) -> StorageMeta {
        self.meta
    }

    pub closed spec fn spec_mmap_len(&self) -> usize {
        self.mmap_len
    }

    /// Opens the storage over a memory map of `mmap_len` bytes whose first
    /// bytes are `header`. The memory map must be larger than the metadata
    /// section.
    pub fn new(header: &[u8], mmap_len: usize) -> (r: AdbResult<(AccountsStorage, Option<u32>)>)
        requires
            mmap_len > METADATA_STORAGE_SIZE ==> header@.len() >= METADATA_HEADER_LEN
                && MetaHeader::spec_decode(header@).block_size != 0,
        ensures
            mmap_len <= METADATA_STORAGE_SIZE ==> r == Err::<(AccountsStorage, Option<u32>), AccountsDbError>(
                AccountsDbError::Internal(InternalError::MmapTooSmall),
            ),
            mmap_len > METADATA_STORAGE_SIZE ==> (match r {
                Ok((s, adj)) => spec_read_meta(header@, mmap_len) == Ok::<(StorageMeta, Option<u32>), AccountsDbError>((s.spec_meta(), adj))
                    && s.spec_mmap_len() == mmap_len,
                Err(e) => spec_read_meta(header@, mmap_len) == Err::<(StorageMeta, Option<u32>), AccountsDbError>(e),
            }),
            r matches Ok((s, _)) ==> s.spec_meta().wf(),
    {
        if mmap_len <= METADATA_STORAGE_SIZE {
            return Err(AccountsDbError::Internal(InternalError::MmapTooSmall));
        }
        match StorageMeta::new(header, mmap_len) {
            Ok((meta, adjusted)) => Ok((AccountsStorage { meta, mmap_len }, adjusted)),
            Err(e) => Err(e),
        }
    }

    /// Number of blocks needed to store `size` bytes.
    pub fn get_block_count(&self, size: usize) -> (r: u32)
        requires
            self.spec_meta().wf(),
        ensures
            r == div_ceil(size as nat, self.spec_meta().block_size as nat) as u32,
    {
        let block_size = self.meta.block_size as usize;
        #[verifier::truncate] (usize_div_ceil(size, block_size) as u32)
    }

    /// Whether an allocation of `size` bytes still fits in the storage.
    pub fn can_alloc(&self, size: usize) -> (r: bool)
        requires
            self.spec_meta().wf(),
        ensures
            r == (self.spec_meta().head + (div_ceil(size as nat, self.spec_meta().block_size as nat) as u32)
                < self.spec_meta().total_blocks),
    {
        let blocks = self.get_block_count(size) as u64;
        self.meta.head < self.meta.total_blocks as u64 && blocks < self.meta.total_blocks as u64 - self.meta.head
    }

    /// Reserves the blocks for `size` bytes at the head of the storage.
    pub fn allocate(&mut self, size: usize) -> (r: Allocation)
        requires
            old(self).spec_meta().wf(),
            old(self).spec_meta().head + (div_ceil(size as nat, old(self).spec_meta().block_size as nat) as u32)
                < old(self).spec_meta().total_blocks,
        ensures
            final(self).spec_meta().wf(),
            r.offset == old(self).spec_meta().head,
            r.blocks == div_ceil(size as nat, old(self).spec_meta().block_size as nat) as u32,
            final(self).spec_meta() == (StorageMeta {
                head: (old(self).spec_meta().head + r.blocks) as u64,
                ..old(self).spec_meta()
            }),
            final(self).spec_mmap_len() == old(self).spec_mmap_len(),
    {
        let blocks = self.get_block_count(size);
        let offset = self.meta.head;
        self.meta.head = offset + blocks as u64;
        Allocation { offset: offset as u32, blocks }
    }

    /// Reuses a run of blocks left behind by another account.
    pub fn recycle(&self, recycled: ExistingAllocation) -> (r: Allocation)
        ensures
            r.offset == recycled.offset,
            r.blocks == recycled.blocks,
    {
        Allocation { offset: recycled.offset, blocks: recycled.blocks }
    }

    /// Byte position, within the storage section, of the block at `offset`.
    pub fn offset(&self, offset: u32) -> (r: usize)
        requires
            offset * self.spec_meta().block_size <= u32::MAX,
        ensures
            r == offset * self.spec_meta().block_size,
    {
        (offset * self.meta.block_size) as usize
    }

    /// The latest slot written to the storage.
    pub fn get_slot(&self) -> (r: u64)
        ensures
            r == self.spec_meta().slot,
    {
        self.meta.slot
    }

    /// Records the latest slot.
    pub fn set_slot(&mut self, val: u64)
        ensures
            final(self).spec_meta() == (StorageMeta { slot: val, ..old(self).spec_meta() }),
            final(self).spec_mmap_len() == old(self).spec_mmap_len(),
    {
        self.meta.slot = val;
    }

    /// Counts `val` more deallocated blocks (wrapping around like the
    /// persisted counter does).
    pub fn increment_deallocations(&mut self, val: u32)
        ensures
            final(self).spec_meta() == (StorageMeta {
                deallocated: vstd::wrapping::u32_specs::wrapping_add(old(self).spec_meta().deallocated, val),
                ..old(self).spec_meta()
            }),
            final(self).spec_mmap_len() == old(self).spec_mmap_len(),
    {
        self.meta.deallocated = self.meta.deallocated.wrapping_add(val);
    }

    /// Counts `val` fewer deallocated blocks (wrapping around like the
    /// persisted counter does).
    pub fn decrement_deallocations(&mut self, val: u32)
        ensures
            final(self).spec_meta() == (StorageMeta {
                deallocated: vstd::wrapping::u32_specs::wrapping_sub(old(self).spec_meta().deallocated, val),
                ..old(self).spec_meta()
            }),
            final(self).spec_mmap_len() == old(self).spec_mmap_len(),
    {
        self.meta.deallocated = self.meta.deallocated.wrapping_sub(val);
    }

    /// Length of the prefix of the memory map that holds written data: the
    /// metadata section and every block up to the head.
    pub fn utilized_mmap(&self) -> (r: usize)
        requires
            self.spec_meta().head * self.spec_meta().block_size + METADATA_STORAGE_SIZE <= usize::MAX,
            self.spec_meta().head <= usize::MAX,
        ensures
            r == (if self.spec_meta().head * self.spec_meta().block_size + METADATA_STORAGE_SIZE
                <= self.spec_mmap_len() {
                self.spec_meta().head * self.spec_meta().block_size + METADATA_STORAGE_SIZE
            } else {
                self.spec_mmap_len() as int
            }),
    {
        let head = self.meta.head as usize;
        let end = head * self.meta.block_size as usize + METADATA_STORAGE_SIZE;
        if end <= self.mmap_len { end } else { self.mmap_len }
    }

    /// Total number of bytes occupied by the storage, metadata included.
    pub fn size(&self) -> (r: u64)
        requires
            self.spec_meta().total_blocks * self.spec_meta().block_size <= u32::MAX,
        ensures
            r == self.spec_meta().total_blocks * self.spec_meta().block_size + METADATA_STORAGE_SIZE,
    {
        (self.meta.total_blocks * self.meta.block_size) as u64 + METADATA_STORAGE_SIZE as u64
    }

    /// Size of a block in bytes.
    pub fn block_size(&self) -> (r: usize)
        ensures
            r == self.spec_meta().block_size,
    {
        self.meta.block_size as usize
    }

    /// Offset (in blocks) where the next allocation will be served.
    pub fn head(&self) -> (r: u64)
        ensures
            r == self.spec_meta().head,
    {
        self.meta.head
    }

    /// The metadata as it is persisted.
    pub fn meta_header(&self) -> (r: MetaHeader)
        ensures
            r == (MetaHeader {
                head: self.spec_meta().head,
                slot: self.spec_meta().slot,
                block_size: self.spec_meta().block_size,
                total_blocks: self.spec_meta().total_blocks,
                deallocated: self.spec_meta().deallocated,
            }),
    {
        MetaHeader {
            head: self.meta.head,
            slot: self.meta.slot,
            block_size: self.meta.block_size,
            total_blocks: self.meta.total_blocks,
            deallocated: self.meta.deallocated,
        }
    }
}

} // verus!
