use magicblock_core_logic::error::AccountsDbError;
use magicblock_core_logic::snapshot::SnapSlot;
use magicblock_core_logic::snapshot_engine::{read_snapshots, sort_names, SnapshotEngine};
use magicblock_core_logic::storage::{
    adjust_database_file_size, calculate_db_size, checked_db_size, AccountsDbConfig, AccountsStorage, BlockSize, MetaHeader, StorageMeta,
};
use magicblock_core_logic::index::AccountsDbIndex;

fn config() -> AccountsDbConfig {
    AccountsDbConfig {
        db_size: 20_000_000,
        block_size: BlockSize::Block256,
        index_map_size: 1024 * 1024,
        max_snapshots: 4,
        snapshot_frequency: 50,
    }
}

#[test]
fn snapshot_paths_carry_their_slot() {
    assert_eq!(SnapSlot(12).file_name(), b"snapshot-000000000012".to_vec());
    assert_eq!(SnapSlot(12).as_path("/var/adb"), b"/var/adb/snapshot-000000000012".to_vec());
    assert_eq!(SnapSlot(12).as_path("/var/adb/"), b"/var/adb/snapshot-000000000012".to_vec());
    assert_eq!(SnapSlot::try_from_path("/var/adb/snapshot-000000000012"), Some(SnapSlot(12)));
    assert_eq!(SnapSlot::try_from_path("/var/adb/snapshot-12"), Some(SnapSlot(12)));
    assert_eq!(SnapSlot::try_from_path("/var/adb/snapshot"), None);
    assert_eq!(SnapSlot::try_from_path("/var/adb/snapshot-x"), None);
    let path = SnapSlot(987_654_321).as_path("dir");
    assert_eq!(SnapSlot::try_from_bytes(&path), Some(987_654_321));
}

#[test]
fn snapshot_names_sort_like_slots() {
    let names = vec![SnapSlot(100).file_name(), SnapSlot(9).file_name(), SnapSlot(10).file_name()];
    let sorted = sort_names(names);
    assert_eq!(sorted, vec![SnapSlot(9).file_name(), SnapSlot(10).file_name(), SnapSlot(100).file_name()]);
    let entries = vec![SnapSlot(3).file_name(), b"other".to_vec(), SnapSlot(1).file_name(), SnapSlot(2).file_name()];
    assert_eq!(read_snapshots(&entries, 2), vec![SnapSlot(2).file_name(), SnapSlot(3).file_name()]);
}

#[test]
fn snapshots_evict_the_oldest_and_roll_back() {
    let entries = vec![SnapSlot(5).file_name(), b"other".to_vec(), SnapSlot(3).file_name()];
    let mut engine = SnapshotEngine::new(b"/db/adb".to_vec(), false, &entries, 2);
    assert!(engine.snapshot_exists(3));
    assert!(engine.snapshot_exists(5));
    let plan = engine.snapshot(7);
    assert_eq!(plan.evicted, Some(SnapSlot(3).file_name()));
    assert_eq!(plan.created, SnapSlot(7).file_name());
    assert!(!plan.reflink);
    assert!(!engine.snapshot_exists(3));
    assert_eq!(engine.database_path(), &b"/db/adb".to_vec());

    let rollback = engine.try_switch_to_snapshot(6).unwrap();
    assert_eq!(rollback.slot, 5);
    assert_eq!(rollback.chosen, SnapSlot(5).file_name());
    assert_eq!(rollback.removed, vec![SnapSlot(7).file_name()]);
    assert!(!engine.snapshot_exists(5));
    assert!(!engine.snapshot_exists(7));
    assert!(matches!(engine.try_switch_to_snapshot(6), Err(AccountsDbError::SnapshotMissing(6))));
}

#[test]
fn database_size_and_header() {
    assert_eq!(calculate_db_size(&config()), 20_000_256);
    assert_eq!(checked_db_size(&config()), Some(20_000_256));
    let mut huge = config();
    huge.db_size = usize::MAX;
    assert_eq!(checked_db_size(&huge), None);
    assert_eq!(adjust_database_file_size(10, 20), Some(20));
    assert_eq!(adjust_database_file_size(20, 10), None);
    assert_eq!(adjust_database_file_size(20, 20), None);
    assert_eq!(BlockSize::Block512.bytes(), 512);
    let header = MetaHeader { head: 7, slot: 99, block_size: 128, total_blocks: 1000, deallocated: 3 };
    let bytes = header.encode();
    assert_eq!(bytes.len(), 28);
    assert_eq!(MetaHeader::decode(&bytes), header);
    let (fresh, size) = StorageMeta::init_adb_file(&config());
    assert_eq!(size, 20_000_256);
    let decoded = MetaHeader::decode(&fresh);
    assert_eq!(decoded.block_size, 256);
    assert_eq!(decoded.total_blocks, 78_126);
    assert_eq!(decoded.head, 0);
}

#[test]
fn allocations_follow_one_another() {
    let (header, size) = StorageMeta::init_adb_file(&config());
    let (mut storage, adjusted) = AccountsStorage::new(&header, size as usize).unwrap();
    assert_eq!(adjusted, None);
    assert_eq!(storage.get_block_count(1000), 4);
    assert!(storage.can_alloc(1000));
    let first = storage.allocate(1000);
    assert_eq!((first.offset, first.blocks), (0, 4));
    let second = storage.allocate(256);
    assert_eq!((second.offset, second.blocks), (4, 1));
    assert!(first.offset + first.blocks <= second.offset);
    assert_eq!(storage.head(), 5);
    assert_eq!(storage.utilized_mmap(), 5 * 256 + 256);
    assert_eq!(storage.offset(4), 1024);
    storage.set_slot(42);
    assert_eq!(storage.get_slot(), 42);
    storage.increment_deallocations(3);
    storage.decrement_deallocations(1);
    assert_eq!(storage.meta_header().deallocated, 2);
    assert!(matches!(
        AccountsStorage::new(&header, 100),
        Err(AccountsDbError::Internal(magicblock_core_logic::error::InternalError::MmapTooSmall))
    ));
}

struct AdbTestEnv {
    index: AccountsDbIndex,
    storage: AccountsStorage,
    directory: Vec<u8>,
}

fn init_test_env(config: &AccountsDbConfig, directory: Vec<u8>) -> Result<AdbTestEnv, AccountsDbError> {
    let (header, size) = StorageMeta::init_adb_file(config);
    let (storage, _) = AccountsStorage::new(&header, size as usize)?;
    Ok(AdbTestEnv { index: AccountsDbIndex::new(), storage, directory })
}

#[test]
fn test_environment_starts_empty() {
    let env = init_test_env(&config(), b"/tmp/adb-test".to_vec()).unwrap();
    assert_eq!(env.directory, b"/tmp/adb-test".to_vec());
    assert_eq!(env.storage.head(), 0);
    assert!(matches!(env.index.get_all_accounts(), Err(AccountsDbError::NotFound)));
}
