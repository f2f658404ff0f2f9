use magicblock_core_logic::error::AccountsDbError;
use magicblock_core_logic::index::AccountsDbIndex;
use magicblock_core_logic::pubkey::Pubkey;
use magicblock_core_logic::storage::{Allocation, ExistingAllocation};

struct IndexTestEnv {
    index: AccountsDbIndex,
    next_offset: u32,
    next_key: u8,
}

struct IndexAccount {
    pubkey: Pubkey,
    owner: Pubkey,
    allocation: Allocation,
}

fn setup() -> IndexTestEnv {
    IndexTestEnv { index: AccountsDbIndex::new(), next_offset: 256, next_key: 1 }
}

impl IndexTestEnv {
    fn allocation(&mut self) -> Allocation {
        let blocks = 4;
        let offset = self.next_offset;
        self.next_offset += 256 * blocks;
        Allocation { offset, blocks }
    }

    fn unique(&mut self) -> Pubkey {
        let mut bytes = [0u8; 32];
        bytes[0] = self.next_key;
        bytes[31] = 0xa5;
        self.next_key += 1;
        Pubkey::new_from_array(bytes)
    }

    fn account(&mut self) -> IndexAccount {
        let pubkey = self.unique();
        let owner = self.unique();
        let allocation = self.allocation();
        IndexAccount { pubkey, owner, allocation }
    }
}

#[test]
fn test_insert_account() {
    let mut tenv = setup();
    let IndexAccount { pubkey, owner, allocation } = tenv.account();

    let result = tenv.index.insert_account(&pubkey, &owner, allocation);
    assert!(result.is_ok(), "failed to insert account into index");
    assert!(result.unwrap().is_none(), "new account should not be reallocated");
    let reallocation = tenv.allocation();
    let result = tenv.index.insert_account(&pubkey, &owner, reallocation);
    assert!(result.is_ok(), "failed to RE-insert account into index");
    let previous_allocation = ExistingAllocation::from_allocation(allocation);
    assert_eq!(result.unwrap(), Some(previous_allocation), "account RE-insertion should return previous allocation");
}

#[test]
fn test_get_account_offset() {
    let mut tenv = setup();
    let IndexAccount { pubkey, owner, allocation } = tenv.account();

    tenv.index.insert_account(&pubkey, &owner, allocation).expect("failed to insert account");
    let result = tenv.index.get_account_offset(&pubkey);
    assert!(result.is_ok(), "failed to read offset for inserted account");
    assert_eq!(result.unwrap(), allocation.offset, "offset of read account doesn't match that of written one");

    let result = tenv.index.get_allocation(&pubkey);
    assert!(result.is_ok(), "failed to read an allocation for inserted account");
    assert_eq!(
        result.unwrap(),
        ExistingAllocation::from_allocation(allocation),
        "allocation of account doesn't match one which was defined during insertion"
    );
}

#[test]
fn test_reallocate_account() {
    let mut tenv = setup();
    let IndexAccount { pubkey, owner, allocation } = tenv.account();

    tenv.index.insert_account(&pubkey, &owner, allocation).expect("failed to insert account");

    let new_allocation = tenv.allocation();
    let result = tenv.index.reallocate_account(&pubkey, new_allocation.offset, new_allocation.blocks);

    assert!(result.is_ok(), "failed to reallocate account");
    assert_eq!(
        result.unwrap(),
        ExistingAllocation::from_allocation(allocation),
        "allocation of account doesn't match one, which was defined during insertion"
    );
    let result = tenv.index.get_account_offset(&pubkey).expect("failed to read reallocated account");
    assert_eq!(result, new_allocation.offset, "reallocated account's offset doesn't match new allocation");
}

#[test]
fn test_remove_account() {
    let mut tenv = setup();
    let IndexAccount { pubkey, owner, allocation } = tenv.account();

    tenv.index.insert_account(&pubkey, &owner, allocation).expect("failed to insert account");

    let result = tenv.index.remove_account(&pubkey);

    assert!(result.is_ok(), "failed to remove account");
    let offset = tenv.index.get_account_offset(&pubkey);
    assert!(matches!(offset, Err(AccountsDbError::NotFound)), "removed account offset is still present in index");
}

#[test]
fn test_ensure_correct_owner() {
    let mut tenv = setup();
    let IndexAccount { pubkey, owner, allocation } = tenv.account();

    tenv.index.insert_account(&pubkey, &owner, allocation).expect("failed to insert account");
    let iter = tenv.index.get_program_accounts_iter(&owner);
    assert!(iter.is_ok(), "failed to get iterator for newly inserted program account");
    let mut iter = iter.unwrap().into_iter();
    assert_eq!(iter.next(), Some((allocation.offset, pubkey)), "account returned by program iterator is invalid one");
    assert_eq!(iter.next(), None, "program iterator returned more than the number of inserted accounts");
    drop(iter);

    let new_owner = tenv.unique();
    assert!(tenv.index.ensure_correct_owner(&pubkey, &new_owner).is_ok(), "failed to ensure correct account owner");
    let result = tenv.index.get_program_accounts_iter(&owner);
    assert!(
        matches!(result, Err(AccountsDbError::NotFound)),
        "programs index still has record of account after owner change"
    );

    let mut iter = tenv
        .index
        .get_program_accounts_iter(&new_owner)
        .expect("failed to get iterator for newly inserted program account")
        .into_iter();
    assert_eq!(iter.next(), Some((allocation.offset, pubkey)), "account returned by program iterator is invalid one");
}

#[test]
fn test_program_index_cleanup() {
    let mut tenv = setup();
    let IndexAccount { pubkey, owner, allocation } = tenv.account();

    tenv.index.insert_account(&pubkey, &owner, allocation).expect("failed to insert account");

    tenv.index.remove_programs_index_entry(&pubkey, allocation.offset);

    let result = tenv.index.get_program_accounts_iter(&owner);
    assert!(
        matches!(result, Err(AccountsDbError::NotFound)),
        "programs index still has record of account after cleanup"
    );
}

#[test]
fn test_recycle_allocation_after_realloc() {
    let mut tenv = setup();
    let IndexAccount { pubkey, owner, allocation } = tenv.account();

    tenv.index.insert_account(&pubkey, &owner, allocation).expect("failed to insert account");

    let new_allocation = tenv.allocation();
    tenv.index
        .reallocate_account(&pubkey, new_allocation.offset, new_allocation.blocks)
        .expect("failed to reallocate account");
    let result = tenv.index.try_recycle_allocation(new_allocation.blocks);
    assert_eq!(result.expect("failed to recycle allocation"), ExistingAllocation::from_allocation(allocation));
    let result = tenv.index.try_recycle_allocation(new_allocation.blocks);
    assert!(
        matches!(result, Err(AccountsDbError::NotFound)),
        "deallocations index should have run out of existing allocations"
    );
    tenv.index.remove_account(&pubkey).expect("failed to remove account");
    let result = tenv.index.try_recycle_allocation(new_allocation.blocks);
    assert_eq!(
        result.expect("failed to recycle allocation after account removal"),
        ExistingAllocation::from_allocation(new_allocation)
    );
}

#[test]
fn get_all_accounts_lists_every_indexed_account() {
    let mut tenv = setup();
    assert!(matches!(tenv.index.get_all_accounts(), Err(AccountsDbError::NotFound)));
    let a = tenv.account();
    let b = tenv.account();
    tenv.index.insert_account(&a.pubkey, &a.owner, a.allocation).unwrap();
    tenv.index.insert_account(&b.pubkey, &b.owner, b.allocation).unwrap();
    let mut all = tenv.index.get_all_accounts().unwrap();
    all.sort_by_key(|(offset, _)| *offset);
    assert_eq!(all, vec![(a.allocation.offset, a.pubkey), (b.allocation.offset, b.pubkey)]);
}

#[test]
fn recycling_takes_the_smallest_fitting_run() {
    let mut tenv = setup();
    let a = tenv.account();
    tenv.index.insert_account(&a.pubkey, &a.owner, a.allocation).unwrap();
    tenv.index.insert_account(&a.pubkey, &a.owner, Allocation { offset: 10_000, blocks: 9 }).unwrap();
    let b = tenv.account();
    tenv.index.insert_account(&b.pubkey, &b.owner, Allocation { offset: 20_000, blocks: 2 }).unwrap();
    tenv.index.insert_account(&b.pubkey, &b.owner, Allocation { offset: 30_000, blocks: 2 }).unwrap();
    // free runs: 4 blocks (a's first run) and 2 blocks at 20_000
    assert_eq!(tenv.index.try_recycle_allocation(3).unwrap(), ExistingAllocation::from_allocation(a.allocation));
    assert_eq!(
        tenv.index.try_recycle_allocation(1).unwrap(),
        ExistingAllocation { offset: 20_000, blocks: 2 }
    );
    assert!(matches!(tenv.index.try_recycle_allocation(1), Err(AccountsDbError::NotFound)));
}

#[test]
fn program_accounts_come_in_the_order_of_their_record_bytes() {
    let mut tenv = setup();
    let owner = tenv.unique();
    let a = tenv.unique();
    let b = tenv.unique();
    let c = tenv.unique();
    // offsets are ordered by their least significant byte first
    tenv.index.insert_account(&a, &owner, Allocation { offset: 1, blocks: 1 }).unwrap();
    tenv.index.insert_account(&b, &owner, Allocation { offset: 256, blocks: 1 }).unwrap();
    tenv.index.insert_account(&c, &owner, Allocation { offset: 2, blocks: 1 }).unwrap();
    let listed = tenv.index.get_program_accounts_iter(&owner).unwrap();
    assert_eq!(listed, vec![(256, b), (1, a), (2, c)]);
    let all = tenv.index.get_all_accounts().unwrap();
    assert_eq!(all, vec![(256, b), (1, a), (2, c)]);
}
