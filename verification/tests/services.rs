use magicblock_core_logic::account_info::{AccountInfo, StorageLocation, VerifyAccountsHashInBackground, CACHED_OFFSET, CACHE_VIRTUAL_STORAGE_ID};
use magicblock_core_logic::accounts_cache::{AccountsCache, SlotCacheInner};
use magicblock_core_logic::cloner::{Account, AccountChainSnapshot, AccountChainState, AccountClonerOutput, DelegationInconsistency, Signature, ValidatorCollectionMode};
use magicblock_core_logic::cluster::{parse_url, rpc_cluster_from_cluster, try_rpc_cluster_from_cluster, Cluster, ClusterType, RpcCluster};
use magicblock_core_logic::collect::{
    check_lookup_table_account, AddressLoaderError, collect_accounts_for_failed_tx, collect_accounts_for_successful_tx, collect_accounts_to_store, keeps_for_program,
    max_number_of_accounts_to_collect, MessageAccounts, ProcessedTransaction, RollbackAccounts,
};
use magicblock_core_logic::committer::{
    build_committees, commitment_target, compute_budget, confirm_step, excluded_pubkeys, plan_commit_transaction, AccountCommittee, AccountsError,
    ConfirmStep,
};
use magicblock_core_logic::entry_set::EntrySet;
use magicblock_core_logic::fetcher_stub::{AccountFetcherStub, MIN_ACCOUNT_RENT};
use magicblock_core_logic::locks::{lock_account, lock_accounts_inner, unlock_account, unlock_accounts, AccountLocks, LockError};
use magicblock_core_logic::persister::{
    is_expired_storage, parse_storage_file_name, parse_storage_file_slot, select_most_recent_store, PersisterState,
};
use magicblock_core_logic::pubkey::Pubkey;
use magicblock_core_logic::keys::BigEndianU32;
use magicblock_core_logic::updates::{AccountUpdatesStub, PoolBook, ShardState, UpdateSlots};
use magicblock_core_logic::validator::{
    check_ledger_keypair, check_slot_after_ledger, check_unregistration, collection_mode, keypair_sync, logs_each_slot,
    programs_to_load, registration_action, validator_record, ApiError, Error, KeypairSync, RegistrationAction,
};
use magicblock_core_logic::well_known::{ADDRESS_LOOKUP_TABLE_PROGRAM_ID, SYSVAR_CLOCK_ID};

fn key(n: u8) -> Pubkey {
    let mut b = [0u8; 32];
    b[0] = n;
    b[2] = 0x3c;
    Pubkey::new_from_array(b)
}

fn account(owner: Pubkey, lamports: u64, len: usize) -> Account {
    Account { lamports, data: vec![7; len], owner, executable: false, rent_epoch: 0 }
}

fn convert_and_assert(cluster: Cluster, expected_rpc_cluster: RpcCluster) {
    let rpc_cluster = try_rpc_cluster_from_cluster(&cluster).unwrap();
    assert_eq!(rpc_cluster, expected_rpc_cluster);
}

#[test]
fn test_rpc_cluster_from_cluster() {
    convert_and_assert(Cluster::Known(ClusterType::Testnet), RpcCluster::Testnet);
    convert_and_assert(Cluster::Known(ClusterType::MainnetBeta), RpcCluster::Mainnet);
    convert_and_assert(Cluster::Known(ClusterType::Devnet), RpcCluster::Devnet);
    convert_and_assert(Cluster::Known(ClusterType::Development), RpcCluster::Development);
    convert_and_assert(
        Cluster::Custom(parse_url("http://localhost:8899").unwrap()),
        RpcCluster::Custom("http://localhost:8899/".to_string(), "ws://localhost:8900/".to_string()),
    );
    convert_and_assert(
        Cluster::Custom(parse_url("https://some-url.org").unwrap()),
        RpcCluster::Custom("https://some-url.org/".to_string(), "wss://some-url.org/".to_string()),
    );
    convert_and_assert(
        Cluster::CustomWithWs(parse_url("https://some-url.org/").unwrap(), parse_url("wss://some-url.org/").unwrap()),
        RpcCluster::Custom("https://some-url.org/".to_string(), "wss://some-url.org/".to_string()),
    );
}

#[test]
fn custom_cluster_with_unknown_scheme_or_last_port() {
    let ftp = Cluster::Custom(parse_url("ftp://files.example.org").unwrap());
    assert!(matches!(try_rpc_cluster_from_cluster(&ftp), Err(AccountsError::InvalidRpcUrl(u)) if u == "ftp://files.example.org/"));
    assert!(parse_url("not a url").is_none());
    let last = Cluster::Custom(parse_url("http://localhost:65535").unwrap());
    assert!(rpc_cluster_from_cluster(&last).is_none());
    let ftp_last = Cluster::Custom(parse_url("ftp://localhost:65535").unwrap());
    assert!(matches!(try_rpc_cluster_from_cluster(&ftp_last), Err(AccountsError::InvalidRpcUrl(u)) if u == "ftp://localhost:65535/"));
    assert!(matches!(rpc_cluster_from_cluster(&ftp_last), Some(Err(AccountsError::InvalidRpcUrl(_)))));
    let fine = Cluster::Custom(parse_url("http://localhost:65534").unwrap());
    assert_eq!(
        rpc_cluster_from_cluster(&fine).unwrap().unwrap(),
        RpcCluster::Custom("http://localhost:65534/".to_string(), "ws://localhost:65535/".to_string())
    );
}

#[test]
fn update_slots_keep_earliest_subscription_and_latest_update() {
    let mut slots = UpdateSlots::new();
    slots.try_to_override_first_subscribed_slot(key(1), 10);
    slots.try_to_override_first_subscribed_slot(key(1), 12);
    slots.try_to_override_first_subscribed_slot(key(1), 7);
    assert_eq!(slots.get_first_subscribed_slot(&key(1)), Some(7));
    slots.try_to_override_last_known_update_slot(key(1), 0);
    assert_eq!(slots.get_last_known_update_slot(&key(1)), None);
    slots.try_to_override_last_known_update_slot(key(1), 5);
    slots.try_to_override_last_known_update_slot(key(1), 3);
    assert_eq!(slots.get_last_known_update_slot(&key(1)), Some(5));
    assert_eq!(slots.get_first_subscribed_slot(&key(2)), None);
}

#[test]
fn shard_records_clock_subscriptions_and_updates() {
    let mut shard = ShardState::new(UpdateSlots::new());
    shard.on_clock(Some(40));
    shard.on_clock(None);
    assert_eq!(shard.clock_slot, 40);
    assert_eq!(shard.slots.get_last_known_update_slot(&Pubkey::new_from_array(SYSVAR_CLOCK_ID)), Some(40));
    shard.on_subscribed(key(3));
    assert_eq!(shard.slots.get_first_subscribed_slot(&key(3)), Some(40));
    shard.on_account_update(key(3), 44);
    assert_eq!(shard.slots.get_last_known_update_slot(&key(3)), Some(44));
}

#[test]
fn pool_spreads_subscriptions_over_connections() {
    let mut pool = PoolBook::new(3);
    let first = pool.pick_connection();
    assert_eq!(first, 0);
    pool.record_subscription(key(1), first);
    let second = pool.pick_connection();
    assert_eq!(second, 1);
    pool.record_subscription(key(2), second);
    assert!(pool.subscribed(&key(1)));
    assert_eq!(pool.record_unsubscription(&key(1)), Some(0));
    assert!(!pool.subscribed(&key(1)));
    assert_eq!(pool.pick_connection(), 0);
    assert_eq!(pool.record_unsubscription(&key(1)), None);
}

#[test]
fn updates_stub_records_monitoring_and_slots() {
    let mut stub = AccountUpdatesStub::new();
    assert!(!stub.has_account_monitoring(&key(1)));
    stub.ensure_account_monitoring(&key(1));
    assert!(stub.has_account_monitoring(&key(1)));
    stub.set_first_subscribed_slot(key(1), 9);
    stub.set_last_known_update_slot(key(1), 11);
    assert_eq!(stub.get_first_subscribed_slot(&key(1)), Some(9));
    assert_eq!(stub.get_last_known_update_slot(&key(1)), Some(11));
}

#[test]
fn storage_file_names_parse_and_select() {
    assert_eq!(parse_storage_file_name(b"42.7"), Some((42, 7)));
    assert_eq!(parse_storage_file_name(b"42.7.copy"), None);
    assert_eq!(parse_storage_file_name(b"42"), None);
    assert_eq!(parse_storage_file_name(b"x.7"), None);
    assert_eq!(parse_storage_file_name(b"1.4294967296"), None);
    assert_eq!(parse_storage_file_slot(b"42.7.copy"), Some(42));
    assert_eq!(parse_storage_file_slot(b"42"), Some(42));
    assert_eq!(parse_storage_file_slot(b"a.7"), None);
    let files = vec![(5, 1), (9, 0), (9, 3), (12, 1), (9, 2)];
    assert_eq!(select_most_recent_store(&files, 10), Some(2));
    assert_eq!(select_most_recent_store(&files, 5), Some(0));
    assert_eq!(select_most_recent_store(&files, 4), None);
    assert!(is_expired_storage(3, 3));
    assert!(!is_expired_storage(4, 3));
}

#[test]
fn persister_ids_and_cleanups() {
    let mut p = PersisterState::new();
    assert_eq!(p.next_id(), 0);
    assert_eq!(p.next_id(), 1);
    assert_eq!(p.cleanup_after_flush(500), None);
    assert_eq!(p.cleanup_after_flush(2500), Some(0));
    assert_eq!(p.last_storage_cleanup_slot, 2500);
    assert_eq!(p.cleanup_after_flush(4999), None);
    assert_eq!(p.cleanup_after_flush(5000), Some(2500));
}

#[test]
fn commit_transaction_plan_counts_and_splits() {
    assert_eq!(compute_budget(0, 0), 60_000);
    assert_eq!(compute_budget(2, 1), 60_000 + 80_000 + 45_000);
    let committees = vec![
        AccountCommittee { pubkey: key(1), owner: key(9), account_data: account(key(9), 5, 1), slot: 3, undelegation_requested: true },
        AccountCommittee { pubkey: key(2), owner: key(9), account_data: account(key(9), 5, 1), slot: 3, undelegation_requested: false },
    ];
    let plan = plan_commit_transaction(&committees, 17).unwrap();
    assert_eq!(plan.compute_budget, 185_000);
    assert_eq!(plan.compute_unit_price, 17);
    assert!(plan.undelegated_accounts.contains(&key(1)));
    assert!(!plan.undelegated_accounts.contains(&key(2)));
    assert!(plan.committed_only_accounts.contains(&key(2)));
    assert!(!plan.committed_only_accounts.contains(&key(1)));
    let err = AccountsError::TooManyCommittees(usize::MAX);
    assert!(matches!(err, AccountsError::TooManyCommittees(n) if n == usize::MAX));
}

#[test]
fn confirmation_times_out_after_thirty_seconds() {
    assert_eq!(confirm_step(Ok(true), 100), ConfirmStep::Succeeded);
    assert_eq!(confirm_step(Ok(false), 30), ConfirmStep::Retry);
    assert_eq!(confirm_step(Ok(false), 31), ConfirmStep::TimedOut);
    assert_eq!(confirm_step(Err("rpc".to_string()), 0), ConfirmStep::Failed);
}

#[test]
fn feepayers_commit_through_their_escrow() {
    let payer_snapshot = AccountChainSnapshot { pubkey: key(1), at_slot: 1, chain_state: AccountChainState::FeePayer { lamports: 1, owner: key(2) } };
    let cloned = AccountClonerOutput::Cloned { account_chain_snapshot: payer_snapshot, signature: Signature([0; 64]) };
    let t = commitment_target(key(1), key(2), Some(&cloned), key(30), key(31));
    assert_eq!(t.pubkey, key(30));
    assert_eq!(t.owner, key(31));
    assert_eq!(t.feepayer.unwrap().delegated_pda, key(30));
    let other = AccountChainSnapshot {
        pubkey: key(1),
        at_slot: 1,
        chain_state: AccountChainState::Undelegated { account: account(key(2), 1, 0), delegation_inconsistency: DelegationInconsistency::AccountInvalidOwner },
    };
    let cloned = AccountClonerOutput::Cloned { account_chain_snapshot: other, signature: Signature([0; 64]) };
    let t = commitment_target(key(1), key(2), Some(&cloned), key(30), key(31));
    assert_eq!(t.pubkey, key(1));
    assert!(t.feepayer.is_none());
    let t = commitment_target(key(1), key(2), None, key(30), key(31));
    assert_eq!(t.owner, key(2));

    let mut included = EntrySet::new();
    included.insert(key(1));
    included.insert(key(40));
    let all = vec![(key(1), key(41)), (key(2), key(40)), (key(3), key(42))];
    assert_eq!(excluded_pubkeys(&all, &included), vec![key(3)]);
    let repeated = vec![(key(3), key(42)), (key(5), key(45)), (key(3), key(42)), (key(1), key(41))];
    assert_eq!(excluded_pubkeys(&repeated, &included), vec![key(3), key(5)]);
}

#[test]
fn locks_are_refused_when_in_use_and_released() {
    let mut locks = AccountLocks::new();
    assert_eq!(lock_account(&mut locks, &vec![key(1)], &vec![key(2), key(2)]), Ok(()));
    assert!(locks.is_locked_write(&key(1)));
    assert!(locks.is_locked_readonly(&key(2)));
    assert_eq!(lock_account(&mut locks, &vec![key(2)], &vec![]), Err(LockError::AccountInUse));
    assert_eq!(lock_account(&mut locks, &vec![], &vec![key(1)]), Err(LockError::AccountInUse));
    assert_eq!(lock_account(&mut locks, &vec![key(3)], &vec![key(2)]), Ok(()));
    unlock_account(&mut locks, &vec![key(3)], &vec![key(2)]);
    unlock_account(&mut locks, &vec![key(1)], &vec![key(2), key(2)]);
    assert!(!locks.is_locked_write(&key(1)));
    assert!(!locks.is_locked_readonly(&key(2)));
    assert!(locks.readonly_locks.get(&key(2)).is_none());
}

#[test]
fn account_info_packs_offset_and_flags() {
    let cached = AccountInfo::new(StorageLocation::Cached, 0);
    assert!(cached.is_cached());
    assert!(cached.is_zero_lamport());
    assert_eq!(cached.store_id, CACHE_VIRTUAL_STORAGE_ID);
    assert_eq!(cached.packed_offset_and_flags, CACHED_OFFSET | 0x8000_0000);
    let stored = AccountInfo::new(StorageLocation::AppendVec(3, 80), 5);
    assert!(!stored.is_cached());
    assert!(!stored.is_zero_lamport());
    assert_eq!(stored.store_id, 3);
    assert_eq!(stored.packed_offset_and_flags, 10);
    assert_eq!(AccountInfo::reduced_offset_to_offset(10), 80);
    assert_eq!(AccountInfo::get_reduced_offset(80), 10);
    assert!(StorageLocation::Cached.is_cached());
    let mut v = VerifyAccountsHashInBackground::new();
    assert!(!v.verified);
    v.verification_complete();
    assert!(v.verified);
}

#[test]
fn slot_cache_counts_writes_and_size() {
    let mut cache = SlotCacheInner::new();
    cache.insert(&key(1), account(key(9), 1, 10));
    cache.insert(&key(2), account(key(9), 1, 4));
    assert_eq!(cache.size, 14);
    assert_eq!(cache.unique_account_writes_size, 14);
    cache.insert(&key(1), account(key(9), 1, 3));
    assert_eq!(cache.size, 7);
    assert_eq!(cache.same_account_writes, 1);
    assert_eq!(cache.same_account_writes_size, 3);
    let item = cache.insert(&key(1), account(key(9), 1, 8));
    assert_eq!(item.pubkey(), &key(1));
    assert_eq!(item.account.data.len(), 8);
    assert_eq!(item.account.owner, key(9));
    assert_eq!(cache.size, 12);
    assert_eq!(cache.total_bytes(), 14 + 11);
    assert_eq!(cache.len(), 2);
    assert_eq!(cache.get_cloned(&key(1)).unwrap().data.len(), 8);
    assert!(cache.get_cloned(&key(3)).is_none());
    let mut keys = cache.get_all_pubkeys();
    keys.sort();
    assert_eq!(keys, vec![key(1), key(2)]);

    let mut accounts = AccountsCache::new();
    assert!(accounts.is_empty());
    accounts.set_current_slot(6);
    let stored = accounts.store(&key(5), account(key(9), 2, 2));
    assert_eq!(*stored.pubkey(), key(5));
    assert_eq!(stored.account.lamports, 2);
    assert!(accounts.contains_key(&key(5)));
    assert_eq!(accounts.load_with_slot(&key(5)).unwrap().1, 6);
    assert_eq!(accounts.load_verifying_slot(6, &key(5)).unwrap().lamports, 2);
    assert_eq!(accounts.size(), 2);
    assert_eq!(accounts.num_slots(), 1);
    assert_eq!(accounts.len(), 1);
}

#[test]
fn collected_accounts_follow_the_outcomes() {
    let msg = MessageAccounts {
        fee_payer: key(1),
        num_write_locks: 3,
        writable: vec![true, false, true, true],
        invoked: vec![false, false, true, true],
        instruction_account: vec![false, false, false, true],
    };
    let loaded = vec![(key(1), account(key(9), 1, 0)), (key(2), account(key(9), 2, 0)), (key(3), account(key(9), 3, 0)), (key(4), account(key(9), 4, 0))];
    let mut out = Vec::new();
    collect_accounts_for_successful_tx(&mut out, &msg, loaded.clone());
    assert_eq!(out.iter().map(|(k, _)| *k).collect::<Vec<_>>(), vec![key(1), key(4)]);
    let mut out = Vec::new();
    collect_accounts_for_failed_tx(
        &mut out,
        key(1),
        RollbackAccounts::SeparateNonceAndFeePayer { nonce_address: key(7), nonce_account: account(key(9), 1, 0), fee_payer_account: account(key(9), 9, 0) },
    );
    assert_eq!(out.iter().map(|(k, _)| *k).collect::<Vec<_>>(), vec![key(1), key(7)]);

    let txs = vec![msg.clone(), msg.clone(), msg.clone()];
    let results = vec![
        Some(ProcessedTransaction::Executed { succeeded: true, accounts: loaded.clone(), rollback_accounts: RollbackAccounts::FeePayerOnly { fee_payer_account: account(key(9), 1, 0) } }),
        None,
        Some(ProcessedTransaction::FeesOnly { rollback_accounts: RollbackAccounts::SameNonceAndFeePayer { nonce_address: key(8), nonce_account: account(key(9), 1, 0) } }),
    ];
    let max = max_number_of_accounts_to_collect(&txs, &results);
    assert_eq!(max, 4);
    let stored = collect_accounts_to_store(&txs, results);
    assert!(stored.len() <= max);
    assert_eq!(stored.iter().map(|(k, _)| *k).collect::<Vec<_>>(), vec![key(1), key(4), key(8)]);
    assert!(keeps_for_program(&account(key(9), 1, 0), &key(9)));
    assert!(!keeps_for_program(&account(key(9), 0, 0), &key(9)));
    assert!(!keeps_for_program(&account(key(9), 1, 0), &key(8)));
}

#[test]
fn fetcher_stub_counts_and_answers() {
    let mut stub = AccountFetcherStub::new();
    stub.set_undelegated_account(key(1), 12);
    stub.set_feepayer_account(key(2), 13);
    assert_eq!(stub.get_fetch_count(&key(1)), 0);
    let s = stub.fetch_account_chain_snapshot(&key(1)).unwrap();
    assert_eq!(s.at_slot, 12);
    match s.chain_state {
        AccountChainState::Undelegated { account, .. } => {
            assert_eq!(account.lamports, MIN_ACCOUNT_RENT);
            assert!(account.data.is_empty());
            assert!(!account.executable);
        },
        other => panic!("unexpected state {:?}", other),
    }
    assert_eq!(stub.get_fetch_count(&key(1)), 1);
    assert!(stub.fetch_account_chain_snapshot(&key(3)).is_err());
    assert_eq!(stub.get_fetch_count(&key(3)), 1);
    stub.set_delegated_account(key(4), 20, 18);
    let d = stub.fetch_account_chain_snapshot(&key(4)).unwrap();
    assert_eq!(d.at_slot, 20);
    match d.chain_state {
        AccountChainState::Delegated { delegation_record, .. } => {
            assert_eq!(delegation_record.delegation_slot, 18);
            assert_eq!(delegation_record.lamports, 1000);
            assert_ne!(delegation_record.authority, delegation_record.owner);
        },
        other => panic!("unexpected state {:?}", other),
    }
}

#[test]
fn registry_and_startup_decisions() {
    let record = validator_record(key(1), 70_000, Some(5), 840, "validator.example".to_string());
    assert_eq!(record.block_time_ms, 4464);
    assert_eq!(record.base_fee, 5);
    assert_eq!(validator_record(key(1), 50, None, 840, String::new()).base_fee, 0);
    let same = record.clone();
    assert_eq!(registration_action(None, &record), RegistrationAction::Register);
    assert_eq!(registration_action(Some(&same), &record), RegistrationAction::UpToDate);
    let mut changed = record.clone();
    changed.load_average = 3;
    assert_eq!(registration_action(Some(&changed), &record), RegistrationAction::Sync);
    assert_eq!(check_unregistration(None), Err(Error::NoRegisteredValidatorError));
    assert_eq!(check_unregistration(Some(&record)), Ok(()));
    assert_eq!(collection_mode(None), ValidatorCollectionMode::NoFees);
    assert_eq!(collection_mode(Some(0)), ValidatorCollectionMode::Fees);
    assert_eq!(check_slot_after_ledger(5, 5), Ok(()));
    assert_eq!(check_slot_after_ledger(5, 6), Err(ApiError::NextSlotAfterLedgerProcessingNotMatchingBankSlot(5, 6)));
    assert_eq!(keypair_sync(true), KeypairSync::Write);
    assert_eq!(keypair_sync(false), KeypairSync::Compare);
    assert_eq!(
        check_ledger_keypair("l".to_string(), "k".to_string(), false),
        Err(ApiError::LedgerValidatorKeypairNotMatchingProvidedKeypair("l".to_string(), "k".to_string()))
    );
    assert_eq!(programs_to_load(&vec![(key(1), "p.so".to_string())]), vec![(key(1), "p.so".to_string())]);
    assert!(logs_each_slot(5000));
    assert!(!logs_each_slot(50));
}

#[test]
fn big_endian_keys_sort_numerically() {
    assert_eq!(BigEndianU32::new(0x0102_0304).0, [1, 2, 3, 4]);
    let mut keys: Vec<[u8; 4]> = [300u32, 2, 70_000, 1].iter().map(|v| BigEndianU32::new(*v).0).collect();
    keys.sort();
    assert_eq!(keys, vec![BigEndianU32::new(1).0, BigEndianU32::new(2).0, BigEndianU32::new(300).0, BigEndianU32::new(70_000).0]);
}

#[test]
fn batches_lock_in_order_and_unlock_the_successful_ones() {
    let mut locks = AccountLocks::new();
    let requests = vec![
        Ok((vec![key(1)], vec![key(2)])),
        Ok((vec![key(2)], vec![])),
        Err(LockError::Refused("too many account locks".to_string())),
        Ok((vec![key(3)], vec![key(2)])),
    ];
    let keys: Vec<(Vec<Pubkey>, Vec<Pubkey>)> = vec![
        (vec![key(1)], vec![key(2)]),
        (vec![key(2)], vec![]),
        (vec![], vec![]),
        (vec![key(3)], vec![key(2)]),
    ];
    let results = lock_accounts_inner(&mut locks, requests);
    assert_eq!(
        results,
        vec![Ok(()), Err(LockError::AccountInUse), Err(LockError::Refused("too many account locks".to_string())), Ok(())]
    );
    assert_eq!(locks.readonly_locks.get(&key(2)), Some(2));
    unlock_accounts(&mut locks, &keys, &results);
    assert!(!locks.is_locked_write(&key(1)));
    assert!(!locks.is_locked_write(&key(3)));
    assert!(!locks.is_locked_readonly(&key(2)));
}

#[test]
fn lookup_tables_must_exist_and_belong_to_their_program() {
    assert_eq!(check_lookup_table_account(None), Err(AddressLoaderError::LookupTableAccountNotFound));
    let table = account(Pubkey::new_from_array(ADDRESS_LOOKUP_TABLE_PROGRAM_ID), 1, 56);
    assert_eq!(check_lookup_table_account(Some(&table)), Ok(()));
    let other = account(key(9), 1, 56);
    assert_eq!(check_lookup_table_account(Some(&other)), Err(AddressLoaderError::InvalidAccountOwner));
}

#[test]
fn scheduled_commit_skips_missing_accounts_and_lists_feepayers() {
    let payer_snapshot = AccountChainSnapshot { pubkey: key(1), at_slot: 1, chain_state: AccountChainState::FeePayer { lamports: 1, owner: key(2) } };
    let cloned = AccountClonerOutput::Cloned { account_chain_snapshot: payer_snapshot, signature: Signature([0; 64]) };
    let payer = commitment_target(key(1), key(2), Some(&cloned), key(30), key(31));
    let plain = commitment_target(key(3), key(4), None, key(32), key(31));
    let gone = commitment_target(key(5), key(4), None, key(33), key(31));
    let (committees, feepayers) = build_committees(
        vec![(payer, Some(account(key(2), 8, 0))), (plain, Some(account(key(4), 9, 0))), (gone, None)],
        77,
        true,
    );
    assert_eq!(committees.len(), 2);
    assert_eq!(committees[0].pubkey, key(30));
    assert_eq!(committees[0].owner, key(31));
    assert_eq!(committees[1].pubkey, key(3));
    assert!(committees.iter().all(|c| c.slot == 77 && c.undelegation_requested));
    assert_eq!(feepayers.len(), 1);
    assert_eq!(feepayers[0].pubkey, key(1));
    assert_eq!(feepayers[0].delegated_pda, key(30));
}
