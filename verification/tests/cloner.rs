use magicblock_core_logic::cloner::{
    idl_from_snapshot, idl_to_clone, AccountClonerStub, plan_escrow, plan_program, program_data_account, reusable_delegated_signature,
    standard_blacklisted_accounts, Account, AccountChainSnapshot, AccountChainState, AccountClonerError,
    AccountClonerOutput, AccountClonerPermissions, AccountClonerUnclonableReason, CacheStep, ClonePlan,
    DelegationInconsistency, DelegationRecord, EscrowPlan, FetchMode, FetchStep, ProgramPlan, RemoteAccountClonerWorker,
    Signature, ValidatorCollectionMode, ValidatorStage,
};
use magicblock_core_logic::entry_set::EntrySet;
use magicblock_core_logic::monitored::MonitoredAccounts;
use magicblock_core_logic::pubkey::Pubkey;
use magicblock_core_logic::well_known::{
    BPF_LOADER_DEPRECATED_ID, BPF_LOADER_ID, BPF_LOADER_UPGRADEABLE_ID, SYSTEM_PROGRAM_ID, SYSVAR_CLOCK_ID,
};

fn key(n: u8) -> Pubkey {
    let mut b = [0u8; 32];
    b[0] = n;
    b[1] = 0x77;
    Pubkey::new_from_array(b)
}

fn all_permissions() -> AccountClonerPermissions {
    AccountClonerPermissions {
        allow_cloning_refresh: true,
        allow_cloning_feepayer_accounts: true,
        allow_cloning_undelegated_accounts: true,
        allow_cloning_delegated_accounts: true,
        allow_cloning_program_accounts: true,
    }
}

fn no_permissions() -> AccountClonerPermissions {
    AccountClonerPermissions {
        allow_cloning_refresh: false,
        allow_cloning_feepayer_accounts: false,
        allow_cloning_undelegated_accounts: false,
        allow_cloning_delegated_accounts: false,
        allow_cloning_program_accounts: false,
    }
}

fn worker(perms: AccountClonerPermissions, mode: ValidatorCollectionMode, max_monitored: usize) -> RemoteAccountClonerWorker {
    let mut blacklist = EntrySet::new();
    blacklist.insert(key(200));
    RemoteAccountClonerWorker::new(None, blacklist, None, mode, perms, key(100), max_monitored)
}

fn account(owner: Pubkey, lamports: u64, executable: bool) -> Account {
    Account { lamports, data: vec![1, 2, 3], owner, executable, rent_epoch: 0 }
}

fn record(authority: Pubkey, owner: Pubkey, delegation_slot: u64) -> DelegationRecord {
    DelegationRecord { authority, owner, delegation_slot, lamports: 1000, commit_frequency_ms: 0 }
}

fn undelegated(pubkey: Pubkey, at_slot: u64, executable: bool) -> AccountChainSnapshot {
    AccountChainSnapshot {
        pubkey,
        at_slot,
        chain_state: AccountChainState::Undelegated {
            account: account(key(50), 10, executable),
            delegation_inconsistency: DelegationInconsistency::DelegationRecordNotFound,
        },
    }
}

fn delegated(pubkey: Pubkey, at_slot: u64, rec: DelegationRecord) -> AccountChainSnapshot {
    AccountChainSnapshot {
        pubkey,
        at_slot,
        chain_state: AccountChainState::Delegated { account: account(key(60), 5, false), delegation_pda: key(61), delegation_record: rec },
    }
}

fn feepayer(pubkey: Pubkey, at_slot: u64) -> AccountChainSnapshot {
    AccountChainSnapshot { pubkey, at_slot, chain_state: AccountChainState::FeePayer { lamports: 77, owner: key(70) } }
}

#[test]
fn no_cloning_allowed_answers_unclonable_forever() {
    let mut w = worker(no_permissions(), ValidatorCollectionMode::NoFees, 4);
    assert!(!w.can_clone());
    match w.do_clone_or_use_cache(&key(1), Some(10), None, false) {
        CacheStep::Respond(AccountClonerOutput::Unclonable { pubkey, reason, at_slot }) => {
            assert_eq!(pubkey, key(1));
            assert_eq!(reason, AccountClonerUnclonableReason::NoCloningAllowed);
            assert_eq!(at_slot, u64::MAX);
        },
        other => panic!("unexpected step {:?}", other),
    }
}

#[test]
fn recent_clone_is_reused_and_stale_one_is_redone() {
    let mut w = worker(all_permissions(), ValidatorCollectionMode::NoFees, 4);
    let cloned = AccountClonerOutput::Cloned { account_chain_snapshot: undelegated(key(1), 20, false), signature: Signature([9; 64]) };
    assert!(matches!(w.do_clone_or_use_cache(&key(1), Some(20), Some(&cloned), false), CacheStep::UseCached));
    assert!(matches!(w.do_clone_or_use_cache(&key(1), Some(21), Some(&cloned), false), CacheStep::Clone));
    let payer = AccountClonerOutput::Cloned { account_chain_snapshot: feepayer(key(2), 1), signature: Signature([9; 64]) };
    assert!(matches!(w.do_clone_or_use_cache(&key(2), Some(500), Some(&payer), false), CacheStep::UseCached));
    let verdict = AccountClonerOutput::Unclonable { pubkey: key(3), reason: AccountClonerUnclonableReason::IsBlacklisted, at_slot: 30 };
    assert!(matches!(w.do_clone_or_use_cache(&key(3), None, Some(&verdict), false), CacheStep::UseCached));
    assert!(matches!(w.do_clone_or_use_cache(&key(3), Some(31), Some(&verdict), false), CacheStep::Clone));
}

#[test]
fn account_held_locally_is_left_alone() {
    let mut w = worker(all_permissions(), ValidatorCollectionMode::NoFees, 4);
    assert!(matches!(
        w.do_clone_or_use_cache(&key(4), Some(3), None, true),
        CacheStep::Respond(AccountClonerOutput::Unclonable { reason: AccountClonerUnclonableReason::AlreadyLocallyOverriden, at_slot: u64::MAX, .. })
    ));
    assert!(matches!(w.do_clone_or_use_cache(&key(4), Some(3), None, false), CacheStep::Clone));
}

#[test]
fn blacklisted_accounts_are_never_cloned() {
    let w = worker(all_permissions(), ValidatorCollectionMode::NoFees, 4);
    assert!(matches!(
        w.check_blacklisted(&key(200)),
        Some(AccountClonerOutput::Unclonable { reason: AccountClonerUnclonableReason::IsBlacklisted, at_slot: u64::MAX, .. })
    ));
    assert!(w.check_blacklisted(&key(201)).is_none());
}

#[test]
fn fetch_is_retried_until_recent_enough() {
    let w = worker(all_permissions(), ValidatorCollectionMode::NoFees, 4);
    assert_eq!(w.fetch_retries, 50);
    assert!(matches!(w.after_fetch(1, Ok(10), Some(10), Some(10)), FetchStep::Accept));
    assert!(matches!(w.after_fetch(1, Ok(9), Some(10), Some(10)), FetchStep::Retry));
    assert!(matches!(w.after_fetch(50, Ok(9), Some(10), Some(10)), FetchStep::Fail(AccountClonerError::FailedToFetchSatisfactorySlot)));
    assert!(matches!(w.after_fetch(50, Ok(9), None, None), FetchStep::Fail(AccountClonerError::FailedToGetSubscriptionSlot)));
    assert!(matches!(w.after_fetch(3, Ok(u64::MAX), None, None), FetchStep::Accept));
    let err = AccountClonerError::AccountFetcherError("down".to_string());
    assert!(matches!(w.after_fetch(49, Err(err.clone()), None, None), FetchStep::Retry));
    match w.after_fetch(50, Err(err.clone()), None, None) {
        FetchStep::Fail(e) => assert_eq!(e, err),
        other => panic!("unexpected step {:?}", other),
    }
}

#[test]
fn feepayers_are_tracked_and_cloned_by_collection_mode() {
    let mut w = worker(all_permissions(), ValidatorCollectionMode::NoFees, 4);
    let (plan, evicted) = w.plan_clone(&key(1), &feepayer(key(1), 5), &ValidatorStage::Running, None);
    assert!(matches!(plan, ClonePlan::DumpFeePayer { lamports: 77, .. }));
    assert!(evicted.is_none());
    assert_eq!(w.monitored_accounts.len(), 1);
    w.payer_init_lamports = Some(1_000);
    let (plan, _) = w.plan_clone(&key(1), &feepayer(key(1), 5), &ValidatorStage::Running, None);
    assert!(matches!(plan, ClonePlan::DumpFeePayer { lamports: 1_000, .. }));

    let mut w = worker(all_permissions(), ValidatorCollectionMode::Fees, 4);
    let (plan, _) = w.plan_clone(&key(1), &feepayer(key(1), 5), &ValidatorStage::Running, None);
    assert!(matches!(plan, ClonePlan::FetchEscrow { .. }));

    let mut perms = all_permissions();
    perms.allow_cloning_feepayer_accounts = false;
    let mut w = worker(perms, ValidatorCollectionMode::Fees, 4);
    let (plan, _) = w.plan_clone(&key(1), &feepayer(key(1), 5), &ValidatorStage::Running, None);
    assert!(matches!(
        plan,
        ClonePlan::Respond(AccountClonerOutput::Unclonable { reason: AccountClonerUnclonableReason::DoesNotAllowFeePayerAccount, at_slot: 5, .. })
    ));
    assert_eq!(w.monitored_accounts.len(), 0);
}

#[test]
fn monitored_accounts_evict_the_least_recently_used() {
    let mut w = worker(all_permissions(), ValidatorCollectionMode::NoFees, 2);
    let (_, e1) = w.plan_clone(&key(1), &undelegated(key(1), 1, false), &ValidatorStage::Running, None);
    let (_, e2) = w.plan_clone(&key(2), &undelegated(key(2), 1, false), &ValidatorStage::Running, None);
    assert!(e1.is_none() && e2.is_none());
    // a request for key(1) makes it the most recently used
    let _ = w.do_clone_or_use_cache(&key(1), None, None, false);
    let (plan, e3) = w.plan_clone(&key(3), &undelegated(key(3), 1, false), &ValidatorStage::Running, None);
    assert!(matches!(plan, ClonePlan::DumpUndelegated));
    assert_eq!(e3, Some(key(2)));
    assert_eq!(w.monitored_accounts.len(), 2);
    // a delegated account stops being monitored
    let (plan, e4) = w.plan_clone(&key(1), &delegated(key(1), 9, record(key(100), key(8), 3)), &ValidatorStage::Running, None);
    assert!(matches!(plan, ClonePlan::DumpDelegated { lamports: 1000, .. }));
    assert!(e4.is_none());
    assert_eq!(w.monitored_accounts.len(), 1);
}

#[test]
fn programs_are_checked_against_allowed_ids_and_permission() {
    let mut allowed = EntrySet::new();
    allowed.insert(key(9));
    let mut w = RemoteAccountClonerWorker::new(
        Some(allowed),
        EntrySet::new(),
        None,
        ValidatorCollectionMode::NoFees,
        all_permissions(),
        key(100),
        4,
    );
    let (plan, _) = w.plan_clone(&key(8), &undelegated(key(8), 4, true), &ValidatorStage::Running, None);
    assert!(matches!(
        plan,
        ClonePlan::Respond(AccountClonerOutput::Unclonable { reason: AccountClonerUnclonableReason::IsNotAnAllowedProgram, at_slot: u64::MAX, .. })
    ));
    let (plan, _) = w.plan_clone(&key(9), &undelegated(key(9), 4, true), &ValidatorStage::Running, None);
    assert!(matches!(plan, ClonePlan::CloneProgram));
    w.permissions.allow_cloning_program_accounts = false;
    let (plan, _) = w.plan_clone(&key(9), &undelegated(key(9), 4, true), &ValidatorStage::Running, None);
    assert!(matches!(
        plan,
        ClonePlan::Respond(AccountClonerOutput::Unclonable { reason: AccountClonerUnclonableReason::DoesNotAllowProgramAccount, at_slot: 4, .. })
    ));
    assert_eq!(w.monitored_accounts.len(), 0);
}

#[test]
fn undelegated_and_delegated_permissions_are_enforced() {
    let mut perms = all_permissions();
    perms.allow_cloning_undelegated_accounts = false;
    perms.allow_cloning_delegated_accounts = false;
    let mut w = worker(perms, ValidatorCollectionMode::NoFees, 4);
    let (plan, _) = w.plan_clone(&key(1), &undelegated(key(1), 6, false), &ValidatorStage::Running, None);
    assert!(matches!(
        plan,
        ClonePlan::Respond(AccountClonerOutput::Unclonable { reason: AccountClonerUnclonableReason::DoesNotAllowUndelegatedAccount, at_slot: 6, .. })
    ));
    let (plan, _) = w.plan_clone(&key(1), &delegated(key(1), 7, record(key(5), key(6), 1)), &ValidatorStage::Running, None);
    assert!(matches!(
        plan,
        ClonePlan::Respond(AccountClonerOutput::Unclonable { reason: AccountClonerUnclonableReason::DoesNotAllowDelegatedAccount, at_slot: 7, .. })
    ));
}

#[test]
fn delegated_to_us_while_hydrating_is_reused() {
    let mut w = worker(all_permissions(), ValidatorCollectionMode::NoFees, 4);
    let stage = ValidatorStage::Hydrating { validator_identity: key(100), account_owner: key(6) };
    let rec = record(key(100), key(6), 1);
    assert!(!stage.should_clone_delegated_account(&rec));
    let (plan, _) = w.plan_clone(&key(1), &delegated(key(1), 7, rec), &stage, Some(key(6)));
    assert!(matches!(plan, ClonePlan::ReuseReplayed));
    let (plan, _) = w.plan_clone(&key(1), &delegated(key(1), 7, rec), &stage, Some(key(7)));
    assert!(matches!(plan, ClonePlan::DumpDelegated { .. }));
    // unset authority: decided by the owner in our bank
    let unset = record(Pubkey::new_from_array(SYSTEM_PROGRAM_ID), key(6), 1);
    assert!(!stage.should_clone_delegated_account(&unset));
    let other_owner = ValidatorStage::Hydrating { validator_identity: key(100), account_owner: key(9) };
    assert!(other_owner.should_clone_delegated_account(&unset));
    assert!(ValidatorStage::Running.should_clone_delegated_account(&rec));
}

#[test]
fn escrow_decides_how_feepayers_are_charged() {
    let w = worker(all_permissions(), ValidatorCollectionMode::Fees, 4);
    let escrow = delegated(key(40), 12, record(key(100), key(6), 1));
    assert!(w.is_usable_escrow(&escrow));
    assert!(w.is_usable_escrow(&delegated(key(40), 12, record(Pubkey::new_from_array(SYSTEM_PROGRAM_ID), key(6), 1))));
    assert!(!w.is_usable_escrow(&delegated(key(40), 12, record(key(101), key(6), 1))));
    assert!(!w.is_usable_escrow(&undelegated(key(40), 12, false)));

    assert!(matches!(
        plan_escrow(&key(1), 10, None, false),
        EscrowPlan::Respond(AccountClonerOutput::Unclonable { reason: AccountClonerUnclonableReason::DoesNotHaveEscrowAccount, at_slot: 10, .. })
    ));
    assert!(matches!(
        plan_escrow(&key(1), 10, Some(&feepayer(key(40), 11)), false),
        EscrowPlan::Respond(AccountClonerOutput::Unclonable { reason: AccountClonerUnclonableReason::DoesNotHaveDelegatedEscrowAccount, at_slot: 11, .. })
    ));
    assert!(matches!(
        plan_escrow(&key(1), 10, Some(&escrow), true),
        EscrowPlan::Respond(AccountClonerOutput::Unclonable { reason: AccountClonerUnclonableReason::DoesNotAllowFeepayerWithEscrowedPda, at_slot: 10, .. })
    ));
    match plan_escrow(&key(1), 10, Some(&escrow), false) {
        EscrowPlan::Record { escrow_output: AccountClonerOutput::Unclonable { pubkey, reason, at_slot }, lamports } => {
            assert_eq!(pubkey, key(40));
            assert_eq!(reason, AccountClonerUnclonableReason::DoesNotAllowEscrowedPda);
            assert_eq!(at_slot, u64::MAX);
            assert_eq!(lamports, 5);
        },
        other => panic!("unexpected plan {:?}", other),
    }
}

#[test]
fn programs_are_routed_by_loader() {
    assert_eq!(plan_program(&account(Pubkey::new_from_array(BPF_LOADER_DEPRECATED_ID), 1, true)), ProgramPlan::Unsupported);
    assert_eq!(plan_program(&account(Pubkey::new_from_array(BPF_LOADER_ID), 1, true)), ProgramPlan::OldBpf);
    assert_eq!(plan_program(&account(Pubkey::new_from_array(BPF_LOADER_UPGRADEABLE_ID), 1, true)), ProgramPlan::Upgradeable);
    assert!(matches!(program_data_account(feepayer(key(1), 1)), Err(AccountClonerError::ProgramDataDoesNotExist)));
    assert_eq!(program_data_account(undelegated(key(1), 1, false)).unwrap().lamports, 10);
}

#[test]
fn idl_prefers_anchor_and_needs_lamports() {
    let anchor = idl_from_snapshot(key(30), undelegated(key(30), 1, false));
    let shank = idl_from_snapshot(key(31), undelegated(key(31), 1, false));
    assert!(idl_from_snapshot(key(32), feepayer(key(32), 1)).is_none());
    assert_eq!(idl_to_clone(anchor.clone(), shank.clone()).unwrap().0, key(30));
    assert_eq!(idl_to_clone(None, shank.clone()).unwrap().0, key(31));
    let empty = Some((key(33), account(key(1), 0, false)));
    assert!(idl_to_clone(empty, shank).is_none());
    assert!(idl_to_clone(None, None).is_none());
}

#[test]
fn delegated_signature_is_reused_for_the_same_delegation() {
    let rec = record(key(100), key(6), 3);
    let cloned = AccountClonerOutput::Cloned { account_chain_snapshot: delegated(key(1), 5, rec), signature: Signature([4; 64]) };
    assert_eq!(reusable_delegated_signature(Some(&cloned), &rec).unwrap().0, [4; 64]);
    assert!(reusable_delegated_signature(Some(&cloned), &record(key(100), key(6), 4)).is_none());
    assert!(reusable_delegated_signature(None, &rec).is_none());
}

#[test]
fn hydration_skips_blacklisted_rich_and_program_data_accounts() {
    let w = worker(all_permissions(), ValidatorCollectionMode::NoFees, 4);
    let accounts = vec![
        (key(1), account(key(50), 10, false)),
        (key(200), account(key(50), 10, false)),
        (key(2), account(key(50), u64::MAX / 2 + 1, false)),
        (key(3), account(Pubkey::new_from_array(BPF_LOADER_UPGRADEABLE_ID), 10, false)),
        (key(4), account(Pubkey::new_from_array(BPF_LOADER_UPGRADEABLE_ID), 10, true)),
    ];
    let candidates = w.hydrate_candidates(&accounts);
    assert_eq!(candidates, vec![(key(1), key(50)), (key(4), Pubkey::new_from_array(BPF_LOADER_UPGRADEABLE_ID))]);
    let off = worker(no_permissions(), ValidatorCollectionMode::NoFees, 4);
    assert!(off.hydrate_candidates(&accounts).is_empty());
}

#[test]
fn standard_blacklist_holds_builtins_validator_and_faucet() {
    let set = standard_blacklisted_accounts(&key(100), &key(101));
    assert!(set.contains(&key(100)));
    assert!(set.contains(&key(101)));
    assert!(set.contains(&Pubkey::new_from_array(SYSVAR_CLOCK_ID)));
    assert!(set.contains(&Pubkey::new_from_array(SYSTEM_PROGRAM_ID)));
    assert!(!set.contains(&key(102)));
    assert_eq!(set.to_vec().len(), 34);
}

#[test]
fn monitored_accounts_wrapper_follows_the_cache() {
    let mut m = MonitoredAccounts::new(2);
    assert_eq!(m.len(), 0);
    assert_eq!(m.track_not_delegated_account(&key(1)), None);
    assert_eq!(m.track_not_delegated_account(&key(2)), None);
    assert_eq!(m.track_not_delegated_account(&key(1)), None);
    assert_eq!(m.track_not_delegated_account(&key(3)), Some(key(2)));
    assert!(m.promote(&key(1)));
    assert!(!m.promote(&key(2)));
    assert!(m.forget(&key(1)));
    assert!(!m.forget(&key(1)));
    assert_eq!(m.len(), 1);
}

#[test]
fn cloner_stub_answers_the_last_output_set() {
    let mut stub = AccountClonerStub::new();
    assert!(matches!(stub.clone_account(&key(1)), Err(AccountClonerError::AccountFetcherError(_))));
    stub.set(&key(1), AccountClonerOutput::Unclonable { pubkey: key(1), reason: AccountClonerUnclonableReason::IsBlacklisted, at_slot: 3 });
    stub.set(&key(2), AccountClonerOutput::Unclonable { pubkey: key(2), reason: AccountClonerUnclonableReason::NoCloningAllowed, at_slot: 4 });
    stub.set(&key(1), AccountClonerOutput::Unclonable { pubkey: key(1), reason: AccountClonerUnclonableReason::DoesNotAllowProgramAccount, at_slot: 5 });
    assert!(matches!(
        stub.clone_account(&key(1)),
        Ok(AccountClonerOutput::Unclonable { reason: AccountClonerUnclonableReason::DoesNotAllowProgramAccount, at_slot: 5, .. })
    ));
    assert!(matches!(stub.clone_account(&key(2)), Ok(AccountClonerOutput::Unclonable { at_slot: 4, .. })));
}

#[test]
fn accounts_are_fetched_until_subscribed_only_when_refresh_is_allowed() {
    let w = worker(all_permissions(), ValidatorCollectionMode::NoFees, 4);
    assert_eq!(w.fetch_mode(), FetchMode::UntilSubscribed);
    let mut perms = all_permissions();
    perms.allow_cloning_refresh = false;
    let w = worker(perms, ValidatorCollectionMode::NoFees, 4);
    assert_eq!(w.fetch_mode(), FetchMode::Once);
}
