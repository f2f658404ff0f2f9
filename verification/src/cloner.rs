use vstd::prelude::*;

use crate::entry_set::EntrySet;
use crate::monitored::{evicted_by, tracked_keys, without, MonitoredAccounts};
use crate::pubkey::Pubkey;
use crate::well_known::{
    BPF_LOADER_DEPRECATED_ID, BPF_LOADER_ID, BPF_LOADER_UPGRADEABLE_ID, BUILTIN_BLACKLIST,
};

verus! {

/// An account as it is held on chain or in the bank.
#[derive(Clone, Debug)]
pub struct Account {
    pub lamports: u64,
    pub data: Vec<u8>,
    pub owner: Pubkey,
    pub executable: bool,
    pub rent_epoch: u64,
}

impl Account {
    /// Whether `other` holds what this account holds, field by field.
    pub open spec fn same_content(self, other: Account) -> bool {
        &&& self.lamports == other.lamports
        &&& self.data@ == other.data@
        &&& self.owner == other.owner
        &&& self.executable == other.executable
        &&& self.rent_epoch == other.rent_epoch
    }

    /// A copy of this account.
    pub fn duplicate(&self) -> (r: Account)
        ensures
            r.same_content(*self),
    {
        let data = self.data.clone();
        proof {
            assert(data@ =~= self.data@);
        }
        Account { lamports: self.lamports, data, owner: self.owner, executable: self.executable, rent_epoch: self.rent_epoch }
    }
}

/// The record the delegation program keeps for a delegated account.
#[derive(Clone, Copy, Debug)]
pub struct DelegationRecord {
    /// The validator the account is delegated to (all zero when unset).
    pub authority: Pubkey,
    /// The owner the account had before delegation.
    pub owner: Pubkey,
    /// The slot at which the account was delegated.
    pub delegation_slot: u64,
    /// The lamports the account held when it was delegated.
    pub lamports: u64,
    /// How often the account is committed back, in milliseconds.
    pub commit_frequency_ms: u64,
}

/// Why an account that looks delegated is treated as undelegated.
#[derive(Clone, Copy, Debug, PartialEq, Eq)]
pub enum DelegationInconsistency {
    AccountInvalidOwner,
    DelegationRecordNotFound,
    DelegationRecordInvalidData,
}

/// What an account is on chain.
#[derive(Clone, Debug)]
pub enum AccountChainState {
    /// A plain wallet: system owned, no data.
    FeePayer { lamports: u64, owner: Pubkey },
    /// An account that is not delegated.
    Undelegated { account: Account, delegation_inconsistency: DelegationInconsistency },
    /// An account delegated to an ephemeral validator.
    Delegated { account: Account, delegation_pda: Pubkey, delegation_record: DelegationRecord },
}

impl AccountChainState {
    /// Whether the account is a fee payer.
    pub fn is_feepayer(&self) -> (r: bool)
        ensures
            r == (*self is FeePayer),
    {
        match self {
            AccountChainState::FeePayer { .. } => true,
            _ => false,
        }
    }

    /// Whether the account is delegated.
    pub fn is_delegated(&self) -> (r: bool)
        ensures
            r == (*self is Delegated),
    {
        match self {
            AccountChainState::Delegated { .. } => true,
            _ => false,
        }
    }

    /// The account's content, unless it is a fee payer.
    pub fn account(&self) -> (r: Option<&Account>)
        ensures
            *self is FeePayer ==> r is None,
            *self matches AccountChainState::Undelegated { account, .. } ==> r == Some(&account),
            *self matches AccountChainState::Delegated { account, .. } ==> r == Some(&account),
    {
        match self {
            AccountChainState::FeePayer { .. } => None,
            AccountChainState::Undelegated { account, .. } => Some(account),
            AccountChainState::Delegated { account, .. } => Some(account),
        }
    }
}

/// The state of an account on chain, observed at a slot.
#[derive(Clone, Debug)]
pub struct AccountChainSnapshot {
    pub pubkey: Pubkey,
    pub at_slot: u64,
    pub chain_state: AccountChainState,
}

/// A transaction signature.
#[derive(Clone, Copy, Debug)]
pub struct Signature(pub [u8; 64]);

/// Why an account was not cloned.
#[derive(Clone, Copy, Debug, PartialEq, Eq)]
pub enum AccountClonerUnclonableReason {
    AlreadyLocallyOverriden,
    NoCloningAllowed,
    IsBlacklisted,
    IsNotAnAllowedProgram,
    DoesNotAllowFeePayerAccount,
    DoesNotAllowUndelegatedAccount,
    DoesNotAllowDelegatedAccount,
    DoesNotAllowProgramAccount,
    DoesNotHaveEscrowAccount,
    DoesNotHaveDelegatedEscrowAccount,
    DoesNotAllowFeepayerWithEscrowedPda,
    DoesNotAllowEscrowedPda,
    /// If an account is delegated to our validator then we should use the latest
    /// state in our own bank since that is more up to date than the on-chain state.
    DelegatedAccountsNotClonedWhileHydrating,
}

/// Which kinds of accounts the validator may clone.
#[derive(Clone, Copy, Debug, PartialEq, Eq)]
pub struct AccountClonerPermissions {
    pub allow_cloning_refresh: bool,
    pub allow_cloning_feepayer_accounts: bool,
    pub allow_cloning_undelegated_accounts: bool,
    pub allow_cloning_delegated_accounts: bool,
    pub allow_cloning_program_accounts: bool,
}

impl AccountClonerPermissions {
    /// Some kind of account may be cloned.
    pub open spec fn any(self) -> bool {
        self.allow_cloning_feepayer_accounts || self.allow_cloning_undelegated_accounts
            || self.allow_cloning_delegated_accounts || self.allow_cloning_program_accounts
    }

    /// Whether any kind of account may be cloned.
    pub fn can_clone(&self) -> (r: bool)
        ensures
            r == self.any(),
    {
        self.allow_cloning_feepayer_accounts || self.allow_cloning_undelegated_accounts
            || self.allow_cloning_delegated_accounts || self.allow_cloning_program_accounts
    }
}

/// The result of cloning an account.
#[derive(Clone, Debug)]
pub enum AccountClonerOutput {
    /// The account was written into the bank.
    Cloned { account_chain_snapshot: AccountChainSnapshot, signature: Signature },
    /// The account was not cloned; the decision holds until `at_slot`.
    Unclonable { pubkey: Pubkey, reason: AccountClonerUnclonableReason, at_slot: u64 },
}

/// Why cloning failed.
#[derive(Clone, Debug, PartialEq, Eq)]
pub enum AccountClonerError {
    SendError(String),
    RecvError(String),
    AccountFetcherError(String),
    AccountUpdatesError(String),
    AccountDumperError(String),
    ProgramDataDoesNotExist,
    FailedToFetchSatisfactorySlot,
    FailedToGetSubscriptionSlot,
}

/// Whether the validator charges fees, which decides how fee payers are cloned.
#[derive(Clone, Copy, Debug, PartialEq, Eq)]
pub enum ValidatorCollectionMode {
    Fees,
    NoFees,
}

/// The phase the validator is in when it clones an account.
#[derive(Clone, Copy, Debug)]
pub enum ValidatorStage {
    /// Replaying the ledger at startup.
    Hydrating {
        /// The identity of our validator.
        validator_identity: Pubkey,
        /// The owner of the account inside our validator.
        account_owner: Pubkey,
    },
    /// Serving requests.
    Running,
}

impl ValidatorStage {
    /// Whether a delegated account with this record should be cloned at this
    /// stage: while hydrating, one delegated to us is kept as it is.
    pub open spec fn clones_delegated(self, record: DelegationRecord) -> bool {
        match self {
            ValidatorStage::Hydrating { validator_identity, account_owner } => if !record.authority.is_zero() {
                record.authority != validator_identity
            } else {
                account_owner != record.owner
            },
            ValidatorStage::Running => true,
        }
    }

    /// Decides whether a delegated account should be cloned at this stage.
    pub fn should_clone_delegated_account(&self, record: &DelegationRecord) -> (r: bool)
        ensures
            r == self.clones_delegated(*record),
    {
        match self {
            ValidatorStage::Hydrating { validator_identity, account_owner } => {
                let zero = Pubkey::zero();
                if !record.authority.same_as(&zero) {
                    proof {
                        if record.authority.is_zero() {
                            assert(record.authority.0 =~= zero.0);
                        }
                    }
                    !record.authority.same_as(validator_identity)
                } else {
                    !account_owner.same_as(&record.owner)
                }
            },
            ValidatorStage::Running => true,
        }
    }
}

/// What to do with a clone request in view of the previous clone of the
/// same account.
#[derive(Debug)]
pub enum CacheStep {
    /// Answer with this output.
    Respond(AccountClonerOutput),
    /// The previous output still holds: answer with it.
    UseCached,
    /// Clone the account (again) and remember the output.
    Clone,
}

/// Whether a previous clone output still holds when the account was last
/// updated on chain at `last_update_slot`: a clone taken at or after that
/// slot, a fee payer, or an unclonable verdict that holds until then.
pub open spec fn still_holds(output: AccountClonerOutput, last_update_slot: u64) -> bool {
    match output {
        AccountClonerOutput::Cloned { account_chain_snapshot, .. } => account_chain_snapshot.at_slot
            >= last_update_slot || account_chain_snapshot.chain_state is FeePayer,
        AccountClonerOutput::Unclonable { at_slot, .. } => at_slot >= last_update_slot,
    }
}

/// The step taken for a request when cloning is allowed.
pub open spec fn cache_step(
    pubkey: Pubkey,
    last_update_slot: u64,
    last: Option<AccountClonerOutput>,
    has_account: bool,
) -> CacheStep {
    match last {
        Some(output) => if still_holds(output, last_update_slot) {
            CacheStep::UseCached
        } else {
            CacheStep::Clone
        },
        None => if has_account {
            CacheStep::Respond(
                AccountClonerOutput::Unclonable {
                    pubkey,
                    reason: AccountClonerUnclonableReason::AlreadyLocallyOverriden,
                    at_slot: u64::MAX,
                },
            )
        } else {
            CacheStep::Clone
        },
    }
}

/// How an account's state is fetched before it is cloned.
#[derive(Clone, Copy, Debug, PartialEq, Eq)]
pub enum FetchMode {
    /// Fetch once, at whatever slot the cluster answers; nothing is
    /// monitored.
    Once,
    /// Start monitoring the account, then fetch until the state is no older
    /// than the slot at which its subscription took effect.
    UntilSubscribed,
}

/// What to do after one attempt to fetch an account's state.
#[derive(Debug)]
pub enum FetchStep {
    /// The state is recent enough: clone from it.
    Accept,
    /// Wait a little and fetch again.
    Retry,
    /// Give up with this error.
    Fail(AccountClonerError),
}

/// What to do with an account, once its state on chain is known.
#[derive(Debug)]
pub enum ClonePlan {
    /// Answer with this output, cloning nothing.
    Respond(AccountClonerOutput),
    /// Write a fee payer with these lamports and owner into the bank.
    DumpFeePayer { lamports: u64, owner: Pubkey },
    /// Fetch the fee payer's escrow account first; the fee payer has this owner.
    FetchEscrow { owner: Pubkey },
    /// Clone the program and the accounts that go with it.
    CloneProgram,
    /// Write the undelegated account into the bank.
    DumpUndelegated,
    /// Write the delegated account into the bank, with these lamports and
    /// this owner in place of its own.
    DumpDelegated { lamports: u64, owner: Pubkey },
    /// The account was cloned before the validator restarted: answer as if
    /// it had just been cloned.
    ReuseReplayed,
}

/// What to do with a fee payer's escrow account.
#[derive(Debug)]
pub enum EscrowPlan {
    /// Answer with this output, cloning nothing.
    Respond(AccountClonerOutput),
    /// Record `escrow_output` for the escrow account, then write the fee
    /// payer into the bank with the escrowed `lamports`.
    Record { escrow_output: AccountClonerOutput, lamports: u64 },
}

/// How a program is cloned, by the loader that owns it.
#[derive(Clone, Copy, Debug, PartialEq, Eq)]
pub enum ProgramPlan {
    /// Programs of the deprecated loader cannot be cloned.
    Unsupported,
    /// A program of the first BPF loader, cloned on its own.
    OldBpf,
    /// An upgradeable program: its program data account (and IDL, if any)
    /// are cloned with it.
    Upgradeable,
}

/// An unclonable verdict for `pubkey`.
pub open spec fn unclonable(pubkey: Pubkey, reason: AccountClonerUnclonableReason, at_slot: u64) -> AccountClonerOutput {
    AccountClonerOutput::Unclonable { pubkey, reason, at_slot }
}

/// The plan for an account whose state on chain is `snapshot`, for a worker
/// with permissions `perms`, the allowed programs `allowed` (if any), and
/// the given way of charging fees; `local_owner` is the owner of the copy
/// the bank holds, if any.
pub open spec fn clone_plan(
    perms: AccountClonerPermissions,
    allowed: Option<Set<Pubkey>>,
    payer_init_lamports: Option<u64>,
    mode: ValidatorCollectionMode,
    pubkey: Pubkey,
    snapshot: AccountChainSnapshot,
    stage: ValidatorStage,
    local_owner: Option<Pubkey>,
) -> ClonePlan {
    let at_slot = snapshot.at_slot;
    match snapshot.chain_state {
        AccountChainState::FeePayer { lamports, owner } => if !perms.allow_cloning_feepayer_accounts {
            ClonePlan::Respond(unclonable(pubkey, AccountClonerUnclonableReason::DoesNotAllowFeePayerAccount, at_slot))
        } else if mode == ValidatorCollectionMode::NoFees {
            ClonePlan::DumpFeePayer {
                lamports: match payer_init_lamports {
                    Some(l) => l,
                    None => lamports,
                },
                owner,
            }
        } else {
            ClonePlan::FetchEscrow { owner }
        },
        AccountChainState::Undelegated { account, .. } => if account.executable {
            if allowed is Some && !allowed->0.contains(pubkey) {
                ClonePlan::Respond(unclonable(pubkey, AccountClonerUnclonableReason::IsNotAnAllowedProgram, u64::MAX))
            } else if !perms.allow_cloning_program_accounts {
                ClonePlan::Respond(unclonable(pubkey, AccountClonerUnclonableReason::DoesNotAllowProgramAccount, at_slot))
            } else {
                ClonePlan::CloneProgram
            }
        } else if !perms.allow_cloning_undelegated_accounts {
            ClonePlan::Respond(unclonable(pubkey, AccountClonerUnclonableReason::DoesNotAllowUndelegatedAccount, at_slot))
        } else {
            ClonePlan::DumpUndelegated
        },
        AccountChainState::Delegated { delegation_record, .. } => if !perms.allow_cloning_delegated_accounts {
            ClonePlan::Respond(unclonable(pubkey, AccountClonerUnclonableReason::DoesNotAllowDelegatedAccount, at_slot))
        } else if !stage.clones_delegated(delegation_record) && local_owner == Some(delegation_record.owner) {
            ClonePlan::ReuseReplayed
        } else {
            ClonePlan::DumpDelegated { lamports: delegation_record.lamports, owner: delegation_record.owner }
        },
    }
}

/// Whether planning the clone starts monitoring the account: an allowed fee
/// payer, or an allowed undelegated account that is not a program.
pub open spec fn starts_monitoring(perms: AccountClonerPermissions, snapshot: AccountChainSnapshot) -> bool {
    match snapshot.chain_state {
        AccountChainState::FeePayer { .. } => perms.allow_cloning_feepayer_accounts,
        AccountChainState::Undelegated { account, .. } => !account.executable && perms.allow_cloning_undelegated_accounts,
        AccountChainState::Delegated { .. } => false,
    }
}

/// Whether a fetched escrow account may stand for a fee payer's balance:
/// it is delegated to this validator, or to no validator in particular.
pub open spec fn usable_escrow(validator: Pubkey, snapshot: AccountChainSnapshot) -> bool {
    match snapshot.chain_state {
        AccountChainState::Delegated { delegation_record, .. } => delegation_record.authority == validator
            || delegation_record.authority.is_zero(),
        _ => false,
    }
}

/// How a program owned by `owner` is cloned.
pub open spec fn program_plan(owner: Pubkey) -> ProgramPlan {
    if owner.0 == BPF_LOADER_DEPRECATED_ID {
        ProgramPlan::Unsupported
    } else if owner.0 == BPF_LOADER_ID {
        ProgramPlan::OldBpf
    } else {
        ProgramPlan::Upgradeable
    }
}

/// Whether an account found in the bank at startup is cloned again: it is
/// not blacklisted, holds at most half of the largest lamport amount, and
/// is not the data account of an upgradeable program.
pub open spec fn hydratable(blacklist: Set<Pubkey>, pubkey: Pubkey, account: Account) -> bool {
    &&& !blacklist.contains(pubkey)
    &&& account.lamports <= u64::MAX / 2
    &&& !(!account.executable && account.owner.0 == BPF_LOADER_UPGRADEABLE_ID)
}

/// The accounts cloned at startup, with their owners, in the given order.
pub open spec fn hydrate_list(blacklist: Set<Pubkey>, accounts: Seq<(Pubkey, Account)>) -> Seq<(Pubkey, Pubkey)>
    decreases accounts.len(),
{
    if accounts.len() == 0 {
        Seq::empty()
    } else {
        let rest = hydrate_list(blacklist, accounts.drop_last());
        let (pk, acc) = accounts.last();
        if hydratable(blacklist, pk, acc) {
            rest.push((pk, acc.owner))
        } else {
            rest
        }
    }
}

/// The addresses the standard blacklist holds besides the validator and
/// the faucet.
pub open spec fn builtin_blacklist() -> Set<Pubkey> {
    Set::new(|k: Pubkey| BUILTIN_BLACKLIST@.contains(k.0))
}

/// Whether two addresses are the same, byte for byte.
fn same_bytes(a: &[u8; 32], b: &[u8; 32]) -> (r: bool)
    ensures
        r == (*a == *b),
{
    Pubkey(*a).same_as(&Pubkey(*b))
}

/// The accounts that a validator never clones: the builtin programs,
/// sysvars and magic accounts, the validator itself and its faucet.
pub fn standard_blacklisted_accounts(validator_id: &Pubkey, faucet_id: &Pubkey) -> (r: EntrySet<Pubkey>)
    ensures
        r.wf(),
        r@ == builtin_blacklist().insert(*validator_id).insert(*faucet_id),
{
    let mut set: EntrySet<Pubkey> = EntrySet::new();
    let mut i: usize = 0;
    while i < 32
        invariant
            0 <= i <= 32,
            set.wf(),
            set@ == Set::new(|k: Pubkey| BUILTIN_BLACKLIST@.subrange(0, i as int).contains(k.0)),
        decreases 32 - i,
    {
        let ghost pre = set@;
        set.insert(Pubkey(BUILTIN_BLACKLIST[i]));
        proof {
            let next = Set::new(|k: Pubkey| BUILTIN_BLACKLIST@.subrange(0, i + 1).contains(k.0));
            assert forall|k: Pubkey| #[trigger] next.contains(k) == set@.contains(k) by {
                let a = BUILTIN_BLACKLIST@.subrange(0, i as int);
                let b = BUILTIN_BLACKLIST@.subrange(0, i + 1);
                assert(b =~= a.push(BUILTIN_BLACKLIST@[i as int]));
                if b.contains(k.0) {
                    let j = choose|j: int| 0 <= j < b.len() && b[j] == k.0;
                    if j < i {
                        assert(a[j] == k.0);
                    } else {
                        assert(k.0 =~= Pubkey(BUILTIN_BLACKLIST[i as int]).0);
                    }
                }
                if a.contains(k.0) {
                    let j = choose|j: int| 0 <= j < a.len() && a[j] == k.0;
                    assert(b[j] == k.0);
                }
                if k == Pubkey(BUILTIN_BLACKLIST[i as int]) {
                    assert(b[i as int] == k.0);
                }
            }
            assert(set@ =~= next);
        }
        i = i + 1;
    }
    proof {
        assert(BUILTIN_BLACKLIST@.subrange(0, 32) =~= BUILTIN_BLACKLIST@);
        assert(set@ =~= builtin_blacklist());
    }
    set.insert(*validator_id);
    set.insert(*faucet_id);
    set
}

/// The decisions of the account cloner: which accounts may be cloned, when
/// a previous clone can be reused, how long to retry a fetch, and which
/// accounts are monitored for updates.
pub struct RemoteAccountClonerWorker {
    /// When set, only these programs may be cloned.
    pub allowed_program_ids: Option<EntrySet<Pubkey>>,
    /// Accounts that are never cloned.
    pub blacklisted_accounts: EntrySet<Pubkey>,
    /// Lamports given to fee payers when the validator charges no fees.
    pub payer_init_lamports: Option<u64>,
    pub validator_charges_fees: ValidatorCollectionMode,
    pub permissions: AccountClonerPermissions,
    /// How many times an account is fetched before giving up.
    pub fetch_retries: u64,
    pub validator_identity: Pubkey,
    /// Accounts that are not delegated and whose updates are monitored.
    pub monitored_accounts: MonitoredAccounts,
}

impl RemoteAccountClonerWorker {
    /// The monitored accounts are well formed.
    pub open spec fn wf(&self) -> bool {
        self.monitored_accounts.wf()
    }

    /// A worker with the given configuration, monitoring at most
    /// `max_monitored_accounts` accounts, fetching at most fifty times.
    pub fn new(
        allowed_program_ids: Option<EntrySet<Pubkey>>,
        blacklisted_accounts: EntrySet<Pubkey>,
        payer_init_lamports: Option<u64>,
        validator_charges_fees: ValidatorCollectionMode,
        permissions: AccountClonerPermissions,
        validator_authority: Pubkey,
        max_monitored_accounts: usize,
    ) -> (r: Self)
        requires
            max_monitored_accounts > 0,
        ensures
            r.wf(),
            r.allowed_program_ids == allowed_program_ids,
            r.blacklisted_accounts == blacklisted_accounts,
            r.payer_init_lamports == payer_init_lamports,
            r.validator_charges_fees == validator_charges_fees,
            r.permissions == permissions,
            r.fetch_retries == 50,
            r.validator_identity == validator_authority,
            r.monitored_accounts.keys() == Seq::<[u8; 32]>::empty(),
            r.monitored_accounts.cap() == max_monitored_accounts,
    {
        RemoteAccountClonerWorker {
            allowed_program_ids,
            blacklisted_accounts,
            payer_init_lamports,
            validator_charges_fees,
            permissions,
            fetch_retries: 50,
            validator_identity: validator_authority,
            monitored_accounts: MonitoredAccounts::new(max_monitored_accounts),
        }
    }

    /// Whether any kind of account may be cloned.
    pub fn can_clone(&self) -> (r: bool)
        ensures
            r == self.permissions.any(),
    {
        self.permissions.can_clone()
    }

    /// Decides how to answer a clone request for `pubkey`, given the last
    /// slot at which the account was seen updated on chain, the output of
    /// its previous clone and whether the bank already holds it. A request
    /// marks the account as recently used among the monitored ones.
    pub fn do_clone_or_use_cache(
        &mut self,
        pubkey: &Pubkey,
        last_known_update_slot: Option<u64>,
        last_clone_output: Option<&AccountClonerOutput>,
        has_account: bool,
    ) -> (r: CacheStep)
        requires
            old(self).wf(),
        ensures
            final(self).wf(),
            final(self).permissions == old(self).permissions,
            final(self).blacklisted_accounts == old(self).blacklisted_accounts,
            final(self).allowed_program_ids == old(self).allowed_program_ids,
            final(self).monitored_accounts.cap() == old(self).monitored_accounts.cap(),
            !old(self).permissions.any() ==> r == CacheStep::Respond(
                unclonable(*pubkey, AccountClonerUnclonableReason::NoCloningAllowed, u64::MAX),
            ) && final(self).monitored_accounts.keys() == old(self).monitored_accounts.keys(),
            old(self).permissions.any() ==> r == cache_step(
                *pubkey,
                match last_known_update_slot {
                    Some(s) => s,
                    None => 0,
                },
                match last_clone_output {
                    Some(o) => Some(*o),
                    None => None,
                },
                has_account,
            ),
            old(self).permissions.any() && old(self).monitored_accounts.keys().contains(pubkey.0)
                ==> final(self).monitored_accounts.keys() == without(
                old(self).monitored_accounts.keys(),
                pubkey.0,
            ).push(pubkey.0),
            !old(self).monitored_accounts.keys().contains(pubkey.0)
                ==> final(self).monitored_accounts.keys() == old(self).monitored_accounts.keys(),
    {
        if !self.can_clone() {
            return CacheStep::Respond(
                AccountClonerOutput::Unclonable {
                    pubkey: *pubkey,
                    reason: AccountClonerUnclonableReason::NoCloningAllowed,
                    at_slot: u64::MAX,
                },
            );
        }
        let last_update_slot = match last_known_update_slot {
            Some(s) => s,
            None => 0,
        };
        self.monitored_accounts.promote(pubkey);
        match last_clone_output {
            Some(output) => {
                let holds = match output {
                    AccountClonerOutput::Cloned { account_chain_snapshot, .. } => {
                        account_chain_snapshot.at_slot >= last_update_slot
                            || account_chain_snapshot.chain_state.is_feepayer()
                    },
                    AccountClonerOutput::Unclonable { at_slot, .. } => *at_slot >= last_update_slot,
                };
                if holds {
                    CacheStep::UseCached
                } else {
                    CacheStep::Clone
                }
            },
            None => {
                if has_account {
                    CacheStep::Respond(
                        AccountClonerOutput::Unclonable {
                            pubkey: *pubkey,
                            reason: AccountClonerUnclonableReason::AlreadyLocallyOverriden,
                            at_slot: u64::MAX,
                        },
                    )
                } else {
                    CacheStep::Clone
                }
            },
        }
    }

    /// The verdict for a blacklisted account, which is never cloned; none
    /// for an account that is not blacklisted.
    pub fn check_blacklisted(&self, pubkey: &Pubkey) -> (r: Option<AccountClonerOutput>)
        ensures
            self.blacklisted_accounts@.contains(*pubkey) ==> r == Some(
                unclonable(*pubkey, AccountClonerUnclonableReason::IsBlacklisted, u64::MAX),
            ),
            !self.blacklisted_accounts@.contains(*pubkey) ==> r is None,
    {
        if self.blacklisted_accounts.contains(pubkey) {
            Some(
                AccountClonerOutput::Unclonable {
                    pubkey: *pubkey,
                    reason: AccountClonerUnclonableReason::IsBlacklisted,
                    at_slot: u64::MAX,
                },
            )
        } else {
            None
        }
    }

    /// How accounts are fetched: until their subscription has taken effect
    /// when cloned accounts may be refreshed, and once otherwise.
    pub fn fetch_mode(&self) -> (r: FetchMode)
        ensures
            r == (if self.permissions.allow_cloning_refresh {
                FetchMode::UntilSubscribed
            } else {
                FetchMode::Once
            }),
    {
        if self.permissions.allow_cloning_refresh {
            FetchMode::UntilSubscribed
        } else {
            FetchMode::Once
        }
    }

    /// Decides what follows the `fetch_count`-th fetch of an account, which
    /// gave `fetched` (the slot of the state, or an error). The state is
    /// accepted once it is no older than the first slot at which the
    /// account's subscription took effect; otherwise the fetch is retried
    /// until `fetch_retries` attempts were made. `min_context_slot` is the
    /// subscription slot that was asked of the fetch.
    pub fn after_fetch(
        &self,
        fetch_count: u64,
        fetched: Result<u64, AccountClonerError>,
        min_context_slot: Option<u64>,
        first_subscribed_slot: Option<u64>,
    ) -> (r: FetchStep)
        ensures
            ({
                let spent = fetch_count >= self.fetch_retries;
                match fetched {
                    Ok(at_slot) => if at_slot >= match first_subscribed_slot {
                        Some(s) => s,
                        None => u64::MAX,
                    } {
                        r is Accept
                    } else if spent {
                        r == FetchStep::Fail(
                            if min_context_slot is None {
                                AccountClonerError::FailedToGetSubscriptionSlot
                            } else {
                                AccountClonerError::FailedToFetchSatisfactorySlot
                            },
                        )
                    } else {
                        r is Retry
                    },
                    Err(e) => if spent {
                        r == FetchStep::Fail(e)
                    } else {
                        r is Retry
                    },
                }
            }),
    {
        match fetched {
            Ok(at_slot) => {
                let threshold = match first_subscribed_slot {
                    Some(s) => s,
                    None => u64::MAX,
                };
                if at_slot >= threshold {
                    FetchStep::Accept
                } else if fetch_count >= self.fetch_retries {
                    if min_context_slot.is_none() {
                        FetchStep::Fail(AccountClonerError::FailedToGetSubscriptionSlot)
                    } else {
                        FetchStep::Fail(AccountClonerError::FailedToFetchSatisfactorySlot)
                    }
                } else {
                    FetchStep::Retry
                }
            },
            Err(e) => {
                if fetch_count >= self.fetch_retries {
                    FetchStep::Fail(e)
                } else {
                    FetchStep::Retry
                }
            },
        }
    }

    /// Decides what to do with an account whose state on chain is
    /// `snapshot`, at validator stage `stage`; `local_owner` is the owner
    /// of the copy the bank holds, if any. A fee payer or an undelegated
    /// account that may be cloned starts being monitored, and the account
    /// this evicts, if any, is returned beside the plan so that its copy,
    /// its clone output and its subscription can be dropped. A delegated
    /// account stops being monitored.
    pub fn plan_clone(
        &mut self,
        pubkey: &Pubkey,
        snapshot: &AccountChainSnapshot,
        stage: &ValidatorStage,
        local_owner: Option<Pubkey>,
    ) -> (r: (ClonePlan, Option<Pubkey>))
        requires
            old(self).wf(),
        ensures
            final(self).wf(),
            final(self).permissions == old(self).permissions,
            final(self).blacklisted_accounts == old(self).blacklisted_accounts,
            final(self).allowed_program_ids == old(self).allowed_program_ids,
            final(self).payer_init_lamports == old(self).payer_init_lamports,
            final(self).validator_charges_fees == old(self).validator_charges_fees,
            final(self).monitored_accounts.cap() == old(self).monitored_accounts.cap(),
            r.0 == clone_plan(
                old(self).permissions,
                match old(self).allowed_program_ids {
                    Some(a) => Some(a@),
                    None => None,
                },
                old(self).payer_init_lamports,
                old(self).validator_charges_fees,
                *pubkey,
                *snapshot,
                *stage,
                local_owner,
            ),
            starts_monitoring(old(self).permissions, *snapshot) ==> final(self).monitored_accounts.keys()
                == tracked_keys(old(self).monitored_accounts.keys(), old(self).monitored_accounts.cap(), pubkey.0)
                && r.1 == evicted_by(old(self).monitored_accounts.keys(), old(self).monitored_accounts.cap(), pubkey.0),
            snapshot.chain_state is Delegated ==> final(self).monitored_accounts.keys() == without(
                old(self).monitored_accounts.keys(),
                pubkey.0,
            ) && r.1 is None,
            !starts_monitoring(old(self).permissions, *snapshot) && !(snapshot.chain_state is Delegated)
                ==> final(self).monitored_accounts.keys() == old(self).monitored_accounts.keys() && r.1 is None,
    {
        let at_slot = snapshot.at_slot;
        match &snapshot.chain_state {
            AccountChainState::FeePayer { lamports, owner } => {
                if !self.permissions.allow_cloning_feepayer_accounts {
                    return (
                        ClonePlan::Respond(
                            AccountClonerOutput::Unclonable {
                                pubkey: *pubkey,
                                reason: AccountClonerUnclonableReason::DoesNotAllowFeePayerAccount,
                                at_slot,
                            },
                        ),
                        None,
                    );
                }
                let evicted = self.monitored_accounts.track_not_delegated_account(pubkey);
                match self.validator_charges_fees {
                    ValidatorCollectionMode::NoFees => {
                        let lamports = match self.payer_init_lamports {
                            Some(l) => l,
                            None => *lamports,
                        };
                        (ClonePlan::DumpFeePayer { lamports, owner: *owner }, evicted)
                    },
                    ValidatorCollectionMode::Fees => (ClonePlan::FetchEscrow { owner: *owner }, evicted),
                }
            },
            AccountChainState::Undelegated { account, .. } => {
                if account.executable {
                    if let Some(allowed) = &self.allowed_program_ids {
                        if !allowed.contains(pubkey) {
                            return (
                                ClonePlan::Respond(
                                    AccountClonerOutput::Unclonable {
                                        pubkey: *pubkey,
                                        reason: AccountClonerUnclonableReason::IsNotAnAllowedProgram,
                                        at_slot: u64::MAX,
                                    },
                                ),
                                None,
                            );
                        }
                    }
                    if !self.permissions.allow_cloning_program_accounts {
                        return (
                            ClonePlan::Respond(
                                AccountClonerOutput::Unclonable {
                                    pubkey: *pubkey,
                                    reason: AccountClonerUnclonableReason::DoesNotAllowProgramAccount,
                                    at_slot,
                                },
                            ),
                            None,
                        );
                    }
                    (ClonePlan::CloneProgram, None)
                } else {
                    if !self.permissions.allow_cloning_undelegated_accounts {
                        return (
                            ClonePlan::Respond(
                                AccountClonerOutput::Unclonable {
                                    pubkey: *pubkey,
                                    reason: AccountClonerUnclonableReason::DoesNotAllowUndelegatedAccount,
                                    at_slot,
                                },
                            ),
                            None,
                        );
                    }
                    let evicted = self.monitored_accounts.track_not_delegated_account(pubkey);
                    (ClonePlan::DumpUndelegated, evicted)
                }
            },
            AccountChainState::Delegated { delegation_record, .. } => {
                self.monitored_accounts.forget(pubkey);
                if !self.permissions.allow_cloning_delegated_accounts {
                    return (
                        ClonePlan::Respond(
                            AccountClonerOutput::Unclonable {
                                pubkey: *pubkey,
                                reason: AccountClonerUnclonableReason::DoesNotAllowDelegatedAccount,
                                at_slot,
                            },
                        ),
                        None,
                    );
                }
                let same_owner = match local_owner {
                    Some(o) => o.same_as(&delegation_record.owner),
                    None => false,
                };
                if !stage.should_clone_delegated_account(delegation_record) && same_owner {
                    (ClonePlan::ReuseReplayed, None)
                } else {
                    (
                        ClonePlan::DumpDelegated {
                            lamports: delegation_record.lamports,
                            owner: delegation_record.owner,
                        },
                        None,
                    )
                }
            },
        }
    }

    /// Whether a fetched escrow account may stand for a fee payer's balance.
    pub fn is_usable_escrow(&self, snapshot: &AccountChainSnapshot) -> (r: bool)
        ensures
            r == usable_escrow(self.validator_identity, *snapshot),
    {
        match &snapshot.chain_state {
            AccountChainState::Delegated { delegation_record, .. } => {
                let zero = Pubkey::zero();
                proof {
                    if delegation_record.authority.is_zero() {
                        assert(delegation_record.authority.0 =~= zero.0);
                    }
                }
                delegation_record.authority.same_as(&self.validator_identity)
                    || delegation_record.authority.same_as(&zero)
            },
            _ => false,
        }
    }
}

/// The plan for fee payer `pubkey` once its escrow account `escrow_pubkey`,
/// holding `lamports`, was found.
pub open spec fn escrow_step(
    pubkey: Pubkey,
    feepayer_at_slot: u64,
    escrow_pubkey: Pubkey,
    lamports: u64,
    escrow_already_recorded: bool,
) -> EscrowPlan {
    if escrow_already_recorded {
        EscrowPlan::Respond(unclonable(pubkey, AccountClonerUnclonableReason::DoesNotAllowFeepayerWithEscrowedPda, feepayer_at_slot))
    } else {
        EscrowPlan::Record {
            escrow_output: unclonable(escrow_pubkey, AccountClonerUnclonableReason::DoesNotAllowEscrowedPda, u64::MAX),
            lamports,
        }
    }
}

/// Decides how to clone fee payer `pubkey` (whose state was observed at
/// `feepayer_at_slot`) in view of its usable escrow account, if any, and of
/// whether a clone output is already recorded for that escrow account. An
/// escrow that goes on is recorded as unclonable for good, so that its
/// lamports are not cloned twice.
pub fn plan_escrow(
    pubkey: &Pubkey,
    feepayer_at_slot: u64,
    escrow: Option<&AccountChainSnapshot>,
    escrow_already_recorded: bool,
) -> (r: EscrowPlan)
    ensures
        ({
            match escrow {
                None => r == EscrowPlan::Respond(
                    unclonable(*pubkey, AccountClonerUnclonableReason::DoesNotHaveEscrowAccount, feepayer_at_slot),
                ),
                Some(e) => match e.chain_state {
                    AccountChainState::FeePayer { .. } => r == EscrowPlan::Respond(
                        unclonable(*pubkey, AccountClonerUnclonableReason::DoesNotHaveDelegatedEscrowAccount, e.at_slot),
                    ),
                    AccountChainState::Undelegated { account, .. } => r == escrow_step(*pubkey, feepayer_at_slot, e.pubkey, account.lamports, escrow_already_recorded),
                    AccountChainState::Delegated { account, .. } => r == escrow_step(*pubkey, feepayer_at_slot, e.pubkey, account.lamports, escrow_already_recorded),
                },
            }
        }),
{
    match escrow {
        None => EscrowPlan::Respond(
            AccountClonerOutput::Unclonable {
                pubkey: *pubkey,
                reason: AccountClonerUnclonableReason::DoesNotHaveEscrowAccount,
                at_slot: feepayer_at_slot,
            },
        ),
        Some(s) => match s.chain_state.account() {
            None => EscrowPlan::Respond(
                AccountClonerOutput::Unclonable {
                    pubkey: *pubkey,
                    reason: AccountClonerUnclonableReason::DoesNotHaveDelegatedEscrowAccount,
                    at_slot: s.at_slot,
                },
            ),
            Some(account) => {
                if escrow_already_recorded {
                    EscrowPlan::Respond(
                        AccountClonerOutput::Unclonable {
                            pubkey: *pubkey,
                            reason: AccountClonerUnclonableReason::DoesNotAllowFeepayerWithEscrowedPda,
                            at_slot: feepayer_at_slot,
                        },
                    )
                } else {
                    EscrowPlan::Record {
                        escrow_output: AccountClonerOutput::Unclonable {
                            pubkey: s.pubkey,
                            reason: AccountClonerUnclonableReason::DoesNotAllowEscrowedPda,
                            at_slot: u64::MAX,
                        },
                        lamports: account.lamports,
                    }
                }
            },
        },
    }
}

/// How the program `account` is cloned, by the loader that owns it.
pub fn plan_program(account: &Account) -> (r: ProgramPlan)
    ensures
        r == program_plan(account.owner),
{
    if same_bytes(&account.owner.0, &BPF_LOADER_DEPRECATED_ID) {
        ProgramPlan::Unsupported
    } else if same_bytes(&account.owner.0, &BPF_LOADER_ID) {
        ProgramPlan::OldBpf
    } else {
        ProgramPlan::Upgradeable
    }
}

/// The failure to find a program's data account.
pub open spec fn program_data_missing() -> Result<Account, AccountClonerError> {
    Err(AccountClonerError::ProgramDataDoesNotExist)
}

/// The program data account of an upgradeable program, from its fetched
/// state; it must exist on chain.
pub fn program_data_account(snapshot: AccountChainSnapshot) -> (r: Result<Account, AccountClonerError>)
    ensures
        ({
            match snapshot.chain_state {
                AccountChainState::FeePayer { .. } => r == program_data_missing(),
                AccountChainState::Undelegated { account, .. } => r == Ok::<Account, AccountClonerError>(account),
                AccountChainState::Delegated { account, .. } => r == Ok::<Account, AccountClonerError>(account),
            }
        }),
{
    match snapshot.chain_state {
        AccountChainState::FeePayer { .. } => Err(AccountClonerError::ProgramDataDoesNotExist),
        AccountChainState::Undelegated { account, .. } => Ok(account),
        AccountChainState::Delegated { account, .. } => Ok(account),
    }
}

/// The IDL account found at `idl_pubkey`, from its fetched state, if it
/// holds an account at all.
pub fn idl_from_snapshot(idl_pubkey: Pubkey, snapshot: AccountChainSnapshot) -> (r: Option<(Pubkey, Account)>)
    ensures
        ({
            match snapshot.chain_state {
                AccountChainState::FeePayer { .. } => r is None,
                AccountChainState::Undelegated { account, .. } => r == Some((idl_pubkey, account)),
                AccountChainState::Delegated { account, .. } => r == Some((idl_pubkey, account)),
            }
        }),
{
    match snapshot.chain_state {
        AccountChainState::FeePayer { .. } => None,
        AccountChainState::Undelegated { account, .. } => Some((idl_pubkey, account)),
        AccountChainState::Delegated { account, .. } => Some((idl_pubkey, account)),
    }
}

/// The IDL that is cloned with a program: the anchor IDL if one was found,
/// else the shank IDL; and only if it holds lamports, that is, exists on
/// chain.
pub fn idl_to_clone(
    anchor: Option<(Pubkey, Account)>,
    shank: Option<(Pubkey, Account)>,
) -> (r: Option<(Pubkey, Account)>)
    ensures
        ({
            let found = if anchor is Some {
                anchor
            } else {
                shank
            };
            match found {
                Some(idl) => if idl.1.lamports > 0 {
                    r == found
                } else {
                    r is None
                },
                None => r is None,
            }
        }),
{
    let found = match anchor {
        Some(a) => Some(a),
        None => shank,
    };
    match found {
        Some(idl) => {
            if idl.1.lamports > 0 {
                Some(idl)
            } else {
                None
            }
        },
        None => None,
    }
}

/// The signature of a previous clone of a delegated account that can be
/// reused: the account was cloned from the same delegation (same slot), so
/// the bank's copy stays the source of truth.
pub fn reusable_delegated_signature(
    last_clone_output: Option<&AccountClonerOutput>,
    record: &DelegationRecord,
) -> (r: Option<Signature>)
    ensures
        ({
            match last_clone_output {
                Some(AccountClonerOutput::Cloned { account_chain_snapshot, signature }) => match account_chain_snapshot.chain_state {
                    AccountChainState::Delegated { delegation_record, .. } => if delegation_record.delegation_slot
                        == record.delegation_slot {
                        r == Some(*signature)
                    } else {
                        r is None
                    },
                    _ => r is None,
                },
                _ => r is None,
            }
        }),
{
    match last_clone_output {
        Some(AccountClonerOutput::Cloned { account_chain_snapshot, signature }) => {
            match &account_chain_snapshot.chain_state {
                AccountChainState::Delegated { delegation_record, .. } => {
                    if delegation_record.delegation_slot == record.delegation_slot {
                        Some(*signature)
                    } else {
                        None
                    }
                },
                _ => None,
            }
        },
        _ => None,
    }
}

impl RemoteAccountClonerWorker {
    /// The accounts of the bank that are cloned again when the validator
    /// starts, each with its owner; none when cloning is disabled.
    pub fn hydrate_candidates(&self, accounts: &Vec<(Pubkey, Account)>) -> (r: Vec<(Pubkey, Pubkey)>)
        ensures
            !self.permissions.any() ==> r@ == Seq::<(Pubkey, Pubkey)>::empty(),
            self.permissions.any() ==> r@ == hydrate_list(self.blacklisted_accounts@, accounts@),
    {
        let mut out: Vec<(Pubkey, Pubkey)> = Vec::new();
        if !self.can_clone() {
            return out;
        }
        let mut i: usize = 0;
        while i < accounts.len()
            invariant
                0 <= i <= accounts@.len(),
                out@ == hydrate_list(self.blacklisted_accounts@, accounts@.subrange(0, i as int)),
            decreases accounts@.len() - i,
        {
            let pk = accounts[i].0;
            let acc = &accounts[i].1;
            proof {
                let sub = accounts@.subrange(0, i + 1);
                assert(sub.drop_last() =~= accounts@.subrange(0, i as int));
                assert(sub.last() == accounts@[i as int]);
            }
            if !self.blacklisted_accounts.contains(&pk) && acc.lamports <= u64::MAX / 2 && !(!acc.executable
                && same_bytes(&acc.owner.0, &BPF_LOADER_UPGRADEABLE_ID)) {
                out.push((pk, acc.owner));
            }
            i = i + 1;
        }
        proof {
            assert(accounts@.subrange(0, accounts@.len() as int) =~= accounts@);
        }
        out
    }
}

/// The output last set for `pubkey` among the first `n` of `log`.
pub open spec fn last_set(log: Seq<(Pubkey, AccountClonerOutput)>, pubkey: Pubkey, n: int) -> Option<AccountClonerOutput>
    decreases n,
{
    if n <= 0 {
        None
    } else if log[n - 1].0 == pubkey {
        Some(log[n - 1].1)
    } else {
        last_set(log, pubkey, n - 1)
    }
}

/// A stand-in for the cloner that answers with the outputs it was given.
pub struct AccountClonerStub {
    pub clone_account_outputs: Vec<(Pubkey, AccountClonerOutput)>,
}

impl AccountClonerStub {
    /// The output set for `pubkey` last.
    pub open spec fn output_of(&self, pubkey: Pubkey) -> Option<AccountClonerOutput> {
        last_set(self.clone_account_outputs@, pubkey, self.clone_account_outputs@.len() as int)
    }

    /// No output set.
    pub fn new() -> (r: Self)
        ensures
            forall|k: Pubkey| #[trigger] r.output_of(k) is None,
    {
        AccountClonerStub { clone_account_outputs: Vec::new() }
    }

    /// Answers `output` for `pubkey` from now on.
    pub fn set(&mut self, pubkey: &Pubkey, output: AccountClonerOutput)
        ensures
            final(self).output_of(*pubkey) == Some(output),
            forall|k: Pubkey| k != *pubkey ==> #[trigger] final(self).output_of(k) == old(self).output_of(k),
    {
        let ghost pre = self.clone_account_outputs@;
        self.clone_account_outputs.push((*pubkey, output));
        proof {
            assert forall|k: Pubkey| k != *pubkey implies #[trigger] last_set(
                self.clone_account_outputs@,
                k,
                self.clone_account_outputs@.len() as int,
            ) == last_set(pre, k, pre.len() as int) by {
                lemma_last_set_prefix(self.clone_account_outputs@, pre, k, pre.len() as int);
            }
        }
    }

    /// The output set for `pubkey`, or the failure to fetch an account the
    /// stub does not know.
    pub fn clone_account(&self, pubkey: &Pubkey) -> (r: Result<&AccountClonerOutput, AccountClonerError>)
        ensures
            match self.output_of(*pubkey) {
                Some(o) => r matches Ok(x) && *x == o,
                None => r matches Err(AccountClonerError::AccountFetcherError(_)),
            },
    {
        let mut i = self.clone_account_outputs.len();
        while i > 0
            invariant
                0 <= i <= self.clone_account_outputs@.len(),
                last_set(self.clone_account_outputs@, *pubkey, self.clone_account_outputs@.len() as int)
                    == last_set(self.clone_account_outputs@, *pubkey, i as int),
            decreases i,
        {
            if self.clone_account_outputs[i - 1].0.same_as(pubkey) {
                return Ok(&self.clone_account_outputs[i - 1].1);
            }
            i = i - 1;
        }
        Err(AccountClonerError::AccountFetcherError("Account not set in AccountClonerStub".to_owned()))
    }
}

proof fn lemma_last_set_prefix(log: Seq<(Pubkey, AccountClonerOutput)>, prefix: Seq<(Pubkey, AccountClonerOutput)>, k: Pubkey, n: int)
    requires
        0 <= n <= prefix.len(),
        prefix.len() + 1 == log.len(),
        forall|i: int| 0 <= i < prefix.len() ==> log[i] == prefix[i],
        log[prefix.len() as int].0 != k,
    ensures
        last_set(log, k, log.len() as int) == last_set(prefix, k, prefix.len() as int),
        last_set(log, k, n) == last_set(prefix, k, n),
    decreases n,
{
    if n > 0 {
        lemma_last_set_prefix(log, prefix, k, n - 1);
    }
    lemma_last_set_agree(log, prefix, k, prefix.len() as int);
}

proof fn lemma_last_set_agree(log: Seq<(Pubkey, AccountClonerOutput)>, prefix: Seq<(Pubkey, AccountClonerOutput)>, k: Pubkey, n: int)
    requires
        0 <= n <= prefix.len(),
        prefix.len() <= log.len(),
        forall|i: int| 0 <= i < prefix.len() ==> log[i] == prefix[i],
    ensures
        last_set(log, k, n) == last_set(prefix, k, n),
    decreases n,
{
    if n > 0 {
        lemma_last_set_agree(log, prefix, k, n - 1);
    }
}

} // verus!
