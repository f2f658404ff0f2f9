use vstd::prelude::*;

use crate::cloner::{Account, AccountChainState, AccountClonerError, AccountClonerOutput, AccountClonerUnclonableReason};
use crate::entry_set::EntrySet;
use crate::pubkey::Pubkey;

verus! {

/// Compute units every commit transaction is given.
pub const BASE_COMPUTE_BUDGET: u32 = 60_000;

/// Compute units added for each committed account.
pub const COMPUTE_BUDGET_PER_COMMITTEE: u32 = 40_000;

/// Compute units added for each account that is also undelegated.
pub const COMPUTE_BUDGET_PER_UNDELEGATION: u32 = 45_000;

/// How long a commit transaction is awaited before it counts as failed:
/// a quarter of the two minutes during which a transaction may still land.
pub const MAX_TRANSACTION_CONFIRMATION_SECS: u64 = 30;

/// Why handling accounts failed.
#[derive(Clone, Debug)]
pub enum AccountsError {
    TranswiseError(String),
    UrlParseError(String),
    TransactionError(String),
    AccountClonerError(AccountClonerError),
    UnclonableAccountUsedAsWritableInEphemeral(Pubkey, AccountClonerUnclonableReason),
    InvalidRpcUrl(String),
    FailedToUpdateUrlScheme,
    FailedToUpdateUrlPort,
    FailedToGetLatestBlockhash(String),
    FailedToGetReimbursementAddress(String),
    FailedToSendCommitTransaction(String, Vec<Pubkey>, Vec<Pubkey>),
    TooManyCommittees(usize),
}

/// The outcome of handling accounts.
pub type AccountsResult<T> = Result<T, AccountsError>;

/// An account to be committed back to chain.
#[derive(Clone, Debug)]
pub struct AccountCommittee {
    /// The account written on chain.
    pub pubkey: Pubkey,
    /// Its owner on chain.
    pub owner: Pubkey,
    /// Its content in the ephemeral bank.
    pub account_data: Account,
    /// The slot at which the commit was scheduled.
    pub slot: u64,
    /// Whether the account is also handed back to its owner.
    pub undelegation_requested: bool,
}

/// The compute units a commit transaction of `committee_count` accounts,
/// `undelegation_count` of them undelegated, is given.
pub open spec fn compute_budget_for(committee_count: int, undelegation_count: int) -> int {
    BASE_COMPUTE_BUDGET + COMPUTE_BUDGET_PER_COMMITTEE * committee_count + COMPUTE_BUDGET_PER_UNDELEGATION
        * undelegation_count
}

/// The compute units of a commit transaction.
pub fn compute_budget(committee_count: u32, undelegation_count: u32) -> (r: u32)
    requires
        compute_budget_for(committee_count as int, undelegation_count as int) <= u32::MAX,
    ensures
        r == compute_budget_for(committee_count as int, undelegation_count as int),
{
    BASE_COMPUTE_BUDGET + COMPUTE_BUDGET_PER_COMMITTEE * committee_count + COMPUTE_BUDGET_PER_UNDELEGATION
        * undelegation_count
}

/// The committees whose undelegation was requested.
pub open spec fn undelegating(committees: Seq<AccountCommittee>) -> Seq<AccountCommittee> {
    committees.filter(|c: AccountCommittee| c.undelegation_requested)
}

/// The compute budget that a commit transaction of `committees` is given,
/// or none when there are more committees than a `u32` counts or the
/// budget does not fit in a `u32`.
pub fn commit_budget(committees: &Vec<AccountCommittee>) -> (r: Option<u32>)
    ensures
        match r {
            Some(b) => committees@.len() <= u32::MAX && b == compute_budget_for(
                committees@.len() as int,
                undelegating(committees@).len() as int,
            ),
            None => committees@.len() > u32::MAX || compute_budget_for(
                committees@.len() as int,
                undelegating(committees@).len() as int,
            ) > u32::MAX,
        },
{
    if committees.len() > 0xffff_ffffusize {
        return None;
    }
    let mut undelegation_count: u64 = 0;
    let mut i: usize = 0;
    broadcast use vstd::seq_lib::group_filter_ensures;
    while i < committees.len()
        invariant
            0 <= i <= committees@.len(),
            committees@.len() <= u32::MAX,
            undelegation_count == undelegating(committees@.subrange(0, i as int)).len(),
        decreases committees@.len() - i,
    {
        proof {
            let sub = committees@.subrange(0, i as int);
            let next = committees@.subrange(0, i + 1);
            assert(next =~= sub.push(committees@[i as int]));
            sub.lemma_filter_push(committees@[i as int], |c: AccountCommittee| c.undelegation_requested);
            assert(undelegating(sub).len() <= sub.len()) by {
                sub.lemma_filter_len(|c: AccountCommittee| c.undelegation_requested);
            }
        }
        if committees[i].undelegation_requested {
            undelegation_count = undelegation_count + 1;
        }
        i = i + 1;
    }
    proof {
        assert(committees@.subrange(0, committees@.len() as int) =~= committees@);
    }
    let count = committees.len() as u64;
    let per_committee = COMPUTE_BUDGET_PER_COMMITTEE as u64;
    let per_undelegation = COMPUTE_BUDGET_PER_UNDELEGATION as u64;
    assert(per_committee * count <= 40_000 * 0xffff_ffff) by (nonlinear_arith)
        requires
            per_committee == 40_000,
            count <= 0xffff_ffff,
    ;
    assert(per_undelegation * undelegation_count <= 45_000 * 0xffff_ffff) by (nonlinear_arith)
        requires
            per_undelegation == 45_000,
            undelegation_count <= 0xffff_ffff,
    ;
    let budget: u64 = BASE_COMPUTE_BUDGET as u64 + per_committee * count + per_undelegation * undelegation_count;
    if budget > 0xffff_ffffu64 {
        None
    } else {
        Some(budget as u32)
    }
}

/// What a commit transaction is built from, besides the commit instructions
/// of each committee: its compute budget and price, and which accounts it
/// undelegates and which it only commits.
pub struct CommitTransactionPlan {
    pub compute_budget: u32,
    pub compute_unit_price: u64,
    pub undelegated_accounts: EntrySet<Pubkey>,
    pub committed_only_accounts: EntrySet<Pubkey>,
}

/// Plans the transaction that commits `committees` at the given compute
/// unit price. Fails when there are more committees than a `u32` counts;
/// the compute budget must fit in a `u32`.
pub fn plan_commit_transaction(committees: &Vec<AccountCommittee>, compute_unit_price: u64) -> (r: AccountsResult<
    CommitTransactionPlan,
>)
    requires
        committees@.len() > u32::MAX || compute_budget_for(
            committees@.len() as int,
            undelegating(committees@).len() as int,
        ) <= u32::MAX,
    ensures
        committees@.len() > u32::MAX <==> r is Err,
        r matches Err(e) ==> e == AccountsError::TooManyCommittees(committees@.len() as usize),
        r matches Ok(plan) ==> {
            &&& plan.compute_budget == compute_budget_for(
                committees@.len() as int,
                undelegating(committees@).len() as int,
            )
            &&& plan.compute_unit_price == compute_unit_price
            &&& plan.undelegated_accounts.wf()
            &&& plan.committed_only_accounts.wf()
            &&& forall|p: Pubkey| #[trigger] plan.undelegated_accounts@.contains(p) <==> exists|i: int|
                0 <= i < committees@.len() && committees@[i].pubkey == p && committees@[i].undelegation_requested
            &&& forall|p: Pubkey| #[trigger] plan.committed_only_accounts@.contains(p) <==> exists|i: int|
                0 <= i < committees@.len() && committees@[i].pubkey == p && !committees@[i].undelegation_requested
        },
{
    if committees.len() > 0xffff_ffffusize {
        return Err(AccountsError::TooManyCommittees(committees.len()));
    }
    let mut undelegated_accounts: EntrySet<Pubkey> = EntrySet::new();
    let mut committed_only_accounts: EntrySet<Pubkey> = EntrySet::new();
    let mut undelegation_count: u32 = 0;
    let mut i: usize = 0;
    broadcast use vstd::seq_lib::group_filter_ensures;
    while i < committees.len()
        invariant
            0 <= i <= committees@.len(),
            committees@.len() <= u32::MAX,
            undelegation_count == undelegating(committees@.subrange(0, i as int)).len(),
            undelegated_accounts.wf(),
            committed_only_accounts.wf(),
            forall|p: Pubkey| #[trigger] undelegated_accounts@.contains(p) <==> exists|j: int|
                0 <= j < i && committees@[j].pubkey == p && committees@[j].undelegation_requested,
            forall|p: Pubkey| #[trigger] committed_only_accounts@.contains(p) <==> exists|j: int|
                0 <= j < i && committees@[j].pubkey == p && !committees@[j].undelegation_requested,
        decreases committees@.len() - i,
    {
        let c = &committees[i];
        proof {
            let sub = committees@.subrange(0, i as int);
            let next = committees@.subrange(0, i + 1);
            assert(next =~= sub.push(committees@[i as int]));
            sub.lemma_filter_push(committees@[i as int], |c: AccountCommittee| c.undelegation_requested);
            assert(undelegating(sub).len() <= sub.len()) by {
                sub.lemma_filter_len(|c: AccountCommittee| c.undelegation_requested);
            }
        }
        if c.undelegation_requested {
            undelegated_accounts.insert(c.pubkey);
            undelegation_count = undelegation_count + 1;
        } else {
            committed_only_accounts.insert(c.pubkey);
        }
        i = i + 1;
    }
    proof {
        assert(committees@.subrange(0, committees@.len() as int) =~= committees@);
    }
    let budget = compute_budget(committees.len() as u32, undelegation_count);
    Ok(
        CommitTransactionPlan {
            compute_budget: budget,
            compute_unit_price,
            undelegated_accounts,
            committed_only_accounts,
        },
    )
}

/// What to do after asking whether a commit transaction was confirmed.
#[derive(Clone, Copy, Debug, PartialEq, Eq)]
pub enum ConfirmStep {
    /// It was confirmed and succeeded.
    Succeeded,
    /// It was not confirmed in time: it failed or did not land.
    TimedOut,
    /// Ask again a little later.
    Retry,
    /// The confirmation could not be asked for.
    Failed,
}

/// Decides what follows an answer about a commit transaction, asked
/// `elapsed_secs` seconds after the confirmation started: `Ok(confirmed)`
/// from the cluster, or `Err` when the request failed.
pub fn confirm_step(answer: Result<bool, String>, elapsed_secs: u64) -> (r: ConfirmStep)
    ensures
        ({
            match answer {
                Ok(true) => r == ConfirmStep::Succeeded,
                Ok(false) => if elapsed_secs > MAX_TRANSACTION_CONFIRMATION_SECS {
                    r == ConfirmStep::TimedOut
                } else {
                    r == ConfirmStep::Retry
                },
                Err(_) => r == ConfirmStep::Failed,
            }
        }),
{
    match answer {
        Ok(confirmed) => {
            if confirmed {
                ConfirmStep::Succeeded
            } else if elapsed_secs > MAX_TRANSACTION_CONFIRMATION_SECS {
                ConfirmStep::TimedOut
            } else {
                ConfirmStep::Retry
            }
        },
        Err(_) => ConfirmStep::Failed,
    }
}

/// A fee payer whose lamports are committed through its escrow account.
#[derive(Clone, Copy, Debug)]
pub struct FeePayerAccount {
    pub pubkey: Pubkey,
    pub delegated_pda: Pubkey,
}

/// Which account on chain a scheduled commit of an account writes to.
#[derive(Clone, Copy, Debug)]
pub struct CommitmentTarget {
    pub pubkey: Pubkey,
    pub owner: Pubkey,
    /// Set when the account is a fee payer, committed through its escrow.
    pub feepayer: Option<FeePayerAccount>,
}

/// The target of committing account `pubkey` (owned by `owner`), given how
/// it was cloned: a fee payer is committed through its escrow account
/// `escrow_pda`, owned by `escrow_owner`; any other account is committed
/// as it is.
pub fn commitment_target(
    pubkey: Pubkey,
    owner: Pubkey,
    cloned: Option<&AccountClonerOutput>,
    escrow_pda: Pubkey,
    escrow_owner: Pubkey,
) -> (r: CommitmentTarget)
    ensures
        ({
            let as_feepayer = match cloned {
                Some(AccountClonerOutput::Cloned { account_chain_snapshot, .. }) => account_chain_snapshot.chain_state is FeePayer,
                _ => false,
            };
            if as_feepayer {
                &&& r.pubkey == escrow_pda
                &&& r.owner == escrow_owner
                &&& r.feepayer == Some(FeePayerAccount { pubkey, delegated_pda: escrow_pda })
            } else {
                &&& r.pubkey == pubkey
                &&& r.owner == owner
                &&& r.feepayer is None
            }
        }),
{
    let as_feepayer = match cloned {
        Some(AccountClonerOutput::Cloned { account_chain_snapshot, .. }) => account_chain_snapshot.chain_state.is_feepayer(),
        _ => false,
    };
    if as_feepayer {
        CommitmentTarget {
            pubkey: escrow_pda,
            owner: escrow_owner,
            feepayer: Some(FeePayerAccount { pubkey, delegated_pda: escrow_pda }),
        }
    } else {
        CommitmentTarget { pubkey, owner, feepayer: None }
    }
}

/// `s` with every repeat of an earlier entry left out: each entry once, in
/// the order of its first occurrence.
pub open spec fn first_occurrences(s: Seq<Pubkey>) -> Seq<Pubkey>
    decreases s.len(),
{
    if s.len() == 0 {
        Seq::<Pubkey>::empty()
    } else if s.drop_last().contains(s.last()) {
        first_occurrences(s.drop_last())
    } else {
        first_occurrences(s.drop_last()).push(s.last())
    }
}

/// Whether an account, paired with its escrow account, is committed by no
/// transaction: neither it nor its escrow is among `included`.
pub open spec fn left_out(included: Set<Pubkey>) -> spec_fn((Pubkey, Pubkey)) -> bool {
    |a: (Pubkey, Pubkey)| !included.contains(a.0) && !included.contains(a.1)
}

/// The account of a pair of an account and its escrow account.
pub open spec fn account_of() -> spec_fn((Pubkey, Pubkey)) -> Pubkey {
    |a: (Pubkey, Pubkey)| a.0
}

/// The accounts of a scheduled commit that no transaction commits: those of
/// `accounts` (each paired with its escrow account) such that neither the
/// account nor its escrow is among `included`; each once, in the order of
/// its first occurrence.
pub fn excluded_pubkeys(accounts: &Vec<(Pubkey, Pubkey)>, included: &EntrySet<Pubkey>) -> (r: Vec<Pubkey>)
    ensures
        r@ == first_occurrences(accounts@.filter(left_out(included@)).map_values(account_of())),
        r@.no_duplicates(),
        r@.to_set() == accounts@.filter(left_out(included@)).map_values(account_of()).to_set(),
{
    let ghost keep = left_out(included@);
    let ghost first = account_of();
    let mut seen: EntrySet<Pubkey> = EntrySet::new();
    let mut i: usize = 0;
    while i < accounts.len()
        invariant
            0 <= i <= accounts@.len(),
            keep == left_out(included@),
            first == account_of(),
            seen.wf(),
            seen.order() == first_occurrences(accounts@.subrange(0, i as int).filter(keep).map_values(first)),
            seen.view() == accounts@.subrange(0, i as int).filter(keep).map_values(first).to_set(),
        decreases accounts@.len() - i,
    {
        let (pk, pda) = accounts[i];
        let ghost pre = accounts@.subrange(0, i as int).filter(keep).map_values(first);
        proof {
            let sub = accounts@.subrange(0, i as int);
            assert(accounts@.subrange(0, i + 1) =~= sub.push(accounts@[i as int]));
            sub.lemma_filter_push(accounts@[i as int], keep);
        }
        if !included.contains(&pk) && !included.contains(&pda) {
            seen.insert(pk);
            proof {
                let sub = accounts@.subrange(0, i as int);
                let post = pre.push(pk);
                assert(sub.filter(keep).push(accounts@[i as int]).map_values(first) =~= post);
                assert(post.drop_last() =~= pre);
                assert(pre.contains(pk) == pre.to_set().contains(pk));
                assert(post.to_set() =~= pre.to_set().insert(pk)) by {
                    assert forall|x: Pubkey| post.contains(x) <==> (x == pk || pre.contains(x)) by {
                        if post.contains(x) && x != pk {
                            let j = choose|j: int| 0 <= j < post.len() && post[j] == x;
                            assert(j < pre.len());
                            assert(pre[j] == x);
                        }
                        if pre.contains(x) {
                            let j = choose|j: int| 0 <= j < pre.len() && pre[j] == x;
                            assert(post[j] == x);
                        }
                        if x == pk {
                            assert(post[pre.len() as int] == x);
                        }
                    }
                }
            }
        } else {
            proof {
                let sub = accounts@.subrange(0, i as int);
                assert(sub.filter(keep).map_values(first) =~= pre);
            }
        }
        i = i + 1;
    }
    proof {
        assert(accounts@.subrange(0, accounts@.len() as int) =~= accounts@);
        seen.lemma_order();
    }
    seen.to_vec()
}

/// The committees of a scheduled commit at `slot`, from the target of each
/// committed account and its content in the bank (none when the account
/// is gone): an account that is gone is skipped.
pub open spec fn committees_of(targets: Seq<(CommitmentTarget, Option<Account>)>, slot: u64, undelegate: bool) -> Seq<AccountCommittee>
    decreases targets.len(),
{
    if targets.len() == 0 {
        Seq::empty()
    } else {
        let rest = committees_of(targets.drop_last(), slot, undelegate);
        match targets.last().1 {
            Some(account_data) => rest.push(
                AccountCommittee {
                    pubkey: targets.last().0.pubkey,
                    owner: targets.last().0.owner,
                    account_data,
                    slot,
                    undelegation_requested: undelegate,
                },
            ),
            None => rest,
        }
    }
}

/// The committees of a scheduled commit, and the fee payers among its
/// accounts (committed through their escrow).
pub fn build_committees(targets: Vec<(CommitmentTarget, Option<Account>)>, slot: u64, request_undelegation: bool) -> (r: (
    Vec<AccountCommittee>,
    Vec<FeePayerAccount>,
))
    ensures
        r.0@ == committees_of(targets@, slot, request_undelegation),
        forall|f: FeePayerAccount| r.1@.contains(f) <==> exists|i: int|
            0 <= i < targets@.len() && (#[trigger] targets@[i]).0.feepayer == Some(f),
{
    let ghost all = targets@;
    let n = targets.len();
    let mut rest = targets;
    let mut committees: Vec<AccountCommittee> = Vec::new();
    let mut feepayers: Vec<FeePayerAccount> = Vec::new();
    let mut i: usize = 0;
    while i < n
        invariant
            0 <= i <= n,
            n == all.len(),
            rest@ == all.subrange(i as int, n as int),
            committees@ == committees_of(all.subrange(0, i as int), slot, request_undelegation),
            forall|f: FeePayerAccount| feepayers@.contains(f) <==> exists|j: int|
                0 <= j < i && (#[trigger] all[j]).0.feepayer == Some(f),
        decreases n - i,
    {
        let (target, account_data) = rest.remove(0);
        proof {
            assert((target, account_data) == all[i as int]);
            assert(rest@ =~= all.subrange(i + 1, n as int));
            let sub = all.subrange(0, i + 1);
            assert(sub.drop_last() =~= all.subrange(0, i as int));
        }
        if let Some(f) = target.feepayer {
            let ghost pre = feepayers@;
            feepayers.push(f);
            proof {
                assert forall|g: FeePayerAccount| feepayers@.contains(g) <==> exists|j: int|
                    0 <= j < i + 1 && (#[trigger] all[j]).0.feepayer == Some(g) by {
                    if feepayers@.contains(g) && g != f {
                        let k = choose|k: int| 0 <= k < feepayers@.len() && feepayers@[k] == g;
                        assert(pre[k] == g);
                        assert(pre.contains(g));
                    }
                    if exists|j: int| 0 <= j < i && (#[trigger] all[j]).0.feepayer == Some(g) {
                        assert(pre.contains(g));
                        let k = choose|k: int| 0 <= k < pre.len() && pre[k] == g;
                        assert(feepayers@[k] == g);
                    }
                    if feepayers@.contains(g) && g != f {
                        let j = choose|j: int| 0 <= j < i && (#[trigger] all[j]).0.feepayer == Some(g);
                        assert(0 <= j < i + 1 && all[j].0.feepayer == Some(g));
                    }
                    if exists|j: int| 0 <= j < i + 1 && (#[trigger] all[j]).0.feepayer == Some(g) {
                        let j = choose|j: int| 0 <= j < i + 1 && (#[trigger] all[j]).0.feepayer == Some(g);
                        if j == i {
                            assert(g == f);
                        }
                    }
                    if g == f {
                        assert(0 <= i < i + 1 && all[i as int].0.feepayer == Some(g));
                    }
                    if g == f {
                        assert(feepayers@[feepayers@.len() - 1] == g);
                    }
                }
            }
        } else {
            proof {
                assert forall|g: FeePayerAccount| feepayers@.contains(g) <==> exists|j: int|
                    0 <= j < i + 1 && (#[trigger] all[j]).0.feepayer == Some(g) by {
                    if exists|j: int| 0 <= j < i + 1 && (#[trigger] all[j]).0.feepayer == Some(g) {
                        let j = choose|j: int| 0 <= j < i + 1 && (#[trigger] all[j]).0.feepayer == Some(g);
                        assert(j != i);
                    }
                    if feepayers@.contains(g) {
                        let j = choose|j: int| 0 <= j < i && (#[trigger] all[j]).0.feepayer == Some(g);
                        assert(0 <= j < i + 1 && all[j].0.feepayer == Some(g));
                    }
                }
            }
        }
        match account_data {
            Some(account_data) => {
                committees.push(
                    AccountCommittee {
                        pubkey: target.pubkey,
                        owner: target.owner,
                        account_data,
                        slot,
                        undelegation_requested: request_undelegation,
                    },
                );
            },
            None => {},
        }
        i = i + 1;
    }
    proof {
        assert(all.subrange(0, n as int) =~= all);
    }
    (committees, feepayers)
}

} // verus!
