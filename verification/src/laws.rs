use vstd::prelude::*;

use crate::cloner::{
    cache_step, clone_plan, still_holds, AccountChainSnapshot, AccountChainState, AccountClonerOutput,
    AccountClonerPermissions, CacheStep, ClonePlan, Signature, ValidatorCollectionMode, ValidatorStage,
};
use crate::collect::{stored_by_all, MessageAccounts, ProcessedTransaction, RollbackAccounts};
use crate::committer::{committees_of, CommitmentTarget};
use crate::validator::{same_record, ErRecord};
use crate::index::AccountsDbIndex;
use crate::pubkey::Pubkey;
use crate::storage::{spec_read_meta, Allocation, MetaHeader, StorageMeta};
use crate::cloner::Account;

verus! {

/// An account just inserted into the index is found at the offset of its
/// allocation, whatever was indexed before.
pub proof fn lemma_insert_then_lookup(before: AccountsDbIndex, after: AccountsDbIndex, pubkey: Pubkey, allocation: Allocation)
    requires
        after.accounts_view() == before.accounts_view().insert(pubkey, (allocation.offset, allocation.blocks)),
    ensures
        after.accounts_view().contains_key(pubkey),
        after.accounts_view()[pubkey].0 == allocation.offset,
        forall|other: Pubkey| other != pubkey ==> (#[trigger] after.accounts_view().contains_key(other)
            == before.accounts_view().contains_key(other)),
{
}

/// An account just removed from the index is not found any more, and no
/// other account moves.
pub proof fn lemma_remove_then_lookup(before: AccountsDbIndex, after: AccountsDbIndex, pubkey: Pubkey)
    requires
        after.accounts_view() == before.accounts_view().remove(pubkey),
    ensures
        !after.accounts_view().contains_key(pubkey),
        forall|other: Pubkey| other != pubkey ==> (#[trigger] after.accounts_view().contains_key(other)
            == before.accounts_view().contains_key(other)) && (before.accounts_view().contains_key(other)
            ==> after.accounts_view()[other] == before.accounts_view()[other]),
{
}

/// In a consistent index, every indexed account is listed under its owner
/// at its offset, and everything listed under an owner is an indexed
/// account at that offset.
pub proof fn lemma_program_listing(index: AccountsDbIndex, pubkey: Pubkey)
    requires
        index.consistent(),
        index.accounts_view().contains_key(pubkey),
    ensures
        index.programs_view().contains(
            crate::index::ProgramEntry {
                owner: index.owners_view()[pubkey],
                offset: index.accounts_view()[pubkey].0,
                pubkey,
            },
        ),
{
}

/// A clone taken at or after the last update seen on chain is reused, and
/// so is one of a fee payer; an older clone of another account is taken
/// again.
pub proof fn lemma_clone_reuse(pubkey: Pubkey, last_update_slot: u64, snapshot: AccountChainSnapshot, signature: Signature, has_account: bool)
    ensures
        ({
            let output = AccountClonerOutput::Cloned { account_chain_snapshot: snapshot, signature };
            let step = cache_step(pubkey, last_update_slot, Some(output), has_account);
            &&& snapshot.at_slot >= last_update_slot ==> step is UseCached
            &&& snapshot.chain_state is FeePayer ==> step is UseCached
            &&& snapshot.at_slot < last_update_slot && !(snapshot.chain_state is FeePayer) ==> step is Clone
        }),
{
}

/// An account never cloned before is cloned, unless the bank already holds
/// it, in which case it is left as it is for good.
pub proof fn lemma_first_clone(pubkey: Pubkey, last_update_slot: u64, has_account: bool)
    ensures
        !has_account ==> cache_step(pubkey, last_update_slot, None, has_account) is Clone,
        has_account ==> (cache_step(pubkey, last_update_slot, None, has_account) matches CacheStep::Respond(
            AccountClonerOutput::Unclonable { at_slot, .. },
        ) && at_slot == u64::MAX),
{
}

/// An unclonable verdict holds until its slot: it is reused for requests
/// made while no later update was seen.
pub proof fn lemma_verdict_reuse(output: AccountClonerOutput, last_update_slot: u64)
    requires
        (output matches AccountClonerOutput::Unclonable { at_slot, .. } && at_slot >= last_update_slot),
    ensures
        still_holds(output, last_update_slot),
{
}

/// Allocations never overlap: an allocation is served at the head of the
/// storage and moves the head past itself, so the next allocation, served
/// at the new head, starts where the first one ends; both lie below the
/// total number of blocks.
pub proof fn lemma_successive_allocations_disjoint(
    before: StorageMeta,
    first: Allocation,
    middle: StorageMeta,
    second: Allocation,
    after: StorageMeta,
)
    requires
        before.head + first.blocks < before.total_blocks,
        first.offset == before.head,
        middle == (StorageMeta { head: (before.head + first.blocks) as u64, ..before }),
        middle.head + second.blocks < middle.total_blocks,
        second.offset == middle.head,
        after == (StorageMeta { head: (middle.head + second.blocks) as u64, ..middle }),
    ensures
        first.offset + first.blocks <= second.offset,
        second.offset + second.blocks == after.head,
        after.head < after.total_blocks,
        after.total_blocks == before.total_blocks,
{
}


/// A failed transaction, executed or only charged its fees, stores exactly
/// the accounts it rolls back to, right after what the transactions before
/// it store: its fee payer's account, its nonce account, or the fee payer's
/// account and then the nonce account.
pub proof fn lemma_failed_tx_stores_its_rollback(
    txs: Seq<MessageAccounts>,
    results: Seq<Option<ProcessedTransaction>>,
    i: int,
)
    requires
        0 <= i < txs.len(),
        i < results.len(),
    ensures
        ({
            let before = stored_by_all(txs, results, i);
            let after = stored_by_all(txs, results, i + 1);
            let payer = txs[i].fee_payer;
            &&& results[i] matches Some(ProcessedTransaction::Executed { succeeded, rollback_accounts, .. }) ==> (!succeeded
                ==> (rollback_accounts matches RollbackAccounts::FeePayerOnly { fee_payer_account } ==> after
                == before.push((payer, fee_payer_account))))
            &&& results[i] matches Some(ProcessedTransaction::Executed { succeeded, rollback_accounts, .. }) ==> (!succeeded
                ==> (rollback_accounts matches RollbackAccounts::SameNonceAndFeePayer { nonce_address, nonce_account }
                ==> after == before.push((nonce_address, nonce_account))))
            &&& results[i] matches Some(ProcessedTransaction::Executed { succeeded, rollback_accounts, .. }) ==> (!succeeded
                ==> (rollback_accounts matches RollbackAccounts::SeparateNonceAndFeePayer {
                nonce_address,
                nonce_account,
                fee_payer_account,
            } ==> after == before.push((payer, fee_payer_account)).push((nonce_address, nonce_account))))
            &&& results[i] matches Some(ProcessedTransaction::FeesOnly { rollback_accounts }) ==> (rollback_accounts matches RollbackAccounts::FeePayerOnly {
                fee_payer_account,
            } ==> after == before.push((payer, fee_payer_account)))
            &&& results[i] matches Some(ProcessedTransaction::FeesOnly { rollback_accounts }) ==> (rollback_accounts matches RollbackAccounts::SameNonceAndFeePayer {
                nonce_address,
                nonce_account,
            } ==> after == before.push((nonce_address, nonce_account)))
            &&& results[i] matches Some(ProcessedTransaction::FeesOnly { rollback_accounts }) ==> (rollback_accounts matches RollbackAccounts::SeparateNonceAndFeePayer {
                nonce_address,
                nonce_account,
                fee_payer_account,
            } ==> after == before.push((payer, fee_payer_account)).push((nonce_address, nonce_account)))
            &&& results[i] is None ==> after == before
        }),
{
    let before = stored_by_all(txs, results, i);
    assert(before + seq![] =~= before);
    match results[i] {
        Some(ProcessedTransaction::Executed { succeeded, rollback_accounts, .. }) => {
            if !succeeded {
                match rollback_accounts {
                    RollbackAccounts::FeePayerOnly { fee_payer_account } => {
                        assert(before + seq![(txs[i].fee_payer, fee_payer_account)] =~= before.push((txs[i].fee_payer, fee_payer_account)));
                    },
                    RollbackAccounts::SameNonceAndFeePayer { nonce_address, nonce_account } => {
                        assert(before + seq![(nonce_address, nonce_account)] =~= before.push((nonce_address, nonce_account)));
                    },
                    RollbackAccounts::SeparateNonceAndFeePayer { nonce_address, nonce_account, fee_payer_account } => {
                        assert(before + seq![(txs[i].fee_payer, fee_payer_account), (nonce_address, nonce_account)]
                            =~= before.push((txs[i].fee_payer, fee_payer_account)).push((nonce_address, nonce_account)));
                    },
                }
            }
        },
        Some(ProcessedTransaction::FeesOnly { rollback_accounts }) => {
            match rollback_accounts {
                RollbackAccounts::FeePayerOnly { fee_payer_account } => {
                    assert(before + seq![(txs[i].fee_payer, fee_payer_account)] =~= before.push((txs[i].fee_payer, fee_payer_account)));
                },
                RollbackAccounts::SameNonceAndFeePayer { nonce_address, nonce_account } => {
                    assert(before + seq![(nonce_address, nonce_account)] =~= before.push((nonce_address, nonce_account)));
                },
                RollbackAccounts::SeparateNonceAndFeePayer { nonce_address, nonce_account, fee_payer_account } => {
                    assert(before + seq![(txs[i].fee_payer, fee_payer_account), (nonce_address, nonce_account)]
                        =~= before.push((txs[i].fee_payer, fee_payer_account)).push((nonce_address, nonce_account)));
                },
            }
        },
        None => {},
    }
}

/// A delegated account is cloned under the owner and with the lamports that
/// its delegation record names, never those of the account as fetched
/// (which the delegation program owns).
pub proof fn lemma_delegated_clone_follows_record(
    perms: AccountClonerPermissions,
    allowed: Option<Set<Pubkey>>,
    payer_init_lamports: Option<u64>,
    mode: ValidatorCollectionMode,
    pubkey: Pubkey,
    snapshot: AccountChainSnapshot,
    stage: ValidatorStage,
    local_owner: Option<Pubkey>,
)
    ensures
        snapshot.chain_state matches AccountChainState::Delegated { delegation_record, .. } ==> (clone_plan(
            perms,
            allowed,
            payer_init_lamports,
            mode,
            pubkey,
            snapshot,
            stage,
            local_owner,
        ) matches ClonePlan::DumpDelegated { lamports, owner } ==> owner == delegation_record.owner && lamports
            == delegation_record.lamports),
        snapshot.chain_state matches AccountChainState::Delegated { delegation_record, .. } ==> (perms.allow_cloning_delegated_accounts
            && local_owner != Some(delegation_record.owner) ==> clone_plan(
            perms,
            allowed,
            payer_init_lamports,
            mode,
            pubkey,
            snapshot,
            stage,
            local_owner,
        ) == ClonePlan::DumpDelegated { lamports: delegation_record.lamports, owner: delegation_record.owner }),
{
}

/// Every committee of a scheduled commit is taken at the commit's slot and
/// asks for undelegation exactly when the commit does; each one writes the
/// target of a committed account that the bank still holds, with the
/// bank's content; and no more committees come out than accounts went in.
pub proof fn lemma_committees_follow_commit(targets: Seq<(CommitmentTarget, Option<Account>)>, slot: u64, undelegate: bool)
    ensures
        committees_of(targets, slot, undelegate).len() <= targets.len(),
        forall|k: int| 0 <= k < committees_of(targets, slot, undelegate).len() ==> {
            let c = #[trigger] committees_of(targets, slot, undelegate)[k];
            &&& c.slot == slot
            &&& c.undelegation_requested == undelegate
            &&& exists|j: int| 0 <= j < targets.len() && (#[trigger] targets[j]).1 == Some(c.account_data)
                && targets[j].0.pubkey == c.pubkey && targets[j].0.owner == c.owner
        },
    decreases targets.len(),
{
    if targets.len() > 0 {
        let init = targets.drop_last();
        lemma_committees_follow_commit(init, slot, undelegate);
        let rest = committees_of(init, slot, undelegate);
        let all = committees_of(targets, slot, undelegate);
        assert forall|k: int| 0 <= k < all.len() implies {
            let c = #[trigger] all[k];
            &&& c.slot == slot
            &&& c.undelegation_requested == undelegate
            &&& exists|j: int| 0 <= j < targets.len() && (#[trigger] targets[j]).1 == Some(c.account_data)
                && targets[j].0.pubkey == c.pubkey && targets[j].0.owner == c.owner
        } by {
            if k < rest.len() {
                assert(all[k] == rest[k]);
                let c = rest[k];
                let j = choose|j: int| 0 <= j < init.len() && (#[trigger] init[j]).1 == Some(c.account_data)
                    && init[j].0.pubkey == c.pubkey && init[j].0.owner == c.owner;
                assert(targets[j] == init[j]);
            } else {
                let j = targets.len() - 1;
                assert(targets[j] == targets.last());
            }
        }
    }
}

/// Opening the storage over a memory map sizes it by the map: it holds as
/// many whole blocks as the map does (cut to 32 bits), keeps the header's
/// other fields, and reports the new block count exactly when it differs
/// from the recorded one.
pub proof fn lemma_storage_blocks_follow_the_map(header: Seq<u8>, mmap_len: usize)
    ensures
        spec_read_meta(header, mmap_len) matches Ok((m, adjusted)) ==> {
            let h = MetaHeader::spec_decode(header);
            &&& m.total_blocks == (mmap_len as nat / h.block_size as nat) as u32
            &&& m.block_size == h.block_size
            &&& m.head == h.head
            &&& m.slot == h.slot
            &&& m.deallocated == h.deallocated
            &&& (m.total_blocks != h.total_blocks ==> adjusted == Some(m.total_blocks))
            &&& (m.total_blocks == h.total_blocks ==> adjusted is None)
        },
{
}

/// A larger memory map over the same header never gives fewer blocks, as
/// long as the block count fits in 32 bits.
pub proof fn lemma_storage_grows_with_the_map(header: Seq<u8>, small: usize, large: usize)
    requires
        small <= large,
        MetaHeader::spec_decode(header).block_size > 0,
        large as nat / MetaHeader::spec_decode(header).block_size as nat <= u32::MAX,
    ensures
        spec_read_meta(header, small) matches Ok((a, _)) ==> (spec_read_meta(header, large) matches Ok((b, _))
            && a.total_blocks <= b.total_blocks),
{
    let bs = MetaHeader::spec_decode(header).block_size as nat;
    assert(small as nat / bs <= large as nat / bs) by (nonlinear_arith)
        requires
            small <= large,
            bs > 0,
    ;
}

/// A registry record is up to date only when it says exactly what the
/// validator wants registered, field by field, its address included; two
/// records that differ anywhere are never taken for one another.
pub proof fn lemma_up_to_date_means_identical(current: ErRecord, wanted: ErRecord)
    ensures
        same_record(current, wanted) ==> {
            &&& current.identity == wanted.identity
            &&& current.status == wanted.status
            &&& current.block_time_ms == wanted.block_time_ms
            &&& current.base_fee == wanted.base_fee
            &&& current.features == wanted.features
            &&& current.load_average == wanted.load_average
            &&& current.country_code == wanted.country_code
            &&& current.addr@ == wanted.addr@
        },
        same_record(current, wanted) == same_record(wanted, current),
        same_record(current, current),
{
}

} // verus!
