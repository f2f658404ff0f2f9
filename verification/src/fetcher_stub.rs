use vstd::prelude::*;

use crate::cloner::{Account, AccountChainSnapshot, AccountChainState, DelegationInconsistency, DelegationRecord};
use crate::pubkey::Pubkey;
use crate::table::KeyedTable;
use crate::well_known::SYSTEM_PROGRAM_ID;

verus! {

/// The lamports every account the stub makes holds: the rent of an empty
/// account.
pub const MIN_ACCOUNT_RENT: u64 = 890880;

/// The lamports of the fee payers the stub makes.
pub const STUB_FEEPAYER_LAMPORTS: u64 = 42;

/// What a known account is on chain, for the stub.
#[derive(Clone, Copy, Debug)]
pub enum AccountFetcherStubState {
    FeePayer,
    Undelegated,
    Delegated { delegation_record: DelegationRecord },
    Executable,
}

/// A known account: its state and the slot it is observed at.
#[derive(Clone, Copy, Debug)]
pub struct AccountFetcherStubSnapshot {
    pub slot: u64,
    pub state: AccountFetcherStubState,
}

/// Why a fetch failed.
#[derive(Clone, Debug, PartialEq, Eq)]
pub enum AccountFetcherError {
    FailedToFetch(String),
}

/// Whether `account` is empty, with the given owner, lamports and
/// executable flag.
pub open spec fn is_stub_account(account: Account, owner: Pubkey, lamports: u64, executable: bool) -> bool {
    &&& account.lamports == lamports
    &&& account.data@.len() == 0
    &&& account.owner == owner
    &&& account.executable == executable
    &&& account.rent_epoch == 0
}

/// Whether `cs` is the chain state the stub gives for a known account in
/// `state`; the addresses it makes up (an owner, a delegation record's
/// address) are unique ones of which nothing else is said.
pub open spec fn is_stub_chain_state(state: AccountFetcherStubState, cs: AccountChainState) -> bool {
    match state {
        AccountFetcherStubState::FeePayer => cs matches AccountChainState::FeePayer { lamports, .. } && lamports
            == STUB_FEEPAYER_LAMPORTS,
        AccountFetcherStubState::Undelegated => cs matches AccountChainState::Undelegated { account, delegation_inconsistency }
            && is_stub_account(account, account.owner, MIN_ACCOUNT_RENT, false)
            && delegation_inconsistency == DelegationInconsistency::DelegationRecordNotFound,
        AccountFetcherStubState::Delegated { delegation_record } => cs matches AccountChainState::Delegated { account, delegation_record: r, .. }
            && is_stub_account(account, Pubkey(SYSTEM_PROGRAM_ID), MIN_ACCOUNT_RENT, false)
            && r == delegation_record,
        AccountFetcherStubState::Executable => cs matches AccountChainState::Undelegated { account, delegation_inconsistency }
            && is_stub_account(account, Pubkey(SYSTEM_PROGRAM_ID), MIN_ACCOUNT_RENT, true)
            && delegation_inconsistency == DelegationInconsistency::DelegationRecordNotFound,
    }
}

/// Calls `solana_pubkey::Pubkey::new_unique`: an address made from a counter
/// the process keeps, so no two calls give the same one; nothing is stated
/// of it, as it rests on the calls made before.
#[verifier::external_body]
fn unique_pubkey() -> Pubkey {
    Pubkey(solana_pubkey::Pubkey::new_unique().to_bytes())
}

/// A stand-in for the account fetcher: it knows some accounts, answers
/// with made-up states for them, and counts the fetches of each address.
pub struct AccountFetcherStub {
    pub fetched_counters: KeyedTable<u64>,
    pub known_accounts: KeyedTable<AccountFetcherStubSnapshot>,
}

impl AccountFetcherStub {
    pub open spec fn wf(&self) -> bool {
        self.fetched_counters.wf() && self.known_accounts.wf()
    }

    /// No known account, nothing fetched.
    pub fn new() -> (r: Self)
        ensures
            r.wf(),
            r.fetched_counters.view() == Map::<Pubkey, u64>::empty(),
            r.known_accounts.view() == Map::<Pubkey, AccountFetcherStubSnapshot>::empty(),
    {
        AccountFetcherStub { fetched_counters: KeyedTable::new(), known_accounts: KeyedTable::new() }
    }

    fn insert_known_account(&mut self, pubkey: Pubkey, info: AccountFetcherStubSnapshot)
        requires
            old(self).wf(),
        ensures
            final(self).wf(),
            final(self).known_accounts.view() == old(self).known_accounts.view().insert(pubkey, info),
            final(self).fetched_counters == old(self).fetched_counters,
    {
        self.known_accounts.insert(pubkey, info);
    }

    /// Makes `pubkey` a fee payer observed at `at_slot`.
    pub fn set_feepayer_account(&mut self, pubkey: Pubkey, at_slot: u64)
        requires
            old(self).wf(),
        ensures
            final(self).wf(),
            final(self).known_accounts.view() == old(self).known_accounts.view().insert(
                pubkey,
                AccountFetcherStubSnapshot { slot: at_slot, state: AccountFetcherStubState::FeePayer },
            ),
            final(self).fetched_counters == old(self).fetched_counters,
    {
        self.insert_known_account(pubkey, AccountFetcherStubSnapshot { slot: at_slot, state: AccountFetcherStubState::FeePayer });
    }

    /// Makes `pubkey` an undelegated account observed at `at_slot`.
    pub fn set_undelegated_account(&mut self, pubkey: Pubkey, at_slot: u64)
        requires
            old(self).wf(),
        ensures
            final(self).wf(),
            final(self).known_accounts.view() == old(self).known_accounts.view().insert(
                pubkey,
                AccountFetcherStubSnapshot { slot: at_slot, state: AccountFetcherStubState::Undelegated },
            ),
            final(self).fetched_counters == old(self).fetched_counters,
    {
        self.insert_known_account(pubkey, AccountFetcherStubSnapshot { slot: at_slot, state: AccountFetcherStubState::Undelegated });
    }

    /// Makes `pubkey` an account delegated at `delegation_slot`, observed at
    /// `at_slot`, with a thousand lamports in its record; the authority and
    /// owner of the record are made-up unique addresses.
    pub fn set_delegated_account(&mut self, pubkey: Pubkey, at_slot: u64, delegation_slot: u64)
        requires
            old(self).wf(),
        ensures
            final(self).wf(),
            final(self).known_accounts.view() == old(self).known_accounts.view().insert(
                pubkey,
                final(self).known_accounts.view()[pubkey],
            ),
            final(self).known_accounts.view()[pubkey] matches AccountFetcherStubSnapshot {
                slot,
                state: AccountFetcherStubState::Delegated { delegation_record },
            } && slot == at_slot && delegation_record.delegation_slot == delegation_slot
                && delegation_record.lamports == 1000 && delegation_record.commit_frequency_ms == 0,
            final(self).fetched_counters == old(self).fetched_counters,
    {
        let authority = unique_pubkey();
        let owner = unique_pubkey();
        let info = AccountFetcherStubSnapshot {
            slot: at_slot,
            state: AccountFetcherStubState::Delegated {
                delegation_record: DelegationRecord { authority, owner, delegation_slot, lamports: 1000, commit_frequency_ms: 0 },
            },
        };
        self.insert_known_account(pubkey, info);
    }

    /// Makes `pubkey` a program observed at `at_slot`.
    pub fn set_executable_account(&mut self, pubkey: Pubkey, at_slot: u64)
        requires
            old(self).wf(),
        ensures
            final(self).wf(),
            final(self).known_accounts.view() == old(self).known_accounts.view().insert(
                pubkey,
                AccountFetcherStubSnapshot { slot: at_slot, state: AccountFetcherStubState::Executable },
            ),
            final(self).fetched_counters == old(self).fetched_counters,
    {
        self.insert_known_account(pubkey, AccountFetcherStubSnapshot { slot: at_slot, state: AccountFetcherStubState::Executable });
    }

    /// How many times `pubkey` was fetched.
    pub fn get_fetch_count(&self, pubkey: &Pubkey) -> (r: u64)
        requires
            self.wf(),
        ensures
            r == (if self.fetched_counters.view().contains_key(*pubkey) {
                self.fetched_counters.view()[*pubkey]
            } else {
                0
            }),
    {
        match self.fetched_counters.get(pubkey) {
            Some(c) => c,
            None => 0,
        }
    }

    /// The state of a known account, with made-up unique addresses where
    /// one is needed; an error for an unknown one.
    pub fn generate_account_chain_snapshot(&self, pubkey: &Pubkey) -> (r: Result<AccountChainSnapshot, AccountFetcherError>)
        requires
            self.wf(),
        ensures
            self.known_accounts.view().contains_key(*pubkey) ==> (r matches Ok(s) && s.pubkey == *pubkey
                && s.at_slot == self.known_accounts.view()[*pubkey].slot
                && is_stub_chain_state(self.known_accounts.view()[*pubkey].state, s.chain_state)),
            !self.known_accounts.view().contains_key(*pubkey) ==> r is Err,
    {
        match self.known_accounts.get(pubkey) {
            Some(known) => {
                let chain_state = match known.state {
                    AccountFetcherStubState::FeePayer => AccountChainState::FeePayer {
                        lamports: STUB_FEEPAYER_LAMPORTS,
                        owner: unique_pubkey(),
                    },
                    AccountFetcherStubState::Undelegated => AccountChainState::Undelegated {
                        account: Account { lamports: MIN_ACCOUNT_RENT, data: Vec::new(), owner: unique_pubkey(), executable: false, rent_epoch: 0 },
                        delegation_inconsistency: DelegationInconsistency::DelegationRecordNotFound,
                    },
                    AccountFetcherStubState::Delegated { delegation_record } => AccountChainState::Delegated {
                        account: Account { lamports: MIN_ACCOUNT_RENT, data: Vec::new(), owner: Pubkey(SYSTEM_PROGRAM_ID), executable: false, rent_epoch: 0 },
                        delegation_pda: unique_pubkey(),
                        delegation_record,
                    },
                    AccountFetcherStubState::Executable => AccountChainState::Undelegated {
                        account: Account { lamports: MIN_ACCOUNT_RENT, data: Vec::new(), owner: Pubkey(SYSTEM_PROGRAM_ID), executable: true, rent_epoch: 0 },
                        delegation_inconsistency: DelegationInconsistency::DelegationRecordNotFound,
                    },
                };
                Ok(AccountChainSnapshot { pubkey: *pubkey, at_slot: known.slot, chain_state })
            },
            None => Err(AccountFetcherError::FailedToFetch("Account not supposed to be fetched during the tests".to_owned())),
        }
    }

    /// Counts a fetch of `pubkey`, then answers as
    /// `generate_account_chain_snapshot` does.
    pub fn fetch_account_chain_snapshot(&mut self, pubkey: &Pubkey) -> (r: Result<AccountChainSnapshot, AccountFetcherError>)
        requires
            old(self).wf(),
            old(self).fetched_counters.view().contains_key(*pubkey) ==> old(self).fetched_counters.view()[*pubkey] < u64::MAX,
        ensures
            final(self).wf(),
            final(self).known_accounts == old(self).known_accounts,
            final(self).fetched_counters.view() == old(self).fetched_counters.view().insert(
                *pubkey,
                (if old(self).fetched_counters.view().contains_key(*pubkey) {
                    old(self).fetched_counters.view()[*pubkey] + 1
                } else {
                    1
                }) as u64,
            ),
            old(self).known_accounts.view().contains_key(*pubkey) ==> (r matches Ok(s) && s.pubkey == *pubkey
                && s.at_slot == old(self).known_accounts.view()[*pubkey].slot
                && is_stub_chain_state(old(self).known_accounts.view()[*pubkey].state, s.chain_state)),
            !old(self).known_accounts.view().contains_key(*pubkey) ==> r is Err,
    {
        let count = match self.fetched_counters.get(pubkey) {
            Some(c) => c + 1,
            None => 1,
        };
        self.fetched_counters.insert(*pubkey, count);
        self.generate_account_chain_snapshot(pubkey)
    }
}

} // verus!
