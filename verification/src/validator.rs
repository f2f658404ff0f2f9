use vstd::prelude::*;

use crate::cloner::ValidatorCollectionMode;
use crate::pubkey::Pubkey;

verus! {

/// Whether a validator takes part in the network.
#[derive(Clone, Copy, Debug, PartialEq, Eq)]
pub enum ErStatus {
    Active,
    Draining,
    Offline,
}

/// A validator's record in the domain registry.
#[derive(Clone, Debug)]
pub struct ErRecord {
    pub identity: Pubkey,
    pub status: ErStatus,
    pub block_time_ms: u16,
    pub base_fee: u16,
    pub features: u64,
    pub load_average: u32,
    pub country_code: u16,
    pub addr: String,
}

/// Whether two records say the same.
pub open spec fn same_record(a: ErRecord, b: ErRecord) -> bool {
    &&& a.identity == b.identity
    &&& a.status == b.status
    &&& a.block_time_ms == b.block_time_ms
    &&& a.base_fee == b.base_fee
    &&& a.features == b.features
    &&& a.load_average == b.load_average
    &&& a.country_code == b.country_code
    &&& a.addr@ == b.addr@
}

impl ErRecord {
    /// Whether `other` says the same as this record.
    pub fn same_as(&self, other: &ErRecord) -> (r: bool)
        ensures
            r == same_record(*self, *other),
    {
        let status_same = match (self.status, other.status) {
            (ErStatus::Active, ErStatus::Active) => true,
            (ErStatus::Draining, ErStatus::Draining) => true,
            (ErStatus::Offline, ErStatus::Offline) => true,
            _ => false,
        };
        self.identity.same_as(&other.identity) && status_same && self.block_time_ms == other.block_time_ms
            && self.base_fee == other.base_fee && self.features == other.features && self.load_average
            == other.load_average && self.country_code == other.country_code && self.addr == other.addr
    }
}

/// Why a registry operation failed.
#[derive(Clone, Debug, PartialEq, Eq)]
pub enum Error {
    /// The record on chain could not be read.
    BorshError(String),
    /// There is no record to remove.
    NoRegisteredValidatorError,
    /// Sending a transaction or reading an account failed.
    UnknownError(String),
}

/// What registering a validator requires, given its record on chain.
#[derive(Clone, Copy, Debug, PartialEq, Eq)]
pub enum RegistrationAction {
    /// The record on chain is up to date.
    UpToDate,
    /// The record on chain differs: update it.
    Sync,
    /// There is no record on chain: create it.
    Register,
}

/// Decides how to register `wanted`, given the record currently on chain.
pub fn registration_action(current: Option<&ErRecord>, wanted: &ErRecord) -> (r: RegistrationAction)
    ensures
        match current {
            None => r == RegistrationAction::Register,
            Some(c) => if same_record(*c, *wanted) {
                r == RegistrationAction::UpToDate
            } else {
                r == RegistrationAction::Sync
            },
        },
{
    match current {
        None => RegistrationAction::Register,
        Some(c) => {
            if c.same_as(wanted) {
                RegistrationAction::UpToDate
            } else {
                RegistrationAction::Sync
            }
        },
    }
}

/// Removing a validator's record needs one on chain.
pub fn check_unregistration(current: Option<&ErRecord>) -> (r: Result<(), Error>)
    ensures
        current is Some <==> r is Ok,
        r matches Err(e) ==> e == Error::NoRegisteredValidatorError,
{
    match current {
        Some(_) => Ok(()),
        None => Err(Error::NoRegisteredValidatorError),
    }
}

/// The record a validator registers: active, with its slot time and base
/// fee cut to 16 bits, no load and no features.
pub fn validator_record(identity: Pubkey, millis_per_slot: u64, base_fees: Option<u64>, country_code: u16, addr: String) -> (r: ErRecord)
    ensures
        r.identity == identity,
        r.status == ErStatus::Active,
        r.block_time_ms == millis_per_slot % 65536,
        r.base_fee == (match base_fees {
            Some(f) => f,
            None => 0,
        }) % 65536,
        r.features == 0,
        r.load_average == 0,
        r.country_code == country_code,
        r.addr == addr,
{
    let fee = match base_fees {
        Some(f) => f,
        None => 0,
    };
    let block_time_ms = (millis_per_slot % 65536) as u16;
    let base_fee = (fee % 65536) as u16;
    ErRecord {
        identity,
        status: ErStatus::Active,
        block_time_ms,
        base_fee,
        features: 0,
        load_average: 0,
        country_code,
        addr,
    }
}

/// How fee payers are cloned: with fees charged when base fees are set.
pub fn collection_mode(base_fees: Option<u64>) -> (r: ValidatorCollectionMode)
    ensures
        base_fees is None <==> r == ValidatorCollectionMode::NoFees,
{
    match base_fees {
        None => ValidatorCollectionMode::NoFees,
        Some(_) => ValidatorCollectionMode::Fees,
    }
}

/// Why starting the validator failed, for the checks made here.
#[derive(Clone, Debug, PartialEq, Eq)]
pub enum ApiError {
    /// After replaying the ledger, the bank is not at the slot the ledger
    /// continues at (that slot, the bank's).
    NextSlotAfterLedgerProcessingNotMatchingBankSlot(u64, u64),
    /// The ledger at this path belongs to another validator (with this
    /// identity).
    LedgerValidatorKeypairNotMatchingProvidedKeypair(String, String),
}

/// After replaying the ledger, the bank must be at the slot the ledger
/// continues at.
pub fn check_slot_after_ledger(slot_to_continue_at: u64, bank_slot: u64) -> (r: Result<(), ApiError>)
    ensures
        r is Ok <==> slot_to_continue_at == bank_slot,
        r matches Err(e) ==> e == ApiError::NextSlotAfterLedgerProcessingNotMatchingBankSlot(slot_to_continue_at, bank_slot),
{
    if slot_to_continue_at != bank_slot {
        Err(ApiError::NextSlotAfterLedgerProcessingNotMatchingBankSlot(slot_to_continue_at, bank_slot))
    } else {
        Ok(())
    }
}

/// What starting on a ledger does with the validator's keypair.
#[derive(Clone, Copy, Debug, PartialEq, Eq)]
pub enum KeypairSync {
    /// A reset ledger records the validator's keypair.
    Write,
    /// An existing ledger must hold the validator's keypair: compare them.
    Compare,
}

/// A reset ledger records the keypair; an existing one is checked.
pub fn keypair_sync(reset_ledger: bool) -> (r: KeypairSync)
    ensures
        reset_ledger <==> r == KeypairSync::Write,
{
    if reset_ledger {
        KeypairSync::Write
    } else {
        KeypairSync::Compare
    }
}

/// The ledger's keypair must be the validator's; `ledger_identity` is the
/// address of the ledger's keypair and `same_keypair` tells whether it is
/// the validator's keypair.
pub fn check_ledger_keypair(ledger_path: String, ledger_identity: String, same_keypair: bool) -> (r: Result<(), ApiError>)
    ensures
        r is Ok <==> same_keypair,
        r matches Err(e) ==> e == ApiError::LedgerValidatorKeypairNotMatchingProvidedKeypair(ledger_path, ledger_identity),
{
    if same_keypair {
        Ok(())
    } else {
        Err(ApiError::LedgerValidatorKeypairNotMatchingProvidedKeypair(ledger_path, ledger_identity))
    }
}

/// The programs loaded into the bank at startup, from the configured
/// programs (address and path of each).
pub fn programs_to_load(programs: &Vec<(Pubkey, String)>) -> (r: Vec<(Pubkey, String)>)
    ensures
        r@.len() == programs@.len(),
        forall|i: int| 0 <= i < r@.len() ==> (#[trigger] r@[i]).0 == programs@[i].0 && r@[i].1 == programs@[i].1,
{
    let mut out: Vec<(Pubkey, String)> = Vec::new();
    let mut i: usize = 0;
    while i < programs.len()
        invariant
            0 <= i <= programs@.len(),
            out@.len() == i,
            forall|j: int| 0 <= j < i ==> (#[trigger] out@[j]).0 == programs@[j].0 && out@[j].1 == programs@[j].1,
        decreases programs@.len() - i,
    {
        out.push((programs[i].0, programs[i].1.clone()));
        i = i + 1;
    }
    out
}

/// Whether a slot ticker reports each slot: when slots last five seconds
/// or more.
pub fn logs_each_slot(tick_millis: u64) -> (r: bool)
    ensures
        r == (tick_millis >= 5000),
{
    tick_millis >= 5000
}

} // verus!
