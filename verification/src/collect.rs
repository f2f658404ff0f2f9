use vstd::prelude::*;

use crate::cloner::Account;
use crate::pubkey::Pubkey;
use crate::well_known::ADDRESS_LOOKUP_TABLE_PROGRAM_ID;

verus! {

/// The accounts a failed transaction still writes back: its fee payer, its
/// nonce account, or both.
#[derive(Debug)]
pub enum RollbackAccounts {
    FeePayerOnly { fee_payer_account: Account },
    SameNonceAndFeePayer { nonce_address: Pubkey, nonce_account: Account },
    SeparateNonceAndFeePayer { nonce_address: Pubkey, nonce_account: Account, fee_payer_account: Account },
}

impl RollbackAccounts {
    /// How many accounts are written back.
    pub open spec fn spec_count(&self) -> nat {
        match self {
            RollbackAccounts::SeparateNonceAndFeePayer { .. } => 2,
            _ => 1,
        }
    }

    /// How many accounts are written back.
    pub fn count(&self) -> (r: usize)
        ensures
            r == self.spec_count(),
    {
        match self {
            RollbackAccounts::SeparateNonceAndFeePayer { .. } => 2,
            _ => 1,
        }
    }
}

/// What processing a transaction gave.
#[derive(Debug)]
pub enum ProcessedTransaction {
    /// It was executed; `succeeded` tells whether without error. The
    /// accounts it loaded and those to roll back to are given.
    Executed { succeeded: bool, accounts: Vec<(Pubkey, Account)>, rollback_accounts: RollbackAccounts },
    /// It was not executed, but its fees were charged.
    FeesOnly { rollback_accounts: RollbackAccounts },
}

/// What the collection needs to know of a transaction's message: its fee
/// payer, how many accounts it write-locks, and for each account whether
/// it is writable, invoked as a program, and passed to an instruction.
#[derive(Clone, Debug)]
pub struct MessageAccounts {
    pub fee_payer: Pubkey,
    pub num_write_locks: u64,
    pub writable: Vec<bool>,
    pub invoked: Vec<bool>,
    pub instruction_account: Vec<bool>,
}

/// How many of the first `k` flags are set.
pub open spec fn count_set(flags: Seq<bool>, k: int) -> int
    decreases k,
{
    if k <= 0 {
        0
    } else {
        count_set(flags, k - 1) + if flags[k - 1] {
            1int
        } else {
            0int
        }
    }
}

proof fn lemma_count_set_monotone(flags: Seq<bool>, a: int, b: int)
    requires
        0 <= a <= b,
    ensures
        0 <= count_set(flags, a) <= count_set(flags, b),
    decreases b,
{
    if b > a {
        lemma_count_set_monotone(flags, a, b - 1);
    } else {
        lemma_count_set_nonneg(flags, a);
    }
}

proof fn lemma_count_set_nonneg(flags: Seq<bool>, k: int)
    ensures
        count_set(flags, k) >= 0,
    decreases k,
{
    if k > 0 {
        lemma_count_set_nonneg(flags, k - 1);
    }
}

impl MessageAccounts {
    /// The flags of each account are given, and the write locks are those
    /// of the writable accounts.
    pub open spec fn wf(&self) -> bool {
        &&& self.writable@.len() == self.invoked@.len()
        &&& self.invoked@.len() == self.instruction_account@.len()
        &&& self.num_write_locks == count_set(self.writable@, self.writable@.len() as int)
    }

    /// Whether the account at `i` is stored after a successful execution:
    /// it is writable, and not a program that is only invoked.
    pub open spec fn stores(&self, i: int) -> bool {
        self.writable@[i] && !(self.invoked@[i] && !self.instruction_account@[i])
    }
}

/// The accounts stored after a successful execution: the first of
/// `accounts` (as many as the message has) that the message stores.
pub open spec fn stored_after_success(msg: MessageAccounts, accounts: Seq<(Pubkey, Account)>) -> Seq<(Pubkey, Account)>
    decreases accounts.len(),
{
    if accounts.len() == 0 {
        Seq::empty()
    } else {
        let rest = stored_after_success(msg, accounts.drop_last());
        let i = accounts.len() - 1;
        if i < msg.writable@.len() && msg.stores(i) {
            rest.push(accounts.last())
        } else {
            rest
        }
    }
}

/// The accounts stored after a failed transaction with fee payer
/// `fee_payer`.
pub open spec fn stored_after_failure(fee_payer: Pubkey, rollback: RollbackAccounts) -> Seq<(Pubkey, Account)> {
    match rollback {
        RollbackAccounts::FeePayerOnly { fee_payer_account } => seq![(fee_payer, fee_payer_account)],
        RollbackAccounts::SameNonceAndFeePayer { nonce_address, nonce_account } => seq![(nonce_address, nonce_account)],
        RollbackAccounts::SeparateNonceAndFeePayer { nonce_address, nonce_account, fee_payer_account } => seq![
            (fee_payer, fee_payer_account),
            (nonce_address, nonce_account),
        ],
    }
}

/// Appends the accounts a successful transaction stores.
pub fn collect_accounts_for_successful_tx(
    collected_accounts: &mut Vec<(Pubkey, Account)>,
    transaction: &MessageAccounts,
    transaction_accounts: Vec<(Pubkey, Account)>,
)
    requires
        transaction.wf(),
    ensures
        final(collected_accounts)@ == old(collected_accounts)@ + stored_after_success(
            *transaction,
            transaction_accounts@,
        ),
{
    let ghost all = transaction_accounts@;
    let ghost start = collected_accounts@;
    let mut rest = transaction_accounts;
    let n = rest.len();
    let mut i: usize = 0;
    while i < n
        invariant
            0 <= i <= n,
            n == all.len(),
            transaction.wf(),
            rest@ == all.subrange(i as int, n as int),
            collected_accounts@ == start + stored_after_success(*transaction, all.subrange(0, i as int)),
        decreases n - i,
    {
        let (address, account) = rest.remove(0);
        proof {
            let sub = all.subrange(0, i + 1);
            assert(sub.drop_last() =~= all.subrange(0, i as int));
            assert(sub.last() == all[i as int]);
            assert(rest@ =~= all.subrange(i + 1, n as int));
        }
        if i < transaction.writable.len() && transaction.writable[i] && !(transaction.invoked[i]
            && !transaction.instruction_account[i]) {
            collected_accounts.push((address, account));
            proof {
                assert(collected_accounts@ =~= start + stored_after_success(*transaction, all.subrange(0, i + 1)));
            }
        }
        i = i + 1;
    }
    proof {
        assert(all.subrange(0, n as int) =~= all);
    }
}

/// Appends the accounts a failed transaction with fee payer `fee_payer`
/// stores: those it rolls back to.
pub fn collect_accounts_for_failed_tx(
    collected_accounts: &mut Vec<(Pubkey, Account)>,
    fee_payer: Pubkey,
    rollback_accounts: RollbackAccounts,
)
    ensures
        final(collected_accounts)@ == old(collected_accounts)@ + stored_after_failure(fee_payer, rollback_accounts),
{
    let ghost start = collected_accounts@;
    let ghost rb = rollback_accounts;
    match rollback_accounts {
        RollbackAccounts::FeePayerOnly { fee_payer_account } => {
            collected_accounts.push((fee_payer, fee_payer_account));
        },
        RollbackAccounts::SameNonceAndFeePayer { nonce_address, nonce_account } => {
            collected_accounts.push((nonce_address, nonce_account));
        },
        RollbackAccounts::SeparateNonceAndFeePayer { nonce_address, nonce_account, fee_payer_account } => {
            collected_accounts.push((fee_payer, fee_payer_account));
            collected_accounts.push((nonce_address, nonce_account));
        },
    }
    proof {
        assert(collected_accounts@ =~= start + stored_after_failure(fee_payer, rb));
    }
}

proof fn lemma_stored_after_success_len(msg: MessageAccounts, accounts: Seq<(Pubkey, Account)>)
    requires
        msg.wf(),
    ensures
        stored_after_success(msg, accounts).len() <= count_set(
            msg.writable@,
            if accounts.len() < msg.writable@.len() { accounts.len() as int } else { msg.writable@.len() as int },
        ),
    decreases accounts.len(),
{
    let w = msg.writable@.len() as int;
    let m = accounts.len() as int;
    if m > 0 {
        lemma_stored_after_success_len(msg, accounts.drop_last());
        let prev = if m - 1 < w { m - 1 } else { w };
        let cur = if m < w { m } else { w };
        lemma_count_set_monotone(msg.writable@, prev, cur);
    }
}

/// A processed transaction stores no more accounts than it may.
proof fn lemma_stored_by_len(msg: MessageAccounts, processed: Option<ProcessedTransaction>)
    requires
        msg.wf(),
    ensures
        stored_by(msg, processed).len() <= collect_bound(msg, processed),
{
    match processed {
        Some(ProcessedTransaction::Executed { succeeded, accounts, .. }) => {
            if succeeded {
                lemma_stored_after_success_len(msg, accounts@);
                let w = msg.writable@.len() as int;
                let cur = if accounts@.len() < w { accounts@.len() as int } else { w };
                lemma_count_set_monotone(msg.writable@, cur, w);
            }
        },
        _ => {},
    }
}

proof fn lemma_stored_by_all_len(txs: Seq<MessageAccounts>, results: Seq<Option<ProcessedTransaction>>, n: int)
    requires
        0 <= n <= txs.len(),
        n <= results.len(),
        forall|i: int| 0 <= i < txs.len() ==> (#[trigger] txs[i]).wf(),
    ensures
        stored_by_all(txs, results, n).len() <= collect_bound_sum(txs, results, n),
    decreases n,
{
    if n > 0 {
        lemma_stored_by_all_len(txs, results, n - 1);
        lemma_stored_by_len(txs[n - 1], results[n - 1]);
    }
}

/// How many accounts a processed transaction may store.
pub open spec fn collect_bound(msg: MessageAccounts, processed: Option<ProcessedTransaction>) -> nat {
    match processed {
        None => 0,
        Some(ProcessedTransaction::Executed { succeeded, rollback_accounts, .. }) => if succeeded {
            msg.num_write_locks as nat
        } else {
            rollback_accounts.spec_count()
        },
        Some(ProcessedTransaction::FeesOnly { rollback_accounts }) => rollback_accounts.spec_count(),
    }
}

/// How many accounts the first `n` transactions may store.
pub open spec fn collect_bound_sum(txs: Seq<MessageAccounts>, results: Seq<Option<ProcessedTransaction>>, n: int) -> nat
    decreases n,
{
    if n <= 0 {
        0
    } else {
        collect_bound_sum(txs, results, n - 1) + collect_bound(txs[n - 1], results[n - 1])
    }
}

/// The number of transactions paired with a result.
pub open spec fn paired(txs: Seq<MessageAccounts>, results: Seq<Option<ProcessedTransaction>>) -> int {
    if txs.len() < results.len() {
        txs.len() as int
    } else {
        results.len() as int
    }
}

/// The most accounts that storing the outcome of `txs` may take: the write
/// locks of each successful transaction and the rollback accounts of each
/// failed one.
pub fn max_number_of_accounts_to_collect(txs: &Vec<MessageAccounts>, processing_results: &Vec<Option<ProcessedTransaction>>) -> (r: usize)
    requires
        collect_bound_sum(txs@, processing_results@, paired(txs@, processing_results@)) <= usize::MAX,
    ensures
        r == collect_bound_sum(txs@, processing_results@, paired(txs@, processing_results@)),
{
    let n = if txs.len() < processing_results.len() {
        txs.len()
    } else {
        processing_results.len()
    };
    let mut total: usize = 0;
    let mut i: usize = 0;
    while i < n
        invariant
            0 <= i <= n,
            n == paired(txs@, processing_results@),
            n <= txs@.len(),
            n <= processing_results@.len(),
            total == collect_bound_sum(txs@, processing_results@, i as int),
            collect_bound_sum(txs@, processing_results@, n as int) <= usize::MAX,
        decreases n - i,
    {
        proof {
            lemma_bound_sum_monotone(txs@, processing_results@, i + 1, n as int);
        }
        let add: usize = match &processing_results[i] {
            None => 0,
            Some(ProcessedTransaction::Executed { succeeded, rollback_accounts, .. }) => {
                if *succeeded {
                    txs[i].num_write_locks as usize
                } else {
                    rollback_accounts.count()
                }
            },
            Some(ProcessedTransaction::FeesOnly { rollback_accounts }) => rollback_accounts.count(),
        };
        total = total + add;
        i = i + 1;
    }
    total
}

proof fn lemma_bound_sum_monotone(txs: Seq<MessageAccounts>, results: Seq<Option<ProcessedTransaction>>, a: int, b: int)
    requires
        0 <= a <= b,
    ensures
        collect_bound_sum(txs, results, a) <= collect_bound_sum(txs, results, b),
    decreases b - a,
{
    if a < b {
        lemma_bound_sum_monotone(txs, results, a, b - 1);
    }
}

/// The accounts that storing the outcome of one processed transaction
/// writes.
pub open spec fn stored_by(msg: MessageAccounts, processed: Option<ProcessedTransaction>) -> Seq<(Pubkey, Account)> {
    match processed {
        None => Seq::empty(),
        Some(ProcessedTransaction::Executed { succeeded, accounts, rollback_accounts }) => if succeeded {
            stored_after_success(msg, accounts@)
        } else {
            stored_after_failure(msg.fee_payer, rollback_accounts)
        },
        Some(ProcessedTransaction::FeesOnly { rollback_accounts }) => stored_after_failure(msg.fee_payer, rollback_accounts),
    }
}

/// The accounts that storing the outcome of the first `n` transactions writes.
pub open spec fn stored_by_all(txs: Seq<MessageAccounts>, results: Seq<Option<ProcessedTransaction>>, n: int) -> Seq<(Pubkey, Account)>
    decreases n,
{
    if n <= 0 {
        Seq::empty()
    } else {
        stored_by_all(txs, results, n - 1) + stored_by(txs[n - 1], results[n - 1])
    }
}

/// The accounts to store after processing `txs`, in order: for each
/// successful transaction the accounts it writes, for each failed one the
/// accounts it rolls back to.
pub fn collect_accounts_to_store(txs: &Vec<MessageAccounts>, processing_results: Vec<Option<ProcessedTransaction>>) -> (r: Vec<(Pubkey, Account)>)
    requires
        forall|i: int| 0 <= i < txs@.len() ==> (#[trigger] txs@[i]).wf(),
    ensures
        r@ == stored_by_all(txs@, processing_results@, paired(txs@, processing_results@)),
        r@.len() <= collect_bound_sum(txs@, processing_results@, paired(txs@, processing_results@)),
{
    let ghost all = processing_results@;
    proof {
        lemma_stored_by_all_len(txs@, all, paired(txs@, all));
    }
    let n = if txs.len() < processing_results.len() {
        txs.len()
    } else {
        processing_results.len()
    };
    let mut accounts: Vec<(Pubkey, Account)> = Vec::new();
    let mut rest = processing_results;
    let mut i: usize = 0;
    while i < n
        invariant
            0 <= i <= n,
            n == paired(txs@, all),
            n <= txs@.len(),
            n <= all.len(),
            forall|j: int| 0 <= j < txs@.len() ==> (#[trigger] txs@[j]).wf(),
            rest@ == all.subrange(i as int, all.len() as int),
            accounts@ == stored_by_all(txs@, all, i as int),
        decreases n - i,
    {
        let processed = rest.remove(0);
        proof {
            assert(processed == all[i as int]);
            assert(rest@ =~= all.subrange(i + 1, all.len() as int));
        }
        let transaction = &txs[i];
        match processed {
            None => {
                proof {
                    assert(accounts@ =~= stored_by_all(txs@, all, i + 1));
                }
            },
            Some(ProcessedTransaction::Executed { succeeded, accounts: loaded, rollback_accounts }) => {
                if succeeded {
                    collect_accounts_for_successful_tx(&mut accounts, transaction, loaded);
                } else {
                    collect_accounts_for_failed_tx(&mut accounts, transaction.fee_payer, rollback_accounts);
                }
            },
            Some(ProcessedTransaction::FeesOnly { rollback_accounts }) => {
                collect_accounts_for_failed_tx(&mut accounts, transaction.fee_payer, rollback_accounts);
            },
        }
        i = i + 1;
    }
    accounts
}

/// Whether a scan of the accounts owned by `program_id` keeps `account`:
/// it is owned by the program and holds lamports.
pub fn keeps_for_program(account: &Account, program_id: &Pubkey) -> (r: bool)
    ensures
        r == (account.lamports != 0 && account.owner == *program_id),
{
    account.lamports != 0 && account.owner.same_as(program_id)
}

/// Why the addresses of a lookup table could not be loaded.
#[derive(Clone, Copy, Debug, PartialEq, Eq)]
pub enum AddressLoaderError {
    LookupTableAccountNotFound,
    InvalidAccountOwner,
    InvalidAccountData,
}

/// Checks the account of an address lookup table before its content is
/// read: it must exist and belong to the address lookup table program.
pub fn check_lookup_table_account(table_account: Option<&Account>) -> (r: Result<(), AddressLoaderError>)
    ensures
        match table_account {
            None => r == Err::<(), AddressLoaderError>(AddressLoaderError::LookupTableAccountNotFound),
            Some(a) => if a.owner.0 == ADDRESS_LOOKUP_TABLE_PROGRAM_ID {
                r == Ok::<(), AddressLoaderError>(())
            } else {
                r == Err::<(), AddressLoaderError>(AddressLoaderError::InvalidAccountOwner)
            },
        },
{
    match table_account {
        None => Err(AddressLoaderError::LookupTableAccountNotFound),
        Some(a) => {
            if a.owner.same_as(&Pubkey(ADDRESS_LOOKUP_TABLE_PROGRAM_ID)) {
                Ok(())
            } else {
                Err(AddressLoaderError::InvalidAccountOwner)
            }
        },
    }
}

} // verus!
