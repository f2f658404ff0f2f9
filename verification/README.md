# magicblock_core_logic

The decision logic of an ephemeral Solana validator, verified with Verus:
which remote accounts are cloned and when a previous clone can be reused,
how the accounts database lays out and indexes accounts, how snapshots are
taken and rolled back to, how account locks are taken and released, how
commits back to the base cluster are planned and confirmed, and how the
account update subscriptions record their slots.

Layout:

- `src/` — the verified library, one module per concern (`cloner`,
  `monitored`, `updates`, `committer`, `index`, `storage`, `snapshot`,
  `snapshot_engine`, `persister`, `accounts_cache`, `locks`, `collect`,
  `account_info`, `cluster`, `validator`, ...). Cross-function properties
  are proof functions (`laws`, and `lemma_*` items next to the code).
- `tests/` — scenarios run against the compiled library.
- `app/` — the file system, memory map and network side: snapshot
  directories, storage files, and a cloning driver over services that reach
  the remote cluster.
