use vstd::prelude::*;

pub mod pubkey;
pub mod table;
pub mod entry_set;
pub mod error;
pub mod index;
pub mod keys;
pub mod monitored;
pub mod cloner;
pub mod well_known;
pub mod updates;
pub mod persister;
pub mod committer;
pub mod locks;
pub mod account_info;
pub mod cluster;
pub mod accounts_cache;
pub mod fetcher_stub;
pub mod collect;
pub mod validator;
pub mod clock;
pub mod laws;
pub mod storage;
pub mod snapshot;
pub mod snapshot_engine;

verus! {

} // verus!
