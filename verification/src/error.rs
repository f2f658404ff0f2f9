use vstd::prelude::*;

verus! {

/// Why an accounts database operation failed.
#[derive(Debug, Clone, PartialEq, Eq)]
pub enum AccountsDbError {
    /// The requested account (or index record) doesn't exist.
    NotFound,
    /// An input/output failure, with the message it carried.
    Io(String),
    /// A failure of the index storage, with the message it carried.
    Lmdb(String),
    /// No snapshot exists at or before the given slot.
    SnapshotMissing(u64),
    /// An internal inconsistency.
    Internal(InternalError),
}

/// Internal inconsistencies the database reports.
#[derive(Debug, Clone, Copy, PartialEq, Eq)]
pub enum InternalError {
    /// The memory map is not larger than the metadata section.
    MmapTooSmall,
    /// The metadata header holds an unknown block size or no blocks at all.
    UninitializedMetadata,
}

impl InternalError {
    /// The message that describes the inconsistency.
    pub fn message(&self) -> (r: &'static str)
        ensures
            *self == InternalError::MmapTooSmall ==> r@ == "memory map length is less than metadata requirement"@,
            *self == InternalError::UninitializedMetadata ==> r@ == "AccountsDB file is not initialized properly"@,
    {
        match self {
            InternalError::MmapTooSmall => "memory map length is less than metadata requirement",
            InternalError::UninitializedMetadata => "AccountsDB file is not initialized properly",
        }
    }
}

/// The outcome of an accounts database operation.
pub type AdbResult<T> = Result<T, AccountsDbError>;

/// Errors of account owner matching.
#[derive(Debug, Clone, Copy, PartialEq, Eq)]
pub enum MatchAccountOwnerError {
    /// The account owner does not match with the provided list.
    NoMatch,
    /// Unable to load the account.
    UnableToLoad,
}

impl MatchAccountOwnerError {
    /// The message that describes the error.
    pub fn message(&self) -> (r: &'static str)
        ensures
            *self == MatchAccountOwnerError::NoMatch ==> r@ == "The account owner does not match with the provided list"@,
            *self == MatchAccountOwnerError::UnableToLoad ==> r@ == "Unable to load the account"@,
    {
        match self {
            MatchAccountOwnerError::NoMatch => "The account owner does not match with the provided list",
            MatchAccountOwnerError::UnableToLoad => "Unable to load the account",
        }
    }
}

} // verus!
