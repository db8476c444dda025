//! Errors surfaced to the caller, and the mapping of range-side errors.
use vstd::prelude::*;

verus! {

/// Why a transaction was aborted.
#[derive(Clone, Copy, Debug, PartialEq, Eq, Structural)]
pub enum TransactionAbortReason {
    RangeLeadershipChanged,
    PrepareFailed,
    RangeLeaseExpired,
    Other,
}

/// An error of a transaction operation.
#[derive(Clone, Debug, PartialEq, Eq)]
pub enum Error {
    /// The keyspace could not be resolved, or no range owns the key.
    KeyspaceDoesNotExist,
    /// The transaction is aborted; this is terminal.
    TransactionAborted(TransactionAbortReason),
    /// The transaction has entered commit, or has committed.
    TransactionNoLongerRunning,
    /// A collaborator failed; the text names the cause.
    InternalError(String),
}

/// An error that a range server, or the way to it, returned.
#[derive(Clone, Debug, PartialEq, Eq)]
pub enum RangeError {
    /// The range refused to prepare because of a conflicting transaction.
    PrepareConflict,
    /// The range's epoch lease has expired.
    LeaseExpired,
    /// The range changed leader since the transaction first saw it.
    LeadershipChanged,
    /// The request did not reach the range, or its answer did not come back.
    Transport(String),
    /// The range is not served where the request was sent.
    UnknownRange,
}

/// Whether `r` is the transaction error that the range error `e` becomes.
pub open spec fn maps_range_error(e: RangeError, r: Error) -> bool {
    match e {
        RangeError::PrepareConflict => r == Error::TransactionAborted(TransactionAbortReason::Other),
        RangeError::LeaseExpired => r == Error::TransactionAborted(
            TransactionAbortReason::RangeLeaseExpired,
        ),
        RangeError::LeadershipChanged => r == Error::TransactionAborted(
            TransactionAbortReason::RangeLeadershipChanged,
        ),
        RangeError::Transport(_) => r == Error::TransactionAborted(
            TransactionAbortReason::PrepareFailed,
        ),
        RangeError::UnknownRange => r is InternalError,
    }
}

/// Translates a range-side error into a transaction error: prepare
/// rejections abort with their reason, transport failures abort as a failed
/// prepare, and an unknown range is an internal routing error.
pub fn error_from_range_error(e: &RangeError) -> (r: Error)
    ensures
        maps_range_error(*e, r),
{
    match e {
        RangeError::PrepareConflict => Error::TransactionAborted(TransactionAbortReason::Other),
        RangeError::LeaseExpired => Error::TransactionAborted(TransactionAbortReason::RangeLeaseExpired),
        RangeError::LeadershipChanged => Error::TransactionAborted(
            TransactionAbortReason::RangeLeadershipChanged,
        ),
        RangeError::Transport(_) => Error::TransactionAborted(TransactionAbortReason::PrepareFailed),
        RangeError::UnknownRange => Error::InternalError(String::from_str("unknown range")),
    }
}

} // verus!
