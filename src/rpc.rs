//! What the coordinator receives from range servers and the state store.
use vstd::prelude::*;
use crate::error::{Error, RangeError, TransactionAbortReason, maps_range_error};
use crate::ids::{FullRangeId, LeaderSeq};

verus! {

/// A range's answer to a single-key read.
#[derive(Clone, Debug, PartialEq, Eq)]
pub struct GetResult {
    /// The stored value, if any.
    pub val: Option<Vec<u8>>,
    /// The range's current leader.
    pub leader_sequence_number: LeaderSeq,
}

/// A range's answer to a successful prepare.
#[derive(Clone, Copy, Debug, PartialEq, Eq)]
pub struct PrepareResult {
    pub highest_known_epoch: u64,
    /// The epochs, both inclusive, over which the range holds its lease.
    pub epoch_lease: (u64, u64),
}

impl PrepareResult {
    /// Whether the lease covers `epoch`.
    pub open spec fn lease_covers(self, epoch: u64) -> bool {
        self.epoch_lease.0 <= epoch <= self.epoch_lease.1
    }
}

/// How one prepare of the fan-out ended.
#[derive(Clone, Debug, PartialEq, Eq)]
pub enum PrepareOutcome {
    /// The range prepared.
    Prepared(FullRangeId, PrepareResult),
    /// The range, or the way to it, returned an error.
    Failed(FullRangeId, RangeError),
    /// The task that ran the prepare failed (cancelled or panicked).
    TaskFailed,
}

/// The state store's decision on a transaction.
#[derive(Clone, Copy, Debug, PartialEq, Eq, Structural)]
pub enum CommitDecision {
    /// Committed at the given epoch.
    Committed(u64),
    /// Aborted.
    Aborted,
}

/// Whether outcome `i` is the first one in `s` that is not a success.
pub open spec fn is_first_failure(s: Seq<PrepareOutcome>, i: int) -> bool {
    &&& 0 <= i < s.len()
    &&& !(s[i] is Prepared)
    &&& forall|j: int| 0 <= j < i ==> s[j] is Prepared
}

/// Whether every outcome in `s` is a success.
pub open spec fn all_prepared(s: Seq<PrepareOutcome>) -> bool {
    forall|i: int| 0 <= i < s.len() ==> s[i] is Prepared
}

/// Whether `s` holds a successful prepare of range `r`.
pub open spec fn prepared_in(s: Seq<PrepareOutcome>, r: FullRangeId) -> bool {
    exists|i: int| 0 <= i < s.len() && (#[trigger] s[i]) is Prepared && s[i]->Prepared_0 == r
}

/// Whether `s` holds a successful prepare for each range of `ranges`.
pub open spec fn covers(s: Seq<PrepareOutcome>, ranges: Set<FullRangeId>) -> bool {
    forall|r: FullRangeId| #[trigger] ranges.contains(r) ==> prepared_in(s, r)
}

/// Whether the lease of every successful prepare in `s` covers `epoch`.
pub open spec fn leases_cover(s: Seq<PrepareOutcome>, epoch: u64) -> bool {
    forall|i: int| 0 <= i < s.len() && (#[trigger] s[i]) is Prepared ==> s[i]->Prepared_1.lease_covers(epoch)
}

/// Whether `e` is the error that the failed outcome `o` aborts with.
pub open spec fn failure_error(o: PrepareOutcome, e: Error) -> bool {
    match o {
        PrepareOutcome::Prepared(_, _) => false,
        PrepareOutcome::Failed(_, re) => maps_range_error(re, e),
        PrepareOutcome::TaskFailed => e == Error::TransactionAborted(TransactionAbortReason::PrepareFailed),
    }
}

} // verus!
