//! Properties that hold of every transaction, whatever the inputs.
use vstd::prelude::*;
use crate::error::{Error, TransactionAbortReason};
use crate::ids::{FullRangeId, KeyspaceId, LeaderSeq};
use crate::model::{State, TxModel, legal_transition, not_running_error, running_check};
use crate::participant::RangeModel;

verus! {

/// Every operation keeps buffered writes and deletes disjoint on every
/// range, and keeps the commit epoch unset while the transaction runs.
pub proof fn lemma_operations_keep_inv(
    m: TxModel,
    r: FullRangeId,
    k: Seq<u8>,
    v: Seq<u8>,
    observed: LeaderSeq,
    ks: (Seq<char>, Seq<char>),
    lookup: Result<Option<KeyspaceId>, String>,
)
    requires
        m.inv(),
    ensures
        m.resolve_next(ks, lookup).inv(),
        m.get_next(r).inv(),
        m.read_next(r, k, observed).inv(),
        m.put_next(r, k, v).inv(),
        m.del_next(r, k).inv(),
        m.abort_next().inv(),
        m.commit_next().inv(),
{
    assert(m.range(r).disjoint()) by {
        if !m.participants.contains_key(r) {
            assert(RangeModel::empty().writeset.dom() =~= Set::<Seq<u8>>::empty());
        }
    }
    assert(m.range(r).put(k, v).disjoint()) by {
        assert(m.range(r).put(k, v).writeset.dom() =~= m.range(r).writeset.dom().insert(k));
    }
    assert(m.range(r).del(k).disjoint()) by {
        assert(m.range(r).del(k).writeset.dom() =~= m.range(r).writeset.dom().remove(k));
    }
}

/// Every operation moves along a legal transition, and none of get, put,
/// del, the completion of a read, or commit succeeds on a transaction that
/// is not running. Abort succeeds on a running or aborted transaction.
pub proof fn lemma_legal_transitions(
    m: TxModel,
    r: FullRangeId,
    k: Seq<u8>,
    v: Seq<u8>,
    observed: LeaderSeq,
    val: Option<Seq<u8>>,
    ks: (Seq<char>, Seq<char>),
    lookup: Result<Option<KeyspaceId>, String>,
)
    ensures
        legal_transition(m.state, m.resolve_next(ks, lookup).state),
        legal_transition(m.state, m.get_next(r).state),
        legal_transition(m.state, m.read_next(r, k, observed).state),
        legal_transition(m.state, m.put_next(r, k, v).state),
        legal_transition(m.state, m.del_next(r, k).state),
        legal_transition(m.state, m.abort_next().state),
        legal_transition(m.state, m.commit_next().state),
        m.state != State::Running ==> {
            &&& m.get_result(r, k) is Err
            &&& m.read_result(r, observed, val) is Err
            &&& running_check(m.state) is Err
            &&& m.commit_next() == m
        },
        m.state == State::Running || m.state == State::Aborted ==> m.abort_result() is Ok,
{
}

/// Once a range's leader is pinned to a sequence number, no operation
/// changes it.
pub proof fn lemma_pinned_leader_kept(
    m: TxModel,
    r: FullRangeId,
    pinned: FullRangeId,
    k: Seq<u8>,
    v: Seq<u8>,
    observed: LeaderSeq,
    ks: (Seq<char>, Seq<char>),
    lookup: Result<Option<KeyspaceId>, String>,
)
    requires
        m.range(pinned).leader is Value,
    ensures
        m.resolve_next(ks, lookup).range(pinned).leader == m.range(pinned).leader,
        m.get_next(r).range(pinned).leader == m.range(pinned).leader,
        m.read_next(r, k, observed).range(pinned).leader == m.range(pinned).leader,
        m.put_next(r, k, v).range(pinned).leader == m.range(pinned).leader,
        m.del_next(r, k).range(pinned).leader == m.range(pinned).leader,
        m.abort_next().range(pinned).leader == m.range(pinned).leader,
        m.commit_next().range(pinned).leader == m.range(pinned).leader,
{
}

/// Read-your-writes: after a put of `v` to `k` a read of `k` returns `v`
/// from the buffers, and after a delete of `k` it returns nothing from the
/// buffers; neither asks the range.
pub proof fn lemma_read_your_writes(m: TxModel, r: FullRangeId, k: Seq<u8>, v: Seq<u8>)
    requires
        m.state == State::Running,
    ensures
        m.put_next(r, k, v).get_result(r, k) == Ok::<_, Error>(Some(Some(v))),
        m.del_next(r, k).get_result(r, k) == Ok::<_, Error>(Some(None::<Seq<u8>>)),
{
}

/// Aborting twice: the second abort succeeds, changes nothing, and asks
/// for nothing to be sent.
pub proof fn lemma_abort_twice(m: TxModel)
    requires
        m.abort_result() is Ok,
    ensures
        m.abort_next().abort_result() == Ok::<bool, Error>(false),
        m.abort_next().abort_next() == m.abort_next(),
{
}

/// A commit cannot be retried: once commit was entered, entering it again
/// fails as no longer running, and once a commit attempt aborted the
/// transaction, it fails as aborted.
pub proof fn lemma_commit_not_retried(m: TxModel)
    requires
        m.state == State::Running,
    ensures
        m.commit_next().state == State::Preparing,
        not_running_error(m.commit_next().state) == Error::TransactionNoLongerRunning,
        not_running_error(m.commit_next().aborted().state) == Error::TransactionAborted(
            TransactionAbortReason::Other,
        ),
{
}

} // verus!
