//! The abstract state of a transaction, and what each operation does to it.
use vstd::prelude::*;
use crate::error::{Error, TransactionAbortReason};
use crate::ids::{FullRangeId, KeyspaceId, LeaderSeq, leader_agrees};
use crate::participant::RangeModel;

verus! {

/// The lifecycle state of a transaction.
#[derive(Clone, Copy, Debug, PartialEq, Eq, Structural)]
pub enum State {
    Running,
    Preparing,
    Aborted,
    Committed,
}

/// The legal transitions: Running to Preparing or Aborted, Preparing to
/// Committed or Aborted, and staying put. Committed and Aborted are terminal.
pub open spec fn legal_transition(a: State, b: State) -> bool {
    ||| a == b
    ||| a == State::Running && (b == State::Preparing || b == State::Aborted)
    ||| a == State::Preparing && (b == State::Committed || b == State::Aborted)
}

/// The error of an operation that needs a running transaction, in state `s`.
pub open spec fn not_running_error(s: State) -> Error {
    if s == State::Aborted {
        Error::TransactionAborted(TransactionAbortReason::Other)
    } else {
        Error::TransactionNoLongerRunning
    }
}

/// What `check_still_running` returns in state `s`.
pub open spec fn running_check(s: State) -> Result<(), Error> {
    if s == State::Running {
        Ok(())
    } else {
        Err(not_running_error(s))
    }
}

/// The abstract state of a transaction.
pub struct TxModel {
    pub id: u128,
    pub state: State,
    /// The ranges touched so far, with their buffers.
    pub participants: Map<FullRangeId, RangeModel>,
    /// Keyspaces resolved so far, by (namespace, name).
    pub keyspaces: Map<(Seq<char>, Seq<char>), KeyspaceId>,
    /// The epoch handed to the state store once every range prepared.
    pub commit_epoch: Option<u64>,
}

impl TxModel {
    /// A transaction that has just been opened.
    pub open spec fn opened(id: u128) -> TxModel {
        TxModel {
            id,
            state: State::Running,
            participants: Map::empty(),
            keyspaces: Map::empty(),
            commit_epoch: None,
        }
    }

    /// Writes and deletes are disjoint on every range, and no commit epoch
    /// exists while the transaction runs.
    pub open spec fn inv(self) -> bool {
        &&& forall|r: FullRangeId| #[trigger] self.participants.contains_key(r) ==> self.participants[r].disjoint()
        &&& self.state == State::Running ==> self.commit_epoch is None
    }

    /// The buffers of range `r`; empty for a range not touched yet.
    pub open spec fn range(self, r: FullRangeId) -> RangeModel {
        if self.participants.contains_key(r) {
            self.participants[r]
        } else {
            RangeModel::empty()
        }
    }

    /// Range `r` made a participant.
    pub open spec fn touch(self, r: FullRangeId) -> TxModel {
        TxModel { participants: self.participants.insert(r, self.range(r)), ..self }
    }

    /// The same transaction, aborted.
    pub open spec fn aborted(self) -> TxModel {
        TxModel { state: State::Aborted, ..self }
    }

    /// What resolving keyspace `ks` returns, given what the directory lookup
    /// returned: the cached id when there is one, else the lookup's answer.
    pub open spec fn resolve_result(
        self,
        ks: (Seq<char>, Seq<char>),
        lookup: Result<Option<KeyspaceId>, String>,
    ) -> Result<KeyspaceId, Error> {
        if self.keyspaces.contains_key(ks) {
            Ok(self.keyspaces[ks])
        } else {
            match lookup {
                Err(cause) => Err(Error::InternalError(cause)),
                Ok(None) => Err(Error::KeyspaceDoesNotExist),
                Ok(Some(id)) => Ok(id),
            }
        }
    }

    /// The transaction after resolving `ks`: a found id is cached.
    pub open spec fn resolve_next(
        self,
        ks: (Seq<char>, Seq<char>),
        lookup: Result<Option<KeyspaceId>, String>,
    ) -> TxModel {
        match self.resolve_result(ks, lookup) {
            Ok(id) => TxModel { keyspaces: self.keyspaces.insert(ks, id), ..self },
            Err(_) => self,
        }
    }

    /// What a read of `k` on range `r` finds in the buffers.
    pub open spec fn get_result(self, r: FullRangeId, k: Seq<u8>) -> Result<
        Option<Option<Seq<u8>>>,
        Error,
    > {
        if self.state == State::Running {
            Ok(self.range(r).local_read(k))
        } else {
            Err(not_running_error(self.state))
        }
    }

    /// The transaction after a read of `k` on range `r` looked at the buffers.
    pub open spec fn get_next(self, r: FullRangeId) -> TxModel {
        if self.state == State::Running {
            self.touch(r)
        } else {
            self
        }
    }

    /// What a read of `k` on range `r` returns once the range answered with
    /// `val` under leader `observed`.
    pub open spec fn read_result(
        self,
        r: FullRangeId,
        observed: LeaderSeq,
        val: Option<Seq<u8>>,
    ) -> Result<Option<Seq<u8>>, Error> {
        if self.state != State::Running {
            Err(not_running_error(self.state))
        } else if leader_agrees(self.range(r).leader, observed) {
            Ok(val)
        } else {
            Err(Error::TransactionAborted(TransactionAbortReason::RangeLeadershipChanged))
        }
    }

    /// The transaction after such a read: the key is noted as read and the
    /// leader pinned, or the transaction is aborted on a leader change.
    pub open spec fn read_next(self, r: FullRangeId, k: Seq<u8>, observed: LeaderSeq) -> TxModel {
        if self.state != State::Running {
            self
        } else if leader_agrees(self.range(r).leader, observed) {
            TxModel { participants: self.participants.insert(r, self.range(r).read(k, observed)), ..self }
        } else {
            self.touch(r).aborted()
        }
    }

    /// The transaction after `k` on range `r` is written with `v`.
    pub open spec fn put_next(self, r: FullRangeId, k: Seq<u8>, v: Seq<u8>) -> TxModel {
        if self.state == State::Running {
            TxModel { participants: self.participants.insert(r, self.range(r).put(k, v)), ..self }
        } else {
            self
        }
    }

    /// The transaction after `k` on range `r` is deleted.
    pub open spec fn del_next(self, r: FullRangeId, k: Seq<u8>) -> TxModel {
        if self.state == State::Running {
            TxModel { participants: self.participants.insert(r, self.range(r).del(k)), ..self }
        } else {
            self
        }
    }

    /// What `abort` returns: `Ok(true)` when this call aborted the transaction
    /// and the abort must be broadcast, `Ok(false)` when it was aborted
    /// already and nothing is to be sent.
    pub open spec fn abort_result(self) -> Result<bool, Error> {
        if self.state == State::Aborted {
            Ok(false)
        } else if self.state == State::Running {
            Ok(true)
        } else {
            Err(Error::TransactionNoLongerRunning)
        }
    }

    /// The transaction after `abort`.
    pub open spec fn abort_next(self) -> TxModel {
        if self.state == State::Running {
            self.aborted()
        } else {
            self
        }
    }

    /// The transaction after commit is entered.
    pub open spec fn commit_next(self) -> TxModel {
        if self.state == State::Running {
            TxModel { state: State::Preparing, ..self }
        } else {
            self
        }
    }

    /// Whether the transaction waits for its prepares.
    pub open spec fn awaiting_prepares(self) -> bool {
        self.state == State::Preparing && self.commit_epoch is None
    }

    /// Whether the transaction waits for the state store's decision.
    pub open spec fn awaiting_decision(self) -> bool {
        self.state == State::Preparing && self.commit_epoch is Some
    }
}

} // verus!
