//! A transaction: its state machine, buffers and two-phase commit decisions.
use vstd::prelude::*;
use crate::buffers::copy_bytes as copy_key;
use crate::error::{Error, TransactionAbortReason, error_from_range_error, maps_range_error};
use crate::ids::{FullRangeId, FullRecordKey, Keyspace, KeyspaceId, LeaderSeq};
use crate::indexed::{index_map, lemma_index_map_at, lemma_index_map_push, lemma_index_map_update, unique};
use crate::model::{State, TxModel, legal_transition, not_running_error, running_check};
use crate::participant::{LocalRead, ParticipantRange, PrepareRequest, RangeModel};
use crate::rpc::{
    CommitDecision, GetResult, PrepareOutcome, all_prepared, covers, failure_error, is_first_failure,
    leases_cover, prepared_in,
};

verus! {

/// One transaction, owned by one client session.
pub struct Transaction {
    id: u128,
    state: State,
    range_ids: Vec<FullRangeId>,
    ranges: Vec<ParticipantRange>,
    keyspace_names: Vec<Keyspace>,
    keyspace_ids: Vec<KeyspaceId>,
    commit_epoch: Option<u64>,
}

/// The models of a sequence of participant ranges.
pub open spec fn range_models(rs: Seq<ParticipantRange>) -> Seq<RangeModel> {
    rs.map_values(|p: ParticipantRange| p@)
}

/// The (namespace, name) pairs of a sequence of keyspaces.
pub open spec fn keyspace_views(ks: Seq<Keyspace>) -> Seq<(Seq<char>, Seq<char>)> {
    ks.map_values(|k: Keyspace| k@)
}

/// Whether `reqs` asks each participant of `ps` exactly once to prepare
/// exactly what the transaction holds for it.
pub open spec fn prepares_all(reqs: Seq<PrepareRequest>, ps: Map<FullRangeId, RangeModel>) -> bool {
    &&& unique(reqs.map_values(|q: PrepareRequest| q.range_id))
    &&& reqs.map_values(|q: PrepareRequest| q.range_id).to_set() == ps.dom()
    &&& forall|i: int| 0 <= i < reqs.len() ==> (#[trigger] reqs[i]).carries(reqs[i].range_id, ps[reqs[i].range_id])
}

impl View for Transaction {
    type V = TxModel;

    closed spec fn view(&self) -> TxModel {
        TxModel {
            id: self.id,
            state: self.state,
            participants: index_map(self.range_ids@, range_models(self.ranges@)),
            keyspaces: index_map(keyspace_views(self.keyspace_names@), self.keyspace_ids@),
            commit_epoch: self.commit_epoch,
        }
    }
}

impl Transaction {
    /// The tables line up, hold each key once, and every range is well formed.
    pub closed spec fn wf(&self) -> bool {
        &&& self.range_ids.len() == self.ranges.len()
        &&& unique(self.range_ids@)
        &&& forall|i: int| 0 <= i < self.ranges.len() ==> (#[trigger] self.ranges@[i]).wf()
        &&& self.keyspace_names.len() == self.keyspace_ids.len()
        &&& unique(keyspace_views(self.keyspace_names@))
        &&& self.state == State::Running ==> self.commit_epoch is None
    }

    /// A well-formed transaction satisfies the model's invariant.
    pub proof fn lemma_wf_inv(&self)
        requires
            self.wf(),
        ensures
            self@.inv(),
    {
        assert forall|r: FullRangeId| #[trigger] self@.participants.contains_key(r) implies self@.participants[r].disjoint() by {
            let i = choose|i: int| 0 <= i < self.range_ids.len() && self.range_ids@[i] == r;
            lemma_index_map_at(self.range_ids@, range_models(self.ranges@), i);
            self.ranges@[i].lemma_wf_disjoint();
        }
    }

    /// Opens a transaction with the given id.
    pub fn new(id: u128) -> (r: Transaction)
        ensures
            r.wf(),
            r@ == TxModel::opened(id),
    {
        let r = Transaction {
            id,
            state: State::Running,
            range_ids: Vec::new(),
            ranges: Vec::new(),
            keyspace_names: Vec::new(),
            keyspace_ids: Vec::new(),
            commit_epoch: None,
        };
        assert(r@.participants =~= Map::<FullRangeId, RangeModel>::empty());
        assert(r@.keyspaces =~= Map::<(Seq<char>, Seq<char>), KeyspaceId>::empty());
        r
    }

    /// The transaction's id.
    pub fn id(&self) -> (r: u128)
        ensures
            r == self@.id,
    {
        self.id
    }

    /// The transaction's state.
    pub fn state(&self) -> (r: State)
        ensures
            r == self@.state,
    {
        self.state
    }

    /// The epoch handed to the state store, once every range prepared.
    pub fn commit_epoch(&self) -> (r: Option<u64>)
        ensures
            r == self@.commit_epoch,
    {
        self.commit_epoch
    }

    /// Succeeds while the transaction runs; an aborted transaction reports
    /// the abort, one that entered commit reports that it no longer runs.
    pub fn check_still_running(&self) -> (r: Result<(), Error>)
        ensures
            r == running_check(self@.state),
    {
        match self.state {
            State::Running => Ok(()),
            State::Aborted => Err(Error::TransactionAborted(TransactionAbortReason::Other)),
            State::Preparing | State::Committed => Err(Error::TransactionNoLongerRunning),
        }
    }

    fn keyspace_index(&self, ks: &Keyspace) -> (r: Option<usize>)
        requires
            self.wf(),
        ensures
            match r {
                Some(i) => i < self.keyspace_names.len() && self.keyspace_names@[i as int]@ == ks@,
                None => !self@.keyspaces.contains_key(ks@),
            },
    {
        let mut i: usize = 0;
        while i < self.keyspace_names.len()
            invariant
                0 <= i <= self.keyspace_names.len(),
                forall|j: int| 0 <= j < i ==> self.keyspace_names@[j]@ != ks@,
            decreases self.keyspace_names.len() - i,
        {
            if self.keyspace_names[i].same_as(ks) {
                return Some(i);
            }
            i = i + 1;
        }
        proof {
            if self@.keyspaces.contains_key(ks@) {
                let names = keyspace_views(self.keyspace_names@);
                let j = choose|j: int| 0 <= j < names.len() && names[j] == ks@;
                assert(self.keyspace_names@[j]@ == ks@);
            }
        }
        None
    }

    /// The id that `ks` resolved to earlier in this transaction, if any.
    pub fn cached_keyspace_id(&self, ks: &Keyspace) -> (r: Option<KeyspaceId>)
        requires
            self.wf(),
        ensures
            r == (if self@.keyspaces.contains_key(ks@) {
                Some(self@.keyspaces[ks@])
            } else {
                None
            }),
    {
        match self.keyspace_index(ks) {
            Some(i) => {
                proof {
                    lemma_index_map_at(keyspace_views(self.keyspace_names@), self.keyspace_ids@, i as int);
                }
                Some(self.keyspace_ids[i])
            },
            None => None,
        }
    }

    /// Resolves `ks` to its id. A keyspace resolved before in this
    /// transaction keeps its id; otherwise `lookup` is the directory's answer
    /// (`Ok(None)` when the keyspace is not found, `Err` on a transport
    /// error), and a found id is kept for the rest of the transaction.
    pub fn resolve_keyspace(&mut self, ks: &Keyspace, lookup: Result<Option<KeyspaceId>, String>) -> (r:
        Result<KeyspaceId, Error>)
        requires
            old(self).wf(),
        ensures
            final(self).wf(),
            r == old(self)@.resolve_result(ks@, lookup),
            final(self)@ == old(self)@.resolve_next(ks@, lookup),
    {
        if let Some(id) = self.cached_keyspace_id(ks) {
            assert(self@.keyspaces.insert(ks@, id) =~= self@.keyspaces);
            return Ok(id);
        }
        match lookup {
            Err(cause) => Err(Error::InternalError(cause)),
            Ok(None) => Err(Error::KeyspaceDoesNotExist),
            Ok(Some(id)) => {
                let ghost names = keyspace_views(self.keyspace_names@);
                let ghost ids = self.keyspace_ids@;
                self.keyspace_names.push(Keyspace { namespace: ks.namespace.clone(), name: ks.name.clone() });
                self.keyspace_ids.push(id);
                proof {
                    lemma_index_map_push(names, ids, ks@, id);
                    assert(keyspace_views(self.keyspace_names@) =~= names.push(ks@));
                }
                Ok(id)
            },
        }
    }

    /// The key together with its owning range; `owner` is what the range
    /// assignment oracle returned for it.
    pub fn resolve_full_record_key(key: Vec<u8>, owner: Option<FullRangeId>) -> (r: Result<
        FullRecordKey,
        Error,
    >)
        ensures
            match owner {
                None => r == Err::<FullRecordKey, Error>(Error::KeyspaceDoesNotExist),
                Some(range_id) => r is Ok && r->Ok_0.range_id == range_id && r->Ok_0.key@ == key@,
            },
    {
        match owner {
            None => Err(Error::KeyspaceDoesNotExist),
            Some(range_id) => Ok(FullRecordKey { range_id, key }),
        }
    }

    fn range_index(&self, r: FullRangeId) -> (i: Option<usize>)
        requires
            self.wf(),
        ensures
            match i {
                Some(i) => i < self.range_ids.len() && self.range_ids@[i as int] == r,
                None => !self@.participants.contains_key(r),
            },
    {
        let mut i: usize = 0;
        while i < self.range_ids.len()
            invariant
                0 <= i <= self.range_ids.len(),
                forall|j: int| 0 <= j < i ==> self.range_ids@[j] != r,
            decreases self.range_ids.len() - i,
        {
            if self.range_ids[i] == r {
                return Some(i);
            }
            i = i + 1;
        }
        None
    }

    /// Makes range `r` a participant, and returns its position.
    fn touch(&mut self, r: FullRangeId) -> (i: usize)
        requires
            old(self).wf(),
        ensures
            final(self).wf(),
            final(self)@ == old(self)@.touch(r),
            i < final(self).range_ids.len(),
            final(self).range_ids@[i as int] == r,
            final(self).ranges@[i as int]@ == old(self)@.range(r),
    {
        match self.range_index(r) {
            Some(i) => {
                proof {
                    lemma_index_map_at(self.range_ids@, range_models(self.ranges@), i as int);
                    assert(self@.participants.insert(r, self@.range(r)) =~= self@.participants);
                }
                i
            },
            None => {
                let ghost ids = self.range_ids@;
                let ghost ms = range_models(self.ranges@);
                let p = ParticipantRange::new();
                self.range_ids.push(r);
                self.ranges.push(p);
                proof {
                    lemma_index_map_push(ids, ms, r, RangeModel::empty());
                    assert(range_models(self.ranges@) =~= ms.push(RangeModel::empty()));
                    assert forall|j: int| 0 <= j < self.ranges.len() implies (#[trigger] self.ranges@[j]).wf() by {
                        if j < ids.len() {
                            assert(self.ranges@[j] == old(self).ranges@[j]);
                        }
                    }
                }
                self.ranges.len() - 1
            },
        }
    }

    /// Model of the transaction after the range at position `i` is replaced.
    proof fn lemma_replace_range(
        old_t: &Transaction,
        new_t: &Transaction,
        i: int,
    )
        requires
            old_t.wf(),
            0 <= i < old_t.ranges.len(),
            new_t.range_ids@ == old_t.range_ids@,
            new_t.ranges@ == old_t.ranges@.update(i, new_t.ranges@[i]),
            new_t.ranges@[i].wf(),
            new_t.keyspace_names@ == old_t.keyspace_names@,
            new_t.keyspace_ids@ == old_t.keyspace_ids@,
            new_t.state == State::Running ==> new_t.commit_epoch is None,
        ensures
            new_t.wf(),
            new_t@.participants == old_t@.participants.insert(old_t.range_ids@[i], new_t.ranges@[i]@),
            new_t@.keyspaces == old_t@.keyspaces,
    {
        lemma_index_map_update(old_t.range_ids@, range_models(old_t.ranges@), i, new_t.ranges@[i]@);
        assert(range_models(new_t.ranges@) =~= range_models(old_t.ranges@).update(i, new_t.ranges@[i]@));
        assert forall|j: int| 0 <= j < new_t.ranges.len() implies (#[trigger] new_t.ranges@[j]).wf() by {
            if j != i {
                assert(new_t.ranges@[j] == old_t.ranges@[j]);
            }
        }
    }

    /// Starts a read of `key`: answers from the buffers when the transaction
    /// wrote or deleted the key (read-your-writes), else reports that the
    /// range must be asked. The key's range becomes a participant.
    pub fn get(&mut self, key: &FullRecordKey) -> (r: Result<LocalRead, Error>)
        requires
            old(self).wf(),
        ensures
            final(self).wf(),
            final(self)@ == old(self)@.get_next(key.range_id),
            match r {
                Ok(l) => old(self)@.get_result(key.range_id, key.key@) == Ok::<_, Error>(l@),
                Err(e) => old(self)@.get_result(key.range_id, key.key@) == Err::<Option<Option<Seq<u8>>>, _>(e),
            },
    {
        if let Err(e) = self.check_still_running() {
            return Err(e);
        }
        let i = self.touch(key.range_id);
        Ok(self.ranges[i].local_read(&key.key))
    }

    /// Completes a read of `key` with the range's answer. The first valid
    /// leader observed on a range is pinned; an answer under another leader
    /// aborts the transaction. Otherwise the key is noted as read and the
    /// range's value returned.
    pub fn complete_get(&mut self, key: &FullRecordKey, answer: GetResult) -> (r: Result<Option<Vec<u8>>, Error>)
        requires
            old(self).wf(),
        ensures
            final(self).wf(),
            final(self)@ == old(self)@.read_next(key.range_id, key.key@, answer.leader_sequence_number),
            match r {
                Ok(v) => v == answer.val && old(self)@.read_result(
                    key.range_id,
                    answer.leader_sequence_number,
                    match answer.val { Some(x) => Some(x@), None => None },
                ) == Ok::<_, Error>(match v { Some(x) => Some(x@), None => None }),
                Err(e) => old(self)@.read_result(
                    key.range_id,
                    answer.leader_sequence_number,
                    match answer.val { Some(x) => Some(x@), None => None },
                ) == Err::<Option<Seq<u8>>, _>(e),
            },
    {
        if let Err(e) = self.check_still_running() {
            return Err(e);
        }
        let i = self.touch(key.range_id);
        let ghost mid = *self;
        let mut p = self.ranges.remove(i);
        let agrees = p.observe_read(copy_key(&key.key), answer.leader_sequence_number);
        self.ranges.insert(i, p);
        proof {
            assert(self.ranges@ =~= mid.ranges@.update(i as int, self.ranges@[i as int]));
            Self::lemma_replace_range(&mid, self, i as int);
            if agrees {
                assert(self@.participants =~= old(self)@.read_next(
                    key.range_id,
                    key.key@,
                    answer.leader_sequence_number,
                ).participants);
            } else {
                assert(self@.participants =~= old(self)@.touch(key.range_id).participants);
            }
        }
        if agrees {
            Ok(answer.val)
        } else {
            self.record_abort();
            Err(Error::TransactionAborted(TransactionAbortReason::RangeLeadershipChanged))
        }
    }

    /// Buffers a write of `val` to `key`; no range is contacted.
    pub fn put(&mut self, key: &FullRecordKey, val: Vec<u8>) -> (r: Result<(), Error>)
        requires
            old(self).wf(),
        ensures
            final(self).wf(),
            r == running_check(old(self)@.state),
            final(self)@ == old(self)@.put_next(key.range_id, key.key@, val@),
    {
        if let Err(e) = self.check_still_running() {
            return Err(e);
        }
        let i = self.touch(key.range_id);
        let ghost mid = *self;
        let mut p = self.ranges.remove(i);
        p.put(copy_key(&key.key), val);
        self.ranges.insert(i, p);
        proof {
            assert(self.ranges@ =~= mid.ranges@.update(i as int, self.ranges@[i as int]));
            Self::lemma_replace_range(&mid, self, i as int);
            assert(self@.participants =~= old(self)@.put_next(key.range_id, key.key@, val@).participants);
        }
        Ok(())
    }

    /// Buffers a delete of `key`; no range is contacted.
    pub fn del(&mut self, key: &FullRecordKey) -> (r: Result<(), Error>)
        requires
            old(self).wf(),
        ensures
            final(self).wf(),
            r == running_check(old(self)@.state),
            final(self)@ == old(self)@.del_next(key.range_id, key.key@),
    {
        if let Err(e) = self.check_still_running() {
            return Err(e);
        }
        let i = self.touch(key.range_id);
        let ghost mid = *self;
        let mut p = self.ranges.remove(i);
        p.del(copy_key(&key.key));
        self.ranges.insert(i, p);
        proof {
            assert(self.ranges@ =~= mid.ranges@.update(i as int, self.ranges@[i as int]));
            Self::lemma_replace_range(&mid, self, i as int);
            assert(self@.participants =~= old(self)@.del_next(key.range_id, key.key@).participants);
        }
        Ok(())
    }

    /// The ranges that participate, each once.
    pub fn participant_range_ids(&self) -> (r: Vec<FullRangeId>)
        requires
            self.wf(),
        ensures
            unique(r@),
            r@.to_set() == self@.participants.dom(),
    {
        let mut r: Vec<FullRangeId> = Vec::new();
        let mut i: usize = 0;
        while i < self.range_ids.len()
            invariant
                0 <= i <= self.range_ids.len(),
                r@ == self.range_ids@.subrange(0, i as int),
            decreases self.range_ids.len() - i,
        {
            r.push(self.range_ids[i]);
            i = i + 1;
            assert(r@ =~= self.range_ids@.subrange(0, i as int));
        }
        assert(r@ =~= self.range_ids@);
        assert(r@.to_set() =~= self@.participants.dom());
        r
    }

    /// The buffers of range `r`, if it participates.
    pub fn participant(&self, r: FullRangeId) -> (p: Option<&ParticipantRange>)
        requires
            self.wf(),
        ensures
            match p {
                Some(p) => self@.participants.contains_key(r) && p@ == self@.participants[r] && p.wf(),
                None => !self@.participants.contains_key(r),
            },
    {
        match self.range_index(r) {
            Some(i) => {
                proof {
                    lemma_index_map_at(self.range_ids@, range_models(self.ranges@), i as int);
                }
                Some(&self.ranges[i])
            },
            None => None,
        }
    }

    /// Marks the transaction aborted. The caller then sends an abort to
    /// every participant and records the abort with the state store.
    fn record_abort(&mut self)
        requires
            old(self).wf(),
        ensures
            final(self).wf(),
            final(self)@ == old(self)@.aborted(),
    {
        self.state = State::Aborted;
    }

    /// Aborts the transaction. On a transaction aborted already, returns
    /// `Ok(false)`: nothing is to be sent. On a running one, marks it aborted
    /// and returns `Ok(true)`: the caller sends an abort to every participant
    /// and records the abort with the state store. A transaction that entered
    /// commit cannot be aborted.
    pub fn abort(&mut self) -> (r: Result<bool, Error>)
        requires
            old(self).wf(),
        ensures
            final(self).wf(),
            r == old(self)@.abort_result(),
            final(self)@ == old(self)@.abort_next(),
    {
        match self.state {
            State::Aborted => Ok(false),
            State::Running => {
                self.record_abort();
                Ok(true)
            },
            State::Preparing | State::Committed => Err(Error::TransactionNoLongerRunning),
        }
    }

    /// Enters commit: the transaction stops running and each participant is
    /// given the request it must prepare.
    pub fn commit(&mut self) -> (r: Result<Vec<PrepareRequest>, Error>)
        requires
            old(self).wf(),
        ensures
            final(self).wf(),
            final(self)@ == old(self)@.commit_next(),
            match r {
                Ok(reqs) => old(self)@.state == State::Running && prepares_all(reqs@, old(self)@.participants),
                Err(e) => old(self)@.state != State::Running && e == not_running_error(old(self)@.state),
            },
    {
        if let Err(e) = self.check_still_running() {
            return Err(e);
        }
        self.state = State::Preparing;
        let mut reqs: Vec<PrepareRequest> = Vec::new();
        let mut i: usize = 0;
        while i < self.ranges.len()
            invariant
                self.wf(),
                self@ == old(self)@.commit_next(),
                0 <= i <= self.ranges.len(),
                reqs.len() == i,
                forall|j: int| 0 <= j < i ==> (#[trigger] reqs@[j]).carries(self.range_ids@[j], self.ranges@[j]@),
            decreases self.ranges.len() - i,
        {
            reqs.push(self.ranges[i].prepare_request(self.range_ids[i]));
            i = i + 1;
        }
        proof {
            let ids = reqs@.map_values(|q: PrepareRequest| q.range_id);
            assert(ids =~= self.range_ids@);
            assert(ids.to_set() =~= self@.participants.dom());
            assert forall|j: int| 0 <= j < reqs.len() implies (#[trigger] reqs@[j]).carries(
                reqs@[j].range_id,
                old(self)@.participants[reqs@[j].range_id],
            ) by {
                lemma_index_map_at(self.range_ids@, range_models(self.ranges@), j);
            }
        }
        Ok(reqs)
    }

    fn prepared_for(outcomes: &Vec<PrepareOutcome>, r: FullRangeId) -> (b: bool)
        ensures
            b == prepared_in(outcomes@, r),
    {
        let mut i: usize = 0;
        while i < outcomes.len()
            invariant
                0 <= i <= outcomes.len(),
                forall|j: int| 0 <= j < i ==> !((#[trigger] outcomes@[j]) is Prepared && outcomes@[j]->Prepared_0 == r),
            decreases outcomes.len() - i,
        {
            if let PrepareOutcome::Prepared(id, _) = &outcomes[i] {
                if *id == r {
                    return true;
                }
            }
            i = i + 1;
        }
        false
    }

    /// Takes the outcomes of the prepare fan-out and the epoch read meanwhile.
    /// The first failed outcome aborts the transaction with its error (a
    /// failed task as a failed prepare, a range error as it maps). A
    /// participant without a successful prepare aborts it as a failed
    /// prepare; a lease that does not cover the epoch aborts it as an expired
    /// lease. Otherwise the epoch is kept and returned: the caller asks the
    /// state store to commit at it. This is taken once per transaction.
    pub fn complete_prepare(&mut self, outcomes: &Vec<PrepareOutcome>, epoch: u64) -> (r: Result<u64, Error>)
        requires
            old(self).wf(),
        ensures
            final(self).wf(),
            legal_transition(old(self)@.state, final(self)@.state),
            !old(self)@.awaiting_prepares() ==> r == Err::<u64, _>(not_running_error(old(self)@.state))
                && final(self)@ == old(self)@,
            old(self)@.awaiting_prepares() ==> {
                &&& forall|i: int| is_first_failure(outcomes@, i) ==> r is Err && failure_error(outcomes@[i], r->Err_0)
                    && final(self)@ == old(self)@.aborted()
                &&& all_prepared(outcomes@) && !covers(outcomes@, old(self)@.participants.dom()) ==> r
                    == Err::<u64, _>(Error::TransactionAborted(TransactionAbortReason::PrepareFailed))
                    && final(self)@ == old(self)@.aborted()
                &&& all_prepared(outcomes@) && covers(outcomes@, old(self)@.participants.dom()) && !leases_cover(
                    outcomes@,
                    epoch,
                ) ==> r == Err::<u64, _>(Error::TransactionAborted(TransactionAbortReason::RangeLeaseExpired))
                    && final(self)@ == old(self)@.aborted()
                &&& all_prepared(outcomes@) && covers(outcomes@, old(self)@.participants.dom()) && leases_cover(
                    outcomes@,
                    epoch,
                ) ==> r == Ok::<u64, Error>(epoch) && final(self)@ == (TxModel {
                    commit_epoch: Some(epoch),
                    ..old(self)@
                })
            },
    {
        match self.state {
            State::Preparing => {},
            State::Aborted => {
                return Err(Error::TransactionAborted(TransactionAbortReason::Other));
            },
            _ => {
                return Err(Error::TransactionNoLongerRunning);
            },
        }
        if let Some(_) = self.commit_epoch {
            return Err(Error::TransactionNoLongerRunning);
        }
        let mut i: usize = 0;
        while i < outcomes.len()
            invariant
                *self == *old(self),
                old(self).wf(),
                old(self)@.awaiting_prepares(),
                0 <= i <= outcomes.len(),
                forall|j: int| 0 <= j < i ==> (#[trigger] outcomes@[j]) is Prepared,
            decreases outcomes.len() - i,
        {
            match &outcomes[i] {
                PrepareOutcome::Prepared(_, _) => {},
                PrepareOutcome::Failed(_, e) => {
                    let err = error_from_range_error(e);
                    self.record_abort();
                    assert(is_first_failure(outcomes@, i as int));
                    return Err(err);
                },
                PrepareOutcome::TaskFailed => {
                    self.record_abort();
                    assert(is_first_failure(outcomes@, i as int));
                    return Err(Error::TransactionAborted(TransactionAbortReason::PrepareFailed));
                },
            }
            i = i + 1;
        }
        assert(all_prepared(outcomes@));
        let mut k: usize = 0;
        while k < self.range_ids.len()
            invariant
                *self == *old(self),
                old(self).wf(),
                old(self)@.awaiting_prepares(),
                all_prepared(outcomes@),
                0 <= k <= self.range_ids.len(),
                forall|j: int| 0 <= j < k ==> prepared_in(outcomes@, #[trigger] self.range_ids@[j]),
            decreases self.range_ids.len() - k,
        {
            if !Self::prepared_for(outcomes, self.range_ids[k]) {
                self.record_abort();
                proof {
                    lemma_index_map_at(old(self).range_ids@, range_models(old(self).ranges@), k as int);
                }
                return Err(Error::TransactionAborted(TransactionAbortReason::PrepareFailed));
            }
            k = k + 1;
        }
        assert(covers(outcomes@, old(self)@.participants.dom())) by {
            assert forall|r: FullRangeId| #[trigger] old(self)@.participants.dom().contains(r) implies prepared_in(
                outcomes@,
                r,
            ) by {
                let j = choose|j: int| 0 <= j < self.range_ids.len() && self.range_ids@[j] == r;
                assert(prepared_in(outcomes@, self.range_ids@[j]));
            }
        }
        let mut i: usize = 0;
        while i < outcomes.len()
            invariant
                *self == *old(self),
                old(self).wf(),
                old(self)@.awaiting_prepares(),
                all_prepared(outcomes@),
                covers(outcomes@, old(self)@.participants.dom()),
                0 <= i <= outcomes.len(),
                forall|j: int| 0 <= j < i && (#[trigger] outcomes@[j]) is Prepared ==> outcomes@[j]->Prepared_1.lease_covers(epoch),
            decreases outcomes.len() - i,
        {
            if let PrepareOutcome::Prepared(_, res) = &outcomes[i] {
                if !(res.epoch_lease.0 <= epoch && epoch <= res.epoch_lease.1) {
                    self.record_abort();
                    return Err(Error::TransactionAborted(TransactionAbortReason::RangeLeaseExpired));
                }
            }
            i = i + 1;
        }
        self.commit_epoch = Some(epoch);
        Ok(epoch)
    }

    /// Takes the state store's decision on the commit. An abort (another
    /// party, such as a timeout, aborted first) aborts the transaction; a
    /// commit marks it committed and returns the epoch, which the caller sends
    /// to every participant. The state store decides at the epoch it was
    /// handed: a decision at another epoch breaks the protocol and is left out.
    pub fn complete_commit(&mut self, decision: CommitDecision) -> (r: Result<u64, Error>)
        requires
            old(self).wf(),
            old(self)@.awaiting_decision() && decision is Committed ==> decision->Committed_0
                == old(self)@.commit_epoch->Some_0,
        ensures
            final(self).wf(),
            legal_transition(old(self)@.state, final(self)@.state),
            !old(self)@.awaiting_decision() ==> r == Err::<u64, _>(not_running_error(old(self)@.state))
                && final(self)@ == old(self)@,
            old(self)@.awaiting_decision() && decision is Aborted ==> r == Err::<u64, _>(
                Error::TransactionAborted(TransactionAbortReason::Other),
            ) && final(self)@ == old(self)@.aborted(),
            old(self)@.awaiting_decision() && decision is Committed ==> r == Ok::<u64, Error>(
                old(self)@.commit_epoch->Some_0,
            ) && final(self)@ == (TxModel { state: State::Committed, ..old(self)@ }),
    {
        match self.state {
            State::Preparing => {},
            State::Aborted => {
                return Err(Error::TransactionAborted(TransactionAbortReason::Other));
            },
            _ => {
                return Err(Error::TransactionNoLongerRunning);
            },
        }
        let epoch = match self.commit_epoch {
            Some(e) => e,
            None => {
                return Err(Error::TransactionNoLongerRunning);
            },
        };
        match decision {
            CommitDecision::Aborted => {
                self.record_abort();
                Err(Error::TransactionAborted(TransactionAbortReason::Other))
            },
            CommitDecision::Committed(_) => {
                self.state = State::Committed;
                Ok(epoch)
            },
        }
    }
}

} // verus!
