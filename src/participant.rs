//! What a transaction has read, written and deleted on one range.
use vstd::prelude::*;
use crate::buffers::{KeyMap, KeySet, Record, keys_of, keys_unique, records_map, record_keys_unique};
use crate::ids::{FullRangeId, LeaderSeq, leader_after, leader_agrees};

verus! {

/// The contents of a participant range.
pub struct RangeModel {
    /// Keys read from storage.
    pub readset: Set<Seq<u8>>,
    /// Buffered writes, key to value.
    pub writeset: Map<Seq<u8>, Seq<u8>>,
    /// Buffered deletes.
    pub deleteset: Set<Seq<u8>>,
    /// The leader first observed on the range, or `Unset`.
    pub leader: LeaderSeq,
}

impl RangeModel {
    /// A range that nothing has touched yet.
    pub open spec fn empty() -> RangeModel {
        RangeModel {
            readset: Set::empty(),
            writeset: Map::empty(),
            deleteset: Set::empty(),
            leader: LeaderSeq::Unset,
        }
    }

    /// Buffered writes and deletes never share a key.
    pub open spec fn disjoint(self) -> bool {
        self.writeset.dom().disjoint(self.deleteset)
    }

    /// The range after `k` is written with `v`.
    pub open spec fn put(self, k: Seq<u8>, v: Seq<u8>) -> RangeModel {
        RangeModel { writeset: self.writeset.insert(k, v), deleteset: self.deleteset.remove(k), ..self }
    }

    /// The range after `k` is deleted.
    pub open spec fn del(self, k: Seq<u8>) -> RangeModel {
        RangeModel { writeset: self.writeset.remove(k), deleteset: self.deleteset.insert(k), ..self }
    }

    /// What the buffers say of `k`: `Some(Some(v))` when written with `v`,
    /// `Some(None)` when deleted, `None` when a read must go to the range.
    pub open spec fn local_read(self, k: Seq<u8>) -> Option<Option<Seq<u8>>> {
        if self.writeset.contains_key(k) {
            Some(Some(self.writeset[k]))
        } else if self.deleteset.contains(k) {
            Some(None)
        } else {
            None
        }
    }

    /// The range after a read of `k` from storage that observed the leader
    /// `observed` and agreed with the recorded one.
    pub open spec fn read(self, k: Seq<u8>, observed: LeaderSeq) -> RangeModel {
        RangeModel {
            readset: self.readset.insert(k),
            leader: leader_after(self.leader, observed),
            ..self
        }
    }
}

/// The outcome of reading a key from the local buffers.
#[derive(Clone, Debug, PartialEq, Eq)]
pub enum LocalRead {
    /// The transaction wrote this value.
    Written(Vec<u8>),
    /// The transaction deleted the key.
    Deleted,
    /// The key must be read from the range.
    NotBuffered,
}

impl View for LocalRead {
    type V = Option<Option<Seq<u8>>>;

    open spec fn view(&self) -> Option<Option<Seq<u8>>> {
        match self {
            LocalRead::Written(v) => Some(Some(v@)),
            LocalRead::Deleted => Some(None),
            LocalRead::NotBuffered => None,
        }
    }
}

/// What a range is asked to prepare.
pub struct PrepareRequest {
    pub range_id: FullRangeId,
    /// Whether the transaction read anything from the range.
    pub has_reads: bool,
    /// The buffered writes, each key once.
    pub writes: Vec<Record>,
    /// The buffered deletes, each key once.
    pub deletes: Vec<Vec<u8>>,
}

impl PrepareRequest {
    /// Whether this request carries exactly what `m` holds for `range_id`.
    pub open spec fn carries(&self, range_id: FullRangeId, m: RangeModel) -> bool {
        &&& self.range_id == range_id
        &&& self.has_reads == (m.readset != Set::<Seq<u8>>::empty())
        &&& records_map(self.writes@) == m.writeset
        &&& record_keys_unique(self.writes@)
        &&& keys_of(self.deletes@) == m.deleteset
        &&& keys_unique(self.deletes@)
    }
}

/// The buffers of one range that a transaction touched.
pub struct ParticipantRange {
    readset: KeySet,
    writeset: KeyMap,
    deleteset: KeySet,
    leader_sequence_number: LeaderSeq,
}

impl View for ParticipantRange {
    type V = RangeModel;

    closed spec fn view(&self) -> RangeModel {
        RangeModel {
            readset: self.readset@,
            writeset: self.writeset@,
            deleteset: self.deleteset@,
            leader: self.leader_sequence_number,
        }
    }
}

impl ParticipantRange {
    /// The buffers are well formed and writes and deletes are disjoint.
    pub closed spec fn wf(&self) -> bool {
        &&& self.readset.wf()
        &&& self.writeset.wf()
        &&& self.deleteset.wf()
        &&& self@.disjoint()
    }

    /// Well-formed buffers hold writes and deletes apart.
    pub proof fn lemma_wf_disjoint(&self)
        requires
            self.wf(),
        ensures
            self@.disjoint(),
    {
    }

    /// Empty buffers and no leader observed.
    pub fn new() -> (r: ParticipantRange)
        ensures
            r.wf(),
            r@ == RangeModel::empty(),
    {
        let r = ParticipantRange {
            readset: KeySet::new(),
            writeset: KeyMap::new(),
            deleteset: KeySet::new(),
            leader_sequence_number: LeaderSeq::Unset,
        };
        assert(r@.writeset.dom() =~= Set::<Seq<u8>>::empty());
        r
    }

    /// The leader recorded for the range.
    pub fn leader_sequence_number(&self) -> (r: LeaderSeq)
        ensures
            r == self@.leader,
    {
        self.leader_sequence_number
    }

    /// Reads `k` from the buffers (read-your-writes).
    pub fn local_read(&self, k: &Vec<u8>) -> (r: LocalRead)
        requires
            self.wf(),
        ensures
            r@ == self@.local_read(k@),
    {
        match self.writeset.get(k) {
            Some(v) => LocalRead::Written(v),
            None => {
                if self.deleteset.contains(k) {
                    LocalRead::Deleted
                } else {
                    LocalRead::NotBuffered
                }
            },
        }
    }

    /// Buffers a write of `v` to `k`.
    pub fn put(&mut self, k: Vec<u8>, v: Vec<u8>)
        requires
            old(self).wf(),
        ensures
            final(self).wf(),
            final(self)@ == old(self)@.put(k@, v@),
    {
        self.deleteset.remove(&k);
        self.writeset.insert(k, v);
        assert(self@.writeset.dom().disjoint(self@.deleteset));
    }

    /// Buffers a delete of `k`.
    pub fn del(&mut self, k: Vec<u8>)
        requires
            old(self).wf(),
        ensures
            final(self).wf(),
            final(self)@ == old(self)@.del(k@),
    {
        self.writeset.remove(&k);
        self.deleteset.insert(k);
        assert(self@.writeset.dom().disjoint(self@.deleteset));
    }

    /// Checks a storage read of `k` that observed the leader `observed`.
    /// When it agrees with the recorded leader, pins the leader if none was
    /// pinned yet, notes `k` as read, and returns true; otherwise changes
    /// nothing and returns false.
    pub fn observe_read(&mut self, k: Vec<u8>, observed: LeaderSeq) -> (r: bool)
        requires
            old(self).wf(),
        ensures
            final(self).wf(),
            r == leader_agrees(old(self)@.leader, observed),
            r ==> final(self)@ == old(self)@.read(k@, observed),
            !r ==> final(self)@ == old(self)@,
    {
        let after = if observed != LeaderSeq::Invalid && self.leader_sequence_number == LeaderSeq::Unset {
            observed
        } else {
            self.leader_sequence_number
        };
        if observed != after {
            return false;
        }
        self.leader_sequence_number = after;
        self.readset.insert(k);
        true
    }

    /// The prepare request for this range.
    pub fn prepare_request(&self, range_id: FullRangeId) -> (r: PrepareRequest)
        requires
            self.wf(),
        ensures
            r.carries(range_id, self@),
    {
        PrepareRequest {
            range_id,
            has_reads: !self.readset.is_empty(),
            writes: self.writeset.to_vec(),
            deletes: self.deleteset.to_vec(),
        }
    }
}

} // verus!
