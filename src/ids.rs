//! Identifiers of keyspaces, ranges and records, and leader sequence numbers.
use vstd::prelude::*;

verus! {

/// The stable id of a keyspace.
#[derive(Clone, Copy, Debug, PartialEq, Eq, Structural, Hash)]
pub struct KeyspaceId {
    pub id: u128,
}

/// A range of a keyspace: the unit that one range server owns.
#[derive(Clone, Copy, Debug, PartialEq, Eq, Structural, Hash)]
pub struct FullRangeId {
    pub keyspace_id: KeyspaceId,
    pub range_id: u128,
}

/// A keyspace, named by namespace and name.
#[derive(Clone, Debug, PartialEq, Eq, Hash)]
pub struct Keyspace {
    pub namespace: String,
    pub name: String,
}

impl View for Keyspace {
    type V = (Seq<char>, Seq<char>);

    open spec fn view(&self) -> (Seq<char>, Seq<char>) {
        (self.namespace@, self.name@)
    }
}

impl Keyspace {
    /// Whether two keyspaces have the same namespace and name.
    pub fn same_as(&self, other: &Keyspace) -> (r: bool)
        ensures
            r == (self@ == other@),
    {
        self.namespace == other.namespace && self.name == other.name
    }
}

/// A key together with the range that owns it.
#[derive(Clone, Debug, PartialEq, Eq, Hash)]
pub struct FullRecordKey {
    pub range_id: FullRangeId,
    pub key: Vec<u8>,
}

/// A range leader's sequence number, or one of its two sentinels.
#[derive(Clone, Copy, Debug, PartialEq, Eq, Structural, Hash)]
pub enum LeaderSeq {
    /// The coordinator has not observed a leader of the range yet.
    Unset,
    /// The range server reported no leader.
    Invalid,
    /// A leader's sequence number.
    Value(u64),
}

/// The leader sequence number recorded for a range after a read observed
/// `observed`: the first valid observation is pinned, and kept from then on.
pub open spec fn leader_after(recorded: LeaderSeq, observed: LeaderSeq) -> LeaderSeq {
    if observed != LeaderSeq::Invalid && recorded == LeaderSeq::Unset {
        observed
    } else {
        recorded
    }
}

/// Whether a read that observed `observed` agrees with the range's recorded
/// leader: it must equal the leader recorded after the read.
pub open spec fn leader_agrees(recorded: LeaderSeq, observed: LeaderSeq) -> bool {
    observed == leader_after(recorded, observed)
}

} // verus!
