//! Identities used by the log: leaders, log positions and votes.
use vstd::prelude::*;

verus! {

/// A node of the cluster is named by an integer.
pub type NodeId = u64;

/// The leader that proposed an entry: the term in which it was elected and its node.
#[derive(Clone, Copy, Debug, PartialEq, Eq, Structural)]
pub struct LeaderId {
    pub term: u64,
    pub node_id: NodeId,
}

/// The identity of a log entry: the leader that proposed it and its position in the log.
#[derive(Clone, Copy, Debug, PartialEq, Eq, Structural)]
pub struct LogId {
    pub leader_id: LeaderId,
    pub index: u64,
}

/// A vote: the leader a node grants its vote to, and whether a quorum granted it.
#[derive(Clone, Copy, Debug, PartialEq, Eq, Structural)]
pub struct Vote {
    pub leader_id: LeaderId,
    pub committed: bool,
}

/// The order of log ids: by leader (term, then node), then by index.
pub open spec fn log_id_le(a: LogId, b: LogId) -> bool {
    ||| a.leader_id.term < b.leader_id.term
    ||| (a.leader_id.term == b.leader_id.term && a.leader_id.node_id < b.leader_id.node_id)
    ||| (a.leader_id.term == b.leader_id.term && a.leader_id.node_id == b.leader_id.node_id
        && a.index <= b.index)
}

/// Log ids are ordered lexicographically by term, node and index: an earlier term comes first
/// whatever follows, and the order is reflexive, antisymmetric, transitive and total.
pub proof fn law_log_id_order(a: LogId, b: LogId, c: LogId)
    ensures
        a.leader_id.term < b.leader_id.term ==> log_id_le(a, b) && !log_id_le(b, a),
        a.leader_id.term == b.leader_id.term && a.leader_id.node_id < b.leader_id.node_id
            ==> log_id_le(a, b) && !log_id_le(b, a),
        a.leader_id == b.leader_id ==> (log_id_le(a, b) <==> a.index <= b.index),
        log_id_le(a, a),
        log_id_le(a, b) && log_id_le(b, a) ==> a == b,
        log_id_le(a, b) && log_id_le(b, c) ==> log_id_le(a, c),
        log_id_le(a, b) || log_id_le(b, a),
{
}

impl LeaderId {
    pub fn new(term: u64, node_id: NodeId) -> (r: LeaderId)
        ensures
            r.term == term,
            r.node_id == node_id,
    {
        LeaderId { term, node_id }
    }
}

impl LogId {
    pub fn new(leader_id: LeaderId, index: u64) -> (r: LogId)
        ensures
            r.leader_id == leader_id,
            r.index == index,
    {
        LogId { leader_id, index }
    }

    /// Whether `self` comes no later than `other` in the order of log ids.
    pub fn is_le(&self, other: &LogId) -> (r: bool)
        ensures
            r == log_id_le(*self, *other),
    {
        if self.leader_id.term != other.leader_id.term {
            self.leader_id.term < other.leader_id.term
        } else if self.leader_id.node_id != other.leader_id.node_id {
            self.leader_id.node_id < other.leader_id.node_id
        } else {
            self.index <= other.index
        }
    }
}

impl Vote {
    pub fn new(term: u64, node_id: NodeId) -> (r: Vote)
        ensures
            r.leader_id == (LeaderId { term, node_id }),
            !r.committed,
    {
        Vote { leader_id: LeaderId { term, node_id }, committed: false }
    }

    pub fn new_committed(term: u64, node_id: NodeId) -> (r: Vote)
        ensures
            r.leader_id == (LeaderId { term, node_id }),
            r.committed,
    {
        Vote { leader_id: LeaderId { term, node_id }, committed: true }
    }
}

} // verus!
