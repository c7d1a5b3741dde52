//! The membership of the cluster, as carried by the log and the state machine.
use vstd::prelude::*;
use crate::ids::{LogId, NodeId};

verus! {

/// What is known of a node: the address it serves on.
#[derive(Debug)]
pub struct BasicNode {
    pub addr: String,
}

impl BasicNode {
    pub fn new(addr: String) -> (r: BasicNode)
        ensures
            r.addr == addr,
    {
        BasicNode { addr }
    }
}

impl Clone for BasicNode {
    fn clone(&self) -> (r: Self)
        ensures
            r == *self,
    {
        BasicNode { addr: self.addr.clone() }
    }
}

/// A membership configuration: one or more voter sets (more than one during a joint change)
/// and the nodes, voters and learners, with their addresses.
#[derive(Debug)]
pub struct Membership {
    pub configs: Vec<Vec<NodeId>>,
    pub nodes: Vec<(NodeId, BasicNode)>,
}

/// The value of a [`Membership`].
pub struct MembershipView {
    pub configs: Seq<Seq<NodeId>>,
    pub nodes: Seq<(NodeId, BasicNode)>,
}

impl View for Membership {
    type V = MembershipView;

    open spec fn view(&self) -> MembershipView {
        MembershipView {
            configs: self.configs@.map_values(|c: Vec<NodeId>| c@),
            nodes: self.nodes@,
        }
    }
}

fn copy_ids(ids: &Vec<NodeId>) -> (r: Vec<NodeId>)
    ensures
        r@ == ids@,
{
    let mut r: Vec<NodeId> = Vec::new();
    let mut i: usize = 0;
    while i < ids.len()
        invariant
            i <= ids.len(),
            r@ == ids@.take(i as int),
        decreases ids.len() - i,
    {
        r.push(ids[i]);
        i = i + 1;
        proof {
            assert(r@ =~= ids@.take(i as int));
        }
    }
    proof {
        assert(r@ =~= ids@);
    }
    r
}

impl Membership {
    pub fn new(configs: Vec<Vec<NodeId>>, nodes: Vec<(NodeId, BasicNode)>) -> (r: Membership)
        ensures
            r.configs == configs,
            r.nodes == nodes,
    {
        Membership { configs, nodes }
    }

    /// The membership with no voter set and no node.
    pub fn empty() -> (r: Membership)
        ensures
            r@.configs == Seq::<Seq<NodeId>>::empty(),
            r@.nodes == Seq::<(NodeId, BasicNode)>::empty(),
    {
        let r = Membership { configs: Vec::new(), nodes: Vec::new() };
        proof {
            assert(r@.configs =~= Seq::<Seq<NodeId>>::empty());
        }
        r
    }
}

impl Clone for Membership {
    fn clone(&self) -> (r: Self)
        ensures
            r@ == self@,
    {
        let mut configs: Vec<Vec<NodeId>> = Vec::new();
        let mut i: usize = 0;
        while i < self.configs.len()
            invariant
                i <= self.configs.len(),
                configs@.len() == i,
                forall|j: int| 0 <= j < i ==> #[trigger] configs@[j]@ == self.configs@[j]@,
            decreases self.configs.len() - i,
        {
            configs.push(copy_ids(&self.configs[i]));
            i = i + 1;
        }
        let mut nodes: Vec<(NodeId, BasicNode)> = Vec::new();
        let mut k: usize = 0;
        while k < self.nodes.len()
            invariant
                k <= self.nodes.len(),
                nodes@ == self.nodes@.take(k as int),
            decreases self.nodes.len() - k,
        {
            let id = self.nodes[k].0;
            let node = self.nodes[k].1.clone();
            nodes.push((id, node));
            k = k + 1;
            proof {
                assert(nodes@ =~= self.nodes@.take(k as int));
            }
        }
        let r = Membership { configs, nodes };
        proof {
            assert(r@.configs =~= self@.configs);
            assert(r@.nodes =~= self@.nodes);
        }
        r
    }
}

/// A membership together with the id of the log entry that stored it.
#[derive(Debug)]
pub struct StoredMembership {
    pub log_id: Option<LogId>,
    pub membership: Membership,
}

/// The value of a [`StoredMembership`].
pub struct StoredMembershipView {
    pub log_id: Option<LogId>,
    pub membership: MembershipView,
}

impl View for StoredMembership {
    type V = StoredMembershipView;

    open spec fn view(&self) -> StoredMembershipView {
        StoredMembershipView { log_id: self.log_id, membership: self.membership@ }
    }
}

impl StoredMembership {
    pub fn new(log_id: Option<LogId>, membership: Membership) -> (r: StoredMembership)
        ensures
            r.log_id == log_id,
            r@.membership == membership@,
    {
        StoredMembership { log_id, membership }
    }

    /// The membership of a node that has stored none: no log id, an empty configuration.
    pub fn empty() -> (r: StoredMembership)
        ensures
            r@ == StoredMembershipView::empty(),
    {
        StoredMembership { log_id: None, membership: Membership::empty() }
    }
}

impl StoredMembershipView {
    pub open spec fn empty() -> StoredMembershipView {
        StoredMembershipView {
            log_id: None,
            membership: MembershipView { configs: Seq::empty(), nodes: Seq::empty() },
        }
    }
}

impl Clone for StoredMembership {
    fn clone(&self) -> (r: Self)
        ensures
            r@ == self@,
    {
        StoredMembership { log_id: self.log_id, membership: self.membership.clone() }
    }
}

} // verus!
