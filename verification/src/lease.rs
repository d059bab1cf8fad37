//! Leases: which node runs an agent, at which term, and the fence that keeps a second node from
//! running it too.
use vstd::prelude::*;

verus! {

/// A node's id in the lease protocol.
pub type LeaseNodeId = u64;

/// The node that holds an agent's lease, and the term it holds it at.
#[derive(Debug, Clone, Copy, PartialEq, Eq, Structural)]
pub struct ActiveLease {
    pub node_id: LeaseNodeId,
    pub term: u64,
}

/// Whether this node may act for an agent at the term it believes in.
#[derive(Debug, Clone, Copy, PartialEq, Eq, Structural)]
pub enum FenceVerdict {
    /// This node holds a fresh lease, at `term`.
    Active { term: u64 },
    /// This node does not: what the fence goes by (the newest lease it knows of, or zeros).
    Fenced { committed_term: u64, committed_holder: LeaseNodeId, believed_term: u64 },
}

/// A granted claim.
#[derive(Debug, Clone, Copy, PartialEq, Eq, Structural)]
pub struct LeaseResponse {
    pub node_id: LeaseNodeId,
    pub term: u64,
}

/// The characters of an agent's label.
pub type Label = Seq<char>;

/// A view of which node holds which agent, read before an agent is launched.
pub trait SpawnFenceView {
    /// The node that reads the view.
    spec fn this_node(&self) -> LeaseNodeId;

    /// The fresh lease of an agent at `now`.
    spec fn held(&self, agent_id: Label, now: u64) -> Option<ActiveLease>;

    /// The node that reads the view.
    fn node_id(&self) -> (r: LeaseNodeId)
        ensures
            r == self.this_node(),
    ;

    /// The fresh lease of an agent at `now`.
    fn active_lease_for(&self, agent_id: &str, now: u64) -> (r: Option<ActiveLease>)
        ensures
            r == self.held(agent_id@, now),
    ;
}

/// The view of a node that has no peers: nobody else holds anything.
#[derive(Debug, Clone, Copy)]
pub struct NoFence;

impl SpawnFenceView for NoFence {
    open spec fn this_node(&self) -> LeaseNodeId {
        0
    }

    open spec fn held(&self, agent_id: Seq<char>, now: u64) -> Option<ActiveLease> {
        None
    }

    fn node_id(&self) -> (r: LeaseNodeId) {
        0
    }

    fn active_lease_for(&self, _agent_id: &str, _now: u64) -> (r: Option<ActiveLease>) {
        None
    }
}

/// A node without peers finds nothing held by anyone.
pub proof fn nobody_else_holds_anything(agent_id: &str, now: u64, r: Option<ActiveLease>)
    requires
        call_ensures(<NoFence as SpawnFenceView>::active_lease_for, (&NoFence, agent_id, now), r),
    ensures
        r is None,
{
}

} // verus!
