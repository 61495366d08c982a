//! The record kept for one ranked Lightning node.

use vstd::prelude::*;

verus! {

/// What a [`NodeConnectivity`] holds, as plain mathematical values.
pub struct NodeRecord {
    pub public_key: Seq<char>,
    pub alias: Seq<char>,
    pub capacity: u64,
    pub first_seen: i64,
    pub updated_at: i64,
}

/// Connectivity data of one Lightning node, as the ranking source reports it.
///
/// `public_key` identifies the node and is the key it is stored under.
/// `capacity` is in satoshis; both timestamps are seconds since the epoch.
#[derive(Debug, PartialEq, Eq)]
pub struct NodeConnectivity {
    pub public_key: String,
    pub alias: String,
    pub capacity: u64,
    pub first_seen: i64,
    pub updated_at: i64,
}

impl View for NodeConnectivity {
    type V = NodeRecord;

    open spec fn view(&self) -> NodeRecord {
        NodeRecord {
            public_key: self.public_key@,
            alias: self.alias@,
            capacity: self.capacity,
            first_seen: self.first_seen,
            updated_at: self.updated_at,
        }
    }
}

impl Clone for NodeConnectivity {
    fn clone(&self) -> (copy: Self)
        ensures
            copy == *self,
    {
        NodeConnectivity {
            public_key: self.public_key.clone(),
            alias: self.alias.clone(),
            capacity: self.capacity,
            first_seen: self.first_seen,
            updated_at: self.updated_at,
        }
    }
}

/// The records of a list of nodes, in the list's order.
pub open spec fn records(nodes: Seq<NodeConnectivity>) -> Seq<NodeRecord> {
    nodes.map_values(|n: NodeConnectivity| n@)
}

impl NodeConnectivity {
    /// Builds a node record from its parts.
    pub fn new(
        public_key: String,
        alias: String,
        capacity: u64,
        first_seen: i64,
        updated_at: i64,
    ) -> (node: NodeConnectivity)
        ensures
            node.public_key == public_key,
            node.alias == alias,
            node.capacity == capacity,
            node.first_seen == first_seen,
            node.updated_at == updated_at,
    {
        NodeConnectivity { public_key, alias, capacity, first_seen, updated_at }
    }
}

} // verus!
