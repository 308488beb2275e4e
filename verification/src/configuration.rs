//! Cluster configuration as the node reads it: its nodes, peers and quorum.

use vstd::prelude::*;

use crate::cluster::{Cluster, ClusterConfigurationInternal, majority_quorum};

verus! {

/// The nodes of the cluster, with a strict majority as quorum.
#[derive(Clone, Debug)]
pub struct ClusterConfiguration {
    nodes: ClusterConfigurationInternal,
}

impl View for ClusterConfiguration {
    type V = Set<u64>;

    closed spec fn view(&self) -> Set<u64> {
        self.nodes@
    }
}

impl ClusterConfiguration {
    /// The quorum: half of the node count (taken into a `u32`) plus one. A
    /// cluster without nodes has no quorum, and callers may not ask for it.
    pub fn get_quorum_size(&self) -> (q: u32)
        requires
            (self@.len() as u32) != 0,
        ensures
            q == majority_quorum(self@.len()),
    {
        self.nodes.quorum_size()
    }

    /// All nodes but the given one, each once.
    pub fn get_peers(&self, node_id: u64) -> (r: Vec<u64>)
        ensures
            r@.to_set() == self@.remove(node_id),
            r@.no_duplicates(),
    {
        self.nodes.peers(node_id)
    }

    /// A configuration with the given nodes; a repeated id counts once.
    pub fn new(peers: Vec<u64>) -> (c: ClusterConfiguration)
        ensures
            c@ == peers@.to_set(),
    {
        ClusterConfiguration { nodes: ClusterConfigurationInternal::new(peers) }
    }

    /// Adds a node; adding one that is already there changes nothing.
    pub fn add_peer(&mut self, peer: u64)
        ensures
            final(self)@ == old(self)@.insert(peer),
    {
        self.nodes.add_peer(peer);
    }

    /// All nodes, each once.
    pub fn get_all_nodes(&self) -> (r: Vec<u64>)
        ensures
            r@.to_set() == self@,
            r@.no_duplicates(),
    {
        self.nodes.all_nodes()
    }
}

/// The election timer that a node configuration names: a type of the
/// library's users computes the timeout after which a follower starts an
/// election, in milliseconds. The timers of `crate::timers` implement that
/// module's own trait.
pub trait ElectionTimer {
    /// The next election timeout, in milliseconds.
    fn get_next_elections_timeout(&self) -> u64;
}

} // verus!
