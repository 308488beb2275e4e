//! The state of a Raft node.

use vstd::prelude::*;

use crate::errors::RaftError;

verus! {

/// The role of a node.
#[derive(Clone, Copy, Debug, PartialEq, Eq, Structural, Hash)]
pub enum NodeStatus {
    /// Follows a leader.
    Follower,
    /// Asks for votes to become leader.
    Candidate,
    /// Leads the cluster.
    Leader,
}

/// The election state of a node.
#[derive(Clone, Copy, Debug, PartialEq, Eq, Structural, Hash)]
pub struct Node {
    /// The node's id.
    pub id: u64,
    /// The node's current term.
    pub current_term: u64,
    /// The leader as far as the node knows.
    pub current_leader_id: Option<u64>,
    /// The candidate the node voted for in its current term.
    pub voted_for_id: Option<u64>,
    /// The node's role.
    pub status: NodeStatus,
}

impl Node {
    /// A follower in term 0 that knows no leader and has not voted.
    pub fn new(id: u64) -> (n: Node)
        ensures
            n == (Node {
                id,
                current_term: 0,
                current_leader_id: None,
                voted_for_id: None,
                status: NodeStatus::Follower,
            }),
    {
        Node { id, current_term: 0, current_leader_id: None, voted_for_id: None, status: NodeStatus::Follower }
    }

    /// The node's persistent state.
    pub fn state(&self) -> (s: NodeState)
        ensures
            s == (NodeState {
                node_id: self.id,
                current_term: self.current_term,
                vote_for_id: self.voted_for_id,
            }),
    {
        NodeState { node_id: self.id, current_term: self.current_term, vote_for_id: self.voted_for_id }
    }
}

/// The part of a node's state that must survive a restart.
#[derive(Clone, Copy, Debug, PartialEq, Eq, Structural, Hash)]
pub struct NodeState {
    /// The node's id.
    pub node_id: u64,
    /// The node's current term.
    pub current_term: u64,
    /// The candidate the node voted for in its current term.
    pub vote_for_id: Option<u64>,
}

/// Persists a node's state.
pub trait NodeStateSaver {
    /// Saves the state.
    fn save_node_state(&self, state: NodeState) -> Result<(), RaftError>;
}

/// A state saver that keeps nothing and always succeeds.
#[derive(Clone, Copy, Debug, PartialEq, Eq, Structural, Hash, Default)]
pub struct MockNodeStateSaver;

impl NodeStateSaver for MockNodeStateSaver {
    fn save_node_state(&self, state: NodeState) -> (r: Result<(), RaftError>)
        ensures
            r is Ok,
    {
        Ok(())
    }
}

} // verus!
