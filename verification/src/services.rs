//! The services a node works with, which their users implement: peer and
//! client communication, the election state administrator and the
//! leadership watchdog.

use vstd::prelude::*;

use crate::errors::RaftError;
use crate::leadership::{CandidateInfo, FollowerInfo};
use crate::messages::{
    AddServerRequest, AppendEntriesRequest, AppendEntriesResponse, ClientRpcResponse,
    NewDataRequest, VoteRequest, VoteResponse,
};

verus! {

/// Sends requests to peers and returns their responses.
pub trait PeerRequestHandler {
    /// Sends a vote request to a peer.
    fn send_vote_request(&self, dest_node_id: u64, request: VoteRequest) -> Result<
        VoteResponse,
        RaftError,
    >;

    /// Sends a replication or heartbeat request to a peer.
    fn send_append_entries_request(
        &self,
        dest_node_id: u64,
        request: AppendEntriesRequest,
    ) -> Result<AppendEntriesResponse, RaftError>;
}

/// Takes client requests.
pub trait ClientRequestHandler {
    /// Adds a server to the cluster.
    fn add_server(&self, request: AddServerRequest) -> Result<ClientRpcResponse, RaftError>;

    /// Appends data (a command) to the operation log.
    fn new_data(&self, request: NewDataRequest) -> Result<ClientRpcResponse, RaftError>;
}

/// Delivers role change events to the node.
pub trait RaftElections {
    /// The node becomes a follower.
    fn reset_node_to_follower(&self, info: FollowerInfo);

    /// The node becomes leader in the given term.
    fn promote_node_to_leader(&self, term: u64);

    /// The node becomes a candidate.
    fn promote_node_to_candidate(&self, info: CandidateInfo);
}

/// Resets the watchdog that starts an election when the leader is silent.
pub trait ResetLeadershipStatusWatchdog {
    /// Resets the watchdog.
    fn reset_leadership_status_watchdog(&self);
}

} // verus!
