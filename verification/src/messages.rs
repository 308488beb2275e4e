//! The requests and responses that nodes and clients exchange.

use vstd::prelude::*;

use crate::operation_log::{LogEntry, LogEntryView, views_of};

verus! {

/// A response that counts as a vote for or against a request.
pub trait QuorumResponse {
    /// Whether the response agrees.
    spec fn agrees(&self) -> bool;

    /// Whether the response agrees.
    fn get_result(&self) -> (r: bool)
        ensures
            r == self.agrees(),
    ;
}

/// Leadership election vote request.
#[derive(Clone, Copy, Debug, PartialEq, Eq, Structural, Hash, Default)]
pub struct VoteRequest {
    /// The election term.
    pub term: u64,
    /// The candidate that asks for the vote.
    pub candidate_id: u64,
    /// The term of the candidate's last log entry.
    pub last_log_term: u64,
    /// The index of the candidate's last log entry.
    pub last_log_index: u64,
}

/// The answer to a vote request.
#[derive(Clone, Copy, Debug, PartialEq, Eq, Structural, Hash, Default)]
pub struct VoteResponse {
    /// The term of the answering node.
    pub term: u64,
    /// Whether the vote is granted.
    pub vote_granted: bool,
    /// The answering node.
    pub peer_id: u64,
}

impl QuorumResponse for VoteResponse {
    open spec fn agrees(&self) -> bool {
        self.vote_granted
    }

    fn get_result(&self) -> (r: bool) {
        self.vote_granted
    }
}

/// Operation log replication request, or heartbeat when it has no entries.
#[derive(Clone, Debug, PartialEq, Eq, Hash, Default)]
pub struct AppendEntriesRequest {
    /// The leader's term.
    pub term: u64,
    /// The term of the entry before the new ones.
    pub prev_log_term: u64,
    /// The index of the entry before the new ones.
    pub prev_log_index: u64,
    /// The leader.
    pub leader_id: u64,
    /// The leader's commit index.
    pub leader_commit: u64,
    /// The entries to replicate; none for a heartbeat.
    pub entries: Vec<LogEntry>,
}

/// An append entries request as plain values.
pub struct AppendEntriesRequestView {
    /// The leader's term.
    pub term: u64,
    /// The term of the entry before the new ones.
    pub prev_log_term: u64,
    /// The index of the entry before the new ones.
    pub prev_log_index: u64,
    /// The leader.
    pub leader_id: u64,
    /// The leader's commit index.
    pub leader_commit: u64,
    /// The entries to replicate.
    pub entries: Seq<LogEntryView>,
}

impl View for AppendEntriesRequest {
    type V = AppendEntriesRequestView;

    open spec fn view(&self) -> AppendEntriesRequestView {
        AppendEntriesRequestView {
            term: self.term,
            prev_log_term: self.prev_log_term,
            prev_log_index: self.prev_log_index,
            leader_id: self.leader_id,
            leader_commit: self.leader_commit,
            entries: views_of(self.entries@),
        }
    }
}

/// The answer to an append entries request.
#[derive(Clone, Copy, Debug, PartialEq, Eq, Structural, Hash, Default)]
pub struct AppendEntriesResponse {
    /// The term of the answering node.
    pub term: u64,
    /// Whether the entries were taken.
    pub success: bool,
}

impl QuorumResponse for AppendEntriesResponse {
    open spec fn agrees(&self) -> bool {
        self.success
    }

    fn get_result(&self) -> (r: bool) {
        self.success
    }
}

/// Status of a client request's response.
#[derive(Clone, Copy, Debug, PartialEq, Eq, Structural, Hash)]
pub enum ClientResponseStatus {
    /// The request succeeded.
    Success,
    /// The leader could not gather a quorum for the request.
    NoQuorum,
    /// The node is not the leader.
    NotLeader,
    /// An error occurred.
    Error,
}

/// Client request: add a server to the cluster.
#[derive(Clone, Copy, Debug, PartialEq, Eq, Structural, Hash, Default)]
pub struct AddServerRequest {
    /// The new node.
    pub new_server: u64,
}

/// Client request: append data (a command) to the operation log.
#[derive(Clone, Debug, PartialEq, Eq, Hash)]
pub struct NewDataRequest {
    /// The serialized command.
    pub data: Vec<u8>,
}

/// Response to a client request.
#[derive(Clone, Debug, PartialEq, Eq, Hash)]
pub struct ClientRpcResponse {
    /// The outcome.
    pub status: ClientResponseStatus,
    /// The leader as far as the node knows.
    pub current_leader: Option<u64>,
    /// A message that explains an `Error` status (empty otherwise by custom).
    pub message: String,
}

/// Status of a membership change.
#[derive(Clone, Copy, Debug, PartialEq, Eq, Structural, Hash)]
pub enum ChangeMembershipResponseStatus {
    /// The change was accepted.
    Success,
    /// The node is not the leader.
    NotLeader,
}

/// Response to a membership change request.
#[derive(Clone, Copy, Debug, PartialEq, Eq, Structural, Hash)]
pub struct AddServerResponse {
    /// The outcome.
    pub status: ChangeMembershipResponseStatus,
    /// The leader as far as the node knows.
    pub current_leader: Option<u64>,
}

} // verus!
