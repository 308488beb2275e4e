//! Leadership elections: the node's role changes, vote decisions, election
//! outcomes and heartbeats.

use vstd::prelude::*;
use vstd::string::*;

use crate::cluster::{Cluster, ClusterConfiguration};
use crate::consensus::{
    agreeing, answered, decide_consensus, errors_in, quorum_gathered, request_peer_consensus, votes_of,
};
use crate::decimal::{decimal, decimal_string};
use crate::errors::{RaftError, error_display, multiple_cause};
use crate::messages::{
    AddServerRequest, AddServerResponse, AppendEntriesRequest, AppendEntriesResponse,
    ChangeMembershipResponseStatus, VoteRequest, VoteResponse,
};
use crate::node::{Node, NodeStatus};
use crate::operation_log::{OperationLog, last_index_of, last_term_of};

verus! {

/// A node asks to become a candidate.
#[derive(Clone, Copy, Debug, PartialEq, Eq, Structural, Hash)]
pub struct CandidateInfo {
    /// The term of the election.
    pub term: u64,
    /// The candidate.
    pub candidate_id: u64,
}

/// A node returns to the follower role.
#[derive(Clone, Copy, Debug, PartialEq, Eq, Structural, Hash)]
pub struct FollowerInfo {
    /// The term the node takes.
    pub term: u64,
    /// The leader, if known.
    pub leader_id: Option<u64>,
    /// The candidate the node voted for, if it voted.
    pub voted_for_id: Option<u64>,
}

/// An event that changes a node's role.
#[derive(Clone, Copy, Debug, PartialEq, Eq, Structural, Hash)]
pub enum LeaderElectionEvent {
    /// The node becomes a candidate.
    PromoteNodeToCandidate(CandidateInfo),
    /// The node becomes leader in the given term.
    PromoteNodeToLeader(u64),
    /// The node becomes a follower.
    ResetNodeToFollower(FollowerInfo),
}

/// What an election needs to know.
#[derive(Clone, Debug, PartialEq, Eq, Hash)]
pub struct StartElectionParams {
    /// The candidate.
    pub node_id: u64,
    /// The term the candidate returns to when it loses.
    pub actual_current_term: u64,
    /// The term of the election.
    pub next_term: u64,
    /// The index of the candidate's last log entry.
    pub last_log_index: u64,
    /// The term of the candidate's last log entry.
    pub last_log_term: u64,
    /// The nodes to ask for votes.
    pub peers: Vec<u64>,
    /// The votes, the candidate's own included, that win the election.
    pub quorum_size: u32,
}

/// What a node does after its role changed.
#[derive(Clone, Debug, PartialEq, Eq, Hash)]
pub enum NodeStatusAction {
    /// Run an election with these parameters.
    StartElection(StartElectionParams),
    /// Reset the leadership watchdog and send the first heartbeat as leader.
    ResetWatchdogAndSendHeartbeat,
    /// Reset the leadership watchdog.
    ResetWatchdog,
}

/// The node's state after a role change event.
pub open spec fn leadership_transition(node: Node, event: LeaderElectionEvent) -> Node {
    match event {
        LeaderElectionEvent::PromoteNodeToCandidate(_) => Node {
            voted_for_id: Some(node.id),
            current_leader_id: None,
            status: NodeStatus::Candidate,
            ..node
        },
        LeaderElectionEvent::PromoteNodeToLeader(term) => Node {
            current_leader_id: Some(node.id),
            current_term: term,
            status: NodeStatus::Leader,
            ..node
        },
        LeaderElectionEvent::ResetNodeToFollower(info) => Node {
            current_leader_id: if info.leader_id is Some {
                info.leader_id
            } else {
                node.current_leader_id
            },
            status: NodeStatus::Follower,
            voted_for_id: if info.voted_for_id is Some {
                info.voted_for_id
            } else if node.current_term < info.term {
                None
            } else {
                node.voted_for_id
            },
            current_term: info.term,
            ..node
        },
    }
}

/// Applies a role change event to the node and says what the node does next:
/// a new candidate votes for itself, forgets the leader and starts an
/// election (which falls back to the term before its current one when lost);
/// a new leader leads in the event's term, resets its watchdog and sends its
/// first heartbeat; a new follower takes the event's term, leader and vote
/// (forgetting its vote when the term grows and no vote is given) and resets
/// its watchdog.
pub fn change_node_leadership_state<Log: OperationLog, Cl: Cluster>(
    node: &mut Node,
    event: LeaderElectionEvent,
    log: &Log,
    cluster: &Cl,
) -> (action: NodeStatusAction)
    requires
        log.inv(),
        event is PromoteNodeToCandidate ==> old(node).current_term >= 1 && (cluster.node_set().len() as u32) != 0,
    ensures
        *final(node) == leadership_transition(*old(node), event),
        event matches LeaderElectionEvent::ResetNodeToFollower(info) ==> {
            &&& final(node).status == NodeStatus::Follower
            &&& final(node).current_term == info.term
            &&& (info.leader_id is Some ==> final(node).current_leader_id == info.leader_id)
        },
        match event {
            LeaderElectionEvent::PromoteNodeToCandidate(info) => match action {
                NodeStatusAction::StartElection(p) => {
                    &&& p.node_id == old(node).id
                    &&& p.actual_current_term == old(node).current_term - 1
                    &&& p.next_term == info.term
                    &&& p.last_log_index == last_index_of(log.entries_view())
                    &&& p.last_log_term == last_term_of(log.entries_view())
                    &&& p.peers@.to_set() == cluster.node_set().remove(old(node).id)
                    &&& p.peers@.no_duplicates()
                    &&& p.quorum_size == cluster.quorum_of()
                },
                _ => false,
            },
            LeaderElectionEvent::PromoteNodeToLeader(_) => action
                == NodeStatusAction::ResetWatchdogAndSendHeartbeat,
            LeaderElectionEvent::ResetNodeToFollower(_) => action == NodeStatusAction::ResetWatchdog,
        },
{
    match event {
        LeaderElectionEvent::PromoteNodeToCandidate(vr) => {
            let node_id = node.id;
            node.voted_for_id = Some(node_id);
            node.current_leader_id = None;
            node.status = NodeStatus::Candidate;

            let peers_copy = cluster.peers(node_id);
            let quorum_size = cluster.quorum_size();

            let params = StartElectionParams {
                node_id,
                actual_current_term: node.current_term - 1,
                next_term: vr.term,
                last_log_index: log.last_entry_index(),
                last_log_term: log.last_entry_term(),
                peers: peers_copy,
                quorum_size,
            };
            NodeStatusAction::StartElection(params)
        },
        LeaderElectionEvent::PromoteNodeToLeader(term) => {
            node.current_leader_id = Some(node.id);
            node.current_term = term;
            node.status = NodeStatus::Leader;
            NodeStatusAction::ResetWatchdogAndSendHeartbeat
        },
        LeaderElectionEvent::ResetNodeToFollower(info) => {
            if let Some(leader_id) = info.leader_id {
                node.current_leader_id = Some(leader_id);
            }
            node.status = NodeStatus::Follower;
            if info.voted_for_id.is_some() {
                node.voted_for_id = info.voted_for_id;
            } else if node.current_term < info.term {
                node.voted_for_id = None;
            }
            node.current_term = info.term;
            NodeStatusAction::ResetWatchdog
        },
    }
}

/// What the election watchdog proposes when the election timeout passes: a
/// follower that is not itself the known leader becomes a candidate for the
/// next term.
pub open spec fn proposed_election(node: Node) -> Option<LeaderElectionEvent> {
    if node.status == NodeStatus::Follower && node.current_leader_id != Some(node.id) {
        Some(
            LeaderElectionEvent::PromoteNodeToCandidate(
                CandidateInfo { term: (node.current_term + 1) as u64, candidate_id: node.id },
            ),
        )
    } else {
        None
    }
}

/// Proposes an election when the election timeout passed (see
/// `proposed_election`).
pub fn propose_node_election(node: &Node) -> (r: Option<LeaderElectionEvent>)
    requires
        node.status == NodeStatus::Follower && node.current_leader_id != Some(node.id)
            ==> node.current_term < u64::MAX,
    ensures
        r == proposed_election(*node),
        node.status == NodeStatus::Follower && node.current_leader_id != Some(node.id) ==> r
            == Some(
            LeaderElectionEvent::PromoteNodeToCandidate(
                CandidateInfo { term: (node.current_term + 1) as u64, candidate_id: node.id },
            ),
        ),
        node.status != NodeStatus::Follower || node.current_leader_id == Some(node.id) ==> r is None,
{
    if let NodeStatus::Follower = node.status {
        let current_leader_id = node.current_leader_id;
        if current_leader_id.is_none() || current_leader_id.unwrap() != node.id {
            let next_term = node.current_term + 1;
            return Some(
                LeaderElectionEvent::PromoteNodeToCandidate(
                    CandidateInfo { term: next_term, candidate_id: node.id },
                ),
            );
        }
    }
    None
}

/// A candidate's log is at least as up to date as a voter's: its last term
/// is later, or the same with an index at least as high.
pub open spec fn candidate_log_up_to_date(
    candidate_last_term: u64,
    candidate_last_index: u64,
    last_term: u64,
    last_index: u64,
) -> bool {
    candidate_last_term > last_term || (candidate_last_term == last_term && candidate_last_index
        >= last_index)
}

/// Whether a node grants a vote: the request's term is later than the
/// node's, or the same and the node already voted for this candidate; and
/// the candidate's log is at least as up to date as the node's.
pub open spec fn vote_granted(node: Node, request: VoteRequest, last_term: u64, last_index: u64) -> bool {
    &&& node.current_term <= request.term
    &&& (node.current_term < request.term || node.voted_for_id == Some(request.candidate_id))
    &&& candidate_log_up_to_date(request.last_log_term, request.last_log_index, last_term, last_index)
}

/// A node's answer to a vote request, and the follower update that a granted
/// vote brings: the node takes the request's term, forgets the leader and
/// records its vote.
pub open spec fn vote_decision(node: Node, request: VoteRequest, last_term: u64, last_index: u64) -> (
    VoteResponse,
    Option<FollowerInfo>,
) {
    if vote_granted(node, request, last_term, last_index) {
        (
            VoteResponse { vote_granted: true, peer_id: node.id, term: request.term },
            Some(
                FollowerInfo {
                    term: request.term,
                    leader_id: None,
                    voted_for_id: Some(request.candidate_id),
                },
            ),
        )
    } else {
        (VoteResponse { vote_granted: false, peer_id: node.id, term: node.current_term }, None)
    }
}

/// A node votes for at most one candidate per term: once it granted a vote
/// and took the follower update that comes with it, a request of the same
/// term from another candidate is refused.
pub proof fn lemma_one_vote_per_term(
    node: Node,
    first: VoteRequest,
    second: VoteRequest,
    last_term: u64,
    last_index: u64,
)
    requires
        vote_granted(node, first, last_term, last_index),
        second.term == first.term,
        second.candidate_id != first.candidate_id,
    ensures
        !vote_granted(
            leadership_transition(
                node,
                LeaderElectionEvent::ResetNodeToFollower(vote_decision(node, first, last_term, last_index).1->0),
            ),
            second,
            last_term,
            last_index,
        ),
{
}

/// At most one candidate wins a term: when each node of the cluster votes
/// for at most one candidate in the term (`votes` maps a voter to its
/// candidate, as `lemma_one_vote_per_term` guarantees of a node), two
/// candidates that each gathered a quorum of the cluster's votes are the
/// same.
pub proof fn lemma_one_leader_per_term(nodes: Set<u64>, votes: Map<u64, u64>, a: u64, b: u64)
    requires
        nodes.finite(),
        1 <= nodes.len() <= u32::MAX,
        votes.dom().subset_of(nodes),
        Set::new(|v: u64| votes.dom().contains(v) && votes[v] == a).len()
            >= crate::cluster::majority_quorum(nodes.len()),
        Set::new(|v: u64| votes.dom().contains(v) && votes[v] == b).len()
            >= crate::cluster::majority_quorum(nodes.len()),
    ensures
        a == b,
{
    let va = Set::new(|v: u64| votes.dom().contains(v) && votes[v] == a);
    let vb = Set::new(|v: u64| votes.dom().contains(v) && votes[v] == b);
    assert(va.subset_of(nodes));
    assert(vb.subset_of(nodes));
    crate::cluster::lemma_quorums_intersect(nodes, va, vb);
    let n = choose|n: u64| va.contains(n) && vb.contains(n);
    assert(votes[n] == a && votes[n] == b);
}

/// A granted vote answers in the request's term, which is never earlier
/// than the node's; a request of an earlier term is refused and answered in
/// the node's term.
pub proof fn lemma_vote_terms(node: Node, request: VoteRequest, last_term: u64, last_index: u64)
    ensures
        vote_decision(node, request, last_term, last_index).0.vote_granted ==> {
            &&& vote_decision(node, request, last_term, last_index).0.term == request.term
            &&& request.term >= node.current_term
        },
        request.term < node.current_term ==> {
            &&& !vote_decision(node, request, last_term, last_index).0.vote_granted
            &&& vote_decision(node, request, last_term, last_index).0.term == node.current_term
        },
{
}

/// The role changes keep the node's id; a new leader knows itself as leader
/// and a new candidate has voted for itself.
pub proof fn lemma_transition_roles(node: Node, event: LeaderElectionEvent)
    ensures
        leadership_transition(node, event).id == node.id,
        event is PromoteNodeToLeader ==> {
            &&& leadership_transition(node, event).status == NodeStatus::Leader
            &&& leadership_transition(node, event).current_leader_id == Some(node.id)
        },
        event is PromoteNodeToCandidate ==> {
            &&& leadership_transition(node, event).status == NodeStatus::Candidate
            &&& leadership_transition(node, event).voted_for_id == Some(node.id)
            &&& leadership_transition(node, event).current_leader_id is None
        },
        event is ResetNodeToFollower ==> leadership_transition(node, event).status == NodeStatus::Follower,
{
}

/// Whether a candidate's log is at least as up to date as the node's log.
pub fn check_candidate_last_log_entry<Log: OperationLog>(
    log: &Log,
    candidate_last_term: u64,
    candidate_last_index: u64,
) -> (r: bool)
    requires
        log.inv(),
    ensures
        r == candidate_log_up_to_date(
            candidate_last_term,
            candidate_last_index,
            last_term_of(log.entries_view()),
            last_index_of(log.entries_view()) as u64,
        ),
        candidate_last_term < last_term_of(log.entries_view()) ==> !r,
        candidate_last_term > last_term_of(log.entries_view()) ==> r,
        candidate_last_term == last_term_of(log.entries_view()) ==> (r <==> candidate_last_index
            >= last_index_of(log.entries_view())),
{
    let last_term = log.last_entry_term();
    let last_index = log.last_entry_index();
    candidate_last_term > last_term || (candidate_last_term == last_term && candidate_last_index
        >= last_index)
}

/// Answers a vote request (see `vote_decision`); a granted vote also
/// returns the follower update for the node.
pub fn process_vote_request<Log: OperationLog>(request: VoteRequest, node: &Node, log: &Log) -> (r: (
    VoteResponse,
    Option<FollowerInfo>,
))
    requires
        log.inv(),
    ensures
        r == vote_decision(
            *node,
            request,
            last_term_of(log.entries_view()),
            last_index_of(log.entries_view()) as u64,
        ),
{
    let mut vote_granted = false;
    let mut response_current_term = node.current_term;
    let mut follower_update: Option<FollowerInfo> = None;

    if node.current_term <= request.term {
        let is_same_term_and_candidate = node.current_term == request.term
            && node.voted_for_id.is_some() && node.voted_for_id.unwrap() == request.candidate_id;

        if (node.current_term < request.term || is_same_term_and_candidate)
            && check_candidate_last_log_entry(log, request.last_log_term, request.last_log_index) {
            vote_granted = true;
            response_current_term = request.term;
            follower_update = Some(
                FollowerInfo {
                    term: request.term,
                    leader_id: None,
                    voted_for_id: Some(request.candidate_id),
                },
            );
        }
    }
    (VoteResponse { vote_granted, peer_id: node.id, term: response_current_term }, follower_update)
}

/// The vote request of an election.
pub open spec fn election_vote_request(params: StartElectionParams) -> VoteRequest {
    VoteRequest {
        candidate_id: params.node_id,
        term: params.next_term,
        last_log_index: params.last_log_index,
        last_log_term: params.last_log_term,
    }
}

/// The cause of the error that stands for a peer's failed vote request:
/// "Destination Node ", the peer's id, " vote request failed:" and the
/// peer's error as `Display` shows it.
pub open spec fn vote_failure_cause(dest_node_id: u64, err: RaftError) -> Seq<char> {
    "Destination Node "@ + decimal(dest_node_id as nat) + " vote request failed:"@ + error_display(
        err.text_view(),
        err.cause_view(),
    )
}

/// The reply that an election counts for a peer's reply: a vote response as
/// it came, and for an error, "Cannot get vote from peer" with the cause of
/// `vote_failure_cause`.
pub open spec fn counted_vote_reply(
    dest_node_id: u64,
    reply: Result<VoteResponse, RaftError>,
    counted: Result<VoteResponse, RaftError>,
) -> bool {
    match reply {
        Ok(v) => counted == Ok::<VoteResponse, RaftError>(v),
        Err(e) => {
            &&& counted is Err
            &&& counted->Err_0.text_view() == "Cannot get vote from peer"@
            &&& counted->Err_0.cause_view() == vote_failure_cause(dest_node_id, e)
        },
    }
}

/// The error that stands for a peer's failed vote request (see
/// `counted_vote_reply`).
fn vote_request_error(dest_node_id: u64, err: RaftError) -> (e: RaftError)
    ensures
        e.text_view() == "Cannot get vote from peer"@,
        e.cause_view() == vote_failure_cause(dest_node_id, err),
{
    let mut cause = String::from_str("Destination Node ");
    let id = decimal_string(dest_node_id);
    cause.append(id.as_str());
    cause.append(" vote request failed:");
    let shown = err.to_display_string();
    cause.append(shown.as_str());
    RaftError::new(String::from_str("Cannot get vote from peer"), cause)
}

/// The outcome of an election for the replies it counts: leadership in the
/// election's term when the quorum is gathered; when no peer agreed and some
/// failed, the error "Cannot get quorum for request" with the failures as
/// its cause; otherwise a return to follower in the term before the
/// election, with the candidate's vote for itself.
pub open spec fn election_outcome_matches(
    params: StartElectionParams,
    r: Result<LeaderElectionEvent, RaftError>,
    replies: Seq<Result<VoteResponse, RaftError>>,
) -> bool {
    let votes = votes_of(replies);
    if quorum_gathered(votes, params.quorum_size as nat) {
        r == Ok::<LeaderElectionEvent, RaftError>(
            LeaderElectionEvent::PromoteNodeToLeader(params.next_term),
        )
    } else if agreeing(votes) == 0 && errors_in(replies).len() > 0 {
        &&& r is Err
        &&& r->Err_0.text_view() == "Cannot get quorum for request"@
        &&& r->Err_0.cause_view() == multiple_cause(errors_in(replies))
    } else {
        r == Ok::<LeaderElectionEvent, RaftError>(
            LeaderElectionEvent::ResetNodeToFollower(
                FollowerInfo {
                    term: params.actual_current_term,
                    leader_id: None,
                    voted_for_id: Some(params.node_id),
                },
            ),
        )
    }
}

/// The vote request of an election (see `election_vote_request`).
pub fn election_request(params: &StartElectionParams) -> (r: VoteRequest)
    ensures
        r == election_vote_request(*params),
        r.candidate_id == params.node_id,
        r.term == params.next_term,
        r.last_log_index == params.last_log_index,
        r.last_log_term == params.last_log_term,
{
    VoteRequest {
        candidate_id: params.node_id,
        term: params.next_term,
        last_log_index: params.last_log_index,
        last_log_term: params.last_log_term,
    }
}

/// The role change that the decision of an election brings: leadership in
/// the election's term when won, a return to follower in the term before
/// the election (with the candidate's vote for itself) when lost, and the
/// error as it came otherwise.
fn election_event(
    node_id: u64,
    actual_current_term: u64,
    next_term: u64,
    decision: Result<bool, RaftError>,
) -> (r: Result<LeaderElectionEvent, RaftError>)
    ensures
        decision == Ok::<bool, RaftError>(true) ==> r == Ok::<LeaderElectionEvent, RaftError>(
            LeaderElectionEvent::PromoteNodeToLeader(next_term),
        ),
        decision == Ok::<bool, RaftError>(false) ==> r == Ok::<LeaderElectionEvent, RaftError>(
            LeaderElectionEvent::ResetNodeToFollower(
                FollowerInfo { term: actual_current_term, leader_id: None, voted_for_id: Some(node_id) },
            ),
        ),
        decision is Err ==> r == Err::<LeaderElectionEvent, RaftError>(decision->Err_0),
{
    match decision {
        Ok(won_election) => {
            if won_election {
                Ok(LeaderElectionEvent::PromoteNodeToLeader(next_term))
            } else {
                Ok(
                    LeaderElectionEvent::ResetNodeToFollower(
                        FollowerInfo { term: actual_current_term, leader_id: None, voted_for_id: Some(node_id) },
                    ),
                )
            }
        },
        Err(err) => Err(err),
    }
}

/// Decides an election from the replies of its peers, one per peer in the
/// order of `params.peers`, however they were gathered: each failed request
/// counts as the error of `counted_vote_reply`, and the outcome is that of
/// `election_outcome_matches`. Without peers the candidate becomes leader.
pub fn decide_election(
    params: StartElectionParams,
    replies: Vec<Result<VoteResponse, RaftError>>,
) -> (r: Result<LeaderElectionEvent, RaftError>)
    requires
        replies@.len() == params.peers@.len(),
    ensures
        params.peers@.len() == 0 ==> r == Ok::<LeaderElectionEvent, RaftError>(
            LeaderElectionEvent::PromoteNodeToLeader(params.next_term),
        ),
        params.peers@.len() > 0 ==> exists|counted: Seq<Result<VoteResponse, RaftError>>|
            {
                &&& counted.len() == params.peers@.len()
                &&& forall|i: int|
                    0 <= i < params.peers@.len() ==> counted_vote_reply(
                        params.peers@[i],
                        replies@[i],
                        #[trigger] counted[i],
                    )
                &&& election_outcome_matches(params, r, counted)
            },
{
    if params.peers.len() == 0 {
        return Ok(LeaderElectionEvent::PromoteNodeToLeader(params.next_term));
    }
    let ghost original_replies = replies@;
    let total = replies.len();
    let mut counted: Vec<Result<VoteResponse, RaftError>> = Vec::new();
    let mut rest = replies;
    let mut i: usize = 0;
    while rest.len() > 0
        invariant
            i + rest@.len() == original_replies.len(),
            original_replies.len() == total,
            original_replies.len() == params.peers@.len(),
            rest@ == original_replies.skip(i as int),
            counted@.len() == i,
            forall|j: int|
                0 <= j < i ==> counted_vote_reply(
                    params.peers@[j],
                    original_replies[j],
                    #[trigger] counted@[j],
                ),
        decreases rest.len(),
    {
        let reply = rest.remove(0);
        let ghost g = reply;
        proof {
            assert(g == original_replies[i as int]);
            assert(rest@ =~= original_replies.skip(i as int + 1));
        }
        let dest_node_id = params.peers[i];
        let c = match reply {
            Ok(v) => Ok(v),
            Err(e) => Err(vote_request_error(dest_node_id, e)),
        };
        assert(counted_vote_reply(dest_node_id, g, c));
        counted.push(c);
        i = i + 1;
    }
    let ghost counted_view = counted@;
    let decision = decide_consensus(counted, Some(params.quorum_size));
    let r = election_event(params.node_id, params.actual_current_term, params.next_term, decision);
    assert(election_outcome_matches(params, r, counted_view));
    r
}

/// Runs an election: asks each peer for its vote, in order, counts each
/// failed request as the error of `counted_vote_reply`, and returns the role
/// change that the outcome brings, or the election's error (see
/// `election_outcome_matches`). Without peers the candidate becomes leader
/// at once.
pub fn start_election<Requester>(params: StartElectionParams, requester: Requester) -> (r: Result<
    LeaderElectionEvent,
    RaftError,
>) where Requester: Fn(u64, VoteRequest) -> Result<VoteResponse, RaftError>
    requires
        forall|p: u64, q: VoteRequest| #[trigger] requester.requires((p, q)),
    ensures
        params.peers@.len() == 0 ==> r == Ok::<LeaderElectionEvent, RaftError>(
            LeaderElectionEvent::PromoteNodeToLeader(params.next_term),
        ),
        params.peers@.len() > 0 ==> exists|
            replies: Seq<Result<VoteResponse, RaftError>>,
            counted: Seq<Result<VoteResponse, RaftError>>,
        |
            #![trigger election_outcome_matches(params, r, counted), replies.len()]
            {
                &&& replies.len() == params.peers@.len()
                &&& counted.len() == params.peers@.len()
                &&& forall|i: int|
                    0 <= i < params.peers@.len() ==> {
                        &&& answered(
                            requester,
                            election_vote_request(params),
                            params.peers@[i],
                            #[trigger] replies[i],
                        )
                        &&& counted_vote_reply(params.peers@[i], replies[i], counted[i])
                    }
                &&& election_outcome_matches(params, r, counted)
            },
{
    let vote_request = election_request(&params);
    if params.peers.len() == 0 {
        return Ok(LeaderElectionEvent::PromoteNodeToLeader(params.next_term));
    }
    let ghost p = params;
    let node_id = params.node_id;
    let actual_current_term = params.actual_current_term;
    let quorum_size = params.quorum_size;
    let asking = &requester;
    let counting_requester = move |dest_node_id: u64, request: VoteRequest| -> (counted: Result<
        VoteResponse,
        RaftError,
    >)
        requires
            asking.requires((dest_node_id, request)),
        ensures
            exists|reply: Result<VoteResponse, RaftError>|
                asking.ensures((dest_node_id, request), reply) && counted_vote_reply(
                    dest_node_id,
                    reply,
                    counted,
                ),
        {
            let reply = asking(dest_node_id, request);
            let ghost g = reply;
            match reply {
                Ok(v) => {
                    let c = Ok(v);
                    assert(asking.ensures((dest_node_id, request), g) && counted_vote_reply(
                        dest_node_id,
                        g,
                        c,
                    ));
                    c
                },
                Err(e) => {
                    let c = Err(vote_request_error(dest_node_id, e));
                    assert(asking.ensures((dest_node_id, request), g) && counted_vote_reply(
                        dest_node_id,
                        g,
                        c,
                    ));
                    c
                },
            }
        };
    assert forall|d: u64, q: VoteRequest| #[trigger] counting_requester.requires((d, q)) by {
        assert(requester.requires((d, q)));
    }
    let result = request_peer_consensus(
        vote_request,
        node_id,
        params.peers,
        Some(quorum_size),
        counting_requester,
    );
    let ghost counted = choose|counted: Seq<Result<VoteResponse, RaftError>>|
        {
            &&& counted.len() == p.peers@.len()
            &&& forall|i: int|
                0 <= i < p.peers@.len() ==> answered(
                    counting_requester,
                    vote_request,
                    p.peers@[i],
                    #[trigger] counted[i],
                )
            &&& crate::consensus::consensus_outcome_matches(result, counted, Some(quorum_size))
        };
    assert(vote_request == election_vote_request(p));
    let ghost replies = Seq::new(
        counted.len(),
        |i: int|
            choose|reply: Result<VoteResponse, RaftError>|
                answered(requester, vote_request, p.peers@[i], reply) && counted_vote_reply(
                    p.peers@[i],
                    reply,
                    counted[i],
                ),
    );
    assert forall|i: int| 0 <= i < p.peers@.len() implies {
        &&& answered(requester, election_vote_request(p), p.peers@[i], #[trigger] replies[i])
        &&& counted_vote_reply(p.peers@[i], replies[i], counted[i])
    } by {
        assert(answered(counting_requester, vote_request, p.peers@[i], counted[i]));
        let q = choose|q: VoteRequest|
            cloned::<VoteRequest>(vote_request, q) && #[trigger] counting_requester.ensures(
                (p.peers@[i], q),
                counted[i],
            );
        let reply = choose|reply: Result<VoteResponse, RaftError>|
            requester.ensures((p.peers@[i], q), reply) && counted_vote_reply(
                p.peers@[i],
                reply,
                counted[i],
            );
        assert(answered(requester, vote_request, p.peers@[i], reply));
    }
    let r = election_event(node_id, actual_current_term, vote_request.term, result);
    assert(election_outcome_matches(p, r, counted));
    assert(replies.len() == p.peers@.len());
    r
}

/// Counts a vote response during an election in the given term: a granted
/// vote of that term adds one. Returns the new count and whether it reaches
/// the quorum.
pub fn process_vote_response(votes: u32, term: u64, response: &VoteResponse, quorum_size: u32) -> (r: (
    u32,
    bool,
))
    requires
        votes < u32::MAX,
    ensures
        r.0 == (if response.term == term && response.vote_granted {
            votes + 1
        } else {
            votes as int
        }),
        r.1 == (r.0 >= quorum_size),
{
    let mut votes = votes;
    if response.term == term && response.vote_granted {
        votes = votes + 1;
    }
    (votes, votes >= quorum_size)
}

/// A node's answer to an append entries request: a leader ignores it; any
/// other node records the sender as leader and acknowledges in its own term
/// (the watchdog is then reset).
pub fn process_append_entries_request(node: &mut Node, request: &AppendEntriesRequest) -> (r: Option<
    AppendEntriesResponse,
>)
    ensures
        old(node).status == NodeStatus::Leader ==> r is None && *final(node) == *old(node),
        old(node).status != NodeStatus::Leader ==> {
            &&& r == Some(AppendEntriesResponse { term: old(node).current_term, success: true })
            &&& *final(node) == (Node { current_leader_id: Some(request.leader_id), ..*old(node) })
        },
{
    if let NodeStatus::Leader = node.status {
        return None;
    }
    node.current_leader_id = Some(request.leader_id);
    Some(AppendEntriesResponse { term: node.current_term, success: true })
}

/// A node's answer to a request to add a server: a leader adds the server to
/// the cluster, answers with success and forwards the request (`true`);
/// another node answers that it is not the leader. Either answer names the
/// leader the node knows.
pub fn change_membership(
    node: &Node,
    cluster: &mut ClusterConfiguration,
    request: AddServerRequest,
) -> (r: (AddServerResponse, bool))
    ensures
        node.status == NodeStatus::Leader ==> {
            &&& r == (AddServerResponse {
                status: ChangeMembershipResponseStatus::Success,
                current_leader: node.current_leader_id,
            }, true)
            &&& final(cluster)@ == old(cluster)@.insert(request.new_server)
        },
        node.status != NodeStatus::Leader ==> {
            &&& r == (AddServerResponse {
                status: ChangeMembershipResponseStatus::NotLeader,
                current_leader: node.current_leader_id,
            }, false)
            &&& final(cluster)@ == old(cluster)@
        },
{
    if let NodeStatus::Leader = node.status {
        cluster.add_peer(request.new_server);
        (
            AddServerResponse {
                status: ChangeMembershipResponseStatus::Success,
                current_leader: node.current_leader_id,
            },
            true,
        )
    } else {
        (
            AddServerResponse {
                status: ChangeMembershipResponseStatus::NotLeader,
                current_leader: node.current_leader_id,
            },
            false,
        )
    }
}

/// A follower that knows another node as its leader, or no leader, and hears
/// nothing before the election timeout becomes a candidate for the next
/// term; a leader, a candidate, and a follower that is itself the known
/// leader propose nothing.
pub proof fn lemma_silent_leader_replaced(node: Node)
    ensures
        node.status == NodeStatus::Follower && node.current_leader_id != Some(node.id)
            && node.current_term < u64::MAX ==> {
            &&& proposed_election(node) is Some
            &&& proposed_election(node)->0 matches LeaderElectionEvent::PromoteNodeToCandidate(info)
                && info.candidate_id == node.id && info.term == node.current_term + 1
        },
        node.status == NodeStatus::Follower && node.current_leader_id is Some
            && node.current_leader_id != Some(node.id) ==> proposed_election(node) is Some,
        node.status != NodeStatus::Follower ==> proposed_election(node) is None,
        node.current_leader_id == Some(node.id) ==> proposed_election(node) is None,
{
}

/// Raft's election restriction: a node never grants its vote to a candidate
/// whose last log term is older than its own, however long the candidate's
/// log; with the same last term, not to one whose last index is lower.
/// Neither refusal changes the node.
pub proof fn lemma_vote_needs_up_to_date_log(
    node: Node,
    request: VoteRequest,
    last_term: u64,
    last_index: u64,
)
    ensures
        request.last_log_term < last_term ==> {
            &&& !vote_decision(node, request, last_term, last_index).0.vote_granted
            &&& vote_decision(node, request, last_term, last_index).1 is None
        },
        request.last_log_term == last_term && request.last_log_index < last_index ==> {
            &&& !vote_decision(node, request, last_term, last_index).0.vote_granted
            &&& vote_decision(node, request, last_term, last_index).1 is None
        },
        vote_decision(node, request, last_term, last_index).0.vote_granted ==> {
            ||| request.last_log_term > last_term
            ||| request.last_log_term == last_term && request.last_log_index >= last_index
        },
        request.term > node.current_term && (request.last_log_term > last_term || (
        request.last_log_term == last_term && request.last_log_index >= last_index))
            ==> vote_decision(node, request, last_term, last_index).0.vote_granted,
{
}

/// The vote request of an election names the candidate, the election's
/// term, and the index and the term of the candidate's last log entry, each
/// in its own field.
pub proof fn lemma_election_request_fields(params: StartElectionParams)
    ensures
        election_vote_request(params).candidate_id == params.node_id,
        election_vote_request(params).term == params.next_term,
        election_vote_request(params).last_log_index == params.last_log_index,
        election_vote_request(params).last_log_term == params.last_log_term,
{
}

/// A node that is reset to follower takes the event's term, and the leader
/// that the event names replaces any leader it knew; without a named leader
/// it keeps the one it knew.
pub proof fn lemma_follower_takes_named_leader(node: Node, info: FollowerInfo)
    ensures
        leadership_transition(node, LeaderElectionEvent::ResetNodeToFollower(info)).status
            == NodeStatus::Follower,
        leadership_transition(node, LeaderElectionEvent::ResetNodeToFollower(info)).current_term
            == info.term,
        info.leader_id matches Some(l) ==> leadership_transition(
            node,
            LeaderElectionEvent::ResetNodeToFollower(info),
        ).current_leader_id == Some(l),
        info.leader_id is None ==> leadership_transition(
            node,
            LeaderElectionEvent::ResetNodeToFollower(info),
        ).current_leader_id == node.current_leader_id,
{
}

} // verus!
