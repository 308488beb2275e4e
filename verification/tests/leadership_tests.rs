use raft::cluster::ClusterConfiguration;
use raft::errors::{new_err, RaftError};
use raft::leadership::{
    change_membership, change_node_leadership_state, process_append_entries_request, process_vote_request,
    process_vote_response, propose_node_election, start_election, decide_election, election_request, CandidateInfo, FollowerInfo,
    LeaderElectionEvent, NodeStatusAction, StartElectionParams,
};
use raft::messages::{AddServerRequest, AppendEntriesRequest, AppendEntriesResponse, ChangeMembershipResponseStatus, VoteRequest, VoteResponse};
use raft::node::{Node, NodeStatus};
use raft::operation_log::{DataEntryContent, EntryContent, LogEntry, MemoryOperationLog, OperationLog};

fn log_with_last(term: u64, index: u64) -> MemoryOperationLog {
    let mut log = MemoryOperationLog::new(ClusterConfiguration::new(vec![1, 2, 3]));
    for i in 1..=index {
        let e = LogEntry { index: i, term, entry_content: EntryContent::Data(DataEntryContent { data: vec![] }) };
        assert!(log.append_entry(e).is_ok());
    }
    log
}

fn follower(id: u64, term: u64) -> Node {
    Node { id, current_term: term, current_leader_id: None, voted_for_id: None, status: NodeStatus::Follower }
}

#[test]
fn candidate_transition_starts_election() {
    let mut node = follower(1, 4);
    let log = log_with_last(3, 2);
    let cluster = ClusterConfiguration::new(vec![1, 2, 3]);
    let event = LeaderElectionEvent::PromoteNodeToCandidate(CandidateInfo { term: 5, candidate_id: 1 });
    let action = change_node_leadership_state(&mut node, event, &log, &cluster);
    assert_eq!(node.status, NodeStatus::Candidate);
    assert_eq!(node.voted_for_id, Some(1));
    assert_eq!(node.current_leader_id, None);
    assert_eq!(node.current_term, 4);
    match action {
        NodeStatusAction::StartElection(p) => {
            assert_eq!(p.node_id, 1);
            assert_eq!(p.actual_current_term, 3);
            assert_eq!(p.next_term, 5);
            assert_eq!(p.last_log_index, 2);
            assert_eq!(p.last_log_term, 3);
            let mut peers = p.peers.clone();
            peers.sort();
            assert_eq!(peers, vec![2, 3]);
            assert_eq!(p.quorum_size, 2);
        }
        _ => panic!("expected an election"),
    }
}

#[test]
fn leader_transition() {
    let mut node = follower(2, 1);
    let log = log_with_last(0, 0);
    let cluster = ClusterConfiguration::new(vec![2]);
    let action = change_node_leadership_state(&mut node, LeaderElectionEvent::PromoteNodeToLeader(3), &log, &cluster);
    assert_eq!(action, NodeStatusAction::ResetWatchdogAndSendHeartbeat);
    assert_eq!(node.status, NodeStatus::Leader);
    assert_eq!(node.current_leader_id, Some(2));
    assert_eq!(node.current_term, 3);
}

#[test]
fn follower_transition_keeps_or_clears_vote() {
    let log = log_with_last(0, 0);
    let cluster = ClusterConfiguration::new(vec![1]);
    let mut node = Node { id: 1, current_term: 2, current_leader_id: Some(7), voted_for_id: Some(5), status: NodeStatus::Candidate };
    let info = FollowerInfo { term: 3, leader_id: None, voted_for_id: None };
    let action = change_node_leadership_state(&mut node, LeaderElectionEvent::ResetNodeToFollower(info), &log, &cluster);
    assert_eq!(action, NodeStatusAction::ResetWatchdog);
    assert_eq!(node.status, NodeStatus::Follower);
    assert_eq!(node.voted_for_id, None);
    assert_eq!(node.current_leader_id, Some(7));
    assert_eq!(node.current_term, 3);

    let mut node = Node { id: 1, current_term: 3, current_leader_id: None, voted_for_id: Some(5), status: NodeStatus::Leader };
    let info = FollowerInfo { term: 3, leader_id: Some(4), voted_for_id: None };
    change_node_leadership_state(&mut node, LeaderElectionEvent::ResetNodeToFollower(info), &log, &cluster);
    assert_eq!(node.voted_for_id, Some(5));
    assert_eq!(node.current_leader_id, Some(4));
}

#[test]
fn election_proposed_only_by_follower_without_self_lead() {
    let node = follower(1, 6);
    assert_eq!(
        propose_node_election(&node),
        Some(LeaderElectionEvent::PromoteNodeToCandidate(CandidateInfo { term: 7, candidate_id: 1 }))
    );
    let led_by_self = Node { current_leader_id: Some(1), ..node };
    assert_eq!(propose_node_election(&led_by_self), None);
    let candidate = Node { status: NodeStatus::Candidate, ..node };
    assert_eq!(propose_node_election(&candidate), None);
}

#[test]
fn vote_granted_for_newer_term_and_log() {
    let node = follower(2, 3);
    let log = log_with_last(2, 5);
    let req = VoteRequest { term: 4, candidate_id: 1, last_log_term: 2, last_log_index: 5 };
    let (resp, update) = process_vote_request(req, &node, &log);
    assert_eq!(resp, VoteResponse { term: 4, vote_granted: true, peer_id: 2 });
    assert_eq!(update, Some(FollowerInfo { term: 4, leader_id: None, voted_for_id: Some(1) }));
}

#[test]
fn vote_refused_for_stale_log_or_term() {
    let node = follower(2, 3);
    let log = log_with_last(2, 5);
    let shorter = VoteRequest { term: 4, candidate_id: 1, last_log_term: 2, last_log_index: 4 };
    assert_eq!(process_vote_request(shorter, &node, &log), (VoteResponse { term: 3, vote_granted: false, peer_id: 2 }, None));
    let older = VoteRequest { term: 2, candidate_id: 1, last_log_term: 9, last_log_index: 9 };
    assert_eq!(process_vote_request(older, &node, &log).0.vote_granted, false);
}

#[test]
fn one_vote_per_term() {
    let log = log_with_last(0, 0);
    let mut node = follower(3, 1);
    let first = VoteRequest { term: 2, candidate_id: 1, last_log_term: 0, last_log_index: 0 };
    let (resp, update) = process_vote_request(first, &node, &log);
    assert!(resp.vote_granted);
    let cluster = ClusterConfiguration::new(vec![1, 2, 3]);
    change_node_leadership_state(&mut node, LeaderElectionEvent::ResetNodeToFollower(update.unwrap()), &log, &cluster);
    let second = VoteRequest { term: 2, candidate_id: 2, last_log_term: 0, last_log_index: 0 };
    assert!(!process_vote_request(second, &node, &log).0.vote_granted);
    assert!(process_vote_request(first, &node, &log).0.vote_granted);
}

fn params(peers: Vec<u64>) -> StartElectionParams {
    StartElectionParams { node_id: 1, actual_current_term: 4, next_term: 6, last_log_index: 0, last_log_term: 0, peers, quorum_size: 2 }
}

#[test]
fn election_without_peers_wins() {
    let requester = |_p: u64, _r: VoteRequest| -> Result<VoteResponse, RaftError> { panic!("no peer to ask") };
    assert_eq!(start_election(params(vec![]), requester).ok(), Some(LeaderElectionEvent::PromoteNodeToLeader(6)));
}

#[test]
fn election_outcomes() {
    let yes = |p: u64, r: VoteRequest| -> Result<VoteResponse, RaftError> {
        assert_eq!(r.term, 6);
        assert_eq!(r.candidate_id, 1);
        Ok(VoteResponse { term: r.term, vote_granted: true, peer_id: p })
    };
    assert_eq!(start_election(params(vec![2, 3]), yes).ok(), Some(LeaderElectionEvent::PromoteNodeToLeader(6)));
    let no = |p: u64, r: VoteRequest| -> Result<VoteResponse, RaftError> { Ok(VoteResponse { term: r.term, vote_granted: false, peer_id: p }) };
    assert_eq!(
        start_election(params(vec![2, 3]), no).ok(),
        Some(LeaderElectionEvent::ResetNodeToFollower(FollowerInfo { term: 4, leader_id: None, voted_for_id: Some(1) }))
    );
    let down = |_p: u64, _r: VoteRequest| -> Result<VoteResponse, RaftError> { new_err("down".to_string(), String::new()) };
    let err = start_election(params(vec![2, 3]), down).unwrap_err();
    assert_eq!(err.text(), "Cannot get quorum for request");
    assert_eq!(
        err.cause(),
        "Errors: 1) Cannot get vote from peer. Cause: Destination Node 2 vote request failed:down.\
         2) Cannot get vote from peer. Cause: Destination Node 3 vote request failed:down."
    );
    let one_down = |p: u64, r: VoteRequest| -> Result<VoteResponse, RaftError> {
        if p == 2 {
            new_err("down".to_string(), "timeout".to_string())
        } else {
            Ok(VoteResponse { term: r.term, vote_granted: true, peer_id: p })
        }
    };
    assert_eq!(start_election(params(vec![2, 3]), one_down).ok(), Some(LeaderElectionEvent::PromoteNodeToLeader(6)));
}

#[test]
fn vote_responses_counted_for_the_term() {
    let granted = VoteResponse { term: 5, vote_granted: true, peer_id: 2 };
    assert_eq!(process_vote_response(1, 5, &granted, 2), (2, true));
    assert_eq!(process_vote_response(1, 6, &granted, 2), (1, false));
    let refused = VoteResponse { term: 5, vote_granted: false, peer_id: 2 };
    assert_eq!(process_vote_response(1, 5, &refused, 3), (1, false));
}

#[test]
fn append_entries_heartbeat() {
    let mut node = follower(2, 7);
    let req = AppendEntriesRequest { term: 7, prev_log_term: 0, prev_log_index: 0, leader_id: 1, leader_commit: 0, entries: vec![] };
    assert_eq!(process_append_entries_request(&mut node, &req), Some(AppendEntriesResponse { term: 7, success: true }));
    assert_eq!(node.current_leader_id, Some(1));
    let mut leader = Node { status: NodeStatus::Leader, ..follower(3, 7) };
    assert_eq!(process_append_entries_request(&mut leader, &req), None);
    assert_eq!(leader.current_leader_id, None);
}

#[test]
fn membership_change_only_on_leader() {
    let mut cluster = ClusterConfiguration::new(vec![1]);
    let leader = Node { id: 1, current_term: 1, current_leader_id: Some(1), voted_for_id: None, status: NodeStatus::Leader };
    let (resp, forward) = change_membership(&leader, &mut cluster, AddServerRequest { new_server: 2 });
    assert_eq!(resp.status, ChangeMembershipResponseStatus::Success);
    assert_eq!(resp.current_leader, Some(1));
    assert!(forward);
    let follower_node = follower(2, 1);
    let (resp, forward) = change_membership(&follower_node, &mut cluster, AddServerRequest { new_server: 3 });
    assert_eq!(resp.status, ChangeMembershipResponseStatus::NotLeader);
    assert!(!forward);
    let mut nodes = raft::cluster::Cluster::all_nodes(&cluster);
    nodes.sort();
    assert_eq!(nodes, vec![1, 2]);
}

#[test]
fn election_decided_from_gathered_replies() {
    let request = election_request(&params(vec![2, 3]));
    assert_eq!(request, VoteRequest { term: 6, candidate_id: 1, last_log_term: 0, last_log_index: 0 });
    assert_eq!(decide_election(params(vec![]), vec![]).ok(), Some(LeaderElectionEvent::PromoteNodeToLeader(6)));
    let granted = Ok(VoteResponse { term: 6, vote_granted: true, peer_id: 3 });
    let failed: Result<VoteResponse, RaftError> = new_err("down".to_string(), String::new());
    assert_eq!(
        decide_election(params(vec![2, 3]), vec![failed, granted]).ok(),
        Some(LeaderElectionEvent::PromoteNodeToLeader(6))
    );
    let refused = VoteResponse { term: 6, vote_granted: false, peer_id: 3 };
    assert_eq!(
        decide_election(params(vec![2, 3]), vec![Ok(refused), Ok(refused)]).ok(),
        Some(LeaderElectionEvent::ResetNodeToFollower(FollowerInfo { term: 4, leader_id: None, voted_for_id: Some(1) }))
    );
    let down: Result<VoteResponse, RaftError> = new_err("down".to_string(), "x".to_string());
    let err = decide_election(params(vec![7]), vec![down]).unwrap_err();
    assert_eq!(err.text(), "Cannot get quorum for request");
    assert_eq!(err.cause(), "Errors: 1) Cannot get vote from peer. Cause: Destination Node 7 vote request failed:down. Cause: x");
}
