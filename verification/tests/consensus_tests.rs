use raft::consensus::{decide_consensus, decide_notification, notify_peers, request_peer_consensus};
use raft::errors::{new_err, RaftError};
use raft::messages::{AppendEntriesResponse, VoteRequest, VoteResponse};

fn vote(granted: bool) -> Result<VoteResponse, RaftError> {
    Ok(VoteResponse { term: 1, vote_granted: granted, peer_id: 0 })
}

fn failure(text: &str) -> Result<VoteResponse, RaftError> {
    new_err(text.to_string(), String::new())
}

#[test]
fn no_quorum_needed_succeeds() {
    assert!(matches!(decide_consensus(vec![vote(false)], None), Ok(true)));
}

#[test]
fn quorum_reached() {
    assert!(matches!(decide_consensus(vec![vote(false), vote(true)], Some(2)), Ok(true)));
    assert!(matches!(decide_consensus(vec![vote(true), vote(true), vote(false)], Some(3)), Ok(true)));
}

#[test]
fn quorum_missed_is_refused() {
    assert!(matches!(decide_consensus(vec![vote(false), vote(true)], Some(3)), Ok(false)));
    assert!(matches!(decide_consensus(vec![vote(false), vote(false)], Some(2)), Ok(false)));
    assert!(matches!(decide_consensus(vec![vote(true), failure("x")], Some(3)), Ok(false)));
    assert!(decide_consensus(vec![vote(false), failure("x")], Some(2)).is_err());
}

#[test]
fn quorum_of_one_needs_an_answer() {
    assert!(matches!(decide_consensus(vec![failure("a"), vote(false)], Some(1)), Ok(true)));
    let r = decide_consensus(vec![failure("a")], Some(1));
    assert!(r.is_err());
}

#[test]
fn only_errors_give_an_error() {
    let r = decide_consensus(vec![failure("first"), failure("second")], Some(2));
    let e = r.unwrap_err();
    assert_eq!(e.text(), "Cannot get quorum for request");
    assert_eq!(e.cause(), "Errors: 1) first.2) second.");
    assert_eq!(e.to_display_string(), "Cannot get quorum for request. Cause: Errors: 1) first.2) second.");
}

#[test]
fn request_peer_consensus_calls_each_peer() {
    let requester = |peer: u64, req: VoteRequest| -> Result<VoteResponse, RaftError> {
        Ok(VoteResponse { term: req.term, vote_granted: peer != 3, peer_id: peer })
    };
    let req = VoteRequest { term: 2, candidate_id: 1, last_log_term: 0, last_log_index: 0 };
    assert!(matches!(request_peer_consensus(req, 1, vec![2, 3], Some(2), requester), Ok(true)));
    assert!(matches!(request_peer_consensus(req, 1, vec![3], Some(2), requester), Ok(false)));
    assert!(matches!(request_peer_consensus(req, 1, vec![], Some(9), requester), Ok(true)));
}

#[test]
fn notification_outcomes() {
    let ok = |s: bool| -> Result<AppendEntriesResponse, &'static str> { Ok(AppendEntriesResponse { term: 1, success: s }) };
    assert!(decide_notification(vec![ok(true)], Some(2)).is_ok());
    assert!(decide_notification(vec![ok(false)], None).is_ok());
    let r = decide_notification(vec![Err("down"), ok(false), Err("late")], Some(2));
    assert_eq!(r, Err("No quorum;down;late".to_string()));
    let r = decide_notification::<AppendEntriesResponse>(vec![], Some(2));
    assert_eq!(r, Err("No quorum".to_string()));
}

#[test]
fn notify_peers_gathers_replies() {
    let requester = |peer: u64, _req: u64| -> Result<AppendEntriesResponse, &'static str> {
        if peer == 9 { Err("unreachable") } else { Ok(AppendEntriesResponse { term: 1, success: true }) }
    };
    assert!(notify_peers(5u64, 1, vec![2, 3], Some(3), requester).is_ok());
    assert_eq!(notify_peers(5u64, 1, vec![9], Some(2), requester), Err("No quorum;unreachable".to_string()));
    assert!(notify_peers(5u64, 1, vec![], Some(2), requester).is_ok());
}
