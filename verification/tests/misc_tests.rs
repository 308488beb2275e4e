use std::collections::HashMap;

use raft::decimal::decimal_string;
use raft::discovery::{
    get_client_requests_address, get_communication_timeout, get_peer_requests_address,
    PeerCommunicatorServiceDiscovery, StaticTableServiceDiscovery,
};
use raft::errors::{new_err, new_multiple_err, RaftError};
use raft::node::{MockNodeStateSaver, Node, NodeState, NodeStateSaver, NodeStatus};
use raft::ruft_errors;
use raft::timers::{
    random_awaiting_leader_duration_ms, ElectionTimer, FixedElectionTimer, NodeTimings, RandomizedElectionTimer,
};

#[test]
fn decimal_text() {
    assert_eq!(decimal_string(0), "0");
    assert_eq!(decimal_string(7), "7");
    assert_eq!(decimal_string(60001), "60001");
    assert_eq!(decimal_string(u64::MAX), u64::MAX.to_string());
}

#[test]
fn addresses() {
    assert_eq!(get_peer_requests_address(1), "127.0.0.1:60001");
    assert_eq!(get_client_requests_address(3), "127.0.0.1:50003");
    assert_eq!(get_communication_timeout(), 500);
}

#[test]
fn static_table_lookup() {
    let mut table = HashMap::new();
    table.insert(1u64, "host-a:1".to_string());
    table.insert(2u64, "host-b:2".to_string());
    let d = StaticTableServiceDiscovery::new(table);
    assert_eq!(d.get_address(2), "host-b:2");
    assert_eq!(d.get_address(1), "host-a:1");
    assert!(d.knows_node(2));
    assert!(!d.knows_node(3));
}

#[test]
fn error_display() {
    let e: Result<(), RaftError> = new_err("Cannot send".to_string(), "timeout".to_string());
    let e = e.unwrap_err();
    assert_eq!(e.to_display_string(), "Cannot send. Cause: timeout");
    let e: Result<(), RaftError> = new_err("Plain".to_string(), String::new());
    assert_eq!(e.unwrap_err().to_display_string(), "Plain.");
    let m: Result<(), RaftError> = new_multiple_err("None".to_string(), vec![]);
    assert_eq!(m.unwrap_err().cause(), "");
}

#[test]
fn ruft_errors_keep_text_and_cause() {
    let e: Result<(), ruft_errors::RuftError> = ruft_errors::new_err("t".to_string(), Some("c".to_string()));
    let e = e.unwrap_err();
    assert_eq!(e.text(), "t");
    assert_eq!(e.cause(), &Some("c".to_string()));
    assert_eq!(e.to_display_string(), "t. Cause Some(c)");
    let b: Result<(), ruft_errors::RuftError> = ruft_errors::new_err("boom".to_string(), None);
    assert_eq!(b.unwrap_err().to_display_string(), "boom. Cause None");
}

#[test]
fn timers() {
    assert_eq!(FixedElectionTimer::new(150).next_elections_timeout(), 150);
    assert!(FixedElectionTimer::new(150).can_compute_timeout());
    assert!(!RandomizedElectionTimer::new(200, 200).can_compute_timeout());
    let t = RandomizedElectionTimer::new(100, 200);
    assert!(t.can_compute_timeout());
    for _ in 0..50 {
        let ms = t.next_elections_timeout();
        assert!(100 <= ms && ms < 200);
    }
    let ms = random_awaiting_leader_duration_ms();
    assert!(1000 <= ms && ms < 4000);
    let d = NodeTimings::default();
    assert_eq!(d.heartbeat_timeout, 1000);
    assert_eq!(d.communication_timeout, 1000);
}

#[test]
fn node_state_and_saver() {
    let n = Node::new(4);
    assert_eq!(n.status, NodeStatus::Follower);
    assert_eq!(n.state(), NodeState { node_id: 4, current_term: 0, vote_for_id: None });
    assert!(MockNodeStateSaver.save_node_state(n.state()).is_ok());
}
