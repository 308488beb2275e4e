use raft::grpc_messages::{
    self, append_entries_request_from_grpc, append_entries_request_to_grpc, client_response_from_grpc,
    client_response_to_grpc, log_entry_from_grpc, log_entry_to_grpc, vote_request_from_grpc, vote_request_to_grpc,
    vote_response_from_grpc, vote_response_to_grpc,
};
use raft::messages::{AppendEntriesRequest, ClientResponseStatus, ClientRpcResponse, VoteRequest, VoteResponse};
use raft::operation_log::{DataEntryContent, EntryContent, LogEntry, NewClusterConfigurationEntryContent};

fn entries() -> Vec<LogEntry> {
    vec![
        LogEntry { index: 1, term: 1, entry_content: EntryContent::Data(DataEntryContent { data: vec![1, 2] }) },
        LogEntry {
            index: 2,
            term: 2,
            entry_content: EntryContent::AddServer(NewClusterConfigurationEntryContent { new_cluster_configuration: vec![4, 5] }),
        },
    ]
}

#[test]
fn log_entries_on_the_wire() {
    let e = entries();
    let w0 = log_entry_to_grpc(&e[0]);
    assert_eq!(w0.content_type, 1);
    assert_eq!(w0.data, vec![1, 2]);
    assert!(w0.new_cluster_configuration.is_empty());
    let w1 = log_entry_to_grpc(&e[1]);
    assert_eq!(w1.content_type, 2);
    assert!(w1.data.is_empty());
    assert_eq!(w1.new_cluster_configuration, vec![4, 5]);
    assert_eq!(log_entry_from_grpc(w0), e[0]);
    assert_eq!(log_entry_from_grpc(w1), e[1]);
}

#[test]
fn append_entries_round_trip() {
    let r = AppendEntriesRequest { term: 3, prev_log_term: 2, prev_log_index: 7, leader_id: 1, leader_commit: 6, entries: entries() };
    let w = append_entries_request_to_grpc(r.clone());
    assert_eq!(w.entries.len(), 2);
    assert_eq!(w.prev_log_index, 7);
    assert_eq!(append_entries_request_from_grpc(w), r);
}

#[test]
fn votes_on_the_wire() {
    let r = VoteRequest { term: 4, candidate_id: 2, last_log_term: 3, last_log_index: 9 };
    assert_eq!(vote_request_from_grpc(&vote_request_to_grpc(r)), r);
    let v = VoteResponse { term: 4, vote_granted: true, peer_id: 3 };
    assert_eq!(vote_response_from_grpc(&vote_response_to_grpc(v)), v);
}

#[test]
fn client_responses_on_the_wire() {
    let w = grpc_messages::ClientRpcResponse { status: 2, current_leader: 0, message: "m".to_string() };
    let r = client_response_from_grpc(&w);
    assert_eq!(r.status, ClientResponseStatus::NotLeader);
    assert_eq!(r.current_leader, None);
    assert_eq!(r.message, "m");
    let w = grpc_messages::ClientRpcResponse { status: 3, current_leader: 5, message: String::new() };
    let r = client_response_from_grpc(&w);
    assert_eq!(r.status, ClientResponseStatus::NoQuorum);
    assert_eq!(r.current_leader, Some(5));
    let out = client_response_to_grpc(ClientRpcResponse { status: ClientResponseStatus::Error, current_leader: Some(2), message: "x".to_string() });
    assert_eq!(out.status, 4);
    assert_eq!(out.current_leader, 2);
    assert_eq!(out.message, "x");
}

#[test]
fn client_responses_come_back_as_sent() {
    let statuses = [
        (ClientResponseStatus::Success, 1),
        (ClientResponseStatus::NotLeader, 2),
        (ClientResponseStatus::NoQuorum, 3),
        (ClientResponseStatus::Error, 4),
    ];
    for (status, code) in statuses.iter() {
        for leader in [None, Some(7u64)].iter() {
            let sent = ClientRpcResponse { status: *status, current_leader: *leader, message: "why".to_string() };
            let w = client_response_to_grpc(sent.clone());
            assert_eq!(w.status, *code);
            assert_eq!(client_response_from_grpc(&w), sent);
        }
    }
}
