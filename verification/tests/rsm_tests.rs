use raft::cluster::ClusterConfiguration;
use raft::operation_log::{
    DataEntryContent, EntryContent, LogEntry, MemoryOperationLog, NewClusterConfigurationEntryContent, OperationLog,
};
use raft::rsm::{process_update_fsm_request, update_fsm_ends, MemoryFsm, MemoryRsm, ReplicatedStateMachine};

fn data(index: u64, byte: u8) -> LogEntry {
    LogEntry { index, term: 1, entry_content: EntryContent::Data(DataEntryContent { data: vec![byte] }) }
}

fn bytes(rsm: &MemoryRsm) -> Vec<Vec<u8>> {
    rsm.data().iter().map(|d| d.data.clone()).collect()
}

#[test]
fn apply_skips_applied_entries() {
    let mut rsm = MemoryRsm::new();
    assert!(rsm.apply_entry(data(1, 10)).is_ok());
    assert!(rsm.apply_entry(data(1, 11)).is_ok());
    assert_eq!(rsm.get_last_applied_entry_index(), 1);
    assert_eq!(bytes(&rsm), vec![vec![10]]);
    let config = LogEntry {
        index: 2,
        term: 1,
        entry_content: EntryContent::AddServer(NewClusterConfigurationEntryContent { new_cluster_configuration: vec![4] }),
    };
    assert!(rsm.apply_entry(config).is_ok());
    assert_eq!(rsm.get_last_applied_entry_index(), 2);
    assert_eq!(bytes(&rsm), vec![vec![10]]);
}

#[test]
fn memory_fsm_applies_like_rsm() {
    let mut fsm = MemoryFsm::new();
    assert!(fsm.apply_entry(data(3, 1)).is_ok());
    assert!(fsm.apply_entry(data(2, 2)).is_ok());
    assert_eq!(fsm.get_last_applied_entry_index(), 3);
    assert_eq!(fsm.data().len(), 1);
}

fn log_of(n: u64) -> MemoryOperationLog {
    let mut log = MemoryOperationLog::new(ClusterConfiguration::new(vec![1]));
    for i in 1..=n {
        assert!(log.append_entry(data(i, i as u8)).is_ok());
    }
    log
}

#[test]
fn update_applies_up_to_commit_index() {
    let log = log_of(5);
    let mut rsm = MemoryRsm::new();
    assert!(process_update_fsm_request(&log, &mut rsm, 3).is_ok());
    assert_eq!(rsm.get_last_applied_entry_index(), 3);
    assert_eq!(bytes(&rsm), vec![vec![1], vec![2], vec![3]]);
    assert!(process_update_fsm_request(&log, &mut rsm, 2).is_ok());
    assert_eq!(rsm.get_last_applied_entry_index(), 3);
}

#[test]
fn update_stops_at_log_end() {
    let log = log_of(2);
    let mut rsm = MemoryRsm::new();
    assert!(process_update_fsm_request(&log, &mut rsm, 10).is_ok());
    assert_eq!(rsm.get_last_applied_entry_index(), 2);
    assert_eq!(log.last_entry_index(), 2);
}

#[test]
fn update_follows_entries_above_their_positions() {
    let mut log = MemoryOperationLog::new(ClusterConfiguration::new(vec![1]));
    assert!(log.append_entry(data(1, 1)).is_ok());
    assert!(log.append_entry(data(4, 4)).is_ok());
    assert!(log.append_entry(data(5, 5)).is_ok());
    let mut rsm = MemoryRsm::new();
    assert!(update_fsm_ends(&log, &rsm, 3));
    assert!(process_update_fsm_request(&log, &mut rsm, 3).is_ok());
    assert_eq!(rsm.get_last_applied_entry_index(), 4);
    assert_eq!(bytes(&rsm), vec![vec![1], vec![4]]);
}

#[test]
fn update_from_an_applied_index_inside_a_gap() {
    let mut log = MemoryOperationLog::new(ClusterConfiguration::new(vec![1]));
    assert!(log.append_entry(data(1, 1)).is_ok());
    assert!(log.append_entry(data(4, 4)).is_ok());
    assert!(log.append_entry(data(5, 5)).is_ok());
    let mut rsm = MemoryRsm::new();
    assert!(rsm.apply_entry(data(2, 2)).is_ok());
    assert!(update_fsm_ends(&log, &rsm, 4));
    assert!(process_update_fsm_request(&log, &mut rsm, 4).is_ok());
    assert_eq!(rsm.get_last_applied_entry_index(), 5);
    assert_eq!(bytes(&rsm), vec![vec![2], vec![5]]);
    let indexed = log_of(4);
    assert!(update_fsm_ends(&indexed, &rsm, 4));
}

#[test]
fn memory_fsm_default_is_empty() {
    let fsm = MemoryFsm::default();
    assert_eq!(fsm.get_last_applied_entry_index(), 0);
    assert!(fsm.data().is_empty());
}

