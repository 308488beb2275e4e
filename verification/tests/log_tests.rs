use raft::cluster::{Cluster, ClusterConfiguration};
use raft::log_storage::{AddServerEntryContent, DataEntryDetails, Entry, EntryType, LogStorage, MemoryLogStorage};
use raft::operation_log::{
    DataEntryContent, EntryContent, LogEntry, MemoryOperationLog, NewClusterConfigurationEntryContent,
    OperationLog,
};

fn data_entry(index: u64, term: u64, byte: u8) -> LogEntry {
    LogEntry { index, term, entry_content: EntryContent::Data(DataEntryContent { data: vec![byte] }) }
}

#[test]
fn empty_log_reads_zero() {
    let log = MemoryOperationLog::new(ClusterConfiguration::new(vec![1]));
    assert_eq!(log.last_entry_index(), 0);
    assert_eq!(log.last_entry_term(), 0);
    assert_eq!(log.entry(0), None);
    assert_eq!(log.entry(1), None);
}

#[test]
fn append_then_read_back() {
    let mut log = MemoryOperationLog::new(ClusterConfiguration::new(vec![1]));
    let e1 = log.create_next_entry(3, EntryContent::Data(DataEntryContent { data: vec![7, 8] }));
    assert_eq!(e1.index, 1);
    assert_eq!(e1.term, 3);
    assert!(log.append_entry(e1.clone()).is_ok());
    let e2 = log.create_next_entry(4, EntryContent::Data(DataEntryContent { data: vec![9] }));
    assert_eq!(e2.index, 2);
    assert!(log.append_entry(e2.clone()).is_ok());
    assert_eq!(log.entry(1), Some(e1));
    assert_eq!(log.entry(2), Some(e2));
    assert_eq!(log.entry(3), None);
    assert_eq!(log.last_entry_index(), 2);
    assert_eq!(log.last_entry_term(), 4);
}

#[test]
fn append_replaces_conflicting_suffix() {
    let mut log = MemoryOperationLog::new(ClusterConfiguration::new(vec![1]));
    for i in 1..=4u64 {
        assert!(log.append_entry(data_entry(i, 1, i as u8)).is_ok());
    }
    assert!(log.append_entry(data_entry(2, 5, 42)).is_ok());
    assert_eq!(log.last_entry_index(), 2);
    assert_eq!(log.last_entry_term(), 5);
    assert_eq!(log.entry(1), Some(data_entry(1, 1, 1)));
    assert_eq!(log.entry(2), Some(data_entry(2, 5, 42)));
    assert_eq!(log.entry(3), None);
}

#[test]
fn configuration_entry_adds_servers() {
    let mut log = MemoryOperationLog::new(ClusterConfiguration::new(vec![1]));
    let entry = LogEntry {
        index: 1,
        term: 1,
        entry_content: EntryContent::AddServer(NewClusterConfigurationEntryContent {
            new_cluster_configuration: vec![1, 2, 3],
        }),
    };
    assert!(log.append_entry(entry).is_ok());
    let mut nodes = log.cluster().all_nodes();
    nodes.sort();
    assert_eq!(nodes, vec![1, 2, 3]);
}

#[test]
fn duplicate_copies_entry() {
    let e = data_entry(3, 2, 1);
    assert_eq!(e.duplicate(), e);
}

#[test]
fn memory_log_storage_reads_last_entry() {
    let mut storage = MemoryLogStorage::new();
    assert_eq!(storage.get_last_entry_index(), 0);
    assert_eq!(storage.get_last_entry_term(), 0);
    storage.append_entry(Entry { index: 1, term: 2, entry_type: EntryType::AddServer(AddServerEntryContent { new_server: 4 }) });
    storage.append_entry(Entry { index: 2, term: 3, entry_type: EntryType::Data(DataEntryDetails { bytes: vec![1] }) });
    assert_eq!(storage.get_last_entry_index(), 2);
    assert_eq!(storage.get_last_entry_term(), 3);
}

#[test]
fn append_past_the_end_keeps_positions() {
    let mut log = MemoryOperationLog::new(ClusterConfiguration::new(vec![1]));
    assert!(log.append_entry(data_entry(3, 1, 9)).is_ok());
    assert_eq!(log.last_entry_index(), 3);
    assert_eq!(log.entry(1), Some(data_entry(3, 1, 9)));
    assert_eq!(log.entry(3), None);
    let next = log.create_next_entry(2, EntryContent::Data(DataEntryContent { data: vec![] }));
    assert_eq!(next.index, 4);
}

#[test]
fn next_entry_follows_last_entry() {
    let mut log = MemoryOperationLog::new(ClusterConfiguration::new(vec![1]));
    assert_eq!(log.create_next_entry(1, EntryContent::Data(DataEntryContent { data: vec![] })).index, 1);
    assert!(log.append_entry(data_entry(1, 1, 1)).is_ok());
    assert!(log.append_entry(data_entry(2, 1, 2)).is_ok());
    assert!(log.append_entry(data_entry(2, 2, 3)).is_ok());
    assert_eq!(log.last_entry_index(), 2);
    let next = log.create_next_entry(2, EntryContent::Data(DataEntryContent { data: vec![4] }));
    assert_eq!(next.index, log.last_entry_index() + 1);
    assert_eq!(log.last_entry_index(), 2);
    assert_eq!(log.cluster().all_nodes(), vec![1]);
}

#[test]
fn configuration_entries_reach_the_kept_configuration() {
    let mut log = MemoryOperationLog::new(ClusterConfiguration::new(vec![1]));
    let config = LogEntry {
        index: 1,
        term: 1,
        entry_content: EntryContent::AddServer(NewClusterConfigurationEntryContent { new_cluster_configuration: vec![2, 3] }),
    };
    assert!(log.append_entry(config).is_ok());
    assert_eq!(log.cluster().quorum_size(), 2);
    let mut peers = log.cluster().peers(1);
    peers.sort();
    assert_eq!(peers, vec![2, 3]);
    log.cluster_mut().add_peer(4);
    assert_eq!(log.cluster().quorum_size(), 3);
    assert!(log.append_entry(data_entry(2, 1, 7)).is_ok());
    let mut nodes = log.cluster().all_nodes();
    nodes.sort();
    assert_eq!(nodes, vec![1, 2, 3, 4]);
    assert_eq!(log.entry(1).map(|e| e.index), Some(1));
}
