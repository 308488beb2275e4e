use raft::cluster::{Cluster, ClusterConfiguration, ClusterConfigurationInternal};
use raft::configuration;

fn sorted(mut v: Vec<u64>) -> Vec<u64> {
    v.sort();
    v
}

#[test]
fn quorum_is_majority() {
    assert_eq!(ClusterConfiguration::new(vec![1]).quorum_size(), 1);
    assert_eq!(ClusterConfiguration::new(vec![1, 2]).quorum_size(), 2);
    assert_eq!(ClusterConfiguration::new(vec![1, 2, 3]).quorum_size(), 2);
    assert_eq!(ClusterConfiguration::new(vec![1, 2, 3, 4]).quorum_size(), 3);
    assert_eq!(ClusterConfiguration::new(vec![1, 2, 3, 4, 5]).quorum_size(), 3);
}

#[test]
fn duplicates_count_once() {
    let c = ClusterConfigurationInternal::new(vec![3, 1, 3, 2, 1]);
    assert_eq!(sorted(c.all_nodes()), vec![1, 2, 3]);
    assert_eq!(c.quorum_size(), 2);
}

#[test]
fn peers_exclude_the_node() {
    let c = ClusterConfiguration::new(vec![1, 2, 3]);
    assert_eq!(sorted(c.peers(2)), vec![1, 3]);
    assert_eq!(sorted(c.peers(7)), vec![1, 2, 3]);
}

#[test]
fn add_peer_is_idempotent() {
    let mut c = ClusterConfiguration::new(vec![1]);
    c.add_peer(2);
    c.add_peer(2);
    assert_eq!(sorted(c.all_nodes()), vec![1, 2]);
    assert_eq!(c.quorum_size(), 2);
}

#[test]
fn configuration_api() {
    let mut c = configuration::ClusterConfiguration::new(vec![5, 6]);
    c.add_peer(7);
    assert_eq!(c.get_quorum_size(), 2);
    assert_eq!(sorted(c.get_peers(6)), vec![5, 7]);
    assert_eq!(sorted(c.get_all_nodes()), vec![5, 6, 7]);
}

#[test]
fn additions_after_creation_equal_creation_with_all() {
    let mut c = ClusterConfiguration::new(vec![3, 1]);
    c.add_peer(2);
    c.add_peer(1);
    let mut step_by_step = c.all_nodes();
    step_by_step.sort();
    let mut at_once = ClusterConfiguration::new(vec![1, 2, 1, 3]).all_nodes();
    at_once.sort();
    assert_eq!(step_by_step, vec![1, 2, 3]);
    assert_eq!(step_by_step, at_once);
}
