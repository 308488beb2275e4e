//! Cluster membership: the set of node ids and the quorum rule (a strict
//! majority of the nodes).

use vstd::prelude::*;
use std::collections::HashMap;
use vstd::std_specs::iter::IteratorSpec;

verus! {

broadcast use vstd::std_specs::hash::group_hash_axioms;

/// The quorum of a cluster of `node_count` nodes, as the node count is taken
/// into a `u32`: half of it plus one.
pub open spec fn majority_quorum(node_count: nat) -> int {
    (node_count as u32) / 2 + 1
}

/// The members of a cluster, held as the key set of a map. Two
/// configurations are equal when they hold the same nodes.
#[derive(Clone, Debug, PartialEq, Eq)]
pub struct ClusterConfigurationInternal {
    nodes_id_map: HashMap<u64, ()>,
}

impl View for ClusterConfigurationInternal {
    type V = Set<u64>;

    closed spec fn view(&self) -> Set<u64> {
        self.nodes_id_map@.dom()
    }
}

impl ClusterConfigurationInternal {
    /// The node set is finite.
    pub proof fn lemma_finite(&self)
        ensures
            self@.finite(),
    {
        assert(self.nodes_id_map@.dom().finite());
    }

    /// Creates a configuration with the given nodes; a repeated id counts once.
    pub fn new(peers: Vec<u64>) -> (c: ClusterConfigurationInternal)
        ensures
            c@ == peers@.to_set(),
    {
        let mut cluster_config = ClusterConfigurationInternal { nodes_id_map: HashMap::new() };
        let mut i: usize = 0;
        while i < peers.len()
            invariant
                i <= peers.len(),
                cluster_config@ == peers@.subrange(0, i as int).to_set(),
            decreases peers.len() - i,
        {
            proof {
                assert(peers@.subrange(0, i as int + 1) =~= peers@.subrange(0, i as int).push(
                    peers@[i as int],
                ));
                peers@.subrange(0, i as int).lemma_push_to_set_commute(peers@[i as int]);
            }
            cluster_config.add_peer(peers[i]);
            i = i + 1;
        }
        assert(peers@.subrange(0, peers.len() as int) =~= peers@);
        cluster_config
    }

    /// Adds a node; adding a node that is already there changes nothing.
    pub fn add_peer(&mut self, peer: u64)
        ensures
            final(self)@ == old(self)@.insert(peer),
    {
        self.nodes_id_map.insert(peer, ());
    }

    /// The number of nodes.
    pub fn node_count(&self) -> (n: usize)
        ensures
            n == self@.len(),
    {
        self.nodes_id_map.len()
    }


}

/// Cluster membership and the quorum rule, as a Raft node consults them.
pub trait Cluster {
    /// The ids of the nodes of the cluster.
    spec fn node_set(&self) -> Set<u64>;

    /// The quorum rule's number of votes for this cluster.
    spec fn quorum_of(&self) -> int;

    /// The number of votes, the node's own included, that decide a request.
    fn quorum_size(&self) -> (q: u32)
        requires
            (self.node_set().len() as u32) != 0,
        ensures
            q == self.quorum_of(),
    ;

    /// All nodes of the cluster, each once.
    fn all_nodes(&self) -> (r: Vec<u64>)
        ensures
            r@.to_set() == self.node_set(),
            r@.no_duplicates(),
    ;

    /// All nodes but the given one, each once.
    fn peers(&self, node_id: u64) -> (r: Vec<u64>)
        ensures
            r@.to_set() == self.node_set().remove(node_id),
            r@.no_duplicates(),
    ;
}

impl Cluster for ClusterConfigurationInternal {
    open spec fn node_set(&self) -> Set<u64> {
        self@
    }

    open spec fn quorum_of(&self) -> int {
        majority_quorum(self@.len())
    }

    /// The quorum: a strict majority of the nodes (half of the node count,
    /// taken into a `u32`, plus one). A cluster without nodes has no quorum.
    fn quorum_size(&self) -> (q: u32)
        ensures
            q == majority_quorum(self@.len()),
    {
        let node_count = self.nodes_id_map.len() as u32;
        let half = node_count / 2;
        half + 1
    }

    /// All nodes but the given one, each once, in no particular order.
    fn peers(&self, node_id: u64) -> (r: Vec<u64>)
        ensures
            r@.to_set() == self@.remove(node_id),
            r@.no_duplicates(),
    {
        let all = self.all_nodes();
        let mut peer_ids: Vec<u64> = Vec::new();
        let mut i: usize = 0;
        while i < all.len()
            invariant
                i <= all.len(),
                all@.no_duplicates(),
                peer_ids@.no_duplicates(),
                peer_ids@.to_set() == all@.subrange(0, i as int).to_set().remove(node_id),
            decreases all.len() - i,
        {
            let x = all[i];
            proof {
                assert(all@.subrange(0, i as int + 1) =~= all@.subrange(0, i as int).push(x));
                all@.subrange(0, i as int).lemma_push_to_set_commute(x);
                assert(!all@.subrange(0, i as int).contains(x)) by {
                    if all@.subrange(0, i as int).contains(x) {
                        let j = choose|j: int| 0 <= j < i && all@.subrange(0, i as int)[j] == x;
                        assert(all@[j] == all@[i as int]);
                    }
                }
            }
            if x != node_id {
                proof {
                    peer_ids@.lemma_push_to_set_commute(x);
                    assert forall|a: int, b: int| 0 <= a < b < peer_ids@.len() + 1 implies
                        peer_ids@.push(x)[a] != peer_ids@.push(x)[b] by {
                        if b == peer_ids@.len() {
                            assert(peer_ids@.to_set().contains(peer_ids@[a]));
                        }
                    }
                }
                peer_ids.push(x);
            }
            proof {
                assert(peer_ids@.to_set() =~= all@.subrange(0, i as int + 1).to_set().remove(node_id));
            }
            i = i + 1;
        }
        assert(all@.subrange(0, all.len() as int) =~= all@);
        peer_ids
    }

    /// All nodes of the cluster, each once, in no particular order.
    fn all_nodes(&self) -> (r: Vec<u64>)
        ensures
            r@.to_set() == self@,
            r@.no_duplicates(),
    {
        let mut result: Vec<u64> = Vec::new();
        let ghost keys = vstd::std_specs::hash::spec_keys_iter(&self.nodes_id_map).remaining();
        for k in it: self.nodes_id_map.keys()
            invariant
                it.seq() == keys,
                result@ == it.seq().take(it.index()).map_values(|x: &u64| *x),
        {
            proof {
                assert(it.seq().take(it.index() + 1) =~= it.seq().take(it.index()).push(it.seq()[it.index()]));
            }
            result.push(*k);
            assert(result@ =~= it.seq().take(it.index() + 1).map_values(|x: &u64| *x));
        }
        proof {
            assert(keys.take(keys.len() as int) =~= keys);
            assert(keys.unref() =~= keys.map_values(|x: &u64| *x));
        }
        result
    }
}

/// A cluster configuration that a node owns: the ids of the cluster's nodes,
/// with a strict majority as quorum. A clone is an independent snapshot:
/// nodes added to one clone are not seen by another. A node keeps one
/// configuration, the one its operation log holds (see
/// `MemoryOperationLog::cluster`).
#[derive(Clone, Debug)]
pub struct ClusterConfiguration {
    cluster: ClusterConfigurationInternal,
}

impl View for ClusterConfiguration {
    type V = Set<u64>;

    closed spec fn view(&self) -> Set<u64> {
        self.cluster@
    }
}

impl ClusterConfiguration {
    /// The node set is finite.
    pub proof fn lemma_finite(&self)
        ensures
            self@.finite(),
    {
        self.cluster.lemma_finite();
    }

    /// Creates a configuration with the given nodes; a repeated id counts once.
    pub fn new(peers: Vec<u64>) -> (c: ClusterConfiguration)
        ensures
            c@ == peers@.to_set(),
    {
        ClusterConfiguration { cluster: ClusterConfigurationInternal::new(peers) }
    }

    /// Adds a node; adding a node that is already there changes nothing.
    pub fn add_peer(&mut self, peer: u64)
        ensures
            final(self)@ == old(self)@.insert(peer),
    {
        self.cluster.add_peer(peer);
    }
}

impl Cluster for ClusterConfiguration {
    open spec fn node_set(&self) -> Set<u64> {
        self@
    }

    open spec fn quorum_of(&self) -> int {
        majority_quorum(self@.len())
    }

    fn quorum_size(&self) -> (q: u32)
        ensures
            q == majority_quorum(self@.len()),
    {
        self.cluster.quorum_size()
    }

    fn all_nodes(&self) -> (r: Vec<u64>) {
        self.cluster.all_nodes()
    }

    fn peers(&self, node_id: u64) -> (r: Vec<u64>) {
        self.cluster.peers(node_id)
    }
}

/// The nodes after adding each of `added`, in order, to the nodes `nodes`
/// (one `add_peer` after another).
pub open spec fn after_additions(nodes: Set<u64>, added: Seq<u64>) -> Set<u64>
    decreases added.len(),
{
    if added.len() == 0 {
        nodes
    } else {
        after_additions(nodes, added.drop_last()).insert(added.last())
    }
}

/// A configuration made from `peers` and then given the nodes `added`, one
/// after another, holds exactly the nodes of both: the same as one made from
/// `peers` followed by `added` at once, whatever the order of the ids and
/// however often one repeats.
pub proof fn lemma_configuration_additions(peers: Seq<u64>, added: Seq<u64>)
    ensures
        after_additions(peers.to_set(), added) == (peers + added).to_set(),
        forall|x: u64|
            #[trigger] after_additions(peers.to_set(), added).contains(x) <==> (peers.contains(x)
                || added.contains(x)),
    decreases added.len(),
{
    if added.len() == 0 {
        assert(peers + added =~= peers);
    } else {
        let d = added.drop_last();
        lemma_configuration_additions(peers, d);
        assert(peers + added =~= (peers + d).push(added.last()));
        (peers + d).lemma_push_to_set_commute(added.last());
    }
    assert forall|x: u64| #[trigger] after_additions(peers.to_set(), added).contains(x) <==> (
    peers.contains(x) || added.contains(x)) by {
        if peers.contains(x) {
            let i = choose|i: int| 0 <= i < peers.len() && peers[i] == x;
            assert((peers + added)[i] == x);
        }
        if added.contains(x) {
            let i = choose|i: int| 0 <= i < added.len() && added[i] == x;
            assert((peers + added)[peers.len() + i] == x);
        }
        if (peers + added).contains(x) {
            let i = choose|i: int| 0 <= i < (peers + added).len() && (peers + added)[i] == x;
            if i < peers.len() {
                assert(peers[i] == x);
            } else {
                assert(added[i - peers.len()] == x);
            }
        }
    }
}

/// Membership is a set: adding a node that is there changes nothing, and a
/// node is never among its own peers.
pub proof fn lemma_membership_is_a_set(nodes: Set<u64>, node_id: u64, peer: u64)
    ensures
        nodes.contains(peer) ==> nodes.insert(peer) == nodes,
        !nodes.remove(node_id).contains(node_id),
        peer != node_id ==> (nodes.remove(node_id).contains(peer) <==> nodes.contains(peer)),
{
    if nodes.contains(peer) {
        assert(nodes.insert(peer) =~= nodes);
    }
}

/// The quorum rule is a strict majority: two quorums are more than the
/// nodes, a quorum is no more than the nodes, and one fewer than a quorum is
/// not a majority (for a node count that fits a `u32`).
pub proof fn lemma_quorum_is_majority(node_count: nat)
    requires
        1 <= node_count <= u32::MAX,
    ensures
        2 * majority_quorum(node_count) > node_count,
        majority_quorum(node_count) <= node_count,
        2 * (majority_quorum(node_count) - 1) <= node_count,
{
}

/// Any two quorums of a cluster share a node: two sets of nodes, each at
/// least a quorum, overlap.
pub proof fn lemma_quorums_intersect(nodes: Set<u64>, a: Set<u64>, b: Set<u64>)
    requires
        nodes.finite(),
        1 <= nodes.len() <= u32::MAX,
        a.subset_of(nodes),
        b.subset_of(nodes),
        a.len() >= majority_quorum(nodes.len()),
        b.len() >= majority_quorum(nodes.len()),
    ensures
        exists|n: u64| a.contains(n) && b.contains(n),
{
    vstd::set_lib::lemma_len_subset(a, nodes);
    vstd::set_lib::lemma_len_subset(b, nodes);
    vstd::set_lib::lemma_len_subset(a.union(b), nodes);
    if !(exists|n: u64| a.contains(n) && b.contains(n)) {
        assert(a.disjoint(b));
        vstd::set_lib::lemma_set_disjoint_lens(a, b);
        assert(a + b == a.union(b));
    }
}

} // verus!
