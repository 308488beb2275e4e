//! Where peers listen: node ids to network addresses.

use vstd::prelude::*;
use vstd::string::*;
use std::collections::HashMap;

use crate::decimal::{decimal, decimal_string};

verus! {

broadcast use vstd::std_specs::hash::group_hash_axioms;

/// Finds the network address of a node.
pub trait PeerCommunicatorServiceDiscovery {
    /// Whether the address of the node is known.
    spec fn knows(&self, node_id: u64) -> bool;

    /// Whether the address of the node is known, tested.
    fn knows_node(&self, node_id: u64) -> (r: bool)
        ensures
            r == self.knows(node_id),
    ;

    /// The address of a known node.
    fn get_address(&self, node_id: u64) -> String
        requires
            self.knows(node_id),
    ;
}

/// Addresses from a fixed table.
#[derive(Clone, Debug)]
pub struct StaticTableServiceDiscovery {
    table: HashMap<u64, String>,
}

impl StaticTableServiceDiscovery {
    /// The table of addresses.
    pub closed spec fn table_view(&self) -> Map<u64, String> {
        self.table@
    }

    /// Discovery from the given table.
    pub fn new(table: HashMap<u64, String>) -> (d: StaticTableServiceDiscovery)
        ensures
            d.table_view() == table@,
    {
        StaticTableServiceDiscovery { table }
    }
}

impl PeerCommunicatorServiceDiscovery for StaticTableServiceDiscovery {
    /// A node is known when the table has it.
    open spec fn knows(&self, node_id: u64) -> bool {
        self.table_view().contains_key(node_id)
    }

    fn knows_node(&self, node_id: u64) -> (r: bool) {
        self.table.contains_key(&node_id)
    }

    fn get_address(&self, node_id: u64) -> (a: String)
        ensures
            a@ == self.table_view()[node_id]@,
    {
        self.table.get(&node_id).unwrap().clone()
    }
}

/// "127.0.0.1:" followed by the decimal port.
pub open spec fn local_address(port: nat) -> Seq<char> {
    "127.0.0.1:"@ + decimal(port)
}

/// The address on which a node takes requests from its peers: port 60000
/// plus the node id on 127.0.0.1.
pub fn get_peer_requests_address(node_id: u64) -> (a: String)
    requires
        node_id <= u64::MAX - 60000,
    ensures
        a@ == local_address((60000 + node_id) as nat),
{
    let mut a = String::from_str("127.0.0.1:");
    let port = decimal_string(60000 + node_id);
    a.append(port.as_str());
    a
}

/// The address on which a node takes requests from clients: port 50000
/// plus the node id on 127.0.0.1.
pub fn get_client_requests_address(node_id: u64) -> (a: String)
    requires
        node_id <= u64::MAX - 50000,
    ensures
        a@ == local_address((50000 + node_id) as nat),
{
    let mut a = String::from_str("127.0.0.1:");
    let port = decimal_string(50000 + node_id);
    a.append(port.as_str());
    a
}

/// The timeout of requests between nodes and clients, in milliseconds.
pub fn get_communication_timeout() -> (ms: u64)
    ensures
        ms == 500,
{
    500
}

} // verus!
