//! Raft consensus: the decisions of a Raft node (elections, votes, quorum
//! counting, cluster membership, the operation log and the replicated state
//! machine), each stated by a contract and proved.

pub mod decimal;
pub mod errors;
pub mod cluster;
pub mod configuration;
pub mod log_storage;
pub mod operation_log;
pub mod messages;
pub mod consensus;
pub mod node;
pub mod leadership;
pub mod rsm;
pub mod timers;
pub mod discovery;
pub mod grpc_messages;
pub mod ruft_errors;
pub mod services;
