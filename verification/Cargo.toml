[package]
name = "raft"
version = "0.1.0"
edition = "2021"
publish = false

[dependencies]
rand = "=0.7.3"
crossbeam-channel = "=0.3.9"
log = "=0.4.35"
env_logger = "=0.6.2"
chrono = "=0.4.45"
rayon = "=1.12.0"
parking_lot = "=0.9.0"
derive_more = "=0.15.0"
futures = "=0.1.31"
tokio = "=0.1.22"
hyper = "=0.12.36"
http = "=0.1.21"
prost = "=0.5.0"
bytes = "=0.4.12"
tower = "=0.1.1"
tower-grpc = "=0.1.1"
tower-hyper = "=0.1.1"
tower-request-modifier = "=0.1.0"
tower-util = "=0.1.0"
