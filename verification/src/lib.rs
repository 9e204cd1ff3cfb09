//! The network of a node: its settings, the peers it keeps, how it finds and asks them, and what it answers.
//!
//! What the library decides is proved; what is done about it, such as to dial a peer, to read a file or to wait, is
//! up to who uses it. Times are nanoseconds of one clock.

pub mod addr;
pub mod config;
pub mod discovery;
pub mod enr;
pub mod error;
pub mod gossip;
pub mod network;
pub mod outside;
pub mod peer_manager;
pub mod peer_map;
pub mod rpc;
pub mod secret;
pub mod service;
pub mod sync_manager;
pub mod text;
pub mod types;
