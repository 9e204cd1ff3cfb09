//! What nodes ask each other, and what they answer.

use libp2p::PeerId;
use vstd::prelude::*;

verus! {

/// The name of the protocol by which nodes ask for the status of each other.
pub const STATUS_PROTOCOL: &'static str = "/eth2/beacon_chain/req/status/1/json";

/// The name of the protocol by which nodes ask each other for blocks.
pub const BLOCKS_BY_RANGE_PROTOCOL: &'static str = "/eth2/beacon_chain/req/beacon_blocks_by_range/2/json";

/// A request for the blocks from `start` to `end`, both included.
#[derive(Debug, Clone, Copy, PartialEq, Eq, Structural)]
pub struct BlocksByRangeRequest {
    /// The first block.
    pub start: u64,
    /// The last block.
    pub end: u64,
}

/// What a node asks another.
#[derive(Debug, Clone, Copy, PartialEq, Eq, Structural)]
pub enum Eth2Request {
    /// What blocks it holds.
    Status,
    /// For blocks.
    BlocksByRange(BlocksByRangeRequest),
}

/// What blocks a node holds.
#[derive(Debug, Clone, Copy, PartialEq, Eq, Structural)]
pub struct StatusResponse {
    /// The height of its newest block.
    pub head_block: u64,
    /// The height up to which it has dropped blocks.
    pub last_pruned_block: Option<u64>,
}

/// What a node answers. `B` is a block.
#[derive(Debug, PartialEq, Eq)]
pub enum Eth2Response<B> {
    /// What blocks it holds.
    Status(StatusResponse),
    /// Blocks.
    BlocksByRange(Vec<B>),
}

/// What the network tells the part of a node that takes blocks over. `B` is a block.
#[derive(Debug, PartialEq, Eq)]
pub enum L2SyncMessage<B> {
    /// A peer has gossiped a block.
    GossipBlock(PeerId, B),
    /// A peer has sent blocks that it was asked for.
    BlockBatch(PeerId, Vec<B>),
    /// A peer is new.
    NewPeer(PeerId),
    /// A peer is gone.
    DisconnectPeer(PeerId),
    /// A peer has told its status.
    PeerStatus(StatusResponse),
}

}
