//! What nodes tell each other, and what a node keeps about its peers.

use crate::peer_map::PeerMap;
use libp2p::PeerId;
use vstd::prelude::*;

verus! {

/// How a peer has behaved, as far as this library reads it.
///
/// How a score moves is up to the scoring that the node runs. What counts here is which of two scores is
/// the higher one, and whether a score bans its peer.
#[derive(Debug, Clone, Copy, PartialEq, Eq, Structural)]
pub struct Score {
    /// Orders scores: the higher, the better.
    pub rank: i64,
    /// Whether a peer with this score is banned.
    pub banned: bool,
}

impl Default for Score {
    /// The score of a peer that nothing is known of.
    fn default() -> (s: Self)
        ensures
            s == (Score { rank: 0, banned: false }),
    {
        Score { rank: 0, banned: false }
    }
}

impl Score {
    /// Whether a peer with this score is banned.
    pub fn is_banned(&self) -> (r: bool)
        ensures
            r == self.banned,
    {
        self.banned
    }
}

/// What a peer is reported for.
#[derive(Debug, Clone, Copy, PartialEq, Eq, Structural)]
pub enum PeerAction {
    /// An offence that no peer is forgiven.
    Fatal,
    /// An offence that is tolerated few times.
    LowToleranceError,
    /// An offence that is tolerated some times.
    MidToleranceError,
    /// An offence that is tolerated many times.
    HighToleranceError,
}

/// What a peer has said of the blocks that it holds.
#[derive(Debug, Clone, Copy, PartialEq, Eq, Structural)]
pub struct PeerStatus {
    /// The height of its newest block.
    pub head_block: u64,
    /// The height up to which it has dropped blocks.
    pub last_pruned_block: Option<u64>,
    /// Whether it holds the bodies of the transactions.
    pub has_tx_bodies: bool,
}

/// What a node keeps about a peer.
#[derive(Debug, Clone, Copy, PartialEq, Eq, Structural)]
pub struct PeerInfo {
    /// Whether a connection to it is open.
    pub is_connected: bool,
    /// What it last said of its blocks.
    pub status: Option<PeerStatus>,
    /// How it has behaved.
    pub score: Score,
}

/// What is kept about a peer before anything is known of it.
pub open spec fn fresh_peer() -> PeerInfo {
    PeerInfo { is_connected: false, status: None, score: Score { rank: 0, banned: false } }
}

impl Default for PeerInfo {
    fn default() -> (i: Self)
        ensures
            i == fresh_peer(),
    {
        PeerInfo { is_connected: false, status: None, score: Score::default() }
    }
}

/// What the parts of a node share about the network.
pub struct NetworkGlobals {
    /// The peers that are known, connected or not.
    pub peers: PeerMap<PeerInfo>,
}

impl NetworkGlobals {
    /// Knows no peer.
    pub fn new() -> (g: Self)
        ensures
            g.peers@ == Map::<PeerId, PeerInfo>::empty(),
    {
        NetworkGlobals { peers: PeerMap::new() }
    }
}

impl Default for NetworkGlobals {
    fn default() -> (g: Self)
        ensures
            g.peers@ == Map::<PeerId, PeerInfo>::empty(),
    {
        NetworkGlobals::new()
    }
}

/// What the rest of the node asks of the network.
#[derive(Debug, PartialEq, Eq)]
pub enum NetworkRequest {
    /// Publish `message` under `topic`.
    PublishMessage { topic: String, message: Vec<u8> },
    /// Add a peer.
    AddPeer(PeerId),
    /// Remove a peer.
    RemovePeer(PeerId),
    /// Ask a peer for the blocks from `start` to `end`, both included.
    GetL2BlockRange { peer_id: PeerId, start: u64, end: u64 },
    /// Report what a peer has done.
    ReportPeer(PeerId, PeerAction),
    /// Ask a peer for its status.
    GetPeerStatus(PeerId),
}

}
