//! What a node does about the events of the peer-to-peer network.

use crate::config::NetworkConfig;
use crate::outside::{multiaddr_of_text, multiaddr_parse};
use crate::peer_manager::{
    connected_ones, decayed, lemma_worth_dialing, report_outcome, with_score, worth_dialing, HeartbeatResult, PeerManager,
    ReportPeerResult,
};
use crate::peer_map::PeerMap;
use crate::rpc::{Eth2Request, Eth2Response};
use crate::text::{decimal, law_decimal_reads_back, to_decimal, uint_value, ParseUintError};
use crate::types::{fresh_peer, NetworkGlobals, PeerAction, PeerInfo, Score};
use libp2p::{Multiaddr, PeerId};
use std::collections::HashMap;
use vstd::prelude::*;
use vstd::string::*;

verus! {

broadcast use vstd::std_specs::hash::group_hash_axioms;

/// The topic under which new blocks are gossiped.
pub const NEW_HEAD_TOPIC: &'static str = "new-head";

/// Where a node listens for datagrams.
pub const LISTEN_ADDRESS_QUIC: &'static str = "/ip4/0.0.0.0/udp/0/quic-v1";

/// Where a node listens for streams.
pub const LISTEN_ADDRESS_TCP: &'static str = "/ip4/0.0.0.0/tcp/0";

/// An event of requests and responses. `B` is a block, `C` is what a response is sent by.
pub enum Eth2RpcEvent<B, C> {
    /// A peer asks something.
    Request { request_id: u64, request: Eth2Request, channel: C },
    /// A peer answers.
    Response { peer: PeerId, request_id: u64, response: Eth2Response<B> },
    /// A request did not get through, or was not answered.
    OutboundFailure { peer: PeerId, request_id: u64 },
    /// A request could not be answered.
    InboundFailure { request_id: u64 },
    /// An answer is on its way.
    ResponseSent,
}

/// An event of discovery in the local network.
pub enum MdnsEvent {
    /// Peers were found.
    Discovered(Vec<(PeerId, Multiaddr)>),
    /// Peers are no longer there.
    Expired,
}

/// An event of gossip. `B` is a block.
pub enum GossipsubEvent<B> {
    /// A message came. `block` is the block that it holds, if it holds one.
    Message { propagation_source: PeerId, message_id: Vec<u8>, block: Option<B> },
    /// A peer does not gossip.
    GossipsubNotSupported { peer_id: PeerId },
    /// A peer is slow.
    SlowPeer { peer_id: PeerId },
    /// A peer takes part in a topic.
    Subscribed,
    /// A peer takes no more part in a topic.
    Unsubscribed,
}

/// An event of the peer-to-peer network. `B` is a block, `C` is what a response is sent by.
pub enum SwarmEvent<B, C> {
    /// Of requests and responses.
    Eth2Rpc(Eth2RpcEvent<B, C>),
    /// Of discovery in the local network.
    Mdns(MdnsEvent),
    /// Of gossip.
    Gossipsub(GossipsubEvent<B>),
    /// The node listens at one more address.
    NewListenAddr,
    /// A connection is open.
    ConnectionEstablished { peer_id: PeerId, connection_id: usize },
    /// A connection is closed.
    ConnectionClosed { peer_id: PeerId, connection_id: usize },
    /// Anything else.
    Other,
}

/// What the rest of the node is told of the network. `B` is a block.
#[derive(Debug, PartialEq, Eq)]
pub enum NetworkEvent<B> {
    /// A block was gossiped.
    GossipBlock { peer_id: PeerId, l2_block_response: B, message_id: Vec<u8> },
    /// A peer asks something.
    RequestReceived { request_id: u64, request: Eth2Request },
    /// A peer has answered.
    ResponseReceived { peer_id: PeerId, response: Eth2Response<B> },
    /// A request to a peer has failed.
    RPCFailed { peer_id: PeerId, request: Eth2Request },
    /// Peers are new.
    NewPeers(Vec<PeerId>),
    /// A peer is gone.
    DisconnectPeer(PeerId),
}

/// What an event of the peer-to-peer network leads to. `B` is a block.
#[derive(Debug, PartialEq, Eq)]
pub enum NetworkStep<B> {
    /// The rest of the node is told this.
    Event(NetworkEvent<B>),
    /// These peers are dialed, in this order.
    Dial(Vec<(PeerId, Multiaddr)>),
    /// The message is rejected, and not passed on.
    Reject { propagation_source: PeerId, message_id: Vec<u8> },
    /// Nothing more is to be done.
    Continue,
}

/// `ids` without `id`.
pub open spec fn without(ids: Seq<usize>, id: usize) -> Seq<usize> {
    ids.filter(|c: usize| c != id)
}

/// The connections that are left when one is closed: a peer without any has no entry.
pub open spec fn without_connection(
    connections: Map<PeerId, Seq<usize>>,
    peer: PeerId,
    connection: usize,
) -> Map<PeerId, Seq<usize>> {
    if connections.dom().contains(peer) {
        let rest = without(connections[peer], connection);
        if rest.len() == 0 {
            connections.remove(peer)
        } else {
            connections.insert(peer, rest)
        }
    } else {
        connections
    }
}

/// The connections when one more is open.
pub open spec fn with_connection(
    connections: Map<PeerId, Seq<usize>>,
    peer: PeerId,
    connection: usize,
) -> Map<PeerId, Seq<usize>> {
    connections.insert(
        peer,
        (if connections.dom().contains(peer) {
            connections[peer]
        } else {
            Seq::empty()
        }).push(connection),
    )
}

/// The peers that are marked as connected are those with an open connection.
pub open spec fn in_agreement(connections: Map<PeerId, Seq<usize>>, peers: Map<PeerId, PeerInfo>) -> bool {
    &&& forall|p: PeerId| #[trigger] connections.dom().contains(p) ==> connections[p].len() > 0
    &&& forall|p: PeerId|
        #![trigger connections.dom().contains(p)]
        #![trigger peers.dom().contains(p)]
        connections.dom().contains(p) <==> peers.dom().contains(p) && peers[p].is_connected
}

/// What `peers` becomes when a peer is marked as connected; one that was not known becomes known.
pub open spec fn marked_connected(peers: Map<PeerId, PeerInfo>, p: PeerId) -> Map<PeerId, PeerInfo> {
    peers.insert(
        p,
        PeerInfo {
            is_connected: true,
            ..if peers.dom().contains(p) {
                peers[p]
            } else {
                fresh_peer()
            }
        },
    )
}

/// What `peers` becomes when a peer is marked as not connected.
pub open spec fn marked_disconnected(peers: Map<PeerId, PeerInfo>, p: PeerId) -> Map<PeerId, PeerInfo> {
    if peers.dom().contains(p) {
        peers.insert(p, PeerInfo { is_connected: false, ..peers[p] })
    } else {
        peers
    }
}

/// `after` is `before` with the score of a peer, if it is known, moved by `action`.
pub open spec fn reported<F: Fn(Score, PeerAction) -> Score>(
    before: Map<PeerId, PeerInfo>,
    after: Map<PeerId, PeerInfo>,
    p: PeerId,
    action: PeerAction,
    apply: F,
) -> bool {
    if before.dom().contains(p) {
        &&& after == before.insert(p, with_score(before[p], after[p].score))
        &&& call_ensures(apply, (before[p].score, action), after[p].score)
    } else {
        after == before
    }
}

/// Why a response is not sent: no request of this number waits for one.
#[derive(Debug, Clone, Copy, PartialEq, Eq, Structural)]
pub struct UnknownRequest {
    /// The number of the request.
    pub request_id: u64,
}

impl UnknownRequest {
    /// The error in words.
    pub open spec fn words(&self) -> Seq<char> {
        "No pending inbound request found for the request id: "@ + decimal(self.request_id as nat)
    }

    /// The error in words.
    pub fn message(&self) -> (s: String)
        ensures
            s@ == self.words(),
    {
        "No pending inbound request found for the request id: ".to_string().concat(
            to_decimal(self.request_id).as_str(),
        )
    }
}

/// The bookkeeping of the peer-to-peer network. `C` is what a response is sent by.
pub struct Network<C> {
    peer_manager: PeerManager,
    pending_inbound_requests: HashMap<u64, C>,
    pending_outbound_requests: HashMap<u64, Eth2Request>,
    connection_id_by_peer_id: PeerMap<Vec<usize>>,
    discovery_enabled: bool,
}

impl<C> Network<C> {
    /// What keeps the number of peers near a target.
    pub closed spec fn manager(&self) -> PeerManager {
        self.peer_manager
    }

    /// Whether peers that discovery finds are dialed.
    pub closed spec fn discovers(&self) -> bool {
        self.discovery_enabled
    }

    /// The requests that wait for an answer of this node, each with what the answer is sent by.
    pub closed spec fn inbound(&self) -> Map<u64, C> {
        self.pending_inbound_requests@
    }

    /// The requests that this node waits for an answer to.
    pub closed spec fn outbound(&self) -> Map<u64, Eth2Request> {
        self.pending_outbound_requests@
    }

    /// The open connections of each peer that has any, in the order in which they were opened.
    pub closed spec fn connections(&self) -> Map<PeerId, Seq<usize>> {
        self.connection_id_by_peer_id@.map_values(|v: Vec<usize>| v@)
    }

    /// Nothing but requests and connections may differ.
    pub open spec fn same_settings(&self, other: &Self) -> bool {
        self.manager() == other.manager() && self.discovers() == other.discovers()
    }

    /// Nothing differs.
    pub open spec fn same(&self, other: &Self) -> bool {
        &&& self.same_settings(other)
        &&& self.inbound() == other.inbound()
        &&& self.outbound() == other.outbound()
        &&& self.connections() == other.connections()
    }

    /// No request is pending and no connection is open, and the settings are those of the configuration.
    pub open spec fn is_new(&self, network_config: &NetworkConfig, score_halflife: u128, now: u128) -> bool {
        &&& self.manager() == (PeerManager {
            target_peers: network_config.target_peers,
            score_halflife,
            last_decay: now,
        })
        &&& self.discovers() == network_config.discovery_enabled
        &&& self.inbound() == Map::<u64, C>::empty()
        &&& self.outbound() == Map::<u64, Eth2Request>::empty()
        &&& self.connections() == Map::<PeerId, Seq<usize>>::empty()
    }

    /// No request is pending and no connection is open.
    pub fn build(network_config: &NetworkConfig, score_halflife: u128, now: u128) -> (n: Self)
        ensures
            n.is_new(network_config, score_halflife, now),
    {
        let n = Network {
            peer_manager: PeerManager::new(network_config.target_peers, score_halflife, now),
            pending_inbound_requests: HashMap::new(),
            pending_outbound_requests: HashMap::new(),
            connection_id_by_peer_id: PeerMap::new(),
            discovery_enabled: network_config.discovery_enabled,
        };
        assert(n.connections() =~= Map::<PeerId, Seq<usize>>::empty());
        n
    }

    /// What an event of requests and responses leads to.
    pub open spec fn rpc_outcome<B>(&self, after: &Self, event: Eth2RpcEvent<B, C>, step: NetworkStep<B>) -> bool {
        &&& after.same_settings(self)
        &&& after.connections() == self.connections()
        &&& match event {
            Eth2RpcEvent::Request { request_id, request, channel } => {
                &&& after.inbound() == self.inbound().insert(request_id, channel)
                &&& after.outbound() == self.outbound()
                &&& step == NetworkStep::Event(NetworkEvent::<B>::RequestReceived { request_id, request })
            },
            Eth2RpcEvent::Response { peer, request_id, response } => {
                &&& after.inbound() == self.inbound()
                &&& after.outbound() == self.outbound().remove(request_id)
                &&& step == NetworkStep::Event(NetworkEvent::ResponseReceived { peer_id: peer, response })
            },
            Eth2RpcEvent::OutboundFailure { peer, request_id } => {
                &&& after.inbound() == self.inbound()
                &&& after.outbound() == self.outbound().remove(request_id)
                &&& step == NetworkStep::Event(
                    NetworkEvent::<B>::RPCFailed { peer_id: peer, request: self.outbound()[request_id] },
                )
            },
            Eth2RpcEvent::InboundFailure { request_id } => {
                &&& after.inbound() == self.inbound().remove(request_id)
                &&& after.outbound() == self.outbound()
                &&& step == NetworkStep::<B>::Continue
            },
            Eth2RpcEvent::ResponseSent => {
                &&& after.inbound() == self.inbound()
                &&& after.outbound() == self.outbound()
                &&& step == NetworkStep::<B>::Continue
            },
        }
    }

    /// What discovery in the local network leads to.
    pub open spec fn mdns_outcome<B>(
        &self,
        peers: Map<PeerId, PeerInfo>,
        event: MdnsEvent,
        step: NetworkStep<B>,
    ) -> bool {
        match event {
            MdnsEvent::Discovered(list) => if self.discovers() {
                step matches NetworkStep::Dial(to_dial) && to_dial@ == worth_dialing(
                    list@,
                    peers,
                    self.manager().target_peers as nat,
                )
            } else {
                step == NetworkStep::<B>::Continue
            },
            MdnsEvent::Expired => step == NetworkStep::<B>::Continue,
        }
    }

    /// Whether an event can come: a request that fails was sent before.
    pub open spec fn expects<B>(&self, event: SwarmEvent<B, C>) -> bool {
        event matches SwarmEvent::Eth2Rpc(Eth2RpcEvent::OutboundFailure { request_id, .. })
            ==> self.outbound().dom().contains(request_id)
    }

    /// What an event of the peer-to-peer network leads to.
    pub open spec fn outcome<B, F: Fn(Score, PeerAction) -> Score>(
        &self,
        after: &Self,
        peers: Map<PeerId, PeerInfo>,
        peers_after: Map<PeerId, PeerInfo>,
        event: SwarmEvent<B, C>,
        step: NetworkStep<B>,
        apply: F,
    ) -> bool {
        match event {
            SwarmEvent::Eth2Rpc(event) => self.rpc_outcome(after, event, step) && peers_after == peers,
            SwarmEvent::Mdns(event) => self.mdns_outcome(peers, event, step) && after.same(self) && peers_after
                == peers,
            SwarmEvent::Gossipsub(event) => gossip_outcome(peers, peers_after, event, step, apply) && after.same(self),
            SwarmEvent::ConnectionEstablished { peer_id, connection_id } => {
                &&& step == NetworkStep::<B>::Continue
                &&& after.same_settings(self)
                &&& after.inbound() == self.inbound()
                &&& after.outbound() == self.outbound()
                &&& after.connections() == with_connection(self.connections(), peer_id, connection_id)
                &&& peers_after == marked_connected(peers, peer_id)
            },
            SwarmEvent::ConnectionClosed { peer_id, connection_id } => {
                &&& step == NetworkStep::<B>::Continue
                &&& after.same_settings(self)
                &&& after.inbound() == self.inbound()
                &&& after.outbound() == self.outbound()
                &&& after.connections() == without_connection(self.connections(), peer_id, connection_id)
                &&& peers_after == (if self.connections().dom().contains(peer_id)
                    && !after.connections().dom().contains(peer_id) {
                    marked_disconnected(peers, peer_id)
                } else {
                    peers
                })
            },
            SwarmEvent::NewListenAddr | SwarmEvent::Other => {
                &&& step == NetworkStep::<B>::Continue
                &&& after.same(self)
                &&& peers_after == peers
            },
        }
    }

    /// Handles an event of the peer-to-peer network. `apply` moves scores.
    pub fn next_event<B, F: Fn(Score, PeerAction) -> Score>(
        &mut self,
        globals: &mut NetworkGlobals,
        event: SwarmEvent<B, C>,
        apply: F,
    ) -> (step: NetworkStep<B>)
        requires
            old(self).expects(event),
            forall|s: Score, action: PeerAction| call_requires(apply, (s, action)),
        ensures
            old(self).outcome(final(self), old(globals).peers@, final(globals).peers@, event, step, apply),
    {
        match event {
            SwarmEvent::Eth2Rpc(event) => self.on_eth2_rpc_event(event),
            SwarmEvent::Mdns(event) => self.on_mdns_event(globals, event),
            SwarmEvent::Gossipsub(event) => self.on_gossipsub_event(globals, event, apply),
            SwarmEvent::ConnectionEstablished { peer_id, connection_id } => {
                let ghost before = self.connections();
                let mut connections: Vec<usize> = match self.connection_id_by_peer_id.remove(&peer_id) {
                    Some(connections) => connections,
                    None => Vec::new(),
                };
                connections.push(connection_id);
                self.connection_id_by_peer_id.insert(peer_id, connections);
                assert(self.connections() =~= with_connection(before, peer_id, connection_id));
                self.peer_manager.connected_peer(globals, &peer_id);
                NetworkStep::Continue
            },
            SwarmEvent::ConnectionClosed { peer_id, connection_id } => {
                let ghost before = self.connections();
                let ghost table = self.connection_id_by_peer_id@;
                if let Some(connections) = self.connection_id_by_peer_id.remove(&peer_id) {
                    let rest = retain_others(&connections, connection_id);
                    if rest.len() == 0 {
                        assert(self.connections() =~= before.remove(peer_id));
                        self.peer_manager.disconnected_peer(globals, &peer_id);
                    } else {
                        self.connection_id_by_peer_id.insert(peer_id, rest);
                        assert(self.connections() =~= before.insert(peer_id, rest@));
                    }
                } else {
                    assert(self.connection_id_by_peer_id@ =~= table);
                }
                NetworkStep::Continue
            },
            SwarmEvent::NewListenAddr | SwarmEvent::Other => NetworkStep::Continue,
        }
    }

    /// What to send a request leads to.
    pub open spec fn request_outcome(&self, after: &Self, request_id: u64, request: Eth2Request) -> bool {
        &&& after.same_settings(self)
        &&& after.inbound() == self.inbound()
        &&& after.outbound() == self.outbound().insert(request_id, request)
        &&& after.connections() == self.connections()
    }

    /// Keeps in mind that a request was sent.
    pub fn send_rpc_request(&mut self, request_id: u64, request: Eth2Request)
        ensures
            old(self).request_outcome(final(self), request_id, request),
    {
        self.pending_outbound_requests.insert(request_id, request);
    }

    /// What to ask for what the answer to a request is sent by leads to.
    pub open spec fn response_outcome(&self, after: &Self, request_id: u64, r: Result<C, UnknownRequest>) -> bool {
        &&& after.same_settings(self)
        &&& after.inbound() == self.inbound().remove(request_id)
        &&& after.outbound() == self.outbound()
        &&& after.connections() == self.connections()
        &&& r == (if self.inbound().dom().contains(request_id) {
            Ok(self.inbound()[request_id])
        } else {
            Err(UnknownRequest { request_id })
        })
    }

    /// What the answer to a request is sent by. The request no longer waits for one.
    pub fn send_rpc_response(&mut self, request_id: u64) -> (r: Result<C, UnknownRequest>)
        ensures
            old(self).response_outcome(final(self), request_id, r),
    {
        let channel = self.pending_inbound_requests.remove(&request_id);
        assert(self.inbound() =~= old(self).inbound().remove(request_id));
        match channel {
            Some(channel) => Ok(channel),
            None => Err(UnknownRequest { request_id }),
        }
    }

    /// Which of the peers found in the local network to dial. None, if discovery is off.
    pub fn on_mdns_event<B>(&self, globals: &NetworkGlobals, event: MdnsEvent) -> (step: NetworkStep<B>)
        ensures
            self.mdns_outcome(globals.peers@, event, step),
    {
        match event {
            MdnsEvent::Discovered(list) => {
                if !self.discovery_enabled {
                    return NetworkStep::Continue;
                }
                NetworkStep::Dial(self.peer_manager.discovered_peers(globals, list))
            },
            MdnsEvent::Expired => NetworkStep::Continue,
        }
    }

    /// Hands gossiped blocks on, rejects what holds no block, and reports peers that gossip badly.
    pub fn on_gossipsub_event<B, F: Fn(Score, PeerAction) -> Score>(
        &self,
        globals: &mut NetworkGlobals,
        event: GossipsubEvent<B>,
        apply: F,
    ) -> (step: NetworkStep<B>)
        requires
            forall|s: Score, action: PeerAction| call_requires(apply, (s, action)),
        ensures
            gossip_outcome(old(globals).peers@, final(globals).peers@, event, step, apply),
    {
        match event {
            GossipsubEvent::Message { propagation_source, message_id, block } => match block {
                Some(l2_block_response) => NetworkStep::Event(
                    NetworkEvent::GossipBlock { peer_id: propagation_source, l2_block_response, message_id },
                ),
                None => NetworkStep::Reject { propagation_source, message_id },
            },
            GossipsubEvent::GossipsubNotSupported { peer_id } => {
                self.report_peer(globals, &peer_id, PeerAction::Fatal, apply);
                NetworkStep::Continue
            },
            GossipsubEvent::SlowPeer { peer_id } => {
                self.report_peer(globals, &peer_id, PeerAction::HighToleranceError, apply);
                NetworkStep::Continue
            },
            GossipsubEvent::Subscribed | GossipsubEvent::Unsubscribed => NetworkStep::Continue,
        }
    }

    /// Keeps track of the requests of both sides.
    pub fn on_eth2_rpc_event<B>(&mut self, event: Eth2RpcEvent<B, C>) -> (step: NetworkStep<B>)
        requires
            old(self).expects(SwarmEvent::Eth2Rpc(event)),
        ensures
            old(self).rpc_outcome(final(self), event, step),
    {
        match event {
            Eth2RpcEvent::Request { request_id, request, channel } => {
                self.pending_inbound_requests.insert(request_id, channel);
                NetworkStep::Event(NetworkEvent::RequestReceived { request_id, request })
            },
            Eth2RpcEvent::Response { peer, request_id, response } => {
                self.pending_outbound_requests.remove(&request_id);
                assert(self.outbound() =~= old(self).outbound().remove(request_id));
                NetworkStep::Event(NetworkEvent::ResponseReceived { peer_id: peer, response })
            },
            Eth2RpcEvent::OutboundFailure { peer, request_id } => {
                let failed_request = self.pending_outbound_requests.remove(&request_id);
                assert(self.outbound() =~= old(self).outbound().remove(request_id));
                NetworkStep::Event(NetworkEvent::RPCFailed { peer_id: peer, request: failed_request.unwrap() })
            },
            Eth2RpcEvent::InboundFailure { request_id } => {
                self.pending_inbound_requests.remove(&request_id);
                assert(self.inbound() =~= old(self).inbound().remove(request_id));
                NetworkStep::Continue
            },
            Eth2RpcEvent::ResponseSent => NetworkStep::Continue,
        }
    }

    /// Whether a request waits for an answer of a peer.
    pub fn is_tracked(&self, request_id: u64) -> (r: bool)
        ensures
            r == self.outbound().dom().contains(request_id),
    {
        self.pending_outbound_requests.contains_key(&request_id)
    }

    /// `r` lists the connections to close so as to part from a peer.
    pub open spec fn parting(&self, p: PeerId, r: Option<Vec<usize>>) -> bool {
        match r {
            Some(ids) => self.connections().dom().contains(p) && ids@ == self.connections()[p],
            None => !self.connections().dom().contains(p),
        }
    }

    /// The connections to close so as to part from a peer. None, if there is no connection to it.
    pub fn disconnect_peer(&self, peer_id: &PeerId) -> (r: Option<Vec<usize>>)
        ensures
            self.parting(*peer_id, r),
    {
        match self.connection_id_by_peer_id.get(peer_id) {
            Some(connections) => {
                let ids = connections.clone();
                assert(ids@ =~= connections@);
                Some(ids)
            },
            None => None,
        }
    }

    /// Lets scores decay if it is time, and holds the number of peers against the target.
    pub fn peer_manager_heartbeat<F: Fn(Score) -> Score>(
        &mut self,
        globals: &mut NetworkGlobals,
        now: u128,
        decay: F,
    ) -> (r: HeartbeatResult)
        requires
            forall|s: Score| call_requires(decay, (s,)),
        ensures
            final(self).discovers() == old(self).discovers(),
            final(self).inbound() == old(self).inbound(),
            final(self).outbound() == old(self).outbound(),
            final(self).connections() == old(self).connections(),
            old(self).manager().heartbeat_outcome(
                final(self).manager(),
                old(globals).peers@,
                final(globals).peers@,
                now,
                decay,
                r,
            ),
    {
        self.peer_manager.heartbeat(globals, now, decay)
    }

    /// Applies `action` to the score of a peer, by way of `apply`.
    pub fn report_peer<F: Fn(Score, PeerAction) -> Score>(
        &self,
        globals: &mut NetworkGlobals,
        peer_id: &PeerId,
        action: PeerAction,
        apply: F,
    ) -> (r: ReportPeerResult)
        requires
            forall|s: Score| call_requires(apply, (s, action)),
        ensures
            reported(old(globals).peers@, final(globals).peers@, *peer_id, action, apply),
            report_outcome(old(globals).peers@, final(globals).peers@, *peer_id, action, apply, r),
    {
        self.peer_manager.report_peer(globals, peer_id, action, apply)
    }
}

/// What an event of gossip leads to.
pub open spec fn gossip_outcome<B, F: Fn(Score, PeerAction) -> Score>(
    peers: Map<PeerId, PeerInfo>,
    peers_after: Map<PeerId, PeerInfo>,
    event: GossipsubEvent<B>,
    step: NetworkStep<B>,
    apply: F,
) -> bool {
    match event {
        GossipsubEvent::Message { propagation_source, message_id, block } => {
            &&& peers_after == peers
            &&& step == match block {
                Some(l2_block_response) => NetworkStep::Event(
                    NetworkEvent::GossipBlock { peer_id: propagation_source, l2_block_response, message_id },
                ),
                None => NetworkStep::Reject { propagation_source, message_id },
            }
        },
        GossipsubEvent::GossipsubNotSupported { peer_id } => {
            &&& reported(peers, peers_after, peer_id, PeerAction::Fatal, apply)
            &&& step == NetworkStep::<B>::Continue
        },
        GossipsubEvent::SlowPeer { peer_id } => {
            &&& reported(peers, peers_after, peer_id, PeerAction::HighToleranceError, apply)
            &&& step == NetworkStep::<B>::Continue
        },
        GossipsubEvent::Subscribed | GossipsubEvent::Unsubscribed => {
            &&& peers_after == peers
            &&& step == NetworkStep::<B>::Continue
        },
    }
}

/// `ids` without `id`.
fn retain_others(ids: &Vec<usize>, id: usize) -> (rest: Vec<usize>)
    ensures
        rest@ == without(ids@, id),
{
    let mut rest: Vec<usize> = Vec::new();
    assert(rest@ =~= without(ids@.take(0), id)) by {
        reveal(Seq::filter);
    }
    for k in 0..ids.len()
        invariant
            rest@ == without(ids@.take(k as int), id),
    {
        proof {
            assert(ids@.take(k + 1).drop_last() =~= ids@.take(k as int));
            reveal(Seq::filter);
        }
        if ids[k] != id {
            rest.push(ids[k]);
        }
    }
    assert(ids@.take(ids.len() as int) =~= ids@);
    rest
}

/// The address that a peer is dialed at, or why a text is none.
pub fn parse_dial_address(text: &String) -> (r: Result<Multiaddr, String>)
    ensures
        match r {
            Ok(addr) => multiaddr_of_text(text@) == Ok::<Multiaddr, Seq<char>>(addr),
            Err(e) => multiaddr_of_text(text@) == Err::<Multiaddr, Seq<char>>(e@),
        },
{
    multiaddr_parse(text.as_str())
}

/// The addresses of peers that are dialed at the start.
#[derive(Debug, PartialEq)]
pub struct DialPlan {
    /// The addresses, in order, up to the first text that is none.
    pub addresses: Vec<Multiaddr>,
    /// Why that text is none, if there is such a text.
    pub error: Option<String>,
}

/// `plan` holds the addresses that `texts` write, up to the first text that writes none.
pub open spec fn is_dial_plan(texts: Seq<String>, plan: DialPlan) -> bool {
    &&& plan.addresses@.len() <= texts.len()
    &&& forall|i: int|
        0 <= i < plan.addresses@.len() ==> multiaddr_of_text(texts[i]@) == Ok::<Multiaddr, Seq<char>>(
            #[trigger] plan.addresses@[i],
        )
    &&& match plan.error {
        None => plan.addresses@.len() == texts.len(),
        Some(e) => plan.addresses@.len() < texts.len() && multiaddr_of_text(texts[plan.addresses@.len() as int]@)
            == Err::<Multiaddr, Seq<char>>(e@),
    }
}

/// Reads the addresses of the peers to dial at the start, up to the first text that is no address.
pub fn plan_dials(dial_addresses: &Vec<String>) -> (plan: DialPlan)
    ensures
        is_dial_plan(dial_addresses@, plan),
{
    let mut addresses: Vec<Multiaddr> = Vec::new();
    for k in 0..dial_addresses.len()
        invariant
            addresses.len() == k,
            forall|i: int|
                0 <= i < k ==> multiaddr_of_text(dial_addresses@[i]@) == Ok::<Multiaddr, Seq<char>>(
                    #[trigger] addresses@[i],
                ),
    {
        match parse_dial_address(&dial_addresses[k]) {
            Ok(addr) => addresses.push(addr),
            Err(e) => {
                return DialPlan { addresses, error: Some(e) };
            },
        }
    }
    DialPlan { addresses, error: None }
}

/// Events keep it so that the peers that are marked as connected are those with an open connection.
pub proof fn law_events_keep_agreement<B, C, F: Fn(Score, PeerAction) -> Score>(
    before: Network<C>,
    after: Network<C>,
    peers: Map<PeerId, PeerInfo>,
    peers_after: Map<PeerId, PeerInfo>,
    event: SwarmEvent<B, C>,
    step: NetworkStep<B>,
    apply: F,
)
    requires
        before.outcome(&after, peers, peers_after, event, step, apply),
        in_agreement(before.connections(), peers),
    ensures
        in_agreement(after.connections(), peers_after),
{
}

/// To let scores decay keeps it so that the peers that are marked as connected are those with an open connection.
pub proof fn law_decay_keeps_agreement<F: Fn(Score) -> Score>(
    connections: Map<PeerId, Seq<usize>>,
    peers: Map<PeerId, PeerInfo>,
    peers_after: Map<PeerId, PeerInfo>,
    decay: F,
)
    requires
        decayed(peers, peers_after, decay),
        in_agreement(connections, peers),
    ensures
        in_agreement(connections, peers_after),
{
}

/// A connection that is opened and closed again leaves the connections as they were, if its number is new.
pub proof fn law_closing_undoes_opening(connections: Map<PeerId, Seq<usize>>, peer: PeerId, connection: usize)
    requires
        connections.dom().contains(peer) ==> connections[peer].len() > 0 && !connections[peer].contains(
            connection,
        ),
    ensures
        without_connection(with_connection(connections, peer, connection), peer, connection) == connections,
{
    let ids = if connections.dom().contains(peer) {
        connections[peer]
    } else {
        Seq::empty()
    };
    lemma_without_last(ids, connection);
    assert(without_connection(with_connection(connections, peer, connection), peer, connection) =~= connections);
}

/// A number that does not occur is not taken out; one that occurs but at the end is.
proof fn lemma_without_last(ids: Seq<usize>, id: usize)
    requires
        !ids.contains(id),
    ensures
        without(ids, id) == ids,
        without(ids.push(id), id) == ids,
    decreases ids.len(),
{
    reveal(Seq::filter);
    if ids.len() > 0 {
        assert(ids[ids.len() - 1] == ids.last());
        assert forall|i: int| 0 <= i < ids.len() - 1 implies #[trigger] ids.drop_last()[i] != id by {
            assert(ids[i] == ids.drop_last()[i]);
        }
        lemma_without_last(ids.drop_last(), id);
        assert(ids.drop_last().push(ids.last()) =~= ids);
    }
    assert(ids.push(id).drop_last() =~= ids);
}

/// At the start, when no connection is open and no peer is known, the two agree.
pub proof fn law_start_is_in_agreement()
    ensures
        in_agreement(Map::<PeerId, Seq<usize>>::empty(), Map::<PeerId, PeerInfo>::empty()),
{
}

/// The first answer to a request that came in is sent by what came with the request, and a second one is refused.
pub proof fn law_request_is_answered_once<B, C>(
    before: Network<C>,
    asked: Network<C>,
    answered: Network<C>,
    after: Network<C>,
    request_id: u64,
    request: Eth2Request,
    channel: C,
    step: NetworkStep<B>,
    first: Result<C, UnknownRequest>,
    second: Result<C, UnknownRequest>,
)
    requires
        before.rpc_outcome(&asked, Eth2RpcEvent::Request { request_id, request, channel }, step),
        asked.response_outcome(&answered, request_id, first),
        answered.response_outcome(&after, request_id, second),
    ensures
        first == Ok::<C, UnknownRequest>(channel),
        second == Err::<C, UnknownRequest>(UnknownRequest { request_id }),
{
}

/// Whoever sent a request is told of that request when it fails.
pub proof fn law_failure_names_the_request<B, C>(
    before: Network<C>,
    after: Network<C>,
    outbound: Map<u64, Eth2Request>,
    peer: PeerId,
    request_id: u64,
    request: Eth2Request,
    step: NetworkStep<B>,
)
    requires
        before.outbound() == outbound.insert(request_id, request),
        before.rpc_outcome(&after, Eth2RpcEvent::OutboundFailure { peer, request_id }, step),
    ensures
        before.expects(SwarmEvent::<B, C>::Eth2Rpc(Eth2RpcEvent::OutboundFailure { peer, request_id })),
        step == NetworkStep::Event(NetworkEvent::<B>::RPCFailed { peer_id: peer, request }),
        after.outbound() == outbound.remove(request_id),
{
    assert(outbound.insert(request_id, request).remove(request_id) =~= outbound.remove(request_id));
}

/// Whatever a peer answers, of whatever kind and content, the rest of the node is told that very answer and who gave
/// it. The request waits for an answer no more; every other request, connection, peer and setting stays as it is.
pub proof fn law_every_response_is_handed_on<B, C, F: Fn(Score, PeerAction) -> Score>(
    before: Network<C>,
    after: Network<C>,
    peers: Map<PeerId, PeerInfo>,
    peers_after: Map<PeerId, PeerInfo>,
    peer: PeerId,
    request_id: u64,
    response: Eth2Response<B>,
    step: NetworkStep<B>,
    apply: F,
    other: u64,
)
    requires
        before.outcome(
            &after,
            peers,
            peers_after,
            SwarmEvent::Eth2Rpc(Eth2RpcEvent::Response { peer, request_id, response }),
            step,
            apply,
        ),
    ensures
        step matches NetworkStep::Event(NetworkEvent::ResponseReceived { peer_id, response: told }) && peer_id == peer
            && told == response,
        !after.outbound().dom().contains(request_id),
        other != request_id ==> (after.outbound().dom().contains(other) <==> before.outbound().dom().contains(other))
            && after.outbound()[other] == before.outbound()[other],
        after.inbound() == before.inbound(),
        after.connections() == before.connections(),
        after.manager() == before.manager(),
        after.discovers() == before.discovers(),
        peers_after == peers,
{
}

/// Whatever a peer asks, the rest of the node is told that very request and its number, and what came with it to answer
/// by is kept under that number. Every other request, connection, peer and setting stays as it is.
pub proof fn law_every_request_is_handed_on<B, C, F: Fn(Score, PeerAction) -> Score>(
    before: Network<C>,
    after: Network<C>,
    peers: Map<PeerId, PeerInfo>,
    peers_after: Map<PeerId, PeerInfo>,
    request_id: u64,
    request: Eth2Request,
    channel: C,
    step: NetworkStep<B>,
    apply: F,
    other: u64,
)
    requires
        before.outcome(
            &after,
            peers,
            peers_after,
            SwarmEvent::Eth2Rpc(Eth2RpcEvent::Request { request_id, request, channel }),
            step,
            apply,
        ),
    ensures
        step matches NetworkStep::Event(NetworkEvent::RequestReceived { request_id: number, request: told }) && number
            == request_id && told == request,
        after.inbound().dom().contains(request_id),
        after.inbound()[request_id] == channel,
        other != request_id ==> (after.inbound().dom().contains(other) <==> before.inbound().dom().contains(other))
            && after.inbound()[other] == before.inbound()[other],
        after.outbound() == before.outbound(),
        after.connections() == before.connections(),
        after.manager() == before.manager(),
        after.discovers() == before.discovers(),
        peers_after == peers,
{
}

/// When a request of the node fails, the rest of the node is told which one, whatever it asked, and whom; it waits for
/// an answer no more. When a request of a peer fails, it can be answered no more, and nothing is told, as nothing is
/// of an answer that is on its way. Everything else stays as it is.
pub proof fn law_failures_end_requests<B, C, F: Fn(Score, PeerAction) -> Score>(
    before: Network<C>,
    after: Network<C>,
    peers: Map<PeerId, PeerInfo>,
    peers_after: Map<PeerId, PeerInfo>,
    event: Eth2RpcEvent<B, C>,
    step: NetworkStep<B>,
    apply: F,
    other: u64,
)
    requires
        before.outcome(&after, peers, peers_after, SwarmEvent::Eth2Rpc(event), step, apply),
    ensures
        event matches Eth2RpcEvent::OutboundFailure { peer, request_id } ==> {
            &&& step matches NetworkStep::Event(NetworkEvent::RPCFailed { peer_id, request }) && peer_id == peer
                && request == before.outbound()[request_id]
            &&& !after.outbound().dom().contains(request_id)
            &&& other != request_id ==> (after.outbound().dom().contains(other) <==> before.outbound().dom().contains(
                other,
            )) && after.outbound()[other] == before.outbound()[other]
            &&& after.inbound() == before.inbound()
        },
        event matches Eth2RpcEvent::InboundFailure { request_id } ==> {
            &&& step is Continue
            &&& !after.inbound().dom().contains(request_id)
            &&& other != request_id ==> (after.inbound().dom().contains(other) <==> before.inbound().dom().contains(
                other,
            )) && after.inbound()[other] == before.inbound()[other]
            &&& after.outbound() == before.outbound()
        },
        event is ResponseSent ==> step is Continue && after.inbound() == before.inbound() && after.outbound()
            == before.outbound(),
        after.connections() == before.connections(),
        after.manager() == before.manager(),
        after.discovers() == before.discovers(),
        peers_after == peers,
{
}

/// A request that was sent is the one that waits under its number, whatever waited there before. The other requests,
/// the connections and the settings stay as they are. Where a request waits and only there, its failure can come.
pub proof fn law_sent_request_waits<B, C>(
    before: Network<C>,
    after: Network<C>,
    request_id: u64,
    request: Eth2Request,
    other: u64,
    peer: PeerId,
)
    requires
        before.request_outcome(&after, request_id, request),
    ensures
        after.outbound().dom().contains(request_id),
        after.outbound()[request_id] == request,
        other != request_id ==> (after.outbound().dom().contains(other) <==> before.outbound().dom().contains(other))
            && after.outbound()[other] == before.outbound()[other],
        after.inbound() == before.inbound(),
        after.connections() == before.connections(),
        after.manager() == before.manager(),
        after.discovers() == before.discovers(),
        after.expects(SwarmEvent::<B, C>::Eth2Rpc(Eth2RpcEvent::OutboundFailure { peer, request_id: other }))
            <==> after.outbound().dom().contains(other),
{
}

/// Any event but the failure of a request of the node can come at any time.
pub proof fn law_other_events_can_always_come<B, C>(n: Network<C>, event: SwarmEvent<B, C>)
    requires
        !(event matches SwarmEvent::Eth2Rpc(Eth2RpcEvent::OutboundFailure { .. })),
    ensures
        n.expects(event),
{
}

/// To answer one request leaves the others as they are, and the rest of the network, too.
pub proof fn law_answer_leaves_the_other_requests<C>(
    before: Network<C>,
    after: Network<C>,
    request_id: u64,
    r: Result<C, UnknownRequest>,
    other: u64,
)
    requires
        before.response_outcome(&after, request_id, r),
    ensures
        before.inbound().dom().contains(request_id) ==> r == Ok::<C, UnknownRequest>(before.inbound()[request_id]),
        !before.inbound().dom().contains(request_id) ==> (r matches Err(e) && e.request_id == request_id),
        !after.inbound().dom().contains(request_id),
        other != request_id ==> (after.inbound().dom().contains(other) <==> before.inbound().dom().contains(other))
            && after.inbound()[other] == before.inbound()[other],
        after.outbound() == before.outbound(),
        after.connections() == before.connections(),
        after.manager() == before.manager(),
        after.discovers() == before.discovers(),
{
}

/// A gossiped message that holds a block is handed on, with that very block, who passed it on, and its identity. One
/// that holds none is rejected, under its identity and to who passed it on. Neither changes anything.
pub proof fn law_gossip_is_handed_on_or_rejected<B, C, F: Fn(Score, PeerAction) -> Score>(
    before: Network<C>,
    after: Network<C>,
    peers: Map<PeerId, PeerInfo>,
    peers_after: Map<PeerId, PeerInfo>,
    source: PeerId,
    id: Vec<u8>,
    block: Option<B>,
    step: NetworkStep<B>,
    apply: F,
)
    requires
        before.outcome(
            &after,
            peers,
            peers_after,
            SwarmEvent::Gossipsub(GossipsubEvent::Message { propagation_source: source, message_id: id, block }),
            step,
            apply,
        ),
    ensures
        block is Some ==> (step matches NetworkStep::Event(
            NetworkEvent::GossipBlock { peer_id, l2_block_response, message_id },
        ) && peer_id == source && l2_block_response == block->0 && message_id == id),
        block is None ==> (step matches NetworkStep::Reject { propagation_source, message_id } && propagation_source
            == source && message_id == id),
        peers_after == peers,
        after.inbound() == before.inbound(),
        after.outbound() == before.outbound(),
        after.connections() == before.connections(),
        after.manager() == before.manager(),
        after.discovers() == before.discovers(),
{
}

/// A known peer that does not gossip is reported for a fatal offence, and one that is slow for one that is tolerated
/// many times: its score moves by way of the scoring, and nothing else of it does. No other peer changes, and nothing
/// is told. A peer that is not known stays unknown. Who joins or leaves a topic changes nothing.
pub proof fn law_bad_gossip_moves_one_score<B, C, F: Fn(Score, PeerAction) -> Score>(
    before: Network<C>,
    after: Network<C>,
    peers: Map<PeerId, PeerInfo>,
    peers_after: Map<PeerId, PeerInfo>,
    event: GossipsubEvent<B>,
    p: PeerId,
    action: PeerAction,
    step: NetworkStep<B>,
    apply: F,
    q: PeerId,
)
    requires
        before.outcome(&after, peers, peers_after, SwarmEvent::Gossipsub(event), step, apply),
        !(event is Message),
        event matches GossipsubEvent::GossipsubNotSupported { peer_id } ==> p == peer_id && action
            == PeerAction::Fatal,
        event matches GossipsubEvent::SlowPeer { peer_id } ==> p == peer_id && action
            == PeerAction::HighToleranceError,
    ensures
        step is Continue,
        peers_after.dom() == peers.dom(),
        peers.dom().contains(q) && q != p ==> peers_after[q] == peers[q],
        (event is Subscribed || event is Unsubscribed) && peers.dom().contains(p) ==> peers_after[p] == peers[p],
        (event is GossipsubNotSupported || event is SlowPeer) && peers.dom().contains(p) ==> {
            &&& peers_after[p].is_connected == peers[p].is_connected
            &&& peers_after[p].status == peers[p].status
            &&& call_ensures(apply, (peers[p].score, action), peers_after[p].score)
        },
        after.inbound() == before.inbound(),
        after.outbound() == before.outbound(),
        after.connections() == before.connections(),
        after.manager() == before.manager(),
        after.discovers() == before.discovers(),
{
    if (event is GossipsubNotSupported || event is SlowPeer) && peers.dom().contains(p) {
        assert(peers_after.dom() =~= peers.dom());
    }
}

/// A report of a known peer, for whatever offence, moves its score by way of the scoring and changes nothing else of it
/// or of another peer. A report of a peer that is not known changes nothing.
pub proof fn law_reported_peer_keeps_all_but_its_score<F: Fn(Score, PeerAction) -> Score>(
    before: Map<PeerId, PeerInfo>,
    after: Map<PeerId, PeerInfo>,
    p: PeerId,
    action: PeerAction,
    apply: F,
    q: PeerId,
)
    requires
        reported(before, after, p, action, apply),
    ensures
        after.dom() == before.dom(),
        q != p && before.dom().contains(q) ==> after[q] == before[q],
        before.dom().contains(p) ==> after[p].is_connected == before[p].is_connected && after[p].status
            == before[p].status && call_ensures(apply, (before[p].score, action), after[p].score),
{
    assert(after.dom() =~= before.dom());
}

/// With discovery on, what was found in the local network is dialed as far as it is worth dialing; with discovery off,
/// nobody is. That peers are no longer found is not acted on. Neither changes anything.
pub proof fn law_discovery_dials_only_if_it_is_on<B, C, F: Fn(Score, PeerAction) -> Score>(
    before: Network<C>,
    after: Network<C>,
    peers: Map<PeerId, PeerInfo>,
    peers_after: Map<PeerId, PeerInfo>,
    event: MdnsEvent,
    step: NetworkStep<B>,
    apply: F,
    found: (PeerId, Multiaddr),
)
    requires
        before.outcome(&after, peers, peers_after, SwarmEvent::Mdns(event), step, apply),
    ensures
        !before.discovers() ==> step is Continue,
        event is Expired ==> step is Continue,
        event matches MdnsEvent::Discovered(list) ==> (before.discovers() ==> (step matches NetworkStep::Dial(to_dial) && {
            &&& to_dial@ == worth_dialing(list@, peers, before.manager().target_peers as nat)
            &&& to_dial@.contains(found) <==> list@.contains(found) && connected_ones(peers).len()
                < before.manager().target_peers && (peers.dom().contains(found.0) ==> !peers[found.0].is_connected
                && !peers[found.0].score.banned)
        })),
        peers_after == peers,
        after.inbound() == before.inbound(),
        after.outbound() == before.outbound(),
        after.connections() == before.connections(),
        after.manager() == before.manager(),
        after.discovers() == before.discovers(),
{
    if let MdnsEvent::Discovered(list) = event {
        if before.discovers() {
            lemma_worth_dialing(list@, found, peers, before.manager().target_peers as nat);
        }
    }
}

/// A new connection comes last among those of its peer, whatever its number, and the peer is connected from then on; of
/// what was kept about it, the rest stays, and of a peer that was not known nothing else is kept yet. No other peer and
/// none of its connections changes, no request does, and nothing is told.
pub proof fn law_opened_connection_is_kept<B, C, F: Fn(Score, PeerAction) -> Score>(
    before: Network<C>,
    after: Network<C>,
    peers: Map<PeerId, PeerInfo>,
    peers_after: Map<PeerId, PeerInfo>,
    p: PeerId,
    id: usize,
    step: NetworkStep<B>,
    apply: F,
    q: PeerId,
)
    requires
        before.outcome(
            &after,
            peers,
            peers_after,
            SwarmEvent::ConnectionEstablished { peer_id: p, connection_id: id },
            step,
            apply,
        ),
    ensures
        step is Continue,
        after.connections().dom().contains(p),
        after.connections()[p].last() == id,
        before.connections().dom().contains(p) ==> after.connections()[p].drop_last() == before.connections()[p],
        !before.connections().dom().contains(p) ==> after.connections()[p].len() == 1,
        q != p ==> (after.connections().dom().contains(q) <==> before.connections().dom().contains(q))
            && after.connections()[q] == before.connections()[q],
        peers_after.dom().contains(p),
        peers_after[p].is_connected,
        peers.dom().contains(p) ==> peers_after[p].status == peers[p].status && peers_after[p].score == peers[p].score,
        !peers.dom().contains(p) ==> peers_after[p].status is None && peers_after[p].score.rank == 0
            && !peers_after[p].score.banned,
        q != p ==> (peers_after.dom().contains(q) <==> peers.dom().contains(q)) && peers_after[q] == peers[q],
        after.inbound() == before.inbound(),
        after.outbound() == before.outbound(),
        after.manager() == before.manager(),
        after.discovers() == before.discovers(),
{
    let ids = if before.connections().dom().contains(p) {
        before.connections()[p]
    } else {
        Seq::empty()
    };
    assert(ids.push(id).drop_last() =~= ids);
}

/// A connection that is closed is no longer among those of its peer, and the others stay, as many of each number as
/// there were. A peer is no longer connected if and only if that was the last of its connections; the rest of what is
/// kept about it stays. No other peer and none of its connections changes, no request does, and nothing is told.
pub proof fn law_closed_connection_is_dropped<B, C, F: Fn(Score, PeerAction) -> Score>(
    before: Network<C>,
    after: Network<C>,
    peers: Map<PeerId, PeerInfo>,
    peers_after: Map<PeerId, PeerInfo>,
    p: PeerId,
    id: usize,
    step: NetworkStep<B>,
    apply: F,
    q: PeerId,
    other: usize,
)
    requires
        before.outcome(
            &after,
            peers,
            peers_after,
            SwarmEvent::ConnectionClosed { peer_id: p, connection_id: id },
            step,
            apply,
        ),
    ensures
        step is Continue,
        after.connections().dom().contains(p) ==> after.connections()[p] == without(before.connections()[p], id),
        after.connections().dom().contains(p) ==> before.connections().dom().contains(p) && after.connections()[p].len()
            > 0 && (after.connections()[p].contains(other) <==> other != id && before.connections()[p].contains(other)),
        before.connections().dom().contains(p) && !after.connections().dom().contains(p) && before.connections()[p].contains(
            other,
        ) ==> other == id,
        before.connections().dom().contains(p) && before.connections()[p].contains(other) && other != id
            ==> after.connections().dom().contains(p) && after.connections()[p].contains(other),
        q != p ==> (after.connections().dom().contains(q) <==> before.connections().dom().contains(q))
            && after.connections()[q] == before.connections()[q],
        peers_after.dom() == peers.dom(),
        peers.dom().contains(p) ==> peers_after[p].status == peers[p].status && peers_after[p].score == peers[p].score
            && peers_after[p].is_connected == (peers[p].is_connected && !(before.connections().dom().contains(p)
            && !after.connections().dom().contains(p))),
        q != p && peers.dom().contains(q) ==> peers_after[q] == peers[q],
        after.inbound() == before.inbound(),
        after.outbound() == before.outbound(),
        after.manager() == before.manager(),
        after.discovers() == before.discovers(),
{
    if before.connections().dom().contains(p) {
        let ids = before.connections()[p];
        lemma_without_contains(ids, id, other);
        if without(ids, id).len() > 0 {
            assert(without(ids, id).contains(without(ids, id)[0]));
        }
    }
    assert(peers_after.dom() =~= peers.dom());
}

/// What is left of a list is what was there, but for the number that is taken out.
proof fn lemma_without_contains(ids: Seq<usize>, id: usize, other: usize)
    ensures
        without(ids, id).contains(other) <==> ids.contains(other) && other != id,
    decreases ids.len(),
{
    if ids.len() == 0 {
        reveal(Seq::filter);
        assert(ids =~= Seq::empty());
    } else {
        let rest = ids.drop_last();
        let next = ids.last();
        lemma_without_contains(rest, id, other);
        law_taking_out_goes_one_by_one(rest, id, next);
        assert(rest.push(next) =~= ids);
        lemma_push_contains(rest, next, other);
        lemma_push_contains(without(rest, id), next, other);
    }
}

/// A list that is one longer holds one more.
proof fn lemma_push_contains(ids: Seq<usize>, next: usize, other: usize)
    ensures
        ids.push(next).contains(other) <==> ids.contains(other) || other == next,
{
    if ids.contains(other) {
        let i = choose|i: int| 0 <= i < ids.len() && ids[i] == other;
        assert(ids.push(next)[i] == other);
    }
    assert(ids.push(next)[ids.len() as int] == next);
}

/// To take a number out of a list takes it out wherever it stands, and leaves the others in their order.
pub proof fn law_taking_out_goes_one_by_one(ids: Seq<usize>, id: usize, next: usize)
    ensures
        without(Seq::empty(), id) == Seq::<usize>::empty(),
        next == id ==> without(ids.push(next), id) == without(ids, id),
        next != id ==> without(ids.push(next), id) == without(ids, id).push(next),
{
    reveal(Seq::filter);
    assert(ids.push(next).drop_last() =~= ids);
}

/// An address to listen at, and what is not known, change nothing and tell nothing.
pub proof fn law_other_events_change_nothing<B, C, F: Fn(Score, PeerAction) -> Score>(
    before: Network<C>,
    after: Network<C>,
    peers: Map<PeerId, PeerInfo>,
    peers_after: Map<PeerId, PeerInfo>,
    event: SwarmEvent<B, C>,
    step: NetworkStep<B>,
    apply: F,
)
    requires
        before.outcome(&after, peers, peers_after, event, step, apply),
        event is NewListenAddr || event is Other,
    ensures
        step is Continue,
        peers_after == peers,
        after.inbound() == before.inbound(),
        after.outbound() == before.outbound(),
        after.connections() == before.connections(),
        after.manager() == before.manager(),
        after.discovers() == before.discovers(),
{
}

/// To part from a peer is to close each of its connections: one that was opened and one that is still open, and nothing
/// else. From a peer without a connection there is nothing to part.
pub proof fn law_parting_closes_what_was_opened<B, C, F: Fn(Score, PeerAction) -> Score>(
    before: Network<C>,
    after: Network<C>,
    peers: Map<PeerId, PeerInfo>,
    peers_after: Map<PeerId, PeerInfo>,
    p: PeerId,
    id: usize,
    step: NetworkStep<B>,
    apply: F,
    r: Option<Vec<usize>>,
    i: int,
)
    requires
        before.outcome(
            &after,
            peers,
            peers_after,
            SwarmEvent::ConnectionEstablished { peer_id: p, connection_id: id },
            step,
            apply,
        ),
        after.parting(p, r),
    ensures
        r matches Some(ids) && ids@.len() > 0 && ids@[ids@.len() - 1] == id && (before.connections().dom().contains(p)
            && 0 <= i < before.connections()[p].len() ==> ids@[i] == before.connections()[p][i]),
        r matches Some(ids) && ids@.len() == (if before.connections().dom().contains(p) {
            before.connections()[p].len() + 1
        } else {
            1
        }),
{
}

/// To part lists connections if and only if there are any to the peer.
pub proof fn law_parting_needs_a_connection<C>(n: Network<C>, p: PeerId, r: Option<Vec<usize>>)
    requires
        n.parting(p, r),
    ensures
        r is Some <==> n.connections().dom().contains(p),
        r matches Some(ids) ==> ids@ == n.connections()[p],
{
}

/// A new network has the settings that it is given, waits for nothing and owes nothing, and has no connection.
pub proof fn law_new_network_is_empty<C>(n: Network<C>, config: NetworkConfig, halflife: u128, now: u128, id: u64, p: PeerId)
    requires
        n.is_new(&config, halflife, now),
    ensures
        n.manager().target_peers == config.target_peers,
        n.manager().score_halflife == halflife,
        n.manager().last_decay == now,
        n.discovers() == config.discovery_enabled,
        !n.inbound().dom().contains(id),
        !n.outbound().dom().contains(id),
        !n.connections().dom().contains(p),
{
}

/// All the addresses are dialed if and only if every text is one. Otherwise those are dialed that stand before the first
/// text that is none, in their order, and what is wrong with that text is told.
pub proof fn law_dialing_goes_up_to_the_first_broken_text(texts: Seq<String>, plan: DialPlan, i: int)
    requires
        is_dial_plan(texts, plan),
        0 <= i < texts.len(),
    ensures
        i < plan.addresses@.len() ==> multiaddr_of_text(texts[i]@) == Ok::<Multiaddr, Seq<char>>(plan.addresses@[i]),
        i == plan.addresses@.len() ==> (plan.error matches Some(e) && multiaddr_of_text(texts[i]@) == Err::<
            Multiaddr,
            Seq<char>,
        >(e@)),
        plan.error is None ==> plan.addresses@.len() == texts.len(),
        multiaddr_of_text(texts[i]@) is Err ==> plan.addresses@.len() <= i && plan.error is Some,
{
    if i < plan.addresses@.len() {
        assert(multiaddr_of_text(texts[i]@) == Ok::<Multiaddr, Seq<char>>(plan.addresses@[i]));
    }
}

/// What is said of a request that does not wait names its number, which reads back from the end of the text.
pub proof fn law_unknown_request_is_named(e: UnknownRequest)
    ensures
        e.words().len() > 53,
        uint_value(e.words().skip(53), u64::MAX as nat) == Ok::<nat, ParseUintError>(e.request_id as nat),
{
    reveal_strlit("No pending inbound request found for the request id: ");
    law_decimal_reads_back(e.request_id as nat, u64::MAX as nat);
    assert(e.words().skip(53) =~= decimal(e.request_id as nat));
}

}
