//! What a node does about events of the network.

use citrea_network::config::{GossipsubConfig, NetworkConfig};
use citrea_network::gossip::{build_gossipsub_config, content_message_id, message_id};
use citrea_network::network::{
    parse_dial_address, plan_dials, DialPlan, Eth2RpcEvent, GossipsubEvent, MdnsEvent, Network, NetworkEvent, NetworkStep, SwarmEvent,
    UnknownRequest, LISTEN_ADDRESS_QUIC, LISTEN_ADDRESS_TCP, NEW_HEAD_TOPIC,
};
use citrea_network::peer_manager::{HeartbeatResult, ReportPeerResult};
use citrea_network::rpc::{
    BlocksByRangeRequest, Eth2Request, Eth2Response, StatusResponse, BLOCKS_BY_RANGE_PROTOCOL, STATUS_PROTOCOL,
};
use citrea_network::service::{
    collect_blocks, status_response, NetworkService, RequestError, ServiceAction, ServiceEvent, BLOCK_NOT_FOUND,
    MAX_BLOCK_RANGE, RANGE_TOO_LARGE,
};
use citrea_network::types::{NetworkGlobals, NetworkRequest, PeerAction, PeerInfo, Score};
use libp2p::gossipsub::{Message, TopicHash, ValidationMode};
use libp2p::{Multiaddr, PeerId};

type Block = u32;
type Channel = &'static str;
type Event = SwarmEvent<Block, Channel>;
type Step = NetworkStep<Block>;

fn network(target_peers: usize, discovery_enabled: bool) -> Network<Channel> {
    let config = NetworkConfig { target_peers, discovery_enabled, ..NetworkConfig::default() };
    Network::build(&config, 100, 0)
}

fn apply(score: Score, action: PeerAction) -> Score {
    let rank = match action {
        PeerAction::Fatal => -100,
        PeerAction::HighToleranceError => score.rank - 1,
        _ => panic!("{action:?}"),
    };
    Score { rank, banned: rank <= -100 }
}

fn opened(peer_id: PeerId, connection_id: usize) -> Event {
    SwarmEvent::ConnectionEstablished { peer_id, connection_id }
}

fn closed(peer_id: PeerId, connection_id: usize) -> Event {
    SwarmEvent::ConnectionClosed { peer_id, connection_id }
}

fn is_connected(globals: &NetworkGlobals, p: &PeerId) -> bool {
    globals.peers.get(p).unwrap().is_connected
}

#[test]
fn peer_is_connected_while_a_connection_is_open() {
    let p = PeerId::random();
    let mut globals = NetworkGlobals::new();
    let mut network = network(3, true);
    assert_eq!(network.disconnect_peer(&p), None);
    assert_eq!(network.next_event(&mut globals, opened(p, 4), apply), Step::Continue);
    assert_eq!(network.next_event(&mut globals, opened(p, 9), apply), Step::Continue);
    assert!(is_connected(&globals, &p));
    assert_eq!(network.disconnect_peer(&p), Some(vec![4, 9]));
    network.next_event(&mut globals, closed(p, 5), apply);
    assert_eq!(network.disconnect_peer(&p), Some(vec![4, 9]));
    network.next_event(&mut globals, closed(p, 4), apply);
    assert!(is_connected(&globals, &p));
    assert_eq!(network.disconnect_peer(&p), Some(vec![9]));
    network.next_event(&mut globals, closed(p, 9), apply);
    assert!(!is_connected(&globals, &p));
    assert_eq!(network.disconnect_peer(&p), None);
    network.next_event(&mut globals, closed(p, 9), apply);
    assert_eq!(globals.peers.len(), 1);
}

#[test]
fn opening_and_closing_leaves_the_other_connections() {
    let (p, q) = (PeerId::random(), PeerId::random());
    let mut globals = NetworkGlobals::new();
    let mut network = network(3, true);
    network.next_event(&mut globals, opened(p, 1), apply);
    network.next_event(&mut globals, opened(q, 2), apply);
    network.next_event(&mut globals, opened(p, 3), apply);
    network.next_event(&mut globals, closed(p, 3), apply);
    assert_eq!(network.disconnect_peer(&p), Some(vec![1]));
    assert_eq!(network.disconnect_peer(&q), Some(vec![2]));
}

#[test]
fn other_events_change_nothing() {
    let mut globals = NetworkGlobals::new();
    let mut network = network(3, true);
    for event in [
        Event::NewListenAddr,
        Event::Other,
        Event::Mdns(MdnsEvent::Expired),
        Event::Gossipsub(GossipsubEvent::Subscribed),
        Event::Gossipsub(GossipsubEvent::Unsubscribed),
        Event::Eth2Rpc(Eth2RpcEvent::ResponseSent),
    ] {
        assert_eq!(network.next_event(&mut globals, event, apply), Step::Continue);
    }
    assert_eq!(globals.peers.len(), 0);
}

#[test]
fn discovered_peers_are_dialed_if_discovery_is_on() {
    let (p, q) = (PeerId::random(), PeerId::random());
    let addr: Multiaddr = "/ip4/1.2.3.4/tcp/5".parse().unwrap();
    let list = vec![(p, addr.clone()), (q, addr.clone())];
    let mut globals = NetworkGlobals::new();
    globals.peers.insert(p, PeerInfo { score: Score { rank: -100, banned: true }, ..PeerInfo::default() });
    let mut on = network(3, true);
    let step = on.next_event(&mut globals, Event::Mdns(MdnsEvent::Discovered(list.clone())), apply);
    assert_eq!(step, Step::Dial(vec![(q, addr)]));
    let mut off = network(3, false);
    assert_eq!(off.next_event(&mut globals, Event::Mdns(MdnsEvent::Discovered(list)), apply), Step::Continue);
}

#[test]
fn gossiped_blocks_are_handed_on_and_the_rest_is_rejected() {
    let p = PeerId::random();
    let mut globals = NetworkGlobals::new();
    let mut network = network(3, true);
    let message = |block| {
        Event::Gossipsub(GossipsubEvent::Message { propagation_source: p, message_id: vec![1, 2], block })
    };
    let step = network.next_event(&mut globals, message(Some(7)), apply);
    let event = NetworkEvent::GossipBlock { peer_id: p, l2_block_response: 7, message_id: vec![1, 2] };
    assert_eq!(step, Step::Event(event));
    let step = network.next_event(&mut globals, message(None), apply);
    assert_eq!(step, Step::Reject { propagation_source: p, message_id: vec![1, 2] });
    assert_eq!(globals.peers.len(), 0);
}

#[test]
fn bad_gossip_is_reported() {
    let p = PeerId::random();
    let mut globals = NetworkGlobals::new();
    let mut network = network(3, true);
    let slow = || Event::Gossipsub(GossipsubEvent::SlowPeer { peer_id: p });
    network.next_event(&mut globals, slow(), apply);
    assert_eq!(globals.peers.len(), 0);
    network.next_event(&mut globals, opened(p, 1), apply);
    assert_eq!(network.next_event(&mut globals, slow(), apply), Step::Continue);
    assert_eq!(globals.peers.get(&p).unwrap().score, Score { rank: -1, banned: false });
    let silent = Event::Gossipsub(GossipsubEvent::GossipsubNotSupported { peer_id: p });
    assert_eq!(network.next_event(&mut globals, silent, apply), Step::Continue);
    assert_eq!(globals.peers.get(&p).unwrap().score, Score { rank: -100, banned: true });
    assert!(is_connected(&globals, &p));
}

#[test]
fn request_is_answered_once() {
    let mut globals = NetworkGlobals::new();
    let mut network = network(3, true);
    let e = network.send_rpc_response(12).unwrap_err();
    assert_eq!(e, UnknownRequest { request_id: 12 });
    assert_eq!(e.message(), "No pending inbound request found for the request id: 12");
    let event = Eth2RpcEvent::Request { request_id: 12, request: Eth2Request::Status, channel: "back" };
    let step = network.next_event(&mut globals, Event::Eth2Rpc(event), apply);
    assert_eq!(step, Step::Event(NetworkEvent::RequestReceived { request_id: 12, request: Eth2Request::Status }));
    assert_eq!(network.send_rpc_response(13), Err(UnknownRequest { request_id: 13 }));
    assert_eq!(network.send_rpc_response(12), Ok("back"));
    assert_eq!(network.send_rpc_response(12), Err(UnknownRequest { request_id: 12 }));
}

#[test]
fn failed_request_of_a_peer_is_not_answered() {
    let mut globals = NetworkGlobals::new();
    let mut network = network(3, true);
    let event = Eth2RpcEvent::Request { request_id: 1, request: Eth2Request::Status, channel: "back" };
    network.next_event(&mut globals, Event::Eth2Rpc(event), apply);
    let failure = Event::Eth2Rpc(Eth2RpcEvent::InboundFailure { request_id: 1 });
    assert_eq!(network.next_event(&mut globals, failure, apply), Step::Continue);
    assert!(network.send_rpc_response(1).is_err());
}

#[test]
fn own_requests_are_tracked_to_their_end() {
    let p = PeerId::random();
    let range = Eth2Request::BlocksByRange(BlocksByRangeRequest { start: 1, end: 3 });
    let mut globals = NetworkGlobals::new();
    let mut network = network(3, true);
    network.send_rpc_request(1, Eth2Request::Status);
    network.send_rpc_request(2, range);
    assert!(network.is_tracked(1) && network.is_tracked(2) && !network.is_tracked(3));
    let failure = Event::Eth2Rpc(Eth2RpcEvent::OutboundFailure { peer: p, request_id: 2 });
    let step = network.next_event(&mut globals, failure, apply);
    assert_eq!(step, Step::Event(NetworkEvent::RPCFailed { peer_id: p, request: range }));
    assert!(!network.is_tracked(2));
    let status = StatusResponse { head_block: 5, last_pruned_block: None };
    let answer = Eth2RpcEvent::Response { peer: p, request_id: 1, response: Eth2Response::Status(status) };
    let step = network.next_event(&mut globals, Event::Eth2Rpc(answer), apply);
    let expected = NetworkEvent::ResponseReceived { peer_id: p, response: Eth2Response::Status(status) };
    assert_eq!(step, Step::Event(expected));
    assert!(!network.is_tracked(1));
}

#[test]
fn heartbeat_and_report_go_through() {
    let p = PeerId::random();
    let mut globals = NetworkGlobals::new();
    let mut network = network(1, true);
    let keep = |score: Score| Score { rank: score.rank + 50, ..score };
    assert_eq!(network.peer_manager_heartbeat(&mut globals, 99, keep), HeartbeatResult::WantedPeers(1));
    network.next_event(&mut globals, opened(p, 1), apply);
    assert_eq!(network.peer_manager_heartbeat(&mut globals, 99, keep), HeartbeatResult::NoAction);
    assert_eq!(globals.peers.get(&p).unwrap().score.rank, 0);
    network.peer_manager_heartbeat(&mut globals, 100, keep);
    assert_eq!(globals.peers.get(&p).unwrap().score.rank, 50);
    assert_eq!(network.report_peer(&mut globals, &p, PeerAction::Fatal, apply), ReportPeerResult::Ban);
    assert_eq!(network.report_peer(&mut globals, &p, PeerAction::Fatal, apply), ReportPeerResult::NoAction);
    assert_eq!(network.disconnect_peer(&p), Some(vec![1]));
}

#[test]
fn dial_addresses_are_read() {
    let addr = parse_dial_address(&"/ip4/1.2.3.4/tcp/5".to_string()).unwrap();
    assert_eq!(addr.to_string(), "/ip4/1.2.3.4/tcp/5");
    for text in ["nonsense", "/ip4/1.2.3.400/tcp/5", "/ip4"] {
        let expected = text.parse::<Multiaddr>().unwrap_err().to_string();
        assert_eq!(parse_dial_address(&text.to_string()), Err(expected));
    }
    for text in [LISTEN_ADDRESS_QUIC, LISTEN_ADDRESS_TCP] {
        assert_eq!(parse_dial_address(&text.to_string()).unwrap().to_string(), text);
    }
    assert_eq!(LISTEN_ADDRESS_QUIC, "/ip4/0.0.0.0/udp/0/quic-v1");
    assert_eq!(LISTEN_ADDRESS_TCP, "/ip4/0.0.0.0/tcp/0");
}

#[test]
fn dialing_stops_at_the_first_text_that_is_no_address() {
    let texts = |list: &[&str]| -> Vec<String> { list.iter().map(|s| s.to_string()).collect() };
    let plan = plan_dials(&texts(&["/ip4/1.2.3.4/tcp/5", "/ip6/::1/udp/6/quic-v1"]));
    let dialed: Vec<String> = plan.addresses.iter().map(|a| a.to_string()).collect();
    assert_eq!(dialed, ["/ip4/1.2.3.4/tcp/5", "/ip6/::1/udp/6/quic-v1"]);
    assert_eq!(plan.error, None);
    let plan = plan_dials(&texts(&["/ip4/1.2.3.4/tcp/5", "nonsense", "/ip4/1.2.3.4/tcp/6"]));
    assert_eq!(plan.addresses.len(), 1);
    assert_eq!(plan.error, Some("nonsense".parse::<Multiaddr>().unwrap_err().to_string()));
    assert_eq!(plan_dials(&vec![]), DialPlan { addresses: vec![], error: None });
}

#[test]
fn names_of_topics_and_protocols() {
    assert_eq!(NEW_HEAD_TOPIC, "new-head");
    assert_eq!(STATUS_PROTOCOL, "/eth2/beacon_chain/req/status/1/json");
    assert_eq!(BLOCKS_BY_RANGE_PROTOCOL, "/eth2/beacon_chain/req/beacon_blocks_by_range/2/json");
}

fn gossip(data: &[u8], sequence_number: u64) -> Message {
    Message {
        source: Some(PeerId::random()),
        data: data.to_vec(),
        sequence_number: Some(sequence_number),
        topic: TopicHash::from_raw(NEW_HEAD_TOPIC),
    }
}

#[test]
fn messages_are_told_apart_by_content() {
    let config = build_gossipsub_config(&GossipsubConfig { heartbeat_interval_secs: 17 }).unwrap();
    assert_eq!(config.heartbeat_interval().as_secs(), 17);
    assert!(matches!(config.validation_mode(), ValidationMode::Strict));
    let id = config.message_id(&gossip(b"block", 1));
    assert_eq!(id, config.message_id(&gossip(b"block", 2)));
    assert_ne!(id, config.message_id(&gossip(b"other", 1)));
    assert_eq!(id.0, content_message_id(&b"block".to_vec()).into_bytes());
    assert_eq!(content_message_id(&vec![7; 100]), content_message_id(&vec![7; 100]));
    let other = build_gossipsub_config(&GossipsubConfig { heartbeat_interval_secs: 1 }).unwrap();
    assert_eq!(id, other.message_id(&gossip(b"block", 3)));
    assert_ne!(content_message_id(&vec![]), content_message_id(&vec![0]));
    assert_eq!(message_id(0), "0");
    assert_eq!(message_id(u64::MAX), "18446744073709551615");
}

fn broken_pruned() -> Result<Option<u64>, String> {
    Err("pruned".to_string())
}

fn broken_head() -> Result<u64, String> {
    Err("head".to_string())
}

fn blocks(start: u64, end: u64) -> Result<Vec<Option<Block>>, String> {
    if end == 13 {
        return Err("disk".to_string());
    }
    Ok((start..=end).map(|k| if k == 7 { None } else { Some(k as u32) }).collect())
}

#[test]
fn ranges_of_blocks_are_answered() {
    let ask = |start, end| NetworkService::<Channel>::l2_blocks_by_range(blocks, start, end);
    assert_eq!(ask(1, 3), Ok(vec![1, 2, 3]));
    assert_eq!(ask(6, 6), Ok(vec![6]));
    assert_eq!(ask(6, 8), Err(RequestError::BlockNotFound));
    assert_eq!(ask(12, 13), Err(RequestError::Ledger("disk".to_string())));
    assert_eq!(ask(8, 1008).unwrap().len(), 1001);
    assert_eq!(ask(8, 1009), Err(RequestError::RangeTooLarge));
    assert_eq!(ask(0, u64::MAX), Err(RequestError::RangeTooLarge));
    assert_eq!(MAX_BLOCK_RANGE, 1000);
    assert_eq!(RANGE_TOO_LARGE, "Requested block range too large. Max range is 1000 blocks");
    assert_eq!(BLOCK_NOT_FOUND, "Block not found");
    let none: Result<Vec<Option<Block>>, String> = Ok(vec![]);
    assert_eq!(collect_blocks(none), Ok(vec![]));
}

#[test]
fn requests_of_peers_are_answered() {
    let handle = |request, pruned: fn() -> Result<Option<u64>, String>, head: fn() -> Result<u64, String>| {
        NetworkService::<Channel>::handle_incoming_rpc_request(request, pruned, head, blocks)
    };
    let status = StatusResponse { head_block: 9, last_pruned_block: Some(2) };
    assert_eq!(handle(Eth2Request::Status, || Ok(Some(2)), || Ok(9)), Ok(Eth2Response::Status(status)));
    let unread: fn() -> Result<u64, String> = || panic!("the head is not asked for");
    assert_eq!(handle(Eth2Request::Status, broken_pruned, unread), Err(RequestError::Ledger("pruned".to_string())));
    assert_eq!(handle(Eth2Request::Status, || Ok(None), broken_head), Err(RequestError::Ledger("head".to_string())));
    let range = |start, end| Eth2Request::BlocksByRange(BlocksByRangeRequest { start, end });
    assert_eq!(handle(range(4, 5), broken_pruned, unread), Ok(Eth2Response::BlocksByRange(vec![4, 5])));
    assert_eq!(handle(range(7, 7), broken_pruned, unread), Err(RequestError::BlockNotFound));
    assert_eq!(handle(range(0, 1001), broken_pruned, unread), Err(RequestError::RangeTooLarge));
    let r: Result<Eth2Response<Block>, RequestError<String>> = status_response(Ok(Some(2)), Ok(9));
    assert_eq!(r, Ok(Eth2Response::Status(status)));
}

#[test]
fn service_answers_what_came_in() {
    let mut globals = NetworkGlobals::new();
    let mut service: NetworkService<Channel> = NetworkService::build(&NetworkConfig::default(), 100, 0);
    let event = Eth2RpcEvent::Request { request_id: 4, request: Eth2Request::Status, channel: "back" };
    let step = service.network.next_event(&mut globals, Event::Eth2Rpc(event), apply);
    let NetworkStep::Event(event) = step else {
        panic!("no event");
    };
    let action = service.run::<Block, String>(ServiceEvent::Network(event));
    assert_eq!(action, ServiceAction::Handle { request_id: 4, request: Eth2Request::Status });
    let failed = ServiceEvent::Answer { request_id: 4, result: Err(RequestError::Ledger("disk".to_string())) };
    assert_eq!(service.run::<Block, String>(failed), ServiceAction::Wait);
    let answer = || {
        let response: Eth2Response<Block> = Eth2Response::BlocksByRange(vec![1]);
        ServiceEvent::Answer { request_id: 4, result: Ok(response) }
    };
    let sent = ServiceAction::Respond { channel: "back", response: Eth2Response::BlocksByRange(vec![1]) };
    assert_eq!(service.run::<Block, String>(answer()), sent);
    assert_eq!(service.run::<Block, String>(answer()), ServiceAction::Wait);
}

#[test]
fn service_asks_from_time_to_time() {
    let mut service: NetworkService<Channel> = NetworkService::build(&NetworkConfig::default(), 100, 0);
    let range = Eth2Request::BlocksByRange(BlocksByRangeRequest { start: 1, end: 3 });
    assert_eq!(service.run::<Block, String>(ServiceEvent::Tick), ServiceAction::Ask(range));
    let request = ServiceEvent::Request(NetworkRequest::AddPeer(PeerId::random()));
    assert_eq!(service.run::<Block, String>(request), ServiceAction::Wait);
    let gone = ServiceEvent::Network(NetworkEvent::DisconnectPeer(PeerId::random()));
    assert_eq!(service.run::<Block, String>(gone), ServiceAction::Wait);
    assert_eq!(service.run::<Block, String>(ServiceEvent::Shutdown), ServiceAction::Stop);
}
