//! The peers that a node keeps.

use citrea_network::peer_manager::{HeartbeatResult, PeerManager, ReportPeerResult};
use citrea_network::peer_map::PeerMap;
use citrea_network::types::{NetworkGlobals, PeerAction, PeerInfo, PeerStatus, Score};
use libp2p::{Multiaddr, PeerId};
use std::cell::RefCell;

fn ids(n: usize) -> Vec<PeerId> {
    (0..n).map(|_| PeerId::random()).collect()
}

fn info(is_connected: bool, has_status: bool, rank: i64, banned: bool) -> PeerInfo {
    let status = PeerStatus { head_block: 1, last_pruned_block: None, has_tx_bodies: true };
    PeerInfo { is_connected, status: has_status.then_some(status), score: Score { rank, banned } }
}

fn apply(score: Score, action: PeerAction) -> Score {
    let rank = match action {
        PeerAction::Fatal => i64::MIN,
        PeerAction::LowToleranceError => score.rank - 10,
        PeerAction::MidToleranceError => score.rank - 5,
        PeerAction::HighToleranceError => score.rank - 1,
    };
    Score { rank, banned: rank < -20 }
}

fn decay(score: Score) -> Score {
    Score { rank: score.rank / 2, banned: score.rank / 2 < -20 }
}

fn unused(_: Score) -> Score {
    panic!("scores do not decay yet")
}

#[test]
fn table_holds_one_value_for_each_peer() {
    let p = ids(3);
    let mut table: PeerMap<u8> = PeerMap::new();
    assert_eq!(table.len(), 0);
    table.insert(p[0], 1);
    table.insert(p[1], 2);
    table.insert(p[0], 3);
    assert_eq!(table.len(), 2);
    assert_eq!(table.get(&p[0]), Some(&3));
    assert_eq!(table.get(&p[1]), Some(&2));
    assert_eq!(table.get(&p[2]), None);
    assert_eq!(table.keys(), [p[0], p[1]]);
    assert_eq!(table.entries().len(), 2);
    assert_eq!(table.remove(&p[2]), None);
    assert_eq!(table.remove(&p[0]), Some(3));
    assert_eq!(table.remove(&p[0]), None);
    assert_eq!(table.keys(), [p[1]]);
}

#[test]
fn connections_are_marked() {
    let p = PeerId::random();
    let manager = PeerManager::new(5, 100, 0);
    let mut globals = NetworkGlobals::new();
    assert!(!manager.disconnected_peer(&mut globals, &p));
    assert_eq!(globals.peers.len(), 0);
    manager.connected_peer(&mut globals, &p);
    assert_eq!(globals.peers.get(&p), Some(&PeerInfo { is_connected: true, ..PeerInfo::default() }));
    globals.peers.insert(p, info(true, true, -3, false));
    assert!(manager.disconnected_peer(&mut globals, &p));
    assert_eq!(globals.peers.get(&p), Some(&info(false, true, -3, false)));
    manager.connected_peer(&mut globals, &p);
    assert_eq!(globals.peers.get(&p), Some(&info(true, true, -3, false)));
}

#[test]
fn reports_move_scores_and_tell_a_ban_once() {
    let p = PeerId::random();
    let manager = PeerManager::new(5, 100, 0);
    let mut globals = NetworkGlobals::default();
    let r = manager.report_peer(&mut globals, &p, PeerAction::Fatal, apply);
    assert_eq!(r, ReportPeerResult::NoAction);
    assert_eq!(globals.peers.len(), 0);
    manager.connected_peer(&mut globals, &p);
    for rank in [-10, -20] {
        let r = manager.report_peer(&mut globals, &p, PeerAction::LowToleranceError, apply);
        assert_eq!(r, ReportPeerResult::NoAction);
        assert_eq!(globals.peers.get(&p).unwrap().score.rank, rank);
    }
    let r = manager.report_peer(&mut globals, &p, PeerAction::HighToleranceError, apply);
    assert_eq!(r, ReportPeerResult::Ban);
    assert!(globals.peers.get(&p).unwrap().score.is_banned());
    let r = manager.report_peer(&mut globals, &p, PeerAction::MidToleranceError, apply);
    assert_eq!(r, ReportPeerResult::NoAction);
    assert!(globals.peers.get(&p).unwrap().is_connected);
}

#[test]
fn heartbeat_counts_all_peers() {
    let p = ids(3);
    let mut globals = NetworkGlobals::new();
    let mut manager = PeerManager::new(2, 100, 0);
    assert_eq!(manager.heartbeat(&mut globals, 1, unused), HeartbeatResult::WantedPeers(2));
    globals.peers.insert(p[0], info(false, false, 0, false));
    assert_eq!(manager.heartbeat(&mut globals, 1, unused), HeartbeatResult::WantedPeers(1));
    globals.peers.insert(p[1], info(true, false, 0, false));
    assert_eq!(manager.heartbeat(&mut globals, 1, unused), HeartbeatResult::NoAction);
    globals.peers.insert(p[2], info(false, true, 0, false));
    assert_eq!(manager.heartbeat(&mut globals, 1, unused), HeartbeatResult::ExcessPeers(vec![]));
}

#[test]
fn lowest_scoring_peers_are_pruned() {
    let p = ids(6);
    let mut globals = NetworkGlobals::new();
    globals.peers.insert(p[0], info(true, true, 7, false));
    globals.peers.insert(p[1], info(true, true, -4, false));
    globals.peers.insert(p[2], info(false, true, -9, false));
    globals.peers.insert(p[3], info(true, false, -9, false));
    globals.peers.insert(p[4], info(true, true, 1, false));
    globals.peers.insert(p[5], info(true, true, -30, true));
    let mut manager = PeerManager::new(4, 100, 0);
    assert_eq!(manager.heartbeat(&mut globals, 1, unused), HeartbeatResult::ExcessPeers(vec![p[5], p[1]]));
    manager.target_peers = 0;
    assert_eq!(
        manager.heartbeat(&mut globals, 1, unused),
        HeartbeatResult::ExcessPeers(vec![p[5], p[1], p[4], p[0]])
    );
}

#[test]
fn scores_decay_after_a_halflife() {
    let p = PeerId::random();
    let mut globals = NetworkGlobals::new();
    globals.peers.insert(p, info(true, true, -40, true));
    let mut manager = PeerManager::new(1, 100, 1000);
    manager.heartbeat(&mut globals, 1099, unused);
    assert_eq!(manager.last_decay, 1000);
    manager.heartbeat(&mut globals, 1100, decay);
    assert_eq!(globals.peers.get(&p), Some(&info(true, true, -20, false)));
    assert_eq!(manager.last_decay, 1100);
    manager.heartbeat(&mut globals, 1199, unused);
    manager.heartbeat(&mut globals, 500, unused);
    manager.heartbeat(&mut globals, 1200, decay);
    assert_eq!(globals.peers.get(&p).unwrap().score.rank, -10);
}

#[test]
fn every_score_decays_once() {
    let p = ids(4);
    let mut globals = NetworkGlobals::new();
    for (k, id) in p.iter().enumerate() {
        globals.peers.insert(*id, info(false, false, k as i64, false));
    }
    let seen = RefCell::new(Vec::new());
    let mut manager = PeerManager::new(4, 0, 0);
    manager.heartbeat(&mut globals, 0, |score: Score| {
        seen.borrow_mut().push(score.rank);
        Score { rank: score.rank + 100, banned: false }
    });
    let mut seen = seen.into_inner();
    seen.sort();
    assert_eq!(seen, [0, 1, 2, 3]);
    for (k, id) in p.iter().enumerate() {
        assert_eq!(globals.peers.get(id).unwrap().score.rank, k as i64 + 100);
    }
}

#[test]
fn peers_are_dialed_up_to_the_target() {
    let p = ids(5);
    let mut globals = NetworkGlobals::new();
    globals.peers.insert(p[0], info(true, false, 0, false));
    globals.peers.insert(p[1], info(false, false, -50, true));
    globals.peers.insert(p[2], info(false, false, -5, false));
    let manager = PeerManager::new(2, 100, 0);
    assert!(!manager.should_dial_peer(&globals, p[0]));
    assert!(!manager.should_dial_peer(&globals, p[1]));
    assert!(manager.should_dial_peer(&globals, p[2]));
    assert!(manager.should_dial_peer(&globals, p[3]));
    globals.peers.insert(p[4], info(true, false, 0, false));
    assert!(!manager.should_dial_peer(&globals, p[2]));
    assert!(!manager.should_dial_peer(&globals, p[3]));
}

#[test]
fn discovered_peers_are_sifted_in_order() {
    let p = ids(4);
    let addr: Multiaddr = "/ip4/1.2.3.4/tcp/5".parse().unwrap();
    let mut globals = NetworkGlobals::new();
    globals.peers.insert(p[1], info(false, false, -50, true));
    let manager = PeerManager::new(1, 100, 0);
    let list: Vec<(PeerId, Multiaddr)> = p.iter().map(|id| (*id, addr.clone())).collect();
    let to_dial: Vec<PeerId> = manager.discovered_peers(&globals, list).into_iter().map(|f| f.0).collect();
    assert_eq!(to_dial, [p[0], p[2], p[3]]);
}
