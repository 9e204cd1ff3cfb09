//! Downloading the blocks that a node lacks.

use citrea_network::sync_manager::{
    BatchProcessingError, DownloadAttempt, DownloadInfo, DownloadState, SyncAction, SyncEvent, SyncManager,
    SyncManagerMessage, DEFAULT_STATUS_INTERVAL, DEFAULT_SYNC_INTERVAL, HEAD_BLOCK_MARGIN,
    SKIP_DOWNLOAD_IF_GOSSIP_WITHIN,
};
use citrea_network::types::{NetworkGlobals, NetworkRequest, PeerAction, PeerInfo, PeerStatus, Score};
use libp2p::PeerId;

const SECOND: u128 = 1_000_000_000;

fn peer(head_block: u64, last_pruned_block: Option<u64>, rank: i64) -> PeerInfo {
    PeerInfo {
        is_connected: true,
        status: Some(PeerStatus { head_block, last_pruned_block, has_tx_bodies: true }),
        score: Score { rank, banned: false },
    }
}

fn at(head: u64) -> Result<Option<u64>, String> {
    Ok(Some(head))
}

#[test]
fn intervals_have_defaults() {
    let manager = SyncManager::new(20, None, None);
    assert_eq!(manager.status_interval, 5 * SECOND);
    assert_eq!(manager.sync_interval, SECOND);
    assert_eq!(DEFAULT_STATUS_INTERVAL, 5 * SECOND);
    assert_eq!(DEFAULT_SYNC_INTERVAL, SECOND);
    assert_eq!(SKIP_DOWNLOAD_IF_GOSSIP_WITHIN, 10 * SECOND);
    assert_eq!(HEAD_BLOCK_MARGIN, 5);
    assert_eq!(manager.download_state, DownloadState::Idle);
    assert_eq!(manager.gossip_block_processed_at, None);
    let manager = SyncManager::new(20, Some(7), Some(8));
    assert_eq!((manager.status_interval, manager.sync_interval), (7, 8));
}

#[test]
fn status_is_asked_of_every_known_peer() {
    let mut globals = NetworkGlobals::new();
    let (p, q) = (PeerId::random(), PeerId::random());
    globals.peers.insert(p, PeerInfo::default());
    globals.peers.insert(q, peer(1, None, 0));
    let mut manager = SyncManager::new(20, None, None);
    let SyncAction::Send(requests) = manager.run(SyncEvent::StatusTick, &globals) else {
        panic!("nothing is sent");
    };
    assert_eq!(requests.len(), 2);
    assert!(requests.contains(&NetworkRequest::GetPeerStatus(p)));
    assert!(requests.contains(&NetworkRequest::GetPeerStatus(q)));
}

#[test]
fn peer_with_the_highest_head_is_asked() {
    let mut globals = NetworkGlobals::new();
    let p: Vec<PeerId> = (0..6).map(|_| PeerId::random()).collect();
    globals.peers.insert(p[0], peer(100, None, 3));
    globals.peers.insert(p[1], peer(90, Some(40), 8));
    globals.peers.insert(p[2], peer(100, Some(41), 99));
    globals.peers.insert(p[3], PeerInfo { is_connected: false, ..peer(100, None, 99) });
    globals.peers.insert(p[4], PeerInfo { status: None, ..peer(100, None, 99) });
    globals.peers.insert(
        p[5],
        PeerInfo {
            status: Some(PeerStatus { head_block: 100, last_pruned_block: None, has_tx_bodies: false }),
            ..peer(100, None, 99)
        },
    );
    let mut manager = SyncManager::new(20, None, None);
    assert_eq!(manager.run(SyncEvent::SyncTick, &globals), SyncAction::Download);
    let attempt = manager.download_from_best_peer(0, at(40), &globals);
    let request = NetworkRequest::GetL2BlockRange { peer_id: p[0], start: 41, end: 60 };
    assert_eq!(attempt, Ok(DownloadAttempt::Requested(request)));
    let info = DownloadInfo { peer_id: p[0], start: 41, end: 60 };
    assert_eq!(manager.download_state, DownloadState::Syncing(info));
    assert_eq!(manager.run(SyncEvent::SyncTick, &globals), SyncAction::Wait);
}

#[test]
fn score_decides_between_equal_heads() {
    let mut globals = NetworkGlobals::new();
    let p: Vec<PeerId> = (0..4).map(|_| PeerId::random()).collect();
    assert_eq!(SyncManager::best_peer(40, &globals), None);
    globals.peers.insert(p[0], peer(100, None, 3));
    globals.peers.insert(p[1], peer(100, Some(40), 8));
    globals.peers.insert(p[2], peer(100, None, -2));
    globals.peers.insert(p[3], peer(99, None, 50));
    assert_eq!(SyncManager::best_peer(40, &globals), Some(p[1]));
    assert_eq!(SyncManager::best_peer(39, &globals), Some(p[0]));
    assert_eq!(SyncManager::best_peer(104, &globals), Some(p[1]));
    assert_eq!(SyncManager::best_peer(105, &globals), None);
}

#[test]
fn what_is_sent_after_an_attempt() {
    let mut globals = NetworkGlobals::new();
    let p = PeerId::random();
    globals.peers.insert(p, peer(10, None, 0));
    let manager = SyncManager::new(20, None, None);
    let unread = || -> Result<Option<u64>, String> { panic!("the ledger is not asked") };
    assert_eq!(manager.after_attempt(DownloadAttempt::Skipped, unread, &globals), Ok(vec![]));
    let request = || NetworkRequest::GetL2BlockRange { peer_id: p, start: 1, end: 20 };
    let requested = DownloadAttempt::Requested(request());
    assert_eq!(manager.after_attempt(requested, unread, &globals), Ok(vec![request()]));
    let report = NetworkRequest::ReportPeer(p, PeerAction::LowToleranceError);
    let none = || DownloadAttempt::NoSuitablePeer;
    assert_eq!(manager.after_attempt(none(), || at(15), &globals), Ok(vec![report]));
    assert_eq!(manager.after_attempt(none(), || at(14), &globals), Ok(vec![]));
    assert_eq!(manager.after_attempt(none(), || at(15), &NetworkGlobals::new()), Ok(vec![]));
    let broken = || -> Result<Option<u64>, String> { Err("disk".to_string()) };
    assert_eq!(manager.after_attempt(none(), broken, &globals), Err("disk".to_string()));
}

#[test]
fn empty_ledger_starts_at_the_first_block() {
    let mut globals = NetworkGlobals::new();
    let p = PeerId::random();
    globals.peers.insert(p, peer(0, Some(0), 0));
    let mut manager = SyncManager::new(1, None, None);
    let none: Result<Option<u64>, String> = Ok(None);
    let request = NetworkRequest::GetL2BlockRange { peer_id: p, start: 1, end: 1 };
    assert_eq!(manager.download_from_best_peer(0, none, &globals), Ok(DownloadAttempt::Requested(request)));
}

#[test]
fn margin_decides_who_can_be_asked() {
    let mut globals = NetworkGlobals::new();
    let p = PeerId::random();
    globals.peers.insert(p, peer(100, None, 0));
    let mut manager = SyncManager::new(20, None, None);
    assert_eq!(manager.download_from_best_peer(0, at(105), &globals), Ok(DownloadAttempt::NoSuitablePeer));
    assert_eq!(manager.download_state, DownloadState::Idle);
    let report = NetworkRequest::ReportPeer(p, PeerAction::LowToleranceError);
    assert_eq!(manager.report_unuseful_peers(at(105), &globals), Ok(vec![report]));
    assert_eq!(manager.report_unuseful_peers(at(104), &globals), Ok(vec![]));
    let attempt = manager.download_from_best_peer(0, at(104), &globals).unwrap();
    assert_eq!(
        attempt,
        DownloadAttempt::Requested(NetworkRequest::GetL2BlockRange { peer_id: p, start: 105, end: 124 })
    );
}

#[test]
fn unuseful_peers_are_reported() {
    let mut globals = NetworkGlobals::new();
    let p: Vec<PeerId> = (0..5).map(|_| PeerId::random()).collect();
    globals.peers.insert(p[0], peer(100, Some(51), 0));
    globals.peers.insert(p[1], peer(100, Some(50), 0));
    globals.peers.insert(p[2], PeerInfo { is_connected: false, ..peer(45, None, 0) });
    globals.peers.insert(p[3], PeerInfo::default());
    globals.peers.insert(p[4], peer(46, None, 0));
    let manager = SyncManager::new(20, None, None);
    let reports = manager.report_unuseful_peers(at(50), &globals).unwrap();
    assert_eq!(reports.len(), 2);
    for id in [p[0], p[2]] {
        assert!(reports.contains(&NetworkRequest::ReportPeer(id, PeerAction::LowToleranceError)));
    }
}

#[test]
fn errors_of_the_ledger_are_handed_on() {
    let globals = NetworkGlobals::new();
    let mut manager = SyncManager::new(20, None, None);
    let broken: Result<Option<u64>, String> = Err("disk".to_string());
    assert_eq!(manager.download_from_best_peer(0, broken.clone(), &globals), Err("disk".to_string()));
    assert_eq!(manager.report_unuseful_peers(broken, &globals), Err("disk".to_string()));
    assert_eq!(manager.download_state, DownloadState::Idle);
}

#[test]
fn gossip_delays_downloads() {
    let mut globals = NetworkGlobals::new();
    globals.peers.insert(PeerId::random(), peer(100, None, 0));
    let mut manager = SyncManager::new(20, None, None);
    let message = SyncManagerMessage::GossipBlockProcessed(100 * SECOND);
    assert_eq!(manager.run(SyncEvent::Message(message), &globals), SyncAction::Wait);
    assert!(manager.has_recent_gossip(105 * SECOND));
    assert!(!manager.has_recent_gossip(110 * SECOND));
    for now in [99 * SECOND, 100 * SECOND, 110 * SECOND - 1] {
        assert_eq!(manager.download_from_best_peer(now, at(1), &globals), Ok(DownloadAttempt::Skipped));
        let broken: Result<Option<u64>, String> = Err("disk".to_string());
        assert_eq!(manager.download_from_best_peer(now, broken, &globals), Ok(DownloadAttempt::Skipped));
    }
    let attempt = manager.download_from_best_peer(110 * SECOND, at(1), &globals);
    assert!(matches!(attempt, Ok(DownloadAttempt::Requested(_))));
}

#[test]
fn downloads_follow_on_each_other() {
    let mut globals = NetworkGlobals::new();
    let p = PeerId::random();
    globals.peers.insert(p, peer(100, None, 0));
    let mut manager = SyncManager::new(10, None, None);
    manager.download_from_best_peer(0, at(5), &globals).unwrap();
    let info = DownloadInfo { peer_id: p, start: 6, end: 15 };
    let message = SyncManagerMessage::BatchProcessed(info, Ok(()));
    assert_eq!(manager.run(SyncEvent::Message(message), &globals), SyncAction::Download);
    assert_eq!(manager.download_state, DownloadState::Idle);
    let attempt = manager.download_from_best_peer(0, at(15), &globals).unwrap();
    let request = NetworkRequest::GetL2BlockRange { peer_id: p, start: 16, end: 25 };
    assert_eq!(attempt, DownloadAttempt::Requested(request));
}

#[test]
fn failed_batches_are_reported() {
    let mut globals = NetworkGlobals::new();
    let p = PeerId::random();
    globals.peers.insert(p, peer(100, None, 0));
    for (error, action) in [
        (BatchProcessingError::DownloadFailed, PeerAction::MidToleranceError),
        (BatchProcessingError::ValidationError, PeerAction::Fatal),
    ] {
        let mut manager = SyncManager::new(10, None, None);
        manager.download_from_best_peer(0, at(5), &globals).unwrap();
        let info = DownloadInfo { peer_id: p, start: 6, end: 15 };
        let message = SyncManagerMessage::BatchProcessed(info, Err(error));
        let expected = SyncAction::Send(vec![NetworkRequest::ReportPeer(p, action)]);
        assert_eq!(manager.on_sync_manager_event(message), expected);
        assert_eq!(manager.download_state, DownloadState::Idle);
        assert_eq!(SyncManager::on_batch_processing_error(p, error), NetworkRequest::ReportPeer(p, action));
    }
}
