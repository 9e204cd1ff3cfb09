//! Downloading the blocks that a node lacks, from the best of its peers.

use crate::peer_map::{
    as_map, distinct_keys, lemma_entry, lemma_picked_all, lemma_picked_step, lemma_push_fresh, peers_where,
    picked,
};
use crate::types::{NetworkGlobals, NetworkRequest, PeerAction, PeerInfo, PeerStatus};
use libp2p::PeerId;
use vstd::prelude::*;

verus! {

/// How far a peer may lag behind and still be of use.
pub const HEAD_BLOCK_MARGIN: u64 = 5;

/// For how many nanoseconds after a gossiped block no download starts.
pub const SKIP_DOWNLOAD_IF_GOSSIP_WITHIN: u128 = 10_000_000_000;

/// Nanoseconds between two rounds of status requests, unless set otherwise.
pub const DEFAULT_STATUS_INTERVAL: u128 = 5_000_000_000;

/// Nanoseconds between two attempts to download, unless set otherwise.
pub const DEFAULT_SYNC_INTERVAL: u128 = 1_000_000_000;

/// A range of blocks that is downloaded from a peer.
#[derive(Debug, PartialEq, Eq)]
pub struct DownloadInfo {
    /// The peer that the blocks come from.
    pub peer_id: PeerId,
    /// The first block.
    pub start: u64,
    /// The last block.
    pub end: u64,
}

/// Why a batch of blocks was not taken over.
#[derive(Debug, Clone, Copy, PartialEq, Eq, Structural)]
pub enum BatchProcessingError {
    /// The blocks did not come.
    DownloadFailed,
    /// The blocks are not valid.
    ValidationError,
}

/// What the rest of the node tells the sync manager.
#[derive(Debug, PartialEq, Eq)]
pub enum SyncManagerMessage {
    /// A downloaded batch was taken over, or was not.
    BatchProcessed(DownloadInfo, Result<(), BatchProcessingError>),
    /// A gossiped block was taken over at this time.
    GossipBlockProcessed(u128),
}

/// Whether a download is under way.
#[derive(Debug, PartialEq, Eq)]
pub enum DownloadState {
    /// None is.
    Idle,
    /// This one is.
    Syncing(DownloadInfo),
}

/// What wakes the sync manager.
#[derive(Debug, PartialEq, Eq)]
pub enum SyncEvent {
    /// A message of the rest of the node.
    Message(SyncManagerMessage),
    /// The time between two rounds of status requests has passed.
    StatusTick,
    /// The time between two attempts to download has passed.
    SyncTick,
}

/// What the sync manager wants done.
#[derive(Debug, PartialEq, Eq)]
pub enum SyncAction {
    /// Hand these requests to the network, in this order.
    Send(Vec<NetworkRequest>),
    /// Attempt a download.
    Download,
    /// Nothing.
    Wait,
}

/// What came of an attempt to download.
#[derive(Debug, PartialEq, Eq)]
pub enum DownloadAttempt {
    /// Gossip brings the blocks, so nothing was asked for.
    Skipped,
    /// No peer can be asked.
    NoSuitablePeer,
    /// This request starts the download.
    Requested(NetworkRequest),
}

/// A peer that can be asked for the blocks above `head`.
pub open spec fn is_suitable(head: u64) -> spec_fn(PeerInfo) -> bool {
    |i: PeerInfo|
        i.is_connected && (i.status matches Some(s) && s.has_tx_bodies && s.head_block + HEAD_BLOCK_MARGIN > head && (
        s.last_pruned_block matches Some(h) ==> h <= head))
}

/// A peer whose status says that it cannot serve a node whose head is `head`.
pub open spec fn is_unuseful(head: u64) -> spec_fn(PeerInfo) -> bool {
    |i: PeerInfo|
        i.status matches Some(s) && (s.head_block + HEAD_BLOCK_MARGIN <= head || (s.last_pruned_block matches Some(
            h,
        ) && h > head))
}

/// A height that leaves room for the margin.
pub open spec fn leaves_margin(height: u64) -> bool {
    height + HEAD_BLOCK_MARGIN <= u64::MAX
}

/// The height of the newest block of a peer that has told its status.
pub open spec fn head_of(info: PeerInfo) -> u64 {
    info.status->0.head_block
}

/// A peer is no better to ask than another: its newest block is lower, or as high and it scores no higher.
pub open spec fn is_no_better(info: PeerInfo, than: PeerInfo) -> bool {
    head_of(info) < head_of(than) || (head_of(info) == head_of(than) && info.score.rank <= than.score.rank)
}

/// `p` can be asked for the blocks above `head`, and no other peer that can be asked is better to ask.
pub open spec fn is_best_peer(peers: Map<PeerId, PeerInfo>, head: u64, p: PeerId) -> bool {
    let suitable = peers_where(peers, is_suitable(head));
    &&& suitable.contains(p)
    &&& forall|q: PeerId| #[trigger] suitable.contains(q) ==> is_no_better(peers[q], peers[p])
}

/// The heights that the peers have told that might be asked leave room for the margin.
pub open spec fn candidates_leave_margin(peers: Map<PeerId, PeerInfo>) -> bool {
    forall|p: PeerId| #[trigger]
        peers.dom().contains(p) && peers[p].is_connected && (peers[p].status matches Some(s) && s.has_tx_bodies)
            ==> leaves_margin(peers[p].status->0.head_block)
}

/// All the heights that peers have told leave room for the margin.
pub open spec fn all_leave_margin(peers: Map<PeerId, PeerInfo>) -> bool {
    forall|p: PeerId| #[trigger]
        peers.dom().contains(p) && peers[p].status is Some ==> leaves_margin(peers[p].status->0.head_block)
}

/// `r` holds the reports of the peers that are of no use, when the ledger said `head` of its head.
pub open spec fn reports_answer<E>(
    head: Result<Option<u64>, E>,
    peers: Map<PeerId, PeerInfo>,
    r: Result<Vec<NetworkRequest>, E>,
) -> bool {
    match head {
        Err(e) => r == Err::<Vec<NetworkRequest>, E>(e),
        Ok(h) => r matches Ok(requests) && one_for_each(
            requests@,
            peers_where(peers, is_unuseful(head_or_zero(h))),
            unuseful_report(),
        ),
    }
}

/// `r` is what `request` makes of a peer of `peers`.
pub open spec fn is_made_for(
    r: NetworkRequest,
    peers: Set<PeerId>,
    request: spec_fn(PeerId) -> NetworkRequest,
) -> bool {
    exists|p: PeerId| #[trigger] peers.contains(p) && r == request(p)
}

/// `requests` holds, for each peer of `peers`, what `request` makes of it, once, and nothing else.
pub open spec fn one_for_each(
    requests: Seq<NetworkRequest>,
    peers: Set<PeerId>,
    request: spec_fn(PeerId) -> NetworkRequest,
) -> bool {
    &&& requests.no_duplicates()
    &&& forall|p: PeerId| #[trigger] peers.contains(p) ==> requests.contains(request(p))
    &&& forall|i: int| 0 <= i < requests.len() ==> is_made_for(#[trigger] requests[i], peers, request)
}

/// `r` is what is sent after an attempt to download. `head` asks the ledger for its head.
pub open spec fn sent_after<E, H: Fn() -> Result<Option<u64>, E>>(
    attempt: DownloadAttempt,
    head: H,
    peers: Map<PeerId, PeerInfo>,
    r: Result<Vec<NetworkRequest>, E>,
) -> bool {
    match attempt {
        DownloadAttempt::Skipped => r matches Ok(requests) && requests@ == Seq::<NetworkRequest>::empty(),
        DownloadAttempt::Requested(request) => r matches Ok(requests) && requests@ == seq![request],
        DownloadAttempt::NoSuitablePeer => exists|h: Result<Option<u64>, E>| #[trigger]
            call_ensures(head, (), h) && reports_answer(h, peers, r),
    }
}

/// The request for the status of a peer.
pub open spec fn status_request() -> spec_fn(PeerId) -> NetworkRequest {
    |p: PeerId| NetworkRequest::GetPeerStatus(p)
}

/// The report of a peer that is of no use.
pub open spec fn unuseful_report() -> spec_fn(PeerId) -> NetworkRequest {
    |p: PeerId| NetworkRequest::ReportPeer(p, PeerAction::LowToleranceError)
}

/// What a peer is reported for when its batch was not taken over.
pub open spec fn batch_offence(error: BatchProcessingError) -> PeerAction {
    match error {
        BatchProcessingError::DownloadFailed => PeerAction::MidToleranceError,
        BatchProcessingError::ValidationError => PeerAction::Fatal,
    }
}

/// The height of a ledger that says `head` of its head.
pub open spec fn head_or_zero(head: Option<u64>) -> u64 {
    match head {
        Some(h) => h,
        None => 0,
    }
}

/// A list of what a one-to-one `request` makes of distinct peers holds it for each of them once.
proof fn lemma_one_for_each(
    requests: Seq<NetworkRequest>,
    ids: Seq<PeerId>,
    request: spec_fn(PeerId) -> NetworkRequest,
)
    requires
        ids.no_duplicates(),
        requests.len() == ids.len(),
        forall|i: int| 0 <= i < ids.len() ==> requests[i] == request(#[trigger] ids[i]),
        forall|p: PeerId, q: PeerId| #[trigger] request(p) == #[trigger] request(q) ==> p == q,
    ensures
        one_for_each(requests, ids.to_set(), request),
{
    let peers = ids.to_set();
    assert forall|i: int, j: int| 0 <= i < requests.len() && 0 <= j < requests.len() && i != j implies requests[i]
        != requests[j] by {
        assert(requests[i] == request(ids[i]));
        assert(requests[j] == request(ids[j]));
    }
    assert forall|p: PeerId| #[trigger] peers.contains(p) implies requests.contains(request(p)) by {
        let i = choose|i: int| 0 <= i < ids.len() && ids[i] == p;
        assert(requests[i] == request(ids[i]));
    }
    assert forall|i: int| 0 <= i < requests.len() implies is_made_for(#[trigger] requests[i], peers, request) by {
        assert(requests[i] == request(ids[i]));
        assert(peers.contains(ids[i]));
    }
}

/// Decides what is downloaded, from whom, and when. Times are nanoseconds of one clock that never runs
/// backwards.
#[derive(Debug)]
pub struct SyncManager {
    /// How many blocks are asked for at once.
    pub sync_blocks_count: u64,
    /// The time between two rounds of status requests.
    pub status_interval: u128,
    /// The time between two attempts to download.
    pub sync_interval: u128,
    /// Whether a download is under way.
    pub download_state: DownloadState,
    /// When a gossiped block was taken over last.
    pub gossip_block_processed_at: Option<u128>,
}

impl SyncManager {
    /// The sync manager before anything has happened.
    pub open spec fn at_start(
        sync_blocks_count: u64,
        status_interval: Option<u128>,
        sync_interval: Option<u128>,
    ) -> SyncManager {
        SyncManager {
            sync_blocks_count,
            status_interval: match status_interval {
                Some(t) => t,
                None => DEFAULT_STATUS_INTERVAL,
            },
            sync_interval: match sync_interval {
                Some(t) => t,
                None => DEFAULT_SYNC_INTERVAL,
            },
            download_state: DownloadState::Idle,
            gossip_block_processed_at: None,
        }
    }

    /// No download is under way, and no block was gossiped.
    pub fn new(sync_blocks_count: u64, status_interval: Option<u128>, sync_interval: Option<u128>) -> (m: Self)
        ensures
            m == SyncManager::at_start(sync_blocks_count, status_interval, sync_interval),
    {
        let status_interval = status_interval.unwrap_or(DEFAULT_STATUS_INTERVAL);
        let sync_interval = sync_interval.unwrap_or(DEFAULT_SYNC_INTERVAL);
        SyncManager {
            sync_blocks_count,
            status_interval,
            sync_interval,
            download_state: DownloadState::Idle,
            gossip_block_processed_at: None,
        }
    }

    /// Whether a block was gossiped so shortly before `now` that no download is needed.
    pub open spec fn skips_download(&self, now: u128) -> bool {
        self.gossip_block_processed_at matches Some(at) && (if now >= at { now - at } else { 0 })
            < SKIP_DOWNLOAD_IF_GOSSIP_WITHIN
    }

    /// The message is about the download that is under way, if it is about a download.
    pub open spec fn expects(&self, message: SyncManagerMessage) -> bool {
        message matches SyncManagerMessage::BatchProcessed(info, _) ==> (self.download_state matches DownloadState::Syncing(
            under_way,
        ) && under_way.peer_id == info.peer_id && under_way.start == info.start)
    }

    /// The ranges of integers hold what an attempt to download above `head` computes.
    pub open spec fn download_fits(&self, head: u64, peers: Map<PeerId, PeerInfo>) -> bool {
        &&& candidates_leave_margin(peers)
        &&& (exists|p: PeerId| peers_where(peers, is_suitable(head)).contains(p)) ==> head + 1
            + self.sync_blocks_count <= u64::MAX
    }

    /// What a message leads to.
    pub open spec fn message_outcome(&self, after: SyncManager, message: SyncManagerMessage, action: SyncAction) -> bool {
        match message {
            SyncManagerMessage::BatchProcessed(info, result) => {
                &&& after == (SyncManager { download_state: DownloadState::Idle, ..*self })
                &&& match result {
                    Ok(_) => action == SyncAction::Download,
                    Err(e) => action matches SyncAction::Send(requests) && requests@
                        == seq![NetworkRequest::ReportPeer(info.peer_id, batch_offence(e))],
                }
            },
            SyncManagerMessage::GossipBlockProcessed(at) => {
                &&& after == (SyncManager { gossip_block_processed_at: Some(at), ..*self })
                &&& action == SyncAction::Wait
            },
        }
    }

    /// What an event leads to.
    pub open spec fn turn(
        &self,
        after: SyncManager,
        event: SyncEvent,
        peers: Map<PeerId, PeerInfo>,
        action: SyncAction,
    ) -> bool {
        match event {
            SyncEvent::Message(message) => self.message_outcome(after, message, action),
            SyncEvent::StatusTick => {
                &&& after == *self
                &&& action matches SyncAction::Send(requests) && one_for_each(requests@, peers.dom(), status_request())
            },
            SyncEvent::SyncTick => {
                &&& after == *self
                &&& action == (if self.download_state is Idle {
                    SyncAction::Download
                } else {
                    SyncAction::Wait
                })
            },
        }
    }

    /// What a message asks for.
    pub fn on_sync_manager_event(&mut self, event: SyncManagerMessage) -> (action: SyncAction)
        requires
            old(self).expects(event),
        ensures
            old(self).message_outcome(*final(self), event, action),
    {
        match event {
            SyncManagerMessage::BatchProcessed(download_info, result) => {
                // The download is over, whether it went well or not.
                self.download_state = DownloadState::Idle;
                match result {
                    Err(e) => {
                        let mut requests: Vec<NetworkRequest> = Vec::new();
                        requests.push(Self::on_batch_processing_error(download_info.peer_id, e));
                        assert(requests@ =~= seq![
                            NetworkRequest::ReportPeer(download_info.peer_id, batch_offence(e)),
                        ]);
                        SyncAction::Send(requests)
                    },
                    Ok(_) => SyncAction::Download,
                }
            },
            SyncManagerMessage::GossipBlockProcessed(processed_at) => {
                self.gossip_block_processed_at = Some(processed_at);
                SyncAction::Wait
            },
        }
    }

    /// The report of a peer whose batch was not taken over.
    pub fn on_batch_processing_error(peer_id: PeerId, error: BatchProcessingError) -> (request: NetworkRequest)
        ensures
            request == NetworkRequest::ReportPeer(peer_id, batch_offence(error)),
    {
        match error {
            BatchProcessingError::DownloadFailed => NetworkRequest::ReportPeer(
                peer_id,
                PeerAction::MidToleranceError,
            ),
            BatchProcessingError::ValidationError => NetworkRequest::ReportPeer(peer_id, PeerAction::Fatal),
        }
    }

    /// One turn of the loop that the sync manager runs: what an event asks for.
    pub fn run(&mut self, event: SyncEvent, globals: &NetworkGlobals) -> (action: SyncAction)
        requires
            event matches SyncEvent::Message(message) ==> old(self).expects(message),
        ensures
            old(self).turn(*final(self), event, globals.peers@, action),
            action is Download ==> final(self).download_state is Idle,
    {
        match event {
            SyncEvent::Message(message) => self.on_sync_manager_event(message),
            SyncEvent::StatusTick => {
                let ids = globals.peers.keys();
                let mut requests: Vec<NetworkRequest> = Vec::new();
                for k in 0..ids.len()
                    invariant
                        requests.len() == k,
                        forall|i: int| 0 <= i < k ==> requests[i] == NetworkRequest::GetPeerStatus(#[trigger] ids[i]),
                {
                    requests.push(NetworkRequest::GetPeerStatus(ids[k]));
                }
                proof {
                    lemma_one_for_each(requests@, ids@, status_request());
                }
                SyncAction::Send(requests)
            },
            SyncEvent::SyncTick => match self.download_state {
                DownloadState::Idle => SyncAction::Download,
                DownloadState::Syncing(_) => SyncAction::Wait,
            },
        }
    }

    /// Whether a block was gossiped so shortly before `now` that no download is needed.
    pub fn has_recent_gossip(&self, now: u128) -> (r: bool)
        ensures
            r == self.skips_download(now),
    {
        match self.gossip_block_processed_at {
            Some(last_processed) => now.saturating_sub(last_processed) < SKIP_DOWNLOAD_IF_GOSSIP_WITHIN,
            None => false,
        }
    }

    /// Asks the best peer for the blocks above the head of the ledger, unless gossip brings them.
    ///
    /// `head` is what the ledger says of its head; a ledger without blocks stands at zero.
    pub fn download_from_best_peer<E>(
        &mut self,
        now: u128,
        head: Result<Option<u64>, E>,
        globals: &NetworkGlobals,
    ) -> (r: Result<DownloadAttempt, E>)
        requires
            !old(self).skips_download(now) && head is Ok ==> old(self).download_fits(
                head_or_zero(head->Ok_0),
                globals.peers@,
            ),
        ensures
            old(self).attempt_outcome(now, head, globals.peers@, *final(self), r),
    {
        if self.has_recent_gossip(now) {
            return Ok(DownloadAttempt::Skipped);
        }
        let head_block: u64 = match head {
            Ok(h) => h.unwrap_or(0),
            Err(e) => {
                return Err(e);
            },
        };
        match Self::best_peer(head_block, globals) {
            Some(peer_id) => {
                assert(peers_where(globals.peers@, is_suitable(head_block)).contains(peer_id));
                let start: u64 = head_block + 1;
                let end: u64 = start + self.sync_blocks_count - 1;
                self.download_state = DownloadState::Syncing(DownloadInfo { peer_id, start, end });
                Ok(DownloadAttempt::Requested(NetworkRequest::GetL2BlockRange { peer_id, start, end }))
            },
            None => Ok(DownloadAttempt::NoSuitablePeer),
        }
    }

    /// The peer to ask for the blocks above `head_block`: of those that can be asked, the one whose newest block is
    /// the highest, and of several such peers one that scores highest.
    pub fn best_peer(head_block: u64, globals: &NetworkGlobals) -> (r: Option<PeerId>)
        requires
            candidates_leave_margin(globals.peers@),
        ensures
            match r {
                Some(p) => is_best_peer(globals.peers@, head_block, p),
                None => forall|p: PeerId| !peers_where(globals.peers@, is_suitable(head_block)).contains(p),
            },
    {
        let entries = globals.peers.entries();
        let mut best: Option<usize> = None;
        let mut highest: u64 = 0;
        let ghost peers = globals.peers@;
        let ghost pred = is_suitable(head_block);
        for k in 0..entries.len()
            invariant
                distinct_keys(entries@),
                as_map(entries@) == peers,
                pred == is_suitable(head_block),
                candidates_leave_margin(peers),
                best matches Some(b) ==> b < k && pred(entries[b as int].1) && highest == head_of(
                    entries[b as int].1,
                ),
                forall|i: int|
                    0 <= i < k && pred((#[trigger] entries[i]).1) ==> best is Some && is_no_better(
                        entries[i].1,
                        entries[best->0 as int].1,
                    ),
        {
            proof {
                lemma_entry(entries@, k as int);
                assert(peers.dom().contains(entries[k as int].0));
            }
            if let Some(height) = Self::can_serve(&entries[k].1, head_block) {
                let is_better = match best {
                    Some(b) => highest < height || (highest == height && entries[b].1.score.rank
                        <= entries[k].1.score.rank),
                    None => true,
                };
                if is_better {
                    best = Some(k);
                    highest = height;
                }
            }
        }
        let ghost suitable = peers_where(peers, pred);
        proof {
            assert forall|q: PeerId| #[trigger] suitable.contains(q) implies best is Some && is_no_better(
                peers[q],
                entries[best->0 as int].1,
            ) by {
                let i = crate::peer_map::key_at(entries@, q);
                lemma_entry(entries@, i);
                assert(pred(entries[i].1));
            }
        }
        match best {
            Some(b) => {
                proof {
                    lemma_entry(entries@, b as int);
                }
                Some(entries[b].0)
            },
            None => None,
        }
    }

    /// What is sent after an attempt to download: nothing if it was skipped, the request that starts the download if
    /// there is one, and the reports of the peers that are of no use if no peer can be asked.
    ///
    /// `head` asks the ledger for its head, which is done for the reports alone.
    pub fn after_attempt<E, H: Fn() -> Result<Option<u64>, E>>(
        &self,
        attempt: DownloadAttempt,
        head: H,
        globals: &NetworkGlobals,
    ) -> (r: Result<Vec<NetworkRequest>, E>)
        requires
            attempt is NoSuitablePeer ==> call_requires(head, ()) && all_leave_margin(globals.peers@),
        ensures
            sent_after(attempt, head, globals.peers@, r),
    {
        match attempt {
            DownloadAttempt::Skipped => Ok(Vec::new()),
            DownloadAttempt::Requested(request) => {
                let mut requests: Vec<NetworkRequest> = Vec::new();
                requests.push(request);
                Ok(requests)
            },
            DownloadAttempt::NoSuitablePeer => self.report_unuseful_peers(head(), globals),
        }
    }

    /// What an attempt to download at `now` leads to, when the ledger said `head` of its head.
    pub open spec fn attempt_outcome<E>(
        &self,
        now: u128,
        head: Result<Option<u64>, E>,
        peers: Map<PeerId, PeerInfo>,
        after: SyncManager,
        r: Result<DownloadAttempt, E>,
    ) -> bool {
        if self.skips_download(now) {
            r == Ok::<DownloadAttempt, E>(DownloadAttempt::Skipped) && after == *self
        } else {
            match head {
                Err(e) => r == Err::<DownloadAttempt, E>(e) && after == *self,
                Ok(h) => self.download_outcome(head_or_zero(h), peers, after, r),
            }
        }
    }

    /// What an attempt to download above `head` leads to.
    pub open spec fn download_outcome<E>(
        &self,
        head: u64,
        peers: Map<PeerId, PeerInfo>,
        after: SyncManager,
        r: Result<DownloadAttempt, E>,
    ) -> bool {
        match r {
            Ok(DownloadAttempt::Requested(request)) => {
                &&& request matches NetworkRequest::GetL2BlockRange { peer_id, start, end }
                &&& is_best_peer(peers, head, peer_id)
                &&& start == head + 1
                &&& end == head + self.sync_blocks_count
                &&& after == (SyncManager {
                    download_state: DownloadState::Syncing(DownloadInfo { peer_id, start, end }),
                    ..*self
                })
            },
            Ok(DownloadAttempt::NoSuitablePeer) => {
                &&& forall|p: PeerId| !peers_where(peers, is_suitable(head)).contains(p)
                &&& after == *self
            },
            _ => false,
        }
    }

    /// The height of the newest block of a peer, if it can be asked for the blocks above `head_block`.
    fn can_serve(info: &PeerInfo, head_block: u64) -> (r: Option<u64>)
        requires
            info.is_connected && (info.status matches Some(s) && s.has_tx_bodies) ==> leaves_margin(
                info.status->0.head_block,
            ),
        ensures
            r == (if is_suitable(head_block)(*info) {
                Some(head_of(*info))
            } else {
                None
            }),
    {
        if !info.is_connected {
            return None;
        }
        match info.status {
            None => None,
            Some(status) => {
                if !status.has_tx_bodies {
                    return None;
                }
                if status.head_block + HEAD_BLOCK_MARGIN <= head_block {
                    return None;
                }
                if let Some(pruned_height) = status.last_pruned_block {
                    if pruned_height > head_block {
                        return None;
                    }
                }
                Some(status.head_block)
            },
        }
    }

    /// The reports of the peers whose status says that they cannot serve this node.
    ///
    /// `head` is what the ledger says of its head; a ledger without blocks stands at zero.
    pub fn report_unuseful_peers<E>(&self, head: Result<Option<u64>, E>, globals: &NetworkGlobals) -> (r: Result<
        Vec<NetworkRequest>,
        E,
    >)
        requires
            head is Ok ==> all_leave_margin(globals.peers@),
        ensures
            reports_answer(head, globals.peers@, r),
    {
        let head_block: u64 = match head {
            Ok(h) => h.unwrap_or(0),
            Err(e) => {
                return Err(e);
            },
        };
        let entries = globals.peers.entries();
        let ghost pred = is_unuseful(head_block);
        let mut requests: Vec<NetworkRequest> = Vec::new();
        let ghost mut ids: Seq<PeerId> = Seq::empty();
        proof {
            assert(ids.to_set() =~= picked(entries@, 0, pred));
        }
        for k in 0..entries.len()
            invariant
                distinct_keys(entries@),
                as_map(entries@) == globals.peers@,
                all_leave_margin(globals.peers@),
                pred == is_unuseful(head_block),
                ids.no_duplicates(),
                ids.to_set() == picked(entries@, k as int, pred),
                requests.len() == ids.len(),
                forall|i: int|
                    0 <= i < ids.len() ==> requests[i] == NetworkRequest::ReportPeer(
                        #[trigger] ids[i],
                        PeerAction::LowToleranceError,
                    ),
        {
            let (peer_id, info) = (entries[k].0, &entries[k].1);
            proof {
                lemma_picked_step(entries@, k as int, pred);
                lemma_entry(entries@, k as int);
                assert(globals.peers@.dom().contains(peer_id));
            }
            if let Some(status) = &info.status {
                let pruned = match status.last_pruned_block {
                    Some(pruned_height) => pruned_height > head_block,
                    None => false,
                };
                if status.head_block + HEAD_BLOCK_MARGIN <= head_block || pruned {
                    proof {
                        lemma_push_fresh(ids, peer_id);
                        ids = ids.push(peer_id);
                    }
                    requests.push(NetworkRequest::ReportPeer(peer_id, PeerAction::LowToleranceError));
                }
            }
        }
        proof {
            lemma_picked_all(entries@, pred);
            lemma_one_for_each(requests@, ids, unuseful_report());
        }
        Ok(requests)
    }
}

/// A connected peer that has told its status and holds the bodies of transactions can either be asked for blocks or
/// is reported as of no use, and never both.
pub proof fn law_peer_is_suitable_or_unuseful(info: PeerInfo, head: u64)
    requires
        info.is_connected,
        info.status matches Some(s) && s.has_tx_bodies,
    ensures
        is_suitable(head)(info) <==> !is_unuseful(head)(info),
{
}

/// An attempt to download asks a peer if and only if some peer can be asked.
pub proof fn law_asks_if_and_only_if_a_peer_can_be_asked<E>(
    before: SyncManager,
    after: SyncManager,
    head: u64,
    peers: Map<PeerId, PeerInfo>,
    r: Result<DownloadAttempt, E>,
)
    requires
        before.download_outcome(head, peers, after, r),
    ensures
        (r matches Ok(DownloadAttempt::Requested(_))) <==> exists|p: PeerId| #[trigger]
            peers_where(peers, is_suitable(head)).contains(p),
        after.download_state is Syncing || after == before,
{
}

/// The message that the batch of a download was processed is expected from the start of the download on, and once
/// it has come, no download is under way.
pub proof fn law_started_download_can_end<E>(
    before: SyncManager,
    after: SyncManager,
    head: u64,
    peers: Map<PeerId, PeerInfo>,
    r: Result<DownloadAttempt, E>,
    info: DownloadInfo,
    result: Result<(), BatchProcessingError>,
)
    requires
        before.download_outcome(head, peers, after, r),
        after.download_state == DownloadState::Syncing(info),
        before.download_state is Idle,
    ensures
        after.expects(SyncManagerMessage::BatchProcessed(info, result)),
        r == Ok::<DownloadAttempt, E>(
            DownloadAttempt::Requested(
                NetworkRequest::GetL2BlockRange { peer_id: info.peer_id, start: info.start, end: info.end },
            ),
        ),
{
}

/// Downloads follow on each other without gap or overlap: when the ledger stands at the last block of one, the next
/// one starts right behind it, and each asks for as many blocks as are set.
pub proof fn law_downloads_follow_on_each_other<E>(
    m1: SyncManager,
    after1: SyncManager,
    head: u64,
    peers1: Map<PeerId, PeerInfo>,
    r1: Result<DownloadAttempt, E>,
    info1: DownloadInfo,
    m2: SyncManager,
    after2: SyncManager,
    peers2: Map<PeerId, PeerInfo>,
    r2: Result<DownloadAttempt, E>,
    info2: DownloadInfo,
)
    requires
        m1.download_state is Idle,
        m1.download_outcome(head, peers1, after1, r1),
        after1.download_state == DownloadState::Syncing(info1),
        m2.download_state is Idle,
        m2.download_outcome(info1.end, peers2, after2, r2),
        after2.download_state == DownloadState::Syncing(info2),
    ensures
        info1.start == head + 1,
        info1.end - info1.start + 1 == m1.sync_blocks_count,
        info2.start == info1.end + 1,
        info2.end - info2.start + 1 == m2.sync_blocks_count,
{
}

/// A gossiped block that was taken over at a time keeps downloads from starting for a while, and no longer.
pub proof fn law_gossip_delays_downloads(m: SyncManager, at: u128, now: u128)
    requires
        now >= at,
    ensures
        (SyncManager { gossip_block_processed_at: Some(at), ..m }).skips_download(now) <==> now - at
            < SKIP_DOWNLOAD_IF_GOSSIP_WITHIN,
{
}

/// A peer that is asked is connected and holds the bodies of transactions, has dropped no block of the range, and lags
/// behind by less than the margin. The range starts right above the head and has the length that is set. Any other
/// peer of which all that is true has no higher block, and if its block is as high, no higher rank.
pub proof fn law_asked_peer_holds_the_blocks<E>(
    before: SyncManager,
    after: SyncManager,
    head: u64,
    peers: Map<PeerId, PeerInfo>,
    r: Result<DownloadAttempt, E>,
    p: PeerId,
    start: u64,
    end: u64,
    q: PeerId,
    other: PeerStatus,
)
    requires
        before.download_outcome(head, peers, after, r),
        r == Ok::<DownloadAttempt, E>(
            DownloadAttempt::Requested(NetworkRequest::GetL2BlockRange { peer_id: p, start, end }),
        ),
    ensures
        start == head + 1,
        end + 1 - start == before.sync_blocks_count,
        peers.dom().contains(p),
        peers[p].is_connected,
        peers[p].status matches Some(status) && {
            &&& status.has_tx_bodies
            &&& status.head_block + HEAD_BLOCK_MARGIN >= start
            &&& status.last_pruned_block matches Some(dropped) ==> dropped < start
            &&& peers.dom().contains(q) && peers[q].is_connected && peers[q].status == Some(other)
                && other.has_tx_bodies && other.head_block + HEAD_BLOCK_MARGIN >= start && (
            other.last_pruned_block matches Some(dropped) ==> dropped < start) ==> other.head_block
                <= status.head_block && (other.head_block == status.head_block ==> peers[q].score.rank
                <= peers[p].score.rank)
        },
        after.download_state == DownloadState::Syncing(DownloadInfo { peer_id: p, start, end }),
        after.sync_blocks_count == before.sync_blocks_count,
        after.status_interval == before.status_interval,
        after.sync_interval == before.sync_interval,
        after.gossip_block_processed_at == before.gossip_block_processed_at,
{
    let suitable = peers_where(peers, is_suitable(head));
    assert(suitable.contains(p));
    if peers.dom().contains(q) && is_suitable(head)(peers[q]) {
        assert(suitable.contains(q));
    }
}

/// An attempt to download above a head that is not skipped asks some peer for a range of blocks if any known peer is
/// connected, has told its status, holds the bodies of transactions, lags behind by less than the margin and has not
/// dropped the next block. If there is none, it asks nobody, and nothing changes.
pub proof fn law_nobody_is_asked_only_if_nobody_can_serve<E>(
    before: SyncManager,
    after: SyncManager,
    head: u64,
    peers: Map<PeerId, PeerInfo>,
    r: Result<DownloadAttempt, E>,
    p: PeerId,
    status: PeerStatus,
)
    requires
        before.download_outcome(head, peers, after, r),
    ensures
        r matches Ok(DownloadAttempt::Requested(NetworkRequest::GetL2BlockRange { .. })) || (r == Ok::<
            DownloadAttempt,
            E,
        >(DownloadAttempt::NoSuitablePeer) && after == before),
        peers.dom().contains(p) && peers[p].is_connected && peers[p].status == Some(status) && status.has_tx_bodies
            && status.head_block + HEAD_BLOCK_MARGIN > head && (status.last_pruned_block matches Some(dropped)
            ==> dropped <= head) ==> r matches Ok(DownloadAttempt::Requested(_)),
{
    if peers.dom().contains(p) && is_suitable(head)(peers[p]) {
        assert(peers_where(peers, is_suitable(head)).contains(p));
    }
}

/// A peer is reported as of no use, once, if and only if it has told its status, connected or not, and by that status it
/// lags behind the head by the margin or more, or has dropped a block above the head. A ledger without blocks has its
/// head at zero. Nothing else is sent, and an error of the ledger is handed on.
pub proof fn law_reports_name_whoever_cannot_serve<E>(
    head: Option<u64>,
    peers: Map<PeerId, PeerInfo>,
    r: Result<Vec<NetworkRequest>, E>,
    p: PeerId,
    e: E,
)
    ensures
        reports_answer(Ok::<Option<u64>, E>(head), peers, r) ==> (r matches Ok(requests) && {
            let height: u64 = if head is Some {
                head->0
            } else {
                0
            };
            &&& requests@.no_duplicates()
            &&& forall|i: int|
                0 <= i < requests@.len() ==> (#[trigger] requests@[i] matches NetworkRequest::ReportPeer(_, action)
                    && action == PeerAction::LowToleranceError)
            &&& requests@.contains(NetworkRequest::ReportPeer(p, PeerAction::LowToleranceError)) <==> peers.dom().contains(
                p,
            ) && (peers[p].status matches Some(status) && (status.head_block + HEAD_BLOCK_MARGIN <= height || (
            status.last_pruned_block matches Some(dropped) && dropped > height)))
        }),
        reports_answer(Err::<Option<u64>, E>(e), peers, r) ==> r == Err::<Vec<NetworkRequest>, E>(e),
{
    if reports_answer(Ok::<Option<u64>, E>(head), peers, r) {
        let requests = r->Ok_0@;
        let named = peers_where(peers, is_unuseful(head_or_zero(head)));
        let report = NetworkRequest::ReportPeer(p, PeerAction::LowToleranceError);
        assert forall|i: int| 0 <= i < requests.len() implies (#[trigger] requests[i] matches NetworkRequest::ReportPeer(
            _,
            action,
        ) && action == PeerAction::LowToleranceError) by {
            assert(is_made_for(requests[i], named, unuseful_report()));
        }
        if requests.contains(report) {
            let i = choose|i: int| 0 <= i < requests.len() && requests[i] == report;
            assert(is_made_for(requests[i], named, unuseful_report()));
            assert(named.contains(p));
        }
        if named.contains(p) {
            assert(requests.contains(unuseful_report()(p)));
        }
    }
}

/// After an attempt, nothing is sent if it was skipped, and the request and nothing else if it asked a peer. If nobody
/// could be asked, what the ledger says of its head decides: an error is handed on, and otherwise every peer is
/// reported whose status shows that it cannot serve, and nothing else is sent.
pub proof fn law_what_follows_an_attempt<E, H: Fn() -> Result<Option<u64>, E>>(
    attempt: DownloadAttempt,
    head: H,
    peers: Map<PeerId, PeerInfo>,
    r: Result<Vec<NetworkRequest>, E>,
    answer: Result<Option<u64>, E>,
    p: PeerId,
)
    requires
        sent_after(attempt, head, peers, r),
        forall|h: Result<Option<u64>, E>| #[trigger] call_ensures(head, (), h) ==> h == answer,
    ensures
        attempt is Skipped ==> (r matches Ok(requests) && requests@.len() == 0),
        attempt matches DownloadAttempt::Requested(request) ==> (r matches Ok(requests) && requests@.len() == 1
            && requests@[0] == request),
        attempt is NoSuitablePeer ==> match answer {
            Err(e) => r == Err::<Vec<NetworkRequest>, E>(e),
            Ok(said) => r matches Ok(requests) && {
                let height: u64 = if said is Some {
                    said->0
                } else {
                    0
                };
                &&& requests@.no_duplicates()
                &&& forall|i: int|
                    0 <= i < requests@.len() ==> (#[trigger] requests@[i] matches NetworkRequest::ReportPeer(_, action)
                        && action == PeerAction::LowToleranceError)
                &&& requests@.contains(NetworkRequest::ReportPeer(p, PeerAction::LowToleranceError))
                    <==> peers.dom().contains(p) && (peers[p].status matches Some(status) && (status.head_block
                    + HEAD_BLOCK_MARGIN <= height || (status.last_pruned_block matches Some(dropped) && dropped
                    > height)))
            },
        },
{
    if attempt is NoSuitablePeer {
        match answer {
            Err(e) => {
                law_reports_name_whoever_cannot_serve(None, peers, r, p, e);
            },
            Ok(said) => {
                let e: E = arbitrary();
                law_reports_name_whoever_cannot_serve(said, peers, r, p, e);
            },
        }
    }
}

/// An attempt is skipped, and changes nothing, if and only if a block was gossiped less than the set time before, or
/// after. Otherwise an error of the ledger is handed on and changes nothing, and the head of the ledger, or zero, is
/// what blocks are asked for above.
pub proof fn law_recent_gossip_and_nothing_else_skips<E>(
    before: SyncManager,
    after: SyncManager,
    now: u128,
    head: Result<Option<u64>, E>,
    peers: Map<PeerId, PeerInfo>,
    r: Result<DownloadAttempt, E>,
)
    requires
        before.attempt_outcome(now, head, peers, after, r),
    ensures
        r == Ok::<DownloadAttempt, E>(DownloadAttempt::Skipped) <==> (before.gossip_block_processed_at matches Some(at)
            && now < at + SKIP_DOWNLOAD_IF_GOSSIP_WITHIN),
        before.gossip_block_processed_at matches Some(at) && now < at + SKIP_DOWNLOAD_IF_GOSSIP_WITHIN ==> after
            == before,
        (before.gossip_block_processed_at matches Some(at) ==> now >= at + SKIP_DOWNLOAD_IF_GOSSIP_WITHIN) ==> match head {
            Err(e) => r == Err::<DownloadAttempt, E>(e) && after == before,
            Ok(Some(h)) => before.download_outcome(h, peers, after, r),
            Ok(None) => before.download_outcome(0, peers, after, r),
        },
{
}

/// At the end of a download, good or bad, none is under way, and nothing else of the manager has changed. After a good
/// one the next is attempted. After a bad one its peer is reported, and nobody else: for a fatal offence if the blocks
/// were not valid, and for one that is tolerated some times if they did not come.
pub proof fn law_end_of_a_download(
    before: SyncManager,
    after: SyncManager,
    peers: Map<PeerId, PeerInfo>,
    info: DownloadInfo,
    result: Result<(), BatchProcessingError>,
    action: SyncAction,
)
    requires
        before.turn(after, SyncEvent::Message(SyncManagerMessage::BatchProcessed(info, result)), peers, action),
    ensures
        after.download_state == DownloadState::Idle,
        after.gossip_block_processed_at == before.gossip_block_processed_at,
        after.sync_blocks_count == before.sync_blocks_count,
        after.status_interval == before.status_interval,
        after.sync_interval == before.sync_interval,
        result is Ok <==> action == SyncAction::Download,
        result is Err ==> (action matches SyncAction::Send(requests) && requests@.len() == 1 && requests@[0]
            == NetworkRequest::ReportPeer(
            info.peer_id,
            if result->Err_0 is ValidationError {
                PeerAction::Fatal
            } else {
                PeerAction::MidToleranceError
            },
        )),
{
}

/// A gossiped block is kept in mind with its time, and nothing is done about it. When it is time to ask for status,
/// every known peer is asked once and nothing else is sent. When it is time to download, an attempt is made if and
/// only if no download is under way.
pub proof fn law_turns_without_a_download(
    before: SyncManager,
    after: SyncManager,
    peers: Map<PeerId, PeerInfo>,
    event: SyncEvent,
    action: SyncAction,
    p: PeerId,
)
    requires
        before.turn(after, event, peers, action),
    ensures
        event matches SyncEvent::Message(SyncManagerMessage::GossipBlockProcessed(at)) ==> action == SyncAction::Wait
            && after.gossip_block_processed_at == Some(at) && after.download_state == before.download_state
            && after.sync_blocks_count == before.sync_blocks_count && after.status_interval == before.status_interval
            && after.sync_interval == before.sync_interval,
        event is StatusTick ==> after == before && (action matches SyncAction::Send(requests) && {
            &&& requests@.no_duplicates()
            &&& forall|i: int| 0 <= i < requests@.len() ==> #[trigger] requests@[i] is GetPeerStatus
            &&& requests@.contains(NetworkRequest::GetPeerStatus(p)) <==> peers.dom().contains(p)
        }),
        event is SyncTick ==> after == before && (action == SyncAction::Download <==> before.download_state
            == DownloadState::Idle) && (action == SyncAction::Wait <==> before.download_state is Syncing),
{
    if event is StatusTick {
        let requests = action->Send_0@;
        let request = NetworkRequest::GetPeerStatus(p);
        assert forall|i: int| 0 <= i < requests.len() implies #[trigger] requests[i] is GetPeerStatus by {
            assert(is_made_for(requests[i], peers.dom(), status_request()));
        }
        if requests.contains(request) {
            let i = choose|i: int| 0 <= i < requests.len() && requests[i] == request;
            assert(is_made_for(requests[i], peers.dom(), status_request()));
        }
        if peers.dom().contains(p) {
            assert(requests.contains(status_request()(p)));
        }
    }
}

/// At the start no download is under way and no block was gossiped. An interval is the one that is set, whichever that
/// is, and the default where none is set.
pub proof fn law_settings_are_taken_over(count: u64, status: Option<u128>, sync: Option<u128>)
    ensures
        SyncManager::at_start(count, status, sync).sync_blocks_count == count,
        SyncManager::at_start(count, status, sync).download_state == DownloadState::Idle,
        SyncManager::at_start(count, status, sync).gossip_block_processed_at == None::<u128>,
        status matches Some(t) ==> SyncManager::at_start(count, status, sync).status_interval == t,
        sync matches Some(t) ==> SyncManager::at_start(count, status, sync).sync_interval == t,
        status is None ==> SyncManager::at_start(count, status, sync).status_interval == DEFAULT_STATUS_INTERVAL,
        sync is None ==> SyncManager::at_start(count, status, sync).sync_interval == DEFAULT_SYNC_INTERVAL,
{
}

/// A message about the download that is under way can always be handled, and so can one about a gossiped block. An
/// attempt to download can be made whenever the heights that peers have told leave room for the margin and the end of
/// the range can be counted.
pub proof fn law_what_can_be_handled(
    m: SyncManager,
    info: DownloadInfo,
    last: u64,
    result: Result<(), BatchProcessingError>,
    at: u128,
    head: u64,
    peers: Map<PeerId, PeerInfo>,
)
    ensures
        m.expects(SyncManagerMessage::GossipBlockProcessed(at)),
        m.download_state == DownloadState::Syncing(info) ==> m.expects(
            SyncManagerMessage::BatchProcessed(DownloadInfo { end: last, ..info }, result),
        ),
        (forall|p: PeerId| #[trigger]
            peers.dom().contains(p) ==> (peers[p].status matches Some(s) ==> s.head_block + HEAD_BLOCK_MARGIN
                <= u64::MAX)) && head + 1 + m.sync_blocks_count <= u64::MAX ==> m.download_fits(head, peers)
            && all_leave_margin(peers) && candidates_leave_margin(peers),
{
}

}
