//! Which peers a node keeps, which it looks for, and which it lets go.

use crate::peer_map::{
    as_map, distinct_keys, lemma_entry, lemma_picked_all, lemma_picked_step, peers_where, picked,
};
use crate::types::{fresh_peer, NetworkGlobals, PeerAction, PeerInfo, Score};
use libp2p::{Multiaddr, PeerId};
use vstd::prelude::*;

verus! {

/// What follows from the report of a peer.
#[derive(Debug, Clone, Copy, PartialEq, Eq, Structural)]
pub enum ReportPeerResult {
    /// The report bans the peer.
    Ban,
    /// Nothing is to be done.
    NoAction,
}

/// What a look at the number of peers asks for.
#[derive(Debug, PartialEq, Eq)]
pub enum HeartbeatResult {
    /// So many peers are missing.
    WantedPeers(usize),
    /// These peers are too many.
    ExcessPeers(Vec<PeerId>),
    /// The number of peers is right.
    NoAction,
}

/// A peer that is connected.
pub open spec fn is_connected() -> spec_fn(PeerInfo) -> bool {
    |i: PeerInfo| i.is_connected
}

/// A peer that may be dropped for another: it is connected and has told its status.
pub open spec fn is_prunable() -> spec_fn(PeerInfo) -> bool {
    |i: PeerInfo| i.is_connected && i.status is Some
}

/// What follows when the score of a peer moves from `before` to `after`.
pub open spec fn verdict(before: Score, after: Score) -> ReportPeerResult {
    if !before.banned && after.banned {
        ReportPeerResult::Ban
    } else {
        ReportPeerResult::NoAction
    }
}

/// `info` with another score.
pub open spec fn with_score(info: PeerInfo, score: Score) -> PeerInfo {
    PeerInfo { score, ..info }
}

/// What to report a peer for `action` leads to: its score moves by way of `apply`. A peer that is not known is let alone.
pub open spec fn report_outcome<F: Fn(Score, PeerAction) -> Score>(
    before: Map<PeerId, PeerInfo>,
    after: Map<PeerId, PeerInfo>,
    p: PeerId,
    action: PeerAction,
    apply: F,
    r: ReportPeerResult,
) -> bool {
    if before.dom().contains(p) {
        &&& after == before.insert(p, with_score(before[p], after[p].score))
        &&& call_ensures(apply, (before[p].score, action), after[p].score)
        &&& r == verdict(before[p].score, after[p].score)
    } else {
        after == before && r == ReportPeerResult::NoAction
    }
}

/// What to mark a peer as not connected leads to. `known` says whether the peer was known.
pub open spec fn disconnect_outcome(
    before: Map<PeerId, PeerInfo>,
    after: Map<PeerId, PeerInfo>,
    p: PeerId,
    known: bool,
) -> bool {
    &&& known == before.dom().contains(p)
    &&& after == (if known {
        before.insert(p, PeerInfo { is_connected: false, ..before[p] })
    } else {
        before
    })
}

/// `r` lists `n` peers of `peers` that may be dropped, or all of them if there are fewer, from the lowest
/// score up, and no other one that may be dropped has a lower score than one of them.
pub open spec fn lowest_scoring(peers: Map<PeerId, PeerInfo>, n: nat, r: Seq<PeerId>) -> bool {
    let all = peers_where(peers, is_prunable());
    &&& r.no_duplicates()
    &&& r.len() == (if n < all.len() { n } else { all.len() })
    &&& forall|i: int| 0 <= i < r.len() ==> all.contains(#[trigger] r[i])
    &&& ascending(peers, r)
    &&& forall|i: int, q: PeerId|
        0 <= i < r.len() && #[trigger] all.contains(q) && !r.contains(q) ==> peers[#[trigger] r[i]].score.rank
            <= peers[q].score.rank
}

/// `ids` goes from the lowest score up.
pub open spec fn ascending(peers: Map<PeerId, PeerInfo>, ids: Seq<PeerId>) -> bool {
    forall|i: int, j: int|
        0 <= i < j < ids.len() ==> peers[#[trigger] ids[i]].score.rank <= peers[#[trigger] ids[j]].score.rank
}

/// Whether a peer is worth dialing.
pub open spec fn wants_dial(peers: Map<PeerId, PeerInfo>, target: nat, p: PeerId) -> bool {
    &&& peers_where(peers, is_connected()).len() < target
    &&& peers.dom().contains(p) ==> !peers[p].is_connected && !peers[p].score.banned
}

/// The addresses of `list` whose peers are worth dialing, in the order of `list`.
pub open spec fn worth_dialing(
    list: Seq<(PeerId, Multiaddr)>,
    peers: Map<PeerId, PeerInfo>,
    target: nat,
) -> Seq<(PeerId, Multiaddr)> {
    list.filter(|f: (PeerId, Multiaddr)| wants_dial(peers, target, f.0))
}

/// `after` is `before` with every score run once through `decay`.
pub open spec fn decayed<F: Fn(Score) -> Score>(
    before: Map<PeerId, PeerInfo>,
    after: Map<PeerId, PeerInfo>,
    decay: F,
) -> bool {
    &&& after.dom() == before.dom()
    &&& forall|p: PeerId| #[trigger]
        before.dom().contains(p) ==> after[p] == with_score(before[p], after[p].score) && call_ensures(
            decay,
            (before[p].score,),
            after[p].score,
        )
}

/// What a heartbeat answers when it counts `peers`.
pub open spec fn heartbeat_answer(peers: Map<PeerId, PeerInfo>, target: nat, r: HeartbeatResult) -> bool {
    let n = peers.dom().len();
    if n < target {
        r == HeartbeatResult::WantedPeers((target - n) as usize)
    } else if n > target {
        r matches HeartbeatResult::ExcessPeers(excess) && lowest_scoring(peers, (n - target) as nat, excess@)
    } else {
        r == HeartbeatResult::NoAction
    }
}

/// Keeps the number of peers near a target. Times are nanoseconds of one clock that never runs backwards.
#[derive(Debug)]
pub struct PeerManager {
    /// How many peers the node wants.
    pub target_peers: usize,
    /// How long it takes until scores decay again.
    pub score_halflife: u128,
    /// When scores decayed last.
    pub last_decay: u128,
}

impl PeerManager {
    /// Starts the time to the first decay at `now`.
    pub fn new(target_peers: usize, score_halflife: u128, now: u128) -> (m: Self)
        ensures
            m == (PeerManager { target_peers, score_halflife, last_decay: now }),
    {
        PeerManager { target_peers, score_halflife, last_decay: now }
    }

    /// Applies `action` to the score of a peer, by way of `apply`. A peer that is not known is let alone.
    pub fn report_peer<F: Fn(Score, PeerAction) -> Score>(
        &self,
        globals: &mut NetworkGlobals,
        peer_id: &PeerId,
        action: PeerAction,
        apply: F,
    ) -> (r: ReportPeerResult)
        requires
            forall|s: Score| call_requires(apply, (s, action)),
        ensures
            report_outcome(old(globals).peers@, final(globals).peers@, *peer_id, action, apply, r),
    {
        let known: Option<PeerInfo> = match globals.peers.get(peer_id) {
            Some(info) => Some(*info),
            None => None,
        };
        if let Some(info) = known {
            let was_banned = info.score.is_banned();
            let score = apply(info.score, action);
            globals.peers.insert(*peer_id, PeerInfo { score, ..info });
            if !was_banned && score.is_banned() {
                return ReportPeerResult::Ban;
            }
        }
        ReportPeerResult::NoAction
    }

    /// Marks a peer as connected; one that was not known becomes known.
    pub fn connected_peer(&self, globals: &mut NetworkGlobals, peer_id: &PeerId)
        ensures
            final(globals).peers@ == old(globals).peers@.insert(
                *peer_id,
                (PeerInfo {
                    is_connected: true,
                    ..if old(globals).peers@.dom().contains(*peer_id) {
                        old(globals).peers@[*peer_id]
                    } else {
                        fresh_peer()
                    }
                }),
            ),
    {
        let info: PeerInfo = match globals.peers.get(peer_id) {
            Some(info) => *info,
            None => PeerInfo::default(),
        };
        globals.peers.insert(*peer_id, PeerInfo { is_connected: true, ..info });
    }

    /// Marks a peer as not connected. Returns whether the peer was known.
    pub fn disconnected_peer(&self, globals: &mut NetworkGlobals, peer_id: &PeerId) -> (known: bool)
        ensures
            disconnect_outcome(old(globals).peers@, final(globals).peers@, *peer_id, known),
    {
        let found: Option<PeerInfo> = match globals.peers.get(peer_id) {
            Some(info) => Some(*info),
            None => None,
        };
        match found {
            Some(info) => {
                globals.peers.insert(*peer_id, PeerInfo { is_connected: false, ..info });
                true
            },
            None => false,
        }
    }

    /// Runs every score once through `decay`.
    fn decay_scores<F: Fn(Score) -> Score>(&self, globals: &mut NetworkGlobals, decay: F)
        requires
            forall|s: Score| call_requires(decay, (s,)),
        ensures
            decayed(old(globals).peers@, final(globals).peers@, decay),
    {
        let ids = globals.peers.keys();
        let ghost before = globals.peers@;
        for k in 0..ids.len()
            invariant
                forall|s: Score| call_requires(decay, (s,)),
                ids@.no_duplicates(),
                ids@.to_set() == before.dom(),
                globals.peers@.dom() == before.dom(),
                forall|i: int| #![trigger ids[i]]
                    0 <= i < ids.len() ==> {
                        if i < k {
                            &&& globals.peers@[ids[i]] == with_score(before[ids[i]], globals.peers@[ids[i]].score)
                            &&& call_ensures(decay, (before[ids[i]].score,), globals.peers@[ids[i]].score)
                        } else {
                            globals.peers@[ids[i]] == before[ids[i]]
                        }
                    },
        {
            let id = ids[k];
            assert(ids@.to_set().contains(id));
            let found: Option<PeerInfo> = match globals.peers.get(&id) {
                Some(info) => Some(*info),
                None => None,
            };
            if let Some(info) = found {
                let score = decay(info.score);
                globals.peers.insert(id, PeerInfo { score, ..info });
                assert(globals.peers@.dom() =~= before.dom());
            }
        }
        assert forall|p: PeerId| #[trigger] before.dom().contains(p) implies globals.peers@[p] == with_score(
            before[p],
            globals.peers@[p].score,
        ) && call_ensures(decay, (before[p].score,), globals.peers@[p].score) by {
            assert(ids@.to_set().contains(p));
            let i = choose|i: int| 0 <= i < ids.len() && ids[i] == p;
            assert(ids[i] == p);
        }
    }

    /// The peers to drop when `num_peers` of them are too many.
    fn prune_peers(&self, globals: &NetworkGlobals, num_peers: usize) -> (r: Vec<PeerId>)
        ensures
            lowest_scoring(globals.peers@, num_peers as nat, r@),
    {
        let entries = globals.peers.entries();
        let ghost peers = globals.peers@;
        let mut by_score: Vec<PeerId> = Vec::new();
        for k in 0..entries.len()
            invariant
                distinct_keys(entries@),
                as_map(entries@) == peers,
                peers == globals.peers@,
                by_score@.no_duplicates(),
                by_score@.to_set() == picked(entries@, k as int, is_prunable()),
                forall|i: int| 0 <= i < by_score.len() ==> peers.dom().contains(#[trigger] by_score[i]),
                ascending(peers, by_score@),
        {
            let (id, info) = (entries[k].0, &entries[k].1);
            proof {
                lemma_picked_step(entries@, k as int, is_prunable());
                lemma_entry(entries@, k as int);
            }
            if info.is_connected && info.status.is_some() {
                Self::insert_by_score(globals, &mut by_score, id, info.score.rank);
            }
        }
        proof {
            lemma_picked_all(entries@, is_prunable());
            by_score@.unique_seq_to_set();
        }
        let ghost all = peers_where(peers, is_prunable());
        let ghost sorted = by_score@;
        if by_score.len() > num_peers {
            by_score.truncate(num_peers);
        }
        proof {
            let r = by_score@;
            assert(r =~= sorted.take(r.len() as int));
            assert forall|i: int| 0 <= i < r.len() implies all.contains(#[trigger] r[i]) by {
                assert(sorted.to_set().contains(sorted[i]));
            }
            assert forall|i: int, q: PeerId|
                0 <= i < r.len() && #[trigger] all.contains(q) && !r.contains(q) implies peers[#[trigger] r[i]].score.rank
                <= peers[q].score.rank by {
                assert(sorted.to_set().contains(q));
                let j = choose|j: int| 0 <= j < sorted.len() && sorted[j] == q;
                if j < r.len() {
                    assert(r[j] == q);
                }
                assert(sorted[i] == r[i]);
            }
        }
        by_score
    }

    /// Puts a peer behind those of `ids` that score no higher.
    fn insert_by_score(globals: &NetworkGlobals, ids: &mut Vec<PeerId>, id: PeerId, rank: i64)
        requires
            globals.peers@.dom().contains(id),
            globals.peers@[id].score.rank == rank,
            old(ids)@.no_duplicates(),
            !old(ids)@.to_set().contains(id),
            forall|i: int| 0 <= i < old(ids)@.len() ==> globals.peers@.dom().contains(#[trigger] old(ids)@[i]),
            ascending(globals.peers@, old(ids)@),
        ensures
            final(ids)@.no_duplicates(),
            final(ids)@.to_set() == old(ids)@.to_set().insert(id),
            forall|i: int| 0 <= i < final(ids)@.len() ==> globals.peers@.dom().contains(#[trigger] final(ids)@[i]),
            ascending(globals.peers@, final(ids)@),
    {
        let ghost before = ids@;
        let ghost peers = globals.peers@;
        let mut at: usize = ids.len();
        while at > 0 && Self::outranks(globals, &ids[at - 1], rank)
            invariant
                at <= ids.len(),
                ids@ == before,
                peers == globals.peers@,
                forall|i: int| 0 <= i < before.len() ==> peers.dom().contains(#[trigger] before[i]),
                forall|i: int| at <= i < before.len() ==> peers[#[trigger] before[i]].score.rank > rank,
            decreases at,
        {
            at -= 1;
        }
        ids.insert(at, id);
        proof {
            let after = ids@;
            assert(after =~= before.insert(at as int, id));
            assert(after =~= before.take(at as int).push(id) + before.skip(at as int));
            assert forall|i: int| 0 <= i < after.len() implies #[trigger] after[i] == (if i < at {
                before[i]
            } else if i == at {
                id
            } else {
                before[i - 1]
            }) by {}
            assert forall|q: PeerId| #[trigger] after.to_set().contains(q) <==> before.to_set().contains(q) || q == id by {
                if before.contains(q) {
                    let i = choose|i: int| 0 <= i < before.len() && before[i] == q;
                    let j = if i < at { i } else { i + 1 };
                    assert(after[j] == q);
                }
                if q == id {
                    assert(after[at as int] == q);
                }
                if after.contains(q) {
                    let i = choose|i: int| 0 <= i < after.len() && after[i] == q;
                    if i < at {
                        assert(before[i] == q);
                    } else if i > at {
                        assert(before[i - 1] == q);
                    }
                }
            }
            assert(after.to_set() =~= before.to_set().insert(id));
            assert(forall|i: int| 0 <= i < before.len() ==> before.contains(#[trigger] before[i]));
        }
    }

    /// Whether a peer of the table scores higher than `rank`.
    fn outranks(globals: &NetworkGlobals, id: &PeerId, rank: i64) -> (r: bool)
        requires
            globals.peers@.dom().contains(*id),
        ensures
            r == (globals.peers@[*id].score.rank > rank),
    {
        match globals.peers.get(id) {
            Some(info) => info.score.rank > rank,
            None => false,
        }
    }

    /// Lets scores decay if it is time, and holds the number of peers against the target.
    pub fn heartbeat<F: Fn(Score) -> Score>(
        &mut self,
        globals: &mut NetworkGlobals,
        now: u128,
        decay: F,
    ) -> (r: HeartbeatResult)
        requires
            forall|s: Score| call_requires(decay, (s,)),
        ensures
            old(self).heartbeat_outcome(*final(self), old(globals).peers@, final(globals).peers@, now, decay, r),
    {
        if now.saturating_sub(self.last_decay) >= self.score_halflife {
            self.decay_scores(globals, decay);
            self.last_decay = now;
        }
        let num_peers = globals.peers.len();
        if num_peers < self.target_peers {
            HeartbeatResult::WantedPeers(self.target_peers - num_peers)
        } else if num_peers > self.target_peers {
            HeartbeatResult::ExcessPeers(self.prune_peers(globals, num_peers - self.target_peers))
        } else {
            HeartbeatResult::NoAction
        }
    }

    /// What a heartbeat at `now` leads to.
    pub open spec fn heartbeat_outcome<F: Fn(Score) -> Score>(
        &self,
        after: PeerManager,
        peers: Map<PeerId, PeerInfo>,
        peers_after: Map<PeerId, PeerInfo>,
        now: u128,
        decay: F,
        r: HeartbeatResult,
    ) -> bool {
        &&& after.target_peers == self.target_peers
        &&& after.score_halflife == self.score_halflife
        &&& if self.decay_is_due(now) {
            after.last_decay == now && decayed(peers, peers_after, decay)
        } else {
            after.last_decay == self.last_decay && peers_after == peers
        }
        &&& heartbeat_answer(peers_after, self.target_peers as nat, r)
    }

    /// Whether a halflife has passed at `now` since scores decayed last.
    pub open spec fn decay_is_due(&self, now: u128) -> bool {
        let elapsed = if now >= self.last_decay { now - self.last_decay } else { 0 };
        elapsed >= self.score_halflife
    }

    /// Whether to dial a peer: more connections are wanted, and the peer is neither connected nor banned.
    pub fn should_dial_peer(&self, globals: &NetworkGlobals, peer_id: PeerId) -> (r: bool)
        ensures
            r == wants_dial(globals.peers@, self.target_peers as nat, peer_id),
    {
        let entries = globals.peers.entries();
        let mut connected: usize = 0;
        proof {
            assert(picked(entries@, 0, is_connected()) =~= Set::<PeerId>::empty());
        }
        for k in 0..entries.len()
            invariant
                distinct_keys(entries@),
                as_map(entries@) == globals.peers@,
                connected <= k,
                picked(entries@, k as int, is_connected()).finite(),
                connected == picked(entries@, k as int, is_connected()).len(),
        {
            proof {
                lemma_picked_step(entries@, k as int, is_connected());
            }
            if entries[k].1.is_connected {
                connected += 1;
            }
        }
        proof {
            lemma_picked_all(entries@, is_connected());
        }
        if connected >= self.target_peers {
            return false;
        }
        match globals.peers.get(&peer_id) {
            Some(info) => !(info.is_connected || info.score.is_banned()),
            None => true,
        }
    }

    /// Which of the addresses that discovery has found are to be dialed, in the order in which it found them.
    pub fn discovered_peers(&self, globals: &NetworkGlobals, list: Vec<(PeerId, Multiaddr)>) -> (r: Vec<
        (PeerId, Multiaddr),
    >)
        ensures
            r@ == worth_dialing(list@, globals.peers@, self.target_peers as nat),
    {
        let ghost all = list@;
        let mut to_dial: Vec<(PeerId, Multiaddr)> = Vec::new();
        let ghost target = self.target_peers as nat;
        assert(to_dial@ =~= worth_dialing(all.take(0), globals.peers@, target)) by {
            reveal(Seq::filter);
        }
        for found in it: list
            invariant
                it.seq() == all,
                target == self.target_peers,
                to_dial@ == worth_dialing(all.take(it.index() as int), globals.peers@, target),
        {
            proof {
                let k = it.index() as int;
                assert(all.take(k + 1).drop_last() =~= all.take(k));
                reveal(Seq::filter);
            }
            if self.should_dial_peer(globals, found.0) {
                to_dial.push(found);
            }
        }
        assert(all.take(all.len() as int) =~= all);
        to_dial
    }
}

/// A peer that is banned, or connected already, is not dialed.
pub proof fn law_banned_or_connected_peer_is_not_dialed(peers: Map<PeerId, PeerInfo>, target: nat, p: PeerId)
    requires
        peers.dom().contains(p),
        peers[p].score.banned || peers[p].is_connected,
    ensures
        !wants_dial(peers, target, p),
{
}

/// Of a peer that is banned already, no report says so again.
pub proof fn law_ban_is_told_once(before: Score, after: Score)
    requires
        before.banned,
    ensures
        verdict(before, after) == ReportPeerResult::NoAction,
{
}

/// To drop the peers that a heartbeat finds too many does not leave fewer peers than are wanted, and drops none but
/// connected ones.
pub proof fn law_pruning_keeps_the_target(
    peers: Map<PeerId, PeerInfo>,
    target: nat,
    excess: Vec<PeerId>,
)
    requires
        heartbeat_answer(peers, target, HeartbeatResult::ExcessPeers(excess)),
    ensures
        peers.dom().len() - excess@.len() >= target,
        forall|i: int| 0 <= i < excess@.len() ==> peers.dom().contains(#[trigger] excess@[i])
            && peers[excess@[i]].is_connected,
{
    let all = peers_where(peers, is_prunable());
    let n = peers.dom().len();
    assert forall|i: int| 0 <= i < excess@.len() implies peers.dom().contains(#[trigger] excess@[i])
        && peers[excess@[i]].is_connected by {
        assert(all.contains(excess@[i]));
    }
}

/// To let scores decay changes nothing of which peers are connected, so whether a peer is worth dialing can only
/// change with a ban.
pub proof fn law_decay_keeps_connections<F: Fn(Score) -> Score>(
    before: Map<PeerId, PeerInfo>,
    after: Map<PeerId, PeerInfo>,
    decay: F,
    target: nat,
    p: PeerId,
)
    requires
        decayed(before, after, decay),
    ensures
        peers_where(after, is_connected()) == peers_where(before, is_connected()),
        before.dom().contains(p) && before[p].score.banned == after[p].score.banned ==> wants_dial(after, target, p)
            == wants_dial(before, target, p),
{
    assert(peers_where(after, is_connected()) =~= peers_where(before, is_connected()));
}

/// The peers of a table that are connected.
pub open spec fn connected_ones(peers: Map<PeerId, PeerInfo>) -> Set<PeerId> {
    Set::new(|q: PeerId| peers.dom().contains(q) && peers[q].is_connected)
}

/// While fewer peers are connected than are wanted, every peer is dialed that is neither connected nor banned, known
/// or not, whatever its status and its rank, and no other one. Once as many are connected, none is.
pub proof fn law_dials_whoever_is_neither_connected_nor_banned(
    peers: Map<PeerId, PeerInfo>,
    target: nat,
    p: PeerId,
)
    ensures
        connected_ones(peers).len() >= target ==> !wants_dial(peers, target, p),
        connected_ones(peers).len() < target && !peers.dom().contains(p) ==> wants_dial(peers, target, p),
        connected_ones(peers).len() < target && peers.dom().contains(p) ==> (wants_dial(peers, target, p) <==> !(
        peers[p].is_connected || peers[p].score.banned)),
{
    assert(peers_where(peers, is_connected()) =~= connected_ones(peers));
}

/// Of what discovery has found, an address is dialed if and only if fewer peers are connected than are wanted and its
/// peer is neither connected nor banned. The order stays, and nothing is added or dialed twice that was found once.
pub proof fn law_discovery_sifts_one_by_one(
    list: Seq<(PeerId, Multiaddr)>,
    found: (PeerId, Multiaddr),
    peers: Map<PeerId, PeerInfo>,
    target: nat,
)
    ensures
        worth_dialing(Seq::empty(), peers, target) == Seq::<(PeerId, Multiaddr)>::empty(),
        worth_dialing(list.push(found), peers, target) == (if connected_ones(peers).len() < target && (
        peers.dom().contains(found.0) ==> !peers[found.0].is_connected && !peers[found.0].score.banned) {
            worth_dialing(list, peers, target).push(found)
        } else {
            worth_dialing(list, peers, target)
        }),
{
    reveal(Seq::filter);
    law_dials_whoever_is_neither_connected_nor_banned(peers, target, found.0);
    assert(list.push(found).drop_last() =~= list);
}

/// An address is worth dialing if and only if it was found and its peer is to be dialed.
pub proof fn lemma_worth_dialing(
    list: Seq<(PeerId, Multiaddr)>,
    found: (PeerId, Multiaddr),
    peers: Map<PeerId, PeerInfo>,
    target: nat,
)
    ensures
        worth_dialing(list, peers, target).contains(found) <==> list.contains(found) && connected_ones(peers).len()
            < target && (peers.dom().contains(found.0) ==> !peers[found.0].is_connected
            && !peers[found.0].score.banned),
    decreases list.len(),
{
    if list.len() == 0 {
        reveal(Seq::filter);
        assert(list =~= Seq::empty());
    } else {
        let rest = list.drop_last();
        let next = list.last();
        lemma_worth_dialing(rest, found, peers, target);
        law_discovery_sifts_one_by_one(rest, next, peers, target);
        assert(rest.push(next) =~= list);
        let kept = worth_dialing(rest, peers, target);
        if rest.contains(found) {
            let i = choose|i: int| 0 <= i < rest.len() && rest[i] == found;
            assert(list[i] == found);
        }
        if kept.contains(found) {
            let i = choose|i: int| 0 <= i < kept.len() && kept[i] == found;
            assert(kept.push(next)[i] == found);
        }
        assert(kept.push(next)[kept.len() as int] == next);
        assert(list[list.len() - 1] == next);
    }
}

/// Scores decay at a heartbeat if and only if a halflife has passed since they decayed last. From then on they decay
/// at whatever time the heartbeat comes, and before that never. With a halflife of no time they always do.
pub proof fn law_decay_is_due_from_a_halflife_on(m: PeerManager, now: u128, later: u128)
    requires
        now <= later,
    ensures
        m.score_halflife > 0 ==> (m.decay_is_due(now) <==> now >= m.last_decay + m.score_halflife),
        m.score_halflife == 0 ==> m.decay_is_due(now),
        m.decay_is_due(now) ==> m.decay_is_due(later),
{
}

/// A heartbeat once a halflife has passed sets the time of the last decay to its own, and runs the score of every peer
/// once through the decay. An earlier one leaves both as they are. Neither changes anything else of a peer.
pub proof fn law_heartbeat_decays_after_a_halflife<F: Fn(Score) -> Score>(
    before: PeerManager,
    after: PeerManager,
    peers: Map<PeerId, PeerInfo>,
    peers_after: Map<PeerId, PeerInfo>,
    now: u128,
    decay: F,
    r: HeartbeatResult,
)
    requires
        before.heartbeat_outcome(after, peers, peers_after, now, decay, r),
    ensures
        after.target_peers == before.target_peers,
        after.score_halflife == before.score_halflife,
        peers_after.dom() == peers.dom(),
        forall|p: PeerId| #[trigger]
            peers.dom().contains(p) ==> peers_after[p].is_connected == peers[p].is_connected && peers_after[p].status
                == peers[p].status,
        now >= before.last_decay + before.score_halflife ==> after.last_decay == now && (forall|p: PeerId| #[trigger]
            peers.dom().contains(p) ==> call_ensures(decay, (peers[p].score,), peers_after[p].score)),
        now < before.last_decay + before.score_halflife && before.score_halflife > 0 ==> after.last_decay
            == before.last_decay && (forall|p: PeerId| #[trigger]
            peers.dom().contains(p) ==> peers_after[p].score == peers[p].score),
{
}

/// A heartbeat asks for as many peers as are missing, and for none if the number is right. If there are too many, it
/// names peers to drop: each is connected and has told its status, none is named twice, they go from the lowest rank
/// up, whoever could have been named instead ranks no lower, and there are as many as are too many, unless fewer can
/// be dropped, in which case all of those are named.
pub proof fn law_heartbeat_holds_the_number_against_the_target(
    peers: Map<PeerId, PeerInfo>,
    target: usize,
    r: HeartbeatResult,
)
    requires
        heartbeat_answer(peers, target as nat, r),
        peers.dom().finite(),
    ensures
        peers.dom().len() < target ==> (r matches HeartbeatResult::WantedPeers(n) && n + peers.dom().len() == target),
        peers.dom().len() == target ==> r is NoAction,
        peers.dom().len() > target ==> (r matches HeartbeatResult::ExcessPeers(excess) && {
            &&& excess@.no_duplicates()
            &&& excess@.len() <= peers.dom().len() - target
            &&& forall|i: int|
                0 <= i < excess@.len() ==> peers.dom().contains(#[trigger] excess@[i])
                    && peers[excess@[i]].is_connected && peers[excess@[i]].status is Some
            &&& forall|i: int, j: int|
                0 <= i < j < excess@.len() ==> peers[#[trigger] excess@[i]].score.rank
                    <= peers[#[trigger] excess@[j]].score.rank
            &&& forall|q: PeerId| #[trigger]
                peers.dom().contains(q) && peers[q].is_connected && peers[q].status is Some && !excess@.contains(q) ==> {
                    &&& excess@.len() == peers.dom().len() - target
                    &&& forall|i: int|
                        0 <= i < excess@.len() ==> peers[#[trigger] excess@[i]].score.rank <= peers[q].score.rank
                }
        }),
{
    if let HeartbeatResult::ExcessPeers(excess) = r {
        let all = peers_where(peers, is_prunable());
        let ids = excess@;
        assert forall|i: int| 0 <= i < ids.len() implies peers.dom().contains(#[trigger] ids[i])
            && peers[ids[i]].is_connected && peers[ids[i]].status is Some by {
            assert(all.contains(ids[i]));
        }
        assert forall|q: PeerId| #[trigger]
            peers.dom().contains(q) && peers[q].is_connected && peers[q].status is Some && !ids.contains(q) implies {
            &&& ids.len() == peers.dom().len() - target
            &&& forall|i: int| 0 <= i < ids.len() ==> peers[#[trigger] ids[i]].score.rank <= peers[q].score.rank
        } by {
            assert(all.contains(q));
            ids.unique_seq_to_set();
            assert(all.subset_of(peers.dom()));
            vstd::set_lib::lemma_len_subset(all, peers.dom());
            assert(ids.to_set().insert(q).subset_of(all));
            vstd::set_lib::lemma_len_subset(ids.to_set().insert(q), all);
        }
    }
}

/// A report of a known peer, for whatever offence, moves its score by way of the scoring and changes nothing else of it
/// or of another peer; it bans the peer if and only if the peer was not banned before and is so now. A report of a peer
/// that is not known changes nothing and bans nobody.
pub proof fn law_report_moves_one_score<F: Fn(Score, PeerAction) -> Score>(
    before: Map<PeerId, PeerInfo>,
    after: Map<PeerId, PeerInfo>,
    p: PeerId,
    action: PeerAction,
    apply: F,
    r: ReportPeerResult,
    q: PeerId,
)
    requires
        report_outcome(before, after, p, action, apply, r),
    ensures
        after.dom() == before.dom(),
        q != p && before.dom().contains(q) ==> after[q] == before[q],
        before.dom().contains(p) ==> after[p].is_connected == before[p].is_connected && after[p].status
            == before[p].status && call_ensures(apply, (before[p].score, action), after[p].score),
        r == ReportPeerResult::Ban <==> before.dom().contains(p) && !before[p].score.banned && after[p].score.banned,
{
    assert(after.dom() =~= before.dom());
}

/// To mark a peer as not connected keeps its status and its score, and every other peer as it is. It is told whether the
/// peer was known, and one that was not stays unknown.
pub proof fn law_disconnecting_changes_one_mark(
    before: Map<PeerId, PeerInfo>,
    after: Map<PeerId, PeerInfo>,
    p: PeerId,
    known: bool,
    q: PeerId,
)
    requires
        disconnect_outcome(before, after, p, known),
    ensures
        known <==> before.dom().contains(p),
        after.dom() == before.dom(),
        before.dom().contains(p) ==> !after[p].is_connected && after[p].status == before[p].status && after[p].score
            == before[p].score,
        q != p && before.dom().contains(q) ==> after[q] == before[q],
{
    assert(after.dom() =~= before.dom());
}

}
