//! What a node answers its peers.

use crate::config::NetworkConfig;
use crate::network::{Network, NetworkEvent};
use crate::rpc::{BlocksByRangeRequest, Eth2Request, Eth2Response, StatusResponse};
use crate::types::NetworkRequest;
use vstd::prelude::*;

verus! {

/// How far apart the first and the last block of a request may be.
pub const MAX_BLOCK_RANGE: u64 = 1000;

/// What is said of a request for too many blocks.
pub const RANGE_TOO_LARGE: &'static str = "Requested block range too large. Max range is 1000 blocks";

/// What is said of a block that the ledger does not hold.
pub const BLOCK_NOT_FOUND: &'static str = "Block not found";

/// Why a request of a peer is not answered. `E` is an error of the ledger.
#[derive(Debug, PartialEq, Eq)]
pub enum RequestError<E> {
    /// It asks for too many blocks.
    RangeTooLarge,
    /// It asks for a block that the ledger does not hold.
    BlockNotFound,
    /// The ledger failed.
    Ledger(E),
}

/// What the ledger found for a range of blocks, one place for each block.
pub open spec fn all_found<B>(found: Seq<Option<B>>) -> bool {
    forall|i: int| 0 <= i < found.len() ==> #[trigger] found[i] is Some
}

/// `r` is the answer to a request for blocks when `found` is what the ledger gave.
pub open spec fn range_answer<B, E>(
    found: Result<Vec<Option<B>>, E>,
    r: Result<Vec<B>, RequestError<E>>,
) -> bool {
    match found {
        Ok(found) => if all_found(found@) {
            r matches Ok(blocks) && blocks@ == found@.map_values(|b: Option<B>| b->0)
        } else {
            r == Err::<Vec<B>, RequestError<E>>(RequestError::BlockNotFound)
        },
        Err(e) => r == Err::<Vec<B>, RequestError<E>>(RequestError::Ledger(e)),
    }
}

/// `r` is the answer to a request for the blocks from `start` to `end`. `blocks` asks the ledger.
pub open spec fn blocks_answer<B, E, F: Fn(u64, u64) -> Result<Vec<Option<B>>, E>>(
    blocks: F,
    start: u64,
    end: u64,
    r: Result<Vec<B>, RequestError<E>>,
) -> bool {
    if end - start > MAX_BLOCK_RANGE {
        r == Err::<Vec<B>, RequestError<E>>(RequestError::RangeTooLarge)
    } else {
        exists|found: Result<Vec<Option<B>>, E>| #[trigger]
            call_ensures(blocks, (start, end), found) && range_answer(found, r)
    }
}

/// The answer to a request for the status when the ledger gave `pruned` and `head`.
pub open spec fn status_answer<B, E>(pruned: Result<Option<u64>, E>, head: Result<u64, E>) -> Result<
    Eth2Response<B>,
    RequestError<E>,
> {
    match pruned {
        Err(e) => Err(RequestError::Ledger(e)),
        Ok(last_pruned_block) => match head {
            Err(e) => Err(RequestError::Ledger(e)),
            Ok(head_block) => Ok(Eth2Response::Status(StatusResponse { head_block, last_pruned_block })),
        },
    }
}

/// `r` is the answer to a request of a peer. `pruned`, `head` and `blocks` ask the ledger.
pub open spec fn request_answer<
    B,
    E,
    P: Fn() -> Result<Option<u64>, E>,
    H: Fn() -> Result<u64, E>,
    F: Fn(u64, u64) -> Result<Vec<Option<B>>, E>,
>(request: Eth2Request, pruned: P, head: H, blocks: F, r: Result<Eth2Response<B>, RequestError<E>>) -> bool {
    match request {
        Eth2Request::Status => exists|p: Result<Option<u64>, E>| #[trigger]
            call_ensures(pruned, (), p) && match p {
                Ok(_) => exists|h: Result<u64, E>| #[trigger]
                    call_ensures(head, (), h) && r == status_answer::<B, E>(p, h),
                Err(e) => r == Err::<Eth2Response<B>, RequestError<E>>(RequestError::Ledger(e)),
            },
        Eth2Request::BlocksByRange(range) => match r {
            Ok(Eth2Response::BlocksByRange(found)) => blocks_answer(
                blocks,
                range.start,
                range.end,
                Ok::<Vec<B>, RequestError<E>>(found),
            ),
            Ok(Eth2Response::Status(_)) => false,
            Err(e) => blocks_answer(blocks, range.start, range.end, Err::<Vec<B>, RequestError<E>>(e)),
        },
    }
}

/// The blocks that the ledger found, if it found each of them.
pub fn collect_blocks<B, E>(found: Result<Vec<Option<B>>, E>) -> (r: Result<Vec<B>, RequestError<E>>)
    ensures
        range_answer(found, r),
{
    let places = match found {
        Ok(places) => places,
        Err(e) => {
            return Err(RequestError::Ledger(e));
        },
    };
    let ghost all = places@;
    let mut blocks: Vec<B> = Vec::new();
    for block in it: places
        invariant
            it.seq() == all,
            found matches Ok(v) && v@ == all,
            blocks@.len() == it.index(),
            forall|i: int| 0 <= i < blocks@.len() ==> #[trigger] all[i] == Some(blocks@[i]),
    {
        match block {
            Some(block) => blocks.push(block),
            None => {
                assert(all[it.index() as int] is None);
                return Err(RequestError::BlockNotFound);
            },
        }
    }
    assert(blocks@ =~= all.map_values(|b: Option<B>| b->0));
    Ok(blocks)
}

/// The status of the node, from what the ledger gave.
pub fn status_response<B, E>(pruned: Result<Option<u64>, E>, head: Result<u64, E>) -> (r: Result<
    Eth2Response<B>,
    RequestError<E>,
>)
    ensures
        r == status_answer::<B, E>(pruned, head),
{
    match pruned {
        Err(e) => Err(RequestError::Ledger(e)),
        Ok(last_pruned_block) => match head {
            Err(e) => Err(RequestError::Ledger(e)),
            Ok(head_block) => Ok(Eth2Response::Status(StatusResponse { head_block, last_pruned_block })),
        },
    }
}

/// What the service of a node takes notice of. `B` is a block, `E` an error of the ledger.
pub enum ServiceEvent<B, E> {
    /// The rest of the node asks something.
    Request(NetworkRequest),
    /// The network has news.
    Network(NetworkEvent<B>),
    /// The answer to a request of a peer is ready, or has failed.
    Answer { request_id: u64, result: Result<Eth2Response<B>, RequestError<E>> },
    /// It is time to ask for blocks.
    Tick,
    /// The node shuts down.
    Shutdown,
}

/// What the service of a node does next. `B` is a block, `C` is what a response is sent by.
#[derive(Debug, PartialEq, Eq)]
pub enum ServiceAction<B, C> {
    /// It finds the answer to a request of a peer.
    Handle { request_id: u64, request: Eth2Request },
    /// It sends an answer.
    Respond { channel: C, response: Eth2Response<B> },
    /// It asks some peer for blocks.
    Ask(Eth2Request),
    /// It waits for the next event.
    Wait,
    /// It stops.
    Stop,
}

/// The blocks that are asked for from time to time.
pub open spec fn first_blocks() -> Eth2Request {
    Eth2Request::BlocksByRange(BlocksByRangeRequest { start: 1, end: 3 })
}

/// Speaks for a node in the network. `C` is what a response is sent by.
pub struct NetworkService<C> {
    /// The bookkeeping of the peer-to-peer network.
    pub network: Network<C>,
}

impl<C> NetworkService<C> {
    /// No request is pending and no connection is open.
    pub fn build(network_config: &NetworkConfig, score_halflife: u128, now: u128) -> (s: Self)
        ensures
            s.network.is_new(network_config, score_halflife, now),
    {
        NetworkService { network: Network::build(network_config, score_halflife, now) }
    }

    /// What an event leads to.
    pub open spec fn turn<B, E>(&self, after: &Self, event: ServiceEvent<B, E>, action: ServiceAction<B, C>) -> bool {
        &&& after.network.same_settings(&self.network)
        &&& after.network.outbound() == self.network.outbound()
        &&& after.network.connections() == self.network.connections()
        &&& after.network.inbound() == (match event {
            ServiceEvent::Answer { request_id, result: Ok(response) } => self.network.inbound().remove(request_id),
            _ => self.network.inbound(),
        })
        &&& action == (match event {
            ServiceEvent::Network(NetworkEvent::RequestReceived { request_id, request }) => {
                ServiceAction::<B, C>::Handle { request_id, request }
            },
            ServiceEvent::Answer { request_id, result: Ok(response) } => {
                if self.network.inbound().dom().contains(request_id) {
                    ServiceAction::Respond { channel: self.network.inbound()[request_id], response }
                } else {
                    ServiceAction::Wait
                }
            },
            ServiceEvent::Tick => ServiceAction::Ask(first_blocks()),
            ServiceEvent::Shutdown => ServiceAction::Stop,
            _ => ServiceAction::Wait,
        })
    }

    /// What an event leads to.
    pub fn run<B, E>(&mut self, event: ServiceEvent<B, E>) -> (action: ServiceAction<B, C>)
        ensures
            old(self).turn(final(self), event, action),
    {
        match event {
            ServiceEvent::Request(_) => ServiceAction::Wait,
            ServiceEvent::Network(event) => match event {
                NetworkEvent::RequestReceived { request_id, request } => ServiceAction::Handle {
                    request_id,
                    request,
                },
                _ => ServiceAction::Wait,
            },
            ServiceEvent::Answer { request_id, result } => match result {
                Ok(response) => match self.network.send_rpc_response(request_id) {
                    Ok(channel) => ServiceAction::Respond { channel, response },
                    Err(_) => ServiceAction::Wait,
                },
                Err(_) => ServiceAction::Wait,
            },
            ServiceEvent::Tick => ServiceAction::Ask(
                Eth2Request::BlocksByRange(BlocksByRangeRequest { start: 1, end: 3 }),
            ),
            ServiceEvent::Shutdown => ServiceAction::Stop,
        }
    }

    /// The answer to a request of a peer. `pruned`, `head` and `blocks` ask the ledger for the height up to which
    /// blocks were dropped, for the height of the newest block, and for a range of blocks.
    pub fn handle_incoming_rpc_request<
        B,
        E,
        P: Fn() -> Result<Option<u64>, E>,
        H: Fn() -> Result<u64, E>,
        F: Fn(u64, u64) -> Result<Vec<Option<B>>, E>,
    >(request: Eth2Request, pruned: P, head: H, blocks: F) -> (r: Result<Eth2Response<B>, RequestError<E>>)
        requires
            match request {
                Eth2Request::Status => call_requires(pruned, ()) && call_requires(head, ()),
                Eth2Request::BlocksByRange(range) => {
                    &&& range.start <= range.end
                    &&& range.end - range.start <= MAX_BLOCK_RANGE ==> call_requires(blocks, (range.start, range.end))
                },
            },
        ensures
            request_answer(request, pruned, head, blocks, r),
    {
        match request {
            Eth2Request::Status => {
                let p = pruned();
                match p {
                    Ok(last_pruned_block) => {
                        let h = head();
                        let r = status_response(Ok(last_pruned_block), h);
                        assert(call_ensures(pruned, (), p) && call_ensures(head, (), h));
                        r
                    },
                    Err(e) => {
                        assert(call_ensures(pruned, (), p));
                        Err(RequestError::Ledger(e))
                    },
                }
            },
            Eth2Request::BlocksByRange(range) => match Self::l2_blocks_by_range(blocks, range.start, range.end) {
                Ok(found) => Ok(Eth2Response::BlocksByRange(found)),
                Err(e) => Err(e),
            },
        }
    }

    /// The blocks from `start` to `end`, both included. `blocks` asks the ledger, if they are not too many.
    pub fn l2_blocks_by_range<B, E, F: Fn(u64, u64) -> Result<Vec<Option<B>>, E>>(
        blocks: F,
        start: u64,
        end: u64,
    ) -> (r: Result<Vec<B>, RequestError<E>>)
        requires
            start <= end,
            end - start <= MAX_BLOCK_RANGE ==> call_requires(blocks, (start, end)),
        ensures
            blocks_answer(blocks, start, end, r),
    {
        if end - start > MAX_BLOCK_RANGE {
            return Err(RequestError::RangeTooLarge);
        }
        collect_blocks(blocks(start, end))
    }
}

/// Of whatever the ledger says of its head and of what it has dropped, the status tells just that: a node that has
/// dropped nothing says so. An error of the ledger is handed on, that about what was dropped first.
pub proof fn law_status_tells_what_the_ledger_says<B, E>(pruned: Result<Option<u64>, E>, head: Result<u64, E>)
    ensures
        pruned is Ok && head is Ok ==> (status_answer::<B, E>(pruned, head) matches Ok(Eth2Response::Status(s))
            && s.head_block == head->Ok_0 && s.last_pruned_block == pruned->Ok_0),
        pruned is Err ==> status_answer::<B, E>(pruned, head) == Err::<Eth2Response<B>, RequestError<E>>(
            RequestError::Ledger(pruned->Err_0),
        ),
        pruned is Ok && head is Err ==> status_answer::<B, E>(pruned, head) == Err::<Eth2Response<B>, RequestError<E>>(
            RequestError::Ledger(head->Err_0),
        ),
{
}

/// A request for the status is answered with what the ledger says, and never with blocks.
pub proof fn law_request_for_status_is_answered<
    B,
    E,
    P: Fn() -> Result<Option<u64>, E>,
    H: Fn() -> Result<u64, E>,
    F: Fn(u64, u64) -> Result<Vec<Option<B>>, E>,
>(
    pruned: P,
    head: H,
    blocks: F,
    p: Result<Option<u64>, E>,
    h: Result<u64, E>,
    r: Result<Eth2Response<B>, RequestError<E>>,
)
    requires
        request_answer(Eth2Request::Status, pruned, head, blocks, r),
        forall|x: Result<Option<u64>, E>| #[trigger] call_ensures(pruned, (), x) ==> x == p,
        forall|x: Result<u64, E>| #[trigger] call_ensures(head, (), x) ==> x == h,
    ensures
        p is Ok && h is Ok ==> (r matches Ok(Eth2Response::Status(s)) && s.head_block == h->Ok_0 && s.last_pruned_block
            == p->Ok_0),
        p is Err ==> (r matches Err(RequestError::Ledger(e)) && e == p->Err_0),
        p is Ok && h is Err ==> (r matches Err(RequestError::Ledger(e)) && e == h->Err_0),
{
}

/// If the ledger found every block, the answer holds those very blocks, in their order and none but those. If it lacks
/// any, none is answered. An error of the ledger is handed on.
pub proof fn law_blocks_are_answered_all_or_none<B, E>(
    found: Result<Vec<Option<B>>, E>,
    r: Result<Vec<B>, RequestError<E>>,
    i: int,
)
    requires
        range_answer(found, r),
    ensures
        found matches Err(e) ==> (r matches Err(RequestError::Ledger(same)) && same == e),
        found matches Ok(places) ==> {
            &&& r matches Ok(blocks) ==> blocks@.len() == places@.len() && (0 <= i < places@.len() ==> places@[i]
                == Some(blocks@[i]))
            &&& r matches Err(e) ==> e is BlockNotFound && exists|k: int|
                0 <= k < places@.len() && #[trigger] places@[k] is None
            &&& 0 <= i < places@.len() && places@[i] is None ==> r is Err
        },
{
    if let Ok(places) = found {
        if all_found(places@) {
            let blocks = r->Ok_0@;
            if 0 <= i < places@.len() {
                assert(places@[i] is Some);
                assert(blocks[i] == places@[i]->0);
            }
        } else {
            let k = choose|k: int| 0 <= k < places@.len() && !(#[trigger] places@[k] is Some);
            assert(places@[k] is None);
        }
    }
}

/// A request for blocks is too large if and only if its last block is more than the set distance above its first.
/// Otherwise it is answered with every block that the ledger gives for just that range, or with what went wrong.
pub proof fn law_request_for_blocks_is_answered<
    B,
    E,
    P: Fn() -> Result<Option<u64>, E>,
    H: Fn() -> Result<u64, E>,
    F: Fn(u64, u64) -> Result<Vec<Option<B>>, E>,
>(
    start: u64,
    end: u64,
    pruned: P,
    head: H,
    blocks: F,
    found: Result<Vec<Option<B>>, E>,
    r: Result<Eth2Response<B>, RequestError<E>>,
    i: int,
)
    requires
        request_answer(Eth2Request::BlocksByRange(BlocksByRangeRequest { start, end }), pruned, head, blocks, r),
        start <= end,
        forall|x: Result<Vec<Option<B>>, E>| #[trigger] call_ensures(blocks, (start, end), x) ==> x == found,
    ensures
        end - start > MAX_BLOCK_RANGE <==> (r matches Err(e) && e is RangeTooLarge),
        end - start <= MAX_BLOCK_RANGE ==> match found {
            Err(e) => r matches Err(RequestError::Ledger(same)) && same == e,
            Ok(places) => match r {
                Ok(response) => response matches Eth2Response::BlocksByRange(sent) && sent@.len() == places@.len() && (
                0 <= i < places@.len() ==> places@[i] == Some(sent@[i])),
                Err(e) => e is BlockNotFound && exists|k: int|
                    0 <= k < places@.len() && #[trigger] places@[k] is None,
            },
        },
{
    if end - start <= MAX_BLOCK_RANGE {
        match r {
            Ok(response) => {
                law_blocks_are_answered_all_or_none(
                    found,
                    Ok::<Vec<B>, RequestError<E>>(response->BlocksByRange_0),
                    i,
                );
            },
            Err(e) => {
                law_blocks_are_answered_all_or_none(found, Err::<Vec<B>, RequestError<E>>(e), i);
            },
        }
    }
}

/// The blocks of a range are given if and only if the range is not too large, the ledger does not fail and holds each
/// of them; they are just those that it gives for the range.
pub proof fn law_range_of_blocks<B, E, F: Fn(u64, u64) -> Result<Vec<Option<B>>, E>>(
    start: u64,
    end: u64,
    blocks: F,
    found: Result<Vec<Option<B>>, E>,
    r: Result<Vec<B>, RequestError<E>>,
    i: int,
)
    requires
        blocks_answer(blocks, start, end, r),
        start <= end,
        forall|x: Result<Vec<Option<B>>, E>| #[trigger] call_ensures(blocks, (start, end), x) ==> x == found,
    ensures
        end > start + MAX_BLOCK_RANGE <==> (r matches Err(e) && e is RangeTooLarge),
        end <= start + MAX_BLOCK_RANGE && found is Err ==> (r matches Err(RequestError::Ledger(e)) && e
            == found->Err_0),
        r matches Ok(sent) ==> (found matches Ok(places) && sent@.len() == places@.len() && (0 <= i < places@.len()
            ==> places@[i] == Some(sent@[i]))),
        r matches Err(e) ==> (e is BlockNotFound ==> (found matches Ok(places) && exists|k: int|
            0 <= k < places@.len() && #[trigger] places@[k] is None)),
{
    if end - start <= MAX_BLOCK_RANGE {
        law_blocks_are_answered_all_or_none(found, r, i);
    }
}

/// Every request that came in is handled, whatever it asks. Its answer is sent by what came with the request, once, and
/// just as it is, if the request still waits. Nothing is sent for a request that does not wait, nor for one that could
/// not be answered, which goes on waiting. From time to time the first blocks are asked for. The service stops when it
/// is told to, and at nothing else. No event but an answer changes what waits, and none changes anything else.
pub proof fn law_turns_of_the_service<B, C, E>(
    before: NetworkService<C>,
    after: NetworkService<C>,
    event: ServiceEvent<B, E>,
    action: ServiceAction<B, C>,
    other: u64,
)
    requires
        before.turn(&after, event, action),
    ensures
        event matches ServiceEvent::Network(NetworkEvent::RequestReceived { request_id, request }) ==> (
        action matches ServiceAction::Handle { request_id: number, request: asked } && number == request_id && asked
            == request),
        action is Handle ==> (event matches ServiceEvent::Network(e) && e is RequestReceived),
        event matches ServiceEvent::Answer { request_id, result } ==> {
            &&& result is Ok && before.network.inbound().dom().contains(request_id) ==> (
            action matches ServiceAction::Respond { channel, response } && channel
                == before.network.inbound()[request_id] && response == result->Ok_0)
            &&& result is Err || !before.network.inbound().dom().contains(request_id) ==> action is Wait
            &&& result is Ok ==> !after.network.inbound().dom().contains(request_id)
            &&& result is Err || other != request_id ==> (after.network.inbound().dom().contains(other)
                <==> before.network.inbound().dom().contains(other)) && after.network.inbound()[other]
                == before.network.inbound()[other]
        },
        action is Respond ==> event is Answer,
        !(event is Answer) ==> after.network.inbound() == before.network.inbound(),
        event is Tick <==> action is Ask,
        action matches ServiceAction::Ask(request) ==> (request matches Eth2Request::BlocksByRange(range) && range.start
            == 1 && range.end == 3),
        event is Shutdown <==> action is Stop,
        event is Request ==> action is Wait,
        event matches ServiceEvent::Network(e) ==> (!(e is RequestReceived) ==> action is Wait),
        after.network.outbound() == before.network.outbound(),
        after.network.connections() == before.network.connections(),
        after.network.manager() == before.network.manager(),
        after.network.discovers() == before.network.discovers(),
{
}

}
