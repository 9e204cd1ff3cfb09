//! Addresses of nodes.

use crate::outside::{multiaddr_components, multiaddr_empty, multiaddr_push, multiaddr_read};
use libp2p::Multiaddr;
use vstd::prelude::*;

verus! {

/// An address of the internet protocol, its most significant byte first.
#[derive(Debug, Clone, Copy, PartialEq, Eq)]
pub enum IpAddr {
    /// Of version 4.
    V4([u8; 4]),
    /// Of version 6.
    V6([u8; 16]),
}

/// An address together with a port.
#[derive(Debug, Clone, Copy, PartialEq, Eq)]
pub struct SocketAddr {
    /// The address.
    pub ip: IpAddr,
    /// The port.
    pub port: u16,
}

/// A step of an address, as far as the library knows it.
#[derive(Debug, Clone, Copy, PartialEq, Eq)]
pub enum AddrProtocol {
    /// The internet protocol of version 4.
    Ip4([u8; 4]),
    /// The internet protocol of version 6.
    Ip6([u8; 16]),
    /// A stream port.
    Tcp(u16),
    /// A datagram port.
    Udp(u16),
    /// QUIC over datagrams.
    QuicV1,
}

/// The step that leads to an address of the internet protocol.
pub open spec fn ip_step(ip: IpAddr) -> AddrProtocol {
    match ip {
        IpAddr::V4(a) => AddrProtocol::Ip4(a),
        IpAddr::V6(a) => AddrProtocol::Ip6(a),
    }
}

/// The steps to `ip` and on from there by `transport`.
pub open spec fn built_steps(ip: IpAddr, transport: AddrProtocol) -> Seq<Option<AddrProtocol>> {
    seq![Some(ip_step(ip)), Some(transport)]
}

/// An address that leads to `ip` and on from there by `transport`.
pub fn build_multiaddr(ip: IpAddr, transport: AddrProtocol) -> (addr: Multiaddr)
    ensures
        multiaddr_components(addr) == built_steps(ip, transport),
{
    let mut addr = multiaddr_empty();
    match ip {
        IpAddr::V4(a) => multiaddr_push(&mut addr, AddrProtocol::Ip4(a)),
        IpAddr::V6(a) => multiaddr_push(&mut addr, AddrProtocol::Ip6(a)),
    }
    multiaddr_push(&mut addr, transport);
    assert(multiaddr_components(addr) =~= seq![Some(ip_step(ip)), Some(transport)]);
    addr
}

/// The first port in a list of steps, and whether it is one of streams.
pub open spec fn first_port(steps: Seq<Option<AddrProtocol>>) -> Option<(u16, bool)>
    decreases steps.len(),
{
    if steps.len() == 0 {
        None
    } else {
        match steps.first() {
            Some(AddrProtocol::Tcp(port)) => Some((port, true)),
            Some(AddrProtocol::Udp(port)) => Some((port, false)),
            _ => first_port(steps.drop_first()),
        }
    }
}

/// The socket that a list of steps leads to, and whether it is one of streams: an address of the internet
/// protocol at the start, and the first port after it.
pub open spec fn socket_of(steps: Seq<Option<AddrProtocol>>) -> Option<(SocketAddr, bool)> {
    if steps.len() == 0 {
        None
    } else {
        match (steps.first(), first_port(steps.drop_first())) {
            (Some(AddrProtocol::Ip4(a)), Some((port, is_tcp))) => Some((SocketAddr { ip: IpAddr::V4(a), port }, is_tcp)),
            (Some(AddrProtocol::Ip6(a)), Some((port, is_tcp))) => Some((SocketAddr { ip: IpAddr::V6(a), port }, is_tcp)),
            _ => None,
        }
    }
}

/// The socket that an address leads to, and whether it is one of streams.
pub fn multiaddr_to_socket(addr: &Multiaddr) -> (r: Option<(SocketAddr, bool)>)
    ensures
        r == socket_of(multiaddr_components(*addr)),
{
    let steps = multiaddr_read(addr);
    if steps.len() == 0 {
        return None;
    }
    let ip = match steps[0] {
        Some(AddrProtocol::Ip4(a)) => IpAddr::V4(a),
        Some(AddrProtocol::Ip6(a)) => IpAddr::V6(a),
        _ => {
            return None;
        },
    };
    let ghost rest = steps@.drop_first();
    assert(rest.skip(0) =~= rest);
    for k in 1..steps.len()
        invariant
            steps@ == multiaddr_components(*addr),
            steps.len() > 0,
            rest == steps@.drop_first(),
            steps[0] == Some(ip_step(ip)),
            first_port(rest) == first_port(rest.skip(k - 1)),
    {
        proof {
            assert(rest.skip(k - 1).first() == steps[k as int]);
            assert(rest.skip(k - 1).drop_first() =~= rest.skip(k as int));
        }
        match steps[k] {
            Some(AddrProtocol::Tcp(port)) => {
                return Some((SocketAddr { ip, port }, true));
            },
            Some(AddrProtocol::Udp(port)) => {
                return Some((SocketAddr { ip, port }, false));
            },
            _ => {},
        }
    }
    None
}

/// An address that leads to a stream port, or to a datagram port and on by QUIC, leads to the socket that it was
/// made from.
pub proof fn law_built_address_leads_to_its_socket(ip: IpAddr, port: u16)
    ensures
        socket_of(seq![Some(ip_step(ip)), Some(AddrProtocol::Tcp(port))]) == Some((SocketAddr { ip, port }, true)),
        socket_of(seq![Some(ip_step(ip)), Some(AddrProtocol::Udp(port)), Some(AddrProtocol::QuicV1)]) == Some(
            (SocketAddr { ip, port }, false),
        ),
{
    let tcp = seq![Some(ip_step(ip)), Some(AddrProtocol::Tcp(port))];
    let udp = seq![Some(ip_step(ip)), Some(AddrProtocol::Udp(port)), Some(AddrProtocol::QuicV1)];
    assert(tcp.drop_first().first() == Some(AddrProtocol::Tcp(port)));
    assert(udp.drop_first().first() == Some(AddrProtocol::Udp(port)));
}

/// The socket of a list of steps has the address of the first step, and the port of the first step behind it that has
/// one, which is of streams if and only if that is a stream port. There is no socket if and only if the first step is no
/// address, or no step behind it has a port.
pub proof fn law_socket_is_the_first_port_behind_an_address(steps: Seq<Option<AddrProtocol>>, k: int)
    requires
        1 <= k < steps.len(),
        steps[k] matches Some(AddrProtocol::Tcp(_)) || steps[k] matches Some(AddrProtocol::Udp(_)),
        forall|i: int|
            1 <= i < k ==> !(#[trigger] steps[i] matches Some(AddrProtocol::Tcp(_))) && !(
            steps[i] matches Some(AddrProtocol::Udp(_))),
    ensures
        steps[0] matches Some(AddrProtocol::Ip4(a)) ==> (socket_of(steps) matches Some((socket, is_tcp)) && socket.ip
            == IpAddr::V4(a) && steps[k] == Some(
            if is_tcp {
                AddrProtocol::Tcp(socket.port)
            } else {
                AddrProtocol::Udp(socket.port)
            },
        )),
        steps[0] matches Some(AddrProtocol::Ip6(a)) ==> (socket_of(steps) matches Some((socket, is_tcp)) && socket.ip
            == IpAddr::V6(a) && steps[k] == Some(
            if is_tcp {
                AddrProtocol::Tcp(socket.port)
            } else {
                AddrProtocol::Udp(socket.port)
            },
        )),
        !(steps[0] matches Some(AddrProtocol::Ip4(_))) && !(steps[0] matches Some(AddrProtocol::Ip6(_))) ==> socket_of(
            steps,
        ) is None,
{
    let rest = steps.drop_first();
    assert(rest[k - 1] == steps[k]);
    assert forall|i: int| 0 <= i < k - 1 implies !(#[trigger] rest[i] matches Some(AddrProtocol::Tcp(_))) && !(
    rest[i] matches Some(AddrProtocol::Udp(_))) by {
        assert(rest[i] == steps[i + 1]);
    }
    lemma_first_port(rest, k - 1);
}

/// Where no step behind the first has a port, there is no socket.
pub proof fn law_no_port_no_socket(steps: Seq<Option<AddrProtocol>>)
    requires
        forall|i: int|
            1 <= i < steps.len() ==> !(#[trigger] steps[i] matches Some(AddrProtocol::Tcp(_))) && !(
            steps[i] matches Some(AddrProtocol::Udp(_))),
    ensures
        socket_of(steps) is None,
{
    if steps.len() > 0 {
        let rest = steps.drop_first();
        assert forall|i: int| 0 <= i < rest.len() implies !(#[trigger] rest[i] matches Some(AddrProtocol::Tcp(_)))
            && !(rest[i] matches Some(AddrProtocol::Udp(_))) by {
            assert(rest[i] == steps[i + 1]);
        }
        lemma_no_port(rest);
    }
}

/// The first port is at the first step that has one.
proof fn lemma_first_port(steps: Seq<Option<AddrProtocol>>, k: int)
    requires
        0 <= k < steps.len(),
        forall|i: int|
            0 <= i < k ==> !(#[trigger] steps[i] matches Some(AddrProtocol::Tcp(_))) && !(
            steps[i] matches Some(AddrProtocol::Udp(_))),
    ensures
        steps[k] matches Some(AddrProtocol::Tcp(port)) ==> first_port(steps) == Some((port, true)),
        steps[k] matches Some(AddrProtocol::Udp(port)) ==> first_port(steps) == Some((port, false)),
    decreases k,
{
    if k > 0 {
        let rest = steps.drop_first();
        assert(steps[0] == steps.first());
        assert(rest[k - 1] == steps[k]);
        assert forall|i: int| 0 <= i < k - 1 implies !(#[trigger] rest[i] matches Some(AddrProtocol::Tcp(_))) && !(
        rest[i] matches Some(AddrProtocol::Udp(_))) by {
            assert(rest[i] == steps[i + 1]);
        }
        lemma_first_port(rest, k - 1);
    }
}

/// Without a step that has a port there is no first port.
proof fn lemma_no_port(steps: Seq<Option<AddrProtocol>>)
    requires
        forall|i: int|
            0 <= i < steps.len() ==> !(#[trigger] steps[i] matches Some(AddrProtocol::Tcp(_))) && !(
            steps[i] matches Some(AddrProtocol::Udp(_))),
    ensures
        first_port(steps) is None,
    decreases steps.len(),
{
    if steps.len() > 0 {
        let rest = steps.drop_first();
        assert(steps[0] == steps.first());
        assert forall|i: int| 0 <= i < rest.len() implies !(#[trigger] rest[i] matches Some(AddrProtocol::Tcp(_)))
            && !(rest[i] matches Some(AddrProtocol::Udp(_))) by {
            assert(rest[i] == steps[i + 1]);
        }
        lemma_no_port(rest);
    }
}

/// An address that is built is the step to the address of its version, and then the transport, whatever that is.
pub proof fn law_built_address_has_two_steps(a: [u8; 4], b: [u8; 16], transport: AddrProtocol)
    ensures
        built_steps(IpAddr::V4(a), transport) == seq![Some(AddrProtocol::Ip4(a)), Some(transport)],
        built_steps(IpAddr::V6(b), transport) == seq![Some(AddrProtocol::Ip6(b)), Some(transport)],
{
}

}
