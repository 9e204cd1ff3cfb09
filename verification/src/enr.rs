//! Signed records of nodes.

use crate::addr::{
    build_multiaddr, ip_step, law_built_address_leads_to_its_socket, socket_of, AddrProtocol, IpAddr,
};
use crate::outside::{
    enr_of_text, enr_parse, multiaddr_components, multiaddr_push, peer_id_from_secp256k1, secp256k1_peer_id,
};
use libp2p::{Multiaddr, PeerId};
use vstd::prelude::*;

verus! {

/// Where a record says that its node is to be found.
#[derive(Debug, Clone, Copy, PartialEq, Eq)]
pub struct EnrEndpoints {
    /// The address of version 4.
    pub ip4: Option<[u8; 4]>,
    /// The stream port at that address.
    pub tcp4: Option<u16>,
    /// The datagram port at that address.
    pub udp4: Option<u16>,
    /// The address of version 6.
    pub ip6: Option<[u8; 16]>,
    /// The stream port at that address.
    pub tcp6: Option<u16>,
    /// The datagram port at that address.
    pub udp6: Option<u16>,
}

/// The public key that a record is signed for, in its compressed form.
#[derive(Debug, Clone, PartialEq, Eq)]
pub enum EnrPublicKey {
    /// On the curve secp256k1.
    Secp256k1(Vec<u8>),
    /// Of the scheme Ed25519.
    Ed25519(Vec<u8>),
}

/// The public key that a record is signed for.
pub enum PublicKeyView {
    /// On the curve secp256k1.
    Secp256k1(Seq<u8>),
    /// Of the scheme Ed25519.
    Ed25519(Seq<u8>),
}

/// What a record says.
#[derive(Debug, Clone, PartialEq, Eq)]
pub struct EnrRecord {
    /// Where the node is to be found.
    pub endpoints: EnrEndpoints,
    /// The public key of the node.
    pub public_key: EnrPublicKey,
}

/// What a record says.
pub struct EnrContents {
    /// Where the node is to be found.
    pub endpoints: EnrEndpoints,
    /// The public key of the node.
    pub public_key: PublicKeyView,
}

impl View for EnrPublicKey {
    type V = PublicKeyView;

    open spec fn view(&self) -> PublicKeyView {
        match self {
            EnrPublicKey::Secp256k1(bytes) => PublicKeyView::Secp256k1(bytes@),
            EnrPublicKey::Ed25519(bytes) => PublicKeyView::Ed25519(bytes@),
        }
    }
}

impl View for EnrRecord {
    type V = EnrContents;

    open spec fn view(&self) -> EnrContents {
        EnrContents { endpoints: self.endpoints, public_key: self.public_key@ }
    }
}

/// A record that says nothing of where its node is.
pub open spec fn no_endpoints() -> EnrEndpoints {
    EnrEndpoints { ip4: None, tcp4: None, udp4: None, ip6: None, tcp6: None, udp6: None }
}

/// `r` is what the text of a record reads as.
pub open spec fn is_reading(text: Seq<char>, r: Result<EnrRecord, String>) -> bool {
    match r {
        Ok(record) => enr_of_text(text) == Ok::<EnrContents, Seq<char>>(record@),
        Err(e) => enr_of_text(text) == Err::<EnrContents, Seq<char>>(e@),
    }
}

/// Reads the text of a record.
pub fn parse_enr(text: &str) -> (r: Result<EnrRecord, String>)
    ensures
        is_reading(text@, r),
{
    enr_parse(text)
}

/// The identity in the peer-to-peer network of the node that a public key belongs to. Only keys on the curve
/// secp256k1 give one.
pub open spec fn peer_id_of_key(key: PublicKeyView) -> Option<PeerId> {
    match key {
        PublicKeyView::Secp256k1(bytes) => secp256k1_peer_id(bytes),
        PublicKeyView::Ed25519(_) => None,
    }
}

/// The identity in the peer-to-peer network of the node that a record is of.
pub fn enr_peer_id(enr: &EnrRecord) -> (r: Option<PeerId>)
    ensures
        r == peer_id_of_key(enr@.public_key),
{
    match &enr.public_key {
        EnrPublicKey::Secp256k1(bytes) => peer_id_from_secp256k1(bytes),
        EnrPublicKey::Ed25519(_) => None,
    }
}

/// The steps to a stream port, if there is one.
pub open spec fn tcp_steps(ip: IpAddr, port: Option<u16>) -> Seq<Seq<Option<AddrProtocol>>> {
    match port {
        Some(p) => seq![seq![Some(ip_step(ip)), Some(AddrProtocol::Tcp(p))]],
        None => seq![],
    }
}

/// The steps to a datagram port and on by QUIC, if there is such a port.
pub open spec fn quic_steps(ip: IpAddr, port: Option<u16>) -> Seq<Seq<Option<AddrProtocol>>> {
    match port {
        Some(p) => seq![seq![Some(ip_step(ip)), Some(AddrProtocol::Udp(p)), Some(AddrProtocol::QuicV1)]],
        None => seq![],
    }
}

/// The ways to an address, if there is one: by a stream port, then by a datagram port.
pub open spec fn steps_to(ip: Option<IpAddr>, tcp: Option<u16>, udp: Option<u16>) -> Seq<Seq<Option<AddrProtocol>>> {
    match ip {
        Some(a) => tcp_steps(a, tcp) + quic_steps(a, udp),
        None => seq![],
    }
}

/// The address of version 4 of a record.
pub open spec fn address4(e: EnrEndpoints) -> Option<IpAddr> {
    match e.ip4 {
        Some(a) => Some(IpAddr::V4(a)),
        None => None,
    }
}

/// The address of version 6 of a record.
pub open spec fn address6(e: EnrEndpoints) -> Option<IpAddr> {
    match e.ip6 {
        Some(a) => Some(IpAddr::V6(a)),
        None => None,
    }
}

/// The ways to the node of a record: those of version 4 come first.
pub open spec fn enr_steps(e: EnrEndpoints) -> Seq<Seq<Option<AddrProtocol>>> {
    steps_to(address4(e), e.tcp4, e.udp4) + steps_to(address6(e), e.tcp6, e.udp6)
}

/// What a list of addresses leads through.
pub open spec fn components_of(addrs: Seq<Multiaddr>) -> Seq<Seq<Option<AddrProtocol>>> {
    addrs.map_values(|a: Multiaddr| multiaddr_components(a))
}

/// Appends the ways to an address.
fn push_addrs(addrs: &mut Vec<Multiaddr>, ip: IpAddr, tcp: Option<u16>, udp: Option<u16>)
    ensures
        components_of(final(addrs)@) == components_of(old(addrs)@) + steps_to(Some(ip), tcp, udp),
{
    let ghost before = components_of(addrs@);
    if let Some(port) = tcp {
        addrs.push(build_multiaddr(ip, AddrProtocol::Tcp(port)));
    }
    assert(components_of(addrs@) =~= before + tcp_steps(ip, tcp));
    let ghost between = components_of(addrs@);
    if let Some(port) = udp {
        let mut addr = build_multiaddr(ip, AddrProtocol::Udp(port));
        multiaddr_push(&mut addr, AddrProtocol::QuicV1);
        assert(multiaddr_components(addr) =~= seq![
            Some(ip_step(ip)),
            Some(AddrProtocol::Udp(port)),
            Some(AddrProtocol::QuicV1),
        ]);
        addrs.push(addr);
    }
    assert(components_of(addrs@) =~= between + quic_steps(ip, udp));
    assert(components_of(addrs@) =~= before + steps_to(Some(ip), tcp, udp));
}

/// The addresses at which the node of a record can be dialed.
pub fn enr_multiaddrs(enr: &EnrRecord) -> (addrs: Vec<Multiaddr>)
    ensures
        components_of(addrs@) == enr_steps(enr@.endpoints),
{
    let e = &enr.endpoints;
    let mut addrs: Vec<Multiaddr> = Vec::new();
    if let Some(ip) = e.ip4 {
        push_addrs(&mut addrs, IpAddr::V4(ip), e.tcp4, e.udp4);
    }
    assert(components_of(addrs@) =~= steps_to(address4(*e), e.tcp4, e.udp4));
    if let Some(ip) = e.ip6 {
        push_addrs(&mut addrs, IpAddr::V6(ip), e.tcp6, e.udp6);
    }
    assert(components_of(addrs@) =~= enr_steps(*e));
    addrs
}

/// Every way to the node of a record leads to a socket that the record names: a port at the address of the same
/// version, and one of streams if and only if it is a stream port.
pub proof fn law_addresses_lead_to_named_sockets(e: EnrEndpoints, i: int)
    requires
        0 <= i < enr_steps(e).len(),
    ensures
        socket_of(enr_steps(e)[i]) matches Some((socket, is_tcp)) && match socket.ip {
            IpAddr::V4(a) => e.ip4 == Some(a) && Some(socket.port) == (if is_tcp { e.tcp4 } else { e.udp4 }),
            IpAddr::V6(a) => e.ip6 == Some(a) && Some(socket.port) == (if is_tcp { e.tcp6 } else { e.udp6 }),
        },
{
    let first = steps_to(address4(e), e.tcp4, e.udp4);
    let (ip, tcp, udp, k) = if i < first.len() {
        (address4(e), e.tcp4, e.udp4, i)
    } else {
        (address6(e), e.tcp6, e.udp6, i - first.len())
    };
    assert(enr_steps(e)[i] == steps_to(ip, tcp, udp)[k]);
    let a = ip->0;
    if let Some(port) = tcp {
        law_built_address_leads_to_its_socket(a, port);
    }
    if let Some(port) = udp {
        law_built_address_leads_to_its_socket(a, port);
    }
}

/// The node of a record can be dialed at every port that the record names at an address of the same version: at a stream
/// port straight, and at a datagram port by QUIC. Nothing else leads to it: there are as many ways as such ports, those
/// of version 4 first, and at each address the stream port first.
pub proof fn law_every_named_port_can_be_dialed(e: EnrEndpoints)
    ensures
        e.ip4 matches Some(a) ==> (e.tcp4 matches Some(port) ==> enr_steps(e).len() > 0 && enr_steps(e)[0] == seq![
            Some(AddrProtocol::Ip4(a)),
            Some(AddrProtocol::Tcp(port)),
        ]),
        e.ip4 matches Some(a) ==> (e.udp4 matches Some(port) ==> {
            let i: int = if e.tcp4 is Some {
                1
            } else {
                0
            };
            enr_steps(e).len() > i && enr_steps(e)[i] == seq![
                Some(AddrProtocol::Ip4(a)),
                Some(AddrProtocol::Udp(port)),
                Some(AddrProtocol::QuicV1),
            ]
        }),
        e.ip6 matches Some(a) ==> (e.tcp6 matches Some(port) ==> {
            let i = ways(e.ip4 is Some, e.tcp4, e.udp4);
            enr_steps(e).len() > i && enr_steps(e)[i as int] == seq![
                Some(AddrProtocol::Ip6(a)),
                Some(AddrProtocol::Tcp(port)),
            ]
        }),
        e.ip6 matches Some(a) ==> (e.udp6 matches Some(port) ==> enr_steps(e).len() > 0 && enr_steps(e).last() == seq![
            Some(AddrProtocol::Ip6(a)),
            Some(AddrProtocol::Udp(port)),
            Some(AddrProtocol::QuicV1),
        ]),
        enr_steps(e).len() == ways(e.ip4 is Some, e.tcp4, e.udp4) + ways(e.ip6 is Some, e.tcp6, e.udp6),
{
}

/// In how many ways a node can be dialed at an address, if there is one.
pub open spec fn ways(has_address: bool, tcp: Option<u16>, udp: Option<u16>) -> nat {
    if !has_address {
        0
    } else if tcp is Some && udp is Some {
        2
    } else if tcp is Some || udp is Some {
        1
    } else {
        0
    }
}

/// Every public key on the curve secp256k1 names the peer that belongs to it, and none of the other kind names any.
pub proof fn law_only_secp256k1_keys_name_peers(bytes: Seq<u8>)
    ensures
        peer_id_of_key(PublicKeyView::Secp256k1(bytes)) == secp256k1_peer_id(bytes),
        peer_id_of_key(PublicKeyView::Ed25519(bytes)) == None::<PeerId>,
{
}

/// A record that says nothing of where its node is has neither address nor port of either version.
pub proof fn law_no_endpoints_names_nothing()
    ensures
        no_endpoints().ip4 is None,
        no_endpoints().tcp4 is None,
        no_endpoints().udp4 is None,
        no_endpoints().ip6 is None,
        no_endpoints().tcp6 is None,
        no_endpoints().udp6 is None,
{
}

}
