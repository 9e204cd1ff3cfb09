//! How a node makes itself known, and how it gets to know others.

use crate::addr::{multiaddr_to_socket, socket_of, AddrProtocol, IpAddr, SocketAddr};
use crate::config::DiscoveryConfig;
use crate::enr::{
    enr_steps, is_reading, no_endpoints, parse_enr, peer_id_of_key, quic_steps, tcp_steps, EnrContents, EnrEndpoints,
    EnrRecord, PublicKeyView,
};
use crate::error::DiscoveryError;
use crate::outside::{
    builder_endpoints, enr_key_from_secret, enr_key_of, enr_of_text, keypair_from_secret, keypair_generate, keypair_id,
    keypair_kind, keypair_of, keypair_peer_id, listen_at, listen_socket, multiaddr_components, record_key_of,
    secp256k1_peer_id, secp256k1_public_key, RecordBuilder,
};
use discv5::enr::CombinedKey;
use discv5::ListenConfig;
use libp2p::identity::Keypair;
use libp2p::{Multiaddr, PeerId};
use vstd::prelude::*;

verus! {

/// The datagram port that a node gives out: the one that is set for it, or else the one it listens on.
pub open spec fn advertised_udp(config: DiscoveryConfig) -> u16 {
    match config.enr_udp_port {
        Some(port) => port,
        None => config.udp_bind.port,
    }
}

/// Where a node says that it is to be found: at the address that is set for it, and nowhere if none is.
pub open spec fn local_endpoints(config: DiscoveryConfig) -> EnrEndpoints {
    match config.enr_address {
        None => no_endpoints(),
        Some(IpAddr::V4(a)) => EnrEndpoints {
            ip4: Some(a),
            udp4: Some(advertised_udp(config)),
            tcp4: config.enr_tcp_port,
            ..no_endpoints()
        },
        Some(IpAddr::V6(a)) => EnrEndpoints {
            ip6: Some(a),
            udp6: Some(advertised_udp(config)),
            tcp6: config.enr_tcp_port,
            ..no_endpoints()
        },
    }
}

/// The kinds of pairs of keys.
#[derive(Debug, Clone, Copy, PartialEq, Eq, Structural)]
pub enum KeyKind {
    /// Of the scheme Ed25519.
    Ed25519,
    /// Of the scheme RSA.
    Rsa,
    /// On the curve secp256k1.
    Secp256k1,
    /// Of the scheme ECDSA on another curve.
    Ecdsa,
}

/// The record of the node itself before it is signed.
pub fn local_record(config: &DiscoveryConfig) -> (b: RecordBuilder)
    ensures
        builder_endpoints(b) == local_endpoints(*config),
{
    let mut builder = RecordBuilder::new();
    if let Some(advertised) = config.enr_address {
        match advertised {
            IpAddr::V4(addr) => {
                builder.ip4(addr);
                builder.udp4(config.enr_udp_port.unwrap_or(config.udp_bind.port));
                if let Some(tcp) = config.enr_tcp_port {
                    builder.tcp4(tcp);
                }
            },
            IpAddr::V6(addr) => {
                builder.ip6(addr);
                builder.udp6(config.enr_udp_port.unwrap_or(config.udp_bind.port));
                if let Some(tcp) = config.enr_tcp_port {
                    builder.tcp6(tcp);
                }
            },
        }
    }
    builder
}

/// `text` is a record of the node itself, signed with `key`.
pub open spec fn is_local_record(text: Seq<char>, config: DiscoveryConfig, key: CombinedKey) -> bool {
    &&& enr_of_text(text) matches Ok(contents)
    &&& contents.endpoints == local_endpoints(config)
    &&& contents.public_key == record_key_of(key)
}

/// The text of the record of the node itself, signed with `key`.
///
/// Signing draws on the randomness of the machine, so that it succeeds is not stated.
pub fn build_local_enr(config: &DiscoveryConfig, key: &CombinedKey) -> (r: Result<String, DiscoveryError>)
    ensures
        match r {
            Ok(text) => is_local_record(text@, *config, *key),
            Err(e) => e is BuildEnr,
        },
{
    match local_record(config).build(key) {
        Ok(text) => Ok(text),
        Err(e) => Err(DiscoveryError::BuildEnr(e)),
    }
}

/// Where discovery listens when it is bound to a socket.
pub fn listen_config(bind: SocketAddr) -> (c: ListenConfig)
    ensures
        listen_socket(c) == bind,
{
    listen_at(bind.ip, bind.port)
}

/// A pair of keys on the curve secp256k1 whose holder has the identity that belongs to the public key of `secret`.
pub open spec fn is_pair_of(secret: Seq<u8>, pair: Keypair) -> bool {
    &&& keypair_kind(pair) == KeyKind::Secp256k1
    &&& secp256k1_peer_id(secp256k1_public_key(secret)) == Some(keypair_id(pair))
}

/// A key for records to which the public key of `secret` belongs.
pub open spec fn is_record_key_of(secret: Seq<u8>, key: CombinedKey) -> bool {
    record_key_of(key) == PublicKeyView::Secp256k1(secp256k1_public_key(secret))
}

/// The pair of keys of a secret.
pub fn build_libp2p_keypair(secret: &[u8; 32]) -> (r: Result<Keypair, DiscoveryError>)
    ensures
        match keypair_of(secret@) {
            Ok(pair) => r == Ok::<Keypair, DiscoveryError>(pair) && is_pair_of(secret@, pair),
            Err(reason) => r matches Err(DiscoveryError::InvalidPrivateKey(e)) && e@ == reason,
        },
{
    match keypair_from_secret(secret) {
        Ok(pair) => Ok(pair),
        Err(e) => Err(DiscoveryError::InvalidPrivateKey(e)),
    }
}

/// The key for records of a secret.
pub fn build_enr_key(secret: &[u8; 32]) -> (r: Result<CombinedKey, DiscoveryError>)
    ensures
        match enr_key_of(secret@) {
            Ok(key) => r == Ok::<CombinedKey, DiscoveryError>(key) && is_record_key_of(secret@, key),
            Err(reason) => r matches Err(DiscoveryError::InvalidEnrKey(e)) && e@ == reason,
        },
{
    match enr_key_from_secret(secret) {
        Ok(key) => Ok(key),
        Err(e) => Err(DiscoveryError::InvalidEnrKey(e)),
    }
}

/// What a secret makes of a node: both its keys, or the first error in the order key for records, pair of keys.
pub open spec fn is_identity(
    secret: Seq<u8>,
    r: Result<(Keypair, Option<CombinedKey>), DiscoveryError>,
) -> bool {
    match (enr_key_of(secret), keypair_of(secret)) {
        (Err(reason), _) => r matches Err(DiscoveryError::InvalidEnrKey(e)) && e@ == reason,
        (Ok(_), Err(reason)) => r matches Err(DiscoveryError::InvalidPrivateKey(e)) && e@ == reason,
        (Ok(key), Ok(pair)) => {
            &&& r == Ok::<(Keypair, Option<CombinedKey>), DiscoveryError>((pair, Some(key)))
            &&& is_record_key_of(secret, key)
            &&& is_pair_of(secret, pair)
        },
    }
}

/// The keys that a node has from its secret.
pub fn identity_from_secret(secret: &[u8; 32]) -> (r: Result<(Keypair, Option<CombinedKey>), DiscoveryError>)
    ensures
        is_identity(secret@, r),
{
    let enr_key = match build_enr_key(secret) {
        Ok(key) => key,
        Err(e) => {
            return Err(e);
        },
    };
    let libp2p_key = match build_libp2p_keypair(secret) {
        Ok(pair) => pair,
        Err(e) => {
            return Err(e);
        },
    };
    Ok((libp2p_key, Some(enr_key)))
}

/// `r` holds the keys of a node. `load` finds the secret.
pub open spec fn is_prepared<F: Fn(&Option<String>) -> Result<[u8; 32], DiscoveryError>>(
    config: DiscoveryConfig,
    load: F,
    r: Result<(Keypair, Option<CombinedKey>), DiscoveryError>,
) -> bool {
    if config.enabled {
        exists|found: Result<[u8; 32], DiscoveryError>| #[trigger]
            call_ensures(load, (&config.private_key_path,), found) && match found {
                Ok(secret) => is_identity(secret@, r),
                Err(e) => r == Err::<(Keypair, Option<CombinedKey>), DiscoveryError>(e),
            }
    } else {
        r matches Ok((pair, key)) && keypair_kind(pair) == KeyKind::Ed25519 && key is None
    }
}

/// The keys of a node. With discovery off it has a pair of keys of the scheme Ed25519, drawn at random, and no key for
/// records, and `load` is let alone; with discovery on it has both from the secret that `load` finds for the place
/// where secrets are kept.
pub fn prepare_identity<F: Fn(&Option<String>) -> Result<[u8; 32], DiscoveryError>>(
    config: &DiscoveryConfig,
    load: F,
) -> (r: Result<(Keypair, Option<CombinedKey>), DiscoveryError>)
    requires
        config.enabled ==> call_requires(load, (&config.private_key_path,)),
    ensures
        is_prepared(*config, load, r),
{
    if !config.enabled {
        return Ok((keypair_generate(), None));
    }
    let found = load(&config.private_key_path);
    match found {
        Ok(secret) => identity_from_secret(&secret),
        Err(e) => Err(e),
    }
}

/// The identity of the holder of a pair of keys in the peer-to-peer network.
pub fn local_peer_id(pair: &Keypair) -> (id: PeerId)
    ensures
        id == keypair_id(*pair),
{
    keypair_peer_id(pair)
}

/// What the discovery of a node is run with.
#[derive(Debug)]
pub struct DiscoveryService {
    target_peers: usize,
}

/// The first `n` records are records, and `hand_over` took each of them over.
pub open spec fn added<F: Fn(&String) -> Result<(), String>>(bootnodes: Seq<String>, n: int, hand_over: F) -> bool {
    forall|i: int| #![trigger bootnodes[i]]
        0 <= i < n ==> enr_of_text(bootnodes[i]@) is Ok && call_ensures(
            hand_over,
            (&bootnodes[i],),
            Ok::<(), String>(()),
        )
}

/// What stopped at the record with the number `i`: it is none, or `hand_over` did not take it over.
pub open spec fn stopped_at<F: Fn(&String) -> Result<(), String>>(
    bootnodes: Seq<String>,
    i: int,
    hand_over: F,
    error: DiscoveryError,
) -> bool {
    match enr_of_text(bootnodes[i]@) {
        Err(why) => error matches DiscoveryError::InvalidEnr { record, reason } && record == bootnodes[i] && reason@
            == why,
        Ok(_) => error matches DiscoveryError::AddEnr { record, reason } && record == bootnodes[i] && call_ensures(
            hand_over,
            (&bootnodes[i],),
            Err::<(), String>(reason),
        ),
    }
}

/// `r` is what handing over `bootnodes` comes to.
pub open spec fn bootnodes_answer<F: Fn(&String) -> Result<(), String>>(
    bootnodes: Seq<String>,
    hand_over: F,
    r: Result<(), DiscoveryError>,
) -> bool {
    match r {
        Ok(_) => added(bootnodes, bootnodes.len() as int, hand_over),
        Err(e) => exists|i: int|
            0 <= i < bootnodes.len() && added(bootnodes, i, hand_over) && #[trigger] stopped_at(
                bootnodes,
                i,
                hand_over,
                e,
            ),
    }
}

/// `r` is the socket that `steps` lead to, if to give it out by way of `update` changed anything.
pub open spec fn is_given_out<F: Fn(SocketAddr, bool) -> bool>(
    steps: Seq<Option<AddrProtocol>>,
    update: F,
    r: Option<SocketAddr>,
) -> bool {
    match socket_of(steps) {
        Some((socket, is_tcp)) => match r {
            Some(s) => s == socket && call_ensures(update, (socket, is_tcp), true),
            None => call_ensures(update, (socket, is_tcp), false),
        },
        None => r is None,
    }
}

impl DiscoveryService {
    /// Looks for so many peers.
    pub fn new(target_peers: usize) -> (s: Self)
        ensures
            s.target() == target_peers,
    {
        DiscoveryService { target_peers }
    }

    /// How many peers are looked for.
    pub closed spec fn target(&self) -> usize {
        self.target_peers
    }

    /// How many peers are looked for.
    pub fn target_peers(&self) -> (n: usize)
        ensures
            n == self.target(),
    {
        self.target_peers
    }

    /// Hands records to `hand_over`, in order, up to the first that is none or is not taken over.
    pub fn add_bootnodes<F: Fn(&String) -> Result<(), String>>(&self, bootnodes: &Vec<String>, hand_over: F) -> (r: Result<
        (),
        DiscoveryError,
    >)
        requires
            forall|i: int| 0 <= i < bootnodes@.len() ==> call_requires(hand_over, (&(#[trigger] bootnodes@[i]),)),
        ensures
            bootnodes_answer(bootnodes@, hand_over, r),
    {
        for k in 0..bootnodes.len()
            invariant
                forall|i: int| 0 <= i < bootnodes@.len() ==> call_requires(hand_over, (&(#[trigger] bootnodes@[i]),)),
                added(bootnodes@, k as int, hand_over),
        {
            let record = &bootnodes[k];
            if let Err(reason) = parse_enr(record.as_str()) {
                let e = DiscoveryError::InvalidEnr { record: record.clone(), reason };
                assert(stopped_at(bootnodes@, k as int, hand_over, e));
                return Err(e);
            }
            match hand_over(record) {
                Err(reason) => {
                    let e = DiscoveryError::AddEnr { record: record.clone(), reason };
                    assert(stopped_at(bootnodes@, k as int, hand_over, e));
                    return Err(e);
                },
                Ok(done) => {
                    assert(done == ());
                    assert(call_ensures(hand_over, (&bootnodes@[k as int],), Ok::<(), String>(())));
                },
            }
        }
        Ok(())
    }

    /// Gives out the socket that an address leads to, by way of `update`. Returns it if that changed anything.
    pub fn update_socket_from_multiaddr<F: Fn(SocketAddr, bool) -> bool>(&self, addr: &Multiaddr, update: F) -> (r:
        Option<SocketAddr>)
        requires
            socket_of(multiaddr_components(*addr)) matches Some((socket, is_tcp)) ==> call_requires(
                update,
                (socket, is_tcp),
            ),
        ensures
            is_given_out(multiaddr_components(*addr), update, r),
    {
        if let Some((socket, is_tcp)) = multiaddr_to_socket(addr) {
            if update(socket, is_tcp) {
                return Some(socket);
            }
        }
        None
    }
}

/// Who reads the record of a node finds the identity under which the node takes part in the peer-to-peer network:
/// both come from its secret.
pub proof fn law_record_names_the_holder_of_the_keys(
    secret: Seq<u8>,
    pair: Keypair,
    key: CombinedKey,
    contents: EnrContents,
    id: PeerId,
)
    requires
        is_identity(secret, Ok((pair, Some(key)))),
        contents.public_key == record_key_of(key),
        id == keypair_id(pair),
    ensures
        peer_id_of_key(contents.public_key) == Some(id),
{
}

/// Who reads the record of a node can dial it at the address that is set for it, by the stream port that is set, if
/// one is, and by the datagram port that it gives out; and where no address is set, nowhere.
pub proof fn law_record_leads_to_the_set_address(config: DiscoveryConfig)
    ensures
        enr_steps(local_endpoints(config)) == (match config.enr_address {
            Some(ip) => tcp_steps(ip, config.enr_tcp_port) + quic_steps(ip, Some(advertised_udp(config))),
            None => seq![],
        }),
{
    match config.enr_address {
        Some(ip) => {
            assert(enr_steps(local_endpoints(config)) =~= tcp_steps(ip, config.enr_tcp_port) + quic_steps(
                ip,
                Some(advertised_udp(config)),
            ));
        },
        None => {
            assert(enr_steps(local_endpoints(config)) =~= seq![]);
        },
    }
}

/// A node gives out the address that is set for it, of whichever version, with the datagram port that is set, or else
/// the one it listens on, and the stream port that is set, if one is. It gives out nothing of the other version, and
/// nothing at all if no address is set, whatever ports are.
pub proof fn law_node_gives_out_what_is_set(config: DiscoveryConfig)
    ensures
        config.enr_address matches Some(IpAddr::V4(a)) ==> {
            let e = local_endpoints(config);
            &&& e.ip4 == Some(a)
            &&& e.tcp4 == config.enr_tcp_port
            &&& e.udp4 is Some
            &&& config.enr_udp_port is Some ==> e.udp4 == config.enr_udp_port
            &&& config.enr_udp_port is None ==> e.udp4 == Some(config.udp_bind.port)
            &&& e.ip6 is None && e.tcp6 is None && e.udp6 is None
        },
        config.enr_address matches Some(IpAddr::V6(a)) ==> {
            let e = local_endpoints(config);
            &&& e.ip6 == Some(a)
            &&& e.tcp6 == config.enr_tcp_port
            &&& e.udp6 is Some
            &&& config.enr_udp_port is Some ==> e.udp6 == config.enr_udp_port
            &&& config.enr_udp_port is None ==> e.udp6 == Some(config.udp_bind.port)
            &&& e.ip4 is None && e.tcp4 is None && e.udp4 is None
        },
        config.enr_address is None ==> {
            let e = local_endpoints(config);
            &&& e.ip4 is None && e.tcp4 is None && e.udp4 is None
            &&& e.ip6 is None && e.tcp6 is None && e.udp6 is None
        },
{
}

/// With discovery on, whatever secret is found makes both keys, and both belong to its public key; if the secret makes
/// either of them not, or none is found, there are none, and the error says which: that of the key for records comes
/// first. With discovery off, there is a pair of the other kind, and no key for records.
pub proof fn law_keys_come_from_the_secret<F: Fn(&Option<String>) -> Result<[u8; 32], DiscoveryError>>(
    config: DiscoveryConfig,
    load: F,
    found: Result<[u8; 32], DiscoveryError>,
    r: Result<(Keypair, Option<CombinedKey>), DiscoveryError>,
)
    requires
        is_prepared(config, load, r),
        forall|x: Result<[u8; 32], DiscoveryError>| #[trigger]
            call_ensures(load, (&config.private_key_path,), x) ==> x == found,
    ensures
        !config.enabled ==> (r matches Ok((pair, key)) && keypair_kind(pair) == KeyKind::Ed25519 && key is None),
        config.enabled && found is Err ==> r is Err && r->Err_0 == found->Err_0,
        config.enabled ==> (found matches Ok(secret) ==> {
            &&& r is Ok <==> enr_key_of(secret@) is Ok && keypair_of(secret@) is Ok
            &&& enr_key_of(secret@) matches Err(why) ==> (r matches Err(DiscoveryError::InvalidEnrKey(e)) && e@ == why)
            &&& enr_key_of(secret@) is Ok ==> (keypair_of(secret@) matches Err(why) ==> (
            r matches Err(DiscoveryError::InvalidPrivateKey(e)) && e@ == why))
            &&& r matches Ok((pair, key)) ==> (key matches Some(record_key) && {
                &&& enr_key_of(secret@) == Ok::<CombinedKey, Seq<char>>(record_key)
                &&& keypair_of(secret@) == Ok::<Keypair, Seq<char>>(pair)
                &&& keypair_kind(pair) == KeyKind::Secp256k1
                &&& record_key_of(record_key) == PublicKeyView::Secp256k1(secp256k1_public_key(secret@))
                &&& secp256k1_peer_id(secp256k1_public_key(secret@)) == Some(keypair_id(pair))
            })
        }),
{
}

/// Boot nodes are added if and only if each of them is a record and is taken over. Otherwise the first for which that is
/// not so is named, with what is wrong with it, and all before it were taken over.
pub proof fn law_bootnodes_stop_at_the_first_fault<F: Fn(&String) -> Result<(), String>>(
    bootnodes: Seq<String>,
    hand_over: F,
    r: Result<(), DiscoveryError>,
    k: int,
)
    requires
        bootnodes_answer(bootnodes, hand_over, r),
        0 <= k < bootnodes.len(),
    ensures
        r is Ok ==> enr_of_text(bootnodes[k]@) is Ok && call_ensures(
            hand_over,
            (&bootnodes[k],),
            Ok::<(), String>(()),
        ),
        enr_of_text(bootnodes[k]@) is Err ==> r is Err,
        r matches Err(e) ==> exists|i: int| #![trigger bootnodes[i]]
            0 <= i < bootnodes.len() && (k < i ==> enr_of_text(bootnodes[k]@) is Ok && call_ensures(
                hand_over,
                (&bootnodes[k],),
                Ok::<(), String>(()),
            )) && match e {
                DiscoveryError::InvalidEnr { record, reason } => record == bootnodes[i] && enr_of_text(bootnodes[i]@)
                    == Err::<EnrContents, Seq<char>>(reason@),
                DiscoveryError::AddEnr { record, reason } => record == bootnodes[i] && enr_of_text(bootnodes[i]@) is Ok
                    && call_ensures(hand_over, (&bootnodes[i],), Err::<(), String>(reason)),
                _ => false,
            },
{
    if let Err(e) = r {
        let i = choose|i: int|
            0 <= i < bootnodes.len() && added(bootnodes, i, hand_over) && #[trigger] stopped_at(
                bootnodes,
                i,
                hand_over,
                e,
            );
        assert(bootnodes[i] == bootnodes[i]);
        assert(stopped_at(bootnodes, i, hand_over, e));
        assert(bootnodes[k] == bootnodes[k]);
    } else {
        assert(bootnodes[k] == bootnodes[k]);
    }
}

/// An address that leads to a socket has that socket given out, as one of streams if it is one, and the socket is named
/// if and only if that changed anything. An address that leads to none has nothing given out.
pub proof fn law_socket_of_an_address_is_given_out<F: Fn(SocketAddr, bool) -> bool>(
    steps: Seq<Option<AddrProtocol>>,
    update: F,
    socket: SocketAddr,
    is_tcp: bool,
    changed: bool,
    r: Option<SocketAddr>,
)
    requires
        is_given_out(steps, update, r),
        forall|x: bool| #[trigger] call_ensures(update, (socket, is_tcp), x) ==> x == changed,
    ensures
        socket_of(steps) == Some((socket, is_tcp)) ==> r == (if changed {
            Some(socket)
        } else {
            None
        }),
        socket_of(steps) is None ==> r is None,
{
}

/// The record of a node reads back: whoever reads its text finds a record, with the address and the ports that the node
/// gives out and the public key of the key that signed it, and, where that key and the pair of the node come from one
/// secret, the identity of the node.
pub proof fn law_local_record_reads_back(
    text: Seq<char>,
    config: DiscoveryConfig,
    key: CombinedKey,
    r: Result<EnrRecord, String>,
    secret: Seq<u8>,
    pair: Keypair,
)
    requires
        is_local_record(text, config, key),
        is_reading(text, r),
    ensures
        r is Ok,
        r->Ok_0.endpoints == local_endpoints(config),
        r->Ok_0@.public_key == record_key_of(key),
        is_identity(secret, Ok((pair, Some(key)))) ==> peer_id_of_key(r->Ok_0@.public_key) == Some(keypair_id(pair)),
{
    if is_identity(secret, Ok((pair, Some(key)))) {
        law_record_names_the_holder_of_the_keys(secret, pair, key, r->Ok_0@, keypair_id(pair));
    }
}

}
