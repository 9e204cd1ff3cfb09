//! What the library takes from other crates, and what it takes for granted of it.

use crate::addr::{AddrProtocol, IpAddr, SocketAddr};
use crate::discovery::KeyKind;
use crate::enr::{EnrContents, EnrEndpoints, EnrPublicKey, EnrRecord, PublicKeyView};
use crate::gossip::{content_id, content_message_id, GossipValidation};
use crate::secret::{hex_bytes, hex_text};
use discv5::enr::{Builder, CombinedKey, CombinedPublicKey, Enr, EnrPublicKey as _};
use discv5::ListenConfig;
use libp2p::identity::{secp256k1, Keypair, PublicKey};
use libp2p::multiaddr::Protocol;
use libp2p::{gossipsub, Multiaddr, PeerId};
use rand::rngs::OsRng;
use rand::RngCore;
use std::collections::hash_map::DefaultHasher;
use std::hash::Hash;
use std::time::Duration;
use vstd::endian::{endianness, Endian};
use vstd::prelude::*;

verus! {

/// The identity of a peer. Only whether two are the same is ever asked of it.
#[verifier::external_type_specification]
#[verifier::external_body]
pub struct ExPeerId(PeerId);

/// An address as a list of protocols.
#[verifier::external_type_specification]
#[verifier::external_body]
pub struct ExMultiaddr(Multiaddr);

/// The keys with which a node takes part in the peer-to-peer network.
#[verifier::external_type_specification]
#[verifier::external_body]
pub struct ExKeypair(Keypair);

/// The key with which a node signs its record.
#[verifier::external_type_specification]
#[verifier::external_body]
pub struct ExCombinedKey(CombinedKey);

/// `PeerId::eq`: two identities are equal if and only if they are the same value.
#[verifier::external_body]
pub(crate) fn peer_id_eq(a: &PeerId, b: &PeerId) -> (r: bool)
    ensures
        r == (*a == *b),
{
    a == b
}

/// What `Multiaddr::iter` yields, each protocol that the library knows as itself, and `None` in place of
/// each other one.
pub uninterp spec fn multiaddr_components(addr: Multiaddr) -> Seq<Option<AddrProtocol>>;

/// `Multiaddr::empty`: an address without a protocol.
#[verifier::external_body]
pub(crate) fn multiaddr_empty() -> (addr: Multiaddr)
    ensures
        multiaddr_components(addr) == Seq::<Option<AddrProtocol>>::empty(),
{
    Multiaddr::empty()
}

/// `Multiaddr::push`: adds a protocol at the end, where `Multiaddr::iter` reads it back as it was written.
#[verifier::external_body]
pub(crate) fn multiaddr_push(addr: &mut Multiaddr, p: AddrProtocol)
    ensures
        multiaddr_components(*final(addr)) == multiaddr_components(*old(addr)).push(Some(p)),
{
    addr.push(match p {
        AddrProtocol::Ip4(ip) => Protocol::Ip4(ip.into()),
        AddrProtocol::Ip6(ip) => Protocol::Ip6(ip.into()),
        AddrProtocol::Tcp(port) => Protocol::Tcp(port),
        AddrProtocol::Udp(port) => Protocol::Udp(port),
        AddrProtocol::QuicV1 => Protocol::QuicV1,
    })
}

/// `Multiaddr::iter`: the protocols of an address, in order.
#[verifier::external_body]
pub(crate) fn multiaddr_read(addr: &Multiaddr) -> (v: Vec<Option<AddrProtocol>>)
    ensures
        v@ == multiaddr_components(*addr),
{
    addr.iter().map(|p| match p {
        Protocol::Ip4(ip) => Some(AddrProtocol::Ip4(ip.octets())),
        Protocol::Ip6(ip) => Some(AddrProtocol::Ip6(ip.octets())),
        Protocol::Tcp(port) => Some(AddrProtocol::Tcp(port)),
        Protocol::Udp(port) => Some(AddrProtocol::Udp(port)),
        Protocol::QuicV1 => Some(AddrProtocol::QuicV1),
        _ => None,
    }).collect()
}

/// What `Multiaddr::from_str` makes of a text: an address, or the words of an error.
pub uninterp spec fn multiaddr_of_text(text: Seq<char>) -> Result<Multiaddr, Seq<char>>;

/// `Multiaddr::from_str`: the address that a text writes. Which texts write one is not stated.
#[verifier::external_body]
pub(crate) fn multiaddr_parse(text: &str) -> (r: Result<Multiaddr, String>)
    ensures
        match r {
            Ok(addr) => multiaddr_of_text(text@) == Ok::<Multiaddr, Seq<char>>(addr),
            Err(e) => multiaddr_of_text(text@) == Err::<Multiaddr, Seq<char>>(e@),
        },
{
    text.parse().map_err(|e: libp2p::multiaddr::Error| e.to_string())
}

/// What `Enr::from_str` makes of a text: a record, or the words of an error.
pub uninterp spec fn enr_of_text(text: Seq<char>) -> Result<EnrContents, Seq<char>>;

/// `Enr::from_str`: the record that a text writes, if it is one and its signature is good. Which texts write
/// one is not stated.
#[verifier::external_body]
pub(crate) fn enr_parse(text: &str) -> (r: Result<EnrRecord, String>)
    ensures
        match r {
            Ok(record) => enr_of_text(text@) == Ok::<EnrContents, Seq<char>>(record@),
            Err(e) => enr_of_text(text@) == Err::<EnrContents, Seq<char>>(e@),
        },
{
    text.parse().map(|enr: Enr<CombinedKey>| EnrRecord {
        endpoints: EnrEndpoints {
            ip4: enr.ip4().map(|ip| ip.octets()),
            tcp4: enr.tcp4(),
            udp4: enr.udp4(),
            ip6: enr.ip6().map(|ip| ip.octets()),
            tcp6: enr.tcp6(),
            udp6: enr.udp6(),
        },
        public_key: match enr.public_key() {
            CombinedPublicKey::Secp256k1(key) => EnrPublicKey::Secp256k1(key.encode().to_vec()),
            CombinedPublicKey::Ed25519(key) => EnrPublicKey::Ed25519(key.encode().to_vec()),
        },
    })
}

/// A record in the making: the fields that `enr::Builder` has been given so far.
#[verifier::external_body]
pub struct RecordBuilder {
    builder: Builder<CombinedKey>,
}

/// The fields that a builder holds.
pub uninterp spec fn builder_endpoints(b: RecordBuilder) -> EnrEndpoints;

impl RecordBuilder {
    /// `Enr::builder`: a builder that holds no field.
    #[verifier::external_body]
    pub(crate) fn new() -> (b: Self)
        ensures
            builder_endpoints(b) == crate::enr::no_endpoints(),
    {
        RecordBuilder { builder: Enr::builder() }
    }

    /// `Builder::ip4`: sets the address of version 4.
    #[verifier::external_body]
    pub(crate) fn ip4(&mut self, ip: [u8; 4])
        ensures
            builder_endpoints(*final(self)) == (EnrEndpoints { ip4: Some(ip), ..builder_endpoints(*old(self)) }),
    {
        self.builder.ip4(ip.into());
    }

    /// `Builder::tcp4`: sets the stream port at the address of version 4.
    #[verifier::external_body]
    pub(crate) fn tcp4(&mut self, port: u16)
        ensures
            builder_endpoints(*final(self)) == (EnrEndpoints { tcp4: Some(port), ..builder_endpoints(*old(self)) }),
    {
        self.builder.tcp4(port);
    }

    /// `Builder::udp4`: sets the datagram port at the address of version 4.
    #[verifier::external_body]
    pub(crate) fn udp4(&mut self, port: u16)
        ensures
            builder_endpoints(*final(self)) == (EnrEndpoints { udp4: Some(port), ..builder_endpoints(*old(self)) }),
    {
        self.builder.udp4(port);
    }

    /// `Builder::ip6`: sets the address of version 6.
    #[verifier::external_body]
    pub(crate) fn ip6(&mut self, ip: [u8; 16])
        ensures
            builder_endpoints(*final(self)) == (EnrEndpoints { ip6: Some(ip), ..builder_endpoints(*old(self)) }),
    {
        self.builder.ip6(ip.into());
    }

    /// `Builder::tcp6`: sets the stream port at the address of version 6.
    #[verifier::external_body]
    pub(crate) fn tcp6(&mut self, port: u16)
        ensures
            builder_endpoints(*final(self)) == (EnrEndpoints { tcp6: Some(port), ..builder_endpoints(*old(self)) }),
    {
        self.builder.tcp6(port);
    }

    /// `Builder::udp6`: sets the datagram port at the address of version 6.
    #[verifier::external_body]
    pub(crate) fn udp6(&mut self, port: u16)
        ensures
            builder_endpoints(*final(self)) == (EnrEndpoints { udp6: Some(port), ..builder_endpoints(*old(self)) }),
    {
        self.builder.udp6(port);
    }

    /// `Builder::build`, written out by `Enr::to_base64`: a record signed with `key`. Read again, the text gives the
    /// fields of the builder and the public key that belongs to `key`. The builder is used up, since a builder that
    /// has built a record keeps the public key of that record.
    ///
    /// Signing draws on the randomness of the machine, so neither the whole text nor success is stated.
    #[verifier::external_body]
    pub(crate) fn build(self, key: &CombinedKey) -> (r: Result<String, String>)
        ensures
            r matches Ok(text) ==> enr_of_text(text@) is Ok && enr_of_text(text@)->Ok_0.endpoints == builder_endpoints(
                self,
            ),
            r matches Ok(text) ==> enr_of_text(text@)->Ok_0.public_key == record_key_of(*key),
    {
        let mut builder = self.builder;
        builder.build(key).map(|enr| enr.to_base64()).map_err(|e| e.to_string())
    }
}

/// The public key that `CombinedKey::public` gives for a key, in the form in which records hold it.
pub uninterp spec fn record_key_of(key: CombinedKey) -> PublicKeyView;

/// The public key on the curve secp256k1 that belongs to a secret, in its compressed form.
pub uninterp spec fn secp256k1_public_key(secret: Seq<u8>) -> Seq<u8>;

/// What `CombinedKey::secp256k1_from_bytes` makes of a secret: a key, or the words of an error.
pub uninterp spec fn enr_key_of(secret: Seq<u8>) -> Result<CombinedKey, Seq<char>>;

/// `CombinedKey::secp256k1_from_bytes`: the key of a secret, to which the public key of the secret belongs. Which
/// secrets have one is not stated.
#[verifier::external_body]
pub(crate) fn enr_key_from_secret(secret: &[u8; 32]) -> (r: Result<CombinedKey, String>)
    ensures
        match r {
            Ok(key) => {
                &&& enr_key_of(secret@) == Ok::<CombinedKey, Seq<char>>(key)
                &&& record_key_of(key) == PublicKeyView::Secp256k1(secp256k1_public_key(secret@))
            },
            Err(e) => enr_key_of(secret@) == Err::<CombinedKey, Seq<char>>(e@),
        },
{
    CombinedKey::secp256k1_from_bytes(&mut secret.to_vec()).map_err(|e| e.to_string())
}

/// The kind that `Keypair::key_type` gives for a pair of keys.
pub uninterp spec fn keypair_kind(pair: Keypair) -> KeyKind;

/// The identity that `Keypair::public`, with `PublicKey::to_peer_id`, gives for a pair of keys.
pub uninterp spec fn keypair_id(pair: Keypair) -> PeerId;

/// What `secp256k1::SecretKey::try_from_bytes` and the keys made from it give for a secret: a pair of keys, or
/// the words of an error.
pub uninterp spec fn keypair_of(secret: Seq<u8>) -> Result<Keypair, Seq<char>>;

/// `secp256k1::SecretKey::try_from_bytes`, with `Keypair::from`: the pair of keys of a secret, which is on the curve
/// secp256k1. The identity of its holder is the one that belongs to the public key of the secret. Which secrets have
/// such a pair is not stated.
#[verifier::external_body]
pub(crate) fn keypair_from_secret(secret: &[u8; 32]) -> (r: Result<Keypair, String>)
    ensures
        match r {
            Ok(pair) => {
                &&& keypair_of(secret@) == Ok::<Keypair, Seq<char>>(pair)
                &&& keypair_kind(pair) == KeyKind::Secp256k1
                &&& secp256k1_peer_id(secp256k1_public_key(secret@)) == Some(keypair_id(pair))
            },
            Err(e) => keypair_of(secret@) == Err::<Keypair, Seq<char>>(e@),
        },
{
    secp256k1::SecretKey::try_from_bytes(secret.to_vec()).map(|key| Keypair::from(secp256k1::Keypair::from(key))).map_err(
        |e| e.to_string(),
    )
}

/// `Keypair::generate_ed25519`: a pair of keys of the scheme Ed25519, drawn at random. Which one is not stated.
#[verifier::external_body]
pub(crate) fn keypair_generate() -> (pair: Keypair)
    ensures
        keypair_kind(pair) == KeyKind::Ed25519,
{
    Keypair::generate_ed25519()
}

/// What `PeerId::from_public_key` gives for a public key on the curve secp256k1, if
/// `secp256k1::PublicKey::try_from_bytes` takes the bytes for one.
pub uninterp spec fn secp256k1_peer_id(bytes: Seq<u8>) -> Option<PeerId>;

/// `secp256k1::PublicKey::try_from_bytes`, with `PeerId::from_public_key`: the identity that belongs to a public
/// key. Which bytes are a public key is not stated.
#[verifier::external_body]
pub(crate) fn peer_id_from_secp256k1(bytes: &Vec<u8>) -> (r: Option<PeerId>)
    ensures
        r == secp256k1_peer_id(bytes@),
{
    secp256k1::PublicKey::try_from_bytes(bytes).ok().map(|key| PeerId::from_public_key(&PublicKey::from(key)))
}

/// `Keypair::public`, with `PublicKey::to_peer_id`: the identity of the holder of a pair of keys.
#[verifier::external_body]
pub(crate) fn keypair_peer_id(pair: &Keypair) -> (id: PeerId)
    ensures
        id == keypair_id(*pair),
{
    pair.public().to_peer_id()
}

/// `OsRng::fill_bytes`: bytes drawn at random, of which nothing is stated. It does not return where the machine
/// has no randomness to give.
#[verifier::external_body]
pub(crate) fn random_bytes() -> (secret: [u8; 32]) {
    let mut secret = [0u8; 32];
    OsRng.fill_bytes(&mut secret);
    secret
}

/// `hex::encode`: two small digits for each byte, the more significant one first.
#[verifier::external_body]
pub(crate) fn hex_encode(bytes: &[u8; 32]) -> (text: String)
    ensures
        text@ == hex_text(bytes@),
{
    hex::encode(bytes)
}

/// The words of the error with which `hex::decode` refuses a text.
pub uninterp spec fn hex_error(text: Seq<char>) -> Seq<char>;

/// `hex::decode`: the bytes that pairs of digits write. It refuses a text that holds anything but digits, small
/// or capital, or an odd number of them.
#[verifier::external_body]
pub(crate) fn hex_decode(text: &str) -> (r: Result<Vec<u8>, String>)
    ensures
        match r {
            Ok(bytes) => hex_bytes(text@) == Some(bytes@),
            Err(e) => hex_bytes(text@) is None && e@ == hex_error(text@),
        },
{
    hex::decode(text).map_err(|e| e.to_string())
}

/// The settings of gossip.
#[verifier::external_type_specification]
#[verifier::external_body]
pub struct ExGossipConfig(gossipsub::Config);

/// The heartbeat interval that `gossipsub::Config` holds, in seconds.
pub uninterp spec fn gossip_heartbeat_secs(c: gossipsub::Config) -> u64;

/// The validation mode that `gossipsub::Config` holds.
pub uninterp spec fn gossip_validation(c: gossipsub::Config) -> GossipValidation;

/// The identity that `Config::message_id` gives a message, as the text whose bytes it is, with the settings `c`, from
/// what the message holds: its author, its content, its number and its topic.
pub uninterp spec fn gossip_message_id(
    c: gossipsub::Config,
    source: Option<PeerId>,
    data: Seq<u8>,
    number: Option<u64>,
    topic: Seq<char>,
) -> Seq<char>;

/// `gossipsub::ConfigBuilder`, with its default settings but for heartbeat, validation and the identity of
/// messages: it builds settings that hold the heartbeat and the validation that it was given. It never refuses
/// to, as its default settings fit together and these do not enter into that.
///
/// The settings hold `content_message_id` for the identity of messages, and `Config::message_id` gives what that gives
/// for the content of the message, whatever else the message holds.
#[verifier::external_body]
pub(crate) fn gossip_config(heartbeat_secs: u64, validation: GossipValidation) -> (r: Result<
    gossipsub::Config,
    String,
>)
    ensures
        match r {
            Ok(c) => {
                &&& gossip_heartbeat_secs(c) == heartbeat_secs
                &&& gossip_validation(c) == validation
                &&& forall|a: Option<PeerId>, data: Seq<u8>, m: Option<u64>, t: Seq<char>| #[trigger]
                    gossip_message_id(c, a, data, m, t) == content_id(data)
            },
            Err(_) => false,
        },
{
    let mode = match validation {
        GossipValidation::Strict => gossipsub::ValidationMode::Strict,
        GossipValidation::Permissive => gossipsub::ValidationMode::Permissive,
        GossipValidation::Anonymous => gossipsub::ValidationMode::Anonymous,
        GossipValidation::Unchecked => gossipsub::ValidationMode::None,
    };
    gossipsub::ConfigBuilder::default().heartbeat_interval(Duration::from_secs(heartbeat_secs)).validation_mode(
        mode,
    ).message_id_fn(|m| gossipsub::MessageId::from(content_message_id(&m.data))).build().map_err(|e| e.to_string())
}

/// What a hash has been fed with after `Vec::hash` fed bytes to it: from what it was fed with before, the bytes, and
/// the width of words and the order of bytes of the machine, on which the form in which bytes are fed depends.
pub uninterp spec fn hash_fed(fed: Seq<Seq<u8>>, data: Seq<u8>, word_bits: u32, order: Endian) -> Seq<Seq<u8>>;

/// `Vec::hash`: feeds bytes to a hash. In which form it feeds them is not stated.
#[verifier::external_body]
pub(crate) fn hash_bytes(data: &Vec<u8>, state: &mut DefaultHasher)
    ensures
        final(state)@ == hash_fed(old(state)@, data@, usize::BITS, endianness()),
{
    data.hash(state)
}

/// Where discovery listens.
#[verifier::external_type_specification]
#[verifier::external_body]
pub struct ExListenConfig(ListenConfig);

/// The socket that a `ListenConfig` for one address names.
pub uninterp spec fn listen_socket(c: ListenConfig) -> SocketAddr;

/// `ListenConfig::from_ip`: listens at one address, of either version, and at one port there.
#[verifier::external_body]
pub(crate) fn listen_at(ip: IpAddr, port: u16) -> (c: ListenConfig)
    ensures
        listen_socket(c) == (SocketAddr { ip, port }),
{
    ListenConfig::from_ip(match ip {
        IpAddr::V4(a) => a.into(),
        IpAddr::V6(a) => a.into(),
    }, port)
}

}
