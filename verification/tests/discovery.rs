//! Addresses, records, keys and secrets of nodes.

use citrea_network::addr::{build_multiaddr, multiaddr_to_socket, AddrProtocol, IpAddr, SocketAddr};
use citrea_network::config::{default_discovery_bootnodes, DiscoveryConfig};
use citrea_network::discovery::{
    build_enr_key, build_libp2p_keypair, build_local_enr, identity_from_secret, listen_config, local_peer_id,
    prepare_identity, DiscoveryService,
};
use citrea_network::enr::{enr_multiaddrs, enr_peer_id, parse_enr, EnrPublicKey, EnrRecord};
use citrea_network::error::DiscoveryError;
use citrea_network::secret::{
    decode_secret, encode_secret, load_or_generate_secret, random_secret, LoadedSecret, StoredSecret,
};
use discv5::enr::{CombinedKey, Enr, EnrKey, EnrPublicKey as PublicKeyBytes};
use discv5::ListenConfig;
use libp2p::identity::KeyType;
use libp2p::{Multiaddr, PeerId};
use std::cell::RefCell;

fn localhost6() -> [u8; 16] {
    [0, 0, 0, 0, 0, 0, 0, 0, 0, 0, 0, 0, 0, 0, 0, 1]
}

fn counted_secret() -> [u8; 32] {
    let mut secret = [0u8; 32];
    for i in 0..32 {
        secret[i] = i as u8;
    }
    secret
}

const COUNTED: &str = "000102030405060708090a0b0c0d0e0f101112131415161718191a1b1c1d1e1f";

#[test]
fn parse_multiaddr_socket() {
    let addr: Multiaddr = "/ip4/127.0.0.1/tcp/9000".parse().unwrap();
    let socket = multiaddr_to_socket(&addr).unwrap();
    assert_eq!(socket, (SocketAddr { ip: IpAddr::V4([127, 0, 0, 1]), port: 9000 }, true));

    let quic: Multiaddr = "/ip6/::1/udp/9182/quic-v1".parse().unwrap();
    let socket = multiaddr_to_socket(&quic).unwrap();
    assert_eq!(socket, (SocketAddr { ip: IpAddr::V6(localhost6()), port: 9182 }, false));
}

#[test]
fn addresses_without_socket() {
    let texts = ["/dns4/example.com/tcp/9000", "/ip4/127.0.0.1", "/tcp/9000", "/ip4/127.0.0.1/ip4/10.0.0.1"];
    for text in texts {
        let addr: Multiaddr = text.parse().unwrap();
        assert_eq!(multiaddr_to_socket(&addr), None, "{text}");
    }
    assert_eq!(multiaddr_to_socket(&Multiaddr::empty()), None);
}

#[test]
fn first_port_counts() {
    let addr: Multiaddr = "/ip4/10.1.2.3/udp/7/quic-v1/tcp/8".parse().unwrap();
    assert_eq!(multiaddr_to_socket(&addr), Some((SocketAddr { ip: IpAddr::V4([10, 1, 2, 3]), port: 7 }, false)));
    let addr: Multiaddr = "/ip4/10.1.2.3/ip4/1.1.1.1/tcp/8/udp/7".parse().unwrap();
    assert_eq!(multiaddr_to_socket(&addr), Some((SocketAddr { ip: IpAddr::V4([10, 1, 2, 3]), port: 8 }, true)));
}

#[test]
fn built_address_leads_to_its_socket() {
    let addr = build_multiaddr(IpAddr::V4([10, 0, 0, 7]), AddrProtocol::Tcp(4001));
    assert_eq!(addr.to_string(), "/ip4/10.0.0.7/tcp/4001");
    assert_eq!(multiaddr_to_socket(&addr), Some((SocketAddr { ip: IpAddr::V4([10, 0, 0, 7]), port: 4001 }, true)));
    let addr = build_multiaddr(IpAddr::V6(localhost6()), AddrProtocol::Udp(1));
    assert_eq!(addr.to_string(), "/ip6/::1/udp/1");
}

#[test]
fn enr_multiaddr_generation() {
    let key = CombinedKey::generate_secp256k1();
    let mut builder = Enr::builder();
    builder.ip4([127, 0, 0, 1].into()).udp4(9101).tcp4(9201).ip6(localhost6().into()).udp6(9102).tcp6(9202);
    let enr = builder.build(&key).unwrap();
    let record = parse_enr(&enr.to_base64()).unwrap();
    let addrs = enr_multiaddrs(&record);
    assert!(addrs.iter().any(|a| a.to_string() == "/ip4/127.0.0.1/tcp/9201"));
    assert!(addrs.iter().any(|a| a.to_string() == "/ip4/127.0.0.1/udp/9101/quic-v1"));
    assert!(addrs.iter().any(|a| a.to_string() == "/ip6/::1/tcp/9202"));
    let texts: Vec<String> = addrs.iter().map(|a| a.to_string()).collect();
    assert_eq!(
        texts,
        [
            "/ip4/127.0.0.1/tcp/9201",
            "/ip4/127.0.0.1/udp/9101/quic-v1",
            "/ip6/::1/tcp/9202",
            "/ip6/::1/udp/9102/quic-v1",
        ]
    );
}

#[test]
fn addresses_of_a_record_lead_to_the_sockets_it_names() {
    let key = CombinedKey::generate_secp256k1();
    let mut builder = Enr::builder();
    builder.ip4([1, 2, 3, 4].into()).tcp4(5).ip6(localhost6().into()).udp6(6);
    let record = parse_enr(&builder.build(&key).unwrap().to_base64()).unwrap();
    let sockets: Vec<_> = enr_multiaddrs(&record).iter().map(|a| multiaddr_to_socket(a).unwrap()).collect();
    assert_eq!(
        sockets,
        [
            (SocketAddr { ip: IpAddr::V4([1, 2, 3, 4]), port: 5 }, true),
            (SocketAddr { ip: IpAddr::V6(localhost6()), port: 6 }, false),
        ]
    );
}

#[test]
fn ports_without_address_give_no_way() {
    let key = CombinedKey::generate_secp256k1();
    let mut builder = Enr::builder();
    builder.tcp4(5).udp6(6);
    let record = parse_enr(&builder.build(&key).unwrap().to_base64()).unwrap();
    assert_eq!(record.endpoints.tcp4, Some(5));
    assert_eq!(record.endpoints.ip4, None);
    assert!(enr_multiaddrs(&record).is_empty());
}

#[test]
fn default_bootnodes_are_records() {
    let bootnodes = default_discovery_bootnodes();
    assert_eq!(bootnodes.len(), 4);
    for text in &bootnodes {
        let record = parse_enr(text).unwrap();
        assert!(record.endpoints.ip4.is_some());
        assert!(record.endpoints.udp4.is_some());
        assert!(enr_peer_id(&record).is_some());
    }
}

#[test]
fn broken_record_is_refused() {
    assert!(parse_enr("enr:nonsense").is_err());
    assert!(parse_enr("").is_err());
}

#[test]
fn ed25519_records_name_no_peer() {
    let key = CombinedKey::generate_ed25519();
    let record = parse_enr(&Enr::builder().build(&key).unwrap().to_base64()).unwrap();
    assert!(matches!(record.public_key, EnrPublicKey::Ed25519(_)));
    assert_eq!(enr_peer_id(&record), None);
}

#[test]
fn bytes_that_are_no_key_name_no_peer() {
    let record = parse_enr(&default_discovery_bootnodes()[0]).unwrap();
    let broken = EnrRecord { endpoints: record.endpoints, public_key: EnrPublicKey::Secp256k1(vec![7, 7]) };
    assert_eq!(enr_peer_id(&broken), None);
}

#[test]
fn discovery_secret_roundtrip() {
    let first = load_or_generate_secret(StoredSecret::Absent).unwrap();
    let stored = first.to_store.unwrap();
    let second = load_or_generate_secret(StoredSecret::Present(stored)).unwrap();
    assert_eq!(first.secret, second.secret);
    assert_eq!(second.to_store, None);
}

#[test]
fn secret_without_place_is_not_stored() {
    let loaded = load_or_generate_secret(StoredSecret::NoPlace).unwrap();
    assert_eq!(loaded.to_store, None);
    assert_ne!(loaded.secret, [0u8; 32]);
    assert_ne!(random_secret(), random_secret());
}

#[test]
fn secret_is_written_in_small_digits() {
    assert_eq!(encode_secret(&counted_secret()), COUNTED);
    assert_eq!(encode_secret(&[0xab; 32]), "ab".repeat(32));
}

#[test]
fn secret_is_read_with_mark_and_space() {
    assert_eq!(decode_secret(COUNTED), Ok(counted_secret()));
    let capital = COUNTED.to_uppercase();
    assert_eq!(decode_secret(&capital), Ok(counted_secret()));
    let marked = format!("  0x{COUNTED}\n");
    assert_eq!(decode_secret(&marked), Ok(counted_secret()));
    let spaced = format!("0x\u{2003}{}\t{}\r\n", &COUNTED[..11], &COUNTED[11..]);
    assert_eq!(decode_secret(&spaced), Ok(counted_secret()));
    let stored = StoredSecret::Present(marked);
    assert_eq!(load_or_generate_secret(stored), Ok(LoadedSecret { secret: counted_secret(), to_store: None }));
}

#[test]
fn broken_secrets_are_refused() {
    let short = decode_secret("0x0102").unwrap_err();
    assert_eq!(short, DiscoveryError::KeyLength(2));
    assert_eq!(short.message(), "Discovery key must be 32 bytes, got 2");
    assert_eq!(decode_secret(""), Err(DiscoveryError::KeyLength(0)));
    let odd = decode_secret("abc").unwrap_err();
    assert_eq!(odd, DiscoveryError::InvalidKeyHex(hex::decode("abc").unwrap_err().to_string()));
    assert_eq!(odd.message(), "Invalid discovery key hex: Odd number of digits");
    assert!(matches!(decode_secret("0X00"), Err(DiscoveryError::InvalidKeyHex(_))));
    assert!(matches!(decode_secret("zz"), Err(DiscoveryError::InvalidKeyHex(_))));
    assert!(matches!(decode_secret("\u{e9}"), Err(DiscoveryError::InvalidKeyHex(_))));
    assert!(matches!(load_or_generate_secret(StoredSecret::Present("g".to_string())), Err(DiscoveryError::InvalidKeyHex(_))));
}

fn local_config() -> DiscoveryConfig {
    DiscoveryConfig {
        enabled: true,
        udp_bind: SocketAddr { ip: IpAddr::V4([0, 0, 0, 0]), port: 9000 },
        enr_address: Some(IpAddr::V4([10, 0, 0, 7])),
        enr_udp_port: None,
        enr_tcp_port: Some(4001),
        private_key_path: None,
        bootnodes: Vec::new(),
    }
}

#[test]
fn local_record_names_address_and_keys() {
    let (pair, key) = identity_from_secret(&counted_secret()).unwrap();
    let text = build_local_enr(&local_config(), &key.unwrap()).unwrap();
    let record = parse_enr(&text).unwrap();
    let addrs: Vec<String> = enr_multiaddrs(&record).iter().map(|a| a.to_string()).collect();
    assert_eq!(addrs, ["/ip4/10.0.0.7/tcp/4001", "/ip4/10.0.0.7/udp/9000/quic-v1"]);
    assert_eq!(enr_peer_id(&record), Some(local_peer_id(&pair)));
    assert_eq!(enr_peer_id(&record), Some(PeerId::from_public_key(&pair.public())));
}

#[test]
fn local_record_of_version_six() {
    let mut config = local_config();
    config.enr_address = Some(IpAddr::V6(localhost6()));
    config.enr_udp_port = Some(7);
    config.enr_tcp_port = None;
    let key = build_enr_key(&[1; 32]).unwrap();
    let record = parse_enr(&build_local_enr(&config, &key).unwrap()).unwrap();
    assert_eq!(record.endpoints.ip6, Some(localhost6()));
    assert_eq!(record.endpoints.udp6, Some(7));
    assert_eq!(record.endpoints.tcp6, None);
    assert_eq!(record.endpoints.udp4, None);
    config.enr_tcp_port = Some(8);
    let record = parse_enr(&build_local_enr(&config, &key).unwrap()).unwrap();
    assert_eq!(record.endpoints.tcp6, Some(8));
}

#[test]
fn local_record_keeps_the_least_and_the_greatest_values() {
    let mut config = local_config();
    let key = build_enr_key(&[1; 32]).unwrap();
    for (ip, port) in [([0u8; 4], 0u16), ([255u8; 4], u16::MAX)] {
        config.enr_address = Some(IpAddr::V4(ip));
        config.enr_udp_port = Some(port);
        config.enr_tcp_port = Some(port);
        let record = parse_enr(&build_local_enr(&config, &key).unwrap()).unwrap();
        assert_eq!(record.endpoints.ip4, Some(ip));
        assert_eq!(record.endpoints.udp4, Some(port));
        assert_eq!(record.endpoints.tcp4, Some(port));
    }
    for (ip, port) in [([0u8; 16], 0u16), ([255u8; 16], u16::MAX)] {
        config.enr_address = Some(IpAddr::V6(ip));
        config.enr_udp_port = Some(port);
        config.enr_tcp_port = Some(port);
        let record = parse_enr(&build_local_enr(&config, &key).unwrap()).unwrap();
        assert_eq!(record.endpoints.ip6, Some(ip));
        assert_eq!(record.endpoints.udp6, Some(port));
        assert_eq!(record.endpoints.tcp6, Some(port));
    }
}

#[test]
fn local_record_names_the_public_key_of_every_kind() {
    let key = CombinedKey::generate_ed25519();
    let record = parse_enr(&build_local_enr(&local_config(), &key).unwrap()).unwrap();
    assert_eq!(record.public_key, EnrPublicKey::Ed25519(key.public().encode()));
    assert_eq!(record.endpoints.ip4, Some([10, 0, 0, 7]));
    let key = CombinedKey::generate_secp256k1();
    let record = parse_enr(&build_local_enr(&local_config(), &key).unwrap()).unwrap();
    assert_eq!(record.public_key, EnrPublicKey::Secp256k1(key.public().encode()));
}

#[test]
fn local_record_without_address_leads_nowhere() {
    let mut config = local_config();
    config.enr_address = None;
    config.enr_udp_port = Some(7);
    let key = build_enr_key(&[1; 32]).unwrap();
    let record = parse_enr(&build_local_enr(&config, &key).unwrap()).unwrap();
    assert!(enr_multiaddrs(&record).is_empty());
    assert_eq!(record.endpoints.udp4, None);
}

#[test]
fn secret_of_zeros_gives_no_keys() {
    let zeros = [0u8; 32];
    assert!(matches!(build_enr_key(&zeros), Err(DiscoveryError::InvalidEnrKey(_))));
    assert!(matches!(build_libp2p_keypair(&zeros), Err(DiscoveryError::InvalidPrivateKey(_))));
    assert!(matches!(identity_from_secret(&zeros), Err(DiscoveryError::InvalidEnrKey(_))));
    assert!(build_enr_key(&zeros).err().unwrap().message().starts_with("Invalid secp256k1 key for ENR: "));
    assert!(build_libp2p_keypair(&zeros).unwrap_err().message().starts_with("Invalid secp256k1 private key: "));
}

#[test]
fn identity_without_discovery_has_no_record_key() {
    let mut config = local_config();
    config.enabled = false;
    let (pair, key) = prepare_identity(&config, |_| panic!("no secret is needed")).unwrap();
    assert!(key.is_none());
    assert_eq!(pair.key_type(), KeyType::Ed25519);
    let (other, _) = prepare_identity(&config, |_| panic!("no secret is needed")).unwrap();
    assert_ne!(local_peer_id(&pair), local_peer_id(&other));
}

#[test]
fn identity_comes_from_the_stored_secret() {
    let mut config = local_config();
    config.private_key_path = Some("keys/disc.key".to_string());
    let (pair, key) = prepare_identity(&config, |path| {
        assert_eq!(path.as_deref(), Some("keys/disc.key"));
        Ok(counted_secret())
    })
    .unwrap();
    assert!(key.is_some());
    assert_eq!(pair.key_type(), KeyType::Secp256k1);
    let (again, _) = identity_from_secret(&counted_secret()).unwrap();
    assert_eq!(local_peer_id(&pair), local_peer_id(&again));
    let failed = prepare_identity(&config, |_| Err(DiscoveryError::Storage("no such place".to_string())));
    assert_eq!(failed.err().unwrap().message(), "no such place");
}

#[test]
fn discovery_listens_where_it_is_bound() {
    let config = listen_config(SocketAddr { ip: IpAddr::V4([127, 0, 0, 1]), port: 9001 });
    assert!(matches!(config, ListenConfig::Ipv4 { ip, port: 9001 } if ip.octets() == [127, 0, 0, 1]));
    let config = listen_config(SocketAddr { ip: IpAddr::V6(localhost6()), port: 9002 });
    assert!(matches!(config, ListenConfig::Ipv6 { ip, port: 9002 } if ip.octets() == localhost6()));
}

#[test]
fn bootnodes_are_handed_over_in_order() {
    let service = DiscoveryService::new(7);
    assert_eq!(service.target_peers(), 7);
    let bootnodes = default_discovery_bootnodes();
    let seen = RefCell::new(Vec::new());
    let r = service.add_bootnodes(&bootnodes, |record: &String| {
        seen.borrow_mut().push(record.clone());
        Ok(())
    });
    assert_eq!(r, Ok(()));
    assert_eq!(seen.into_inner(), bootnodes);
}

#[test]
fn first_broken_bootnode_stops() {
    let service = DiscoveryService::new(7);
    let mut bootnodes = default_discovery_bootnodes();
    bootnodes.insert(1, "enr:broken".to_string());
    let seen = RefCell::new(0);
    let e = service
        .add_bootnodes(&bootnodes, |_| {
            *seen.borrow_mut() += 1;
            Ok(())
        })
        .unwrap_err();
    assert!(matches!(&e, DiscoveryError::InvalidEnr { record, .. } if record == "enr:broken"));
    assert!(e.message().starts_with("Invalid ENR enr:broken: "));
    assert_eq!(seen.into_inner(), 1);
}

#[test]
fn refused_bootnode_stops() {
    let service = DiscoveryService::new(7);
    let bootnodes = default_discovery_bootnodes();
    let e = service.add_bootnodes(&bootnodes, |_| Err("table full".to_string())).unwrap_err();
    assert_eq!(e.message(), format!("Failed to add ENR {}: table full", bootnodes[0]));
    assert_eq!(DiscoveryError::BuildEnr("x".to_string()).message(), "Unable to build local ENR: x");
}

#[test]
fn socket_is_given_out_if_it_changes() {
    let service = DiscoveryService::new(7);
    let addr: Multiaddr = "/ip4/127.0.0.1/udp/9000/quic-v1".parse().unwrap();
    let socket = SocketAddr { ip: IpAddr::V4([127, 0, 0, 1]), port: 9000 };
    let changed = service.update_socket_from_multiaddr(&addr, |s, is_tcp| s == socket && !is_tcp);
    assert_eq!(changed, Some(socket));
    assert_eq!(service.update_socket_from_multiaddr(&addr, |_, _| false), None);
    let nowhere: Multiaddr = "/dns4/example.com/tcp/1".parse().unwrap();
    assert_eq!(service.update_socket_from_multiaddr(&nowhere, |_, _| panic!("no socket")), None);
}
