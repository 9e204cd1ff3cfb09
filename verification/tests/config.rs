//! The settings of the network.

use citrea_network::addr::{IpAddr, SocketAddr};
use citrea_network::config::{
    default_discovery_bind_address, default_discovery_bootnodes, default_discovery_enabled,
    default_heartbeat_interval_secs, default_target_peers, ConfigError, DiscoveryConfig, GossipsubConfig, NetworkConfig,
    NetworkEnv, LIGHTHOUSE_BOOTNODES,
};
use citrea_network::text::ParseUintError;

fn no_env() -> NetworkEnv {
    NetworkEnv {
        dial_addresses: None,
        gossipsub_heartbeat_interval_secs: None,
        target_peers: None,
        discovery_enabled: None,
        udp_port: None,
        tcp_port: None,
        discovery_bind_addr: None,
        discovery_enr_address: None,
        discovery_enr_udp_port: None,
        discovery_enr_tcp_port: None,
        discovery_key_path: None,
        discovery_bootnodes: None,
    }
}

fn set(s: &str) -> Option<String> {
    Some(s.to_string())
}

fn least_env() -> NetworkEnv {
    let mut env = no_env();
    env.dial_addresses = set("");
    env.target_peers = set("25");
    env.discovery_enabled = set("true");
    env
}

#[test]
fn defaults() {
    let config = NetworkConfig::default();
    assert!(config.dial_addresses.is_empty());
    assert_eq!(config.gossipsub_config, GossipsubConfig { heartbeat_interval_secs: 10 });
    assert_eq!(config.target_peers, 10);
    assert!(config.discovery_enabled);
    assert_eq!(config.udp_port, None);
    assert_eq!(config.tcp_port, None);
    assert_eq!(config.discovery, DiscoveryConfig::default());
    assert!(config.discovery.enabled);
    assert_eq!(config.discovery.udp_bind, SocketAddr { ip: IpAddr::V4([0, 0, 0, 0]), port: 9000 });
    assert_eq!(config.discovery.enr_address, None);
    assert_eq!(config.discovery.private_key_path, None);
    assert_eq!(config.discovery.bootnodes, LIGHTHOUSE_BOOTNODES);
    assert_eq!(default_target_peers(), 10);
    assert_eq!(default_heartbeat_interval_secs(), 10);
    assert!(default_discovery_enabled());
    assert_eq!(default_discovery_bind_address(), config.discovery.udp_bind);
    assert_eq!(default_discovery_bootnodes(), config.discovery.bootnodes);
}

#[test]
fn least_environment() {
    let config = NetworkConfig::from_env(&least_env()).unwrap();
    assert_eq!(config.dial_addresses, [""]);
    assert_eq!(config.target_peers, 25);
    assert!(config.discovery_enabled);
    assert_eq!(config.udp_port, None);
    assert_eq!(config.gossipsub_config.heartbeat_interval_secs, 10);
    assert_eq!(config.discovery, DiscoveryConfig::default());
}

#[test]
fn unset_environment_gives_default_discovery() {
    assert_eq!(DiscoveryConfig::from_env(&no_env()), Ok(DiscoveryConfig::default()));
    assert_eq!(GossipsubConfig::from_env(&no_env()), Ok(GossipsubConfig::default()));
}

#[test]
fn full_environment() {
    let mut env = least_env();
    env.dial_addresses = set(" /ip4/1.2.3.4/tcp/1 ,/ip4/5.6.7.8/tcp/2");
    env.gossipsub_heartbeat_interval_secs = set("3");
    env.discovery_enabled = set("false");
    env.udp_port = set("4000");
    env.tcp_port = set("4001");
    env.discovery_bind_addr = Some(Ok(SocketAddr { ip: IpAddr::V4([127, 0, 0, 1]), port: 9 }));
    env.discovery_enr_address = Some(Ok(IpAddr::V4([8, 8, 8, 8])));
    env.discovery_enr_udp_port = set("5000");
    env.discovery_enr_tcp_port = set("65535");
    env.discovery_key_path = set("keys/disc.key");
    env.discovery_bootnodes = set("enr:a, ,enr:b,");
    let config = NetworkConfig::from_env(&env).unwrap();
    assert_eq!(config.dial_addresses, ["/ip4/1.2.3.4/tcp/1", "/ip4/5.6.7.8/tcp/2"]);
    assert_eq!(config.gossipsub_config.heartbeat_interval_secs, 3);
    assert!(!config.discovery_enabled);
    assert_eq!(config.udp_port, Some(4000));
    assert_eq!(config.tcp_port, Some(4001));
    assert!(!config.discovery.enabled);
    assert_eq!(config.discovery.udp_bind, SocketAddr { ip: IpAddr::V4([127, 0, 0, 1]), port: 9 });
    assert_eq!(config.discovery.enr_address, Some(IpAddr::V4([8, 8, 8, 8])));
    assert_eq!(config.discovery.enr_udp_port, Some(5000));
    assert_eq!(config.discovery.enr_tcp_port, Some(65535));
    assert_eq!(config.discovery.private_key_path.as_deref(), Some("keys/disc.key"));
    assert_eq!(config.discovery.bootnodes, ["enr:a", "enr:b"]);
}

#[test]
fn lenient_settings_fall_back() {
    let mut env = least_env();
    env.gossipsub_heartbeat_interval_secs = set("often");
    env.udp_port = set("65536");
    env.tcp_port = set("-1");
    let config = NetworkConfig::from_env(&env).unwrap();
    assert_eq!(config.gossipsub_config.heartbeat_interval_secs, 10);
    assert_eq!(config.udp_port, None);
    assert_eq!(config.tcp_port, None);
    assert_eq!(GossipsubConfig::from_env(&env).unwrap().heartbeat_interval_secs, 10);
}

#[test]
fn discovery_switch_is_lenient_but_network_switch_is_not() {
    let mut env = least_env();
    env.discovery_enabled = set("YES");
    assert!(DiscoveryConfig::from_env(&env).unwrap().enabled);
    assert_eq!(NetworkConfig::from_env(&env), Err(ConfigError::InvalidDiscoveryEnabled));
    env.discovery_enabled = set("maybe");
    assert!(!DiscoveryConfig::from_env(&env).unwrap().enabled);
    env.discovery_enabled = None;
    assert!(DiscoveryConfig::from_env(&env).unwrap().enabled);
}

#[test]
fn what_is_missing_is_told() {
    let mut env = no_env();
    assert_eq!(NetworkConfig::from_env(&env), Err(ConfigError::MissingDialAddresses));
    env.dial_addresses = set("");
    assert_eq!(NetworkConfig::from_env(&env), Err(ConfigError::MissingTargetPeers));
    env.target_peers = set("1");
    assert_eq!(NetworkConfig::from_env(&env), Err(ConfigError::MissingDiscoveryEnabled));
    env.discovery_enabled = set("true");
    assert!(NetworkConfig::from_env(&env).is_ok());
    assert_eq!(ConfigError::MissingDialAddresses.message(), "NETWORK_DIAL_ADDRESSES is not set");
    assert_eq!(ConfigError::MissingTargetPeers.message(), "NETWORK_TARGET_PEERS is not set");
    assert_eq!(ConfigError::MissingDiscoveryEnabled.message(), "NETWORK_DISCOVERY_ENABLED is not set");
}

#[test]
fn what_is_wrong_is_told() {
    let mut env = least_env();
    env.discovery_enr_tcp_port = set("");
    let e = NetworkConfig::from_env(&env).unwrap_err();
    assert_eq!(e, ConfigError::InvalidEnrTcpPort(ParseUintError::Empty));
    assert_eq!(e.message(), "Invalid NETWORK_DISCOVERY_ENR_TCP_PORT: cannot parse integer from empty string");
    env.discovery_enr_udp_port = set("70000");
    let e = NetworkConfig::from_env(&env).unwrap_err();
    assert_eq!(e, ConfigError::InvalidEnrUdpPort(ParseUintError::PosOverflow));
    assert_eq!(e.message(), "Invalid NETWORK_DISCOVERY_ENR_UDP_PORT: number too large to fit in target type");
    env.discovery_enr_address = Some(Err("invalid IP address syntax".to_string()));
    let e = NetworkConfig::from_env(&env).unwrap_err();
    assert_eq!(e, ConfigError::InvalidEnrAddress("invalid IP address syntax".to_string()));
    assert_eq!(e.message(), "Invalid NETWORK_DISCOVERY_ENR_ADDRESS: invalid IP address syntax");
    env.discovery_bind_addr = Some(Err("invalid socket address syntax".to_string()));
    let e = NetworkConfig::from_env(&env).unwrap_err();
    assert_eq!(e, ConfigError::InvalidBindAddr("invalid socket address syntax".to_string()));
    assert_eq!(e.message(), "Invalid NETWORK_DISCOVERY_BIND_ADDR: invalid socket address syntax");
    assert_eq!(DiscoveryConfig::from_env(&env), Err(e));
    env.discovery_enabled = set("on");
    let e = NetworkConfig::from_env(&env).unwrap_err();
    assert_eq!(e.message(), "on".parse::<bool>().unwrap_err().to_string());
    env.target_peers = set("ten");
    let e = NetworkConfig::from_env(&env).unwrap_err();
    assert_eq!(e, ConfigError::InvalidTargetPeers(ParseUintError::InvalidDigit));
    assert_eq!(e.message(), "invalid digit found in string");
}
