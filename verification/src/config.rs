//! The settings of the network, their defaults, and how the environment sets them.

use crate::addr::{IpAddr, SocketAddr};
use crate::text::{
    bool_value, chars_of, comma_list, comma_list_nonempty, law_numbers_may_have_one_plus_sign, lower, parse_bool,
    parse_comma_list, parse_comma_list_nonempty, parse_uint, same_chars, string_views, to_lower, trim, trimmed,
    uint_value, ParseUintError,
};
use vstd::prelude::*;
use vstd::string::*;

verus! {

/// How many peers a node wants, unless set otherwise.
pub fn default_target_peers() -> (n: usize)
    ensures
        n == 10,
{
    10
}

/// Whether discovery is on, unless set otherwise.
pub fn default_discovery_enabled() -> (on: bool)
    ensures
        on,
{
    true
}

/// Seconds between two heartbeats of gossip, unless set otherwise.
pub fn default_heartbeat_interval_secs() -> (n: u64)
    ensures
        n == 10,
{
    10
}

/// Where discovery listens, unless set otherwise: port 9000 of every interface.
pub open spec fn bind_address_default() -> SocketAddr {
    SocketAddr { ip: IpAddr::V4([0u8, 0u8, 0u8, 0u8]), port: 9000 }
}

/// Where discovery listens, unless set otherwise.
pub fn default_discovery_bind_address() -> (a: SocketAddr)
    ensures
        a == bind_address_default(),
{
    SocketAddr { ip: IpAddr::V4([0u8, 0u8, 0u8, 0u8]), port: 9000 }
}

/// The records of public boot nodes.
pub const LIGHTHOUSE_BOOTNODES: [&'static str; 4] = [
    "enr:-Iu4QLm7bZGdAt9NSeJG0cEnJohWcQTQaI9wFLu3Q7eHIDfrI4cwtzvEW3F3VbG9XdFXlrHyFGeXPn9snTCQJ9bnMRABgmlkgnY0gmlwhAOTJQCJc2VjcDI1NmsxoQIZdZD6tDYpkpEfVo5bgiU8MGRjhcOmHGD2nErK0UKRrIN0Y3CCIyiDdWRwgiMo",
    "enr:-Ku4QImhMc1z8yCiNJ1TyUxdcfNucje3BGwEHzodEZUan8PherEo4sF7pPHPSIB1NNuSg5fZy7qFsjmUKs2ea1Whi0EBh2F0dG5ldHOIAAAAAAAAAACEZXRoMpD1pf1CAAAAAP__________gmlkgnY0gmlwhBLf22SJc2VjcDI1NmsxoQOVphkDqal4QzPMksc5wnpuC3gvSC8AfbFOnZY_On34wIN1ZHCCIyg",
    "enr:-LK4QA8FfhaAjlb_BXsXxSfiysR7R52Nhi9JBt4F8SPssu8hdE1BXQQEtVDC3qStCW60LSO7hEsVHv5zm8_6Vnjhcn0Bh2F0dG5ldHOIAAAAAAAAAACEZXRoMpC1MD8qAAAAAP__________gmlkgnY0gmlwhAN4aBKJc2VjcDI1NmsxoQJerDhsJ-KxZ8sHySMOCmTO6sHM3iCFQ6VMvLTe948MyYN0Y3CCI4yDdWRwgiOM",
    "enr:-Le4QLHZDSvkLfqgEo8IWGG96h6mxwe_PsggC20CL3neLBjfXLGAQFOPSltZ7oP6ol54OvaNqO02Rnvb8YmDR274uq8ChGV0aDKQtTA_KgEAAAAAIgEAAAAAAIJpZIJ2NIJpcISLosQxg2lwNpAqAX4AAAAAAPA8kv_-ax65iXNlY3AyNTZrMaEDBJj7_dLFACaxBfaI8KZTh_SSJUjhyAyfshimvSqo22WDdWRwgiMohHVkcDaCI4I",
];

/// The records that discovery starts from, unless set otherwise.
pub open spec fn bootnodes_default() -> Seq<Seq<char>> {
    Seq::new(4, |i: int| LIGHTHOUSE_BOOTNODES[i]@)
}

/// The records that discovery starts from, unless set otherwise.
pub fn default_discovery_bootnodes() -> (list: Vec<String>)
    ensures
        string_views(list@) == bootnodes_default(),
{
    let mut list: Vec<String> = Vec::new();
    for k in 0..4usize
        invariant
            list.len() == k,
            forall|i: int| 0 <= i < k ==> (#[trigger] list[i])@ == LIGHTHOUSE_BOOTNODES[i]@,
    {
        list.push(LIGHTHOUSE_BOOTNODES[k].to_string());
    }
    assert(string_views(list@) =~= bootnodes_default());
    list
}

/// A text that switches something on.
pub open spec fn flag_value(s: Seq<char>) -> bool {
    let word = trimmed(s).map_values(|c: char| lower(c));
    word == "1"@ || word == "true"@ || word == "yes"@ || word == "on"@
}

/// Whether a text switches something on, whatever the case of its letters and the white space around it.
pub fn parse_bool_flag(value: &str) -> (on: bool)
    ensures
        on == flag_value(value@),
{
    let chars = chars_of(trim(value));
    let mut word: Vec<char> = Vec::new();
    for k in 0..chars.len()
        invariant
            word.len() == k,
            forall|i: int| 0 <= i < k ==> word[i] == lower(#[trigger] chars[i]),
    {
        word.push(to_lower(chars[k]));
    }
    assert(word@ =~= trimmed(value@).map_values(|c: char| lower(c)));
    same_chars(&word, "1") || same_chars(&word, "true") || same_chars(&word, "yes") || same_chars(&word, "on")
}

/// The settings of gossip.
#[derive(Debug, Clone, PartialEq)]
pub struct GossipsubConfig {
    /// Seconds between two heartbeats.
    pub heartbeat_interval_secs: u64,
}

/// The settings of discovery.
#[derive(Debug, Clone, PartialEq)]
pub struct DiscoveryConfig {
    /// Whether discovery is on.
    pub enabled: bool,
    /// Where discovery listens.
    pub udp_bind: SocketAddr,
    /// The address that the node gives out as its own.
    pub enr_address: Option<IpAddr>,
    /// The datagram port that the node gives out, in place of the one it listens on.
    pub enr_udp_port: Option<u16>,
    /// The stream port that the node gives out.
    pub enr_tcp_port: Option<u16>,
    /// Where the private key of the node is kept.
    pub private_key_path: Option<String>,
    /// The records of the nodes that discovery starts from.
    pub bootnodes: Vec<String>,
}

/// The settings of the network.
#[derive(Debug, Clone, PartialEq)]
pub struct NetworkConfig {
    /// The addresses of peers that are dialed at the start.
    pub dial_addresses: Vec<String>,
    /// The settings of gossip.
    pub gossipsub_config: GossipsubConfig,
    /// How many peers the node wants.
    pub target_peers: usize,
    /// Whether discovery adds peers.
    pub discovery_enabled: bool,
    /// The datagram port.
    pub udp_port: Option<u16>,
    /// The stream port.
    pub tcp_port: Option<u16>,
    /// The settings of discovery.
    pub discovery: DiscoveryConfig,
}

impl Default for GossipsubConfig {
    fn default() -> (c: Self)
        ensures
            c.heartbeat_interval_secs == 10,
    {
        GossipsubConfig { heartbeat_interval_secs: default_heartbeat_interval_secs() }
    }
}

impl DiscoveryConfig {
    /// Every setting is at its default.
    pub open spec fn is_default(&self) -> bool {
        &&& self.enabled
        &&& self.udp_bind == bind_address_default()
        &&& self.enr_address is None
        &&& self.enr_udp_port is None
        &&& self.enr_tcp_port is None
        &&& self.private_key_path is None
        &&& string_views(self.bootnodes@) == bootnodes_default()
    }
}

impl Default for DiscoveryConfig {
    fn default() -> (c: Self)
        ensures
            c.is_default(),
    {
        DiscoveryConfig {
            enabled: default_discovery_enabled(),
            udp_bind: default_discovery_bind_address(),
            enr_address: None,
            enr_udp_port: None,
            enr_tcp_port: None,
            private_key_path: None,
            bootnodes: default_discovery_bootnodes(),
        }
    }
}

impl NetworkConfig {
    /// Every setting is at its default.
    pub open spec fn is_default(&self) -> bool {
        &&& self.dial_addresses@.len() == 0
        &&& self.gossipsub_config.heartbeat_interval_secs == 10
        &&& self.target_peers == 10
        &&& self.discovery_enabled
        &&& self.udp_port is None
        &&& self.tcp_port is None
        &&& self.discovery.is_default()
    }
}

impl Default for NetworkConfig {
    fn default() -> (c: Self)
        ensures
            c.is_default(),
    {
        NetworkConfig {
            dial_addresses: Vec::new(),
            gossipsub_config: GossipsubConfig::default(),
            target_peers: default_target_peers(),
            discovery_enabled: default_discovery_enabled(),
            udp_port: None,
            tcp_port: None,
            discovery: DiscoveryConfig::default(),
        }
    }
}

/// What the environment holds for the network: each variable as it is set, or nothing.
///
/// The two addresses come as they were read, or with the words of the error that reading them met.
#[derive(Debug)]
pub struct NetworkEnv {
    /// `NETWORK_DIAL_ADDRESSES`.
    pub dial_addresses: Option<String>,
    /// `GOSSIPSUB_HEARTBEAT_INTERVAL_SECS`.
    pub gossipsub_heartbeat_interval_secs: Option<String>,
    /// `NETWORK_TARGET_PEERS`.
    pub target_peers: Option<String>,
    /// `NETWORK_DISCOVERY_ENABLED`.
    pub discovery_enabled: Option<String>,
    /// `NETWORK_UDP_PORT`.
    pub udp_port: Option<String>,
    /// `NETWORK_TCP_PORT`.
    pub tcp_port: Option<String>,
    /// `NETWORK_DISCOVERY_BIND_ADDR`.
    pub discovery_bind_addr: Option<Result<SocketAddr, String>>,
    /// `NETWORK_DISCOVERY_ENR_ADDRESS`.
    pub discovery_enr_address: Option<Result<IpAddr, String>>,
    /// `NETWORK_DISCOVERY_ENR_UDP_PORT`.
    pub discovery_enr_udp_port: Option<String>,
    /// `NETWORK_DISCOVERY_ENR_TCP_PORT`.
    pub discovery_enr_tcp_port: Option<String>,
    /// `NETWORK_DISCOVERY_KEY_PATH`.
    pub discovery_key_path: Option<String>,
    /// `NETWORK_DISCOVERY_BOOTNODES`.
    pub discovery_bootnodes: Option<String>,
}

/// Why the environment gives no settings.
#[derive(Debug, PartialEq)]
pub enum ConfigError {
    /// `NETWORK_DIAL_ADDRESSES` is not set.
    MissingDialAddresses,
    /// `NETWORK_TARGET_PEERS` is not set.
    MissingTargetPeers,
    /// `NETWORK_TARGET_PEERS` is no number.
    InvalidTargetPeers(ParseUintError),
    /// `NETWORK_DISCOVERY_ENABLED` is not set.
    MissingDiscoveryEnabled,
    /// `NETWORK_DISCOVERY_ENABLED` is neither `true` nor `false`.
    InvalidDiscoveryEnabled,
    /// `NETWORK_DISCOVERY_BIND_ADDR` is no address with a port.
    InvalidBindAddr(String),
    /// `NETWORK_DISCOVERY_ENR_ADDRESS` is no address.
    InvalidEnrAddress(String),
    /// `NETWORK_DISCOVERY_ENR_UDP_PORT` is no port.
    InvalidEnrUdpPort(ParseUintError),
    /// `NETWORK_DISCOVERY_ENR_TCP_PORT` is no port.
    InvalidEnrTcpPort(ParseUintError),
}

impl ConfigError {
    /// The error in words.
    pub open spec fn words(&self) -> Seq<char> {
        match self {
            ConfigError::MissingDialAddresses => "NETWORK_DIAL_ADDRESSES is not set"@,
            ConfigError::MissingTargetPeers => "NETWORK_TARGET_PEERS is not set"@,
            ConfigError::InvalidTargetPeers(e) => e.words(),
            ConfigError::MissingDiscoveryEnabled => "NETWORK_DISCOVERY_ENABLED is not set"@,
            ConfigError::InvalidDiscoveryEnabled => "provided string was not `true` or `false`"@,
            ConfigError::InvalidBindAddr(e) => "Invalid NETWORK_DISCOVERY_BIND_ADDR: "@ + e@,
            ConfigError::InvalidEnrAddress(e) => "Invalid NETWORK_DISCOVERY_ENR_ADDRESS: "@ + e@,
            ConfigError::InvalidEnrUdpPort(e) => "Invalid NETWORK_DISCOVERY_ENR_UDP_PORT: "@ + e.words(),
            ConfigError::InvalidEnrTcpPort(e) => "Invalid NETWORK_DISCOVERY_ENR_TCP_PORT: "@ + e.words(),
        }
    }

    /// The error in words.
    pub fn message(&self) -> (s: String)
        ensures
            s@ == self.words(),
    {
        match self {
            ConfigError::MissingDialAddresses => "NETWORK_DIAL_ADDRESSES is not set".to_string(),
            ConfigError::MissingTargetPeers => "NETWORK_TARGET_PEERS is not set".to_string(),
            ConfigError::InvalidTargetPeers(e) => e.message().to_string(),
            ConfigError::MissingDiscoveryEnabled => "NETWORK_DISCOVERY_ENABLED is not set".to_string(),
            ConfigError::InvalidDiscoveryEnabled => "provided string was not `true` or `false`".to_string(),
            ConfigError::InvalidBindAddr(e) => "Invalid NETWORK_DISCOVERY_BIND_ADDR: ".to_string().concat(e.as_str()),
            ConfigError::InvalidEnrAddress(e) => "Invalid NETWORK_DISCOVERY_ENR_ADDRESS: ".to_string().concat(
                e.as_str(),
            ),
            ConfigError::InvalidEnrUdpPort(e) => "Invalid NETWORK_DISCOVERY_ENR_UDP_PORT: ".to_string().concat(
                e.message(),
            ),
            ConfigError::InvalidEnrTcpPort(e) => "Invalid NETWORK_DISCOVERY_ENR_TCP_PORT: ".to_string().concat(
                e.message(),
            ),
        }
    }
}

/// The number up to `max` that a variable holds, if it is set and holds one.
pub open spec fn lenient_value(v: Option<String>, max: nat) -> Option<nat> {
    match v {
        Some(s) => match uint_value(s@, max) {
            Ok(n) => Some(n),
            Err(_) => None,
        },
        None => None,
    }
}

/// What is wrong with the number up to `max` that a variable holds.
pub open spec fn uint_error(v: Option<String>, max: nat) -> Option<ParseUintError> {
    match v {
        Some(s) => match uint_value(s@, max) {
            Ok(_) => None,
            Err(e) => Some(e),
        },
        None => None,
    }
}

/// The number up to `max` that a variable holds, if it is set and holds one.
fn read_lenient(v: &Option<String>, max: u64) -> (r: Option<u64>)
    ensures
        r == (match lenient_value(*v, max as nat) {
            Some(n) => Some(n as u64),
            None => None,
        }),
        r matches Some(n) ==> n <= max && lenient_value(*v, max as nat) == Some(n as nat),
{
    match v {
        Some(s) => match parse_uint(s.as_str(), max) {
            Ok(n) => Some(n),
            Err(_) => None,
        },
        None => None,
    }
}

/// The port that a variable holds, if it is set.
fn read_port(v: &Option<String>) -> (r: Result<Option<u16>, ParseUintError>)
    ensures
        match uint_error(*v, u16::MAX as nat) {
            Some(e) => r == Err::<Option<u16>, ParseUintError>(e),
            None => r matches Ok(port) && port == read_as_port(*v),
        },
{
    match v {
        Some(s) => match parse_uint(s.as_str(), u16::MAX as u64) {
            Ok(n) => Ok(Some(n as u16)),
            Err(e) => Err(e),
        },
        None => Ok(None),
    }
}

/// The port that a variable holds, if it is set and holds one.
pub open spec fn read_as_port(v: Option<String>) -> Option<u16> {
    match lenient_value(v, u16::MAX as nat) {
        Some(n) => Some(n as u16),
        None => None,
    }
}

impl GossipsubConfig {
    /// Reads the settings of gossip. What is not set, or is no number, is at its default.
    pub fn from_env(env: &NetworkEnv) -> (r: Result<Self, ConfigError>)
        ensures
            r matches Ok(c) && c.is_from_env(env),
    {
        let heartbeat_interval_secs = match read_lenient(&env.gossipsub_heartbeat_interval_secs, u64::MAX) {
            Some(n) => n,
            None => default_heartbeat_interval_secs(),
        };
        Ok(GossipsubConfig { heartbeat_interval_secs })
    }

    /// What the environment makes of the settings of gossip.
    pub open spec fn is_from_env(&self, env: &NetworkEnv) -> bool {
        self.heartbeat_interval_secs == (match lenient_value(env.gossipsub_heartbeat_interval_secs, u64::MAX as nat) {
            Some(n) => n,
            None => 10,
        })
    }
}

/// What keeps the environment from giving settings of discovery: the first thing in the order of the settings.
pub open spec fn discovery_env_error(env: &NetworkEnv) -> Option<ConfigError> {
    if let Some(Err(e)) = env.discovery_bind_addr {
        Some(ConfigError::InvalidBindAddr(e))
    } else if let Some(Err(e)) = env.discovery_enr_address {
        Some(ConfigError::InvalidEnrAddress(e))
    } else if let Some(e) = uint_error(env.discovery_enr_udp_port, u16::MAX as nat) {
        Some(ConfigError::InvalidEnrUdpPort(e))
    } else if let Some(e) = uint_error(env.discovery_enr_tcp_port, u16::MAX as nat) {
        Some(ConfigError::InvalidEnrTcpPort(e))
    } else {
        None
    }
}

impl DiscoveryConfig {
    /// What the environment makes of the settings of discovery.
    pub open spec fn is_from_env(&self, env: &NetworkEnv) -> bool {
        &&& self.enabled == (match env.discovery_enabled {
            Some(v) => flag_value(v@),
            None => true,
        })
        &&& self.udp_bind == (match env.discovery_bind_addr {
            Some(Ok(a)) => a,
            _ => bind_address_default(),
        })
        &&& self.enr_address == (match env.discovery_enr_address {
            Some(Ok(a)) => Some(a),
            _ => None,
        })
        &&& self.enr_udp_port == read_as_port(env.discovery_enr_udp_port)
        &&& self.enr_tcp_port == read_as_port(env.discovery_enr_tcp_port)
        &&& self.private_key_path == env.discovery_key_path
        &&& string_views(self.bootnodes@) == (match env.discovery_bootnodes {
            Some(v) => comma_list_nonempty(v@),
            None => bootnodes_default(),
        })
    }

    /// Reads the settings of discovery.
    pub fn from_env(env: &NetworkEnv) -> (r: Result<Self, ConfigError>)
        ensures
            match discovery_env_error(env) {
                Some(e) => r == Err::<Self, ConfigError>(e),
                None => r matches Ok(c) && c.is_from_env(env),
            },
    {
        let enabled = match &env.discovery_enabled {
            Some(v) => parse_bool_flag(v.as_str()),
            None => default_discovery_enabled(),
        };
        let udp_bind = match &env.discovery_bind_addr {
            Some(Ok(a)) => *a,
            Some(Err(e)) => {
                return Err(ConfigError::InvalidBindAddr(e.clone()));
            },
            None => default_discovery_bind_address(),
        };
        let enr_address = match &env.discovery_enr_address {
            Some(Ok(a)) => Some(*a),
            Some(Err(e)) => {
                return Err(ConfigError::InvalidEnrAddress(e.clone()));
            },
            None => None,
        };
        let enr_udp_port: Option<u16> = match read_port(&env.discovery_enr_udp_port) {
            Ok(port) => port,
            Err(e) => {
                return Err(ConfigError::InvalidEnrUdpPort(e));
            },
        };
        let enr_tcp_port: Option<u16> = match read_port(&env.discovery_enr_tcp_port) {
            Ok(port) => port,
            Err(e) => {
                return Err(ConfigError::InvalidEnrTcpPort(e));
            },
        };
        let private_key_path = match &env.discovery_key_path {
            Some(path) => Some(path.clone()),
            None => None,
        };
        let bootnodes = match &env.discovery_bootnodes {
            Some(v) => parse_comma_list_nonempty(v.as_str()),
            None => default_discovery_bootnodes(),
        };
        Ok(
            DiscoveryConfig {
                enabled,
                udp_bind,
                enr_address,
                enr_udp_port,
                enr_tcp_port,
                private_key_path,
                bootnodes,
            },
        )
    }
}

/// What keeps the environment from giving settings: the first thing in the order of the settings.
pub open spec fn network_env_error(env: &NetworkEnv) -> Option<ConfigError> {
    if env.dial_addresses is None {
        Some(ConfigError::MissingDialAddresses)
    } else if env.target_peers is None {
        Some(ConfigError::MissingTargetPeers)
    } else if let Some(e) = uint_error(env.target_peers, usize::MAX as nat) {
        Some(ConfigError::InvalidTargetPeers(e))
    } else if env.discovery_enabled is None {
        Some(ConfigError::MissingDiscoveryEnabled)
    } else if bool_value(env.discovery_enabled->0@) is None {
        Some(ConfigError::InvalidDiscoveryEnabled)
    } else {
        discovery_env_error(env)
    }
}

impl NetworkConfig {
    /// What the environment makes of the settings.
    pub open spec fn is_from_env(&self, env: &NetworkEnv) -> bool {
        &&& string_views(self.dial_addresses@) == comma_list(env.dial_addresses->0@)
        &&& self.gossipsub_config.is_from_env(env)
        &&& uint_value(env.target_peers->0@, usize::MAX as nat) == Ok::<nat, ParseUintError>(
            self.target_peers as nat,
        )
        &&& bool_value(env.discovery_enabled->0@) == Some(self.discovery_enabled)
        &&& self.udp_port == read_as_port(env.udp_port)
        &&& self.tcp_port == read_as_port(env.tcp_port)
        &&& self.discovery.is_from_env(env)
    }

    /// Reads the settings.
    pub fn from_env(env: &NetworkEnv) -> (r: Result<Self, ConfigError>)
        ensures
            match network_env_error(env) {
                Some(e) => r == Err::<Self, ConfigError>(e),
                None => r matches Ok(c) && c.is_from_env(env),
            },
    {
        let dial_addresses = match &env.dial_addresses {
            Some(v) => parse_comma_list(v.as_str()),
            None => {
                return Err(ConfigError::MissingDialAddresses);
            },
        };
        let gossipsub_config = match GossipsubConfig::from_env(env) {
            Ok(c) => c,
            Err(e) => {
                return Err(e);
            },
        };
        let target_peers: usize = match &env.target_peers {
            Some(v) => match parse_uint(v.as_str(), usize::MAX as u64) {
                Ok(n) => n as usize,
                Err(e) => {
                    return Err(ConfigError::InvalidTargetPeers(e));
                },
            },
            None => {
                return Err(ConfigError::MissingTargetPeers);
            },
        };
        let discovery_enabled = match &env.discovery_enabled {
            Some(v) => match parse_bool(v.as_str()) {
                Some(on) => on,
                None => {
                    return Err(ConfigError::InvalidDiscoveryEnabled);
                },
            },
            None => {
                return Err(ConfigError::MissingDiscoveryEnabled);
            },
        };
        let udp_port: Option<u16> = match read_lenient(&env.udp_port, u16::MAX as u64) {
            Some(n) => Some(n as u16),
            None => None,
        };
        let tcp_port: Option<u16> = match read_lenient(&env.tcp_port, u16::MAX as u64) {
            Some(n) => Some(n as u16),
            None => None,
        };
        let discovery = match DiscoveryConfig::from_env(env) {
            Ok(d) => d,
            Err(e) => {
                return Err(e);
            },
        };
        Ok(
            NetworkConfig {
                dial_addresses,
                gossipsub_config,
                target_peers,
                discovery_enabled,
                udp_port,
                tcp_port,
                discovery,
            },
        )
    }
}

/// An environment that sets nothing about discovery gives it the settings that it has by default.
pub proof fn law_unset_environment_gives_default_discovery(env: NetworkEnv, c: DiscoveryConfig)
    requires
        env.discovery_enabled is None,
        env.discovery_bind_addr is None,
        env.discovery_enr_address is None,
        env.discovery_enr_udp_port is None,
        env.discovery_enr_tcp_port is None,
        env.discovery_key_path is None,
        env.discovery_bootnodes is None,
    ensures
        discovery_env_error(&env) is None,
        c.is_from_env(&env) <==> c.is_default(),
{
}

/// `s` is the word `w`, which is written in small letters and digits, with any of its letters small or capital.
pub open spec fn is_word(s: Seq<char>, w: Seq<char>) -> bool {
    &&& s.len() == w.len()
    &&& forall|i: int|
        0 <= i < w.len() ==> #[trigger] s[i] == w[i] || ('A' <= s[i] <= 'Z' && (s[i] as int) + 32 == w[i] as int)
}

/// Whatever the case of its letters and the white space around it, a text switches something on if and only if it is
/// one of four words.
pub proof fn law_four_words_switch_on(s: Seq<char>)
    ensures
        flag_value(s) <==> is_word(trimmed(s), seq!['1']) || is_word(trimmed(s), seq!['t', 'r', 'u', 'e']) || is_word(
            trimmed(s),
            seq!['y', 'e', 's'],
        ) || is_word(trimmed(s), seq!['o', 'n']),
{
    reveal_strlit("1");
    reveal_strlit("true");
    reveal_strlit("yes");
    reveal_strlit("on");
    let t = trimmed(s);
    lemma_word(t, seq!['1']);
    lemma_word(t, seq!['t', 'r', 'u', 'e']);
    lemma_word(t, seq!['y', 'e', 's']);
    lemma_word(t, seq!['o', 'n']);
    assert("1"@ =~= seq!['1']);
    assert("true"@ =~= seq!['t', 'r', 'u', 'e']);
    assert("yes"@ =~= seq!['y', 'e', 's']);
    assert("on"@ =~= seq!['o', 'n']);
}

/// A text is a word if and only if it is so in small letters.
proof fn lemma_word(s: Seq<char>, w: Seq<char>)
    requires
        forall|i: int| 0 <= i < w.len() ==> 'a' <= #[trigger] w[i] <= 'z' || w[i] == '1',
    ensures
        is_word(s, w) <==> s.map_values(|c: char| lower(c)) == w,
{
    let small = s.map_values(|c: char| lower(c));
    if is_word(s, w) {
        assert forall|i: int| 0 <= i < w.len() implies #[trigger] small[i] == w[i] by {
            assert(s[i] == w[i] || ('A' <= s[i] <= 'Z' && (s[i] as int) + 32 == w[i] as int));
        }
        assert(small =~= w);
    }
    if small == w {
        assert forall|i: int| 0 <= i < w.len() implies #[trigger] s[i] == w[i] || ('A' <= s[i] <= 'Z' && (s[i] as int)
            + 32 == w[i] as int) by {
            assert(small[i] == lower(s[i]));
        }
    }
}

/// Reading the settings fails if and only if something that must be there is missing or something that is there and
/// must be right is wrong, and the error is about the first such thing in this order: the addresses to dial, the
/// number of peers, the switch of discovery, the address to bind, the address to give out, and its two ports.
pub proof fn law_first_fault_of_the_environment_is_told(env: NetworkEnv)
    ensures
        env.dial_addresses is None ==> network_env_error(&env) == Some(ConfigError::MissingDialAddresses),
        env.dial_addresses is Some && env.target_peers is None ==> network_env_error(&env) == Some(
            ConfigError::MissingTargetPeers,
        ),
        env.dial_addresses is Some && (env.target_peers matches Some(n) && uint_value(n@, usize::MAX as nat) is Err)
            ==> network_env_error(&env) == Some(
            ConfigError::InvalidTargetPeers(uint_value(env.target_peers->0@, usize::MAX as nat)->Err_0),
        ),
        env.dial_addresses is Some && (env.target_peers matches Some(n) && uint_value(n@, usize::MAX as nat) is Ok) ==> {
            &&& env.discovery_enabled is None ==> network_env_error(&env) == Some(ConfigError::MissingDiscoveryEnabled)
            &&& env.discovery_enabled matches Some(v) ==> (if v@ != "true"@ && v@ != "false"@ {
                network_env_error(&env) == Some(ConfigError::InvalidDiscoveryEnabled)
            } else {
                network_env_error(&env) == discovery_env_error(&env)
            })
        },
{
}

/// Reading the settings of discovery fails if and only if an address or a port that is set is wrong, and the error is
/// about the first such thing. What is not set is never wrong.
pub proof fn law_first_fault_of_discovery_is_told(env: NetworkEnv)
    ensures
        env.discovery_bind_addr matches Some(Err(e)) ==> discovery_env_error(&env) == Some(ConfigError::InvalidBindAddr(e)),
        !(env.discovery_bind_addr matches Some(Err(_))) ==> {
            &&& env.discovery_enr_address matches Some(Err(e)) ==> discovery_env_error(&env) == Some(
                ConfigError::InvalidEnrAddress(e),
            )
            &&& !(env.discovery_enr_address matches Some(Err(_))) ==> {
                let udp = env.discovery_enr_udp_port;
                let tcp = env.discovery_enr_tcp_port;
                if udp is Some && uint_value(udp->0@, u16::MAX as nat) is Err {
                    discovery_env_error(&env) == Some(
                        ConfigError::InvalidEnrUdpPort(uint_value(udp->0@, u16::MAX as nat)->Err_0),
                    )
                } else if tcp is Some && uint_value(tcp->0@, u16::MAX as nat) is Err {
                    discovery_env_error(&env) == Some(
                        ConfigError::InvalidEnrTcpPort(uint_value(tcp->0@, u16::MAX as nat)->Err_0),
                    )
                } else {
                    discovery_env_error(&env) is None
                }
            }
        },
{
}

/// A port that is read leniently is the number that is set, if that is a number and small enough for a port, and none
/// otherwise.
pub proof fn law_ports_are_read_as_numbers(v: Option<String>, port: u16)
    ensures
        read_as_port(v) == Some(port) <==> (v matches Some(s) && uint_value(s@, u16::MAX as nat) == Ok::<
            nat,
            ParseUintError,
        >(port as nat)),
{
    if let Some(s) = v {
        law_numbers_may_have_one_plus_sign(s@, u16::MAX as nat);
    }
}

/// Each setting of the network is what its own variable says: the parts of the list, the number, the switch, and the
/// ports, if they are any.
pub proof fn law_settings_come_from_their_variables(env: NetworkEnv, c: NetworkConfig)
    requires
        network_env_error(&env) is None,
        c.is_from_env(&env),
    ensures
        string_views(c.dial_addresses@) == comma_list(env.dial_addresses->0@),
        uint_value(env.target_peers->0@, usize::MAX as nat) == Ok::<nat, ParseUintError>(c.target_peers as nat),
        c.discovery_enabled <==> env.discovery_enabled->0@ == "true"@,
        env.udp_port is None ==> c.udp_port is None,
        env.tcp_port is None ==> c.tcp_port is None,
        env.udp_port matches Some(v) ==> (match uint_value(v@, u16::MAX as nat) {
            Ok(n) => c.udp_port matches Some(port) && port == n,
            Err(_) => c.udp_port is None,
        }),
        env.tcp_port matches Some(v) ==> (match uint_value(v@, u16::MAX as nat) {
            Ok(n) => c.tcp_port matches Some(port) && port == n,
            Err(_) => c.tcp_port is None,
        }),
        env.gossipsub_heartbeat_interval_secs is None ==> c.gossipsub_config.heartbeat_interval_secs == 10,
        env.gossipsub_heartbeat_interval_secs matches Some(v) ==> (match uint_value(v@, u64::MAX as nat) {
            Ok(n) => c.gossipsub_config.heartbeat_interval_secs == n,
            Err(_) => c.gossipsub_config.heartbeat_interval_secs == 10,
        }),
{
    reveal_strlit("true");
    reveal_strlit("false");
    assert("true"@.len() != "false"@.len());
    if let Some(v) = env.udp_port {
        law_numbers_may_have_one_plus_sign(v@, u16::MAX as nat);
    }
    if let Some(v) = env.tcp_port {
        law_numbers_may_have_one_plus_sign(v@, u16::MAX as nat);
    }
}

/// Each setting of discovery is what its own variable says, and where the variable is not set, it is on, listens at
/// port 9000 of every interface, gives out nothing, keeps no key and starts from the public boot nodes.
pub proof fn law_settings_of_discovery_come_from_their_variables(env: NetworkEnv, c: DiscoveryConfig)
    requires
        discovery_env_error(&env) is None,
        c.is_from_env(&env),
    ensures
        env.discovery_enabled is None ==> c.enabled,
        env.discovery_enabled matches Some(v) ==> c.enabled == flag_value(v@),
        env.discovery_bind_addr matches Some(Ok(a)) ==> c.udp_bind == a,
        env.discovery_bind_addr is None ==> c.udp_bind.port == 9000 && (c.udp_bind.ip matches IpAddr::V4(a) && a@
            == seq![0u8, 0u8, 0u8, 0u8]),
        env.discovery_enr_address matches Some(Ok(a)) ==> c.enr_address == Some(a),
        env.discovery_enr_address is None ==> c.enr_address is None,
        env.discovery_enr_udp_port is None ==> c.enr_udp_port is None,
        env.discovery_enr_tcp_port is None ==> c.enr_tcp_port is None,
        env.discovery_enr_udp_port matches Some(v) ==> (c.enr_udp_port matches Some(port) && uint_value(
            v@,
            u16::MAX as nat,
        ) == Ok::<nat, ParseUintError>(port as nat)),
        env.discovery_enr_tcp_port matches Some(v) ==> (c.enr_tcp_port matches Some(port) && uint_value(
            v@,
            u16::MAX as nat,
        ) == Ok::<nat, ParseUintError>(port as nat)),
        c.private_key_path == env.discovery_key_path,
        env.discovery_bootnodes matches Some(v) ==> string_views(c.bootnodes@) == comma_list_nonempty(v@),
        env.discovery_bootnodes is None ==> c.bootnodes@.len() == 4 && forall|i: int|
            0 <= i < 4 ==> (#[trigger] c.bootnodes@[i])@ == LIGHTHOUSE_BOOTNODES[i]@,
{
    if let Some(v) = env.discovery_enr_udp_port {
        law_numbers_may_have_one_plus_sign(v@, u16::MAX as nat);
    }
    if let Some(v) = env.discovery_enr_tcp_port {
        law_numbers_may_have_one_plus_sign(v@, u16::MAX as nat);
    }
    if env.discovery_bind_addr is None {
        assert([0u8, 0u8, 0u8, 0u8]@ =~= seq![0u8, 0u8, 0u8, 0u8]);
    }
    if env.discovery_bootnodes is None {
        assert(string_views(c.bootnodes@).len() == 4);
        assert forall|i: int| 0 <= i < 4 implies (#[trigger] c.bootnodes@[i])@ == LIGHTHOUSE_BOOTNODES[i]@ by {
            assert(string_views(c.bootnodes@)[i] == c.bootnodes@[i]@);
        }
    }
}

/// The defaults, setting by setting.
pub proof fn law_defaults(c: NetworkConfig)
    requires
        c.is_default(),
    ensures
        c.dial_addresses@.len() == 0,
        c.gossipsub_config.heartbeat_interval_secs == 10,
        c.target_peers == 10,
        c.discovery_enabled,
        c.udp_port is None,
        c.tcp_port is None,
        c.discovery.enabled,
        c.discovery.udp_bind.port == 9000,
        c.discovery.udp_bind.ip matches IpAddr::V4(a) && a@ == seq![0u8, 0u8, 0u8, 0u8],
        c.discovery.enr_address is None,
        c.discovery.enr_udp_port is None,
        c.discovery.enr_tcp_port is None,
        c.discovery.private_key_path is None,
        c.discovery.bootnodes@.len() == 4,
{
    assert([0u8, 0u8, 0u8, 0u8]@ =~= seq![0u8, 0u8, 0u8, 0u8]);
    assert(string_views(c.discovery.bootnodes@).len() == 4);
}

/// What is said of a wrong address or port ends with what is wrong with it.
pub proof fn law_words_end_with_the_reason(reason: String, e: ParseUintError)
    ensures
        ConfigError::InvalidBindAddr(reason).words().skip(37) == reason@,
        ConfigError::InvalidEnrAddress(reason).words().skip(39) == reason@,
        ConfigError::InvalidEnrUdpPort(e).words().skip(40) == e.words(),
        ConfigError::InvalidEnrTcpPort(e).words().skip(40) == e.words(),
        ConfigError::InvalidTargetPeers(e).words() == e.words(),
{
    reveal_strlit("Invalid NETWORK_DISCOVERY_BIND_ADDR: ");
    reveal_strlit("Invalid NETWORK_DISCOVERY_ENR_ADDRESS: ");
    reveal_strlit("Invalid NETWORK_DISCOVERY_ENR_UDP_PORT: ");
    reveal_strlit("Invalid NETWORK_DISCOVERY_ENR_TCP_PORT: ");
    assert(ConfigError::InvalidBindAddr(reason).words().skip(37) =~= reason@);
    assert(ConfigError::InvalidEnrAddress(reason).words().skip(39) =~= reason@);
    assert(ConfigError::InvalidEnrUdpPort(e).words().skip(40) =~= e.words());
    assert(ConfigError::InvalidEnrTcpPort(e).words().skip(40) =~= e.words());
}

}
