//! How gossiped messages are told apart.

use crate::config::GossipsubConfig;
use crate::outside::{
    gossip_config, gossip_heartbeat_secs, gossip_message_id, gossip_validation, hash_bytes, hash_fed,
};
use crate::text::{decimal, law_decimal_reads_back, to_decimal, uint_value, ParseUintError};
use libp2p::{gossipsub, PeerId};
use std::collections::hash_map::DefaultHasher;
use std::hash::Hasher;
use vstd::endian::endianness;
use vstd::prelude::*;
use vstd::std_specs::hash::DefaultHasherAdditionalSpecFns;

verus! {

/// Which messages are taken for valid.
#[derive(Debug, Clone, Copy, PartialEq, Eq, Structural)]
pub enum GossipValidation {
    /// Those with an author, a number and a signature, if all are good.
    Strict,
    /// Those whose author, number and signature are good, as far as they are there.
    Permissive,
    /// Those without author, number and signature.
    Anonymous,
    /// All.
    Unchecked,
}

/// The identity of a message whose content has a given hash.
pub fn message_id(hash: u64) -> (id: String)
    ensures
        id@ == decimal(hash as nat),
{
    to_decimal(hash)
}

/// The identity of a message by its content: what a new hash gives when it was fed with the content.
pub open spec fn content_id(data: Seq<u8>) -> Seq<char> {
    decimal(DefaultHasher::spec_finish(hash_fed(Seq::empty(), data, usize::BITS, endianness())) as nat)
}

/// Messages are told apart by content, whatever their author, their number and their topic.
pub open spec fn is_content_addressed(c: gossipsub::Config) -> bool {
    forall|a: Option<PeerId>, data: Seq<u8>, m: Option<u64>, t: Seq<char>| #[trigger]
        gossip_message_id(c, a, data, m, t) == content_id(data)
}

/// The settings have the heartbeat of the configuration, let only signed messages pass, and tell them apart by content.
pub open spec fn is_built_for(c: gossipsub::Config, gossipsub_config: GossipsubConfig) -> bool {
    &&& gossip_heartbeat_secs(c) == gossipsub_config.heartbeat_interval_secs
    &&& gossip_validation(c) == GossipValidation::Strict
    &&& is_content_addressed(c)
}

/// The identity of a message by its content: the hash of the content.
pub fn content_message_id(data: &Vec<u8>) -> (id: String)
    ensures
        id@ == content_id(data@),
{
    let mut s = DefaultHasher::new();
    hash_bytes(data, &mut s);
    message_id(s.finish())
}

/// Gossip with the heartbeat of the configuration. Messages must be signed, and are told apart by content.
pub fn build_gossipsub_config(gossipsub_config: &GossipsubConfig) -> (r: Result<gossipsub::Config, String>)
    ensures
        r matches Ok(c) && is_built_for(c, *gossipsub_config),
{
    gossip_config(gossipsub_config.heartbeat_interval_secs, GossipValidation::Strict)
}

/// Messages have the same identity if and only if their contents have the same hash.
pub proof fn law_identity_tells_hashes_apart(a: u64, b: u64)
    ensures
        decimal(a as nat) == decimal(b as nat) <==> a == b,
{
    law_decimal_reads_back(a as nat, u64::MAX as nat);
    law_decimal_reads_back(b as nat, u64::MAX as nat);
}

/// Two messages of the same content have the same identity, whatever else they hold, and whichever of such settings
/// give it.
pub proof fn law_same_content_has_the_same_identity(
    c: gossipsub::Config,
    d: gossipsub::Config,
    a: Option<PeerId>,
    b: Option<PeerId>,
    data: Seq<u8>,
    m: Option<u64>,
    n: Option<u64>,
    t: Seq<char>,
    u: Seq<char>,
)
    requires
        is_content_addressed(c),
        is_content_addressed(d),
    ensures
        gossip_message_id(c, a, data, m, t) == gossip_message_id(d, b, data, n, u),
{
}

/// The heartbeat is the one that is set, whichever that is, and only messages that are signed pass.
pub proof fn law_gossip_settings_are_taken_over(c: gossipsub::Config, secs: u64)
    requires
        is_built_for(c, GossipsubConfig { heartbeat_interval_secs: secs }),
    ensures
        gossip_heartbeat_secs(c) == secs,
        gossip_validation(c) == GossipValidation::Strict,
{
}

/// The identity of a message is the hash of its whole content, which reads back from it as a number. So two contents
/// have the same identity if and only if they have the same hash.
pub proof fn law_identity_is_the_hash_of_the_content(
    c: gossipsub::Config,
    config: GossipsubConfig,
    a: Option<PeerId>,
    data: Seq<u8>,
    m: Option<u64>,
    t: Seq<char>,
)
    requires
        is_built_for(c, config),
    ensures
        uint_value(gossip_message_id(c, a, data, m, t), u64::MAX as nat) == Ok::<nat, ParseUintError>(
            DefaultHasher::spec_finish(hash_fed(Seq::empty(), data, usize::BITS, endianness())) as nat,
        ),
        gossip_message_id(c, a, data, m, t) == content_id(data),
{
    law_decimal_reads_back(
        DefaultHasher::spec_finish(hash_fed(Seq::empty(), data, usize::BITS, endianness())) as nat,
        u64::MAX as nat,
    );
}

}
