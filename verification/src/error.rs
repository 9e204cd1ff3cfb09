//! What can go wrong in discovery.

use crate::text::{decimal, law_decimal_reads_back, to_decimal, uint_value, ParseUintError};
use vstd::prelude::*;
use vstd::string::*;

verus! {

/// Why discovery cannot go on.
#[derive(Debug, PartialEq)]
pub enum DiscoveryError {
    /// The text of a record is none.
    InvalidEnr { record: String, reason: String },
    /// A record was not taken over.
    AddEnr { record: String, reason: String },
    /// The record of the node itself could not be made.
    BuildEnr(String),
    /// The secret gives no pair of keys.
    InvalidPrivateKey(String),
    /// The secret gives no key for records.
    InvalidEnrKey(String),
    /// The stored secret is not written in hexadecimal digits.
    InvalidKeyHex(String),
    /// The stored secret has another number of bytes than 32.
    KeyLength(usize),
    /// The secret could not be read or stored.
    Storage(String),
}

impl DiscoveryError {
    /// The error in words.
    pub open spec fn words(&self) -> Seq<char> {
        match self {
            DiscoveryError::InvalidEnr { record, reason } => "Invalid ENR "@ + record@ + ": "@ + reason@,
            DiscoveryError::AddEnr { record, reason } => "Failed to add ENR "@ + record@ + ": "@ + reason@,
            DiscoveryError::BuildEnr(reason) => "Unable to build local ENR: "@ + reason@,
            DiscoveryError::InvalidPrivateKey(reason) => "Invalid secp256k1 private key: "@ + reason@,
            DiscoveryError::InvalidEnrKey(reason) => "Invalid secp256k1 key for ENR: "@ + reason@,
            DiscoveryError::InvalidKeyHex(reason) => "Invalid discovery key hex: "@ + reason@,
            DiscoveryError::KeyLength(n) => "Discovery key must be 32 bytes, got "@ + decimal(*n as nat),
            DiscoveryError::Storage(reason) => reason@,
        }
    }

    /// The error in words.
    pub fn message(&self) -> (s: String)
        ensures
            s@ == self.words(),
    {
        match self {
            DiscoveryError::InvalidEnr { record, reason } => "Invalid ENR ".to_string().concat(record.as_str()).concat(
                ": ",
            ).concat(reason.as_str()),
            DiscoveryError::AddEnr { record, reason } => "Failed to add ENR ".to_string().concat(
                record.as_str(),
            ).concat(": ").concat(reason.as_str()),
            DiscoveryError::BuildEnr(reason) => "Unable to build local ENR: ".to_string().concat(reason.as_str()),
            DiscoveryError::InvalidPrivateKey(reason) => "Invalid secp256k1 private key: ".to_string().concat(
                reason.as_str(),
            ),
            DiscoveryError::InvalidEnrKey(reason) => "Invalid secp256k1 key for ENR: ".to_string().concat(
                reason.as_str(),
            ),
            DiscoveryError::InvalidKeyHex(reason) => "Invalid discovery key hex: ".to_string().concat(reason.as_str()),
            DiscoveryError::KeyLength(n) => "Discovery key must be 32 bytes, got ".to_string().concat(
                to_decimal(*n as u64).as_str(),
            ),
            DiscoveryError::Storage(reason) => reason.clone(),
        }
    }
}

/// Whatever the record and the reason are, an error names them: the record first, if it is about one, and the reason
/// last.
pub proof fn law_words_name_record_and_reason(record: String, reason: String, n: usize)
    ensures
        (DiscoveryError::InvalidEnr { record, reason }).words().subrange(12, 12 + record@.len() as int) == record@,
        (DiscoveryError::InvalidEnr { record, reason }).words().skip(14 + record@.len() as int) == reason@,
        (DiscoveryError::AddEnr { record, reason }).words().subrange(18, 18 + record@.len() as int) == record@,
        (DiscoveryError::AddEnr { record, reason }).words().skip(20 + record@.len() as int) == reason@,
        DiscoveryError::BuildEnr(reason).words().skip(27) == reason@,
        DiscoveryError::InvalidPrivateKey(reason).words().skip(31) == reason@,
        DiscoveryError::InvalidEnrKey(reason).words().skip(31) == reason@,
        DiscoveryError::InvalidKeyHex(reason).words().skip(27) == reason@,
        uint_value(DiscoveryError::KeyLength(n).words().skip(36), usize::MAX as nat) == Ok::<nat, ParseUintError>(
            n as nat,
        ),
        DiscoveryError::Storage(reason).words() == reason@,
{
    reveal_strlit("Invalid ENR ");
    reveal_strlit("Failed to add ENR ");
    reveal_strlit(": ");
    reveal_strlit("Unable to build local ENR: ");
    reveal_strlit("Invalid secp256k1 private key: ");
    reveal_strlit("Invalid secp256k1 key for ENR: ");
    reveal_strlit("Invalid discovery key hex: ");
    reveal_strlit("Discovery key must be 32 bytes, got ");
    assert((DiscoveryError::InvalidEnr { record, reason }).words().subrange(12, 12 + record@.len() as int) =~= record@);
    assert((DiscoveryError::InvalidEnr { record, reason }).words().skip(14 + record@.len() as int) =~= reason@);
    assert((DiscoveryError::AddEnr { record, reason }).words().subrange(18, 18 + record@.len() as int) =~= record@);
    assert((DiscoveryError::AddEnr { record, reason }).words().skip(20 + record@.len() as int) =~= reason@);
    assert(DiscoveryError::BuildEnr(reason).words().skip(27) =~= reason@);
    assert(DiscoveryError::InvalidPrivateKey(reason).words().skip(31) =~= reason@);
    assert(DiscoveryError::InvalidEnrKey(reason).words().skip(31) =~= reason@);
    assert(DiscoveryError::InvalidKeyHex(reason).words().skip(27) =~= reason@);
    law_decimal_reads_back(n as nat, usize::MAX as nat);
    assert(DiscoveryError::KeyLength(n).words().skip(36) =~= decimal(n as nat));
}

}
