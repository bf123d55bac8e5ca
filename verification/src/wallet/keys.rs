//! Spending keys, viewing keys and addresses.

use crate::encoding::{hex_bytes, hex_decode};
use orchard::keys::{FullViewingKey, IncomingViewingKey, OutgoingViewingKey, PreparedIncomingViewingKey, Scope, SpendingKey};
use vstd::prelude::*;
use zakura_chain::parameters::Network;
use zcash_keys::address::{Address, UnifiedAddress};

verus! {

/// `zakura_chain`'s parameters of a network.
#[verifier::external_type_specification]
#[verifier::external_body]
pub struct ExNetwork(Network);

/// `orchard`'s spending key.
#[verifier::external_type_specification]
#[verifier::external_body]
pub struct ExSpendingKey(SpendingKey);

/// `orchard`'s full viewing key.
#[verifier::external_type_specification]
#[verifier::external_body]
pub struct ExFullViewingKey(FullViewingKey);

/// `orchard`'s incoming viewing key.
#[verifier::external_type_specification]
#[verifier::external_body]
pub struct ExIncomingViewingKey(IncomingViewingKey);

/// `orchard`'s incoming viewing key, prepared for trial decryption.
#[verifier::external_type_specification]
#[verifier::external_body]
pub struct ExPreparedIncomingViewingKey(PreparedIncomingViewingKey);

/// `orchard`'s outgoing viewing key.
#[verifier::external_type_specification]
#[verifier::external_body]
pub struct ExOutgoingViewingKey(OutgoingViewingKey);

/// `orchard`'s payment address.
#[verifier::external_type_specification]
#[verifier::external_body]
pub struct ExOrchardAddress(orchard::Address);

/// The spending key that 32 bytes encode, if they encode one.
pub uninterp spec fn spending_key(bytes: Seq<u8>) -> Option<SpendingKey>;

/// Calls `SpendingKey::from_bytes` of `orchard`. Few byte strings encode no key;
/// which ones is not said.
#[verifier::external_body]
fn read_spending_key(bytes: [u8; 32]) -> (key: Option<SpendingKey>)
    ensures
        key == spending_key(bytes@),
{
    Option::from(SpendingKey::from_bytes(bytes))
}

/// The full viewing key of a spending key.
pub uninterp spec fn viewing_key(key: SpendingKey) -> FullViewingKey;

/// Calls `FullViewingKey::from` of `orchard`, which derives the viewing key from the
/// spending key.
#[verifier::external_body]
pub(crate) fn full_viewing_key(key: &SpendingKey) -> (fvk: FullViewingKey)
    ensures
        fvk == viewing_key(*key),
{
    FullViewingKey::from(key)
}

/// The incoming viewing key of the external scope.
pub uninterp spec fn external_incoming_key(key: FullViewingKey) -> IncomingViewingKey;

/// Calls `to_ivk` of `orchard` for the external scope.
#[verifier::external_body]
fn to_incoming_key(key: &FullViewingKey) -> (ivk: IncomingViewingKey)
    ensures
        ivk == external_incoming_key(*key),
{
    key.to_ivk(Scope::External)
}

/// An incoming viewing key, prepared for trial decryption.
pub uninterp spec fn prepared_key(key: IncomingViewingKey) -> PreparedIncomingViewingKey;

/// Calls `PreparedIncomingViewingKey::new` of `orchard`.
#[verifier::external_body]
fn prepare_key(key: &IncomingViewingKey) -> (prepared: PreparedIncomingViewingKey)
    ensures
        prepared == prepared_key(*key),
{
    PreparedIncomingViewingKey::new(key)
}

/// The incoming viewing key of the external scope, prepared for trial decryption.
pub open spec fn incoming_key(key: FullViewingKey) -> PreparedIncomingViewingKey {
    prepared_key(external_incoming_key(key))
}

pub(crate) fn incoming_viewing_key(key: &FullViewingKey) -> (ivk: PreparedIncomingViewingKey)
    ensures
        ivk == incoming_key(*key),
{
    prepare_key(&to_incoming_key(key))
}

/// The outgoing viewing key of the external scope.
pub uninterp spec fn outgoing_key(key: FullViewingKey) -> OutgoingViewingKey;

/// Calls `to_ovk` of `orchard` for the external scope.
#[verifier::external_body]
pub(crate) fn outgoing_viewing_key(key: &FullViewingKey) -> (ovk: OutgoingViewingKey)
    ensures
        ovk == outgoing_key(*key),
{
    key.to_ovk(Scope::External)
}

/// The first address of the external scope.
pub uninterp spec fn first_address(key: FullViewingKey) -> orchard::Address;

/// Calls `address_at` of `orchard` for index zero of the external scope.
#[verifier::external_body]
pub(crate) fn external_address(key: &FullViewingKey) -> (address: orchard::Address)
    ensures
        address == first_address(*key),
{
    key.address_at(0u32, Scope::External)
}

/// The unified address of a network that holds one receiver.
pub uninterp spec fn unified_text(address: orchard::Address, net: Network) -> Seq<char>;

/// What a text stands for as an address of a network: nothing where it is no unified
/// address, and otherwise its Orchard receiver, if it has one.
pub uninterp spec fn unified_receiver(text: Seq<char>, net: Network) -> Option<Option<orchard::Address>>;

/// Calls `UnifiedAddress::from_receivers` of `zcash_keys` with the one receiver and
/// `encode` on the result. A shielded receiver makes a valid unified address, and
/// decoding its text for the same network gives back the receiver.
#[verifier::external_body]
fn write_address(address: orchard::Address, net: &Network) -> (text: Option<String>)
    ensures
        text is Some,
        text->0@ == unified_text(address, *net),
        unified_receiver(text->0@, *net) == Some(Some(address)),
{
    UnifiedAddress::from_receivers(Some(address), None, None).map(|ua| ua.encode(net))
}

/// Calls `Address::decode` of `zcash_keys`, and asks a unified address for its
/// Orchard receiver.
#[verifier::external_body]
fn read_address(text: &str, net: &Network) -> (read: Option<Option<orchard::Address>>)
    ensures
        read == unified_receiver(text@, *net),
{
    match Address::decode(net, text) {
        Some(Address::Unified(ua)) => Some(ua.orchard().copied()),
        _ => None,
    }
}

/// The raw encoding of an address.
pub uninterp spec fn address_bytes(address: orchard::Address) -> Seq<u8>;

/// Calls `to_raw_address_bytes` of `orchard`.
#[verifier::external_body]
pub(crate) fn raw_address(address: &orchard::Address) -> (bytes: [u8; 43])
    ensures
        bytes@ == address_bytes(*address),
{
    address.to_raw_address_bytes()
}

/// The bytes as an array, where there are 32 of them.
pub fn thirty_two(bytes: &Vec<u8>) -> (array: Option<[u8; 32]>)
    ensures
        match array {
            Some(a) => a@ == bytes@,
            None => bytes@.len() != 32,
        },
{
    if bytes.len() != 32 {
        return None;
    }
    let mut array: [u8; 32] = [0u8; 32];
    let mut i: usize = 0;
    while i < 32
        invariant
            i <= 32,
            bytes@.len() == 32,
            forall|k: int| 0 <= k < i ==> array@[k] == bytes@[k],
        decreases 32 - i,
    {
        array[i] = bytes[i];
        i += 1;
    }
    assert(array@ =~= bytes@);
    Some(array)
}

/// Why a seed is no spending key.
#[derive(Debug, PartialEq)]
pub enum KeyError {
    /// It is not hexadecimal.
    Hex(String),
    /// It does not have 32 bytes.
    Length,
    /// Its bytes encode no spending key.
    Invalid,
}

impl KeyError {
    /// The error in words.
    pub fn message(&self) -> (text: String)
        ensures
            match *self {
                KeyError::Hex(words) => text@ == words@,
                KeyError::Length => text@ == "seed must be 32 bytes"@,
                KeyError::Invalid => text@ == "invalid spending key"@,
            },
    {
        match self {
            KeyError::Hex(words) => words.clone(),
            KeyError::Length => "seed must be 32 bytes".to_string(),
            KeyError::Invalid => "invalid spending key".to_string(),
        }
    }
}

/// The spending key that a hexadecimal seed stands for.
pub open spec fn seed_key(seed: Seq<char>) -> Option<SpendingKey> {
    match hex_bytes(seed) {
        Some(bytes) => if bytes.len() == 32 {
            spending_key(bytes)
        } else {
            None
        },
        None => None,
    }
}

/// Whether a seed has no key, and an error is the reason for it.
pub open spec fn is_key_error(e: KeyError, seed: Seq<char>) -> bool {
    &&& seed_key(seed) is None
    &&& e is Hex <==> hex_bytes(seed) is None
    &&& e is Length <==> hex_bytes(seed) is Some && hex_bytes(seed)->0.len() != 32
}

/// The message of a seed without a key, where the library has one.
pub open spec fn key_message(seed: Seq<char>) -> Option<Seq<char>> {
    match hex_bytes(seed) {
        Some(bytes) => if bytes.len() != 32 {
            Some("seed must be 32 bytes"@)
        } else {
            Some("invalid spending key"@)
        },
        None => None,
    }
}

/// Reads the spending key of a seed.
pub fn key(seed: &str) -> (sk: Result<SpendingKey, KeyError>)
    ensures
        match sk {
            Ok(sk) => seed_key(seed@) == Some(sk),
            Err(e) => is_key_error(e, seed@),
        },
{
    match hex_decode(seed) {
        Ok(bytes) => match thirty_two(&bytes) {
            Some(array) => match read_spending_key(array) {
                Some(sk) => Ok(sk),
                None => Err(KeyError::Invalid),
            },
            None => Err(KeyError::Length),
        },
        Err(words) => Err(KeyError::Hex(words)),
    }
}

/// The address at which a seed receives payments.
pub open spec fn seed_address(seed: Seq<char>) -> Option<orchard::Address> {
    match seed_key(seed) {
        Some(sk) => Some(first_address(viewing_key(sk))),
        None => None,
    }
}

/// The unified address at which a seed receives payments. It is read back as the
/// receiver of the seed.
pub fn address(seed: &str, net: &Network) -> (text: Result<String, KeyError>)
    ensures
        match text {
            Ok(text) => {
                &&& seed_address(seed@) is Some
                &&& text@ == unified_text(seed_address(seed@)->0, *net)
                &&& unified_receiver(text@, *net) == Some(seed_address(seed@))
            },
            Err(e) => is_key_error(e, seed@),
        },
{
    match key(seed) {
        Ok(sk) => match write_address(external_address(&full_viewing_key(&sk)), net) {
            Some(text) => Ok(text),
            None => Err(KeyError::Invalid),
        },
        Err(e) => Err(e),
    }
}

/// Why an address cannot receive a payment.
#[derive(Debug, PartialEq)]
pub enum ReceiverError {
    /// It is no unified address of the network.
    NotUnified,
    /// It has no receiver that can hold Ironwood notes.
    NoReceiver,
}

impl ReceiverError {
    /// The error in words.
    pub fn message(&self) -> (text: &'static str)
        ensures
            text@ == match *self {
                ReceiverError::NotUnified => "unified address required"@,
                ReceiverError::NoReceiver => "Ironwood receiver required"@,
            },
    {
        match self {
            ReceiverError::NotUnified => "unified address required",
            ReceiverError::NoReceiver => "Ironwood receiver required",
        }
    }
}

/// The receiver of a unified address, or why it has none.
pub open spec fn receiver_spec(text: Seq<char>, net: Network) -> Result<orchard::Address, ReceiverError> {
    match unified_receiver(text, net) {
        Some(Some(address)) => Ok(address),
        Some(None) => Err(ReceiverError::NoReceiver),
        None => Err(ReceiverError::NotUnified),
    }
}

/// Reads the receiver of a unified address.
pub fn receiver(address: &str, net: &Network) -> (read: Result<orchard::Address, ReceiverError>)
    ensures
        read == receiver_spec(address@, *net),
{
    match read_address(address, net) {
        Some(Some(receiver)) => Ok(receiver),
        Some(None) => Err(ReceiverError::NoReceiver),
        None => Err(ReceiverError::NotUnified),
    }
}

/// Whoever pays to the address that the service publishes pays to its own receiver.
pub proof fn law_published_address_is_received(seed: Seq<char>, net: Network, text: Seq<char>)
    requires
        seed_address(seed) is Some,
        unified_receiver(text, net) == Some(seed_address(seed)),
    ensures
        receiver_spec(text, net) == Ok::<orchard::Address, ReceiverError>(seed_address(seed)->0),
{
}

} // verus!
