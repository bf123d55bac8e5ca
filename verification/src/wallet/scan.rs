//! What a transaction pays: trial decryption with a viewing key, and the public
//! recovery of coinbase outputs.

use crate::amount::{sum, total};
use crate::encoding::{hex_encode, hex_text};
use crate::text::texts;
use crate::transaction::{Block, BlockView, Tx};
use crate::wallet::keys::{
    address_bytes, full_viewing_key, incoming_key, incoming_viewing_key, is_key_error, key, key_message, raw_address, receiver,
    receiver_spec, seed_key, viewing_key, KeyError,
};
use orchard::keys::{FullViewingKey, OutgoingViewingKey, PreparedIncomingViewingKey};
use orchard::note_encryption::IronwoodDomain;
use orchard::tree::MerkleHashOrchard;
use vstd::hash_set::StringHashSet;
use vstd::prelude::*;
use zakura_chain::parameters::Network;
use zcash_primitives::transaction::Transaction;
use zcash_protocol::consensus::{BlockHeight, BranchId};

verus! {

/// `zcash_primitives`'s transaction.
#[verifier::external_type_specification]
#[verifier::external_body]
pub struct ExTransaction(Transaction);

/// `orchard`'s note.
#[verifier::external_type_specification]
#[verifier::external_body]
pub struct ExNote(orchard::Note);

/// `orchard`'s node of a note commitment tree.
#[verifier::external_type_specification]
#[verifier::external_body]
pub struct ExMerkleHashOrchard(MerkleHashOrchard);

/// The transaction that `zcash_primitives` reads from the start of a byte string
/// under the rules of a height.
pub uninterp spec fn parsed_transaction(bytes: Seq<u8>, net: Network, height: u32) -> Option<Transaction>;

/// Calls `Transaction::read` of `zcash_primitives` with the branch that
/// `BranchId::for_height` of `zcash_protocol` gives for the height. Nothing is
/// claimed of the words in which it rejects a byte string.
#[verifier::external_body]
fn read_parsed(bytes: &[u8], net: &Network, height: u32) -> (tx: Result<Transaction, String>)
    ensures
        match tx {
            Ok(tx) => parsed_transaction(bytes@, *net, height) == Some(tx),
            Err(_) => parsed_transaction(bytes@, *net, height) is None,
        },
{
    let branch = BranchId::for_height(net, BlockHeight::from_u32(height));
    Transaction::read(bytes, branch).map_err(|e| e.to_string())
}

/// The leaves that the Ironwood actions of a transaction add to the note commitment
/// tree, in order.
pub uninterp spec fn ironwood_leaves(tx: Transaction) -> Seq<MerkleHashOrchard>;

/// Asks the Ironwood bundle of the transaction for its actions, and makes a leaf of
/// the commitment of each with `MerkleHashOrchard::from_cmx`. A transaction without
/// such a bundle has none.
#[verifier::external_body]
pub(crate) fn commitment_leaves(tx: &Transaction) -> (leaves: Vec<MerkleHashOrchard>)
    ensures
        leaves@ == ironwood_leaves(*tx),
{
    let actions = tx.ironwood_bundle().map(|bundle| bundle.actions());
    actions.into_iter().flatten().map(|action| MerkleHashOrchard::from_cmx(action.cmx())).collect()
}

/// The note that an Ironwood action of a transaction pays to a key, if it pays one.
pub uninterp spec fn decrypted_note(tx: Transaction, index: int, key: PreparedIncomingViewingKey) -> Option<orchard::Note>;

/// Calls `try_note_decryption` of `zcash_note_encryption` on one Ironwood action.
#[verifier::external_body]
pub(crate) fn decrypt_note(tx: &Transaction, index: usize, key: &PreparedIncomingViewingKey) -> (note: Option<orchard::Note>)
    requires
        index < ironwood_leaves(*tx).len(),
    ensures
        note == decrypted_note(*tx, index as int, *key),
{
    let action = &tx.ironwood_bundle()?.actions()[index];
    zcash_note_encryption::try_note_decryption(&IronwoodDomain::for_action(action), key, action).map(|found| found.0)
}

/// The value and the raw address of the output that an outgoing viewing key recovers
/// from an Ironwood action of a transaction, if it recovers one.
pub uninterp spec fn recovered_output(tx: Transaction, index: int, key: Seq<u8>) -> Option<(u64, Seq<u8>)>;

/// Calls `try_output_recovery_with_ovk` of `zcash_note_encryption` on one Ironwood
/// action.
#[verifier::external_body]
pub(crate) fn recover_output(tx: &Transaction, index: usize, key: [u8; 32]) -> (output: Option<(u64, [u8; 43])>)
    requires
        index < ironwood_leaves(*tx).len(),
    ensures
        match output {
            Some((value, address)) => recovered_output(*tx, index as int, key@) == Some((value, address@)),
            None => recovered_output(*tx, index as int, key@) is None,
        },
{
    let action = &tx.ironwood_bundle()?.actions()[index];
    let (domain, ovk) = (IronwoodDomain::for_action(action), OutgoingViewingKey::from(key));
    let out = &action.encrypted_note().out_ciphertext;
    zcash_note_encryption::try_output_recovery_with_ovk(&domain, &ovk, action, action.cv_net(), out)
        .map(|(note, address, _)| (note.value().inner(), address.to_raw_address_bytes()))
}

/// The value of a note.
pub uninterp spec fn note_value(note: orchard::Note) -> u64;

/// Calls `value` of `orchard`'s note.
#[verifier::external_body]
pub(crate) fn value_of(note: &orchard::Note) -> (value: u64)
    ensures
        value == note_value(*note),
{
    note.value().inner()
}

/// The nullifier that spending a note reveals.
pub uninterp spec fn note_nullifier(note: orchard::Note, key: FullViewingKey) -> Seq<u8>;

/// Calls `nullifier` of `orchard`'s note.
#[verifier::external_body]
pub(crate) fn nullifier_of(note: &orchard::Note, key: &FullViewingKey) -> (nullifier: [u8; 32])
    ensures
        nullifier@ == note_nullifier(*note, *key),
{
    note.nullifier(key).to_bytes()
}

/// Reads a transaction again, under the rules of a height, to look into its actions.
pub(crate) fn parse(tx: &Tx, net: &Network, height: u32) -> (parsed: Result<Transaction, String>)
    ensures
        match parsed {
            Ok(parsed) => parsed_transaction(tx.bytes@, *net, height) == Some(parsed),
            Err(_) => parsed_transaction(tx.bytes@, *net, height) is None,
        },
{
    read_parsed(tx.bytes.as_slice(), net, height)
}

/// The values of the notes that the first `n` Ironwood actions of a transaction pay
/// to a key.
pub open spec fn received_values(tx: Transaction, key: PreparedIncomingViewingKey, n: nat) -> Seq<u64>
    decreases n,
{
    if n == 0 {
        Seq::empty()
    } else {
        let before = received_values(tx, key, (n - 1) as nat);
        match decrypted_note(tx, n - 1, key) {
            Some(note) => before.push(note_value(note)),
            None => before,
        }
    }
}

/// Why the amount that a transaction pays to a seed is unknown.
#[derive(Debug, PartialEq)]
pub enum ReceivedError {
    /// The seed has no key.
    Key(KeyError),
    /// The transaction cannot be read at the height.
    Malformed(String),
    /// The amount does not fit.
    Overflow,
}

impl ReceivedError {
    /// The error in words.
    pub fn message(&self) -> (text: String)
        ensures
            match *self {
                ReceivedError::Malformed(words) => text@ == words@,
                ReceivedError::Overflow => text@ == "amount overflow"@,
                ReceivedError::Key(KeyError::Hex(words)) => text@ == words@,
                ReceivedError::Key(KeyError::Length) => text@ == "seed must be 32 bytes"@,
                ReceivedError::Key(KeyError::Invalid) => text@ == "invalid spending key"@,
            },
    {
        match self {
            ReceivedError::Key(e) => e.message(),
            ReceivedError::Malformed(words) => words.clone(),
            ReceivedError::Overflow => "amount overflow".to_string(),
        }
    }
}

/// The values of the notes that a transaction, given by its bytes, pays to a seed,
/// where the seed has a key and the transaction can be read at the height.
pub open spec fn payments_to(bytes: Seq<u8>, seed: Seq<char>, net: Network, height: u32) -> Option<Seq<u64>> {
    match (seed_key(seed), parsed_transaction(bytes, net, height)) {
        (Some(sk), Some(parsed)) => Some(
            received_values(parsed, incoming_key(viewing_key(sk)), ironwood_leaves(parsed).len()),
        ),
        _ => None,
    }
}

/// Whether an error is the reason for which the amount that a transaction, given by its
/// bytes, pays to a seed is unknown.
pub open spec fn is_received_error(e: ReceivedError, bytes: Seq<u8>, seed: Seq<char>, net: Network, height: u32) -> bool {
    match e {
        ReceivedError::Key(e) => is_key_error(e, seed),
        ReceivedError::Malformed(_) => seed_key(seed) is Some && parsed_transaction(bytes, net, height) is None,
        ReceivedError::Overflow => {
            &&& payments_to(bytes, seed, net, height) is Some
            &&& sum(payments_to(bytes, seed, net, height)->0) > u64::MAX
        },
    }
}

/// The message of an unknown amount, where the library has one.
pub open spec fn received_message(bytes: Seq<u8>, seed: Seq<char>, net: Network, height: u32) -> Option<Seq<char>> {
    if seed_key(seed) is None {
        key_message(seed)
    } else if parsed_transaction(bytes, net, height) is None {
        None
    } else {
        Some("amount overflow"@)
    }
}

/// Adds up what the Ironwood outputs of a transaction pay to a seed.
pub fn received(tx: &Tx, seed: &str, net: &Network, height: u32) -> (amount: Result<u64, ReceivedError>)
    ensures
        match amount {
            Ok(amount) => {
                &&& payments_to(tx.bytes@, seed@, *net, height) is Some
                &&& amount == sum(payments_to(tx.bytes@, seed@, *net, height)->0)
            },
            Err(e) => is_received_error(e, tx.bytes@, seed@, *net, height),
        },
{
    let sk = match key(seed) {
        Ok(sk) => sk,
        Err(e) => {
            return Err(ReceivedError::Key(e));
        },
    };
    let ivk = incoming_viewing_key(&full_viewing_key(&sk));
    let parsed = match parse(tx, net, height) {
        Ok(parsed) => parsed,
        Err(words) => {
            return Err(ReceivedError::Malformed(words));
        },
    };
    let leaves = commitment_leaves(&parsed);
    let mut values: Vec<u64> = Vec::new();
    let mut i: usize = 0;
    while i < leaves.len()
        invariant
            i <= leaves.len(),
            leaves@ == ironwood_leaves(parsed),
            values@ == received_values(parsed, ivk, i as nat),
        decreases leaves.len() - i,
    {
        if let Some(note) = decrypt_note(&parsed, i, &ivk) {
            values.push(value_of(&note));
        }
        i += 1;
    }
    match total(&values) {
        Some(amount) => Ok(amount),
        None => Err(ReceivedError::Overflow),
    }
}

/// Whether the public outgoing viewing key recovers, from one of the first `n`
/// Ironwood actions of a transaction, an output of some value to an address with this
/// hexadecimal text.
pub open spec fn pays_publicly(tx: Transaction, n: int, text: Seq<char>) -> bool {
    exists|i: int|
        0 <= i < n && (#[trigger] recovered_output(tx, i, public_key_bytes())) is Some && (recovered_output(
            tx,
            i,
            public_key_bytes(),
        )->0).0 > 0 && hex_text((recovered_output(tx, i, public_key_bytes())->0).1) == text
}

/// The outgoing viewing key with which coinbase outputs are made: all zeros.
pub open spec fn public_key_bytes() -> Seq<u8> {
    Seq::new(32, |i: int| 0u8)
}

/// Why the recipients of a block are unknown.
#[derive(Debug, PartialEq)]
pub enum CoinbaseError {
    /// The block has no coinbase transaction, and so no height.
    Height,
    /// Its coinbase transaction cannot be read.
    Malformed(String),
}

impl CoinbaseError {
    /// The error in words.
    pub fn message(&self) -> (text: String)
        ensures
            match *self {
                CoinbaseError::Height => text@ == "height"@,
                CoinbaseError::Malformed(words) => text@ == words@,
            },
    {
        match self {
            CoinbaseError::Height => "height".to_string(),
            CoinbaseError::Malformed(words) => words.clone(),
        }
    }
}

/// The coinbase transaction of a block, where it has one that can be read.
pub open spec fn coinbase(block: BlockView, net: Network) -> Option<Transaction> {
    if block.height is Some && block.transactions.len() > 0 {
        parsed_transaction(block.transactions[0].bytes, net, block.height->0)
    } else {
        None
    }
}

/// Finds the addresses, in hexadecimal, to which the coinbase transaction of a block
/// publicly pays an amount.
pub fn coinbase_receivers(block: &Block, net: &Network) -> (recipients: Result<StringHashSet, CoinbaseError>)
    ensures
        match recipients {
            Ok(recipients) => {
                &&& coinbase(block@, *net) is Some
                &&& forall|text: Seq<char>| #[trigger]
                    recipients@.contains(text) <==> pays_publicly(
                        coinbase(block@, *net)->0,
                        ironwood_leaves(coinbase(block@, *net)->0).len() as int,
                        text,
                    )
            },
            Err(e) => {
                &&& coinbase(block@, *net) is None
                &&& e is Height <==> block.height is None || block.transactions@.len() == 0
            },
        },
{
    let height = match block.height {
        Some(height) => height,
        None => {
            return Err(CoinbaseError::Height);
        },
    };
    if block.transactions.len() == 0 {
        return Err(CoinbaseError::Height);
    }
    assert(block@.transactions[0] == block.transactions@[0]@);
    let parsed = match parse(&block.transactions[0], net, height) {
        Ok(parsed) => parsed,
        Err(words) => {
            return Err(CoinbaseError::Malformed(words));
        },
    };
    let leaves = commitment_leaves(&parsed);
    let zeros: [u8; 32] = [0u8; 32];
    assert(zeros@ =~= public_key_bytes());
    let mut recipients = StringHashSet::new();
    let mut i: usize = 0;
    while i < leaves.len()
        invariant
            i <= leaves.len(),
            leaves@ == ironwood_leaves(parsed),
            zeros@ == public_key_bytes(),
            forall|text: Seq<char>| #[trigger] recipients@.contains(text) <==> pays_publicly(parsed, i as int, text),
        decreases leaves.len() - i,
    {
        let ghost before = recipients@;
        let output = recover_output(&parsed, i, zeros);
        if let Some((value, address)) = output {
            if value > 0 {
                recipients.insert(hex_encode(address.as_slice()));
            }
        }
        assert forall|text: Seq<char>| #[trigger] recipients@.contains(text) <==> pays_publicly(parsed, i + 1, text) by {
            if before.contains(text) {
                assert(pays_publicly(parsed, i as int, text));
            }
            if pays_publicly(parsed, i + 1, text) && !pays_publicly(parsed, i as int, text) {
                assert(recovered_output(parsed, i as int, public_key_bytes()) is Some);
            }
            if recipients@.contains(text) && !before.contains(text) {
                assert(recovered_output(parsed, i as int, public_key_bytes()) is Some);
            }
        }
        i += 1;
    }
    Ok(recipients)
}

/// Whether an address of the list of miners is one of the recipients.
pub open spec fn is_paid(miner: Seq<char>, recipients: Set<Seq<char>>, net: Network) -> bool {
    receiver_spec(miner, net) matches Ok(address) && recipients.contains(hex_text(address_bytes(address)))
}

/// The one miner among the recipients of a block. A block that pays none of them, or
/// more than one, is not attributed.
pub open spec fn attributed(miners: Seq<Seq<char>>, recipients: Set<Seq<char>>, net: Network) -> Option<Seq<char>> {
    let paid = miners.filter(|miner: Seq<char>| is_paid(miner, recipients, net));
    if paid.len() == 1 {
        Some(paid[0])
    } else {
        None
    }
}

/// Attributes a block to the one configured miner that it pays.
pub fn attribute(miners: &Vec<String>, recipients: &StringHashSet, net: &Network) -> (miner: Option<String>)
    ensures
        miner is Some == attributed(texts(miners@), recipients@, *net) is Some,
        miner is Some ==> miner->0@ == attributed(texts(miners@), recipients@, *net)->0,
{
    let ghost paid = |miner: Seq<char>| is_paid(miner, recipients@, *net);
    let ghost all = texts(miners@);
    let mut found: Vec<String> = Vec::new();
    let mut i: usize = 0;
    assert(texts(found@) =~= all.take(0).filter(paid)) by {
        reveal(Seq::filter);
    }
    while i < miners.len()
        invariant
            i <= miners.len(),
            all == texts(miners@),
            paid == (|miner: Seq<char>| is_paid(miner, recipients@, *net)),
            texts(found@) == all.take(i as int).filter(paid),
        decreases miners.len() - i,
    {
        proof {
            reveal(Seq::filter);
            assert(all.take(i + 1).drop_last() =~= all.take(i as int));
            assert(all.take(i + 1).last() == miners@[i as int]@);
        }
        let ghost before = found@;
        if let Ok(address) = receiver(miners[i].as_str(), net) {
            if recipients.contains(hex_encode(raw_address(&address).as_slice()).as_str()) {
                found.push(miners[i].clone());
                assert(texts(found@) =~= texts(before).push(miners@[i as int]@));
            }
        }
        i += 1;
    }
    assert(all.take(miners@.len() as int) =~= all);
    only(found)
}

/// The element of a list that has no other.
pub fn only(list: Vec<String>) -> (element: Option<String>)
    ensures
        element is Some == (list@.len() == 1),
        element is Some ==> element->0@ == texts(list@)[0],
{
    if list.len() == 1 {
        Some(list[0].clone())
    } else {
        None
    }
}

} // verus!
