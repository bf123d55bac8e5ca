//! Payments: choosing the note that a payment spends, and what the transaction must
//! hold.

use crate::amount::{sum, total};
use crate::encoding::{hex_encode, hex_text, hex_value};
use crate::text::same_text;
use crate::transaction::{block_views, identified, Block, BlockView};
use crate::wallet::keys::{
    external_address, first_address, full_viewing_key, is_key_error, key, outgoing_key, outgoing_viewing_key, receiver,
    receiver_spec, seed_key, viewing_key, KeyError, ReceiverError,
};
use crate::wallet::scan::{note_nullifier, note_value, nullifier_of, value_of};
use crate::wallet::state::{law_sync_keeps_notes_identified, synced, OwnedNoteView, SyncError, WalletState, WalletView};
use crate::wallet::tree::{merkle_path, merkle_root, path, root};
use orchard::keys::{FullViewingKey, OutgoingViewingKey, SpendingKey};
use orchard::tree::{MerkleHashOrchard, MerklePath};
use vstd::hash_set::StringHashSet;
use vstd::prelude::*;
use vstd::string::StringExecFns;
use zakura_chain::parameters::Network;
use zcash_primitives::transaction::builder::{BuildConfig, Builder, BundlePadding};
use zcash_protocol::consensus::BlockHeight;
use zcash_protocol::memo::MemoBytes;
use zcash_protocol::value::Zatoshis;

verus! {

/// `zcash_primitives`'s builder of a transaction.
#[verifier::external_type_specification]
#[verifier::external_body]
#[verifier::reject_recursive_types(P)]
#[verifier::reject_recursive_types(U)]
pub struct ExBuilder<P, U>(Builder<P, U>);

/// `zcash_protocol`'s nonnegative amount.
#[verifier::external_type_specification]
#[verifier::external_body]
pub struct ExZatoshis(Zatoshis);

/// The largest amount that can exist, in zatoshis.
pub open spec fn max_money() -> nat {
    2_100_000_000_000_000
}

/// The number of zatoshis of an amount.
pub uninterp spec fn zatoshi_count(amount: Zatoshis) -> u64;

/// Calls `Zatoshis::from_u64`, which accepts the amounts up to the total supply.
/// Nothing is claimed of the words in which it rejects the others.
#[verifier::external_body]
fn zatoshis(value: u64) -> (amount: Result<Zatoshis, String>)
    ensures
        match amount {
            Ok(amount) => value <= max_money() && zatoshi_count(amount) == value,
            Err(_) => value > max_money(),
        },
{
    Zatoshis::from_u64(value).map_err(|e| e.to_string())
}

/// The network, the height and the anchor for which a builder was made, where it is
/// one for a standard transaction with an Ironwood bundle of the default padding and
/// no other shielded bundle.
pub uninterp spec fn builder_target(builder: Builder<Network, ()>) -> Option<(Network, u32, MerkleHashOrchard)>;

/// The Ironwood spends that were added to a builder, in order.
pub uninterp spec fn builder_spends(builder: Builder<Network, ()>) -> Seq<(FullViewingKey, orchard::Note, MerklePath)>;

/// The Ironwood outputs that were added to a builder, in order, each with the
/// outgoing viewing key that can recover it.
pub uninterp spec fn builder_outputs(builder: Builder<Network, ()>) -> Seq<(OutgoingViewingKey, orchard::Address, u64)>;

/// Whether a builder for a network, a height and an anchor takes a spend: the rules
/// of the height must know Ironwood, the note must be of the Ironwood form and belong
/// to the key, and the path of a note with a value must lead to the anchor.
pub uninterp spec fn spend_accepted(
    net: Network,
    height: u32,
    anchor: MerkleHashOrchard,
    key: FullViewingKey,
    note: orchard::Note,
    path: MerklePath,
) -> bool;

/// Whether a builder for a network and a height takes outputs: the rules of the
/// height must know Ironwood.
pub uninterp spec fn output_accepted(net: Network, height: u32) -> bool;

/// Whether a builder takes outputs.
pub open spec fn takes_outputs(builder: Builder<Network, ()>) -> bool {
    let (net, height, anchor) = builder_target(builder)->0;
    output_accepted(net, height)
}

/// Calls `Builder::new` for a standard transaction with an Ironwood bundle of the
/// default padding and no other shielded bundle. Nothing has been added to it.
#[verifier::external_body]
fn new_builder(net: &Network, height: u32, anchor: MerkleHashOrchard) -> (builder: Builder<Network, ()>)
    ensures
        builder_target(builder) == Some((*net, height, anchor)),
        builder_spends(builder) == Seq::<(FullViewingKey, orchard::Note, MerklePath)>::empty(),
        builder_outputs(builder) == Seq::<(OutgoingViewingKey, orchard::Address, u64)>::empty(),
{
    let config = BuildConfig::Standard {
        sapling_anchor: None,
        orchard_anchor: None,
        ironwood_anchor: Some(orchard::Anchor::from(anchor)),
        orchard_padding: BundlePadding::DEFAULT,
        ironwood_padding: BundlePadding::DEFAULT,
    };
    Builder::new(net.clone(), BlockHeight::from_u32(height), config)
}

/// Calls `add_ironwood_spend` of the builder, which checks the note and its path
/// against the anchor and either adds the spend or adds nothing. Whether it adds it
/// depends on what the builder was made for and on the arguments; no claim is made of
/// the words in which it refuses one.
#[verifier::external_body]
fn add_spend(builder: &mut Builder<Network, ()>, fvk: &FullViewingKey, note: orchard::Note, path: MerklePath) -> (added: Result<(), String>)
    requires
        builder_target(*old(builder)) is Some,
    ensures
        added is Ok == ({
            let (net, height, anchor) = builder_target(*old(builder))->0;
            spend_accepted(net, height, anchor, *fvk, note, path)
        }),
        builder_target(*final(builder)) == builder_target(*old(builder)),
        builder_outputs(*final(builder)) == builder_outputs(*old(builder)),
        builder_spends(*final(builder)) == if added is Ok {
            builder_spends(*old(builder)).push((*fvk, note, path))
        } else {
            builder_spends(*old(builder))
        },
{
    builder.add_ironwood_spend::<std::convert::Infallible>(fvk.clone(), note, path).map_err(|e| e.to_string())
}

/// Calls `add_ironwood_output` of the builder with an empty memo, which adds the
/// output or adds nothing. Whether it adds it depends on what the builder was made
/// for alone; no claim is made of the words in which it refuses one.
#[verifier::external_body]
fn add_output(builder: &mut Builder<Network, ()>, ovk: &OutgoingViewingKey, to: orchard::Address, amount: Zatoshis) -> (added: Result<(), String>)
    requires
        builder_target(*old(builder)) is Some,
    ensures
        added is Ok == ({
            let (net, height, anchor) = builder_target(*old(builder))->0;
            output_accepted(net, height)
        }),
        builder_target(*final(builder)) == builder_target(*old(builder)),
        builder_spends(*final(builder)) == builder_spends(*old(builder)),
        builder_outputs(*final(builder)) == if added is Ok {
            builder_outputs(*old(builder)).push((*ovk, to, zatoshi_count(amount)))
        } else {
            builder_outputs(*old(builder))
        },
{
    let key = Some(ovk.clone());
    builder.add_ironwood_output::<std::convert::Infallible>(key, to, amount, MemoBytes::empty()).map_err(|e| e.to_string())
}

/// The recipients of a payment and what each receives.
pub open spec fn output_views(outputs: Seq<(String, u64)>) -> Seq<(Seq<char>, u64)> {
    outputs.map_values(|o: (String, u64)| (o.0@, o.1))
}

/// The amounts of a list of outputs.
pub open spec fn output_values(outputs: Seq<(Seq<char>, u64)>) -> Seq<u64> {
    outputs.map_values(|o: (Seq<char>, u64)| o.1)
}

/// The smallest note that could fund a payment: it covers the fee, and one zatoshi
/// more if anything is paid.
pub open spec fn least_value(outputs: Seq<(Seq<char>, u64)>, fee: u64) -> int {
    if exists|i: int| 0 <= i < outputs.len() && (#[trigger] outputs[i]).1 > 0 {
        fee + 1
    } else {
        fee as int
    }
}

/// What a payment takes from the wallet.
pub open spec fn cost(outputs: Seq<(Seq<char>, u64)>, fee: u64) -> nat {
    fee as nat + sum(output_values(outputs))
}

/// Whether a note can fund a payment: it is large enough, it is not reserved, and it
/// is the input that was asked for, by transaction or, after `nf:`, by nullifier.
pub open spec fn fits(
    note: OwnedNoteView,
    fvk: FullViewingKey,
    cost: nat,
    reserved: Set<Seq<char>>,
    input: Option<Seq<char>>,
) -> bool {
    let nullifier = hex_text(note_nullifier(note.note, fvk));
    &&& note_value(note.note) >= cost
    &&& !reserved.contains(nullifier)
    &&& input is None || input->0 == note.txid || input->0 == "nf:"@ + nullifier
}

/// Whether `k` is the first note of the wallet that can fund a payment.
pub open spec fn is_choice(
    wallet: WalletView,
    k: int,
    fvk: FullViewingKey,
    cost: nat,
    reserved: Set<Seq<char>>,
    input: Option<Seq<char>>,
) -> bool {
    &&& 0 <= k < wallet.notes.len()
    &&& fits(wallet.notes[k], fvk, cost, reserved, input)
    &&& forall|j: int| 0 <= j < k ==> !fits(#[trigger] wallet.notes[j], fvk, cost, reserved, input)
}

/// The optional text of an optional slice.
pub open spec fn slice_text(text: Option<&str>) -> Option<Seq<char>> {
    match text {
        Some(s) => Some(s@),
        None => None,
    }
}

/// Whether no note of a wallet can pay a cost.
pub open spec fn is_hopeless(
    wallet: WalletView,
    fvk: FullViewingKey,
    cost: nat,
    reserved: Set<Seq<char>>,
    input: Option<Seq<char>>,
) -> bool {
    forall|j: int| 0 <= j < wallet.notes.len() ==> !fits(#[trigger] wallet.notes[j], fvk, cost, reserved, input)
}

/// Finds the first note that can fund a payment.
pub fn choose_note(
    wallet: &WalletState,
    fvk: &FullViewingKey,
    cost: u64,
    reserved: &StringHashSet,
    input: Option<&str>,
) -> (choice: Option<usize>)
    ensures
        match choice {
            Some(k) => is_choice(wallet@, k as int, *fvk, cost as nat, reserved@, slice_text(input)),
            None => is_hopeless(wallet@, *fvk, cost as nat, reserved@, slice_text(input)),
        },
{
    let mut k: usize = 0;
    while k < wallet.notes.len()
        invariant
            k <= wallet.notes.len(),
            forall|j: int|
                0 <= j < k ==> !fits(#[trigger] wallet@.notes[j], *fvk, cost as nat, reserved@, slice_text(input)),
        decreases wallet.notes.len() - k,
    {
        assert(wallet@.notes[k as int] == wallet.notes@[k as int]@);
        let owned = &wallet.notes[k];
        let nullifier = hex_encode(nullifier_of(&owned.note, fvk).as_slice());
        let wanted = match input {
            Some(id) => same_text(id, owned.txid.as_str()) || same_text(
                id,
                "nf:".to_string().concat(nullifier.as_str()).as_str(),
            ),
            None => true,
        };
        if value_of(&owned.note) >= cost && !reserved.contains(nullifier.as_str()) && wanted {
            return Some(k);
        }
        k += 1;
    }
    None
}

/// Why a payment cannot be made.
#[derive(Debug, PartialEq)]
pub enum CreateError {
    /// The seed has no key.
    Key(KeyError),
    /// An amount does not fit.
    Overflow,
    /// The wallet cannot be brought up to date.
    Sync(SyncError),
    /// No note is large enough and free.
    NoNote,
    /// There is no chain.
    EmptyChain,
    /// The last block has no height.
    Height,
    /// A recipient cannot receive.
    Receiver(ReceiverError),
    /// An amount exceeds the supply.
    Amount(String),
    /// The builder refused a part of the transaction.
    Refused(String),
}

impl CreateError {
    /// The error in words.
    pub fn message(&self) -> (text: String)
        ensures
            match *self {
                CreateError::Overflow => text@ == "amount overflow"@,
                CreateError::NoNote => text@ == "no available confirmed note large enough"@,
                CreateError::EmptyChain => text@ == "empty chain"@,
                CreateError::Height => text@ == "height"@,
                CreateError::Receiver(ReceiverError::NotUnified) => text@ == "unified address required"@,
                CreateError::Receiver(ReceiverError::NoReceiver) => text@ == "Ironwood receiver required"@,
                CreateError::Amount(words) => text@ == words@,
                CreateError::Refused(words) => text@ == words@,
                CreateError::Key(KeyError::Hex(words)) => text@ == words@,
                CreateError::Key(KeyError::Length) => text@ == "seed must be 32 bytes"@,
                CreateError::Key(KeyError::Invalid) => text@ == "invalid spending key"@,
                CreateError::Sync(SyncError::Height) => text@ == "block height"@,
                CreateError::Sync(SyncError::Malformed(words)) => text@ == words@,
                CreateError::Sync(SyncError::TreeFull) => text@ == "tree full"@,
            },
    {
        match self {
            CreateError::Key(e) => e.message(),
            CreateError::Overflow => "amount overflow".to_string(),
            CreateError::Sync(e) => e.message(),
            CreateError::NoNote => "no available confirmed note large enough".to_string(),
            CreateError::EmptyChain => "empty chain".to_string(),
            CreateError::Height => "height".to_string(),
            CreateError::Receiver(e) => e.message().to_string(),
            CreateError::Amount(words) => words.clone(),
            CreateError::Refused(words) => words.clone(),
        }
    }
}

/// A payment that is ready to be proved and signed.
pub struct Payment {
    pub builder: Builder<Network, ()>,
    pub key: SpendingKey,
    pub fee: Zatoshis,
    pub input_txid: String,
    pub input_nf: String,
}

/// The outputs of a payment as the builder must hold them: the recipients in order,
/// and then the change, if any is left.
pub open spec fn planned_outputs(
    outputs: Seq<(Seq<char>, u64)>,
    change: int,
    fvk: FullViewingKey,
    net: Network,
) -> Seq<(OutgoingViewingKey, orchard::Address, u64)> {
    let paid = outputs.map_values(|o: (Seq<char>, u64)| (outgoing_key(fvk), receiver_spec(o.0, net)->Ok_0, o.1));
    if change > 0 {
        paid.push((outgoing_key(fvk), first_address(fvk), change as u64))
    } else {
        paid
    }
}

/// The wallet from which a payment is made: brought up to date with the chain.
pub open spec fn funded(
    wallet: WalletView,
    blocks: Seq<BlockView>,
    seed: Seq<char>,
    outputs: Seq<(Seq<char>, u64)>,
    fee: u64,
    net: Network,
) -> WalletView {
    if seed_key(seed) is Some && least_value(outputs, fee) <= u64::MAX {
        synced(wallet, blocks, viewing_key(seed_key(seed)->0), net, least_value(outputs, fee) as u64).wallet
    } else {
        wallet
    }
}

/// Whether the wallet from which a payment is made has reached the tip of the chain:
/// nothing stopped the scan.
pub open spec fn is_up_to_date(
    wallet: WalletView,
    blocks: Seq<BlockView>,
    seed: Seq<char>,
    outputs: Seq<(Seq<char>, u64)>,
    fee: u64,
    net: Network,
) -> bool {
    &&& seed_key(seed) is Some && least_value(outputs, fee) <= u64::MAX
    &&& synced(wallet, blocks, viewing_key(seed_key(seed)->0), net, least_value(outputs, fee) as u64).fault is None
}

/// Whether a payment spends a note, against the root of the leaves, for the recipients
/// and the change, and its builder takes all of them.
pub open spec fn is_spent_for(
    payment: Payment,
    note: OwnedNoteView,
    leaves: Seq<MerkleHashOrchard>,
    outputs: Seq<(Seq<char>, u64)>,
    fee: u64,
) -> bool {
    let fvk = viewing_key(payment.key);
    let path = merkle_path(leaves, note.position);
    let change = note_value(note.note) - cost(outputs, fee);
    let (net, height, anchor) = builder_target(payment.builder)->0;
    &&& payment.input_txid@ == note.txid
    &&& payment.input_nf@ == hex_text(note_nullifier(note.note, fvk))
    &&& spend_accepted(net, height, anchor, fvk, note.note, path)
    &&& change <= max_money()
    &&& outputs.len() > 0 || change > 0 ==> output_accepted(net, height)
    &&& builder_spends(payment.builder) == seq![(fvk, note.note, path)]
    &&& builder_outputs(payment.builder) == planned_outputs(outputs, change, fvk, net)
}

/// Whether a payment is what was asked for: it spends the first note that fits,
/// against the root of the tree that the note's witness has followed, and pays the
/// recipients, the change and the fee with nothing left over.
pub open spec fn is_payment(
    payment: Payment,
    wallet: WalletView,
    blocks: Seq<BlockView>,
    seed: Seq<char>,
    outputs: Seq<(Seq<char>, u64)>,
    fee: u64,
    input: Option<Seq<char>>,
    reserved: Set<Seq<char>>,
    net: Network,
) -> bool {
    let fvk = viewing_key(payment.key);
    &&& seed_key(seed) == Some(payment.key)
    &&& cost(outputs, fee) <= u64::MAX
    &&& zatoshi_count(payment.fee) == fee && fee <= max_money()
    &&& blocks.len() > 0 && blocks.last().height is Some
    &&& payable_until(outputs, outputs.len() as int, net)
    &&& builder_target(payment.builder) == Some((net, (blocks.last().height->0 + 1) as u32, merkle_root(wallet.leaves)))
    &&& exists|k: int| #[trigger]
        is_choice(wallet, k, fvk, cost(outputs, fee), reserved, input) && is_spent_for(
            payment,
            wallet.notes[k],
            wallet.leaves,
            outputs,
            fee,
        )
}

/// Whether each of the first `n` recipients can receive, and each amount can exist.
pub open spec fn payable_until(outputs: Seq<(Seq<char>, u64)>, n: int, net: Network) -> bool {
    forall|j: int|
        0 <= j < n ==> receiver_spec((#[trigger] outputs[j]).0, net) is Ok && outputs[j].1 <= max_money()
}

/// Whether an output is the first that cannot be paid, since its address cannot
/// receive.
pub open spec fn first_unreachable(outputs: Seq<(Seq<char>, u64)>, i: int, r: ReceiverError, net: Network) -> bool {
    &&& 0 <= i < outputs.len() && payable_until(outputs, i, net)
    &&& receiver_spec(outputs[i].0, net) == Err::<orchard::Address, ReceiverError>(r)
}

/// Whether an output is the first that cannot be paid, since its amount exceeds the
/// supply.
pub open spec fn first_excessive(outputs: Seq<(Seq<char>, u64)>, i: int, net: Network) -> bool {
    &&& 0 <= i < outputs.len() && payable_until(outputs, i, net)
    &&& receiver_spec(outputs[i].0, net) is Ok
    &&& outputs[i].1 > max_money()
}

/// Whether an error is the reason for which not all recipients of a payment could be
/// added to a builder that takes outputs, or does not. The outputs are added in order,
/// and the first that fails decides.
pub open spec fn is_output_error(e: CreateError, outputs: Seq<(Seq<char>, u64)>, net: Network, accepted: bool) -> bool {
    match e {
        CreateError::Receiver(r) => exists|i: int| #[trigger]
            first_unreachable(outputs, i, r, net) && (i > 0 ==> accepted),
        CreateError::Amount(_) => exists|i: int| #[trigger] first_excessive(outputs, i, net) && (i > 0 ==> accepted),
        CreateError::Refused(_) => outputs.len() > 0 && payable_until(outputs, 1, net) && !accepted,
        _ => false,
    }
}

/// Whether an error is the reason for which the transaction of a payment from the
/// note `k` cannot be put together: the builder does not take the spend, a recipient
/// cannot be added, or neither can the change, or the fee exceeds the supply.
pub open spec fn is_obstacle(
    e: CreateError,
    wallet: WalletView,
    k: int,
    fvk: FullViewingKey,
    height: u32,
    outputs: Seq<(Seq<char>, u64)>,
    fee: u64,
    net: Network,
) -> bool {
    let note = wallet.notes[k];
    let path = merkle_path(wallet.leaves, note.position);
    let change = note_value(note.note) - cost(outputs, fee);
    let accepted = output_accepted(net, height);
    if !spend_accepted(net, height, merkle_root(wallet.leaves), fvk, note.note, path) {
        e is Refused
    } else if !payable_until(outputs, outputs.len() as int, net) || outputs.len() > 0 && !accepted {
        is_output_error(e, outputs, net, accepted)
    } else if change > max_money() {
        e is Amount
    } else if change > 0 && !accepted {
        e is Refused
    } else {
        fee > max_money() && e is Amount
    }
}

/// Whether an error is the reason for which a payment cannot be made.
pub open spec fn is_refusal(
    e: CreateError,
    wallet: WalletView,
    blocks: Seq<BlockView>,
    seed: Seq<char>,
    outputs: Seq<(Seq<char>, u64)>,
    fee: u64,
    input: Option<Seq<char>>,
    reserved: Set<Seq<char>>,
    net: Network,
) -> bool {
    let fvk = viewing_key(seed_key(seed)->0);
    let least = least_value(outputs, fee);
    let scan = synced(wallet, blocks, fvk, net, least as u64);
    let total = cost(outputs, fee);
    let available = exists|k: int| #[trigger] is_choice(scan.wallet, k, fvk, total, reserved, input);
    if seed_key(seed) is None {
        e matches CreateError::Key(e) && is_key_error(e, seed)
    } else if least > u64::MAX {
        e is Overflow
    } else if scan.fault is Some {
        e matches CreateError::Sync(s) && scan.fault == Some(s.fault())
    } else if total > u64::MAX {
        e is Overflow
    } else if !available {
        e is NoNote
    } else if blocks.len() == 0 {
        e is EmptyChain
    } else if blocks.last().height is None {
        e is Height
    } else {
        exists|k: int| #[trigger]
            is_choice(scan.wallet, k, fvk, total, reserved, input) && is_obstacle(
                e,
                scan.wallet,
                k,
                fvk,
                (blocks.last().height->0 + 1) as u32,
                outputs,
                fee,
                net,
            )
    }
}

fn pays_something(outputs: &Vec<(String, u64)>) -> (pays: bool)
    ensures
        pays == exists|i: int| 0 <= i < output_views(outputs@).len() && (#[trigger] output_views(outputs@)[i]).1 > 0,
{
    let mut i: usize = 0;
    while i < outputs.len()
        invariant
            i <= outputs.len(),
            forall|j: int| 0 <= j < i ==> (#[trigger] output_views(outputs@)[j]).1 == 0,
        decreases outputs.len() - i,
    {
        if outputs[i].1 > 0 {
            assert(output_views(outputs@)[i as int].1 > 0);
            return true;
        }
        i += 1;
    }
    false
}

/// Adds up a fee and the amounts of a list of outputs.
fn payment_cost(outputs: &Vec<(String, u64)>, fee: u64) -> (amount: Option<u64>)
    ensures
        match amount {
            Some(amount) => amount == cost(output_views(outputs@), fee),
            None => cost(output_views(outputs@), fee) > u64::MAX,
        },
{
    let mut values: Vec<u64> = Vec::new();
    let mut i: usize = 0;
    while i < outputs.len()
        invariant
            i <= outputs.len(),
            values@ =~= output_values(output_views(outputs@)).take(i as int),
        decreases outputs.len() - i,
    {
        values.push(outputs[i].1);
        i += 1;
    }
    assert(values@ =~= output_values(output_views(outputs@)));
    match total(&values) {
        Some(t) => fee.checked_add(t),
        None => None,
    }
}

/// Adds the recipients of a payment to the builder, in order.
fn add_outputs(
    builder: &mut Builder<Network, ()>,
    outputs: &Vec<(String, u64)>,
    fvk: &FullViewingKey,
    net: &Network,
) -> (added: Result<(), CreateError>)
    requires
        builder_target(*old(builder)) is Some,
        builder_outputs(*old(builder)).len() == 0,
    ensures
        builder_target(*final(builder)) == builder_target(*old(builder)),
        builder_spends(*final(builder)) == builder_spends(*old(builder)),
        match added {
            Ok(()) => {
                &&& payable_until(output_views(outputs@), outputs@.len() as int, *net)
                &&& outputs@.len() > 0 ==> takes_outputs(*old(builder))
                &&& builder_outputs(*final(builder)) == planned_outputs(output_views(outputs@), 0, *fvk, *net)
            },
            Err(e) => is_output_error(e, output_views(outputs@), *net, takes_outputs(*old(builder))),
        },
{
    let ghost views = output_views(outputs@);
    let ghost plan = planned_outputs(views, 0, *fvk, *net);
    let ovk = outgoing_viewing_key(fvk);
    let mut i: usize = 0;
    while i < outputs.len()
        invariant
            i <= outputs.len(),
            views == output_views(outputs@),
            plan == planned_outputs(views, 0, *fvk, *net),
            ovk == outgoing_key(*fvk),
            payable_until(views, i as int, *net),
            builder_target(*builder) == builder_target(*old(builder)),
            builder_spends(*builder) == builder_spends(*old(builder)),
            builder_outputs(*builder) =~= plan.take(i as int),
            builder_target(*builder) is Some,
            i > 0 ==> takes_outputs(*old(builder)),
        decreases outputs.len() - i,
    {
        assert(views[i as int] == (outputs@[i as int].0@, outputs@[i as int].1));
        let to = match receiver(outputs[i].0.as_str(), net) {
            Ok(to) => to,
            Err(r) => {
                assert(first_unreachable(views, i as int, r, *net));
                return Err(CreateError::Receiver(r));
            },
        };
        let amount = match zatoshis(outputs[i].1) {
            Ok(amount) => amount,
            Err(words) => {
                assert(first_excessive(views, i as int, *net));
                return Err(CreateError::Amount(words));
            },
        };
        if let Err(words) = add_output(builder, &ovk, to, amount) {
            return Err(CreateError::Refused(words));
        }
        assert(plan.take(i + 1) =~= plan.take(i as int).push(plan[i as int]));
        i += 1;
    }
    assert(plan.take(i as int) =~= plan);
    Ok(())
}

/// Plans a payment from the notes of a seed: brings its wallet up to date, chooses
/// the first note that can fund the payment, and fills a builder with the spend, the
/// recipients and the change.
pub fn create(
    wallet: &mut WalletState,
    blocks: &Vec<Block>,
    seed: &str,
    outputs: &Vec<(String, u64)>,
    fee: u64,
    input_txid: Option<&str>,
    reserved: &StringHashSet,
    net: &Network,
) -> (planned: Result<Payment, CreateError>)
    requires
        old(wallet)@.wf(),
        blocks@.len() > 0 && blocks@.last().height is Some ==> blocks@.last().height->0 < u32::MAX,
    ensures
        final(wallet)@.wf(),
        final(wallet)@ == funded(old(wallet)@, block_views(blocks@), seed@, output_views(outputs@), fee, *net),
        match planned {
            Ok(payment) => {
                &&& is_up_to_date(old(wallet)@, block_views(blocks@), seed@, output_views(outputs@), fee, *net)
                &&& is_payment(
                    payment,
                    final(wallet)@,
                    block_views(blocks@),
                    seed@,
                    output_views(outputs@),
                    fee,
                    slice_text(input_txid),
                    reserved@,
                    *net,
                )
            },
            Err(e) => is_refusal(
                e,
                old(wallet)@,
                block_views(blocks@),
                seed@,
                output_views(outputs@),
                fee,
                slice_text(input_txid),
                reserved@,
                *net,
            ),
        },
{
    let ghost views = output_views(outputs@);
    let ghost chain = block_views(blocks@);
    let sk = match key(seed) {
        Ok(sk) => sk,
        Err(e) => {
            return Err(CreateError::Key(e));
        },
    };
    let fvk = full_viewing_key(&sk);
    let least = if pays_something(outputs) {
        match fee.checked_add(1) {
            Some(least) => least,
            None => {
                return Err(CreateError::Overflow);
            },
        }
    } else {
        fee
    };
    assert(least == least_value(views, fee));
    if let Err(e) = wallet.sync(blocks, &fvk, net, least) {
        return Err(CreateError::Sync(e));
    }
    let needed = match payment_cost(outputs, fee) {
        Some(needed) => needed,
        None => {
            return Err(CreateError::Overflow);
        },
    };
    let k = match choose_note(wallet, &fvk, needed, reserved, input_txid) {
        Some(k) => k,
        None => {
            return Err(CreateError::NoNote);
        },
    };
    let owned = &wallet.notes[k];
    let ghost note = wallet@.notes[k as int];
    assert(note == wallet.notes@[k as int]@);
    assert(is_choice(wallet@, k as int, fvk, needed as nat, reserved@, slice_text(input_txid)));
    let input_nf = hex_encode(nullifier_of(&owned.note, &fvk).as_slice());
    if blocks.len() == 0 {
        return Err(CreateError::EmptyChain);
    }
    assert(chain.last() == blocks@.last()@);
    let height = match blocks[blocks.len() - 1].height {
        Some(height) => height + 1,
        None => {
            return Err(CreateError::Height);
        },
    };
    let ghost total = cost(views, fee);
    assert(is_choice(wallet@, k as int, fvk, total, reserved@, slice_text(input_txid)));
    let mut builder = new_builder(net, height, root(&wallet.tree));
    let place = match path(&owned.witness) {
        Some(place) => place,
        None => {
            assert(note.leaves == wallet@.leaves);
            return Err(CreateError::Refused("path".to_string()));
        },
    };
    if let Err(words) = add_spend(&mut builder, &fvk, owned.note, place) {
        let refused = CreateError::Refused(words);
        assert(is_obstacle(refused, wallet@, k as int, fvk, height, views, fee, *net));
        return Err(refused);
    }
    let change = value_of(&owned.note) - needed;
    if let Err(e) = add_outputs(&mut builder, outputs, &fvk, net) {
        assert(is_obstacle(e, wallet@, k as int, fvk, height, views, fee, *net));
        return Err(e);
    }
    if change > 0 {
        let amount = match zatoshis(change) {
            Ok(amount) => amount,
            Err(words) => {
                let exceeding = CreateError::Amount(words);
                assert(is_obstacle(exceeding, wallet@, k as int, fvk, height, views, fee, *net));
                return Err(exceeding);
            },
        };
        if let Err(words) = add_output(&mut builder, &outgoing_viewing_key(&fvk), external_address(&fvk), amount) {
            let refused = CreateError::Refused(words);
            assert(is_obstacle(refused, wallet@, k as int, fvk, height, views, fee, *net));
            return Err(refused);
        }
    }
    let fee_amount = match zatoshis(fee) {
        Ok(amount) => amount,
        Err(words) => {
            let exceeding = CreateError::Amount(words);
            assert(is_obstacle(exceeding, wallet@, k as int, fvk, height, views, fee, *net));
            return Err(exceeding);
        },
    };
    let payment = Payment { builder, key: sk, fee: fee_amount, input_txid: owned.txid.clone(), input_nf };
    proof {
        assert(builder_spends(payment.builder) =~= seq![(fvk, note.note, merkle_path(wallet@.leaves, note.position))]);
        assert(builder_outputs(payment.builder) =~= planned_outputs(views, change as int, fvk, *net));
        assert(is_choice(wallet@, k as int, viewing_key(payment.key), cost(views, fee), reserved@, slice_text(input_txid)));
        assert(note.leaves == wallet@.leaves);
        assert(builder_target(payment.builder) == Some(
            (*net, (chain.last().height->0 + 1) as u32, merkle_root(wallet@.leaves)),
        ));
    }
    Ok(payment)
}

/// What the outputs of a payment hold: the recipients' amounts and the change.
pub open spec fn outputs_sum(outputs: Seq<(OutgoingViewingKey, orchard::Address, u64)>) -> nat {
    sum(outputs.map_values(|o: (OutgoingViewingKey, orchard::Address, u64)| o.2))
}

/// A payment moves the whole value of the note that it spends: its outputs and the
/// fee add up to it.
pub proof fn law_payment_balances(
    payment: Payment,
    wallet: WalletView,
    blocks: Seq<BlockView>,
    seed: Seq<char>,
    outputs: Seq<(Seq<char>, u64)>,
    fee: u64,
    input: Option<Seq<char>>,
    reserved: Set<Seq<char>>,
    net: Network,
)
    requires
        is_payment(payment, wallet, blocks, seed, outputs, fee, input, reserved, net),
    ensures
        builder_spends(payment.builder).len() == 1,
        outputs_sum(builder_outputs(payment.builder)) + fee == note_value(builder_spends(payment.builder)[0].1),
{
    let fvk = viewing_key(payment.key);
    let k = choose|k: int| #[trigger]
        is_choice(wallet, k, fvk, cost(outputs, fee), reserved, input) && is_spent_for(
            payment,
            wallet.notes[k],
            wallet.leaves,
            outputs,
            fee,
        );
    let change = note_value(wallet.notes[k].note) - cost(outputs, fee);
    let planned = builder_outputs(payment.builder);
    let amounts = planned.map_values(|o: (OutgoingViewingKey, orchard::Address, u64)| o.2);
    if change > 0 {
        assert(amounts.drop_last() =~= output_values(outputs));
        assert(amounts.last() == change as u64);
    } else {
        assert(amounts =~= output_values(outputs));
    }
}

/// A payment never spends a reserved note, so two payments made one after the other
/// with the first one's note reserved spend different notes.
pub proof fn law_payment_avoids_reserved_notes(
    payment: Payment,
    wallet: WalletView,
    blocks: Seq<BlockView>,
    seed: Seq<char>,
    outputs: Seq<(Seq<char>, u64)>,
    fee: u64,
    input: Option<Seq<char>>,
    reserved: Set<Seq<char>>,
    net: Network,
)
    requires
        is_payment(payment, wallet, blocks, seed, outputs, fee, input, reserved, net),
    ensures
        !reserved.contains(payment.input_nf@),
        payment.input_nf@ == hex_text(note_nullifier(builder_spends(payment.builder)[0].1, viewing_key(payment.key))),
{
}

/// A payment pays each recipient the amount asked for, in order, and what the note is
/// worth beyond that and the fee goes back to the first address of the payer. Where
/// nothing is left there is no change.
pub proof fn law_payment_pays_recipients_and_change(
    payment: Payment,
    wallet: WalletView,
    blocks: Seq<BlockView>,
    seed: Seq<char>,
    outputs: Seq<(Seq<char>, u64)>,
    fee: u64,
    input: Option<Seq<char>>,
    reserved: Set<Seq<char>>,
    net: Network,
)
    requires
        is_payment(payment, wallet, blocks, seed, outputs, fee, input, reserved, net),
    ensures
        ({
            let made = builder_outputs(payment.builder);
            let change = note_value(builder_spends(payment.builder)[0].1) - cost(outputs, fee);
            &&& change >= 0
            &&& made.len() == outputs.len() + if change > 0 {
                1int
            } else {
                0int
            }
            &&& forall|i: int|
                0 <= i < outputs.len() ==> (#[trigger] made[i]).1 == receiver_spec(outputs[i].0, net)->Ok_0 && made[i].2
                    == outputs[i].1
            &&& change > 0 ==> made.last().1 == first_address(viewing_key(payment.key)) && made.last().2 == change
        }),
{
    let fvk = viewing_key(payment.key);
    let k = choose|k: int| #[trigger]
        is_choice(wallet, k, fvk, cost(outputs, fee), reserved, input) && is_spent_for(
            payment,
            wallet.notes[k],
            wallet.leaves,
            outputs,
            fee,
        );
    assert(builder_spends(payment.builder)[0].1 == wallet.notes[k].note);
}

/// Payments keep the notes of a wallet identified by the transactions that paid them,
/// as long as the blocks were read.
pub proof fn law_payments_keep_notes_identified(
    wallet: WalletView,
    blocks: Seq<BlockView>,
    seed: Seq<char>,
    outputs: Seq<(Seq<char>, u64)>,
    fee: u64,
    net: Network,
)
    requires
        wallet.identified(),
        identified(blocks),
    ensures
        funded(wallet, blocks, seed, outputs, fee, net).identified(),
{
    law_sync_keeps_notes_identified(
        wallet,
        blocks,
        viewing_key(seed_key(seed)->0),
        net,
        least_value(outputs, fee) as u64,
    );
}

/// A payment that is asked to spend the note of a nullifier spends that very note. The
/// wallet must have been made from blocks that were read.
pub proof fn law_payment_spends_the_note_asked_for(
    payment: Payment,
    wallet: WalletView,
    blocks: Seq<BlockView>,
    seed: Seq<char>,
    outputs: Seq<(Seq<char>, u64)>,
    fee: u64,
    nullifier: Seq<char>,
    reserved: Set<Seq<char>>,
    net: Network,
)
    requires
        is_payment(payment, wallet, blocks, seed, outputs, fee, Some("nf:"@ + nullifier), reserved, net),
        wallet.identified(),
    ensures
        payment.input_nf@ == nullifier,
        hex_text(note_nullifier(builder_spends(payment.builder)[0].1, viewing_key(payment.key))) == nullifier,
{
    let spent = payment.input_nf@;
    reveal_strlit("nf:");
    assert(payment.input_txid@ != "nf:"@ + nullifier) by {
        assert(("nf:"@ + nullifier)[0] == 'n');
        assert(hex_value(payment.input_txid@[0]) is Some);
    }
    assert("nf:"@ + spent == "nf:"@ + nullifier);
    let n = "nf:"@.len() as int;
    assert(("nf:"@ + spent).skip(n) =~= spent);
    assert(("nf:"@ + nullifier).skip(n) =~= nullifier);
}

/// A rival of a payment, asked for by the nullifier that the payment reveals, spends
/// the same note, at whichever fee. A payment that is made while that note is reserved
/// spends another one. The wallet of the rival must have been made from blocks that
/// were read.
pub proof fn law_rivals_spend_the_same_note(
    payment: Payment,
    rival: Payment,
    other: Payment,
    wallets: (WalletView, WalletView, WalletView),
    blocks: Seq<BlockView>,
    seed: Seq<char>,
    outputs: Seq<(Seq<char>, u64)>,
    fees: (u64, u64, u64),
    input: Option<Seq<char>>,
    reserved: Set<Seq<char>>,
    net: Network,
)
    requires
        is_payment(payment, wallets.0, blocks, seed, outputs, fees.0, input, reserved, net),
        is_payment(
            rival,
            wallets.1,
            blocks,
            seed,
            outputs,
            fees.1,
            Some("nf:"@ + payment.input_nf@),
            Set::<Seq<char>>::empty(),
            net,
        ),
        is_payment(
            other,
            wallets.2,
            blocks,
            seed,
            outputs,
            fees.2,
            input,
            reserved.insert(payment.input_nf@),
            net,
        ),
        wallets.1.identified(),
    ensures
        rival.input_nf@ == payment.input_nf@,
        note_nullifier(builder_spends(rival.builder)[0].1, viewing_key(rival.key)) == note_nullifier(
            builder_spends(payment.builder)[0].1,
            viewing_key(payment.key),
        ),
        other.input_nf@ != payment.input_nf@,
{
    law_payment_spends_the_note_asked_for(
        rival,
        wallets.1,
        blocks,
        seed,
        outputs,
        fees.1,
        payment.input_nf@,
        Set::<Seq<char>>::empty(),
        net,
    );
    crate::encoding::law_hex_is_injective(
        note_nullifier(builder_spends(rival.builder)[0].1, viewing_key(rival.key)),
        note_nullifier(builder_spends(payment.builder)[0].1, viewing_key(payment.key)),
    );
}

} // verus!
