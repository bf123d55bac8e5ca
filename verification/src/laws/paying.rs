//! Paying: which note a payment spends, what it pays to whom, and why one is refused.

use crate::amount::sum;
use crate::encoding::hex_text;
use crate::transaction::BlockView;
use crate::wallet::keys::{first_address, outgoing_key, receiver_spec, seed_key, unified_receiver, viewing_key};
use crate::wallet::payment::{
    builder_outputs, builder_spends, builder_target, cost, fits, funded, is_choice, is_obstacle, is_payment, is_refusal,
    is_spent_for, is_up_to_date, least_value, max_money, output_accepted, output_values, payable_until, spend_accepted,
    zatoshi_count, CreateError, Payment,
};
use crate::wallet::scan::{note_nullifier, note_value};
use crate::wallet::state::{synced, OwnedNoteView, WalletView};
use crate::wallet::tree::{merkle_path, merkle_root};
use orchard::keys::FullViewingKey;
use vstd::prelude::*;
use zakura_chain::parameters::Network;

verus! {

/// What a payment needs: its fee and the amounts of its recipients.
pub open spec fn needs(outputs: Seq<(Seq<char>, u64)>, fee: u64) -> nat {
    fee as nat + sum(Seq::new(outputs.len(), |i: int| outputs[i].1))
}

/// The least value of a note that a payment can be interested in: more than the fee,
/// where it pays anything.
pub open spec fn cutoff(outputs: Seq<(Seq<char>, u64)>, fee: u64) -> nat {
    if exists|i: int| 0 <= i < outputs.len() && (#[trigger] outputs[i]).1 > 0 {
        fee as nat + 1
    } else {
        fee as nat
    }
}

/// Whether a note can fund a payment: it is worth what is needed, it is not reserved,
/// and it is the one that was asked for, by the transaction that paid it or by its
/// nullifier, where one was asked for.
pub open spec fn can_fund(
    note: OwnedNoteView,
    fvk: FullViewingKey,
    needed: nat,
    reserved: Set<Seq<char>>,
    input: Option<Seq<char>>,
) -> bool {
    let nullifier = hex_text(note_nullifier(note.note, fvk));
    let asked = match input {
        Some(id) => note.txid == id || "nf:"@ + nullifier == id,
        None => true,
    };
    asked && !reserved.contains(nullifier) && needed <= note_value(note.note)
}

/// The amount that a payment needs is the sum of its parts, and no note that is worth
/// it lies below the cutoff of the scan.
pub proof fn law_the_cutoff_loses_no_funding_note(outputs: Seq<(Seq<char>, u64)>, fee: u64)
    ensures
        cost(outputs, fee) == needs(outputs, fee),
        least_value(outputs, fee) == cutoff(outputs, fee),
        fee <= least_value(outputs, fee) <= needs(outputs, fee),
{
    assert(output_values(outputs) =~= Seq::new(outputs.len(), |i: int| outputs[i].1));
    if exists|i: int| 0 <= i < outputs.len() && (#[trigger] outputs[i]).1 > 0 {
        let i = choose|i: int| 0 <= i < outputs.len() && (#[trigger] outputs[i]).1 > 0;
        crate::laws::counting::law_parts_are_within_the_sum(output_values(outputs), i);
    }
}

/// The notes from which a payment is made: those of the wallet, brought up to date with
/// the chain.
pub open spec fn held(
    wallet: WalletView,
    blocks: Seq<BlockView>,
    seed: Seq<char>,
    outputs: Seq<(Seq<char>, u64)>,
    fee: u64,
    net: Network,
) -> WalletView {
    synced(wallet, blocks, viewing_key(seed_key(seed)->0), net, cutoff(outputs, fee) as u64).wallet
}

/// A payment is refused for want of a note only if the wallet at the tip holds none
/// that can fund it: not one of sufficient value that is unreserved, or that was paid
/// by the transaction named as input, or has the nullifier named as input.
pub proof fn law_a_note_that_can_fund_is_found(
    e: CreateError,
    wallet: WalletView,
    blocks: Seq<BlockView>,
    seed: Seq<char>,
    outputs: Seq<(Seq<char>, u64)>,
    fee: u64,
    input: Option<Seq<char>>,
    reserved: Set<Seq<char>>,
    net: Network,
)
    requires
        is_refusal(e, wallet, blocks, seed, outputs, fee, input, reserved, net),
        e is NoNote,
    ensures
        seed_key(seed) is Some,
        needs(outputs, fee) <= u64::MAX,
        forall|k: int|
            0 <= k < held(wallet, blocks, seed, outputs, fee, net).notes.len() ==> !can_fund(
                #[trigger] held(wallet, blocks, seed, outputs, fee, net).notes[k],
                viewing_key(seed_key(seed)->0),
                needs(outputs, fee),
                reserved,
                input,
            ),
{
    law_the_cutoff_loses_no_funding_note(outputs, fee);
    let fvk = viewing_key(seed_key(seed)->0);
    let notes = held(wallet, blocks, seed, outputs, fee, net).notes;
    let total = cost(outputs, fee);
    assert forall|k: int| 0 <= k < notes.len() implies !can_fund(
        #[trigger] notes[k],
        fvk,
        needs(outputs, fee),
        reserved,
        input,
    ) by {
        if can_fund(notes[k], fvk, needs(outputs, fee), reserved, input) {
            assert(fits(notes[k], fvk, total, reserved, input));
            let first = lemma_first_fit(held(wallet, blocks, seed, outputs, fee, net), k, fvk, total, reserved, input);
            assert(is_choice(held(wallet, blocks, seed, outputs, fee, net), first, fvk, total, reserved, input));
        }
    }
}

pub proof fn lemma_first_fit(
    wallet: WalletView,
    k: int,
    fvk: FullViewingKey,
    total: nat,
    reserved: Set<Seq<char>>,
    input: Option<Seq<char>>,
) -> (first: int)
    requires
        0 <= k < wallet.notes.len(),
        fits(wallet.notes[k], fvk, total, reserved, input),
    ensures
        is_choice(wallet, first, fvk, total, reserved, input),
    decreases k,
{
    if exists|j: int| 0 <= j < k && fits(#[trigger] wallet.notes[j], fvk, total, reserved, input) {
        let j = choose|j: int| 0 <= j < k && fits(#[trigger] wallet.notes[j], fvk, total, reserved, input);
        lemma_first_fit(wallet, j, fvk, total, reserved, input)
    } else {
        k
    }
}

/// Whether the outputs of a payment are what was asked for: to the receiver of each
/// address its amount, in order, and then the change, if any, to the first address of
/// the payer. The payer can recover each of them.
pub open spec fn pays_out(payment: Payment, outputs: Seq<(Seq<char>, u64)>, change: int, net: Network) -> bool {
    let fvk = viewing_key(payment.key);
    let made = builder_outputs(payment.builder);
    &&& change >= 0
    &&& change == 0 ==> made.len() == outputs.len()
    &&& change > 0 ==> made.len() == outputs.len() + 1 && made.last() == (
        outgoing_key(fvk),
        first_address(fvk),
        change as u64,
    )
    &&& forall|i: int|
        0 <= i < outputs.len() ==> unified_receiver(outputs[i].0, net) == Some(Some((#[trigger] made[i]).1)) && made[i].2
            == outputs[i].1 && made[i].0 == outgoing_key(fvk)
}

/// Whether a payment spends the first note that can fund it, and pays what it should.
pub open spec fn is_well_made(
    payment: Payment,
    wallet: WalletView,
    blocks: Seq<BlockView>,
    seed: Seq<char>,
    outputs: Seq<(Seq<char>, u64)>,
    fee: u64,
    input: Option<Seq<char>>,
    reserved: Set<Seq<char>>,
    net: Network,
) -> bool {
    let fvk = viewing_key(payment.key);
    let tip = held(wallet, blocks, seed, outputs, fee, net);
    &&& seed_key(seed) == Some(payment.key)
    &&& zatoshi_count(payment.fee) == fee
    &&& synced(wallet, blocks, viewing_key(payment.key), net, cutoff(outputs, fee) as u64).fault is None
    &&& funded(wallet, blocks, seed, outputs, fee, net) == tip
    &&& blocks.len() > 0 && blocks.last().height is Some
    &&& builder_target(payment.builder) == Some(
        (net, (blocks.last().height->0 + 1) as u32, merkle_root(tip.leaves)),
    )
    &&& exists|k: int|
        {
            &&& 0 <= k < tip.notes.len()
            &&& can_fund(#[trigger] tip.notes[k], fvk, needs(outputs, fee), reserved, input)
            &&& forall|j: int|
                0 <= j < k ==> !can_fund(#[trigger] tip.notes[j], fvk, needs(outputs, fee), reserved, input)
            &&& payment.input_txid@ == tip.notes[k].txid
            &&& payment.input_nf@ == hex_text(note_nullifier(tip.notes[k].note, fvk))
            &&& builder_spends(payment.builder) == seq![
                (fvk, tip.notes[k].note, merkle_path(tip.leaves, tip.notes[k].position)),
            ]
            &&& pays_out(payment, outputs, note_value(tip.notes[k].note) - needs(outputs, fee), net)
        }
}

/// A payment spends the first note of the wallet at the tip that can fund it, against
/// the root of the note tree at the tip, for the block after the tip, and pays out all
/// of its value: the fee, the recipients and the change.
pub proof fn law_payments_spend_the_first_note_that_can_fund(
    payment: Payment,
    wallet: WalletView,
    blocks: Seq<BlockView>,
    seed: Seq<char>,
    outputs: Seq<(Seq<char>, u64)>,
    fee: u64,
    input: Option<Seq<char>>,
    reserved: Set<Seq<char>>,
    net: Network,
)
    requires
        is_up_to_date(wallet, blocks, seed, outputs, fee, net),
        is_payment(
            payment,
            funded(wallet, blocks, seed, outputs, fee, net),
            blocks,
            seed,
            outputs,
            fee,
            input,
            reserved,
            net,
        ),
    ensures
        is_well_made(payment, wallet, blocks, seed, outputs, fee, input, reserved, net),
{
    law_the_cutoff_loses_no_funding_note(outputs, fee);
    let fvk = viewing_key(payment.key);
    let tip = held(wallet, blocks, seed, outputs, fee, net);
    let k = choose|k: int| #[trigger]
        is_choice(tip, k, fvk, cost(outputs, fee), reserved, input) && is_spent_for(
            payment,
            tip.notes[k],
            tip.leaves,
            outputs,
            fee,
        );
    assert(fits(tip.notes[k], fvk, cost(outputs, fee), reserved, input));
    assert(can_fund(tip.notes[k], fvk, needs(outputs, fee), reserved, input));
    assert forall|j: int| 0 <= j < k implies !can_fund(
        #[trigger] tip.notes[j],
        fvk,
        needs(outputs, fee),
        reserved,
        input,
    ) by {
        assert(!fits(tip.notes[j], fvk, cost(outputs, fee), reserved, input));
    }
    let made = builder_outputs(payment.builder);
    assert forall|i: int| 0 <= i < outputs.len() implies unified_receiver(outputs[i].0, net) == Some(
        Some((#[trigger] made[i]).1),
    ) && made[i].2 == outputs[i].1 && made[i].0 == outgoing_key(fvk) by {
        assert(receiver_spec(outputs[i].0, net) is Ok);
    }
}

/// A payment is refused only for a reason: the seed has no key, the amounts do not fit,
/// the wallet cannot follow the chain, no note can fund it, the chain has no next
/// block, an address cannot receive, an amount exceeds the supply, or the builder takes
/// the spend or the outputs not.
pub proof fn law_payments_are_refused_only_for_a_reason(
    e: CreateError,
    wallet: WalletView,
    blocks: Seq<BlockView>,
    seed: Seq<char>,
    outputs: Seq<(Seq<char>, u64)>,
    fee: u64,
    input: Option<Seq<char>>,
    reserved: Set<Seq<char>>,
    net: Network,
)
    requires
        is_refusal(e, wallet, blocks, seed, outputs, fee, input, reserved, net),
    ensures
        ({
            let fvk = viewing_key(seed_key(seed)->0);
            let tip = held(wallet, blocks, seed, outputs, fee, net);
            let height = (blocks.last().height->0 + 1) as u32;
            &&& e is Key <==> seed_key(seed) is None
            &&& e is Overflow ==> needs(outputs, fee) > u64::MAX
            &&& e is Sync ==> synced(wallet, blocks, fvk, net, cutoff(outputs, fee) as u64).fault is Some
            &&& e is EmptyChain ==> blocks.len() == 0
            &&& e is Height ==> blocks.len() > 0 && blocks.last().height is None
            &&& e is Receiver ==> exists|i: int|
                0 <= i < outputs.len() && !(unified_receiver((#[trigger] outputs[i]).0, net) matches Some(Some(_)))
            &&& e is Amount ==> fee > 2_100_000_000_000_000 || (exists|i: int|
                0 <= i < outputs.len() && (#[trigger] outputs[i]).1 > 2_100_000_000_000_000) || (exists|k: int|
                0 <= k < tip.notes.len() && note_value((#[trigger] tip.notes[k]).note) - needs(outputs, fee)
                    > 2_100_000_000_000_000)
            &&& e is Refused ==> !output_accepted(net, height) || exists|k: int|
                0 <= k < tip.notes.len() && !spend_accepted(
                    net,
                    height,
                    merkle_root(tip.leaves),
                    fvk,
                    (#[trigger] tip.notes[k]).note,
                    merkle_path(tip.leaves, tip.notes[k].position),
                )
        }),
{
    law_the_cutoff_loses_no_funding_note(outputs, fee);
    let fvk = viewing_key(seed_key(seed)->0);
    let tip = held(wallet, blocks, seed, outputs, fee, net);
    let height = (blocks.last().height->0 + 1) as u32;
    let total = cost(outputs, fee);
    if e is Receiver || e is Amount || e is Refused {
        let k = choose|k: int| #[trigger]
            is_choice(tip, k, fvk, total, reserved, input) && is_obstacle(e, tip, k, fvk, height, outputs, fee, net);
        assert(0 <= k < tip.notes.len());
        let note = tip.notes[k];
    }
}

/// A payment is not refused where nothing stands against it: the seed has a key, the
/// amounts fit and can exist, the wallet follows the chain to a block with a height, a
/// note can fund it, every address can receive, and the builder takes the spend of each
/// note that can fund it, and the outputs.
pub proof fn law_possible_payments_are_made(
    wallet: WalletView,
    blocks: Seq<BlockView>,
    seed: Seq<char>,
    outputs: Seq<(Seq<char>, u64)>,
    fee: u64,
    input: Option<Seq<char>>,
    reserved: Set<Seq<char>>,
    net: Network,
    k: int,
)
    requires
        seed_key(seed) is Some,
        needs(outputs, fee) <= u64::MAX,
        fee <= 2_100_000_000_000_000,
        synced(wallet, blocks, viewing_key(seed_key(seed)->0), net, cutoff(outputs, fee) as u64).fault is None,
        blocks.len() > 0 && blocks.last().height is Some,
        0 <= k < held(wallet, blocks, seed, outputs, fee, net).notes.len(),
        can_fund(
            held(wallet, blocks, seed, outputs, fee, net).notes[k],
            viewing_key(seed_key(seed)->0),
            needs(outputs, fee),
            reserved,
            input,
        ),
        forall|i: int|
            0 <= i < outputs.len() ==> (unified_receiver((#[trigger] outputs[i]).0, net) matches Some(Some(_)))
                && outputs[i].1 <= 2_100_000_000_000_000,
        output_accepted(net, (blocks.last().height->0 + 1) as u32),
        forall|j: int|
            0 <= j < held(wallet, blocks, seed, outputs, fee, net).notes.len() ==> note_value(
                (#[trigger] held(wallet, blocks, seed, outputs, fee, net).notes[j]).note,
            ) <= 2_100_000_000_000_000 && spend_accepted(
                net,
                (blocks.last().height->0 + 1) as u32,
                merkle_root(held(wallet, blocks, seed, outputs, fee, net).leaves),
                viewing_key(seed_key(seed)->0),
                held(wallet, blocks, seed, outputs, fee, net).notes[j].note,
                merkle_path(
                    held(wallet, blocks, seed, outputs, fee, net).leaves,
                    held(wallet, blocks, seed, outputs, fee, net).notes[j].position,
                ),
            ),
    ensures
        forall|e: CreateError| !is_refusal(e, wallet, blocks, seed, outputs, fee, input, reserved, net),
{
    law_the_cutoff_loses_no_funding_note(outputs, fee);
    let fvk = viewing_key(seed_key(seed)->0);
    let tip = held(wallet, blocks, seed, outputs, fee, net);
    let height = (blocks.last().height->0 + 1) as u32;
    let total = cost(outputs, fee);
    assert(fits(tip.notes[k], fvk, total, reserved, input));
    let first = lemma_first_fit(tip, k, fvk, total, reserved, input);
    assert(is_choice(tip, first, fvk, total, reserved, input));
    assert(payable_until(outputs, outputs.len() as int, net));
    assert forall|e: CreateError| !is_refusal(e, wallet, blocks, seed, outputs, fee, input, reserved, net) by {
        if is_refusal(e, wallet, blocks, seed, outputs, fee, input, reserved, net) {
            let j = choose|j: int| #[trigger]
                is_choice(tip, j, fvk, total, reserved, input) && is_obstacle(e, tip, j, fvk, height, outputs, fee, net);
            assert(0 <= j < tip.notes.len());
            assert(note_value(tip.notes[j].note) <= max_money());
        }
    }
}

} // verus!
