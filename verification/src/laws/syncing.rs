//! Syncing: which notes a wallet holds at the tip of a chain.

use crate::encoding::hex_text;
use crate::laws::{lemma_filter_places, picks};
use crate::transaction::{chain_spends, list_spends, spends, BlockView};
use crate::wallet::keys::{external_incoming_key, prepared_key};
use crate::wallet::scan::{decrypted_note, ironwood_leaves, note_nullifier, note_value, parsed_transaction};
use crate::wallet::state::{
    followed, scan_action, scan_actions, scan_blocks, scan_start, scan_transactions, spent_from, synced, Fault,
    OwnedNoteView, Search, WalletView,
};
use crate::wallet::tree::capacity;
use orchard::keys::FullViewingKey;
use orchard::tree::MerkleHashOrchard;
use vstd::prelude::*;
use zakura_chain::parameters::Network;
use zcash_primitives::transaction::Transaction;

verus! {

/// A scan: of which blocks, from which one on, with which key, for notes of which value,
/// and how many commitments there are before.
pub struct Hunt {
    pub blocks: Seq<BlockView>,
    pub from: int,
    pub net: Network,
    pub fvk: FullViewingKey,
    pub min_value: u64,
    pub leaves: Seq<MerkleHashOrchard>,
}

/// Whether a block of the scan reveals a nullifier.
pub open spec fn reveals_from(blocks: Seq<BlockView>, from: int, nullifier: Seq<char>) -> bool {
    exists|b: int, t: int|
        from <= b < blocks.len() && 0 <= t < blocks[b].transactions.len() && (
        #[trigger] blocks[b].transactions[t]).nullifiers.contains(nullifier)
}

proof fn lemma_reveals(blocks: Seq<BlockView>, from: int, nullifier: Seq<char>)
    ensures
        spent_from(blocks, from).contains(nullifier) == reveals_from(blocks, from, nullifier),
{
    if spent_from(blocks, from).contains(nullifier) {
        assert(chain_spends(blocks, from, blocks.len() as int, nullifier));
        let b = choose|b: int|
            from <= b < blocks.len() && list_spends(
                (#[trigger] blocks[b]).transactions,
                blocks[b].transactions.len() as int,
                nullifier,
            );
        let t = choose|t: int|
            0 <= t < blocks[b].transactions.len() && spends(#[trigger] blocks[b].transactions[t], nullifier);
        assert(blocks[b].transactions[t].nullifiers.contains(nullifier));
    }
    if reveals_from(blocks, from, nullifier) {
        let (b, t) = choose|b: int, t: int|
            from <= b < blocks.len() && 0 <= t < blocks[b].transactions.len() && (
            #[trigger] blocks[b].transactions[t]).nullifiers.contains(nullifier);
        assert(spends(blocks[b].transactions[t], nullifier));
        assert(list_spends(blocks[b].transactions, blocks[b].transactions.len() as int, nullifier));
        assert(chain_spends(blocks, from, blocks.len() as int, nullifier));
    }
}

/// A transaction of a block, as the key reads it at the height of the block.
pub open spec fn opened(block: BlockView, t: int, net: Network) -> Option<Transaction> {
    match block.height {
        Some(height) => parsed_transaction(block.transactions[t].bytes, net, height),
        None => None,
    }
}

/// The commitments of the first transactions of a block.
pub open spec fn block_leaves(block: BlockView, n: nat, net: Network) -> Seq<MerkleHashOrchard>
    decreases n,
{
    if n == 0 {
        Seq::empty()
    } else {
        block_leaves(block, (n - 1) as nat, net) + ironwood_leaves(opened(block, n - 1, net)->0)
    }
}

/// The commitments of blocks.
pub open spec fn range_leaves(blocks: Seq<BlockView>, from: int, to: int, net: Network) -> Seq<MerkleHashOrchard>
    decreases to - from,
{
    if to <= from {
        Seq::empty()
    } else {
        range_leaves(blocks, from, to - 1, net) + block_leaves(
            blocks[to - 1],
            blocks[to - 1].transactions.len(),
            net,
        )
    }
}

/// A place of the chain: a block, a transaction in it, and an action of that.
pub struct Place {
    pub b: int,
    pub t: int,
    pub i: int,
}

impl Hunt {
    pub open spec fn tx(self, at: Place) -> Transaction {
        opened(self.blocks[at.b], at.t, self.net)->0
    }

    /// Whether a place lies in the blocks of the scan.
    pub open spec fn covers(self, at: Place) -> bool {
        &&& self.from <= at.b < self.blocks.len()
        &&& 0 <= at.t < self.blocks[at.b].transactions.len()
        &&& 0 <= at.i < ironwood_leaves(self.tx(at)).len()
    }

    /// The note that the key reads at a place.
    pub open spec fn note(self, at: Place) -> Option<orchard::Note> {
        decrypted_note(self.tx(at), at.i, prepared_key(external_incoming_key(self.fvk)))
    }

    /// Whether a note is worth something, and enough, and the blocks do not spend it.
    pub open spec fn wants(self, note: orchard::Note) -> bool {
        &&& 0 < note_value(note) && self.min_value <= note_value(note)
        &&& !reveals_from(self.blocks, self.from, hex_text(note_nullifier(note, self.fvk)))
    }

    /// Whether the key finds a note at a place.
    #[verifier::opaque]
    pub open spec fn finds(self, at: Place) -> bool {
        self.covers(at) && self.note(at) is Some && self.wants(self.note(at)->0)
    }

    /// The number of commitments before a place.
    pub open spec fn rank(self, at: Place) -> int {
        self.leaves.len() + range_leaves(self.blocks, self.from, at.b, self.net).len() + block_leaves(
            self.blocks[at.b],
            at.t as nat,
            self.net,
        ).len() + at.i
    }

    /// Whether a note of a wallet is the one at a place.
    #[verifier::opaque]
    pub open spec fn is_at(self, owned: OwnedNoteView, at: Place) -> bool {
        &&& self.note(at) == Some(owned.note)
        &&& owned.txid == self.blocks[at.b].transactions[at.t].txid
        &&& owned.position == self.rank(at)
    }

    pub open spec fn search(self) -> Search {
        Search { fvk: self.fvk, net: self.net, spent: spent_from(self.blocks, self.from) }
    }
}

/// Whether a place is before another.
pub open spec fn earlier(at: Place, limit: Place) -> bool {
    at.b < limit.b || at.b == limit.b && (at.t < limit.t || at.t == limit.t && at.i < limit.i)
}

/// Whether two notes of wallets are the same, whatever was committed after them.
pub open spec fn same_note(a: OwnedNoteView, b: OwnedNoteView) -> bool {
    a.note == b.note && a.position == b.position && a.txid == b.txid
}

/// Whether the key finds a note of a wallet before a place.
#[verifier::opaque]
pub open spec fn is_placed(h: Hunt, owned: OwnedNoteView, limit: Place) -> bool {
    exists|at: Place| #[trigger] h.finds(at) && h.is_at(owned, at) && earlier(at, limit)
}

/// Whether one of the notes from the `n`-th on is the one at a place.
#[verifier::opaque]
pub open spec fn is_noted(h: Hunt, notes: Seq<OwnedNoteView>, n: int, at: Place) -> bool {
    exists|k: int| n <= k < notes.len() && h.is_at(#[trigger] notes[k], at)
}

/// Whether a wallet, after a scan up to a place, holds what it held before, and exactly
/// the notes that the key finds there, in order.
#[verifier::opaque]
pub open spec fn reached(h: Hunt, before: Seq<OwnedNoteView>, w: WalletView, limit: Place) -> bool {
    &&& w.min_value == h.min_value
    &&& before.len() <= w.notes.len()
    &&& forall|k: int| 0 <= k < before.len() ==> same_note(#[trigger] w.notes[k], before[k])
    &&& forall|k: int|
        before.len() <= k < w.notes.len() ==> h.leaves.len() <= (#[trigger] w.notes[k]).position < w.leaves.len()
    &&& forall|k: int| before.len() <= k < w.notes.len() ==> is_placed(h, #[trigger] w.notes[k], limit)
    &&& forall|at: Place| #[trigger]
        h.finds(at) && earlier(at, limit) ==> is_noted(h, w.notes, before.len() as int, at)
    &&& forall|j: int, k: int|
        before.len() <= j < k < w.notes.len() ==> (#[trigger] w.notes[j]).position < (#[trigger] w.notes[k]).position
}

proof fn lemma_found(h: Hunt, w: WalletView, at: Place)
    requires
        h.covers(at),
        w.min_value == h.min_value,
        w.leaves.len() == h.rank(at),
        scan_action(w, h.tx(at), at.i, h.blocks[at.b].transactions[at.t].txid, h.search()).fault is None,
    ensures
        ({
            let after = scan_action(w, h.tx(at), at.i, h.blocks[at.b].transactions[at.t].txid, h.search()).wallet;
            &&& after.min_value == w.min_value && after.hashes == w.hashes
            &&& after.leaves == w.leaves.push(ironwood_leaves(h.tx(at))[at.i])
            &&& forall|k: int| 0 <= k < w.notes.len() ==> same_note(#[trigger] after.notes[k], w.notes[k])
            &&& h.finds(at) ==> after.notes.len() == w.notes.len() + 1 && h.is_at(after.notes[w.notes.len() as int], at)
                && after.notes[w.notes.len() as int].position == w.leaves.len()
            &&& !h.finds(at) ==> after.notes.len() == w.notes.len()
        }),
{
    reveal(Hunt::finds);
    reveal(Hunt::is_at);
    let txid = h.blocks[at.b].transactions[at.t].txid;
    let after = scan_action(w, h.tx(at), at.i, txid, h.search()).wallet;
    let old_notes = followed(w.notes, ironwood_leaves(h.tx(at))[at.i]);
    let found = h.note(at);
    if found is Some {
        lemma_reveals(h.blocks, h.from, hex_text(note_nullifier(found->0, h.fvk)));
    }
    assert forall|k: int| 0 <= k < w.notes.len() implies same_note(#[trigger] after.notes[k], w.notes[k]) by {
        assert(old_notes[k].note == w.notes[k].note);
    }
}

proof fn lemma_same_place(h: Hunt, a: OwnedNoteView, b: OwnedNoteView, at: Place)
    requires
        same_note(a, b),
    ensures
        h.is_at(a, at) == h.is_at(b, at),
{
    reveal(Hunt::is_at);
}

proof fn lemma_stays_placed(h: Hunt, a: OwnedNoteView, b: OwnedNoteView, at: Place, limit: Place)
    requires
        same_note(b, a),
        is_placed(h, a, at),
        limit == (Place { i: at.i + 1, ..at }),
    ensures
        is_placed(h, b, limit),
{
    reveal(is_placed);
    let p = choose|p: Place| #[trigger] h.finds(p) && h.is_at(a, p) && earlier(p, at);
    lemma_same_place(h, b, a, p);
    assert(h.finds(p) && h.is_at(b, p) && earlier(p, limit));
}

proof fn lemma_stays_noted(h: Hunt, a: Seq<OwnedNoteView>, b: Seq<OwnedNoteView>, n: int, p: Place)
    requires
        0 <= n,
        a.len() <= b.len(),
        forall|k: int| 0 <= k < a.len() ==> same_note(#[trigger] b[k], a[k]),
        is_noted(h, a, n, p),
    ensures
        is_noted(h, b, n, p),
{
    reveal(is_noted);
    let k = choose|k: int| n <= k < a.len() && h.is_at(#[trigger] a[k], p);
    lemma_same_place(h, b[k], a[k], p);
    assert(h.is_at(b[k], p));
}

proof fn lemma_action(h: Hunt, before: Seq<OwnedNoteView>, w: WalletView, at: Place)
    requires
        h.covers(at),
        reached(h, before, w, at),
        w.leaves.len() == h.rank(at),
        scan_action(w, h.tx(at), at.i, h.blocks[at.b].transactions[at.t].txid, h.search()).fault is None,
    ensures
        ({
            let after = scan_action(w, h.tx(at), at.i, h.blocks[at.b].transactions[at.t].txid, h.search()).wallet;
            &&& reached(h, before, after, Place { i: at.i + 1, ..at })
            &&& after.leaves == w.leaves.push(ironwood_leaves(h.tx(at))[at.i])
            &&& after.hashes == w.hashes
        }),
{
    reveal(reached);
    lemma_found(h, w, at);
    let after = scan_action(w, h.tx(at), at.i, h.blocks[at.b].transactions[at.t].txid, h.search()).wallet;
    lemma_taken_in(h, before, w, after, at);
}

proof fn lemma_taken_in(h: Hunt, before: Seq<OwnedNoteView>, w: WalletView, after: WalletView, at: Place)
    requires
        reached(h, before, w, at),
        after.min_value == w.min_value,
        after.leaves.len() == w.leaves.len() + 1,
        h.leaves.len() <= w.leaves.len(),
        forall|k: int| 0 <= k < w.notes.len() ==> same_note(#[trigger] after.notes[k], w.notes[k]),
        h.finds(at) ==> after.notes.len() == w.notes.len() + 1 && h.is_at(after.notes[w.notes.len() as int], at)
            && after.notes[w.notes.len() as int].position == w.leaves.len(),
        !h.finds(at) ==> after.notes.len() == w.notes.len(),
    ensures
        reached(h, before, after, Place { i: at.i + 1, ..at }),
{
    reveal(reached);
    let limit = Place { i: at.i + 1, ..at };
    let n = w.notes.len() as int;
    assert forall|k: int| 0 <= k < before.len() implies same_note(#[trigger] after.notes[k], before[k]) by {
        assert(same_note(w.notes[k], before[k]));
    }
    assert forall|k: int| before.len() <= k < after.notes.len() implies h.leaves.len() <= (
    #[trigger] after.notes[k]).position < after.leaves.len() by {
        if k < n {
            assert(w.notes[k].position < w.leaves.len());
        }
    }
    assert forall|k: int| before.len() <= k < after.notes.len() implies is_placed(h, #[trigger] after.notes[k], limit) by {
        if k < n {
            assert(is_placed(h, w.notes[k], at));
            lemma_stays_placed(h, w.notes[k], after.notes[k], at, limit);
        } else {
            assert(is_placed(h, after.notes[k], limit)) by {
                reveal(is_placed);
                assert(h.finds(at) && h.is_at(after.notes[k], at) && earlier(at, limit));
            }
        }
    }
    assert forall|p: Place| #[trigger] h.finds(p) && earlier(p, limit) implies is_noted(
        h,
        after.notes,
        before.len() as int,
        p,
    ) by {
        if earlier(p, at) {
            assert(is_noted(h, w.notes, before.len() as int, p));
            lemma_stays_noted(h, w.notes, after.notes, before.len() as int, p);
        } else {
            assert(p == at);
            assert(is_noted(h, after.notes, before.len() as int, p)) by {
                reveal(is_noted);
                assert(h.is_at(after.notes[n], p));
            }
        }
    }
    assert forall|j: int, k: int| before.len() <= j < k < after.notes.len() implies (#[trigger] after.notes[j]).position < (
    #[trigger] after.notes[k]).position by {
        assert(same_note(after.notes[j], w.notes[j]));
        assert(w.notes[j].position < w.leaves.len());
        if k < n {
            assert(w.notes[j].position < w.notes[k].position);
        }
    }
}

proof fn lemma_actions(h: Hunt, before: Seq<OwnedNoteView>, w: WalletView, b: int, t: int, n: nat)
    requires
        h.from <= b < h.blocks.len(),
        0 <= t < h.blocks[b].transactions.len(),
        n <= ironwood_leaves(h.tx(Place { b, t, i: 0 })).len(),
        reached(h, before, w, Place { b, t, i: 0 }),
        w.leaves.len() == h.rank(Place { b, t, i: 0 }),
    ensures
        ({
            let tx = h.tx(Place { b, t, i: 0 });
            let scan = scan_actions(w, tx, n, h.blocks[b].transactions[t].txid, h.search());
            &&& scan.fault is None ==> {
                &&& reached(h, before, scan.wallet, Place { b, t, i: n as int })
                &&& scan.wallet.leaves == w.leaves + ironwood_leaves(tx).take(n as int)
                &&& scan.wallet.hashes == w.hashes
            }
            &&& scan.fault is Some ==> scan.fault == Some(Fault::TreeFull) && w.leaves.len() + n > capacity()
            &&& scan.fault is None && n > 0 ==> w.leaves.len() + n <= capacity()
        }),
    decreases n,
{
    let at = Place { b, t, i: 0 };
    let tx = h.tx(at);
    let txid = h.blocks[b].transactions[t].txid;
    if n == 0 {
        assert(w.leaves + ironwood_leaves(tx).take(0) =~= w.leaves);
    } else {
        lemma_actions(h, before, w, b, t, (n - 1) as nat);
        let scan = scan_actions(w, tx, (n - 1) as nat, txid, h.search());
        if scan.fault is None {
            let here = Place { b, t, i: n - 1 };
            assert(h.tx(here) == tx);
            let next = scan_action(scan.wallet, tx, n - 1, txid, h.search());
            if next.fault is None {
                lemma_action(h, before, scan.wallet, here);
                assert(Place { i: here.i + 1, ..here } == Place { b, t, i: n as int });
                assert(ironwood_leaves(tx).take(n as int) =~= ironwood_leaves(tx).take(n - 1).push(
                    ironwood_leaves(tx)[n - 1],
                ));
                assert(next.wallet.leaves =~= w.leaves + ironwood_leaves(tx).take(n as int));
            }
        }
    }
}

proof fn lemma_next_place(h: Hunt, before: Seq<OwnedNoteView>, w: WalletView, later: WalletView, limit: Place, next: Place)
    requires
        reached(h, before, w, limit),
        later.notes == w.notes && later.leaves == w.leaves && later.min_value == w.min_value,
        forall|at: Place| #[trigger] h.finds(at) ==> earlier(at, limit) == earlier(at, next),
    ensures
        reached(h, before, later, next),
{
    reveal(reached);
    assert forall|k: int| before.len() <= k < later.notes.len() implies is_placed(h, #[trigger] later.notes[k], next) by {
        assert(is_placed(h, w.notes[k], limit));
        assert(is_placed(h, later.notes[k], next)) by {
            reveal(is_placed);
            let at = choose|at: Place| #[trigger] h.finds(at) && h.is_at(w.notes[k], at) && earlier(at, limit);
            assert(h.finds(at) && h.is_at(later.notes[k], at) && earlier(at, next));
        }
    }
}

proof fn lemma_found_is_covered(h: Hunt, at: Place)
    ensures
        h.finds(at) ==> h.covers(at),
{
    reveal(Hunt::finds);
}

proof fn lemma_at_the_start(h: Hunt, w: WalletView)
    requires
        w.min_value == h.min_value,
    ensures
        reached(h, w.notes, w, Place { b: h.from, t: 0, i: 0 }),
{
    reveal(reached);
    let first = Place { b: h.from, t: 0, i: 0 };
    assert forall|at: Place| #[trigger] h.finds(at) && earlier(at, first) implies is_noted(
        h,
        w.notes,
        w.notes.len() as int,
        at,
    ) by {
        lemma_found_is_covered(h, at);
    }
}

proof fn lemma_transactions(h: Hunt, before: Seq<OwnedNoteView>, w: WalletView, b: int, n: nat)
    requires
        h.from <= b < h.blocks.len(),
        h.blocks[b].height is Some,
        n <= h.blocks[b].transactions.len(),
        reached(h, before, w, Place { b, t: 0, i: 0 }),
        w.leaves.len() == h.leaves.len() + range_leaves(h.blocks, h.from, b, h.net).len(),
    ensures
        ({
            let block = h.blocks[b];
            let scan = scan_transactions(w, block.transactions, n, block.height->0, h.search());
            &&& scan.fault is None ==> {
                &&& reached(h, before, scan.wallet, Place { b, t: n as int, i: 0 })
                &&& scan.wallet.leaves == w.leaves + block_leaves(block, n, h.net)
                &&& scan.wallet.hashes == w.hashes
                &&& forall|t: int| 0 <= t < n ==> (#[trigger] opened(block, t, h.net)) is Some
                &&& block_leaves(block, n, h.net).len() > 0 ==> scan.wallet.leaves.len() <= capacity()
            }
            &&& scan.fault is Some ==> {
                ||| scan.fault == Some(Fault::Malformed) && exists|t: int|
                    0 <= t < n && (#[trigger] opened(block, t, h.net)) is None
                ||| scan.fault == Some(Fault::TreeFull) && w.leaves.len() + block_leaves(block, n, h.net).len()
                    > capacity()
            }
        }),
    decreases n,
{
    let block = h.blocks[b];
    let height = block.height->0;
    if n == 0 {
        assert(w.leaves + block_leaves(block, 0, h.net) =~= w.leaves);
    } else {
        let m = (n - 1) as nat;
        lemma_transactions(h, before, w, b, m);
        let scan = scan_transactions(w, block.transactions, m, height, h.search());
        let here = Place { b, t: n - 1, i: 0 };
        assert(opened(block, n - 1, h.net) == parsed_transaction(block.transactions[n - 1].bytes, h.net, height));
        if scan.fault is None && opened(block, n - 1, h.net) is Some {
            let tx = h.tx(here);
            let count = ironwood_leaves(tx).len();
            lemma_actions(h, before, scan.wallet, b, n - 1, count);
            let next = scan_actions(scan.wallet, tx, count, block.transactions[n - 1].txid, h.search());
            assert(block_leaves(block, n, h.net) == block_leaves(block, m, h.net) + ironwood_leaves(tx));
            if next.fault is None {
                assert(ironwood_leaves(tx).take(count as int) =~= ironwood_leaves(tx));
                assert(next.wallet.leaves =~= w.leaves + block_leaves(block, n, h.net));
                let limit = Place { b, t: n - 1, i: count as int };
                let after = Place { b, t: n as int, i: 0 };
                assert forall|at: Place| #[trigger] h.finds(at) implies earlier(at, limit) == earlier(at, after) by {
                    lemma_found_is_covered(h, at);
                    if at.b == b && at.t == n - 1 {
                        assert(h.tx(at) == tx);
                    }
                }
                lemma_next_place(h, before, next.wallet, next.wallet, limit, after);
                if count == 0 {
                    assert(block_leaves(block, n, h.net) =~= block_leaves(block, m, h.net));
                }
            }
        }
    }
}

/// Whether a scan has to fail: a block has no height, a transaction in a block with a
/// height cannot be read, or there are more commitments than the tree can hold.
pub open spec fn is_fault(h: Hunt, to: int, fault: Fault) -> bool {
    match fault {
        Fault::Height => exists|b: int| h.from <= b < to && (#[trigger] h.blocks[b]).height is None,
        Fault::Malformed => exists|b: int, t: int|
            h.from <= b < to && h.blocks[b].height is Some && 0 <= t < h.blocks[b].transactions.len() && (
            #[trigger] opened(h.blocks[b], t, h.net)) is None,
        Fault::TreeFull => h.leaves.len() + range_leaves(h.blocks, h.from, to, h.net).len() > 0x1_0000_0000,
    }
}

proof fn lemma_fault_stays(h: Hunt, to: int, fault: Fault)
    requires
        h.from < to <= h.blocks.len(),
        is_fault(h, to - 1, fault),
    ensures
        is_fault(h, to, fault),
{
    match fault {
        Fault::Height => {
            let b = choose|b: int| h.from <= b < to - 1 && (#[trigger] h.blocks[b]).height is None;
            assert(h.blocks[b].height is None);
        },
        Fault::Malformed => {
            let (b, t) = choose|b: int, t: int|
                h.from <= b < to - 1 && h.blocks[b].height is Some && 0 <= t < h.blocks[b].transactions.len() && (
                #[trigger] opened(h.blocks[b], t, h.net)) is None;
            assert(opened(h.blocks[b], t, h.net) is None);
        },
        Fault::TreeFull => {},
    }
}

proof fn lemma_blocks(h: Hunt, before: Seq<OwnedNoteView>, w: WalletView, to: int)
    requires
        h.from <= to <= h.blocks.len(),
        0 <= h.from,
        reached(h, before, w, Place { b: h.from, t: 0, i: 0 }),
        w.leaves == h.leaves,
    ensures
        ({
            let scan = scan_blocks(w, h.blocks, h.from, to, h.search());
            &&& scan.fault is None ==> {
                &&& reached(h, before, scan.wallet, Place { b: to, t: 0, i: 0 })
                &&& scan.wallet.leaves == w.leaves + range_leaves(h.blocks, h.from, to, h.net)
                &&& scan.wallet.hashes == w.hashes + Seq::new((to - h.from) as nat, |i: int| h.blocks[h.from + i].hash)
                &&& readable(h, to)
                &&& range_leaves(h.blocks, h.from, to, h.net).len() > 0 ==> scan.wallet.leaves.len() <= capacity()
            }
            &&& scan.fault is Some ==> is_fault(h, to, scan.fault->0)
        }),
    decreases to - h.from,
{
    if to == h.from {
        assert(w.leaves + range_leaves(h.blocks, h.from, to, h.net) =~= w.leaves);
        assert(w.hashes + Seq::new(0, |i: int| h.blocks[h.from + i].hash) =~= w.hashes);
    } else {
        lemma_blocks(h, before, w, to - 1);
        let scan = scan_blocks(w, h.blocks, h.from, to - 1, h.search());
        let block = h.blocks[to - 1];
        if scan.fault is Some {
            lemma_fault_stays(h, to, scan.fault->0);
        } else {
            if block.height is None {
                assert(h.blocks[to - 1].height is None);
            } else {
                let n = block.transactions.len();
                lemma_transactions(h, before, scan.wallet, to - 1, n);
                let next = scan_transactions(scan.wallet, block.transactions, n, block.height->0, h.search());
                if next.fault is None {
                    let limit = Place { b: to - 1, t: n as int, i: 0 };
                    let after = Place { b: to, t: 0, i: 0 };
                    assert forall|at: Place| #[trigger] h.finds(at) implies earlier(at, limit) == earlier(at, after) by {
                        lemma_found_is_covered(h, at);
                    }
                    let done = scan_blocks(w, h.blocks, h.from, to, h.search()).wallet;
                    lemma_next_place(h, before, next.wallet, done, limit, after);
                    assert(done.leaves =~= w.leaves + range_leaves(h.blocks, h.from, to, h.net));
                    assert(done.hashes =~= w.hashes + Seq::new(
                        (to - h.from) as nat,
                        |i: int| h.blocks[h.from + i].hash,
                    ));
                    if block_leaves(block, n, h.net).len() == 0 {
                        assert(range_leaves(h.blocks, h.from, to, h.net) =~= range_leaves(
                            h.blocks,
                            h.from,
                            to - 1,
                            h.net,
                        ));
                    }
                } else if next.fault == Some(Fault::Malformed) && exists|t: int|
                    0 <= t < n && (#[trigger] opened(block, t, h.net)) is None {
                    let t = choose|t: int| 0 <= t < n && (#[trigger] opened(block, t, h.net)) is None;
                    assert(opened(h.blocks[to - 1], t, h.net) is None);
                }
            }
        }
    }
}

/// Whether every block of a scan has a height, and every transaction in it can be read.
pub open spec fn readable(h: Hunt, to: int) -> bool {
    &&& forall|b: int| h.from <= b < to ==> (#[trigger] h.blocks[b]).height is Some
    &&& forall|b: int, t: int|
        h.from <= b < to && 0 <= t < h.blocks[b].transactions.len() ==> (#[trigger] opened(h.blocks[b], t, h.net)) is Some
}

/// Whether a wallet has to start over: notes of less value are wanted than it kept, or
/// its last block is not in the chain.
pub open spec fn starts_over(wallet: WalletView, blocks: Seq<BlockView>, min_value: u64) -> bool {
    ||| min_value < wallet.min_value
    ||| wallet.hashes.len() > blocks.len()
    ||| wallet.hashes.len() > 0 && wallet.hashes[wallet.hashes.len() - 1] != blocks[wallet.hashes.len() - 1].hash
}

/// The scan that brings a wallet up to date: of all blocks, if it starts over, and else
/// of those that it has not seen.
pub open spec fn hunt(wallet: WalletView, blocks: Seq<BlockView>, fvk: FullViewingKey, net: Network, min_value: u64) -> Hunt {
    let over = starts_over(wallet, blocks, min_value);
    let from = if over {
        0int
    } else {
        wallet.hashes.len() as int
    };
    Hunt {
        blocks,
        from,
        net,
        fvk,
        min_value: if from == 0 {
            min_value
        } else {
            wallet.min_value
        },
        leaves: if over {
            Seq::empty()
        } else {
            wallet.leaves
        },
    }
}

/// Whether a wallet still holds a note of its own that new blocks do not spend.
pub open spec fn stays(h: Hunt) -> spec_fn(OwnedNoteView) -> bool {
    |n: OwnedNoteView| !reveals_from(h.blocks, h.from, hex_text(note_nullifier(n.note, h.fvk)))
}

/// The notes that a wallet may keep: its own, or none if it starts over.
pub open spec fn own_notes(wallet: WalletView, over: bool) -> Seq<OwnedNoteView> {
    if over {
        Seq::empty()
    } else {
        wallet.notes
    }
}

/// The notes at places of a list.
pub open spec fn picked(list: Seq<OwnedNoteView>, places: Seq<int>) -> Seq<OwnedNoteView> {
    Seq::new(places.len(), |i: int| list[places[i]])
}

/// Whether a wallet, brought up to date, holds the notes that it should at the tip.
pub open spec fn holds_the_tip(
    wallet: WalletView,
    after: WalletView,
    blocks: Seq<BlockView>,
    fvk: FullViewingKey,
    net: Network,
    min_value: u64,
) -> bool {
    let h = hunt(wallet, blocks, fvk, net, min_value);
    let over = starts_over(wallet, blocks, min_value);
    let own = own_notes(wallet, over);
    &&& exists|places: Seq<int>| #[trigger]
        picks(places, own, stays(h)) && reached(
            h,
            picked(own, places),
            after,
            Place { b: blocks.len() as int, t: 0, i: 0 },
        )
    &&& after.leaves == h.leaves + range_leaves(blocks, h.from, blocks.len() as int, net)
    &&& after.hashes == (if over {
        Seq::empty()
    } else {
        wallet.hashes
    }) + Seq::new((blocks.len() - h.from) as nat, |i: int| blocks[h.from + i].hash)
    &&& readable(h, blocks.len() as int)
}

/// A wallet at the tip holds, in the order of the chain, the notes that it held before
/// and that new blocks do not spend, unless it starts over; and each note that the new
/// blocks pay to the key, that is worth something and enough, and that they do not
/// spend. It holds no other note. Its tree has all commitments in order.
pub proof fn law_wallets_hold_every_note_and_no_other(
    wallet: WalletView,
    blocks: Seq<BlockView>,
    fvk: FullViewingKey,
    net: Network,
    min_value: u64,
)
    requires
        synced(wallet, blocks, fvk, net, min_value).fault is None,
    ensures
        holds_the_tip(wallet, synced(wallet, blocks, fvk, net, min_value).wallet, blocks, fvk, net, min_value),
{
    let h = hunt(wallet, blocks, fvk, net, min_value);
    let start = scan_start(wallet, blocks, fvk, min_value);
    let own = own_notes(wallet, starts_over(wallet, blocks, min_value));
    let spent = spent_from(blocks, h.from);
    let unspent = |n: OwnedNoteView| !spent.contains(hex_text(note_nullifier(n.note, fvk)));
    let places = lemma_filter_places(own, unspent);
    assert forall|n: OwnedNoteView| #[trigger] unspent(n) == (stays(h))(n) by {
        lemma_reveals(blocks, h.from, hex_text(note_nullifier(n.note, fvk)));
    }
    assert(picks(places, own, stays(h))) by {
        assert forall|i: int| 0 <= i < places.len() implies 0 <= #[trigger] places[i] < own.len() && (stays(h))(
            own[places[i]],
        ) by {
            assert(unspent(own[places[i]]));
        }
        assert forall|k: int| 0 <= k < own.len() && (stays(h))(#[trigger] own[k]) implies places.contains(k) by {
            assert(unspent(own[k]));
        }
    }
    let kept = picked(own, places);
    assert(start.notes =~= kept);
    assert(start.hashes.len() == h.from);
    lemma_at_the_start(h, start);
    lemma_blocks(h, kept, start, blocks.len() as int);
}

/// Whether bringing a wallet up to date fails exactly where it must.
pub open spec fn fails_rightly(
    fault: Option<Fault>,
    wallet: WalletView,
    blocks: Seq<BlockView>,
    fvk: FullViewingKey,
    net: Network,
    min_value: u64,
) -> bool {
    let h = hunt(wallet, blocks, fvk, net, min_value);
    let count = h.leaves.len() + range_leaves(blocks, h.from, blocks.len() as int, net).len();
    &&& readable(h, blocks.len() as int) && count <= 0x1_0000_0000 ==> fault is None
    &&& fault is None ==> readable(h, blocks.len() as int) && (count > h.leaves.len() ==> count <= 0x1_0000_0000)
    &&& fault is Some ==> is_fault(h, blocks.len() as int, fault->0)
}

/// Bringing a wallet up to date fails only if a new block has no height, a transaction
/// in it cannot be read, or there are more commitments than the tree can hold.
pub proof fn law_wallets_follow_readable_chains(
    wallet: WalletView,
    blocks: Seq<BlockView>,
    fvk: FullViewingKey,
    net: Network,
    min_value: u64,
)
    ensures
        fails_rightly(synced(wallet, blocks, fvk, net, min_value).fault, wallet, blocks, fvk, net, min_value),
{
    let h = hunt(wallet, blocks, fvk, net, min_value);
    let start = scan_start(wallet, blocks, fvk, min_value);
    let spent = spent_from(blocks, h.from);
    assert(start.hashes.len() == h.from);
    lemma_at_the_start(h, start);
    lemma_blocks(h, start.notes, start, blocks.len() as int);
}

} // verus!
