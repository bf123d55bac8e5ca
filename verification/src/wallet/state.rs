//! The notes that a key can spend at the tip of a chain, kept up to date block by
//! block.

use crate::encoding::{hex_encode, hex_text};
use crate::text::same_text;
use crate::transaction::{
    block_views, chain_nullifiers, chain_spends, identified, is_txid, tx_views, Block, BlockView, Tx, TxView,
};
use crate::wallet::keys::{incoming_key, incoming_viewing_key};
use crate::wallet::scan::{
    commitment_leaves, decrypt_note, decrypted_note, ironwood_leaves, note_nullifier, note_value, nullifier_of, parse,
    parsed_transaction, value_of,
};
use crate::wallet::tree::{
    append_leaf, append_to_witness, capacity, empty_tree, last_leaf_witness, tree_leaves, witness_leaves, witness_position,
};
use incrementalmerkletree::frontier::CommitmentTree;
use incrementalmerkletree::witness::IncrementalWitness;
use orchard::keys::{FullViewingKey, PreparedIncomingViewingKey};
use orchard::tree::MerkleHashOrchard;
use vstd::hash_set::StringHashSet;
use vstd::prelude::*;
use zakura_chain::parameters::Network;
use zcash_primitives::transaction::Transaction;

verus! {

/// A note that the key can spend, its witness, and the transaction that paid it.
pub struct OwnedNote {
    pub note: orchard::Note,
    pub witness: IncrementalWitness<MerkleHashOrchard, 32>,
    pub txid: String,
}

#[verifier::ext_equal]
pub struct OwnedNoteView {
    pub note: orchard::Note,
    pub leaves: Seq<MerkleHashOrchard>,
    pub position: nat,
    pub txid: Seq<char>,
}

impl View for OwnedNote {
    type V = OwnedNoteView;

    open spec fn view(&self) -> OwnedNoteView {
        OwnedNoteView {
            note: self.note,
            leaves: witness_leaves(self.witness),
            position: witness_position(self.witness),
            txid: self.txid@,
        }
    }
}

/// The models of a list of notes.
pub open spec fn note_views(notes: Seq<OwnedNote>) -> Seq<OwnedNoteView> {
    notes.map_values(|n: OwnedNote| n@)
}

/// The hashes of the blocks that were scanned, the tree of the commitments in them,
/// and the unspent notes found there that are worth at least `min_value`.
pub struct WalletState {
    pub min_value: u64,
    pub hashes: Vec<String>,
    pub tree: CommitmentTree<MerkleHashOrchard, 32>,
    pub notes: Vec<OwnedNote>,
}

#[verifier::ext_equal]
pub struct WalletView {
    pub min_value: u64,
    pub hashes: Seq<Seq<char>>,
    pub leaves: Seq<MerkleHashOrchard>,
    pub notes: Seq<OwnedNoteView>,
}

impl View for WalletState {
    type V = WalletView;

    open spec fn view(&self) -> WalletView {
        WalletView {
            min_value: self.min_value,
            hashes: self.hashes@.map_values(|h: String| h@),
            leaves: tree_leaves(self.tree),
            notes: note_views(self.notes@),
        }
    }
}

/// A wallet that has scanned nothing.
pub open spec fn empty_wallet() -> WalletView {
    WalletView { min_value: 0, hashes: Seq::empty(), leaves: Seq::empty(), notes: Seq::empty() }
}

impl WalletView {
    /// Every witness has followed the tree to its last leaf, and places a leaf of it.
    pub open spec fn wf(self) -> bool {
        forall|k: int|
            0 <= k < self.notes.len() ==> (#[trigger] self.notes[k]).leaves == self.leaves && self.notes[k].position
                < self.leaves.len()
    }
}

impl WalletView {
    /// Whether each note comes from a transaction that is identified as those are that
    /// were read.
    pub open spec fn identified(self) -> bool {
        forall|k: int| 0 <= k < self.notes.len() ==> is_txid((#[trigger] self.notes[k]).txid)
    }
}

/// What stops a scan.
pub enum Fault {
    Height,
    Malformed,
    TreeFull,
}

/// A wallet after part of a scan, and what stopped the scan, if anything did.
#[verifier::ext_equal]
pub struct Scan {
    pub wallet: WalletView,
    pub fault: Option<Fault>,
}

/// What a scan looks for: the notes of a key that are not spent.
pub struct Search {
    pub fvk: FullViewingKey,
    pub net: Network,
    pub spent: Set<Seq<char>>,
}

/// The notes after a leaf was added to the tree: each witness follows it.
pub open spec fn followed(notes: Seq<OwnedNoteView>, leaf: MerkleHashOrchard) -> Seq<OwnedNoteView> {
    notes.map_values(|n: OwnedNoteView| OwnedNoteView { leaves: n.leaves.push(leaf), ..n })
}

/// Whether a note is kept: it is worth something, worth the cutoff, and not spent.
pub open spec fn kept(note: orchard::Note, min_value: u64, search: Search) -> bool {
    &&& note_value(note) > 0
    &&& note_value(note) >= min_value
    &&& !search.spent.contains(hex_text(note_nullifier(note, search.fvk)))
}

/// The wallet after one Ironwood action of a transaction.
pub open spec fn scan_action(wallet: WalletView, tx: Transaction, index: int, txid: Seq<char>, search: Search) -> Scan {
    if wallet.leaves.len() >= capacity() {
        Scan { wallet, fault: Some(Fault::TreeFull) }
    } else {
        let leaf = ironwood_leaves(tx)[index];
        let leaves = wallet.leaves.push(leaf);
        let notes = followed(wallet.notes, leaf);
        let found = decrypted_note(tx, index, incoming_key(search.fvk));
        let notes = if found is Some && kept(found->0, wallet.min_value, search) {
            notes.push(OwnedNoteView { note: found->0, leaves, position: wallet.leaves.len(), txid })
        } else {
            notes
        };
        Scan { wallet: WalletView { leaves, notes, ..wallet }, fault: None }
    }
}

/// The wallet after the first `n` Ironwood actions of a transaction.
pub open spec fn scan_actions(wallet: WalletView, tx: Transaction, n: nat, txid: Seq<char>, search: Search) -> Scan
    decreases n,
{
    if n == 0 {
        Scan { wallet, fault: None }
    } else {
        let before = scan_actions(wallet, tx, (n - 1) as nat, txid, search);
        if before.fault is Some {
            before
        } else {
            scan_action(before.wallet, tx, n - 1, txid, search)
        }
    }
}

/// The wallet after a transaction.
pub open spec fn scan_transaction(wallet: WalletView, tx: TxView, height: u32, search: Search) -> Scan {
    match parsed_transaction(tx.bytes, search.net, height) {
        Some(parsed) => scan_actions(wallet, parsed, ironwood_leaves(parsed).len(), tx.txid, search),
        None => Scan { wallet, fault: Some(Fault::Malformed) },
    }
}

/// The wallet after the first `n` transactions of a list.
pub open spec fn scan_transactions(wallet: WalletView, list: Seq<TxView>, n: nat, height: u32, search: Search) -> Scan
    decreases n,
{
    if n == 0 {
        Scan { wallet, fault: None }
    } else {
        let before = scan_transactions(wallet, list, (n - 1) as nat, height, search);
        if before.fault is Some {
            before
        } else {
            scan_transaction(before.wallet, list[n - 1], height, search)
        }
    }
}

/// The wallet after a block.
pub open spec fn scan_block(wallet: WalletView, block: BlockView, search: Search) -> Scan {
    match block.height {
        Some(height) => {
            let after = scan_transactions(wallet, block.transactions, block.transactions.len(), height, search);
            if after.fault is Some {
                after
            } else {
                Scan { wallet: WalletView { hashes: after.wallet.hashes.push(block.hash), ..after.wallet }, fault: None }
            }
        },
        None => Scan { wallet, fault: Some(Fault::Height) },
    }
}

/// The wallet after the blocks from `from` up to `to`.
pub open spec fn scan_blocks(wallet: WalletView, blocks: Seq<BlockView>, from: int, to: int, search: Search) -> Scan
    decreases to - from,
{
    if to <= from {
        Scan { wallet, fault: None }
    } else {
        let before = scan_blocks(wallet, blocks, from, to - 1, search);
        if before.fault is Some {
            before
        } else {
            scan_block(before.wallet, blocks[to - 1], search)
        }
    }
}

/// Whether what was scanned must be forgotten: the chain no longer has the last block
/// that was scanned at its place, or smaller notes are wanted than were kept.
pub open spec fn is_stale(wallet: WalletView, blocks: Seq<BlockView>, min_value: u64) -> bool {
    ||| min_value < wallet.min_value
    ||| wallet.hashes.len() > blocks.len()
    ||| wallet.hashes.len() > 0 && wallet.hashes.last() != blocks[wallet.hashes.len() - 1].hash
}

/// The nullifiers that the blocks from `from` on reveal.
pub open spec fn spent_from(blocks: Seq<BlockView>, from: int) -> Set<Seq<char>> {
    Set::new(|nf: Seq<char>| chain_spends(blocks, from, blocks.len() as int, nf))
}

/// The wallet from which a scan of the chain starts: without the notes that the new
/// blocks spend, with the cutoff of the first scan.
pub open spec fn scan_start(wallet: WalletView, blocks: Seq<BlockView>, fvk: FullViewingKey, min_value: u64) -> WalletView {
    let base = if is_stale(wallet, blocks, min_value) {
        empty_wallet()
    } else {
        wallet
    };
    let spent = spent_from(blocks, base.hashes.len() as int);
    WalletView {
        min_value: if base.hashes.len() == 0 {
            min_value
        } else {
            base.min_value
        },
        notes: base.notes.filter(|n: OwnedNoteView| !spent.contains(hex_text(note_nullifier(n.note, fvk)))),
        ..base
    }
}

/// The wallet after it has been brought up to date with a chain, or as far as it got.
pub open spec fn synced(wallet: WalletView, blocks: Seq<BlockView>, fvk: FullViewingKey, net: Network, min_value: u64) -> Scan {
    let start = scan_start(wallet, blocks, fvk, min_value);
    let from = start.hashes.len() as int;
    let search = Search { fvk, net, spent: spent_from(blocks, from) };
    scan_blocks(start, blocks, from, blocks.len() as int, search)
}

/// Why a wallet could not be brought up to date.
#[derive(Debug, PartialEq)]
pub enum SyncError {
    /// A block has no height.
    Height,
    /// A transaction cannot be read.
    Malformed(String),
    /// The tree has no room for another commitment.
    TreeFull,
}

impl SyncError {
    pub open spec fn fault(self) -> Fault {
        match self {
            SyncError::Height => Fault::Height,
            SyncError::Malformed(_) => Fault::Malformed,
            SyncError::TreeFull => Fault::TreeFull,
        }
    }

    /// The error in words.
    pub fn message(&self) -> (text: String)
        ensures
            match *self {
                SyncError::Height => text@ == "block height"@,
                SyncError::Malformed(words) => text@ == words@,
                SyncError::TreeFull => text@ == "tree full"@,
            },
    {
        match self {
            SyncError::Height => "block height".to_string(),
            SyncError::Malformed(words) => words.clone(),
            SyncError::TreeFull => "tree full".to_string(),
        }
    }
}

/// The outcome of a scan as a result.
pub open spec fn scan_result(scan: Scan, wallet: WalletView, result: Result<(), SyncError>) -> bool {
    &&& wallet == scan.wallet
    &&& match result {
        Ok(()) => scan.fault is None,
        Err(e) => scan.fault == Some(e.fault()),
    }
}

impl Default for WalletState {
    fn default() -> (wallet: Self)
        ensures
            wallet@ == empty_wallet(),
            wallet@.wf(),
    {
        let wallet = WalletState { min_value: 0, hashes: Vec::new(), tree: empty_tree(), notes: Vec::new() };
        assert(wallet@ =~= empty_wallet());
        wallet
    }
}

impl WalletState {
    /// Adds a leaf to the tree and to every witness, unless the tree is full.
    fn follow(&mut self, leaf: MerkleHashOrchard) -> (followed_leaf: Result<(), SyncError>)
        requires
            old(self)@.wf(),
        ensures
            final(self)@.wf(),
            match followed_leaf {
                Ok(()) => {
                    &&& old(self)@.leaves.len() < capacity()
                    &&& final(self)@ == (WalletView {
                        leaves: old(self)@.leaves.push(leaf),
                        notes: followed(old(self)@.notes, leaf),
                        ..old(self)@
                    })
                },
                Err(e) => {
                    &&& e is TreeFull
                    &&& old(self)@.leaves.len() >= capacity()
                    &&& final(self)@ == old(self)@
                },
            },
    {
        let ghost before = self@;
        if append_leaf(&mut self.tree, leaf).is_err() {
            assert(self@ =~= before);
            return Err(SyncError::TreeFull);
        }
        let mut k: usize = 0;
        while k < self.notes.len()
            invariant
                k <= self.notes@.len() == before.notes.len(),
                before == old(self)@,
                before.wf(),
                before.leaves.len() < capacity(),
                self.min_value == before.min_value,
                self@.hashes == before.hashes,
                tree_leaves(self.tree) == before.leaves.push(leaf),
                forall|j: int| 0 <= j < k ==> (#[trigger] self.notes@[j])@ == followed(before.notes, leaf)[j],
                forall|j: int| k <= j < self.notes@.len() ==> (#[trigger] self.notes@[j])@ == before.notes[j],
            decreases self.notes.len() - k,
        {
            assert(self.notes@[k as int]@ == before.notes[k as int]);
            let _ = append_to_witness(&mut self.notes[k].witness, leaf);
            k += 1;
        }
        assert(self@.notes =~= followed(before.notes, leaf));
        Ok(())
    }

    /// Scans one Ironwood action of a transaction.
    fn scan_action(
        &mut self,
        tx: &Transaction,
        index: usize,
        leaf: MerkleHashOrchard,
        txid: &String,
        fvk: &FullViewingKey,
        ivk: &PreparedIncomingViewingKey,
        spent: &StringHashSet,
        Ghost(search): Ghost<Search>,
    ) -> (scanned: Result<(), SyncError>)
        requires
            old(self)@.wf(),
            index < ironwood_leaves(*tx).len(),
            leaf == ironwood_leaves(*tx)[index as int],
            *ivk == incoming_key(*fvk),
            search.fvk == *fvk,
            search.spent == spent@,
        ensures
            scan_result(scan_action(old(self)@, *tx, index as int, txid@, search), final(self)@, scanned),
            final(self)@.wf(),
    {
        let ghost before = self@;
        if let Err(e) = self.follow(leaf) {
            return Err(e);
        }
        let ghost middle = self@;
        if let Some(note) = decrypt_note(tx, index, ivk) {
            let value = value_of(&note);
            if value > 0 && value >= self.min_value
                && !spent.contains(hex_encode(nullifier_of(&note, fvk).as_slice()).as_str()) {
                assert(kept(note, before.min_value, search));
                if let Some(witness) = last_leaf_witness(&self.tree) {
                    let ghost owned = OwnedNoteView {
                        note,
                        leaves: middle.leaves,
                        position: before.leaves.len(),
                        txid: txid@,
                    };
                    self.notes.push(OwnedNote { note, witness, txid: txid.clone() });
                    assert(self@.notes =~= middle.notes.push(owned));
                }
            }
        }
        assert(self@ =~= scan_action(before, *tx, index as int, txid@, search).wallet);
        Ok(())
    }

    /// Scans the Ironwood actions of a transaction.
    fn scan_transaction(
        &mut self,
        tx: &Tx,
        height: u32,
        fvk: &FullViewingKey,
        ivk: &PreparedIncomingViewingKey,
        net: &Network,
        spent: &StringHashSet,
        Ghost(search): Ghost<Search>,
    ) -> (scanned: Result<(), SyncError>)
        requires
            old(self)@.wf(),
            *ivk == incoming_key(*fvk),
            search.fvk == *fvk,
            search.net == *net,
            search.spent == spent@,
        ensures
            scan_result(scan_transaction(old(self)@, tx@, height, search), final(self)@, scanned),
            final(self)@.wf(),
    {
        let ghost before = self@;
        let parsed = match parse(tx, net, height) {
            Ok(parsed) => parsed,
            Err(words) => {
                return Err(SyncError::Malformed(words));
            },
        };
        let leaves = commitment_leaves(&parsed);
        let mut i: usize = 0;
        while i < leaves.len()
            invariant
                i <= leaves.len(),
                leaves@ == ironwood_leaves(parsed),
                parsed_transaction(tx.bytes@, search.net, height) == Some(parsed),
                before == old(self)@,
                *ivk == incoming_key(*fvk),
            search.fvk == *fvk,
                search.spent == spent@,
                self@.wf(),
                scan_actions(before, parsed, i as nat, tx.txid@, search) == (Scan { wallet: self@, fault: None }),
            decreases leaves.len() - i,
        {
            let scanned = self.scan_action(&parsed, i, leaves[i], &tx.txid, fvk, ivk, spent, Ghost(search));
            i += 1;
            assert(scan_actions(before, parsed, i as nat, tx.txid@, search).wallet == self@);
            if let Err(e) = scanned {
                proof {
                    lemma_actions_stop(before, parsed, i as nat, leaves@.len(), tx.txid@, search);
                }
                return Err(e);
            }
        }
        Ok(())
    }

    /// Scans a block.
    fn scan_block(
        &mut self,
        block: &Block,
        fvk: &FullViewingKey,
        ivk: &PreparedIncomingViewingKey,
        net: &Network,
        spent: &StringHashSet,
        Ghost(search): Ghost<Search>,
    ) -> (scanned: Result<(), SyncError>)
        requires
            old(self)@.wf(),
            *ivk == incoming_key(*fvk),
            search.fvk == *fvk,
            search.net == *net,
            search.spent == spent@,
        ensures
            scan_result(scan_block(old(self)@, block@, search), final(self)@, scanned),
            final(self)@.wf(),
    {
        let ghost before = self@;
        let ghost list = block@.transactions;
        let height = match block.height {
            Some(height) => height,
            None => {
                return Err(SyncError::Height);
            },
        };
        let mut t: usize = 0;
        while t < block.transactions.len()
            invariant
                t <= block.transactions.len(),
                list == tx_views(block.transactions@),
                block.height == Some(height),
                before == old(self)@,
                *ivk == incoming_key(*fvk),
            search.fvk == *fvk,
                search.net == *net,
                search.spent == spent@,
                self@.wf(),
                scan_transactions(before, list, t as nat, height, search) == (Scan { wallet: self@, fault: None }),
            decreases block.transactions.len() - t,
        {
            assert(list[t as int] == block.transactions@[t as int]@);
            let scanned = self.scan_transaction(&block.transactions[t], height, fvk, ivk, net, spent, Ghost(search));
            t += 1;
            assert(scan_transactions(before, list, t as nat, height, search).wallet == self@);
            if let Err(e) = scanned {
                proof {
                    lemma_transactions_stop(before, list, t as nat, list.len(), height, search);
                }
                return Err(e);
            }
        }
        let ghost middle = self@;
        self.hashes.push(block.hash.clone());
        assert(self@.hashes =~= middle.hashes.push(block.hash@));
        Ok(())
    }

    /// Forgets the notes that are spent.
    fn drop_spent(&mut self, fvk: &FullViewingKey, spent: &StringHashSet)
        requires
            old(self)@.wf(),
        ensures
            final(self)@ == (WalletView {
                notes: old(self)@.notes.filter(
                    |n: OwnedNoteView| !spent@.contains(hex_text(note_nullifier(n.note, *fvk))),
                ),
                ..old(self)@
            }),
            final(self)@.wf(),
    {
        let ghost before = self@;
        let ghost unspent = |n: OwnedNoteView| !spent@.contains(hex_text(note_nullifier(n.note, *fvk)));
        let ghost mut done: int = 0;
        let mut i: usize = 0;
        assert(note_views(self.notes@.take(0)) =~= before.notes.take(0).filter(unspent)) by {
            reveal(Seq::filter);
        }
        assert(note_views(self.notes@.skip(0)) =~= before.notes.skip(0));
        while i < self.notes.len()
            invariant
                0 <= done <= before.notes.len(),
                i <= self.notes@.len(),
                self.notes@.len() - i == before.notes.len() - done,
                unspent == (|n: OwnedNoteView| !spent@.contains(hex_text(note_nullifier(n.note, *fvk)))),
                self.min_value == before.min_value,
                self@.hashes == before.hashes,
                self@.leaves == before.leaves,
                note_views(self.notes@.take(i as int)) == before.notes.take(done).filter(unspent),
                note_views(self.notes@.skip(i as int)) == before.notes.skip(done),
            decreases self.notes.len() - i,
        {
            let ghost notes = self.notes@;
            proof {
                reveal(Seq::filter);
                assert(note_views(notes.skip(i as int))[0] == notes[i as int]@);
                assert(before.notes.skip(done)[0] == before.notes[done]);
                assert(before.notes.take(done + 1).drop_last() =~= before.notes.take(done));
                assert(before.notes.take(done + 1).last() == before.notes[done]);
                assert(before.notes.skip(done + 1) =~= before.notes.skip(done).skip(1));
                assert(note_views(notes.skip(i + 1)) =~= note_views(notes.skip(i as int)).skip(1));
            }
            let nullifier = hex_encode(nullifier_of(&self.notes[i].note, fvk).as_slice());
            if spent.contains(nullifier.as_str()) {
                self.notes.remove(i);
                assert(self.notes@.take(i as int) =~= notes.take(i as int));
                assert(self.notes@.skip(i as int) =~= notes.skip(i + 1));
            } else {
                assert(note_views(notes.take(i + 1)) =~= note_views(notes.take(i as int)).push(notes[i as int]@));
                i += 1;
            }
            proof {
                done = done + 1;
            }
        }
        proof {
            assert(self.notes@.take(i as int) =~= self.notes@);
            assert(before.notes.take(done) =~= before.notes);
            lemma_filter_keeps_wf(before, unspent);
        }
        assert(self@ =~= (WalletView { notes: before.notes.filter(unspent), ..before }));
    }

    /// Brings the wallet up to date with a chain. A reorganisation rebuilds it from
    /// the surviving chain. Notes that cannot fund a payment are not kept: the cutoff
    /// of the first scan stands, so that a payment with a higher fee does not drop
    /// notes that the next ordinary payment would have to look for again.
    pub fn sync(&mut self, blocks: &Vec<Block>, fvk: &FullViewingKey, net: &Network, min_value: u64) -> (synced_state: Result<(), SyncError>)
        requires
            old(self)@.wf(),
        ensures
            scan_result(synced(old(self)@, block_views(blocks@), *fvk, *net, min_value), final(self)@, synced_state),
            final(self)@.wf(),
    {
        let ghost chain = block_views(blocks@);
        let ghost origin = self@;
        let len = self.hashes.len();
        let stale = min_value < self.min_value || len > blocks.len() || (len > 0 && !same_text(
            self.hashes[len - 1].as_str(),
            blocks[len - 1].hash.as_str(),
        ));
        proof {
            if len > 0 && len <= blocks.len() {
                assert(origin.hashes.last() == self.hashes@[len - 1]@);
                assert(chain[len - 1].hash == blocks@[len - 1].hash@);
            }
            assert(stale == is_stale(origin, chain, min_value));
        }
        if stale {
            *self = WalletState::default();
        }
        let ghost base = self@;
        if self.hashes.len() == 0 {
            self.min_value = min_value;
        }
        let ghost middle = self@;
        let from = self.hashes.len();
        let spent = chain_nullifiers(blocks, from);
        assert(spent@ =~= spent_from(chain, from as int));
        self.drop_spent(fvk, &spent);
        let ghost start = scan_start(origin, chain, *fvk, min_value);
        assert(self@ =~= start);
        let ghost search = Search { fvk: *fvk, net: *net, spent: spent@ };
        let ivk = incoming_viewing_key(fvk);
        let mut b: usize = from;
        while b < blocks.len()
            invariant
                from <= b <= blocks.len(),
                from == start.hashes.len(),
                chain == block_views(blocks@),
                start == scan_start(old(self)@, chain, *fvk, min_value),
                search == (Search { fvk: *fvk, net: *net, spent: spent_from(chain, from as int) }),
                search.spent == spent@,
                ivk == incoming_key(*fvk),
                self@.wf(),
                scan_blocks(start, chain, from as int, b as int, search) == (Scan { wallet: self@, fault: None }),
            decreases blocks.len() - b,
        {
            assert(chain[b as int] == blocks@[b as int]@);
            let scanned = self.scan_block(&blocks[b], fvk, &ivk, net, &spent, Ghost(search));
            b += 1;
            assert(scan_blocks(start, chain, from as int, b as int, search).wallet == self@);
            if let Err(e) = scanned {
                proof {
                    lemma_blocks_stop(start, chain, from as int, b as int, chain.len() as int, search);
                }
                return Err(e);
            }
        }
        Ok(())
    }
}

proof fn lemma_filter_keeps_wf(wallet: WalletView, keep: spec_fn(OwnedNoteView) -> bool)
    requires
        wallet.wf(),
    ensures
        (WalletView { notes: wallet.notes.filter(keep), ..wallet }).wf(),
{
    let notes = wallet.notes.filter(keep);
    assert forall|k: int| 0 <= k < notes.len() implies (#[trigger] notes[k]).leaves == wallet.leaves && notes[k].position
        < wallet.leaves.len() by {
        wallet.notes.lemma_filter_contains_rev(keep, notes[k]);
    }
}

proof fn lemma_actions_stop(wallet: WalletView, tx: Transaction, i: nat, n: nat, txid: Seq<char>, search: Search)
    requires
        i <= n,
        scan_actions(wallet, tx, i, txid, search).fault is Some,
    ensures
        scan_actions(wallet, tx, n, txid, search) == scan_actions(wallet, tx, i, txid, search),
    decreases n - i,
{
    if i < n {
        lemma_actions_stop(wallet, tx, i, (n - 1) as nat, txid, search);
    }
}

proof fn lemma_transactions_stop(wallet: WalletView, list: Seq<TxView>, i: nat, n: nat, height: u32, search: Search)
    requires
        i <= n,
        scan_transactions(wallet, list, i, height, search).fault is Some,
    ensures
        scan_transactions(wallet, list, n, height, search) == scan_transactions(wallet, list, i, height, search),
    decreases n - i,
{
    if i < n {
        lemma_transactions_stop(wallet, list, i, (n - 1) as nat, height, search);
    }
}

proof fn lemma_blocks_stop(wallet: WalletView, blocks: Seq<BlockView>, from: int, i: int, n: int, search: Search)
    requires
        from <= i <= n,
        scan_blocks(wallet, blocks, from, i, search).fault is Some,
    ensures
        scan_blocks(wallet, blocks, from, n, search) == scan_blocks(wallet, blocks, from, i, search),
    decreases n - i,
{
    if i < n {
        lemma_blocks_stop(wallet, blocks, from, i, n - 1, search);
    }
}

/// Whether every note of a wallet is worth something and the cutoff, and is not among
/// the spent ones.
pub open spec fn spendable(wallet: WalletView, fvk: FullViewingKey, spent: Set<Seq<char>>) -> bool {
    forall|k: int|
        0 <= k < wallet.notes.len() ==> note_value((#[trigger] wallet.notes[k]).note) > 0 && note_value(wallet.notes[k].note)
            >= wallet.min_value && !spent.contains(hex_text(note_nullifier(wallet.notes[k].note, fvk)))
}

proof fn lemma_action_keeps(wallet: WalletView, tx: Transaction, index: int, txid: Seq<char>, search: Search)
    requires
        spendable(wallet, search.fvk, search.spent),
    ensures
        spendable(scan_action(wallet, tx, index, txid, search).wallet, search.fvk, search.spent),
        scan_action(wallet, tx, index, txid, search).wallet.min_value == wallet.min_value,
        scan_action(wallet, tx, index, txid, search).wallet.hashes == wallet.hashes,
{
    let after = scan_action(wallet, tx, index, txid, search).wallet;
    assert forall|k: int| 0 <= k < after.notes.len() implies note_value((#[trigger] after.notes[k]).note) > 0 && note_value(
        after.notes[k].note,
    ) >= after.min_value && !search.spent.contains(hex_text(note_nullifier(after.notes[k].note, search.fvk))) by {
        if k < wallet.notes.len() {
            assert(after.notes[k].note == wallet.notes[k].note);
        }
    }
}

proof fn lemma_actions_keep(wallet: WalletView, tx: Transaction, n: nat, txid: Seq<char>, search: Search)
    requires
        spendable(wallet, search.fvk, search.spent),
    ensures
        spendable(scan_actions(wallet, tx, n, txid, search).wallet, search.fvk, search.spent),
        scan_actions(wallet, tx, n, txid, search).wallet.min_value == wallet.min_value,
        scan_actions(wallet, tx, n, txid, search).wallet.hashes == wallet.hashes,
    decreases n,
{
    if n > 0 {
        lemma_actions_keep(wallet, tx, (n - 1) as nat, txid, search);
        let before = scan_actions(wallet, tx, (n - 1) as nat, txid, search);
        if before.fault is None {
            lemma_action_keeps(before.wallet, tx, n - 1, txid, search);
        }
    }
}

proof fn lemma_transactions_keep(wallet: WalletView, list: Seq<TxView>, n: nat, height: u32, search: Search)
    requires
        spendable(wallet, search.fvk, search.spent),
    ensures
        spendable(scan_transactions(wallet, list, n, height, search).wallet, search.fvk, search.spent),
        scan_transactions(wallet, list, n, height, search).wallet.min_value == wallet.min_value,
        scan_transactions(wallet, list, n, height, search).wallet.hashes == wallet.hashes,
    decreases n,
{
    if n > 0 {
        lemma_transactions_keep(wallet, list, (n - 1) as nat, height, search);
        let before = scan_transactions(wallet, list, (n - 1) as nat, height, search);
        let tx = list[n - 1];
        if before.fault is None {
            if let Some(parsed) = parsed_transaction(tx.bytes, search.net, height) {
                lemma_actions_keep(before.wallet, parsed, ironwood_leaves(parsed).len(), tx.txid, search);
            }
        }
    }
}

proof fn lemma_blocks_keep(wallet: WalletView, blocks: Seq<BlockView>, from: int, to: int, search: Search)
    requires
        spendable(wallet, search.fvk, search.spent),
        0 <= from <= to <= blocks.len(),
    ensures
        spendable(scan_blocks(wallet, blocks, from, to, search).wallet, search.fvk, search.spent),
        scan_blocks(wallet, blocks, from, to, search).wallet.min_value == wallet.min_value,
        scan_blocks(wallet, blocks, from, to, search).fault is None ==> scan_blocks(
            wallet,
            blocks,
            from,
            to,
            search,
        ).wallet.hashes == wallet.hashes + blocks.subrange(from, to).map_values(|b: BlockView| b.hash),
    decreases to - from,
{
    if from < to {
        lemma_blocks_keep(wallet, blocks, from, to - 1, search);
        let before = scan_blocks(wallet, blocks, from, to - 1, search);
        let block = blocks[to - 1];
        if before.fault is None {
            if let Some(height) = block.height {
                lemma_transactions_keep(
                    before.wallet,
                    block.transactions,
                    block.transactions.len(),
                    height,
                    search,
                );
            }
        }
        let after = scan_blocks(wallet, blocks, from, to, search);
        if after.fault is None {
            assert(blocks.subrange(from, to) =~= blocks.subrange(from, to - 1).push(block));
            assert(wallet.hashes + blocks.subrange(from, to).map_values(|b: BlockView| b.hash) =~= (wallet.hashes
                + blocks.subrange(from, to - 1).map_values(|b: BlockView| b.hash)).push(block.hash));
        }
    } else {
        assert(wallet.hashes =~= wallet.hashes + blocks.subrange(from, to).map_values(|b: BlockView| b.hash));
    }
}

/// After a complete scan the wallet has reached the tip of the chain, and every note
/// that it keeps is worth the cutoff and is spent by none of the blocks that were
/// scanned. (A wallet whose very first scan failed half way may hold notes below a
/// cutoff that is raised later.)
pub proof fn law_sync_keeps_spendable_notes(
    wallet: WalletView,
    blocks: Seq<BlockView>,
    fvk: FullViewingKey,
    net: Network,
    min_value: u64,
)
    requires
        spendable(wallet, fvk, Set::empty()),
        wallet.hashes.len() == 0 ==> wallet.notes.len() == 0,
        synced(wallet, blocks, fvk, net, min_value).fault is None,
    ensures
        ({
            let after = synced(wallet, blocks, fvk, net, min_value).wallet;
            let from = scan_start(wallet, blocks, fvk, min_value).hashes.len() as int;
            &&& spendable(after, fvk, spent_from(blocks, from))
            &&& after.min_value <= min_value
            &&& after.hashes.len() == blocks.len()
            &&& blocks.len() > 0 ==> after.hashes.last() == blocks.last().hash
        }),
{
    let base = if is_stale(wallet, blocks, min_value) {
        empty_wallet()
    } else {
        wallet
    };
    let start = scan_start(wallet, blocks, fvk, min_value);
    let from = start.hashes.len() as int;
    let spent = spent_from(blocks, from);
    let search = Search { fvk, net, spent };
    let unspent = |n: OwnedNoteView| !spent.contains(hex_text(note_nullifier(n.note, fvk)));
    assert(start.notes == base.notes.filter(unspent));
    assert(spendable(start, fvk, spent)) by {
        assert forall|k: int| 0 <= k < start.notes.len() implies note_value((#[trigger] start.notes[k]).note) > 0
            && note_value(start.notes[k].note) >= start.min_value && !spent.contains(
            hex_text(note_nullifier(start.notes[k].note, fvk)),
        ) by {
            base.notes.lemma_filter_contains_rev(unspent, start.notes[k]);
            base.notes.lemma_filter_pred(unspent, k);
            let j = choose|j: int| 0 <= j < base.notes.len() && base.notes[j] == start.notes[k];
            assert(note_value(base.notes[j].note) > 0);
        }
    }
    lemma_blocks_keep(start, blocks, from, blocks.len() as int, search);
    let after = synced(wallet, blocks, fvk, net, min_value).wallet;
    if blocks.len() > 0 && from == blocks.len() {
        assert(blocks.subrange(from, blocks.len() as int) =~= Seq::empty());
        assert(after.hashes =~= start.hashes);
    }
}

/// A wallet that starts from nothing remembers the hash of every block of the chain.
pub proof fn law_first_sync_remembers_the_chain(blocks: Seq<BlockView>, fvk: FullViewingKey, net: Network, min_value: u64)
    requires
        synced(empty_wallet(), blocks, fvk, net, min_value).fault is None,
    ensures
        synced(empty_wallet(), blocks, fvk, net, min_value).wallet.hashes == blocks.map_values(|b: BlockView| b.hash),
{
    let start = scan_start(empty_wallet(), blocks, fvk, min_value);
    let search = Search { fvk, net, spent: spent_from(blocks, 0) };
    reveal(Seq::filter);
    lemma_blocks_keep(start, blocks, 0, blocks.len() as int, search);
    assert(blocks.subrange(0, blocks.len() as int) =~= blocks);
    assert(start.hashes =~= Seq::empty());
    assert(synced(empty_wallet(), blocks, fvk, net, min_value).wallet.hashes =~= blocks.map_values(|b: BlockView| b.hash));
}

/// A wallet whose last block the chain has lost starts over: it ends up as a wallet
/// that had scanned nothing.
pub proof fn law_stale_wallet_starts_over(
    wallet: WalletView,
    blocks: Seq<BlockView>,
    fvk: FullViewingKey,
    net: Network,
    min_value: u64,
)
    requires
        is_stale(wallet, blocks, min_value),
    ensures
        synced(wallet, blocks, fvk, net, min_value) == synced(empty_wallet(), blocks, fvk, net, min_value),
{
}

/// Whether a note is not among the spent ones.
pub open spec fn is_unspent(note: orchard::Note, fvk: FullViewingKey, spent: Set<Seq<char>>) -> bool {
    !spent.contains(hex_text(note_nullifier(note, fvk)))
}

/// A wallet without the notes that were spent.
pub open spec fn without(wallet: WalletView, fvk: FullViewingKey, spent: Set<Seq<char>>) -> WalletView {
    WalletView { notes: wallet.notes.filter(|n: OwnedNoteView| is_unspent(n.note, fvk, spent)), ..wallet }
}

/// A search that passes over more notes.
pub open spec fn beyond(search: Search, spent: Set<Seq<char>>) -> Search {
    Search { spent: search.spent.union(spent), ..search }
}

proof fn lemma_followed_without(notes: Seq<OwnedNoteView>, leaf: MerkleHashOrchard, fvk: FullViewingKey, spent: Set<Seq<char>>)
    ensures
        ({
            let keep = |n: OwnedNoteView| is_unspent(n.note, fvk, spent);
            followed(notes.filter(keep), leaf) == followed(notes, leaf).filter(keep)
        }),
    decreases notes.len(),
{
    reveal(Seq::filter);
    let keep = |n: OwnedNoteView| is_unspent(n.note, fvk, spent);
    if notes.len() > 0 {
        let before = notes.drop_last();
        lemma_followed_without(before, leaf, fvk, spent);
        assert(followed(notes, leaf).drop_last() =~= followed(before, leaf));
        assert(followed(notes, leaf).last().note == notes.last().note);
        if keep(notes.last()) {
            assert(followed(before.filter(keep).push(notes.last()), leaf) =~= followed(before.filter(keep), leaf).push(
                followed(notes, leaf).last(),
            ));
        }
    } else {
        assert(followed(notes.filter(keep), leaf) =~= followed(notes, leaf).filter(keep));
    }
}

proof fn lemma_action_without(
    wallet: WalletView,
    tx: Transaction,
    index: int,
    txid: Seq<char>,
    search: Search,
    spent: Set<Seq<char>>,
)
    ensures
        ({
            let after = scan_action(wallet, tx, index, txid, search);
            scan_action(without(wallet, search.fvk, spent), tx, index, txid, beyond(search, spent)) == (Scan {
                wallet: without(after.wallet, search.fvk, spent),
                fault: after.fault,
            })
        }),
{
    if wallet.leaves.len() < capacity() {
        let leaf = ironwood_leaves(tx)[index];
        lemma_followed_without(wallet.notes, leaf, search.fvk, spent);
        reveal(Seq::filter);
        let keep = |n: OwnedNoteView| is_unspent(n.note, search.fvk, spent);
        let notes = followed(wallet.notes, leaf);
        let after = scan_action(wallet, tx, index, txid, search);
        if after.wallet.notes.len() > notes.len() {
            assert(after.wallet.notes.drop_last() =~= notes);
        }
    }
}

proof fn lemma_actions_without(
    wallet: WalletView,
    tx: Transaction,
    n: nat,
    txid: Seq<char>,
    search: Search,
    spent: Set<Seq<char>>,
)
    ensures
        ({
            let after = scan_actions(wallet, tx, n, txid, search);
            scan_actions(without(wallet, search.fvk, spent), tx, n, txid, beyond(search, spent)) == (Scan {
                wallet: without(after.wallet, search.fvk, spent),
                fault: after.fault,
            })
        }),
    decreases n,
{
    if n > 0 {
        lemma_actions_without(wallet, tx, (n - 1) as nat, txid, search, spent);
        let before = scan_actions(wallet, tx, (n - 1) as nat, txid, search);
        lemma_action_without(before.wallet, tx, n - 1, txid, search, spent);
    }
}

proof fn lemma_transactions_without(
    wallet: WalletView,
    list: Seq<TxView>,
    n: nat,
    height: u32,
    search: Search,
    spent: Set<Seq<char>>,
)
    ensures
        ({
            let after = scan_transactions(wallet, list, n, height, search);
            scan_transactions(without(wallet, search.fvk, spent), list, n, height, beyond(search, spent)) == (Scan {
                wallet: without(after.wallet, search.fvk, spent),
                fault: after.fault,
            })
        }),
    decreases n,
{
    if n > 0 {
        lemma_transactions_without(wallet, list, (n - 1) as nat, height, search, spent);
        let before = scan_transactions(wallet, list, (n - 1) as nat, height, search);
        let tx = list[n - 1];
        if let Some(parsed) = parsed_transaction(tx.bytes, search.net, height) {
            lemma_actions_without(before.wallet, parsed, ironwood_leaves(parsed).len(), tx.txid, search, spent);
        }
    }
}

proof fn lemma_blocks_without(
    wallet: WalletView,
    blocks: Seq<BlockView>,
    from: int,
    to: int,
    search: Search,
    spent: Set<Seq<char>>,
)
    ensures
        ({
            let after = scan_blocks(wallet, blocks, from, to, search);
            scan_blocks(without(wallet, search.fvk, spent), blocks, from, to, beyond(search, spent)) == (Scan {
                wallet: without(after.wallet, search.fvk, spent),
                fault: after.fault,
            })
        }),
    decreases to - from,
{
    if from < to {
        lemma_blocks_without(wallet, blocks, from, to - 1, search, spent);
        let before = scan_blocks(wallet, blocks, from, to - 1, search);
        let block = blocks[to - 1];
        if let Some(height) = block.height {
            lemma_transactions_without(
                before.wallet,
                block.transactions,
                block.transactions.len(),
                height,
                search,
                spent,
            );
        }
    }
}

/// Whether no action of a transaction pays a note to a key that is among the spent
/// ones.
pub open spec fn pays_unspent(tx: Transaction, fvk: FullViewingKey, spent: Set<Seq<char>>) -> bool {
    forall|i: int|
        (#[trigger] decrypted_note(tx, i, incoming_key(fvk))) is Some ==> is_unspent(
            decrypted_note(tx, i, incoming_key(fvk))->0,
            fvk,
            spent,
        )
}

/// Whether no transaction of a block pays a note to a key that is among the spent
/// ones.
pub open spec fn block_pays_unspent(block: BlockView, fvk: FullViewingKey, net: Network, spent: Set<Seq<char>>) -> bool {
    forall|t: int|
        #![trigger block.transactions[t]]
        0 <= t < block.transactions.len() && block.height is Some && parsed_transaction(
            block.transactions[t].bytes,
            net,
            block.height->0,
        ) is Some ==> pays_unspent(
            parsed_transaction(block.transactions[t].bytes, net, block.height->0)->0,
            fvk,
            spent,
        )
}

proof fn lemma_actions_alike(
    wallet: WalletView,
    tx: Transaction,
    n: nat,
    txid: Seq<char>,
    search: Search,
    spent: Set<Seq<char>>,
)
    requires
        pays_unspent(tx, search.fvk, spent),
    ensures
        scan_actions(wallet, tx, n, txid, beyond(search, spent)) == scan_actions(wallet, tx, n, txid, search),
    decreases n,
{
    if n > 0 {
        lemma_actions_alike(wallet, tx, (n - 1) as nat, txid, search, spent);
        let found = decrypted_note(tx, n - 1, incoming_key(search.fvk));
        if found is Some {
            assert(is_unspent(found->0, search.fvk, spent));
        }
    }
}

proof fn lemma_transactions_alike(
    wallet: WalletView,
    block: BlockView,
    n: nat,
    search: Search,
    spent: Set<Seq<char>>,
)
    requires
        n <= block.transactions.len(),
        block.height is Some,
        block_pays_unspent(block, search.fvk, search.net, spent),
    ensures
        scan_transactions(wallet, block.transactions, n, block.height->0, beyond(search, spent)) == scan_transactions(
            wallet,
            block.transactions,
            n,
            block.height->0,
            search,
        ),
    decreases n,
{
    if n > 0 {
        lemma_transactions_alike(wallet, block, (n - 1) as nat, search, spent);
        let before = scan_transactions(wallet, block.transactions, (n - 1) as nat, block.height->0, search);
        let tx = block.transactions[n - 1];
        if let Some(parsed) = parsed_transaction(tx.bytes, search.net, block.height->0) {
            lemma_actions_alike(before.wallet, parsed, ironwood_leaves(parsed).len(), tx.txid, search, spent);
        }
    }
}

proof fn lemma_blocks_alike(
    wallet: WalletView,
    blocks: Seq<BlockView>,
    from: int,
    to: int,
    search: Search,
    spent: Set<Seq<char>>,
)
    requires
        0 <= from,
        to <= blocks.len(),
        forall|b: int| from <= b < to ==> block_pays_unspent(#[trigger] blocks[b], search.fvk, search.net, spent),
    ensures
        scan_blocks(wallet, blocks, from, to, beyond(search, spent)) == scan_blocks(wallet, blocks, from, to, search),
    decreases to - from,
{
    if from < to {
        lemma_blocks_alike(wallet, blocks, from, to - 1, search, spent);
        let before = scan_blocks(wallet, blocks, from, to - 1, search);
        if blocks[to - 1].height is Some {
            lemma_transactions_alike(
                before.wallet,
                blocks[to - 1],
                blocks[to - 1].transactions.len(),
                search,
                spent,
            );
        }
    }
}

proof fn lemma_blocks_in_two_steps(wallet: WalletView, blocks: Seq<BlockView>, k: int, to: int, search: Search)
    requires
        0 <= k <= to <= blocks.len(),
        scan_blocks(wallet, blocks, 0, k, search).fault is None,
    ensures
        scan_blocks(wallet, blocks, 0, to, search) == scan_blocks(
            scan_blocks(wallet, blocks, 0, k, search).wallet,
            blocks,
            k,
            to,
            search,
        ),
    decreases to,
{
    if k < to {
        lemma_blocks_in_two_steps(wallet, blocks, k, to - 1, search);
    }
}

proof fn lemma_blocks_of_prefix(wallet: WalletView, blocks: Seq<BlockView>, k: int, to: int, search: Search)
    requires
        0 <= to <= k <= blocks.len(),
    ensures
        scan_blocks(wallet, blocks.take(k), 0, to, search) == scan_blocks(wallet, blocks, 0, to, search),
    decreases to,
{
    if to > 0 {
        lemma_blocks_of_prefix(wallet, blocks, k, to - 1, search);
        assert(blocks.take(k)[to - 1] == blocks[to - 1]);
    }
}

/// Bringing a wallet up to date as the chain grows comes to the same as scanning the
/// whole chain at once: the same tree, the same notes with the same witnesses, and the
/// same error, if there is one. Only no note that the new blocks pay may be among
/// those that the old blocks spent, which no chain has.
pub proof fn law_syncing_step_by_step_agrees_with_syncing_at_once(
    blocks: Seq<BlockView>,
    k: int,
    fvk: FullViewingKey,
    net: Network,
    min_value: u64,
    later_min_value: u64,
)
    requires
        0 < k <= blocks.len(),
        min_value <= later_min_value,
        synced(empty_wallet(), blocks.take(k), fvk, net, min_value).fault is None,
        forall|b: int|
            k <= b < blocks.len() ==> block_pays_unspent(#[trigger] blocks[b], fvk, net, spent_from(blocks.take(k), 0)),
    ensures
        synced(
            synced(empty_wallet(), blocks.take(k), fvk, net, min_value).wallet,
            blocks,
            fvk,
            net,
            later_min_value,
        ) == synced(empty_wallet(), blocks, fvk, net, min_value),
{
    reveal(Seq::filter);
    let part = blocks.take(k);
    let start = scan_start(empty_wallet(), part, fvk, min_value);
    let whole_start = scan_start(empty_wallet(), blocks, fvk, min_value);
    assert(start == whole_start);
    let early = spent_from(part, 0);
    let late = spent_from(blocks, k);
    let all = spent_from(blocks, 0);
    let old_search = Search { fvk, net, spent: early };
    let new_search = Search { fvk, net, spent: late };
    let full_search = Search { fvk, net, spent: all };
    let first = synced(empty_wallet(), part, fvk, net, min_value).wallet;

    law_first_sync_remembers_the_chain(part, fvk, net, min_value);
    assert(first.hashes.len() == k && first.hashes.last() == blocks[k - 1].hash);
    assert(spendable(start, fvk, early));
    lemma_blocks_keep(start, part, 0, k, old_search);
    assert(first.min_value == min_value);

    assert(all =~= early.union(late)) by {
        assert forall|nf: Seq<char>| all.contains(nf) <==> early.union(late).contains(nf) by {
            lemma_spends_in_parts(blocks, k, nf);
        }
    }
    assert(all =~= late.union(early));
    assert(beyond(old_search, late) == full_search);
    assert(beyond(new_search, early) == full_search);

    assert(scan_start(first, blocks, fvk, later_min_value) == without(first, fvk, late)) by {
        let a = |n: OwnedNoteView| !late.contains(hex_text(note_nullifier(n.note, fvk)));
        let b = |n: OwnedNoteView| is_unspent(n.note, fvk, late);
        assert(a =~= b);
    }
    lemma_blocks_without(start, part, 0, k, old_search, late);
    assert(without(start, fvk, late) == start);
    lemma_blocks_of_prefix(start, blocks, k, k, full_search);
    lemma_blocks_in_two_steps(start, blocks, k, blocks.len() as int, full_search);
    lemma_blocks_alike(without(first, fvk, late), blocks, k, blocks.len() as int, new_search, early);
}

proof fn lemma_spends_in_parts(blocks: Seq<BlockView>, k: int, nf: Seq<char>)
    requires
        0 <= k <= blocks.len(),
    ensures
        chain_spends(blocks, 0, blocks.len() as int, nf) <==> chain_spends(blocks.take(k), 0, k, nf) || chain_spends(
            blocks,
            k,
            blocks.len() as int,
            nf,
        ),
{
    let part = blocks.take(k);
    if chain_spends(part, 0, k, nf) {
        let b = choose|b: int|
            0 <= b < k && crate::transaction::list_spends(
                (#[trigger] part[b]).transactions,
                part[b].transactions.len() as int,
                nf,
            );
        assert(blocks[b] == part[b]);
    }
    if chain_spends(blocks, 0, blocks.len() as int, nf) {
        let b = choose|b: int|
            0 <= b < blocks.len() && crate::transaction::list_spends(
                (#[trigger] blocks[b]).transactions,
                blocks[b].transactions.len() as int,
                nf,
            );
        if b < k {
            assert(part[b] == blocks[b]);
        }
    }
}

proof fn lemma_actions_are_identified(wallet: WalletView, tx: Transaction, n: nat, txid: Seq<char>, search: Search)
    requires
        wallet.identified(),
        is_txid(txid),
    ensures
        scan_actions(wallet, tx, n, txid, search).wallet.identified(),
    decreases n,
{
    if n > 0 {
        lemma_actions_are_identified(wallet, tx, (n - 1) as nat, txid, search);
        let before = scan_actions(wallet, tx, (n - 1) as nat, txid, search).wallet;
        let after = scan_actions(wallet, tx, n, txid, search).wallet;
        assert forall|k: int| 0 <= k < after.notes.len() implies is_txid((#[trigger] after.notes[k]).txid) by {
            if k < before.notes.len() {
                assert(is_txid(before.notes[k].txid));
            }
        }
    }
}

proof fn lemma_transactions_are_identified(wallet: WalletView, list: Seq<TxView>, n: nat, height: u32, search: Search)
    requires
        wallet.identified(),
        n <= list.len(),
        forall|t: int| 0 <= t < list.len() ==> is_txid((#[trigger] list[t]).txid),
    ensures
        scan_transactions(wallet, list, n, height, search).wallet.identified(),
    decreases n,
{
    if n > 0 {
        lemma_transactions_are_identified(wallet, list, (n - 1) as nat, height, search);
        let before = scan_transactions(wallet, list, (n - 1) as nat, height, search);
        let tx = list[n - 1];
        if before.fault is None {
            if let Some(parsed) = parsed_transaction(tx.bytes, search.net, height) {
                lemma_actions_are_identified(before.wallet, parsed, ironwood_leaves(parsed).len(), tx.txid, search);
            }
        }
    }
}

proof fn lemma_blocks_are_identified(wallet: WalletView, blocks: Seq<BlockView>, from: int, to: int, search: Search)
    requires
        wallet.identified(),
        identified(blocks),
        0 <= from && to <= blocks.len(),
    ensures
        scan_blocks(wallet, blocks, from, to, search).wallet.identified(),
    decreases to - from,
{
    if from < to {
        lemma_blocks_are_identified(wallet, blocks, from, to - 1, search);
        let before = scan_blocks(wallet, blocks, from, to - 1, search);
        let block = blocks[to - 1];
        if before.fault is None {
            if let Some(height) = block.height {
                assert forall|t: int| 0 <= t < block.transactions.len() implies is_txid(
                    (#[trigger] block.transactions[t]).txid,
                ) by {
                    assert(is_txid(blocks[to - 1].transactions[t].txid));
                }
                lemma_transactions_are_identified(
                    before.wallet,
                    block.transactions,
                    block.transactions.len(),
                    height,
                    search,
                );
            }
        }
    }
}

/// Syncing with blocks that were read keeps the notes of a wallet identified by the
/// transactions that paid them, however far it gets.
pub proof fn law_sync_keeps_notes_identified(
    wallet: WalletView,
    blocks: Seq<BlockView>,
    fvk: FullViewingKey,
    net: Network,
    min_value: u64,
)
    requires
        wallet.identified(),
        identified(blocks),
    ensures
        synced(wallet, blocks, fvk, net, min_value).wallet.identified(),
        empty_wallet().identified(),
{
    let base = if is_stale(wallet, blocks, min_value) {
        empty_wallet()
    } else {
        wallet
    };
    let start = scan_start(wallet, blocks, fvk, min_value);
    let from = start.hashes.len() as int;
    let spent = spent_from(blocks, from);
    let unspent = |n: OwnedNoteView| !spent.contains(hex_text(note_nullifier(n.note, fvk)));
    assert(start.notes == base.notes.filter(unspent));
    assert(start.identified()) by {
        assert forall|k: int| 0 <= k < start.notes.len() implies is_txid((#[trigger] start.notes[k]).txid) by {
            base.notes.lemma_filter_contains_rev(unspent, start.notes[k]);
            let j = choose|j: int| 0 <= j < base.notes.len() && base.notes[j] == start.notes[k];
            assert(is_txid(base.notes[j].txid));
        }
    }
    lemma_blocks_are_identified(start, blocks, from, blocks.len() as int, Search { fvk, net, spent });
}

} // verus!
