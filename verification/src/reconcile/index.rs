//! Where the chain holds what the ledger speaks of: payments, spent notes and blocks.

use crate::ledger::{Tip, TipView};
use crate::transaction::{block_views, chain_nullifiers, chain_spends, tx_views, Block, BlockView, Tx, TxView};
use vstd::hash_map::StringHashMap;
use vstd::hash_set::StringHashSet;
use vstd::prelude::*;

verus! {

/// A block by its height and its hash.
pub open spec fn block_tip(block: BlockView) -> TipView {
    TipView { height: block.height->0, hash: block.hash }
}

/// Whether one of the first `n` transactions of a list has an identifier.
pub open spec fn list_includes(transactions: Seq<TxView>, n: int, txid: Seq<char>) -> bool {
    exists|t: int| 0 <= t < n && (#[trigger] transactions[t]).txid == txid
}

/// Whether a block includes a payment.
pub open spec fn block_includes(block: BlockView, txid: Seq<char>) -> bool {
    list_includes(block.transactions, block.transactions.len() as int, txid)
}

/// The last of the first `n` blocks that includes a payment.
pub open spec fn inclusion(blocks: Seq<BlockView>, n: nat, txid: Seq<char>) -> Option<TipView>
    decreases n,
{
    if n == 0 {
        None
    } else if block_includes(blocks[n - 1], txid) {
        Some(block_tip(blocks[n - 1]))
    } else {
        inclusion(blocks, (n - 1) as nat, txid)
    }
}

/// The position of the last of the first `n` blocks with a hash.
pub open spec fn block_position(blocks: Seq<BlockView>, n: nat, hash: Seq<char>) -> Option<int>
    decreases n,
{
    if n == 0 {
        None
    } else if blocks[n - 1].hash == hash {
        Some(n - 1)
    } else {
        block_position(blocks, (n - 1) as nat, hash)
    }
}

/// Whether every block has a height.
pub open spec fn all_heights(blocks: Seq<BlockView>) -> bool {
    forall|b: int| 0 <= b < blocks.len() ==> (#[trigger] blocks[b]).height is Some
}

/// The chain, prepared for looking up payments, spent notes and blocks.
pub struct ChainIndex {
    pub inclusions: StringHashMap<Tip>,
    pub spent: StringHashSet,
    pub positions: StringHashMap<usize>,
}

impl ChainIndex {
    /// Whether the first `n` blocks are what was prepared.
    pub open spec fn covers(self, blocks: Seq<BlockView>, n: nat) -> bool {
        &&& forall|txid: Seq<char>| #[trigger]
            self.inclusions@.contains_key(txid) <==> inclusion(blocks, n, txid) is Some
        &&& forall|txid: Seq<char>| #[trigger]
            self.inclusions@.contains_key(txid) ==> inclusion(blocks, n, txid) == Some(self.inclusions@[txid]@)
        &&& forall|hash: Seq<char>| #[trigger]
            self.positions@.contains_key(hash) <==> block_position(blocks, n, hash) is Some
        &&& forall|hash: Seq<char>| #[trigger]
            self.positions@.contains_key(hash) ==> block_position(blocks, n, hash) == Some(self.positions@[hash] as int)
    }

    /// Whether all the blocks of a chain are what was prepared.
    pub open spec fn is_of(self, blocks: Seq<BlockView>) -> bool {
        &&& self.covers(blocks, blocks.len())
        &&& forall|nf: Seq<char>| #[trigger]
            self.spent@.contains(nf) <==> chain_spends(blocks, 0, blocks.len() as int, nf)
    }
}

/// Notes for each transaction of a list that a block includes it.
fn index_transactions(inclusions: &mut StringHashMap<Tip>, transactions: &Vec<Tx>, block: &Tip)
    ensures
        forall|txid: Seq<char>| #[trigger]
            final(inclusions)@.contains_key(txid) <==> old(inclusions)@.contains_key(txid) || list_includes(
                tx_views(transactions@),
                transactions@.len() as int,
                txid,
            ),
        forall|txid: Seq<char>| #[trigger]
            final(inclusions)@.contains_key(txid) ==> final(inclusions)@[txid]@ == if list_includes(
                tx_views(transactions@),
                transactions@.len() as int,
                txid,
            ) {
                block@
            } else {
                old(inclusions)@[txid]@
            },
{
    let ghost list = tx_views(transactions@);
    let mut t: usize = 0;
    while t < transactions.len()
        invariant
            t <= transactions.len(),
            list == tx_views(transactions@),
            forall|txid: Seq<char>| #[trigger]
                inclusions@.contains_key(txid) <==> old(inclusions)@.contains_key(txid) || list_includes(
                    list,
                    t as int,
                    txid,
                ),
            forall|txid: Seq<char>| #[trigger]
                inclusions@.contains_key(txid) ==> inclusions@[txid]@ == if list_includes(list, t as int, txid) {
                    block@
                } else {
                    old(inclusions)@[txid]@
                },
        decreases transactions.len() - t,
    {
        let ghost before = inclusions@;
        inclusions.insert(transactions[t].txid.clone(), block.clone());
        proof {
            assert(list[t as int].txid == transactions@[t as int].txid@);
            assert forall|txid: Seq<char>| list_includes(list, t + 1, txid) <==> #[trigger] list_includes(
                list,
                t as int,
                txid,
            ) || txid == list[t as int].txid by {
                if txid == list[t as int].txid {
                    assert(list[t as int].txid == txid);
                }
            }
            assert forall|txid: Seq<char>| #[trigger]
                inclusions@.contains_key(txid) <==> old(inclusions)@.contains_key(txid) || list_includes(
                    list,
                    t + 1,
                    txid,
                ) by {
                assert(list_includes(list, t + 1, txid) <==> list_includes(list, t as int, txid) || txid == list[t as int].txid);
                assert(before.contains_key(txid) <==> old(inclusions)@.contains_key(txid) || list_includes(
                    list,
                    t as int,
                    txid,
                ));
            }
            assert forall|txid: Seq<char>| #[trigger]
                inclusions@.contains_key(txid) implies inclusions@[txid]@ == if list_includes(list, t + 1, txid) {
                block@
            } else {
                old(inclusions)@[txid]@
            } by {
                assert(list_includes(list, t + 1, txid) <==> list_includes(list, t as int, txid) || txid == list[t as int].txid);
                if txid != list[t as int].txid {
                    assert(before.contains_key(txid));
                }
            }
        }
        t += 1;
    }
}

/// Prepares a chain for looking things up. There is nothing to look up in a chain
/// with a block that has no height.
pub fn index_chain(blocks: &Vec<Block>) -> (index: Option<ChainIndex>)
    ensures
        match index {
            Some(index) => all_heights(block_views(blocks@)) && index.is_of(block_views(blocks@)),
            None => !all_heights(block_views(blocks@)),
        },
{
    let ghost chain = block_views(blocks@);
    let spent = chain_nullifiers(blocks, 0);
    let mut index = ChainIndex { inclusions: StringHashMap::new(), spent, positions: StringHashMap::new() };
    let mut b: usize = 0;
    while b < blocks.len()
        invariant
            b <= blocks.len(),
            chain == block_views(blocks@),
            forall|k: int| 0 <= k < b ==> (#[trigger] chain[k]).height is Some,
            index.covers(chain, b as nat),
            forall|nf: Seq<char>| #[trigger]
                index.spent@.contains(nf) <==> chain_spends(chain, 0, chain.len() as int, nf),
        decreases blocks.len() - b,
    {
        let block = &blocks[b];
        assert(chain[b as int] == block@);
        let height = match block.height {
            Some(height) => height,
            None => {
                assert(chain[b as int].height is None);
                return None;
            },
        };
        let tip = Tip { height, hash: block.hash.clone() };
        let ghost before = index;
        index.positions.insert(block.hash.clone(), b);
        index_transactions(&mut index.inclusions, &block.transactions, &tip);
        proof {
            assert(tip@ == block_tip(chain[b as int]));
            let n = (b + 1) as nat;
            assert forall|txid: Seq<char>| #[trigger]
                index.inclusions@.contains_key(txid) <==> inclusion(chain, n, txid) is Some by {
                assert(before.inclusions@.contains_key(txid) <==> inclusion(chain, b as nat, txid) is Some);
            }
            assert forall|txid: Seq<char>| #[trigger] index.inclusions@.contains_key(txid) implies inclusion(
                chain,
                n,
                txid,
            ) == Some(index.inclusions@[txid]@) by {
                if !block_includes(chain[b as int], txid) {
                    assert(before.inclusions@.contains_key(txid));
                }
            }
            assert forall|hash: Seq<char>| #[trigger]
                index.positions@.contains_key(hash) <==> block_position(chain, n, hash) is Some by {
                assert(before.positions@.contains_key(hash) <==> block_position(chain, b as nat, hash) is Some);
            }
            assert forall|hash: Seq<char>| #[trigger] index.positions@.contains_key(hash) implies block_position(
                chain,
                n,
                hash,
            ) == Some(index.positions@[hash] as int) by {
                if chain[b as int].hash != hash {
                    assert(before.positions@.contains_key(hash));
                }
            }
        }
        b += 1;
    }
    Some(index)
}

/// A block that was found has the hash that was looked for, and no later block has.
pub proof fn lemma_position(blocks: Seq<BlockView>, n: nat, hash: Seq<char>)
    requires
        n <= blocks.len(),
    ensures
        match block_position(blocks, n, hash) {
            Some(b) => 0 <= b < n && blocks[b].hash == hash,
            None => forall|b: int| 0 <= b < n ==> (#[trigger] blocks[b]).hash != hash,
        },
    decreases n,
{
    if n > 0 {
        lemma_position(blocks, (n - 1) as nat, hash);
    }
}

/// A payment that was found is in a block of the chain.
pub proof fn lemma_inclusion(blocks: Seq<BlockView>, n: nat, txid: Seq<char>)
    requires
        n <= blocks.len(),
    ensures
        match inclusion(blocks, n, txid) {
            Some(tip) => exists|b: int|
                0 <= b < n && block_includes(#[trigger] blocks[b], txid) && tip == block_tip(blocks[b]),
            None => forall|b: int| 0 <= b < n ==> !block_includes(#[trigger] blocks[b], txid),
        },
    decreases n,
{
    if n > 0 {
        lemma_inclusion(blocks, (n - 1) as nat, txid);
    }
}

} // verus!
