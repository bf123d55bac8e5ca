//! Transactions and blocks, as far as the service looks into them.

use crate::encoding::{hex_bytes, hex_decode, hex_encode, hex_text};
use crate::text::{insert_all, texts};
use vstd::hash_set::StringHashSet;
use vstd::prelude::*;
use zakura_chain::block::Block as ChainBlock;
use zakura_chain::serialization::{ZcashDeserialize, ZcashSerialize};
use zakura_chain::transaction::Transaction;

verus! {

/// `zakura_chain`'s transaction.
#[verifier::external_type_specification]
#[verifier::external_body]
pub struct ExChainTransaction(Transaction);

/// `zakura_chain`'s block.
#[verifier::external_type_specification]
#[verifier::external_body]
pub struct ExChainBlock(ChainBlock);

/// The version of a transaction and what it holds of each pool: the transparent
/// inputs and outputs, the Sapling outputs and spends, and whether it has an Orchard
/// and an Ironwood part.
#[derive(Debug, PartialEq, Eq, Clone, Copy)]
pub struct Pools {
    pub version: u32,
    pub coinbase: bool,
    pub inputs: usize,
    pub outputs: usize,
    pub sapling_outputs: usize,
    pub sapling_spends: usize,
    pub orchard: bool,
    pub ironwood: bool,
}

/// What the service reads of a transaction. Nullifiers are the Ironwood nullifiers,
/// in hexadecimal; `bytes` is the encoding of the transaction.
#[derive(Clone, Debug, PartialEq)]
pub struct Tx {
    pub txid: String,
    pub pools: Pools,
    pub nullifiers: Vec<String>,
    pub expiry: Option<u32>,
    pub bytes: Vec<u8>,
}

#[verifier::ext_equal]
pub struct TxView {
    pub txid: Seq<char>,
    pub pools: Pools,
    pub nullifiers: Seq<Seq<char>>,
    pub expiry: Option<u32>,
    pub bytes: Seq<u8>,
}

impl View for Tx {
    type V = TxView;

    open spec fn view(&self) -> TxView {
        TxView {
            txid: self.txid@,
            pools: self.pools,
            nullifiers: texts(self.nullifiers@),
            expiry: self.expiry,
            bytes: self.bytes@,
        }
    }
}

/// The models of a list of transactions.
pub open spec fn tx_views(transactions: Seq<Tx>) -> Seq<TxView> {
    transactions.map_values(|tx: Tx| tx@)
}

/// The transaction that `zakura_chain` reads from the start of a byte string, and
/// the number of bytes it takes up.
pub uninterp spec fn decoded(bytes: Seq<u8>) -> Option<(Transaction, nat)>;

/// Calls `Transaction::zcash_deserialize` of `zakura_chain` on the bytes. Which
/// transaction a byte string starts with depends on the bytes alone, and on those
/// alone that the transaction takes up: they are read one after the other, up to the
/// last of it, and what follows is not looked at. No claim is made of the words in
/// which `zakura_chain` rejects a byte string.
#[verifier::external_body]
fn decode(bytes: &[u8]) -> (read: Result<(Transaction, u64), String>)
    ensures
        match read {
            Ok((tx, used)) => {
                &&& decoded(bytes@) == Some((tx, used as nat))
                &&& used <= bytes@.len()
                &&& forall|other: Seq<u8>|
                    other.len() >= used && other.take(used as int) == bytes@.take(used as int) ==> #[trigger] decoded(
                        other,
                    ) == Some((tx, used as nat))
            },
            Err(_) => decoded(bytes@) is None,
        },
{
    let mut cursor = std::io::Cursor::new(bytes);
    let tx = Transaction::zcash_deserialize(&mut cursor).map_err(|e| e.to_string())?;
    Ok((tx, cursor.position()))
}

/// Whether a transaction is one that `zakura_chain` has read, by itself or as part of
/// a block.
pub open spec fn was_read(tx: Transaction) -> bool {
    ||| exists|bytes: Seq<u8>| #[trigger] decoded(bytes) is Some && (decoded(bytes)->0).0 == tx
    ||| exists|block: ChainBlock| #[trigger]
        block_transactions(block).contains(tx) && block_was_read(block)
}

/// The encoding of a transaction, if it can be encoded.
pub uninterp spec fn encoded(tx: Transaction) -> Option<Seq<u8>>;

/// Calls `zcash_serialize_to_vec` of `zakura_chain`, on a transaction that was read.
/// No claim is made of the words in which it fails.
#[verifier::external_body]
fn encode(tx: &Transaction) -> (bytes: Result<Vec<u8>, String>)
    requires
        was_read(*tx),
    ensures
        match bytes {
            Ok(b) => encoded(*tx) == Some(b@),
            Err(_) => encoded(*tx) is None,
        },
{
    tx.zcash_serialize_to_vec().map_err(|e| e.to_string())
}

/// The identifier of a transaction, in hexadecimal.
pub uninterp spec fn transaction_id(tx: Transaction) -> Seq<char>;

/// Whether a text has the form of the identifier of a transaction: 32 bytes in
/// hexadecimal.
pub open spec fn is_txid(text: Seq<char>) -> bool {
    text.len() == 64 && hex_bytes(text) is Some
}

/// Calls `hash` of `zakura_chain`'s transaction, on one that was read, and writes it
/// out: 32 bytes in hexadecimal.
#[verifier::external_body]
fn identify(tx: &Transaction) -> (txid: String)
    requires
        was_read(*tx),
    ensures
        txid@ == transaction_id(*tx),
        is_txid(txid@),
{
    tx.hash().to_string()
}

/// The version of a transaction.
pub uninterp spec fn transaction_version(tx: Transaction) -> u32;

/// Calls `version` of `zakura_chain`'s transaction.
#[verifier::external_body]
fn version_of(tx: &Transaction) -> (version: u32)
    ensures
        version == transaction_version(*tx),
{
    tx.version()
}

/// Whether a transaction is a coinbase transaction.
pub uninterp spec fn transaction_coinbase(tx: Transaction) -> bool;

/// Calls `is_coinbase` of `zakura_chain`'s transaction.
#[verifier::external_body]
fn is_coinbase(tx: &Transaction) -> (coinbase: bool)
    ensures
        coinbase == transaction_coinbase(*tx),
{
    tx.is_coinbase()
}

/// The number of transparent inputs of a transaction.
pub uninterp spec fn transparent_inputs(tx: Transaction) -> usize;

/// Calls `inputs` of `zakura_chain`'s transaction and counts them.
#[verifier::external_body]
fn inputs_of(tx: &Transaction) -> (count: usize)
    ensures
        count == transparent_inputs(*tx),
{
    tx.inputs().len()
}

/// The number of transparent outputs of a transaction.
pub uninterp spec fn transparent_outputs(tx: Transaction) -> usize;

/// Calls `outputs` of `zakura_chain`'s transaction and counts them.
#[verifier::external_body]
fn outputs_of(tx: &Transaction) -> (count: usize)
    ensures
        count == transparent_outputs(*tx),
{
    tx.outputs().len()
}

/// The number of Sapling outputs of a transaction.
pub uninterp spec fn sapling_outputs(tx: Transaction) -> usize;

/// Calls `sapling_outputs` of `zakura_chain`'s transaction and counts them.
#[verifier::external_body]
fn sapling_outputs_of(tx: &Transaction) -> (count: usize)
    ensures
        count == sapling_outputs(*tx),
{
    tx.sapling_outputs().count()
}

/// The number of Sapling spends of a transaction.
pub uninterp spec fn sapling_spends(tx: Transaction) -> usize;

/// Calls `sapling_nullifiers` of `zakura_chain`'s transaction and counts them.
#[verifier::external_body]
fn sapling_spends_of(tx: &Transaction) -> (count: usize)
    ensures
        count == sapling_spends(*tx),
{
    tx.sapling_nullifiers().count()
}

/// Whether a transaction has an Orchard part.
pub uninterp spec fn has_orchard(tx: Transaction) -> bool;

/// Calls `has_orchard_shielded_data` of `zakura_chain`'s transaction.
#[verifier::external_body]
fn orchard_of(tx: &Transaction) -> (present: bool)
    ensures
        present == has_orchard(*tx),
{
    tx.has_orchard_shielded_data()
}

/// Whether a transaction has an Ironwood part.
pub uninterp spec fn has_ironwood(tx: Transaction) -> bool;

/// Calls `has_ironwood_shielded_data` of `zakura_chain`'s transaction.
#[verifier::external_body]
fn ironwood_of(tx: &Transaction) -> (present: bool)
    ensures
        present == has_ironwood(*tx),
{
    tx.has_ironwood_shielded_data()
}

/// The version of a transaction and what it holds of each pool.
pub open spec fn transaction_pools(tx: Transaction) -> Pools {
    Pools {
        version: transaction_version(tx),
        coinbase: transaction_coinbase(tx),
        inputs: transparent_inputs(tx),
        outputs: transparent_outputs(tx),
        sapling_outputs: sapling_outputs(tx),
        sapling_spends: sapling_spends(tx),
        orchard: has_orchard(tx),
        ironwood: has_ironwood(tx),
    }
}

fn pools_of(tx: &Transaction) -> (pools: Pools)
    ensures
        pools == transaction_pools(*tx),
{
    Pools {
        version: version_of(tx),
        coinbase: is_coinbase(tx),
        inputs: inputs_of(tx),
        outputs: outputs_of(tx),
        sapling_outputs: sapling_outputs_of(tx),
        sapling_spends: sapling_spends_of(tx),
        orchard: orchard_of(tx),
        ironwood: ironwood_of(tx),
    }
}

/// The Ironwood nullifiers that a transaction reveals, in order.
pub uninterp spec fn transaction_nullifiers(tx: Transaction) -> Seq<Seq<u8>>;

/// Calls `ironwood_nullifiers` of `zakura_chain`'s transaction.
#[verifier::external_body]
fn nullifiers_of(tx: &Transaction) -> (nullifiers: Vec<[u8; 32]>)
    ensures
        nullifiers@.map_values(|n: [u8; 32]| n@) == transaction_nullifiers(*tx),
{
    tx.ironwood_nullifiers().map(|nullifier| (*nullifier).into()).collect()
}

/// The last height at which a transaction can be mined, if it expires.
pub uninterp spec fn transaction_expiry(tx: Transaction) -> Option<u32>;

/// Calls `expiry_height` of `zakura_chain`'s transaction.
#[verifier::external_body]
fn expiry_of(tx: &Transaction) -> (height: Option<u32>)
    ensures
        height == transaction_expiry(*tx),
{
    tx.expiry_height().map(|height| height.0)
}

/// What the service reads of a transaction of `zakura_chain`, if it can be encoded.
pub open spec fn described(tx: Transaction) -> Option<TxView> {
    match encoded(tx) {
        Some(bytes) => Some(
            TxView {
                txid: transaction_id(tx),
                pools: transaction_pools(tx),
                nullifiers: transaction_nullifiers(tx).map_values(|n: Seq<u8>| hex_text(n)),
                expiry: transaction_expiry(tx),
                bytes,
            },
        ),
        None => None,
    }
}

/// Reads what the service needs of a transaction.
fn describe(tx: &Transaction) -> (read: Result<Tx, String>)
    requires
        was_read(*tx),
    ensures
        match read {
            Ok(t) => described(*tx) == Some(t@) && is_txid(t@.txid),
            Err(_) => described(*tx) is None,
        },
{
    let bytes = match encode(tx) {
        Ok(bytes) => bytes,
        Err(words) => {
            return Err(words);
        },
    };
    let raw = nullifiers_of(tx);
    let ghost all = transaction_nullifiers(*tx).map_values(|n: Seq<u8>| hex_text(n));
    let mut nullifiers: Vec<String> = Vec::new();
    let mut i: usize = 0;
    while i < raw.len()
        invariant
            i <= raw.len(),
            raw@.map_values(|n: [u8; 32]| n@) == transaction_nullifiers(*tx),
            all == transaction_nullifiers(*tx).map_values(|n: Seq<u8>| hex_text(n)),
            texts(nullifiers@) =~= all.take(i as int),
        decreases raw.len() - i,
    {
        let ghost before = nullifiers@;
        assert(transaction_nullifiers(*tx)[i as int] == raw@[i as int]@);
        nullifiers.push(hex_encode(raw[i].as_slice()));
        assert(texts(nullifiers@) =~= texts(before).push(all[i as int]));
        i += 1;
    }
    assert(all.len() == raw@.len());
    assert(texts(nullifiers@) =~= all);
    Ok(Tx { txid: identify(tx), pools: pools_of(tx), nullifiers, expiry: expiry_of(tx), bytes })
}

/// The transaction at the start of a byte string, as far as the service reads it, and
/// the number of bytes it takes up.
pub open spec fn transaction_read(bytes: Seq<u8>) -> Option<(TxView, nat)> {
    match decoded(bytes) {
        Some((tx, used)) => match described(tx) {
            Some(view) => Some((view, used)),
            None => None,
        },
        None => None,
    }
}

/// Reads the transaction at the start of a byte string.
fn read_transaction(bytes: &[u8]) -> (read: Result<(Tx, u64), String>)
    ensures
        match read {
            Ok((tx, used)) => {
                &&& transaction_read(bytes@) == Some((tx@, used as nat))
                &&& is_txid(tx@.txid)
                &&& used <= bytes@.len()
                &&& forall|other: Seq<u8>|
                    other.len() >= used && other.take(used as int) == bytes@.take(used as int)
                        ==> #[trigger] transaction_read(other) == Some((tx@, used as nat))
            },
            Err(_) => transaction_read(bytes@) is None,
        },
{
    match decode(bytes) {
        Ok((tx, used)) => match describe(&tx) {
            Ok(t) => Ok((t, used)),
            Err(words) => Err(words),
        },
        Err(words) => Err(words),
    }
}

/// Why a hexadecimal text is no transaction.
#[derive(Debug, PartialEq)]
pub enum RawTxError {
    /// It is not hexadecimal.
    Hex(String),
    /// Its bytes do not start with a transaction.
    Malformed(String),
    /// Bytes follow the transaction.
    Trailing,
}

impl RawTxError {
    /// The error in words.
    pub fn message(&self) -> (text: String)
        ensures
            match *self {
                RawTxError::Hex(words) => text@ == words@,
                RawTxError::Malformed(words) => text@ == words@,
                RawTxError::Trailing => text@ == "trailing transaction bytes"@,
            },
    {
        match self {
            RawTxError::Hex(words) => words.clone(),
            RawTxError::Malformed(words) => words.clone(),
            RawTxError::Trailing => "trailing transaction bytes".to_string(),
        }
    }
}

/// The transaction that a hexadecimal text encodes: none unless the text is
/// hexadecimal and a transaction takes up all of its bytes.
pub open spec fn raw_transaction(raw: Seq<char>) -> Option<TxView> {
    match hex_bytes(raw) {
        Some(bytes) => match transaction_read(bytes) {
            Some((tx, used)) => if used == bytes.len() {
                Some(tx)
            } else {
                None
            },
            None => None,
        },
        None => None,
    }
}

proof fn lemma_hex_prefix(text: Seq<char>, more: Seq<char>)
    requires
        hex_bytes(text) is Some,
        hex_bytes(text + more) is Some,
    ensures
        hex_bytes(text + more)->0.take(hex_bytes(text)->0.len() as int) == hex_bytes(text)->0,
        more.len() > 0 ==> hex_bytes(text + more)->0.len() > hex_bytes(text)->0.len(),
{
    let whole = hex_bytes(text + more)->0;
    let start = hex_bytes(text)->0;
    assert forall|i: int| 0 <= i < start.len() implies whole[i] == start[i] by {
        assert((text + more)[2 * i] == text[2 * i]);
        assert((text + more)[2 * i + 1] == text[2 * i + 1]);
    }
    assert(whole.take(start.len() as int) =~= start);
}

/// Whether a text encodes no transaction, and an error is the reason for it.
pub open spec fn is_raw_error(e: RawTxError, raw: Seq<char>) -> bool {
    &&& raw_transaction(raw) is None
    &&& e is Hex <==> hex_bytes(raw) is None
    &&& e is Malformed <==> hex_bytes(raw) is Some && transaction_read(hex_bytes(raw)->0) is None
}

/// The message of a text that encodes no transaction, where the library has one.
pub open spec fn raw_message(raw: Seq<char>) -> Option<Seq<char>> {
    if hex_bytes(raw) is Some && transaction_read(hex_bytes(raw)->0) is Some {
        Some("trailing transaction bytes"@)
    } else {
        None
    }
}

/// Reads a transaction from its hexadecimal text. A text that goes on after one that
/// was accepted is refused for its trailing bytes, as long as it is hexadecimal.
pub fn raw_tx(raw: &str) -> (tx: Result<Tx, RawTxError>)
    ensures
        match tx {
            Ok(tx) => {
                &&& raw_transaction(raw@) == Some(tx@)
                &&& is_txid(tx@.txid)
                &&& forall|more: Seq<char>|
                    more.len() > 0 && hex_bytes(#[trigger] (raw@ + more)) is Some ==> is_raw_error(
                        RawTxError::Trailing,
                        raw@ + more,
                    )
            },
            Err(e) => is_raw_error(e, raw@),
        },
{
    match hex_decode(raw) {
        Ok(bytes) => match read_transaction(bytes.as_slice()) {
            Ok((tx, used)) => {
                proof {
                    if used == bytes@.len() {
                        assert forall|more: Seq<char>|
                            more.len() > 0 && hex_bytes(#[trigger] (raw@ + more)) is Some implies is_raw_error(
                            RawTxError::Trailing,
                            raw@ + more,
                        ) by {
                            lemma_hex_prefix(raw@, more);
                            assert(bytes@.take(used as int) =~= bytes@);
                            assert(transaction_read(hex_bytes(raw@ + more)->0) == Some((tx@, used as nat)));
                        }
                    }
                }
                whole_transaction(tx, used, bytes.len())
            },
            Err(words) => Err(RawTxError::Malformed(words)),
        },
        Err(words) => Err(RawTxError::Hex(words)),
    }
}

/// Accepts a transaction that was read from the first `used` of `len` bytes only
/// where no byte is left.
pub fn whole_transaction(tx: Tx, used: u64, len: usize) -> (whole: Result<Tx, RawTxError>)
    ensures
        whole == if used == len {
            Ok::<Tx, RawTxError>(tx)
        } else {
            Err::<Tx, RawTxError>(RawTxError::Trailing)
        },
{
    if used == len as u64 {
        Ok(tx)
    } else {
        Err(RawTxError::Trailing)
    }
}

/// Whether a transaction spends and pays in the Ironwood pool alone, as the service
/// requires of every payment.
pub open spec fn ironwood_only(tx: TxView) -> bool {
    &&& tx.pools.version == 6
    &&& !tx.pools.coinbase
    &&& tx.pools.inputs == 0
    &&& tx.pools.outputs == 0
    &&& tx.pools.sapling_outputs == 0
    &&& tx.pools.sapling_spends == 0
    &&& !tx.pools.orchard
    &&& tx.pools.ironwood
}

impl Tx {
    pub fn is_ironwood_only(&self) -> (eligible: bool)
        ensures
            eligible == ironwood_only(self@),
    {
        let pools = &self.pools;
        pools.version == 6 && !pools.coinbase && pools.inputs == 0 && pools.outputs == 0 && pools.sapling_outputs == 0
            && pools.sapling_spends == 0 && !pools.orchard && pools.ironwood
    }
}

/// What the service reads of a block. A block whose first transaction is no coinbase
/// has no height.
#[derive(Clone, Debug, PartialEq)]
pub struct Block {
    pub height: Option<u32>,
    pub hash: String,
    pub transactions: Vec<Tx>,
}

#[verifier::ext_equal]
pub struct BlockView {
    pub height: Option<u32>,
    pub hash: Seq<char>,
    pub transactions: Seq<TxView>,
}

impl View for Block {
    type V = BlockView;

    open spec fn view(&self) -> BlockView {
        BlockView { height: self.height, hash: self.hash@, transactions: tx_views(self.transactions@) }
    }
}

/// Whether the transactions of a list of blocks are identified as `zakura_chain`
/// identifies those that it reads.
pub open spec fn identified(blocks: Seq<BlockView>) -> bool {
    forall|b: int, t: int|
        0 <= b < blocks.len() && 0 <= t < blocks[b].transactions.len() ==> is_txid(
            (#[trigger] blocks[b].transactions[t]).txid,
        )
}

/// The models of a list of blocks.
pub open spec fn block_views(blocks: Seq<Block>) -> Seq<BlockView> {
    blocks.map_values(|b: Block| b@)
}

/// The block that `zakura_chain` reads from the start of a byte string.
pub uninterp spec fn block_decoded(bytes: Seq<u8>) -> Option<ChainBlock>;

/// Calls `zcash_deserialize` of `zakura_chain`'s `Block` on the bytes. Which block a
/// byte string starts with depends on the bytes alone; no claim is made of the words in
/// which `zakura_chain` rejects one.
#[verifier::external_body]
fn decode_block(bytes: &[u8]) -> (read: Result<ChainBlock, String>)
    ensures
        match read {
            Ok(block) => block_decoded(bytes@) == Some(block),
            Err(_) => block_decoded(bytes@) is None,
        },
{
    ChainBlock::zcash_deserialize(bytes).map_err(|e| e.to_string())
}

/// Whether a block is one that `zakura_chain` has read.
pub open spec fn block_was_read(block: ChainBlock) -> bool {
    exists|bytes: Seq<u8>| #[trigger] block_decoded(bytes) == Some(block)
}

/// The height that the coinbase transaction of a block names, if it has one.
pub uninterp spec fn block_height(block: ChainBlock) -> Option<u32>;

/// Calls `coinbase_height` of `zakura_chain`'s block.
#[verifier::external_body]
fn height_of(block: &ChainBlock) -> (height: Option<u32>)
    ensures
        height == block_height(*block),
{
    block.coinbase_height().map(|height| height.0)
}

/// The hash of a block, in hexadecimal.
pub uninterp spec fn block_hash(block: ChainBlock) -> Seq<char>;

/// Calls `hash` of `zakura_chain`'s block, on one that was read, and writes it out.
#[verifier::external_body]
fn hash_of(block: &ChainBlock) -> (hash: String)
    requires
        block_was_read(*block),
    ensures
        hash@ == block_hash(*block),
{
    block.hash().to_string()
}

/// The transactions of a block, in order.
pub uninterp spec fn block_transactions(block: ChainBlock) -> Seq<Transaction>;

/// Takes the transactions out of `zakura_chain`'s block.
#[verifier::external_body]
fn transactions_of(block: &ChainBlock) -> (transactions: Vec<Transaction>)
    ensures
        transactions@ == block_transactions(*block),
{
    block.transactions.iter().map(|tx| Transaction::clone(tx)).collect()
}

/// What the service reads of a list of transactions, if each can be encoded.
pub open spec fn all_described(list: Seq<Transaction>) -> Option<Seq<TxView>> {
    if forall|i: int| 0 <= i < list.len() ==> described(#[trigger] list[i]) is Some {
        Some(list.map_values(|tx: Transaction| described(tx)->0))
    } else {
        None
    }
}

/// The block that a hexadecimal text encodes.
pub open spec fn hex_block(raw: Seq<char>) -> Option<BlockView> {
    match hex_bytes(raw) {
        Some(bytes) => match block_decoded(bytes) {
            Some(block) => match all_described(block_transactions(block)) {
                Some(transactions) => Some(
                    BlockView { height: block_height(block), hash: block_hash(block), transactions },
                ),
                None => None,
            },
            None => None,
        },
        None => None,
    }
}

/// Whether a text encodes no block, and an error is the reason for it.
pub open spec fn is_block_error(e: RawTxError, raw: Seq<char>) -> bool {
    &&& hex_block(raw) is None
    &&& e is Hex <==> hex_bytes(raw) is None
    &&& e is Malformed <==> hex_bytes(raw) is Some
}

/// Reads a block from its hexadecimal text. Bytes that follow the block are ignored.
pub fn raw_block(raw: &str) -> (block: Result<Block, RawTxError>)
    ensures
        match block {
            Ok(block) => hex_block(raw@) == Some(block@) && identified(seq![block@]),
            Err(e) => is_block_error(e, raw@),
        },
{
    let bytes = match hex_decode(raw) {
        Ok(bytes) => bytes,
        Err(words) => {
            return Err(RawTxError::Hex(words));
        },
    };
    let block = match decode_block(bytes.as_slice()) {
        Ok(block) => block,
        Err(words) => {
            return Err(RawTxError::Malformed(words));
        },
    };
    let list = transactions_of(&block);
    let mut transactions: Vec<Tx> = Vec::new();
    let mut i: usize = 0;
    while i < list.len()
        invariant
            i <= list.len(),
            transactions.len() == i,
            forall|k: int| 0 <= k < i ==> described(#[trigger] list@[k]) is Some,
            forall|k: int| 0 <= k < i ==> (#[trigger] transactions@[k])@ == described(list@[k])->0,
            hex_bytes(raw@) == Some(bytes@),
            forall|k: int| 0 <= k < i ==> is_txid((#[trigger] transactions@[k])@.txid),
            block_decoded(bytes@) == Some(block),
            list@ == block_transactions(block),
        decreases list.len() - i,
    {
        assert(block_was_read(block));
        assert(block_transactions(block).contains(list@[i as int]));
        match describe(&list[i]) {
            Ok(tx) => {
                transactions.push(tx);
            },
            Err(words) => {
                return Err(RawTxError::Malformed(words));
            },
        }
        i += 1;
    }
    assert(tx_views(transactions@) =~= all_described(list@)->0);
    assert(block_was_read(block));
    Ok(Block { height: height_of(&block), hash: hash_of(&block), transactions })
}

/// Whether a transaction reveals a nullifier.
pub open spec fn spends(tx: TxView, nullifier: Seq<char>) -> bool {
    tx.nullifiers.contains(nullifier)
}

/// Whether one of the first `n` transactions of a list reveals a nullifier.
pub open spec fn list_spends(transactions: Seq<TxView>, n: int, nullifier: Seq<char>) -> bool {
    exists|t: int| 0 <= t < n && spends(#[trigger] transactions[t], nullifier)
}

/// Whether a transaction of one of the blocks from `from` up to `to` reveals a
/// nullifier.
pub open spec fn chain_spends(blocks: Seq<BlockView>, from: int, to: int, nullifier: Seq<char>) -> bool {
    exists|b: int|
        from <= b < to && list_spends((#[trigger] blocks[b]).transactions, blocks[b].transactions.len() as int, nullifier)
}

/// Adds the nullifiers of a transaction to a set.
pub fn insert_nullifiers(set: &mut StringHashSet, tx: &Tx)
    ensures
        forall|nf: Seq<char>| #[trigger] final(set)@.contains(nf) <==> old(set)@.contains(nf) || spends(tx@, nf),
{
    insert_all(set, &tx.nullifiers);
}

/// Collects the nullifiers that the blocks from `from` on reveal.
pub fn chain_nullifiers(blocks: &Vec<Block>, from: usize) -> (set: StringHashSet)
    requires
        from <= blocks.len(),
    ensures
        forall|nf: Seq<char>| #[trigger]
            set@.contains(nf) <==> chain_spends(block_views(blocks@), from as int, blocks@.len() as int, nf),
{
    let mut set = StringHashSet::new();
    let ghost chain = block_views(blocks@);
    let mut b: usize = from;
    while b < blocks.len()
        invariant
            from <= b <= blocks.len(),
            chain == block_views(blocks@),
            forall|nf: Seq<char>| #[trigger] set@.contains(nf) <==> chain_spends(chain, from as int, b as int, nf),
        decreases blocks.len() - b,
    {
        let ghost before = set@;
        let ghost list = chain[b as int].transactions;
        assert(list =~= tx_views(blocks@[b as int].transactions@));
        let mut t: usize = 0;
        while t < blocks[b].transactions.len()
            invariant
                from <= b < blocks.len(),
                t <= blocks@[b as int].transactions@.len(),
                list == tx_views(blocks@[b as int].transactions@),
                forall|nf: Seq<char>| #[trigger]
                    set@.contains(nf) <==> before.contains(nf) || list_spends(list, t as int, nf),
            decreases blocks@[b as int].transactions@.len() - t,
        {
            let ghost inner = set@;
            insert_nullifiers(&mut set, &blocks[b].transactions[t]);
            proof {
                assert(list[t as int] == blocks@[b as int].transactions@[t as int]@);
                assert forall|nf: Seq<char>| #[trigger]
                    set@.contains(nf) <==> before.contains(nf) || list_spends(list, t + 1, nf) by {
                    assert(set@.contains(nf) <==> inner.contains(nf) || spends(list[t as int], nf));
                    assert(inner.contains(nf) <==> before.contains(nf) || list_spends(list, t as int, nf));
                }
            }
            t += 1;
        }
        proof {
            assert forall|nf: Seq<char>| #[trigger]
                set@.contains(nf) <==> chain_spends(chain, from as int, b + 1, nf) by {
                assert(before.contains(nf) <==> chain_spends(chain, from as int, b as int, nf));
                if list_spends(list, list.len() as int, nf) {
                    assert(list_spends(chain[b as int].transactions, chain[b as int].transactions.len() as int, nf));
                }
            }
        }
        b += 1;
    }
    set
}

} // verus!
