//! Following a node: what it is asked, and how its blocks are kept up to date.

use crate::json::{
    array, as_text, as_unsigned, copy, entries, entry_views, field, fields, get, is_null, json, json_text, json_written, jsons,
    object, put, text, unsigned, write_json, Json,
};
use crate::text::same_optional;
use crate::transaction::{block_views, hex_block, identified, is_block_error, is_txid, raw_block, Block, BlockView, RawTxError};
use serde_json::Value;
use vstd::prelude::*;
use vstd::string::StringExecFns;
use vstd::utf8::encode_utf8;

verus! {

/// A request to a node, as JSON.
pub open spec fn request_json(method: Seq<char>, params: Json) -> Json {
    Json::Object(
        fields(
            seq![
                ("jsonrpc"@, Json::Text("2.0"@)),
                ("id"@, Json::Unsigned(1)),
                ("method"@, Json::Text(method)),
                ("params"@, params),
            ],
        ),
    )
}

/// Makes a request to a node.
pub fn rpc_request(method: &str, params: Value) -> (value: Value)
    ensures
        json(value) == request_json(method@, json(params)),
{
    let ghost params_json = json(params);
    let mut list = entries();
    put(&mut list, "jsonrpc", text("2.0".to_string()));
    put(&mut list, "id", unsigned(1));
    put(&mut list, "method", text(method.to_string()));
    put(&mut list, "params", params);
    assert(entry_views(list@) =~= seq![
        ("jsonrpc"@, Json::Text("2.0"@)),
        ("id"@, Json::Unsigned(1)),
        ("method"@, Json::Text(method@)),
        ("params"@, params_json),
    ]);
    object(list)
}

/// Why a node's response has no result.
#[derive(Debug, PartialEq)]
pub enum RpcError {
    /// The node reported an error.
    Failed(String),
    /// There is no result in it.
    Missing,
}

impl RpcError {
    /// The error in words.
    pub fn message(&self) -> (text: String)
        ensures
            match *self {
                RpcError::Failed(words) => text@ == words@,
                RpcError::Missing => text@ == "missing RPC result"@,
            },
    {
        match self {
            RpcError::Failed(words) => words.clone(),
            RpcError::Missing => "missing RPC result".to_string(),
        }
    }
}

/// Whether a node's response reports an error.
pub open spec fn has_error(response: Json) -> bool {
    field(response, "error"@) is Some && !(field(response, "error"@)->0 is Null)
}

/// Whether a message is the name of a method, a colon, and a value in JSON.
pub open spec fn is_failure(message: Seq<char>, method: Seq<char>, error: Json) -> bool {
    exists|written: Seq<char>| #[trigger] encode_utf8(written) == json_written(error) && message == method + ": "@ + written
}

/// Takes the result out of a node's response.
pub fn rpc(method: &str, response: &Value) -> (result: Result<Value, RpcError>)
    ensures
        match result {
            Ok(value) => !has_error(json(*response)) && field(json(*response), "result"@) == Some(json(value)),
            Err(RpcError::Failed(words)) => has_error(json(*response)) && is_failure(
                words@,
                method@,
                field(json(*response), "error"@)->0,
            ),
            Err(RpcError::Missing) => !has_error(json(*response)) && field(json(*response), "result"@) is None,
        },
{
    if let Some(error) = get(response, "error") {
        if !is_null(error) {
            let mut words = method.to_string();
            words.append(": ");
            match write_json(error) {
                Ok(written) => {
                    words.append(written.as_str());
                    assert(words@ =~= method@ + ": "@ + written@);
                },
                Err(_) => {},
            }
            return Err(RpcError::Failed(words));
        }
    }
    match get(response, "result") {
        Some(value) => Ok(copy(value)),
        None => Err(RpcError::Missing),
    }
}

/// How far the blocks of a node have been brought up to date.
pub enum Stage {
    /// The height of the node is asked for.
    Height,
    /// The last block that is kept is compared with the node's.
    Trim { height: u64 },
    /// The hash of the next block is asked for.
    Fetch { height: u64 },
    /// The next block is asked for.
    Load { height: u64, hash: Value },
    /// The best block of the node is asked for.
    Best { height: u64 },
    /// All blocks are there.
    Done { height: u64 },
}

impl Stage {
    /// Whether a stage belongs to the blocks that are kept.
    pub open spec fn fits(self, blocks: Seq<BlockView>) -> bool {
        match self {
            Stage::Height => true,
            Stage::Trim { height } => 0 < blocks.len() <= height + 1,
            Stage::Fetch { height } => blocks.len() <= height,
            Stage::Load { height, hash } => blocks.len() <= height,
            Stage::Best { height } => blocks.len() == height + 1,
            Stage::Done { height } => blocks.len() == height + 1,
        }
    }
}

/// The stage in which blocks are fetched, up to a height.
pub open spec fn fetching(blocks: Seq<BlockView>, height: u64) -> Stage {
    if blocks.len() <= height {
        Stage::Fetch { height }
    } else {
        Stage::Best { height }
    }
}

/// The blocks that can still be right, and the stage in which the last of them is
/// compared: blocks above the height of the node cannot.
pub open spec fn trimmed(blocks: Seq<BlockView>, height: u64) -> (Seq<BlockView>, Stage) {
    let kept = if blocks.len() > height + 1 {
        blocks.take(height + 1)
    } else {
        blocks
    };
    if kept.len() == 0 {
        (kept, fetching(kept, height))
    } else {
        (kept, Stage::Trim { height })
    }
}

/// Why the blocks of a node cannot be brought up to date.
#[derive(Debug, PartialEq)]
pub enum ChainError {
    /// The node has no height.
    Height,
    /// The node sent no block.
    NoBlock,
    /// The node sent something that is no block.
    Block(RawTxError),
    /// The best block of the node is another one by now.
    Changed,
}

impl ChainError {
    /// The error in words.
    pub fn message(&self) -> (text: String)
        ensures
            match *self {
                ChainError::Height => text@ == "height"@,
                ChainError::NoBlock => text@ == "block hex"@,
                ChainError::Block(RawTxError::Hex(words)) => text@ == words@,
                ChainError::Block(RawTxError::Malformed(words)) => text@ == words@,
                ChainError::Block(RawTxError::Trailing) => text@ == "trailing transaction bytes"@,
                ChainError::Changed => text@ == "chain changed while syncing wallet"@,
            },
    {
        match self {
            ChainError::Height => "height".to_string(),
            ChainError::NoBlock => "block hex".to_string(),
            ChainError::Block(e) => e.message(),
            ChainError::Changed => "chain changed while syncing wallet".to_string(),
        }
    }
}

/// The hash of the last block.
pub open spec fn last_hash(blocks: Seq<BlockView>) -> Option<Seq<char>> {
    if blocks.len() > 0 {
        Some(blocks.last().hash)
    } else {
        None
    }
}

/// What a node is asked in a stage.
pub open spec fn question(blocks: Seq<BlockView>, stage: Stage) -> Option<(Seq<char>, Json)> {
    match stage {
        Stage::Height => Some(("getblockcount"@, Json::Array(Seq::empty()))),
        Stage::Trim { height } => Some(
            ("getblockhash"@, Json::Array(seq![Json::Unsigned((blocks.len() - 1) as u64)])),
        ),
        Stage::Fetch { height } => Some(("getblockhash"@, Json::Array(seq![Json::Unsigned(blocks.len() as u64)]))),
        Stage::Load { height, hash } => Some(("getblock"@, Json::Array(seq![json(hash), Json::Unsigned(0)]))),
        Stage::Best { height } => Some(("getbestblockhash"@, Json::Array(Seq::empty()))),
        Stage::Done { height } => None,
    }
}

/// Makes what a node is asked in a stage: a method and its parameters.
pub fn ask(blocks: &Vec<Block>, stage: &Stage) -> (asked: Option<(&'static str, Value)>)
    requires
        stage.fits(block_views(blocks@)),
    ensures
        match asked {
            Some((method, params)) => question(block_views(blocks@), *stage) == Some((method@, json(params))),
            None => question(block_views(blocks@), *stage) is None,
        },
{
    let mut items: Vec<Value> = Vec::new();
    match stage {
        Stage::Height => {
            assert(jsons(items@) =~= Seq::<Json>::empty());
            Some(("getblockcount", array(items)))
        },
        Stage::Trim { .. } => {
            items.push(unsigned((blocks.len() - 1) as u64));
            assert(jsons(items@) =~= seq![Json::Unsigned((blocks@.len() - 1) as u64)]);
            Some(("getblockhash", array(items)))
        },
        Stage::Fetch { .. } => {
            items.push(unsigned(blocks.len() as u64));
            assert(jsons(items@) =~= seq![Json::Unsigned(blocks@.len() as u64)]);
            Some(("getblockhash", array(items)))
        },
        Stage::Load { hash, .. } => {
            items.push(copy(hash));
            items.push(unsigned(0));
            assert(jsons(items@) =~= seq![json(*hash), Json::Unsigned(0)]);
            Some(("getblock", array(items)))
        },
        Stage::Best { .. } => {
            assert(jsons(items@) =~= Seq::<Json>::empty());
            Some(("getbestblockhash", array(items)))
        },
        Stage::Done { .. } => None,
    }
}

fn fetch(blocks: &Vec<Block>, height: u64) -> (stage: Stage)
    ensures
        stage == fetching(block_views(blocks@), height),
{
    if blocks.len() as u64 <= height {
        Stage::Fetch { height }
    } else {
        Stage::Best { height }
    }
}

fn trim(blocks: &mut Vec<Block>, height: u64) -> (stage: Stage)
    ensures
        (block_views(final(blocks)@), stage) == trimmed(block_views(old(blocks)@), height),
{
    let ghost before = block_views(blocks@);
    while blocks.len() > 0 && (blocks.len() - 1) as u64 > height
        invariant
            before == block_views(old(blocks)@),
            blocks@.len() <= before.len(),
            block_views(blocks@) =~= before.take(blocks@.len() as int),
            blocks@.len() == before.len() || blocks@.len() >= height + 1,
        decreases blocks@.len(),
    {
        let ghost inner = blocks@;
        let _ = blocks.pop();
        assert(block_views(blocks@) =~= block_views(inner).drop_last());
        assert(block_views(blocks@) =~= before.take(blocks@.len() as int));
    }
    assert(before.take(before.len() as int) =~= before);
    if blocks.len() == 0 {
        fetch(blocks, height)
    } else {
        Stage::Trim { height }
    }
}

/// The blocks and the stage after a node has answered.
pub open spec fn advanced(blocks: Seq<BlockView>, stage: Stage, reply: Json) -> Option<(Seq<BlockView>, StageView)> {
    let said = json_text(Some(reply));
    match stage {
        Stage::Height => match reply {
            Json::Unsigned(height) => Some((trimmed(blocks, height).0, stage_view(trimmed(blocks, height).1))),
            _ => None,
        },
        Stage::Trim { height } => if said == last_hash(blocks) {
            Some((blocks, stage_view(fetching(blocks, height))))
        } else {
            let fewer = trimmed(blocks.drop_last(), height);
            Some((fewer.0, stage_view(fewer.1)))
        },
        Stage::Fetch { height } => Some((blocks, StageView::Load { height, hash: reply })),
        Stage::Load { height, hash } => if said is Some && hex_block(said->0) is Some {
            let more = blocks.push(hex_block(said->0)->0);
            Some((more, stage_view(fetching(more, height))))
        } else {
            None
        },
        Stage::Best { height } => if said == last_hash(blocks) {
            Some((blocks, StageView::Done { height }))
        } else {
            None
        },
        Stage::Done { height } => Some((blocks, StageView::Done { height })),
    }
}

/// The model of a stage.
pub enum StageView {
    Height,
    Trim { height: u64 },
    Fetch { height: u64 },
    Load { height: u64, hash: Json },
    Best { height: u64 },
    Done { height: u64 },
}

/// The model of a stage.
pub open spec fn stage_view(stage: Stage) -> StageView {
    match stage {
        Stage::Height => StageView::Height,
        Stage::Trim { height } => StageView::Trim { height },
        Stage::Fetch { height } => StageView::Fetch { height },
        Stage::Load { height, hash } => StageView::Load { height, hash: json(hash) },
        Stage::Best { height } => StageView::Best { height },
        Stage::Done { height } => StageView::Done { height },
    }
}

/// Takes in a node's answer. Blocks that the node no longer has are dropped, and the
/// missing ones are added; blocks that are right are not asked for again. Where the
/// answer is an error, the blocks stay as they are.
pub fn advance(blocks: &mut Vec<Block>, stage: Stage, reply: &Value) -> (next: Result<Stage, ChainError>)
    requires
        stage.fits(block_views(old(blocks)@)),
    ensures
        match next {
            Ok(next) => {
                &&& advanced(block_views(old(blocks)@), stage, json(*reply)) == Some(
                    (block_views(final(blocks)@), stage_view(next)),
                )
                &&& next.fits(block_views(final(blocks)@))
                &&& identified(block_views(old(blocks)@)) ==> identified(block_views(final(blocks)@))
            },
            Err(e) => {
                &&& advanced(block_views(old(blocks)@), stage, json(*reply)) is None
                &&& block_views(final(blocks)@) == block_views(old(blocks)@)
                &&& e is Height <==> stage is Height
                &&& e is Changed <==> stage is Best
                &&& e is NoBlock <==> stage is Load && !(json(*reply) is Text)
                &&& e matches ChainError::Block(e) ==> json(*reply) is Text && is_block_error(e, json(*reply)->Text_0)
            },
        },
{
    let ghost before = block_views(blocks@);
    match stage {
        Stage::Height => match as_unsigned(reply) {
            Some(height) => {
                let next = trim(blocks, height);
                proof {
                    lemma_start_identified(before, block_views(blocks@));
                }
                Ok(next)
            },
            None => Err(ChainError::Height),
        },
        Stage::Trim { height } => {
            let last = blocks.len() - 1;
            assert(before.last() == blocks@[last as int]@);
            if same_optional(as_text(reply), Some(blocks[last].hash.as_str())) {
                Ok(fetch(blocks, height))
            } else {
                let _ = blocks.pop();
                assert(block_views(blocks@) =~= before.drop_last());
                let next = trim(blocks, height);
                proof {
                    lemma_start_identified(before, block_views(blocks@));
                }
                Ok(next)
            }
        },
        Stage::Fetch { height } => Ok(Stage::Load { height, hash: copy(reply) }),
        Stage::Load { height, .. } => {
            let raw = match as_text(reply) {
                Some(raw) => raw,
                None => {
                    return Err(ChainError::NoBlock);
                },
            };
            match raw_block(raw) {
                Ok(block) => {
                    let ghost inner = blocks@;
                    blocks.push(block);
                    assert(block_views(blocks@) =~= before.push(block@));
                    proof {
                        lemma_one_more_identified(before, block@);
                    }
                    Ok(fetch(blocks, height))
                },
                Err(e) => Err(ChainError::Block(e)),
            }
        },
        Stage::Best { height } => {
            let known: Option<&str> = if blocks.len() > 0 {
                assert(before.last() == blocks@[blocks@.len() - 1]@);
                Some(blocks[blocks.len() - 1].hash.as_str())
            } else {
                None
            };
            if same_optional(as_text(reply), known) {
                Ok(Stage::Done { height })
            } else {
                Err(ChainError::Changed)
            }
        },
        Stage::Done { height } => Ok(Stage::Done { height }),
    }
}

proof fn lemma_start_identified(blocks: Seq<BlockView>, start: Seq<BlockView>)
    requires
        start.len() <= blocks.len(),
        start =~= blocks.take(start.len() as int),
    ensures
        identified(blocks) ==> identified(start),
{
    if identified(blocks) {
        assert forall|b: int, t: int|
            0 <= b < start.len() && 0 <= t < start[b].transactions.len() implies is_txid(
            (#[trigger] start[b].transactions[t]).txid,
        ) by {
            assert(is_txid(blocks[b].transactions[t].txid));
        }
    }
}

proof fn lemma_one_more_identified(blocks: Seq<BlockView>, block: BlockView)
    requires
        identified(seq![block]),
    ensures
        identified(blocks) ==> identified(blocks.push(block)),
{
    if identified(blocks) {
        let more = blocks.push(block);
        assert forall|b: int, t: int|
            0 <= b < more.len() && 0 <= t < more[b].transactions.len() implies is_txid(
            (#[trigger] more[b].transactions[t]).txid,
        ) by {
            if b < blocks.len() {
                assert(is_txid(blocks[b].transactions[t].txid));
            } else {
                assert(is_txid(seq![block][0].transactions[t].txid));
            }
        }
    }
}

/// When all blocks are there, there are as many as the height of the node asks for,
/// and the last one is the best block of the node.
pub proof fn law_complete_chain_ends_in_the_best_block(blocks: Seq<BlockView>, height: u64, reply: Json)
    requires
        (Stage::Best { height }).fits(blocks),
        advanced(blocks, Stage::Best { height }, reply) is Some,
    ensures
        blocks.len() == height + 1,
        last_hash(blocks) == json_text(Some(reply)),
        (advanced(blocks, Stage::Best { height }, reply)->0).0 == blocks,
{
}

/// The blocks that are kept only ever lose blocks at the end, or gain one there.
pub proof fn law_blocks_change_at_the_end(blocks: Seq<BlockView>, stage: Stage, reply: Json)
    requires
        stage.fits(blocks),
        advanced(blocks, stage, reply) is Some,
    ensures
        ({
            let after = (advanced(blocks, stage, reply)->0).0;
            after.len() <= blocks.len() && after == blocks.take(after.len() as int) || after.len() == blocks.len() + 1
                && after.drop_last() == blocks
        }),
{
    let after = (advanced(blocks, stage, reply)->0).0;
    if after.len() <= blocks.len() {
        assert(after =~= blocks.take(after.len() as int));
    } else {
        assert(after.drop_last() =~= blocks);
    }
}

/// Whether the hash of a block stands for all the blocks up to it, among the blocks
/// that are kept and those of a node.
pub open spec fn is_linked(blocks: Seq<BlockView>, node: Seq<BlockView>) -> bool {
    forall|k: int|
        0 <= k < blocks.len() && k < node.len() && (#[trigger] blocks[k]).hash == node[k].hash ==> blocks.take(k + 1)
            == node.take(k + 1)
}

/// Whether a node with these blocks gives an answer in a stage.
pub open spec fn is_answer(blocks: Seq<BlockView>, node: Seq<BlockView>, stage: Stage, reply: Json) -> bool {
    match stage {
        Stage::Height => reply == Json::Unsigned((node.len() - 1) as u64),
        Stage::Trim { height } => reply == Json::Text(node[blocks.len() - 1].hash),
        Stage::Fetch { height } => reply == Json::Text(node[blocks.len() as int].hash),
        Stage::Load { height, hash } => reply is Text && hex_block(reply->Text_0) == Some(node[blocks.len() as int]),
        Stage::Best { height } => reply == Json::Text(node.last().hash),
        Stage::Done { height } => true,
    }
}

/// Whether the blocks that are kept are as far as they should be in a stage.
pub open spec fn on_track(blocks: Seq<BlockView>, node: Seq<BlockView>, stage: StageView) -> bool {
    match stage {
        StageView::Height => is_linked(blocks, node),
        StageView::Trim { height } => {
            height + 1 == node.len() && 0 < blocks.len() <= node.len() && is_linked(blocks, node)
        },
        StageView::Fetch { height } => {
            height + 1 == node.len() && blocks.len() < node.len() && blocks == node.take(blocks.len() as int)
        },
        StageView::Load { height, hash } => {
            &&& height + 1 == node.len() && blocks.len() < node.len() && blocks == node.take(blocks.len() as int)
            &&& hash == Json::Text(node[blocks.len() as int].hash)
        },
        StageView::Best { height } => height + 1 == node.len() && blocks == node,
        StageView::Done { height } => blocks == node,
    }
}

/// The most answers that are left until all blocks are there.
pub open spec fn answers_left(blocks: Seq<BlockView>, node: Seq<BlockView>, stage: StageView) -> int {
    match stage {
        StageView::Height => 2 * node.len() as int + blocks.len() + 2,
        StageView::Trim { .. } => 2 * node.len() as int + blocks.len() + 1,
        StageView::Fetch { .. } => 2 * (node.len() - blocks.len()) + 1,
        StageView::Load { .. } => 2 * (node.len() - blocks.len()),
        StageView::Best { .. } => 1,
        StageView::Done { .. } => 0,
    }
}

/// A node whose chain does not change is followed to the end: none of its answers is
/// an error, every answer leaves fewer to come, and when none is left the blocks that
/// are kept are the node's, however much of the old chain was left.
pub proof fn law_node_is_followed(blocks: Seq<BlockView>, node: Seq<BlockView>, stage: Stage, reply: Json)
    requires
        0 < node.len() <= u64::MAX,
        on_track(blocks, node, stage_view(stage)),
        is_answer(blocks, node, stage, reply),
    ensures
        advanced(blocks, stage, reply) is Some,
        on_track((advanced(blocks, stage, reply)->0).0, node, (advanced(blocks, stage, reply)->0).1),
        !(stage is Done) ==> 0 <= answers_left(
            (advanced(blocks, stage, reply)->0).0,
            node,
            (advanced(blocks, stage, reply)->0).1,
        ) < answers_left(blocks, node, stage_view(stage)),
        answers_left(blocks, node, stage_view(stage)) == 0 ==> blocks == node,
{
    match stage {
        Stage::Height => {
            lemma_trimmed_on_track(blocks, node, (node.len() - 1) as u64);
        },
        Stage::Trim { height } => {
            let last = blocks.len() - 1;
            if json_text(Some(reply)) == last_hash(blocks) {
                assert(blocks[last].hash == node[last].hash);
                assert(blocks.take(last + 1) =~= blocks);
                assert(node.take(node.len() as int) =~= node);
            } else {
                let fewer = blocks.drop_last();
                assert(is_linked(fewer, node)) by {
                    assert forall|k: int|
                        0 <= k < fewer.len() && k < node.len() && (#[trigger] fewer[k]).hash
                            == node[k].hash implies fewer.take(k + 1) == node.take(k + 1) by {
                        assert(blocks[k] == fewer[k]);
                        assert(fewer.take(k + 1) =~= blocks.take(k + 1));
                    }
                }
                lemma_trimmed_on_track(fewer, node, height);
            }
        },
        Stage::Load { height, hash } => {
            let more = blocks.push(hex_block(reply->Text_0)->0);
            assert(more =~= node.take(more.len() as int));
            assert(node.take(node.len() as int) =~= node);
        },
        _ => {},
    }
}

proof fn lemma_trimmed_on_track(blocks: Seq<BlockView>, node: Seq<BlockView>, height: u64)
    requires
        height + 1 == node.len(),
        is_linked(blocks, node),
    ensures
        on_track(trimmed(blocks, height).0, node, stage_view(trimmed(blocks, height).1)),
{
    let kept = trimmed(blocks, height).0;
    assert(is_linked(kept, node)) by {
        assert forall|k: int|
            0 <= k < kept.len() && k < node.len() && (#[trigger] kept[k]).hash == node[k].hash implies kept.take(k + 1)
            == node.take(k + 1) by {
            assert(blocks[k] == kept[k]);
            assert(kept.take(k + 1) =~= blocks.take(k + 1));
        }
    }
    if kept.len() == 0 {
        assert(kept =~= node.take(0));
    }
}

/// Whether the blocks that are kept share exactly their first `k` with those of a
/// node.
pub open spec fn is_shared(blocks: Seq<BlockView>, node: Seq<BlockView>, k: nat) -> bool {
    &&& k <= blocks.len() && k <= node.len()
    &&& blocks.take(k as int) == node.take(k as int)
    &&& k == blocks.len() || k == node.len() || blocks[k as int] != node[k as int]
}

/// Whether a node with these blocks was asked and gave these answers, one after the
/// other, and the blocks that are kept went through these states.
pub open spec fn is_run(states: Seq<(Seq<BlockView>, Stage)>, replies: Seq<Json>, node: Seq<BlockView>) -> bool {
    &&& states.len() == replies.len() + 1
    &&& states[0].1 is Height
    &&& forall|i: int|
        0 <= i < replies.len() ==> {
            let (blocks, stage) = #[trigger] states[i];
            &&& is_answer(blocks, node, stage, replies[i])
            &&& advanced(blocks, stage, replies[i]) == Some((states[i + 1].0, stage_view(states[i + 1].1)))
        }
}

/// The heights of the blocks that were asked for in the first `n` states, in order.
pub open spec fn loaded(states: Seq<(Seq<BlockView>, Stage)>, n: nat) -> Seq<int>
    decreases n,
{
    if n == 0 {
        Seq::empty()
    } else if states[n - 1].1 is Load {
        loaded(states, (n - 1) as nat).push(states[n - 1].0.len() as int)
    } else {
        loaded(states, (n - 1) as nat)
    }
}

/// The heights from one up to, and without, another.
pub open spec fn heights(from: nat, to: nat) -> Seq<int> {
    Seq::new((to - from) as nat, |i: int| from + i)
}

/// Whether the blocks that were asked for are those that were missing, as far as a
/// stage has come.
spec fn is_loaded(done: Seq<int>, blocks: Seq<BlockView>, node: Seq<BlockView>, stage: StageView, k: nat) -> bool {
    match stage {
        StageView::Height | StageView::Trim { .. } => is_shared(blocks, node, k) && done == heights(k, k),
        StageView::Fetch { .. } | StageView::Load { .. } => k <= blocks.len() && done == heights(k, blocks.len()),
        StageView::Best { .. } | StageView::Done { .. } => k <= node.len() && done == heights(k, node.len()),
    }
}

proof fn lemma_step_loads(done: Seq<int>, blocks: Seq<BlockView>, node: Seq<BlockView>, stage: Stage, reply: Json, k: nat)
    requires
        0 < node.len() <= u64::MAX,
        on_track(blocks, node, stage_view(stage)),
        is_answer(blocks, node, stage, reply),
        is_loaded(done, blocks, node, stage_view(stage), k),
    ensures
        ({
            let (after, next) = advanced(blocks, stage, reply)->0;
            let more = if stage is Load {
                done.push(blocks.len() as int)
            } else {
                done
            };
            is_loaded(more, after, node, next, k)
        }),
{
    law_node_is_followed(blocks, node, stage, reply);
    let (after, next) = advanced(blocks, stage, reply)->0;
    match stage {
        Stage::Height => {
            assert(after.take(k as int) =~= blocks.take(k as int));
            assert(is_shared(after, node, k));
        },
        Stage::Trim { height } => {
            let last = blocks.len() - 1;
            if json_text(Some(reply)) == last_hash(blocks) {
                assert(blocks[last].hash == node[last].hash);
                assert(blocks.take(last + 1) =~= blocks);
                assert(k == blocks.len()) by {
                    if k < blocks.len() {
                        assert(node.take(last + 1)[k as int] == node[k as int]);
                    }
                }
            } else {
                if k == blocks.len() {
                    assert(blocks.take(k as int)[last] == node.take(k as int)[last]);
                }
                assert(after =~= blocks.drop_last());
                assert(after.take(k as int) =~= blocks.take(k as int));
                assert(is_shared(after, node, k));
            }
        },
        Stage::Load { height, hash } => {
            assert(done.push(blocks.len() as int) =~= heights(k, blocks.len() + 1));
        },
        _ => {},
    }
}

proof fn lemma_run_loads(states: Seq<(Seq<BlockView>, Stage)>, replies: Seq<Json>, node: Seq<BlockView>, k: nat, n: nat)
    requires
        0 < node.len() <= u64::MAX,
        is_run(states, replies, node),
        is_linked(states[0].0, node),
        is_shared(states[0].0, node, k),
        n <= replies.len(),
    ensures
        on_track(states[n as int].0, node, stage_view(states[n as int].1)),
        is_loaded(loaded(states, n), states[n as int].0, node, stage_view(states[n as int].1), k),
    decreases n,
{
    if n == 0 {
        assert(loaded(states, 0) =~= heights(k, k));
    } else {
        let m = n - 1;
        lemma_run_loads(states, replies, node, k, m as nat);
        let (blocks, stage) = states[m];
        law_node_is_followed(blocks, node, stage, replies[m]);
        lemma_step_loads(loaded(states, m as nat), blocks, node, stage, replies[m], k);
    }
}

/// Only the missing blocks of a node are loaded, each once, in order: where the blocks
/// that are kept share their first `k` with the node's, a run that ends with all
/// blocks in place has asked for those from the height `k` on, and no others.
pub proof fn law_only_missing_blocks_are_loaded(
    states: Seq<(Seq<BlockView>, Stage)>,
    replies: Seq<Json>,
    node: Seq<BlockView>,
    k: nat,
)
    requires
        0 < node.len() <= u64::MAX,
        is_run(states, replies, node),
        is_linked(states[0].0, node),
        is_shared(states[0].0, node, k),
        states.last().1 is Done,
    ensures
        states.last().0 == node,
        loaded(states, states.len()) == heights(k, node.len()),
{
    lemma_run_loads(states, replies, node, k, replies.len());
}

/// The blocks of one update are reused in the next: where a node was followed to the
/// end, and then its chain was extended or reorganised but still shares its first `k`
/// blocks, the next update keeps these and loads the others, each once. Where nothing
/// changed it loads none and ends with the same blocks.
pub proof fn law_blocks_are_reused_between_updates(
    first: (Seq<(Seq<BlockView>, Stage)>, Seq<Json>),
    second: (Seq<(Seq<BlockView>, Stage)>, Seq<Json>),
    before: Seq<BlockView>,
    after: Seq<BlockView>,
    k: nat,
)
    requires
        0 < before.len() <= u64::MAX,
        0 < after.len() <= u64::MAX,
        is_run(first.0, first.1, before),
        is_linked(first.0[0].0, before),
        first.0.last().1 is Done,
        is_run(second.0, second.1, after),
        second.0[0].0 == first.0.last().0,
        is_linked(before, after),
        is_shared(before, after, k),
        second.0.last().1 is Done,
    ensures
        second.0.last().0 == after,
        second.0.last().0.take(k as int) == first.0.last().0.take(k as int),
        loaded(second.0, second.0.len()) == heights(k, after.len()),
        before == after ==> loaded(second.0, second.0.len()).len() == 0 && second.0.last().0 == first.0.last().0,
{
    lemma_shared_prefix(first.0[0].0, before);
    let start = choose|j: nat| #[trigger] is_shared(first.0[0].0, before, j);
    law_only_missing_blocks_are_loaded(first.0, first.1, before, start);
    law_only_missing_blocks_are_loaded(second.0, second.1, after, k);
}

proof fn lemma_shared_prefix(blocks: Seq<BlockView>, node: Seq<BlockView>)
    ensures
        exists|k: nat| #[trigger] is_shared(blocks, node, k),
    decreases blocks.len(),
{
    if blocks.len() == 0 {
        assert(blocks.take(0) =~= node.take(0));
        assert(is_shared(blocks, node, 0));
    } else {
        let fewer = blocks.drop_last();
        lemma_shared_prefix(fewer, node);
        let k = choose|k: nat| #[trigger] is_shared(fewer, node, k);
        assert(fewer.take(k as int) =~= blocks.take(k as int));
        if k == fewer.len() && k < node.len() && blocks[k as int] == node[k as int] {
            assert(blocks.take((k + 1) as int) =~= blocks.take(k as int).push(blocks[k as int]));
            assert(node.take((k + 1) as int) =~= node.take(k as int).push(node[k as int]));
            assert(is_shared(blocks, node, k + 1));
        } else {
            assert(is_shared(blocks, node, k));
        }
    }
}

} // verus!
