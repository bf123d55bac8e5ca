//! Following: what a node is asked, and what is made of its answers.

use crate::chain::{advanced, has_error, is_failure, question, Stage, StageView};
use crate::json::{json, json_written, Json};
use crate::laws::deciding::bears;
use crate::laws::telling::part;
use crate::transaction::{hex_block, BlockView};
use vstd::prelude::*;
use vstd::utf8::encode_utf8;

verus! {

/// Whether a question is a method without parameters.
pub open spec fn asks_plainly(asked: Option<(Seq<char>, Json)>, method: Seq<char>) -> bool {
    &&& asked is Some && (asked->0).0 == method
    &&& (asked->0).1 is Array && (asked->0).1->Array_0.len() == 0
}

/// Whether a question is for the hash of the block at a height.
pub open spec fn asks_for_hash(asked: Option<(Seq<char>, Json)>, height: int) -> bool {
    &&& asked is Some && (asked->0).0 == "getblockhash"@
    &&& (asked->0).1 is Array && (asked->0).1->Array_0.len() == 1
    &&& (asked->0).1->Array_0[0] is Unsigned && (asked->0).1->Array_0[0]->Unsigned_0 == height
}

/// A node is asked for its height, for the hash of the last block that is kept, then
/// for the hash and the bytes of each block above it, and at the end for its best block.
pub proof fn law_nodes_are_asked_for_what_is_missing(blocks: Seq<BlockView>, stage: Stage)
    requires
        blocks.len() <= u64::MAX,
        stage is Trim ==> blocks.len() > 0,
    ensures
        ({
            let asked = question(blocks, stage);
            &&& stage is Height ==> asks_plainly(asked, "getblockcount"@)
            &&& stage is Trim ==> asks_for_hash(asked, blocks.len() - 1)
            &&& stage is Fetch ==> asks_for_hash(asked, blocks.len() as int)
            &&& stage is Load ==> asked is Some && (asked->0).0 == "getblock"@ && (asked->0).1 is Array && (
            asked->0).1->Array_0.len() == 2 && (asked->0).1->Array_0[0] == json(stage->hash) && (asked->0).1->Array_0[1]
                == Json::Unsigned(0)
            &&& stage is Best ==> asks_plainly(asked, "getbestblockhash"@)
            &&& asked is None <==> stage is Done
        }),
{
}

/// Whether blocks are the first ones of a list, as many as fit up to a height.
pub open spec fn is_start(after: Seq<BlockView>, blocks: Seq<BlockView>, height: u64) -> bool {
    &&& after.len() <= blocks.len() && after.len() <= height + 1
    &&& after.len() == blocks.len() || after.len() == height + 1
    &&& forall|k: int| 0 <= k < after.len() ==> #[trigger] after[k] == blocks[k]
}

/// Whether the next stage compares the last block that is kept, if there is one, and
/// fetches from the first on, if there is none.
pub open spec fn compares(after: Seq<BlockView>, stage: StageView, height: u64) -> bool {
    &&& after.len() > 0 ==> stage == (StageView::Trim { height })
    &&& after.len() == 0 ==> stage == (StageView::Fetch { height })
}

/// Whether the next stage fetches blocks up to a height, and then asks for the best.
pub open spec fn fetches(after: Seq<BlockView>, stage: StageView, height: u64) -> bool {
    &&& after.len() <= height ==> stage == (StageView::Fetch { height })
    &&& after.len() > height ==> stage == (StageView::Best { height })
}

/// When a node tells its height, blocks above it are dropped; an answer that is no
/// number is refused.
pub proof fn law_blocks_above_the_node_are_dropped(blocks: Seq<BlockView>, reply: Json)
    ensures
        ({
            let next = advanced(blocks, Stage::Height, reply);
            &&& next is Some <==> reply is Unsigned
            &&& next is Some ==> is_start((next->0).0, blocks, reply->Unsigned_0) && compares(
                (next->0).0,
                (next->0).1,
                reply->Unsigned_0,
            )
        }),
{
}

/// When a node tells the hash in the place of the last block, the block stays if it has
/// that hash, and the next ones are fetched; else it is dropped, and the one below it is
/// compared.
pub proof fn law_the_last_block_stays_if_the_node_has_it(blocks: Seq<BlockView>, height: u64, reply: Json)
    requires
        blocks.len() > 0,
    ensures
        ({
            let next = advanced(blocks, Stage::Trim { height }, reply);
            let same = reply == Json::Text(blocks[blocks.len() - 1].hash);
            &&& next is Some
            &&& same ==> (next->0).0 == blocks && fetches(blocks, (next->0).1, height)
            &&& !same ==> is_start((next->0).0, blocks.take(blocks.len() - 1), height) && compares(
                (next->0).0,
                (next->0).1,
                height,
            )
        }),
{
    assert(blocks.drop_last() =~= blocks.take(blocks.len() - 1));
}

/// The next block is loaded by the hash that the node told.
pub proof fn law_blocks_are_loaded_by_their_hash(blocks: Seq<BlockView>, height: u64, reply: Json)
    ensures
        advanced(blocks, Stage::Fetch { height }, reply) == Some((blocks, StageView::Load { height, hash: reply })),
{
}

/// A block that was loaded is put on top of the others; an answer that is no block is
/// refused.
pub proof fn law_loaded_blocks_are_put_on_top(blocks: Seq<BlockView>, stage: Stage, reply: Json)
    requires
        stage is Load,
    ensures
        ({
            let next = advanced(blocks, stage, reply);
            &&& next is Some <==> reply is Text && hex_block(reply->Text_0) is Some
            &&& next is Some ==> (next->0).0.len() == blocks.len() + 1
            &&& next is Some ==> forall|k: int| 0 <= k < blocks.len() ==> #[trigger] (next->0).0[k] == blocks[k]
            &&& next is Some ==> hex_block(reply->Text_0) == Some((next->0).0[blocks.len() as int])
            &&& next is Some ==> fetches((next->0).0, (next->0).1, stage->Load_height)
        }),
{
}

/// The blocks are complete if the node's best block is the last of them; else the chain
/// has changed, and that is refused.
pub proof fn law_blocks_are_complete_at_the_best_block(blocks: Seq<BlockView>, height: u64, reply: Json)
    requires
        blocks.len() > 0,
    ensures
        ({
            let next = advanced(blocks, Stage::Best { height }, reply);
            &&& next is Some <==> reply == Json::Text(blocks[blocks.len() - 1].hash)
            &&& next is Some ==> (next->0).0 == blocks && (next->0).1 == (StageView::Done { height })
            &&& advanced(blocks, Stage::Done { height }, reply) == Some((blocks, StageView::Done { height }))
        }),
{
}

/// A response reports an error if it has one that is not null. The error is passed on in
/// words, after the name of the method.
pub proof fn law_errors_of_a_node_are_passed_on(response: Json, message: Seq<char>, method: Seq<char>, error: Json)
    ensures
        has_error(response) <==> bears(response, "error"@) && !(part(response, "error"@) is Null),
        is_failure(message, method, error) ==> message.len() >= method.len() + 2 && message.take(method.len() as int)
            == method && message[method.len() as int] == ':' && message[method.len() as int + 1] == ' ' && encode_utf8(
            message.skip(method.len() as int + 2),
        ) == json_written(error),
{
    if is_failure(message, method, error) {
        let written = choose|written: Seq<char>| #[trigger]
            encode_utf8(written) == json_written(error) && message == method + ": "@ + written;
        reveal_strlit(": ");
        assert(": "@.len() == 2 && ": "@[0] == ':' && ": "@[1] == ' ');
        assert(message.take(method.len() as int) =~= method);
        assert(message.skip(method.len() as int + 2) =~= written);
    }
}

} // verus!
