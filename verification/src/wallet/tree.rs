//! The note commitment tree, and the witnesses that place notes in it.

use incrementalmerkletree::frontier::CommitmentTree;
use incrementalmerkletree::witness::IncrementalWitness;
use orchard::tree::{MerkleHashOrchard, MerklePath};
use vstd::prelude::*;

verus! {

/// `incrementalmerkletree`'s commitment tree.
#[verifier::external_type_specification]
#[verifier::external_body]
#[verifier::reject_recursive_types(H)]
pub struct ExCommitmentTree<H, const DEPTH: u8>(CommitmentTree<H, DEPTH>);

/// `incrementalmerkletree`'s incremental witness.
#[verifier::external_type_specification]
#[verifier::external_body]
#[verifier::reject_recursive_types(H)]
pub struct ExIncrementalWitness<H, const DEPTH: u8>(IncrementalWitness<H, DEPTH>);

/// `orchard`'s Merkle path.
#[verifier::external_type_specification]
#[verifier::external_body]
pub struct ExMerklePath(MerklePath);

/// The number of leaves of a full tree.
pub open spec fn capacity() -> nat {
    0x1_0000_0000
}

/// The leaves that were appended to a tree, in order.
pub uninterp spec fn tree_leaves(tree: CommitmentTree<MerkleHashOrchard, 32>) -> Seq<MerkleHashOrchard>;

/// The leaves of the tree that a witness belongs to, as far as they were appended to
/// the witness.
pub uninterp spec fn witness_leaves(witness: IncrementalWitness<MerkleHashOrchard, 32>) -> Seq<MerkleHashOrchard>;

/// The position of the leaf that a witness places in its tree.
pub uninterp spec fn witness_position(witness: IncrementalWitness<MerkleHashOrchard, 32>) -> nat;

/// The root of the tree with these leaves.
pub uninterp spec fn merkle_root(leaves: Seq<MerkleHashOrchard>) -> MerkleHashOrchard;

/// The path from a leaf to the root of the tree with these leaves.
pub uninterp spec fn merkle_path(leaves: Seq<MerkleHashOrchard>, position: nat) -> MerklePath;

/// Calls `CommitmentTree::empty`.
#[verifier::external_body]
pub(crate) fn empty_tree() -> (tree: CommitmentTree<MerkleHashOrchard, 32>)
    ensures
        tree_leaves(tree) == Seq::<MerkleHashOrchard>::empty(),
{
    CommitmentTree::empty()
}

/// Calls `append` of the tree, which adds a leaf, or leaves a full tree as it is.
#[verifier::external_body]
pub(crate) fn append_leaf(tree: &mut CommitmentTree<MerkleHashOrchard, 32>, leaf: MerkleHashOrchard) -> (added: Result<(), ()>)
    ensures
        added is Ok <==> tree_leaves(*old(tree)).len() < capacity(),
        tree_leaves(*final(tree)) == if added is Ok {
            tree_leaves(*old(tree)).push(leaf)
        } else {
            tree_leaves(*old(tree))
        },
{
    tree.append(leaf)
}

/// Calls `root` of the tree.
#[verifier::external_body]
pub(crate) fn root(tree: &CommitmentTree<MerkleHashOrchard, 32>) -> (root: MerkleHashOrchard)
    ensures
        root == merkle_root(tree_leaves(*tree)),
{
    tree.root()
}

/// Calls `IncrementalWitness::from_tree` on a copy of the tree. The witness places
/// the leaf that was appended last; an empty tree has none.
#[verifier::external_body]
pub(crate) fn last_leaf_witness(tree: &CommitmentTree<MerkleHashOrchard, 32>) -> (witness: Option<IncrementalWitness<MerkleHashOrchard, 32>>)
    ensures
        witness is Some <==> tree_leaves(*tree).len() > 0,
        witness is Some ==> witness_leaves(witness->0) == tree_leaves(*tree) && witness_position(witness->0)
            == tree_leaves(*tree).len() - 1,
{
    IncrementalWitness::from_tree(tree.clone())
}

/// Calls `append` of the witness, which follows a leaf that was added to the tree,
/// or fails where the tree was full.
#[verifier::external_body]
pub(crate) fn append_to_witness(witness: &mut IncrementalWitness<MerkleHashOrchard, 32>, leaf: MerkleHashOrchard) -> (added: Result<(), ()>)
    ensures
        added is Ok <==> witness_leaves(*old(witness)).len() < capacity(),
        witness_leaves(*final(witness)) == if added is Ok {
            witness_leaves(*old(witness)).push(leaf)
        } else {
            witness_leaves(*old(witness))
        },
        witness_position(*final(witness)) == witness_position(*old(witness)),
{
    witness.append(leaf)
}

/// Calls `path` of the witness and converts the path to that of `orchard`. There is
/// a path wherever there is a leaf.
#[verifier::external_body]
pub(crate) fn path(witness: &IncrementalWitness<MerkleHashOrchard, 32>) -> (path: Option<MerklePath>)
    ensures
        path is Some <==> witness_position(*witness) < witness_leaves(*witness).len(),
        path is Some ==> path->0 == merkle_path(witness_leaves(*witness), witness_position(*witness)),
{
    witness.path().map(|path| path.into())
}

} // verus!
