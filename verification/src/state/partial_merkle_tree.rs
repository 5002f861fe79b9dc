//! The stored upper part of a tree, addressed breadth-first.

use vstd::prelude::*;
use crate::digest::views;
use crate::merkle_tree::{stored_levels, MerkleTree};

verus! {

/// The levels of a tree below its root down to a fixed depth, stored so that
/// short proofs can be verified against them.
#[derive(Debug, Clone)]
pub struct PartialMerkleTree {
    /// The 256-bit merkle root.
    pub root: [u8; 32],
    /// The number of layers in the tree that are stored, excluding the root layer.
    pub depth: u8,
    /// The total number of nodes stored. This is used for breadth-first traversal.
    pub total_nodes: u8,
    /// A vector of node hashes representing a subset of the Merkle tree, excluding the root.
    /// The length of this vector should be equal to `total_nodes`.
    pub nodes: Vec<[u8; 32]>,
    /// The distributor associated with this Merkle tree
    pub distributor: [u8; 32],
    /// Buffer
    pub buffer: [u64; 5],
}

/// Bytes that a record takes apart from its nodes: discriminator, root and
/// depth, length prefix, distributor and buffer.
pub const RECORD_OVERHEAD: usize = 117;

impl PartialMerkleTree {
    /// The record counts exactly the nodes it stores.
    pub open spec fn wf(&self) -> bool {
        self.nodes@.len() == self.total_nodes
    }

    /// The record of the `depth` levels below the root of `tree`, for the
    /// given distributor. There is none where the tree has fewer levels or
    /// the nodes are more than the record can count.
    pub fn from_tree(tree: &MerkleTree, depth: u8, distributor: [u8; 32]) -> (r: Option<
        PartialMerkleTree,
    >)
        requires
            tree.wf(),
        ensures
            match r {
                Some(stored) => {
                    &&& depth < tree.levels_view().len()
                    &&& stored.wf()
                    &&& stored.root@ == tree.root()
                    &&& stored.depth == depth
                    &&& views(stored.nodes@) == stored_levels(tree.levels_view(), depth as nat)
                    &&& stored.distributor == distributor
                    &&& forall|i: int| 0 <= i < 5 ==> stored.buffer@[i] == 0
                },
                None => depth >= tree.levels_view().len() || stored_levels(
                    tree.levels_view(),
                    depth as nat,
                ).len() > u8::MAX,
            },
    {
        let nodes = match tree.get_partial_nodes(depth as usize) {
            Some(nodes) => nodes,
            None => {
                return None;
            },
        };
        assert(views(nodes@).len() == nodes@.len());
        if nodes.len() > u8::MAX as usize {
            return None;
        }
        let total_nodes: u8 = nodes.len() as u8;
        Some(
            PartialMerkleTree {
                root: tree.get_root(),
                depth,
                total_nodes,
                nodes,
                distributor,
                buffer: [0u64; 5],
            },
        )
    }

    /// Size in bytes of a record that stores `total_nodes` nodes.
    pub fn space(total_nodes: usize) -> (size: usize)
        requires
            RECORD_OVERHEAD + 32 * total_nodes <= usize::MAX,
        ensures
            size == RECORD_OVERHEAD + 32 * total_nodes,
    {
        8 + 33 + 4 + 32 * total_nodes + 32 + 8 * 5
    }
}

} // verus!
