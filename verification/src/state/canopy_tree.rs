//! The stored canopy of a tree: one level of nodes that proofs end in.

use vstd::prelude::*;
use crate::digest::{digest_eq, fold_proof, views};
use crate::merkle_tree::{fold_level, tree_root, MerkleTree};
use crate::state::partial_merkle_tree::RECORD_OVERHEAD;
use crate::verify::{checked_two_pow, fold_digests, halved, two_pow};

verus! {

/// One level of a tree, stored so that proofs need only reach that level.
#[derive(Debug, Clone)]
pub struct CanopyTree {
    /// The 256-bit merkle root.
    pub root: [u8; 32],
    /// The depth of merkle will store onchain
    /// With `depth`: total levels from the root to leaves: depth + 1
    pub depth: u8,
    /// A vector of node hashes representing canopy leaves node
    pub nodes: Vec<[u8; 32]>,
    /// The distributor associated with this Merkle tree
    pub distributor: [u8; 32],
    /// Buffer
    pub buffer: [u64; 5],
}

/// Whether a level of nodes folds up to `root`.
pub open spec fn canopy_matches(root: Seq<u8>, nodes: Seq<Seq<u8>>) -> bool {
    nodes.len() >= 1 && tree_root(nodes) == root
}

/// Whether a proof leads from `leaf` to the canopy node above it.
pub open spec fn canopy_accepts(
    nodes: Seq<Seq<u8>>,
    proof: Seq<Seq<u8>>,
    leaf: Seq<u8>,
    leaf_index: nat,
) -> bool {
    let slot = halved(leaf_index, proof.len());
    slot < nodes.len() && nodes[slot as int] == fold_proof(leaf, proof)
}

/// Halves `i` `n` times.
fn halve_index(i: u32, n: usize) -> (r: u32)
    ensures
        r == halved(i as nat, n as nat),
{
    let mut r: u32 = i;
    let mut k: usize = 0;
    while k < n
        invariant
            k <= n,
            r == halved(i as nat, k as nat),
        decreases n - k,
    {
        r = r / 2;
        k += 1;
    }
    r
}

impl Default for CanopyTree {
    /// A canopy without nodes, all of whose bytes are zero.
    fn default() -> (tree: CanopyTree)
        ensures
            tree.nodes@.len() == 0,
            tree.depth == 0,
            forall|i: int| 0 <= i < 32 ==> tree.root@[i] == 0 && tree.distributor@[i] == 0,
            forall|i: int| 0 <= i < 5 ==> tree.buffer@[i] == 0,
    {
        CanopyTree {
            root: [0u8; 32],
            depth: 0,
            nodes: Vec::new(),
            distributor: [0u8; 32],
            buffer: [0u64; 5],
        }
    }
}

impl CanopyTree {
    /// The canopy of `tree` at `depth` levels below the root, for the given
    /// distributor. Its nodes fold up to the tree's root. There is none
    /// below the leaves.
    pub fn from_tree(tree: &MerkleTree, depth: u8, distributor: [u8; 32]) -> (r: Option<
        CanopyTree,
    >)
        requires
            tree.wf(),
        ensures
            match r {
                Some(canopy) => {
                    &&& depth < tree.levels_view().len()
                    &&& canopy.root@ == tree.root()
                    &&& canopy.depth == depth
                    &&& views(canopy.nodes@) == tree.levels_view()[tree.levels_view().len() - 1
                        - depth]
                    &&& canopy_matches(canopy.root@, views(canopy.nodes@))
                    &&& canopy.nodes@.len() <= two_pow(depth as nat)
                    &&& canopy.distributor == distributor
                    &&& forall|i: int| 0 <= i < 5 ==> canopy.buffer@[i] == 0
                },
                None => depth >= tree.levels_view().len(),
            },
    {
        let nodes = match tree.get_canopy_nodes(depth as usize) {
            Some(nodes) => nodes,
            None => {
                return None;
            },
        };
        assert(views(nodes@).len() == nodes@.len());
        Some(
            CanopyTree {
                root: tree.get_root(),
                depth,
                nodes,
                distributor,
                buffer: [0u64; 5],
            },
        )
    }

    /// Size in bytes of a record whose canopy lies at `depth`.
    /// Maximum nodes at level i: 2^i
    /// Example: depth = 2 => maximum canopy nodes = 2^2.
    pub fn space(depth: usize) -> (size: usize)
        requires
            RECORD_OVERHEAD + 32 * two_pow(depth as nat) <= usize::MAX,
        ensures
            size == RECORD_OVERHEAD + 32 * two_pow(depth as nat),
    {
        let max_nodes: usize = match checked_two_pow(depth) {
            Some(p) => p,
            None => 0,
        };
        8 + 33 + 4 + 32 * max_nodes + 32 + 8 * 5
    }

    /// Folds the canopy nodes level by level, as the tree was built, and
    /// checks that a single node is left that equals `root`. An empty canopy
    /// matches no root.
    pub fn verify_canopy_root(&self, root: [u8; 32], canopy_nodes: Vec<[u8; 32]>) -> (ok: bool)
        ensures
            ok == canopy_matches(root@, views(canopy_nodes@)),
    {
        if canopy_nodes.len() == 0 {
            return false;
        }
        let mut current_nodes = canopy_nodes;
        while current_nodes.len() > 1
            invariant
                current_nodes@.len() >= 1,
                tree_root(views(current_nodes@)) == tree_root(views(canopy_nodes@)),
            decreases current_nodes@.len(),
        {
            current_nodes = fold_level(&current_nodes);
        }
        digest_eq(&current_nodes[0], &root)
    }

    /// Folds the proof into the leaf and checks the result against the
    /// canopy node above the leaf. An index outside the canopy is rejected.
    pub fn verify_leaf(&self, proof: Vec<[u8; 32]>, leaf: [u8; 32], leaf_index: u32) -> (ok: bool)
        ensures
            ok == canopy_accepts(views(self.nodes@), views(proof@), leaf@, leaf_index as nat),
    {
        let current_hash = fold_digests(leaf, &proof);
        let current_index = halve_index(leaf_index, proof.len());
        if current_index as usize >= self.nodes.len() {
            return false;
        }
        digest_eq(&self.nodes[current_index as usize], &current_hash)
    }
}

} // verus!
