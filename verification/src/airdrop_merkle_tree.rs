//! Building the tree of an airdrop from the claims of its recipients.

use vstd::prelude::*;
use crate::digest::{digest_eq, views};
use crate::merkle_tree::{
    get_proof,
    law_round_trip,
    proof_path,
    tree_root,
    MerkleTree,
    MerkleTreeError,
};
use crate::verify::full_accepts;
use crate::tree_node::{leaf_digest, leaf_digest_of, TreeNode};

verus! {

/// Sum of the unlocked amounts of the first `n` claims.
pub open spec fn unlocked_upto(nodes: Seq<TreeNode>, n: int) -> int
    decreases n,
{
    if n <= 0 {
        0
    } else {
        unlocked_upto(nodes, n - 1) + nodes[n - 1].amount
    }
}

/// Sum of the locked amounts of the first `n` claims.
pub open spec fn locked_upto(nodes: Seq<TreeNode>, n: int) -> int
    decreases n,
{
    if n <= 0 {
        0
    } else {
        locked_upto(nodes, n - 1) + nodes[n - 1].locked_amount
    }
}

/// Sum of the unlocked amounts of all claims.
pub open spec fn total_unlocked(nodes: Seq<TreeNode>) -> int {
    unlocked_upto(nodes, nodes.len() as int)
}

/// Sum of the locked amounts of all claims.
pub open spec fn total_locked(nodes: Seq<TreeNode>) -> int {
    locked_upto(nodes, nodes.len() as int)
}

/// The leaf digests of a list of claims, in the order of the claims.
pub open spec fn leaf_digests(nodes: Seq<TreeNode>) -> Seq<Seq<u8>> {
    Seq::new(
        nodes.len(),
        |i: int| leaf_digest_of(nodes[i].claimant@, nodes[i].amount, nodes[i].locked_amount),
    )
}

/// Whether no two claims name the same recipient.
pub open spec fn distinct_recipients(nodes: Seq<TreeNode>) -> bool {
    forall|i: int, j: int|
        0 <= i < j < nodes.len() ==> (#[trigger] nodes[i]).claimant@ != (#[trigger] nodes[j]).claimant@
}

/// The sum of unlocked amounts does not shrink as more claims are counted.
pub proof fn lemma_unlocked_grows(nodes: Seq<TreeNode>, i: int, j: int)
    requires
        0 <= i <= j,
    ensures
        0 <= unlocked_upto(nodes, i) <= unlocked_upto(nodes, j),
    decreases j,
{
    if i < j {
        lemma_unlocked_grows(nodes, i, j - 1);
    } else if j > 0 {
        lemma_unlocked_grows(nodes, i - 1, j - 1);
    }
}

/// The sum of locked amounts does not shrink as more claims are counted.
pub proof fn lemma_locked_grows(nodes: Seq<TreeNode>, i: int, j: int)
    requires
        0 <= i <= j,
    ensures
        0 <= locked_upto(nodes, i) <= locked_upto(nodes, j),
    decreases j,
{
    if i < j {
        lemma_locked_grows(nodes, i, j - 1);
    } else if j > 0 {
        lemma_locked_grows(nodes, i - 1, j - 1);
    }
}

/// Given a set of tree nodes, get the total unlocked amount, or
/// `IntegerOverflow` where it does not fit in 64 bits.
pub fn get_total_unlocked_amount(nodes: &[TreeNode]) -> (r: Result<u64, MerkleTreeError>)
    ensures
        match r {
            Ok(total) => total == total_unlocked(nodes@),
            Err(e) => e == MerkleTreeError::IntegerOverflow && total_unlocked(nodes@) > u64::MAX,
        },
{
    let mut acc: u64 = 0;
    let mut i: usize = 0;
    while i < nodes.len()
        invariant
            i <= nodes@.len(),
            acc == unlocked_upto(nodes@, i as int),
        decreases nodes.len() - i,
    {
        let amount = nodes[i].amount;
        if amount > u64::MAX - acc {
            proof {
                lemma_unlocked_grows(nodes@, i + 1, nodes@.len() as int);
            }
            return Err(MerkleTreeError::IntegerOverflow);
        }
        acc = acc + amount;
        i += 1;
    }
    Ok(acc)
}

/// Given a set of tree nodes, get the total locked amount, or
/// `IntegerOverflow` where it does not fit in 64 bits.
pub fn get_total_locked_amount(nodes: &[TreeNode]) -> (r: Result<u64, MerkleTreeError>)
    ensures
        match r {
            Ok(total) => total == total_locked(nodes@),
            Err(e) => e == MerkleTreeError::IntegerOverflow && total_locked(nodes@) > u64::MAX,
        },
{
    let mut acc: u64 = 0;
    let mut i: usize = 0;
    while i < nodes.len()
        invariant
            i <= nodes@.len(),
            acc == locked_upto(nodes@, i as int),
        decreases nodes.len() - i,
    {
        let amount = nodes[i].locked_amount;
        if amount > u64::MAX - acc {
            proof {
                lemma_locked_grows(nodes@, i + 1, nodes@.len() as int);
            }
            return Err(MerkleTreeError::IntegerOverflow);
        }
        acc = acc + amount;
        i += 1;
    }
    Ok(acc)
}

/// Whether two claims name the same recipient.
pub fn has_duplicate_recipient(nodes: &[TreeNode]) -> (r: bool)
    ensures
        r == !distinct_recipients(nodes@),
{
    let mut j: usize = 0;
    while j < nodes.len()
        invariant
            j <= nodes@.len(),
            forall|a: int, b: int|
                0 <= a < b < j ==> (#[trigger] nodes@[a]).claimant@ != (#[trigger] nodes@[b]).claimant@,
        decreases nodes.len() - j,
    {
        let mut i: usize = 0;
        while i < j
            invariant
                i <= j,
                j < nodes@.len(),
                forall|a: int|
                    0 <= a < i ==> (#[trigger] nodes@[a]).claimant@ != nodes@[j as int].claimant@,
            decreases j - i,
        {
            if digest_eq(&nodes[i].claimant, &nodes[j].claimant) {
                return true;
            }
            i += 1;
        }
        j += 1;
    }
    false
}

/// The tree of an airdrop: its root, its totals, and every claim with its
/// proof.
#[derive(Debug, Clone)]
pub struct AirdropMerkleTree {
    /// The merkle root, which is uploaded on-chain
    pub merkle_root: [u8; 32],
    /// Number of claims
    pub max_num_nodes: u64,
    /// Sum of the unlocked amounts
    pub total_unlocked_amount: u64,
    /// Sum of the locked amounts
    pub total_locked_amount: u64,
    /// Sum of all amounts, unlocked and locked
    pub max_total_claim: u64,
    /// The claims, each with its proof
    pub tree_nodes: Vec<TreeNode>,
    /// The tree over the leaf digests of the claims
    pub tree: MerkleTree,
}

impl AirdropMerkleTree {
    /// Whether this is the tree built from `claims`: same claims in the same
    /// order, each with the proof of its leaf, under the root of their leaf
    /// digests, with their sums.
    pub open spec fn built_from(&self, claims: Seq<TreeNode>) -> bool {
        &&& self.tree.wf()
        &&& self.tree.leaves() == leaf_digests(claims)
        &&& self.merkle_root@ == tree_root(leaf_digests(claims))
        &&& self.max_num_nodes == claims.len()
        &&& self.total_unlocked_amount == total_unlocked(claims)
        &&& self.total_locked_amount == total_locked(claims)
        &&& self.max_total_claim == total_unlocked(claims) + total_locked(claims)
        &&& self.tree_nodes@.len() == claims.len()
        &&& forall|i: int|
            0 <= i < claims.len() ==> {
                let node = #[trigger] self.tree_nodes@[i];
                &&& node.claimant == claims[i].claimant
                &&& node.amount == claims[i].amount
                &&& node.locked_amount == claims[i].locked_amount
                &&& node.proof.is_some()
                &&& views(node.proof.unwrap()@) == proof_path(self.tree.levels_view(), 0, i)
            }
    }

    /// The reason for which no tree is built from `claims`, if there is one:
    /// no claims, a recipient named twice, or amounts that do not sum up in
    /// 64 bits, in this order.
    pub open spec fn refusal(claims: Seq<TreeNode>) -> Option<MerkleTreeError> {
        if claims.len() == 0 {
            Some(MerkleTreeError::EmptyInput)
        } else if !distinct_recipients(claims) {
            Some(MerkleTreeError::DuplicateRecipient)
        } else if total_unlocked(claims) + total_locked(claims) > u64::MAX {
            Some(MerkleTreeError::IntegerOverflow)
        } else {
            None
        }
    }

    /// The most that can be claimed from this tree: all amounts together.
    pub fn get_max_total_claim(&self) -> (total: u64)
        ensures
            total == self.max_total_claim,
    {
        self.max_total_claim
    }

    /// Builds the tree of the given claims.
    pub fn new(tree_nodes: Vec<TreeNode>) -> (r: Result<AirdropMerkleTree, MerkleTreeError>)
        ensures
            match r {
                Ok(tree) => Self::refusal(tree_nodes@).is_none() && tree.built_from(tree_nodes@),
                Err(e) => Self::refusal(tree_nodes@) == Some(e),
            },
    {
        let n = tree_nodes.len();
        if n == 0 {
            return Err(MerkleTreeError::EmptyInput);
        }
        if has_duplicate_recipient(tree_nodes.as_slice()) {
            return Err(MerkleTreeError::DuplicateRecipient);
        }
        proof {
            lemma_unlocked_grows(tree_nodes@, 0, n as int);
            lemma_locked_grows(tree_nodes@, 0, n as int);
        }
        let unlocked = match get_total_unlocked_amount(tree_nodes.as_slice()) {
            Ok(v) => v,
            Err(e) => {
                return Err(e);
            },
        };
        let locked = match get_total_locked_amount(tree_nodes.as_slice()) {
            Ok(v) => v,
            Err(e) => {
                return Err(e);
            },
        };
        if locked > u64::MAX - unlocked {
            return Err(MerkleTreeError::IntegerOverflow);
        }
        let mut leaves: Vec<[u8; 32]> = Vec::new();
        let mut i: usize = 0;
        while i < n
            invariant
                n == tree_nodes@.len(),
                i <= n,
                leaves@.len() == i,
                forall|k: int| 0 <= k < i ==> leaves@[k]@ == #[trigger] leaf_digests(tree_nodes@)[k],
            decreases n - i,
        {
            let node = &tree_nodes[i];
            leaves.push(leaf_digest(&node.claimant, node.amount, node.locked_amount));
            i += 1;
        }
        assert(views(leaves@) =~= leaf_digests(tree_nodes@));
        let tree = match MerkleTree::new(leaves) {
            Ok(t) => t,
            Err(e) => {
                return Err(e);
            },
        };
        let merkle_root = tree.get_root();
        let mut with_proofs: Vec<TreeNode> = Vec::new();
        let mut j: usize = 0;
        while j < n
            invariant
                n == tree_nodes@.len(),
                j <= n,
                tree.wf(),
                tree.leaves().len() == n,
                with_proofs@.len() == j,
                forall|k: int|
                    0 <= k < j ==> {
                        let node = #[trigger] with_proofs@[k];
                        &&& node.claimant == tree_nodes@[k].claimant
                        &&& node.amount == tree_nodes@[k].amount
                        &&& node.locked_amount == tree_nodes@[k].locked_amount
                        &&& node.proof.is_some()
                        &&& views(node.proof.unwrap()@) == proof_path(tree.levels_view(), 0, k)
                    },
            decreases n - j,
        {
            let node = &tree_nodes[j];
            let proof = get_proof(&tree, j);
            with_proofs.push(
                TreeNode {
                    claimant: node.claimant,
                    amount: node.amount,
                    locked_amount: node.locked_amount,
                    proof: Some(proof),
                },
            );
            j += 1;
        }
        Ok(
            AirdropMerkleTree {
                merkle_root,
                max_num_nodes: n as u64,
                total_unlocked_amount: unlocked,
                total_locked_amount: locked,
                max_total_claim: unlocked + locked,
                tree_nodes: with_proofs,
                tree,
            },
        )
    }
}

/// Every claim of a built tree round-trips: the proof stored with it leads
/// from its leaf digest to the tree's root.
pub proof fn law_built_tree_round_trips(tree: AirdropMerkleTree, claims: Seq<TreeNode>, i: int)
    requires
        tree.built_from(claims),
        0 <= i < claims.len(),
    ensures
        tree.tree_nodes@[i].proof.is_some(),
        full_accepts(
            views(tree.tree_nodes@[i].proof.unwrap()@),
            tree.merkle_root@,
            leaf_digest_of(claims[i].claimant@, claims[i].amount, claims[i].locked_amount),
        ),
{
    let lv = tree.tree.levels_view();
    assert(lv[0] == leaf_digests(claims));
    law_round_trip(lv, i);
}

} // verus!
