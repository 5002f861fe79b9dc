//! Building a tree over leaf digests: its levels, its root and the proof of
//! each leaf.

use vstd::prelude::*;
use crate::digest::{
    combine,
    fold_proof,
    hash_pair,
    lemma_combine_commutes,
    lemma_fold_first,
    views,
};
use crate::verify::{full_accepts, sibling_of, two_pow};

verus! {

/// The level above `nodes`: neighbours are combined two by two, and a last
/// node without a neighbour moves up as it is.
pub open spec fn next_level(nodes: Seq<Seq<u8>>) -> Seq<Seq<u8>> {
    Seq::new(
        ((nodes.len() + 1) / 2) as nat,
        |k: int|
            if 2 * k + 1 < nodes.len() {
                combine(nodes[2 * k], nodes[2 * k + 1])
            } else {
                nodes[2 * k]
            },
    )
}

/// The root above `nodes`: what is left when levels are folded until a
/// single node remains.
pub open spec fn tree_root(nodes: Seq<Seq<u8>>) -> Seq<u8>
    recommends
        nodes.len() >= 1,
    decreases nodes.len(),
{
    if nodes.len() == 0 {
        Seq::empty()
    } else if nodes.len() == 1 {
        nodes[0]
    } else {
        tree_root(next_level(nodes))
    }
}

/// Computes the level above `nodes`.
pub fn fold_level(nodes: &Vec<[u8; 32]>) -> (out: Vec<[u8; 32]>)
    ensures
        views(out@) == next_level(views(nodes@)),
        out@.len() == (nodes@.len() + 1) / 2,
{
    let mut out: Vec<[u8; 32]> = Vec::new();
    let n = nodes.len();
    let half: usize = n / 2 + n % 2;
    let mut k: usize = 0;
    while k < half
        invariant
            n == nodes@.len(),
            half == (n + 1) / 2,
            k <= half,
            out@.len() == k,
            forall|j: int|
                0 <= j < k ==> out@[j]@ == #[trigger] next_level(views(nodes@))[j],
        decreases half - k,
    {
        let left: usize = 2 * k;
        if left + 1 < n {
            let parent = hash_pair(&nodes[left], &nodes[left + 1]);
            out.push(parent);
        } else {
            out.push(nodes[left]);
        }
        k += 1;
    }
    assert(views(out@) =~= next_level(views(nodes@)));
    out
}

/// Why a tree cannot be built.
#[derive(Clone, Copy, Debug, PartialEq, Eq, Structural)]
pub enum MerkleTreeError {
    /// There are no leaves
    EmptyInput,
    /// The amounts of the leaves do not sum up in 64 bits
    IntegerOverflow,
    /// Two leaves name the same recipient
    DuplicateRecipient,
}

/// A report on a tree that does not hold together.
#[derive(Debug)]
pub struct MerkleValidationError {
    pub msg: String,
}

/// The views of the levels of a tree.
pub open spec fn level_views(levels: Seq<Vec<[u8; 32]>>) -> Seq<Seq<Seq<u8>>> {
    Seq::new(levels.len(), |k: int| views(levels[k]@))
}

/// Whether `lv` is the list of levels of a tree, leaves first: every level
/// but the last has more than one node and is followed by the level above
/// it, and the last level is the root alone.
pub open spec fn levels_wf(lv: Seq<Seq<Seq<u8>>>) -> bool {
    &&& lv.len() >= 1
    &&& lv.last().len() == 1
    &&& levels_chained(lv)
}

/// Whether every level of `lv` but the last has more than one node and is
/// followed by the level above it.
#[verifier::opaque]
pub open spec fn levels_chained(lv: Seq<Seq<Seq<u8>>>) -> bool {
    forall|k: int|
        0 <= k < lv.len() - 1 ==> (#[trigger] lv[k]).len() > 1 && lv[k + 1] == next_level(lv[k])
}

/// A chain of levels stays one when the level above its last is appended.
pub proof fn lemma_chain_grows(lv: Seq<Seq<Seq<u8>>>, next: Seq<Seq<u8>>)
    requires
        lv.len() >= 1,
        levels_chained(lv),
        lv.last().len() > 1,
        next == next_level(lv.last()),
    ensures
        levels_chained(lv.push(next)),
{
    reveal(levels_chained);
    let grown = lv.push(next);
    assert forall|k: int| 0 <= k < grown.len() - 1 implies (#[trigger] grown[k]).len() > 1
        && grown[k + 1] == next_level(grown[k]) by {
        if k < lv.len() - 1 {
            assert(grown[k] == lv[k]);
            assert(grown[k + 1] == lv[k + 1]);
        }
    }
}

/// In a chain of levels, level `k` has more than one node and is followed
/// by the level above it.
pub proof fn lemma_chain_step(lv: Seq<Seq<Seq<u8>>>, k: int)
    requires
        levels_chained(lv),
        0 <= k < lv.len() - 1,
    ensures
        lv[k].len() > 1,
        lv[k + 1] == next_level(lv[k]),
{
    reveal(levels_chained);
}

/// The levels of a tree form a chain.
pub proof fn lemma_tree_is_chain(lv: Seq<Seq<Seq<u8>>>)
    requires
        levels_wf(lv),
    ensures
        levels_chained(lv),
{
}

/// A chain of levels that ends in a single node is the list of levels of a
/// tree.
pub proof fn lemma_chain_is_tree(lv: Seq<Seq<Seq<u8>>>)
    requires
        lv.len() >= 1,
        levels_chained(lv),
        lv.last().len() == 1,
    ensures
        levels_wf(lv),
{
}

/// The siblings met on the way from node `index` of level `k` to the root:
/// the proof of that node. A level on which the node has no sibling
/// contributes nothing.
pub open spec fn proof_path(lv: Seq<Seq<Seq<u8>>>, k: int, index: int) -> Seq<Seq<u8>>
    decreases lv.len() - k,
{
    if k < 0 || k >= lv.len() - 1 || index < 0 {
        Seq::empty()
    } else {
        let sib = sibling_of(index as nat) as int;
        let rest = proof_path(lv, k + 1, index / 2);
        if sib < lv[k].len() {
            seq![lv[k][sib]] + rest
        } else {
            rest
        }
    }
}

/// Every level of a tree folds up to the tree's last level.
pub proof fn lemma_levels_share_root(lv: Seq<Seq<Seq<u8>>>, k: int)
    requires
        levels_wf(lv),
        0 <= k < lv.len(),
    ensures
        tree_root(lv[k]) == lv.last()[0],
    decreases lv.len() - k,
{
    if k < lv.len() - 1 {
        lemma_chain_step(lv, k);
        lemma_levels_share_root(lv, k + 1);
    }
}

/// The level `d` levels below the root of a tree has at most `2^d` nodes.
pub proof fn lemma_level_bounded(lv: Seq<Seq<Seq<u8>>>, k: int)
    requires
        levels_wf(lv),
        0 <= k < lv.len(),
    ensures
        1 <= lv[k].len() <= two_pow((lv.len() - 1 - k) as nat),
    decreases lv.len() - k,
{
    if k < lv.len() - 1 {
        lemma_chain_step(lv, k);
        lemma_level_bounded(lv, k + 1);
    }
}

/// Folding the proof of a node into that node gives the root.
pub proof fn lemma_path_reaches_root(lv: Seq<Seq<Seq<u8>>>, k: int, index: int)
    requires
        levels_wf(lv),
        0 <= k < lv.len(),
        0 <= index < lv[k].len(),
    ensures
        fold_proof(lv[k][index], proof_path(lv, k, index)) == lv.last()[0],
    decreases lv.len() - k,
{
    if k < lv.len() - 1 {
        lemma_chain_step(lv, k);
        let parent = index / 2;
        let sib = sibling_of(index as nat) as int;
        let rest = proof_path(lv, k + 1, parent);
        lemma_path_reaches_root(lv, k + 1, parent);
        if sib < lv[k].len() {
            if index % 2 == 0 {
                assert(lv[k + 1][parent] == combine(lv[k][index], lv[k][sib]));
            } else {
                lemma_combine_commutes(lv[k][index], lv[k][sib]);
                assert(lv[k + 1][parent] == combine(lv[k][sib], lv[k][index]));
            }
            lemma_fold_first(lv[k][index], lv[k][sib], rest);
        } else {
            assert(lv[k + 1][parent] == lv[k][index]);
        }
    }
}

/// For every leaf of a tree, the proof of that leaf is accepted against the
/// tree's root, which is the root that folding the leaves gives.
pub proof fn law_round_trip(lv: Seq<Seq<Seq<u8>>>, index: int)
    requires
        levels_wf(lv),
        0 <= index < lv[0].len(),
    ensures
        full_accepts(proof_path(lv, 0, index), tree_root(lv[0]), lv[0][index]),
{
    lemma_levels_share_root(lv, 0);
    lemma_path_reaches_root(lv, 0, index);
}

/// A tree over leaf digests, held level by level.
#[derive(Debug, Clone)]
pub struct MerkleTree {
    /// The levels, leaves first, root last.
    pub levels: Vec<Vec<[u8; 32]>>,
}

impl MerkleTree {
    /// The levels as byte strings.
    pub open spec fn levels_view(&self) -> Seq<Seq<Seq<u8>>> {
        level_views(self.levels@)
    }

    /// The levels are those of a tree.
    pub open spec fn wf(&self) -> bool {
        levels_wf(self.levels_view())
    }

    /// The leaves.
    pub open spec fn leaves(&self) -> Seq<Seq<u8>> {
        self.levels_view()[0]
    }

    /// The root.
    pub open spec fn root(&self) -> Seq<u8> {
        self.levels_view().last()[0]
    }

    /// Builds the tree over `leaves`: levels are folded until one node is
    /// left. Fails only without leaves.
    pub fn new(leaves: Vec<[u8; 32]>) -> (r: Result<MerkleTree, MerkleTreeError>)
        ensures
            match r {
                Ok(tree) => tree.wf() && tree.leaves() == views(leaves@) && tree.root()
                    == tree_root(views(leaves@)),
                Err(e) => e == MerkleTreeError::EmptyInput && leaves@.len() == 0,
            },
    {
        if leaves.len() == 0 {
            return Err(MerkleTreeError::EmptyInput);
        }
        let ghost leaf_views = views(leaves@);
        let mut levels: Vec<Vec<[u8; 32]>> = Vec::new();
        levels.push(leaves);
        assert(level_views(levels@)[0] == leaf_views);
        proof {
            reveal(levels_chained);
        }
        while levels[levels.len() - 1].len() > 1
            invariant
                levels@.len() >= 1,
                level_views(levels@)[0] == leaf_views,
                levels@[levels@.len() - 1]@.len() >= 1,
                levels_chained(level_views(levels@)),
            decreases levels@[levels@.len() - 1]@.len(),
        {
            let ghost before = levels@;
            let next = fold_level(&levels[levels.len() - 1]);
            levels.push(next);
            proof {
                assert(levels@ == before.push(next));
                assert(level_views(levels@) =~= level_views(before).push(views(next@)));
                assert(level_views(before).last() == views(before[before.len() - 1]@));
                lemma_chain_grows(level_views(before), views(next@));
            }
        }
        proof {
            assert(level_views(levels@).last() == views(levels@[levels@.len() - 1]@));
            lemma_chain_is_tree(level_views(levels@));
        }
        let tree = MerkleTree { levels };
        proof {
            lemma_levels_share_root(tree.levels_view(), 0);
        }
        Ok(tree)
    }

    /// The root of the tree.
    pub fn get_root(&self) -> (root: [u8; 32])
        requires
            self.wf(),
        ensures
            root@ == self.root(),
            root@ == tree_root(self.leaves()),
    {
        proof {
            lemma_levels_share_root(self.levels_view(), 0);
        }
        self.levels[self.levels.len() - 1][0]
    }

    /// The number of leaves.
    pub fn leaf_count(&self) -> (n: usize)
        requires
            self.wf(),
        ensures
            n == self.leaves().len(),
    {
        self.levels[0].len()
    }
}

/// The levels of a tree from the one just below the root down to `depth`
/// levels below it, one after the other: the nodes in breadth-first order,
/// the root left out.
pub open spec fn stored_levels(lv: Seq<Seq<Seq<u8>>>, depth: nat) -> Seq<Seq<u8>>
    decreases depth,
{
    if depth == 0 || depth >= lv.len() {
        Seq::empty()
    } else {
        stored_levels(lv, (depth - 1) as nat) + lv[lv.len() - 1 - depth]
    }
}

/// Appends the digests of `level` to `out`.
fn append_level(out: &mut Vec<[u8; 32]>, level: &Vec<[u8; 32]>)
    ensures
        views(final(out)@) == views(old(out)@) + views(level@),
{
    let mut i: usize = 0;
    assert(views(out@) =~= views(old(out)@) + views(level@).take(0));
    while i < level.len()
        invariant
            i <= level.len(),
            views(out@) == views(old(out)@) + views(level@).take(i as int),
        decreases level.len() - i,
    {
        let ghost before = views(out@);
        out.push(level[i]);
        assert(views(out@) =~= before.push(level@[i as int]@));
        assert(views(level@).take(i + 1) =~= views(level@).take(i as int).push(level@[i as int]@));
        assert(views(out@) =~= views(old(out)@) + views(level@).take(i + 1));
        i += 1;
    }
    assert(views(level@).take(level.len() as int) =~= views(level@));
}

impl MerkleTree {
    /// Number of levels below the root.
    pub fn height(&self) -> (h: usize)
        requires
            self.wf(),
        ensures
            h == self.levels_view().len() - 1,
    {
        self.levels.len() - 1
    }

    /// The nodes `depth` levels below the root, left to right: the canopy at
    /// that depth. They fold up to the root. There is none below the leaves.
    pub fn get_canopy_nodes(&self, depth: usize) -> (r: Option<Vec<[u8; 32]>>)
        requires
            self.wf(),
        ensures
            match r {
                Some(nodes) => depth < self.levels_view().len() && views(nodes@)
                    == self.levels_view()[self.levels_view().len() - 1 - depth] && tree_root(
                    views(nodes@),
                ) == self.root() && 1 <= nodes@.len() <= two_pow(depth as nat),
                None => depth >= self.levels_view().len(),
            },
    {
        if depth >= self.levels.len() {
            return None;
        }
        let k: usize = self.levels.len() - 1 - depth;
        let mut nodes: Vec<[u8; 32]> = Vec::new();
        assert(views(nodes@) =~= Seq::<Seq<u8>>::empty());
        append_level(&mut nodes, &self.levels[k]);
        proof {
            let lv = self.levels_view();
            assert(views(nodes@) =~= lv[k as int]);
            lemma_levels_share_root(lv, k as int);
            lemma_level_bounded(lv, k as int);
            assert(views(nodes@).len() == nodes@.len());
        }
        Some(nodes)
    }

    /// The nodes of the `depth` levels below the root in breadth-first
    /// order, the root left out: what is stored for the verification of short
    /// proofs. There is none where the tree has fewer levels.
    pub fn get_partial_nodes(&self, depth: usize) -> (r: Option<Vec<[u8; 32]>>)
        requires
            self.wf(),
        ensures
            match r {
                Some(nodes) => depth < self.levels_view().len() && views(nodes@) == stored_levels(
                    self.levels_view(),
                    depth as nat,
                ),
                None => depth >= self.levels_view().len(),
            },
    {
        if depth >= self.levels.len() {
            return None;
        }
        let top: usize = self.levels.len() - 1;
        let mut nodes: Vec<[u8; 32]> = Vec::new();
        let mut d: usize = 0;
        assert(views(nodes@) =~= Seq::<Seq<u8>>::empty());
        while d < depth
            invariant
                d <= depth,
                depth <= top,
                top == self.levels@.len() - 1,
                views(nodes@) == stored_levels(self.levels_view(), d as nat),
            decreases depth - d,
        {
            d += 1;
            append_level(&mut nodes, &self.levels[top - d]);
            assert(self.levels_view()[top - d] == views(self.levels@[top - d]@));
        }
        Some(nodes)
    }
}

/// The proof of leaf `index`: the sibling digests from the leaf to the root,
/// in that order. Folding it into the leaf gives the root.
pub fn get_proof(merkle_tree: &MerkleTree, index: usize) -> (proof: Vec<[u8; 32]>)
    requires
        merkle_tree.wf(),
        index < merkle_tree.leaves().len(),
    ensures
        views(proof@) == proof_path(merkle_tree.levels_view(), 0, index as int),
        full_accepts(views(proof@), merkle_tree.root(), merkle_tree.leaves()[index as int]),
{
    let ghost lv = merkle_tree.levels_view();
    let mut proof: Vec<[u8; 32]> = Vec::new();
    let mut idx: usize = index;
    let mut k: usize = 0;
    assert(views(proof@) + proof_path(lv, 0, index as int) =~= proof_path(lv, 0, index as int));
    proof {
        lemma_tree_is_chain(lv);
    }
    while k < merkle_tree.levels.len() - 1
        invariant
            lv == merkle_tree.levels_view(),
            levels_chained(lv),
            k < merkle_tree.levels@.len(),
            idx < lv[k as int].len(),
            views(proof@) + proof_path(lv, k as int, idx as int) == proof_path(
                lv,
                0,
                index as int,
            ),
        decreases merkle_tree.levels@.len() - k,
    {
        let level = &merkle_tree.levels[k];
        assert(views(level@) == lv[k as int]);
        proof {
            lemma_chain_step(lv, k as int);
        }
        let ghost rest = proof_path(lv, k + 1, (idx / 2) as int);
        let ghost before = views(proof@);
        if idx % 2 == 0 {
            if idx + 1 < level.len() {
                proof.push(level[idx + 1]);
                proof {
                    let s = lv[k as int][idx + 1];
                    assert(views(proof@) =~= before.push(s));
                    assert(before.push(s) + rest =~= before + (seq![s] + rest));
                }
            }
        } else {
            proof.push(level[idx - 1]);
            proof {
                let s = lv[k as int][idx - 1];
                assert(views(proof@) =~= before.push(s));
                assert(before.push(s) + rest =~= before + (seq![s] + rest));
            }
        }
        idx = idx / 2;
        k += 1;
    }
    proof {
        assert(views(proof@) + proof_path(lv, k as int, idx as int) =~= views(proof@));
        lemma_path_reaches_root(lv, 0, index as int);
    }
    proof
}

} // verus!
