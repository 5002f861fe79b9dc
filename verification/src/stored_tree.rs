//! Short proofs against the stored part of a tree: for a leaf that has a
//! sibling on every level, and a tree whose levels above the deepest stored
//! one are full, they are accepted exactly when the whole proofs are.

use vstd::prelude::*;
use crate::digest::{
    collision_exists,
    combine,
    digests_sized,
    fold_proof,
    lemma_combine_commutes,
    lemma_fold_concat,
    lemma_fold_distinguishes,
    lemma_fold_first,
    lemma_fold_sized,
};
use crate::merkle_tree::{
    lemma_chain_step,
    lemma_path_reaches_root,
    levels_wf,
    proof_path,
    stored_levels,
};
use crate::state::canopy_tree::canopy_accepts;
use crate::verify::{
    bfs,
    climb,
    full_accepts,
    halved,
    lemma_two_pow_monotone,
    partial_accepts,
    sibling_of,
    sibling_slot,
    two_pow,
};

verus! {

/// Whether node `i` of level `k` and each of its ancestors below the root
/// has a sibling, so that the node's proof holds one sibling per level.
pub open spec fn path_paired(lv: Seq<Seq<Seq<u8>>>, k: int, i: int) -> bool
    decreases lv.len() - k,
{
    if k < 0 || k >= lv.len() - 1 {
        true
    } else {
        sibling_of(i as nat) < lv[k].len() && path_paired(lv, k + 1, i / 2)
    }
}

/// Whether each of the levels from just below the root down to `depth`
/// levels below it is full: the level `d` levels below the root has `2^d`
/// nodes.
pub open spec fn levels_full_to(lv: Seq<Seq<Seq<u8>>>, depth: nat) -> bool
    decreases depth,
{
    if depth == 0 || depth >= lv.len() {
        true
    } else {
        lv[lv.len() - 1 - depth].len() == two_pow(depth) && levels_full_to(
            lv,
            (depth - 1) as nat,
        )
    }
}

/// Whether every leaf of a tree is a digest of 32 bytes.
pub open spec fn leaves_sized(lv: Seq<Seq<Seq<u8>>>) -> bool {
    forall|j: int| 0 <= j < lv[0].len() ==> (#[trigger] lv[0][j]).len() == 32
}

/// Halving first and then `n` times is halving `n + 1` times.
pub proof fn lemma_halved_shift(i: nat, n: nat)
    ensures
        halved(i / 2, n) == halved(i, n + 1),
    decreases n,
{
    if n > 0 {
        lemma_halved_shift(i, (n - 1) as nat);
    } else {
        assert(halved(i, 1) == halved(i, 0) / 2);
    }
}

/// The parent of a node that has a sibling combines the two.
pub proof fn lemma_parent_combines(lv: Seq<Seq<Seq<u8>>>, k: int, i: int)
    requires
        levels_wf(lv),
        0 <= k < lv.len() - 1,
        0 <= i < lv[k].len(),
        sibling_of(i as nat) < lv[k].len(),
    ensures
        i / 2 < lv[k + 1].len(),
        lv[k + 1][i / 2] == combine(lv[k][i], lv[k][sibling_of(i as nat) as int]),
{
    lemma_chain_step(lv, k);
    let sib = sibling_of(i as nat) as int;
    if i % 2 == 0 {
        assert(lv[k + 1][i / 2] == combine(lv[k][i], lv[k][sib]));
    } else {
        lemma_combine_commutes(lv[k][i], lv[k][sib]);
        assert(lv[k + 1][i / 2] == combine(lv[k][sib], lv[k][i]));
    }
}

/// Where a node and its ancestors have siblings, the first `m` siblings of
/// the node's proof lead to the node's ancestor `m` levels up, and the proof
/// has one sibling per level.
pub proof fn lemma_prefix_reaches_ancestor(lv: Seq<Seq<Seq<u8>>>, k: int, i: int, m: nat)
    requires
        levels_wf(lv),
        0 <= k,
        k + m <= lv.len() - 1,
        0 <= i < lv[k].len(),
        path_paired(lv, k, i),
    ensures
        proof_path(lv, k, i).len() == lv.len() - 1 - k,
        halved(i as nat, m) < lv[k + m].len(),
        path_paired(lv, k + m, halved(i as nat, m) as int),
        fold_proof(lv[k][i], proof_path(lv, k, i).take(m as int)) == lv[k + m][halved(
            i as nat,
            m,
        ) as int],
    decreases lv.len() - k, m,
{
    let path = proof_path(lv, k, i);
    if k < lv.len() - 1 {
        lemma_parent_combines(lv, k, i);
        let sib = sibling_of(i as nat) as int;
        let rest = proof_path(lv, k + 1, i / 2);
        assert(path == seq![lv[k][sib]] + rest);
        if m == 0 {
            lemma_prefix_reaches_ancestor(lv, k + 1, i / 2, 0);
            assert(path.take(0) =~= Seq::<Seq<u8>>::empty());
        } else {
            lemma_prefix_reaches_ancestor(lv, k + 1, i / 2, (m - 1) as nat);
            assert(path.take(m as int) =~= seq![lv[k][sib]] + rest.take(m - 1));
            lemma_fold_first(lv[k][i], lv[k][sib], rest.take(m - 1));
            lemma_halved_shift(i as nat, (m - 1) as nat);
        }
    } else {
        assert(path.take(0) =~= Seq::<Seq<u8>>::empty());
    }
}

/// Where the levels above the deepest stored one are full, the stored
/// levels hold node `j` of depth `d` at its breadth-first position.
pub proof fn lemma_stored_layout(lv: Seq<Seq<Seq<u8>>>, depth: nat, d: nat, j: nat)
    requires
        levels_wf(lv),
        1 <= depth < lv.len(),
        levels_full_to(lv, (depth - 1) as nat),
        1 <= d <= depth,
        j < lv[lv.len() - 1 - d].len(),
    ensures
        stored_levels(lv, depth).len() == two_pow(depth) - 2 + lv[lv.len() - 1 - depth].len(),
        0 <= bfs(d, j) < stored_levels(lv, depth).len(),
        stored_levels(lv, depth)[bfs(d, j)] == lv[lv.len() - 1 - d][j as int],
    decreases depth,
{
    assert(two_pow(1) == 2 * two_pow(0));
    if depth == 1 {
        assert(stored_levels(lv, 0) =~= Seq::<Seq<u8>>::empty());
    } else {
        assert(two_pow(depth) == 2 * two_pow((depth - 1) as nat));
        if d < depth {
            lemma_stored_layout(lv, (depth - 1) as nat, d, j);
        } else {
            lemma_two_pow_monotone(0, (depth - 1) as nat);
            lemma_stored_layout(lv, (depth - 1) as nat, (depth - 1) as nat, 0);
        }
    }
}

/// Where the levels above the deepest stored one are full, climbing through
/// the stored levels from a stored node that has a sibling on every level
/// ends in the tree's root.
pub proof fn lemma_climb_reaches_root(lv: Seq<Seq<Seq<u8>>>, depth: nat, d: nat, j: nat)
    requires
        levels_wf(lv),
        1 <= depth < lv.len(),
        levels_full_to(lv, (depth - 1) as nat),
        d <= depth,
        j < lv[lv.len() - 1 - d].len(),
        path_paired(lv, lv.len() - 1 - d, j as int),
    ensures
        climb(stored_levels(lv, depth), lv[lv.len() - 1 - d][j as int], d, j) == Some(
            lv.last()[0],
        ),
    decreases d,
{
    if d > 0 {
        let h = lv.len() - 1;
        let nodes = stored_levels(lv, depth);
        let sib = sibling_of(j);
        lemma_parent_combines(lv, h - d, j as int);
        lemma_stored_layout(lv, depth, d, sib);
        assert(sibling_slot(nodes.len(), d, j) == Some(bfs(d, sib)));
        lemma_climb_reaches_root(lv, depth, (d - 1) as nat, j / 2);
    }
}

/// Every node of a tree over digests is a digest.
pub proof fn lemma_node_sized(lv: Seq<Seq<Seq<u8>>>, k: int, j: int)
    requires
        levels_wf(lv),
        digests_sized(),
        leaves_sized(lv),
        0 <= k < lv.len(),
        0 <= j < lv[k].len(),
    ensures
        lv[k][j].len() == 32,
    decreases k,
{
    if k > 0 {
        lemma_chain_step(lv, k - 1);
        lemma_node_sized(lv, k - 1, 2 * j);
    }
}

/// Every element of a proof in a tree over digests is a digest.
pub proof fn lemma_path_sized(lv: Seq<Seq<Seq<u8>>>, k: int, i: int)
    requires
        levels_wf(lv),
        digests_sized(),
        leaves_sized(lv),
        0 <= k < lv.len(),
        0 <= i < lv[k].len(),
    ensures
        forall|j: int|
            0 <= j < proof_path(lv, k, i).len() ==> (#[trigger] proof_path(lv, k, i)[j]).len()
                == 32,
    decreases lv.len() - k,
{
    if k < lv.len() - 1 {
        lemma_chain_step(lv, k);
        let sib = sibling_of(i as nat) as int;
        lemma_path_sized(lv, k + 1, i / 2);
        let rest = proof_path(lv, k + 1, i / 2);
        let path = proof_path(lv, k, i);
        if sib < lv[k].len() {
            lemma_node_sized(lv, k, sib);
            assert(path == seq![lv[k][sib]] + rest);
            assert forall|j: int| 0 <= j < path.len() implies (#[trigger] path[j]).len()
                == 32 by {
                if j > 0 {
                    assert(path[j] == rest[j - 1]);
                }
            }
        }
    }
}

/// Whether `lv` is the list of levels of a tree with `2^h` leaves, `h` being
/// the number of levels below the root.
pub open spec fn levels_perfect(lv: Seq<Seq<Seq<u8>>>) -> bool {
    levels_wf(lv) && lv[0].len() == two_pow((lv.len() - 1) as nat)
}

/// Level `k` of a tree of `2^h` leaves has `2^(h - k)` nodes.
pub proof fn lemma_level_sizes(lv: Seq<Seq<Seq<u8>>>, k: int)
    requires
        levels_perfect(lv),
        0 <= k < lv.len(),
    ensures
        lv[k].len() == two_pow((lv.len() - 1 - k) as nat),
    decreases k,
{
    if k > 0 {
        lemma_level_sizes(lv, k - 1);
        lemma_chain_step(lv, k - 1);
    }
}

/// In a tree of `2^h` leaves every level is full and every node below the
/// root has a sibling: the agreement of partial and full verification holds
/// for each of its leaves.
pub proof fn lemma_perfect_tree_is_full_and_paired(
    lv: Seq<Seq<Seq<u8>>>,
    depth: nat,
    k: int,
    i: int,
)
    requires
        levels_perfect(lv),
        0 <= k < lv.len(),
        0 <= i < lv[k].len(),
    ensures
        levels_full_to(lv, depth),
        path_paired(lv, k, i),
    decreases lv.len() - k, depth,
{
    if depth > 0 && depth < lv.len() {
        lemma_level_sizes(lv, lv.len() - 1 - depth);
        lemma_perfect_tree_is_full_and_paired(lv, (depth - 1) as nat, k, i);
    }
    if k < lv.len() - 1 {
        lemma_level_sizes(lv, k);
        lemma_level_sizes(lv, k + 1);
        assert(two_pow((lv.len() - 1 - k) as nat) == 2 * two_pow((lv.len() - 1 - k - 1) as nat));
        lemma_perfect_tree_is_full_and_paired(lv, 0, k + 1, i / 2);
    }
}

/// Partial verification agrees with full verification. Take a tree, a
/// stored depth above the leaves down to which the levels above the deepest
/// stored one are full, and a leaf that has a sibling on every level, so
/// that its proof has one element per level; the short proof is the part of
/// its proof below the stored depth.
///
/// - Whatever digest is offered in the leaf's place and whatever root: where
///   the short proof is accepted against the stored levels, the whole proof
///   is accepted against that root.
/// - Against the tree's own root: where the whole proof is accepted for the
///   offered digest, so is the short proof, unless the hash function has a
///   collision.
/// - For the leaf itself and whatever root, the two agree outright.
pub proof fn law_partial_equals_full(
    lv: Seq<Seq<Seq<u8>>>,
    depth: nat,
    leaf_index: nat,
    offered: Seq<u8>,
    root: Seq<u8>,
)
    requires
        levels_wf(lv),
        1 <= depth < lv.len() - 1,
        levels_full_to(lv, (depth - 1) as nat),
        leaf_index < lv[0].len(),
        path_paired(lv, 0, leaf_index as int),
    ensures
        ({
            let whole = proof_path(lv, 0, leaf_index as int);
            let short = whole.take(lv.len() - 1 - depth);
            let accepted_short = partial_accepts(
                root,
                offered,
                depth,
                leaf_index,
                short,
                stored_levels(lv, depth),
            );
            let accepted_whole = full_accepts(whole, root, offered);
            &&& accepted_short ==> accepted_whole
            &&& (digests_sized() && leaves_sized(lv) && offered.len() == 32 && root
                == lv.last()[0] && accepted_whole) ==> accepted_short || collision_exists()
            &&& offered == lv[0][leaf_index as int] ==> accepted_short == accepted_whole
        }),
{
    let h = lv.len() - 1;
    let m = (h - depth) as nat;
    let whole = proof_path(lv, 0, leaf_index as int);
    let short = whole.take(m as int);
    let rest = whole.skip(m as int);
    let leaf = lv[0][leaf_index as int];
    let idx = halved(leaf_index, m);
    lemma_path_reaches_root(lv, 0, leaf_index as int);
    lemma_prefix_reaches_ancestor(lv, 0, leaf_index as int, m);
    assert(whole =~= short + rest);
    assert(short.len() == m);
    let above = lv[m as int][idx as int];
    lemma_fold_concat(leaf, short, rest);
    lemma_fold_concat(offered, short, rest);
    let reached = fold_proof(offered, short);
    lemma_stored_layout(lv, depth, depth, idx);
    lemma_climb_reaches_root(lv, depth, depth, idx);
    if reached != above && digests_sized() && leaves_sized(lv) && offered.len() == 32 {
        lemma_fold_sized(offered, short);
        lemma_node_sized(lv, m as int, idx as int);
        lemma_path_sized(lv, 0, leaf_index as int);
        assert forall|j: int| 0 <= j < rest.len() implies (#[trigger] rest[j]).len() == 32 by {
            assert(rest[j] == whole[m + j]);
        }
        lemma_fold_distinguishes(reached, above, rest);
    }
}

/// The canopy at any depth accepts a leaf that has a sibling on every level
/// below it with the part of its proof below the canopy.
pub proof fn law_canopy_accepts(lv: Seq<Seq<Seq<u8>>>, depth: nat, leaf_index: nat)
    requires
        levels_wf(lv),
        depth < lv.len(),
        leaf_index < lv[0].len(),
        path_paired(lv, 0, leaf_index as int),
    ensures
        canopy_accepts(
            lv[lv.len() - 1 - depth],
            proof_path(lv, 0, leaf_index as int).take(lv.len() - 1 - depth),
            lv[0][leaf_index as int],
            leaf_index,
        ),
{
    let m = (lv.len() - 1 - depth) as nat;
    lemma_prefix_reaches_ancestor(lv, 0, leaf_index as int, m);
    assert(proof_path(lv, 0, leaf_index as int).take(m as int).len() == m);
}

} // verus!
