//! Proof verification: against a root alone, and against a stored slice of
//! the tree addressed breadth-first.

use vstd::prelude::*;
use crate::digest::{
    collision_exists,
    combine,
    digest_eq,
    digests_sized,
    fold_proof,
    hash_pair,
    lemma_fold_concat,
    lemma_fold_first,
    lemma_fold_sized,
    lemma_same_parent,
    views,
};

verus! {

/// Two to the power `n`.
pub open spec fn two_pow(n: nat) -> nat
    decreases n,
{
    if n == 0 {
        1
    } else {
        2 * two_pow((n - 1) as nat)
    }
}

/// Breadth-first position of node `i` of level `level`, the root's two
/// children being level 1 and the root itself not stored.
pub open spec fn bfs(level: nat, i: nat) -> int {
    two_pow(level) - 2 + i
}

/// `i` halved `n` times, rounding down.
pub open spec fn halved(i: nat, n: nat) -> nat
    decreases n,
{
    if n == 0 {
        i
    } else {
        halved(i, (n - 1) as nat) / 2
    }
}

/// Index of the other child of the parent of node `i`.
pub open spec fn sibling_of(i: nat) -> nat {
    if i % 2 == 0 {
        i + 1
    } else {
        (i - 1) as nat
    }
}

/// Position in an array of `len` stored nodes at which the sibling of node
/// `index` of `level` is read. A position past the end is moved back by one,
/// which is how a level whose last node has no sibling is handled; a position
/// that is still outside the array is no position.
pub open spec fn sibling_slot(len: nat, level: nat, index: nat) -> Option<int> {
    let s = bfs(level, sibling_of(index));
    let c = if s >= len {
        s - 1
    } else {
        s
    };
    if 0 <= c < len {
        Some(c)
    } else {
        None
    }
}

/// The siblings read from the stored nodes on the way from node `index` of
/// `level` up to the root, or `None` if one of them lies outside the array.
pub open spec fn stored_path(len: nat, level: nat, index: nat) -> Option<Seq<int>>
    decreases level,
{
    if level == 0 {
        Some(Seq::empty())
    } else {
        match sibling_slot(len, level, index) {
            Some(c) => match stored_path(len, (level - 1) as nat, index / 2) {
                Some(rest) => Some(seq![c] + rest),
                None => None,
            },
            None => None,
        }
    }
}

/// Digest reached at the root by climbing from `hash` at node `index` of
/// `level`, combining with the stored sibling at every level.
pub open spec fn climb(nodes: Seq<Seq<u8>>, hash: Seq<u8>, level: nat, index: nat) -> Option<
    Seq<u8>,
>
    decreases level,
{
    if level == 0 {
        Some(hash)
    } else {
        match sibling_slot(nodes.len(), level, index) {
            Some(c) => climb(nodes, combine(hash, nodes[c]), (level - 1) as nat, index / 2),
            None => None,
        }
    }
}

/// Whether `proof` leads from `leaf` to `root`.
pub open spec fn full_accepts(proof: Seq<Seq<u8>>, root: Seq<u8>, leaf: Seq<u8>) -> bool {
    fold_proof(leaf, proof) == root
}

/// Node index at the stored depth that a leaf lands on after its proof has
/// been folded. With an empty proof the index is halved once.
pub open spec fn landing_index(leaf_index: nat, proof_len: nat) -> nat {
    if proof_len == 0 {
        leaf_index / 2
    } else {
        halved(leaf_index, proof_len)
    }
}

/// Level from which the climb through the stored nodes starts.
pub open spec fn climb_level(depth: nat, proof_len: nat) -> nat {
    if proof_len == 0 {
        (depth - 1) as nat
    } else {
        depth
    }
}

/// Node index from which the climb through the stored nodes starts.
pub open spec fn climb_index(leaf_index: nat, proof_len: nat) -> nat {
    if proof_len == 0 {
        landing_index(leaf_index, proof_len) / 2
    } else {
        landing_index(leaf_index, proof_len)
    }
}

/// Whether a short proof is accepted against the stored nodes: the folded
/// leaf must be the stored node it lands on, and the climb from there through
/// stored siblings must end in `root`.
pub open spec fn partial_accepts(
    root: Seq<u8>,
    leaf: Seq<u8>,
    depth: nat,
    leaf_index: nat,
    proof: Seq<Seq<u8>>,
    nodes: Seq<Seq<u8>>,
) -> bool {
    let folded = fold_proof(leaf, proof);
    let slot = bfs(depth, landing_index(leaf_index, proof.len()));
    &&& depth >= 1
    &&& 0 <= slot < nodes.len()
    &&& nodes[slot] == folded
    &&& climb(
        nodes,
        folded,
        climb_level(depth, proof.len()),
        climb_index(leaf_index, proof.len()),
    ) == Some(root)
}

/// The stored nodes at the given positions.
pub open spec fn stored_siblings(nodes: Seq<Seq<u8>>, slots: Seq<int>) -> Seq<Seq<u8>> {
    Seq::new(slots.len(), |k: int| nodes[slots[k]])
}

/// Climbing through the stored nodes is folding the stored siblings along
/// the path, where all of them lie inside the array.
pub proof fn lemma_climb_is_fold(nodes: Seq<Seq<u8>>, hash: Seq<u8>, level: nat, index: nat)
    ensures
        climb(nodes, hash, level, index) == match stored_path(nodes.len(), level, index) {
            Some(p) => Some(fold_proof(hash, stored_siblings(nodes, p))),
            None => None,
        },
    decreases level,
{
    if level == 0 {
        assert(stored_siblings(nodes, Seq::<int>::empty()) =~= Seq::<Seq<u8>>::empty());
    } else {
        match sibling_slot(nodes.len(), level, index) {
            Some(c) => {
                lemma_climb_is_fold(nodes, combine(hash, nodes[c]), (level - 1) as nat, index / 2);
                match stored_path(nodes.len(), (level - 1) as nat, index / 2) {
                    Some(rest) => {
                        assert(stored_siblings(nodes, seq![c] + rest) =~= seq![nodes[c]]
                            + stored_siblings(nodes, rest));
                        lemma_fold_first(hash, nodes[c], stored_siblings(nodes, rest));
                    },
                    None => {},
                }
            },
            None => {},
        }
    }
}

/// A short proof is accepted against stored nodes exactly when the folded
/// leaf is the stored node it lands on and the short proof, extended by the
/// stored siblings above that node, is accepted as a full proof against the
/// same root.
pub proof fn law_partial_agrees_with_full(
    root: Seq<u8>,
    leaf: Seq<u8>,
    depth: nat,
    leaf_index: nat,
    proof: Seq<Seq<u8>>,
    nodes: Seq<Seq<u8>>,
)
    ensures
        partial_accepts(root, leaf, depth, leaf_index, proof, nodes) == ({
            let slot = bfs(depth, landing_index(leaf_index, proof.len()));
            &&& depth >= 1
            &&& 0 <= slot < nodes.len()
            &&& nodes[slot] == fold_proof(leaf, proof)
            &&& match stored_path(
                nodes.len(),
                climb_level(depth, proof.len()),
                climb_index(leaf_index, proof.len()),
            ) {
                Some(p) => full_accepts(proof + stored_siblings(nodes, p), root, leaf),
                None => false,
            }
        }),
{
    let level = climb_level(depth, proof.len());
    let index = climb_index(leaf_index, proof.len());
    lemma_climb_is_fold(nodes, fold_proof(leaf, proof), level, index);
    match stored_path(nodes.len(), level, index) {
        Some(p) => {
            lemma_fold_concat(leaf, proof, stored_siblings(nodes, p));
        },
        None => {},
    }
}

/// Whether `tampered` is `proof` with the element at position `k` replaced
/// by a different digest.
pub open spec fn tampered_at(proof: Seq<Seq<u8>>, tampered: Seq<Seq<u8>>, k: int) -> bool {
    &&& tampered.len() == proof.len()
    &&& 0 <= k < proof.len()
    &&& tampered[k] != proof[k]
    &&& forall|j: int|
        0 <= j < proof.len() ==> (#[trigger] proof[j]).len() == 32 && (#[trigger] tampered[j]).len()
            == 32 && (j != k ==> tampered[j] == proof[j])
}

/// From the tampered element on, the proof and the tampered proof fold to
/// different digests, unless the hash function has a collision.
pub proof fn lemma_tampered_prefix(
    leaf: Seq<u8>,
    proof: Seq<Seq<u8>>,
    tampered: Seq<Seq<u8>>,
    k: int,
    n: int,
)
    requires
        digests_sized(),
        leaf.len() == 32,
        tampered_at(proof, tampered, k),
        k < n <= proof.len(),
    ensures
        fold_proof(leaf, proof.take(n)) != fold_proof(leaf, tampered.take(n)) || collision_exists(),
    decreases n,
{
    let pn = proof.take(n);
    let tn = tampered.take(n);
    assert(pn.drop_last() =~= proof.take(n - 1));
    assert(tn.drop_last() =~= tampered.take(n - 1));
    assert(pn.last() == proof[n - 1]);
    assert(tn.last() == tampered[n - 1]);
    assert(proof[n - 1].len() == 32 && tampered[n - 1].len() == 32);
    let u = fold_proof(leaf, proof.take(n - 1));
    let v = fold_proof(leaf, tampered.take(n - 1));
    lemma_fold_sized(leaf, proof.take(n - 1));
    lemma_fold_sized(leaf, tampered.take(n - 1));
    if n == k + 1 {
        assert(proof.take(k) =~= tampered.take(k));
    } else {
        lemma_tampered_prefix(leaf, proof, tampered, k, n - 1);
        assert(tampered[n - 1] == proof[n - 1]);
    }
    if combine(u, proof[n - 1]) == combine(v, tampered[n - 1]) {
        lemma_same_parent(u, proof[n - 1], v, tampered[n - 1]);
    }
}

/// A proof that is accepted is rejected once one of its elements has been
/// replaced by a different digest, such as the same digest with one bit
/// flipped, unless the hash function has a collision.
pub proof fn law_tampered_proof_rejected(
    leaf: Seq<u8>,
    root: Seq<u8>,
    proof: Seq<Seq<u8>>,
    tampered: Seq<Seq<u8>>,
    k: int,
)
    requires
        digests_sized(),
        leaf.len() == 32,
        tampered_at(proof, tampered, k),
        full_accepts(proof, root, leaf),
    ensures
        !full_accepts(tampered, root, leaf) || collision_exists(),
{
    lemma_tampered_prefix(leaf, proof, tampered, k, proof.len() as int);
    assert(proof.take(proof.len() as int) =~= proof);
    assert(tampered.take(proof.len() as int) =~= tampered);
}

/// Powers of two are positive and grow with the exponent.
pub proof fn lemma_two_pow_monotone(a: nat, b: nat)
    requires
        a <= b,
    ensures
        1 <= two_pow(a) <= two_pow(b),
    decreases b,
{
    if b == 0 {
    } else if a == b {
        lemma_two_pow_monotone((a - 1) as nat, (b - 1) as nat);
    } else {
        lemma_two_pow_monotone(a, (b - 1) as nat);
    }
}

/// Two to the power `level`, or `None` if it does not fit.
pub(crate) fn checked_two_pow(level: usize) -> (r: Option<usize>)
    ensures
        match r {
            Some(p) => p == two_pow(level as nat),
            None => two_pow(level as nat) > usize::MAX,
        },
{
    let mut p: usize = 1;
    let mut k: usize = 0;
    while k < level
        invariant
            k <= level,
            p == two_pow(k as nat),
        decreases level - k,
    {
        if p > usize::MAX / 2 {
            proof {
                lemma_two_pow_monotone((k + 1) as nat, level as nat);
            }
            return None;
        }
        p = p * 2;
        k += 1;
    }
    Some(p)
}

/// Breadth-first position of node `i` of `level`, or `None` where the level
/// is 0 or the position does not fit.
pub fn checked_bfs_index(level: usize, i: usize) -> (r: Option<usize>)
    ensures
        match r {
            Some(v) => level >= 1 && v == bfs(level as nat, i as nat),
            None => level == 0 || bfs(level as nat, i as nat) > usize::MAX,
        },
{
    if level == 0 {
        return None;
    }
    proof {
        lemma_two_pow_monotone(0, (level - 1) as nat);
    }
    match checked_two_pow(level - 1) {
        None => None,
        Some(p) => {
            let half: usize = p - 1;
            if half > usize::MAX / 2 {
                return None;
            }
            let base: usize = half * 2;
            if i > usize::MAX - base {
                None
            } else {
                Some(base + i)
            }
        },
    }
}

/// Breadth-first position of node `i` of `level`: `2^level - 2 + i`.
pub fn bfs_index(level: usize, i: usize) -> (r: usize)
    requires
        level >= 1,
        bfs(level as nat, i as nat) <= usize::MAX,
    ensures
        r == bfs(level as nat, i as nat),
{
    match checked_bfs_index(level, i) {
        Some(r) => r,
        None => 0,
    }
}

/// Folds `proof` into `start`.
pub fn fold_digests(start: [u8; 32], proof: &Vec<[u8; 32]>) -> (out: [u8; 32])
    ensures
        out@ == fold_proof(start@, views(proof@)),
{
    let mut cur: [u8; 32] = start;
    let mut k: usize = 0;
    while k < proof.len()
        invariant
            k <= proof.len(),
            cur@ == fold_proof(start@, views(proof@).take(k as int)),
        decreases proof.len() - k,
    {
        proof {
            let next = views(proof@).take(k + 1);
            assert(next.drop_last() =~= views(proof@).take(k as int));
            assert(next.last() == proof@[k as int]@);
        }
        cur = hash_pair(&cur, &proof[k]);
        k += 1;
    }
    assert(views(proof@).take(proof.len() as int) =~= views(proof@));
    cur
}

/// Halves `i` `n` times.
fn halve_times(i: u8, n: usize) -> (r: u8)
    ensures
        r == halved(i as nat, n as nat),
{
    let mut r: u8 = i;
    let mut k: usize = 0;
    while k < n
        invariant
            k <= n,
            r == halved(i as nat, k as nat),
        decreases n - k,
    {
        r = r / 2;
        k += 1;
    }
    r
}

/// Checks that `proof` leads from `leaf` to `root`: the proof's siblings are
/// combined into the leaf one by one, smaller digest first, and the result
/// must be the root.
pub fn verify(proof: Vec<[u8; 32]>, root: [u8; 32], leaf: [u8; 32]) -> (ok: bool)
    ensures
        ok == full_accepts(views(proof@), root@, leaf@),
{
    let computed = fold_digests(leaf, &proof);
    digest_eq(&computed, &root)
}

/// Checks a short proof against stored nodes. The proof is folded into the
/// leaf, the result is looked up among the stored nodes at the stored depth,
/// and the path from there to the root is rebuilt from stored siblings.
/// Every lookup outside the array and every index that cannot be formed
/// rejects the proof.
pub fn verify_partial_merkle(
    root: [u8; 32],
    leaf: [u8; 32],
    depth: u8,
    leaf_index: u8,
    proof: Vec<[u8; 32]>,
    nodes: Vec<[u8; 32]>,
) -> (ok: bool)
    ensures
        ok == partial_accepts(
            root@,
            leaf@,
            depth as nat,
            leaf_index as nat,
            views(proof@),
            views(nodes@),
        ),
{
    verify_against_stored(&root, &leaf, depth, leaf_index, &proof, &nodes)
}

/// Checks a short proof against stored nodes that the caller keeps.
pub fn verify_against_stored(
    root: &[u8; 32],
    leaf: &[u8; 32],
    depth: u8,
    leaf_index: u8,
    proof: &Vec<[u8; 32]>,
    nodes: &Vec<[u8; 32]>,
) -> (ok: bool)
    ensures
        ok == partial_accepts(
            root@,
            leaf@,
            depth as nat,
            leaf_index as nat,
            views(proof@),
            views(nodes@),
        ),
{
    let folded = fold_digests(*leaf, proof);
    let index: u8 = if proof.len() == 0 {
        leaf_index / 2
    } else {
        halve_times(leaf_index, proof.len())
    };
    assert(views(proof@).len() == proof.len());
    assert(views(nodes@).len() == nodes.len());
    assert(index as nat == landing_index(leaf_index as nat, views(proof@).len()));
    let slot = match checked_bfs_index(depth as usize, index as usize) {
        Some(s) => s,
        None => {
            return false;
        },
    };
    if slot >= nodes.len() {
        return false;
    }
    if !digest_eq(&folded, &nodes[slot]) {
        return false;
    }
    let mut cur: [u8; 32] = folded;
    let mut level: u8 = depth;
    let mut idx: u8 = index;
    if proof.len() == 0 {
        idx = idx / 2;
        level = level - 1;
    }
    let ghost accepts = partial_accepts(
        root@,
        leaf@,
        depth as nat,
        leaf_index as nat,
        views(proof@),
        views(nodes@),
    );
    while level > 0
        invariant
            accepts == partial_accepts(
                root@,
                leaf@,
                depth as nat,
                leaf_index as nat,
                views(proof@),
                views(nodes@),
            ),
            accepts == (climb(views(nodes@), cur@, level as nat, idx as nat) == Some(root@)),
        decreases level,
    {
        let sib: u8 = if idx % 2 == 0 {
            idx + 1
        } else {
            idx - 1
        };
        assert(sib as nat == sibling_of(idx as nat));
        assert(views(nodes@).len() == nodes.len());
        let ghost slot_here = sibling_slot(nodes.len() as nat, level as nat, idx as nat);
        let mut pos = match checked_bfs_index(level as usize, sib as usize) {
            Some(s) => s,
            None => {
                return false;
            },
        };
        if pos >= nodes.len() {
            if pos == 0 {
                return false;
            }
            pos = pos - 1;
        }
        if pos >= nodes.len() {
            return false;
        }
        assert(slot_here == Some(pos as int));
        assert(views(nodes@)[pos as int] == nodes@[pos as int]@);
        cur = hash_pair(&cur, &nodes[pos]);
        level = level - 1;
        idx = idx / 2;
    }
    digest_eq(&cur, root)
}

} // verus!
