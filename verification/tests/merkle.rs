use merkle_distributor::airdrop_merkle_tree::{
    get_total_locked_amount, get_total_unlocked_amount, AirdropMerkleTree,
};
use merkle_distributor::digest::{digest_eq, digest_le, hash_leaf, hash_pair};
use merkle_distributor::merkle_tree::{get_proof, MerkleTree, MerkleTreeError};
use merkle_distributor::state::canopy_tree::CanopyTree;
use merkle_distributor::state::partial_merkle_tree::PartialMerkleTree;
use merkle_distributor::tree_node::{hash_claim, leaf_digest, TreeNode};
use merkle_distributor::verify::{verify, verify_partial_merkle};
use solana_program::hash::hashv;

// Helper function to create a tree node
fn create_node(claimant: [u8; 32], amount: u64, locked_amount: u64) -> TreeNode {
    TreeNode {
        claimant,
        amount,
        locked_amount,
        proof: None,
    }
}

fn key(n: u8) -> [u8; 32] {
    let mut k = [0u8; 32];
    k[0] = n;
    k[31] = 255 - n;
    k
}

#[test]
fn test_get_max_total_claim_no_overflow() {
    let nodes = vec![create_node(key(1), 100, 10), create_node(key(2), 300, 20)];

    let total_unlocked_amount = get_total_unlocked_amount(&nodes).unwrap();
    assert_eq!(total_unlocked_amount, 400); // 100 + 300

    let total_locked_amount = get_total_locked_amount(&nodes).unwrap();
    assert_eq!(total_locked_amount, 30); // 10 + 20
}

#[test]
fn totals_report_overflow() {
    let nodes = vec![create_node(key(1), u64::MAX, 1), create_node(key(2), 1, u64::MAX)];
    assert_eq!(
        get_total_unlocked_amount(&nodes),
        Err(MerkleTreeError::IntegerOverflow)
    );
    assert_eq!(
        get_total_locked_amount(&nodes),
        Err(MerkleTreeError::IntegerOverflow)
    );
    assert_eq!(get_total_unlocked_amount(&[]), Ok(0));
}

#[test]
fn digests_match_the_hash_function() {
    let claimant = key(9);
    let inner = hashv(&[&claimant, &100u64.to_le_bytes(), &7u64.to_le_bytes()]).to_bytes();
    assert_eq!(hash_claim(&claimant, 100, 7), inner);
    assert_ne!(hash_claim(&claimant, 100, 7), claimant);
    let leaf = hashv(&[&[0u8], &inner]).to_bytes();
    assert_eq!(hash_leaf(&inner), leaf);
    assert_eq!(leaf_digest(&claimant, 100, 7), leaf);
    assert_eq!(create_node(claimant, 100, 7).hash(), inner);

    let a = [1u8; 32];
    let b = [2u8; 32];
    let parent = hashv(&[&[1u8], &a, &b]).to_bytes();
    assert_eq!(hash_pair(&a, &b), parent);
    assert_eq!(hash_pair(&b, &a), parent);
    assert_ne!(hash_pair(&a, &b), hash_leaf(&a));
}

#[test]
fn digest_order_is_lexicographic() {
    let mut a = [5u8; 32];
    let mut b = [5u8; 32];
    assert!(digest_le(&a, &b));
    assert!(digest_eq(&a, &b));
    b[31] = 6;
    assert!(digest_le(&a, &b));
    assert!(!digest_le(&b, &a));
    assert!(!digest_eq(&a, &b));
    a[0] = 9;
    assert!(!digest_le(&a, &b));
    assert_eq!(digest_le(&a, &b), a <= b);
}

#[test]
fn three_leaves_scenario() {
    let nodes = vec![
        create_node(key(1), 100, 0),
        create_node(key(2), 300, 0),
        create_node(key(3), 50, 0),
    ];
    let first = AirdropMerkleTree::new(nodes.clone()).unwrap();
    let second = AirdropMerkleTree::new(nodes.clone()).unwrap();
    assert_eq!(first.merkle_root, second.merkle_root);
    assert_eq!(first.max_num_nodes, 3);
    assert_eq!(first.total_unlocked_amount, 450);
    assert_eq!(first.total_locked_amount, 0);
    assert_eq!(first.get_max_total_claim(), 450);

    let l0 = leaf_digest(&key(1), 100, 0);
    let l1 = leaf_digest(&key(2), 300, 0);
    let l2 = leaf_digest(&key(3), 50, 0);
    let expected_root = hash_pair(&hash_pair(&l0, &l1), &l2);
    assert_eq!(first.merkle_root, expected_root);

    // The two paired leaves climb two levels; the third leaf has no sibling
    // on the lowest level and is promoted, so its proof holds one sibling.
    assert_eq!(first.tree_nodes[0].proof.as_ref().unwrap().len(), 2);
    assert_eq!(first.tree_nodes[1].proof.as_ref().unwrap().len(), 2);
    let proof2 = first.tree_nodes[2].proof.clone().unwrap();
    assert_eq!(proof2, vec![hash_pair(&l0, &l1)]);

    assert!(verify(proof2.clone(), first.merkle_root, l2));
    let mut tampered = first.merkle_root;
    tampered[0] ^= 1;
    assert!(!verify(proof2, tampered, l2));
}

#[test]
fn every_leaf_round_trips_and_tampering_is_caught() {
    for n in 1..20u8 {
        let nodes: Vec<TreeNode> = (0..n)
            .map(|i| create_node(key(i), 10 + i as u64, i as u64))
            .collect();
        let tree = AirdropMerkleTree::new(nodes).unwrap();
        for node in tree.tree_nodes.iter() {
            let leaf = leaf_digest(&node.claimant, node.amount, node.locked_amount);
            let proof = node.proof.clone().unwrap();
            assert!(verify(proof.clone(), tree.merkle_root, leaf));
            for k in 0..proof.len() {
                let mut bad = proof.clone();
                bad[k][5] ^= 0x10;
                assert!(!verify(bad, tree.merkle_root, leaf));
            }
            let other = leaf_digest(&node.claimant, node.amount + 1, node.locked_amount);
            assert!(!verify(proof, tree.merkle_root, other));
        }
    }
}

#[test]
fn builder_refuses_bad_input() {
    assert_eq!(
        AirdropMerkleTree::new(Vec::new()).err(),
        Some(MerkleTreeError::EmptyInput)
    );
    assert_eq!(
        AirdropMerkleTree::new(vec![create_node(key(1), 1, 1), create_node(key(1), 2, 2)]).err(),
        Some(MerkleTreeError::DuplicateRecipient)
    );
    assert_eq!(
        AirdropMerkleTree::new(vec![create_node(key(1), u64::MAX, 0), create_node(key(2), 1, 0)])
            .err(),
        Some(MerkleTreeError::IntegerOverflow)
    );
    assert_eq!(
        AirdropMerkleTree::new(vec![create_node(key(1), u64::MAX, 0), create_node(key(2), 0, 1)])
            .err(),
        Some(MerkleTreeError::IntegerOverflow)
    );
    assert_eq!(MerkleTree::new(Vec::new()).err(), Some(MerkleTreeError::EmptyInput));
}

#[test]
fn single_leaf_is_its_own_root() {
    let leaf = [42u8; 32];
    let tree = MerkleTree::new(vec![leaf]).unwrap();
    assert_eq!(tree.get_root(), leaf);
    assert_eq!(tree.leaf_count(), 1);
    assert_eq!(tree.height(), 0);
    assert!(get_proof(&tree, 0).is_empty());
    assert!(verify(Vec::new(), leaf, leaf));
}

#[test]
fn canopy_and_partial_nodes_come_from_the_tree() {
    let leaves: Vec<[u8; 32]> = (0..8u8).map(|i| [i + 1; 32]).collect();
    let tree = MerkleTree::new(leaves.clone()).unwrap();
    let root = tree.get_root();
    assert_eq!(tree.height(), 3);
    assert_eq!(tree.get_canopy_nodes(0), Some(vec![root]));
    assert_eq!(tree.get_canopy_nodes(3), Some(leaves.clone()));
    assert_eq!(tree.get_canopy_nodes(4), None);
    assert_eq!(tree.get_partial_nodes(4), None);
    assert_eq!(tree.get_partial_nodes(0), Some(Vec::new()));

    let canopy = tree.get_canopy_nodes(2).unwrap();
    assert_eq!(canopy.len(), 4);
    let holder = CanopyTree::default();
    assert!(holder.verify_canopy_root(root, canopy.clone()));

    let stored = tree.get_partial_nodes(2).unwrap();
    assert_eq!(stored.len(), 6);
    assert_eq!(stored[2..].to_vec(), canopy);
    for i in 0..8usize {
        let full = get_proof(&tree, i);
        assert_eq!(full.len(), 3);
        assert!(verify(full.clone(), root, leaves[i]));
        let short = full[..1].to_vec();
        assert!(verify_partial_merkle(root, leaves[i], 2, i as u8, short.clone(), stored.clone()));
        let mut canopy_holder = CanopyTree::default();
        canopy_holder.nodes = canopy.clone();
        assert!(canopy_holder.verify_leaf(short.clone(), leaves[i], i as u32));
        let wrong = leaves[(i + 1) % 8];
        assert!(!verify_partial_merkle(root, wrong, 2, i as u8, short, stored.clone()));
    }
}

#[test]
fn records_are_extracted_from_the_tree() {
    let leaves: Vec<[u8; 32]> = (0..4u8).map(|i| [i + 10; 32]).collect();
    let tree = MerkleTree::new(leaves.clone()).unwrap();
    let root = tree.get_root();
    let left = hash_pair(&leaves[0], &leaves[1]);
    let right = hash_pair(&leaves[2], &leaves[3]);
    assert_eq!(root, hash_pair(&left, &right));

    let stored = PartialMerkleTree::from_tree(&tree, 2, [7u8; 32]).unwrap();
    assert_eq!(stored.root, root);
    assert_eq!(stored.depth, 2);
    assert_eq!(stored.total_nodes, 6);
    assert_eq!(
        stored.nodes,
        vec![left, right, leaves[0], leaves[1], leaves[2], leaves[3]]
    );
    assert_eq!(stored.distributor, [7u8; 32]);
    assert!(PartialMerkleTree::from_tree(&tree, 3, [7u8; 32]).is_none());

    let canopy = CanopyTree::from_tree(&tree, 1, [7u8; 32]).unwrap();
    assert_eq!(canopy.root, root);
    assert_eq!(canopy.depth, 1);
    assert_eq!(canopy.nodes, vec![left, right]);
    assert!(canopy.verify_canopy_root(root, canopy.nodes.clone()));
    assert!(canopy.verify_leaf(vec![leaves[3]], leaves[2], 2));
    assert!(CanopyTree::from_tree(&tree, 3, [7u8; 32]).is_none());

    // all levels of 256 leaves hold more nodes than a record can count
    let many: Vec<[u8; 32]> = (0..=255u8).map(|i| [i; 32]).collect();
    let big = MerkleTree::new(many).unwrap();
    assert_eq!(big.height(), 8);
    assert_eq!(PartialMerkleTree::from_tree(&big, 7, [0u8; 32]).unwrap().total_nodes, 254);
    assert!(PartialMerkleTree::from_tree(&big, 8, [0u8; 32]).is_none());
}

#[test]
fn short_proofs_agree_with_whole_proofs_on_an_uneven_tree() {
    // six leaves: levels of 6, 3, 2 and 1 nodes; the first four leaves have
    // a sibling on every level, the last two are promoted once
    let leaves: Vec<[u8; 32]> = (0..6u8).map(|i| [i + 50; 32]).collect();
    let tree = MerkleTree::new(leaves.clone()).unwrap();
    let root = tree.get_root();
    assert_eq!(tree.height(), 3);
    for depth in 1..=2usize {
        let stored = tree.get_partial_nodes(depth).unwrap();
        assert_eq!(stored.len(), if depth == 1 { 2 } else { 5 });
        for i in 0..4usize {
            let whole = get_proof(&tree, i);
            assert_eq!(whole.len(), 3);
            let short = whole[..3 - depth].to_vec();
            for offered in [leaves[i], leaves[(i + 1) % 6], [0u8; 32]] {
                assert_eq!(
                    verify_partial_merkle(root, offered, depth as u8, i as u8, short.clone(), stored.clone()),
                    verify(whole.clone(), root, offered)
                );
            }
            assert!(verify_partial_merkle(root, leaves[i], depth as u8, i as u8, short.clone(), stored.clone()));
            let mut other_root = root;
            other_root[31] ^= 1;
            assert!(!verify_partial_merkle(other_root, leaves[i], depth as u8, i as u8, short, stored.clone()));
        }
    }
    // a promoted leaf has a shorter proof, and its short proof is refused
    let whole = get_proof(&tree, 4);
    assert_eq!(whole.len(), 2);
    assert!(verify(whole.clone(), root, leaves[4]));
    let stored = tree.get_partial_nodes(1).unwrap();
    assert!(!verify_partial_merkle(root, leaves[4], 1, 4, whole[..1].to_vec(), stored));
}
