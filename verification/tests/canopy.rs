use merkle_distributor::state::canopy_tree::CanopyTree;
use merkle_distributor::verify::{bfs_index, checked_bfs_index, verify_partial_merkle};

const ROOT: [u8; 32] = [
    149, 44, 101, 93, 7, 225, 23, 191, 86, 53, 145, 35, 119, 19, 172, 27, 31, 77, 106, 39, 46, 55,
    2, 145, 190, 58, 158, 147, 10, 28, 75, 191,
];

#[test]
fn test_verify_canopy_nodes_case_layer1() {
    let nodes: Vec<[u8; 32]> = Vec::from([
        [
            98, 122, 112, 160, 154, 57, 123, 38, 138, 237, 90, 29, 104, 179, 248, 208, 177, 206,
            20, 24, 18, 197, 73, 220, 182, 102, 240, 180, 223, 71, 3, 113,
        ],
        [
            170, 65, 27, 221, 57, 223, 88, 94, 203, 241, 104, 246, 54, 119, 188, 225, 16, 65, 109,
            98, 73, 121, 49, 218, 50, 213, 136, 253, 205, 65, 213, 225,
        ],
    ]);

    let canopy_nodes = CanopyTree::default();
    let result = canopy_nodes.verify_canopy_root(ROOT, nodes);
    assert_eq!(result, true);
}

#[test]
fn test_verify_canopy_nodes_case_layer2() {
    let nodes: Vec<[u8; 32]> = Vec::from([
        [
            144, 158, 139, 112, 26, 179, 41, 202, 82, 243, 65, 200, 218, 132, 105, 194, 85, 30, 7,
            183, 154, 178, 33, 139, 166, 206, 248, 31, 11, 210, 164, 215,
        ],
        [
            230, 163, 113, 64, 107, 48, 40, 9, 189, 18, 77, 16, 53, 248, 247, 199, 178, 127, 181,
            108, 223, 253, 137, 55, 234, 87, 205, 210, 112, 189, 107, 151,
        ],
        [
            170, 65, 27, 221, 57, 223, 88, 94, 203, 241, 104, 246, 54, 119, 188, 225, 16, 65, 109,
            98, 73, 121, 49, 218, 50, 213, 136, 253, 205, 65, 213, 225,
        ],
    ]);

    let canopy_nodes = CanopyTree::default();
    let result = canopy_nodes.verify_canopy_root(ROOT, nodes);
    assert_eq!(result, true);
}

#[test]
fn test_verify_canopy_nodes_case_layer3() {
    let nodes: Vec<[u8; 32]> = Vec::from([
        [
            144, 158, 139, 112, 26, 179, 41, 202, 82, 243, 65, 200, 218, 132, 105, 194, 85, 30, 7,
            183, 154, 178, 33, 139, 166, 206, 248, 31, 11, 210, 164, 215,
        ],
        [
            230, 163, 113, 64, 107, 48, 40, 9, 189, 18, 77, 16, 53, 248, 247, 199, 178, 127, 181,
            108, 223, 253, 137, 55, 234, 87, 205, 210, 112, 189, 107, 151,
        ],
        [
            170, 65, 27, 221, 57, 223, 88, 94, 203, 241, 104, 246, 54, 119, 188, 225, 16, 65, 109,
            98, 73, 121, 49, 218, 50, 213, 136, 253, 205, 65, 213, 225,
        ],
    ]);

    let canopy_nodes = CanopyTree::default();
    let result = canopy_nodes.verify_canopy_root(ROOT, nodes);
    assert_eq!(result, true);
}

#[test]
fn test_verify_canopy_nodes_case_layer4() {
    let nodes: Vec<[u8; 32]> = Vec::from([
        [
            33, 157, 45, 11, 26, 60, 103, 187, 252, 243, 171, 223, 86, 120, 181, 97, 192, 132, 46,
            183, 5, 136, 21, 227, 189, 227, 15, 100, 87, 60, 126, 125,
        ],
        [
            41, 94, 138, 1, 107, 84, 242, 150, 6, 169, 100, 252, 138, 82, 36, 24, 252, 84, 228,
            124, 237, 219, 68, 212, 215, 111, 253, 141, 173, 45, 35, 229,
        ],
        [
            51, 147, 193, 24, 169, 158, 140, 118, 17, 108, 141, 221, 212, 82, 234, 88, 4, 64, 109,
            209, 148, 214, 84, 78, 184, 8, 130, 210, 172, 169, 198, 151,
        ],
        [
            91, 133, 169, 74, 229, 46, 159, 235, 129, 154, 97, 186, 225, 169, 62, 105, 125, 67,
            158, 69, 168, 115, 109, 254, 205, 237, 71, 42, 15, 240, 64, 192,
        ],
        [
            170, 65, 27, 221, 57, 223, 88, 94, 203, 241, 104, 246, 54, 119, 188, 225, 16, 65, 109,
            98, 73, 121, 49, 218, 50, 213, 136, 253, 205, 65, 213, 225,
        ],
    ]);

    let canopy_nodes = CanopyTree::default();
    let result = canopy_nodes.verify_canopy_root(ROOT, nodes);
    assert_eq!(result, true);
}

#[test]
fn canopy_with_wrong_root_or_no_nodes_is_refused() {
    let nodes: Vec<[u8; 32]> = vec![[1u8; 32], [2u8; 32]];
    let tree = CanopyTree::default();
    assert!(!tree.verify_canopy_root(ROOT, nodes));
    assert!(!tree.verify_canopy_root(ROOT, Vec::new()));
    assert!(tree.verify_canopy_root(ROOT, vec![ROOT]));
}

#[test]
fn test_verify_partial_merkle_without_proof() {
    let nodes: Vec<[u8; 32]> = vec![
        [
            126, 64, 122, 133, 166, 245, 206, 172, 165, 62, 184, 187, 253, 195, 131, 108, 17, 173,
            142, 132, 212, 106, 14, 59, 227, 95, 146, 125, 110, 192, 94, 55,
        ],
        [
            234, 247, 3, 255, 201, 48, 119, 136, 153, 30, 11, 123, 82, 7, 135, 108, 88, 175, 0,
            101, 239, 68, 69, 27, 24, 23, 119, 76, 236, 185, 111, 165,
        ],
        [
            249, 115, 79, 222, 70, 219, 166, 6, 4, 74, 120, 93, 236, 54, 221, 138, 0, 70, 9, 202,
            196, 24, 232, 157, 202, 8, 35, 230, 202, 135, 49, 197,
        ],
        [
            175, 124, 75, 209, 14, 141, 11, 254, 209, 37, 145, 196, 146, 164, 73, 56, 63, 168, 205,
            36, 21, 32, 227, 85, 210, 14, 105, 98, 85, 1, 215, 239,
        ],
        [
            234, 247, 3, 255, 201, 48, 119, 136, 153, 30, 11, 123, 82, 7, 135, 108, 88, 175, 0,
            101, 239, 68, 69, 27, 24, 23, 119, 76, 236, 185, 111, 165,
        ],
    ];

    let leaf: [u8; 32] = [
        234, 247, 3, 255, 201, 48, 119, 136, 153, 30, 11, 123, 82, 7, 135, 108, 88, 175, 0, 101,
        239, 68, 69, 27, 24, 23, 119, 76, 236, 185, 111, 165,
    ];

    let proof: Vec<[u8; 32]> = vec![];

    let root: [u8; 32] = [
        253, 24, 27, 203, 106, 197, 56, 217, 94, 211, 101, 205, 85, 255, 184, 44, 247, 197, 108,
        228, 180, 216, 70, 129, 67, 162, 219, 185, 178, 198, 131, 72,
    ];
    let index = 4;
    let res = verify_partial_merkle(root, leaf, 2, index, proof, nodes);
    assert!(res)
}

#[test]
fn test_verify_partial_merkle() {
    let nodes: Vec<[u8; 32]> = vec![
        [
            157, 203, 83, 31, 9, 208, 192, 3, 201, 46, 165, 112, 246, 35, 115, 158, 64, 177, 185,
            59, 108, 100, 156, 165, 126, 118, 255, 158, 0, 54, 53, 175,
        ],
        [
            87, 71, 116, 230, 61, 194, 89, 51, 115, 255, 97, 207, 194, 9, 176, 247, 144, 236, 241,
            216, 18, 229, 91, 157, 149, 175, 15, 122, 103, 147, 85, 209,
        ],
        [
            62, 216, 170, 39, 82, 105, 212, 99, 194, 62, 63, 31, 183, 241, 117, 25, 46, 128, 236,
            167, 208, 249, 219, 74, 236, 15, 203, 169, 71, 35, 101, 246,
        ],
        [
            83, 152, 228, 31, 141, 102, 72, 192, 118, 247, 159, 138, 67, 173, 157, 1, 87, 163, 65,
            111, 95, 50, 123, 250, 111, 111, 254, 185, 230, 201, 104, 37,
        ],
        [
            185, 207, 249, 117, 66, 169, 158, 167, 27, 51, 37, 239, 242, 192, 182, 22, 250, 204,
            38, 24, 72, 82, 112, 155, 18, 106, 187, 109, 10, 9, 195, 212,
        ],
        [
            9, 114, 24, 172, 111, 156, 91, 21, 10, 214, 95, 44, 91, 213, 30, 91, 238, 165, 137,
            215, 239, 34, 52, 0, 251, 43, 130, 94, 188, 105, 90, 133,
        ],
    ];

    let leaf: [u8; 32] = [
        72, 15, 168, 106, 121, 139, 104, 195, 0, 91, 56, 197, 115, 84, 190, 201, 167, 38, 128, 236,
        251, 154, 135, 128, 21, 205, 205, 18, 83, 34, 60, 250,
    ];

    let proof: Vec<[u8; 32]> = vec![
        [
            51, 227, 52, 44, 225, 103, 118, 164, 148, 223, 148, 76, 197, 239, 0, 84, 100, 83, 176,
            161, 97, 222, 183, 55, 178, 186, 211, 243, 167, 38, 126, 64,
        ],
        [
            232, 191, 145, 132, 156, 200, 103, 194, 223, 182, 71, 34, 63, 135, 185, 30, 6, 233,
            247, 199, 181, 39, 95, 98, 100, 135, 106, 58, 91, 97, 130, 88,
        ],
    ];

    let root: [u8; 32] = [
        26, 152, 1, 201, 215, 171, 246, 198, 156, 83, 34, 234, 99, 132, 94, 201, 173, 6, 251, 152,
        165, 209, 108, 102, 204, 226, 190, 234, 164, 74, 66, 51,
    ];
    let index = 3;
    let res = verify_partial_merkle(root, leaf, 2, index, proof, nodes);
    assert!(res);
}

#[test]
fn partial_proof_is_refused_on_bad_depth_index_or_root() {
    let leaf = [7u8; 32];
    let nodes: Vec<[u8; 32]> = vec![[1u8; 32], leaf];
    let root = merkle_distributor::digest::hash_pair(&[1u8; 32], &leaf);
    // depth 1, leaf at node 1 of level 1; an empty proof halves the index once
    assert!(!verify_partial_merkle(root, leaf, 0, 2, vec![], nodes.clone()));
    assert!(!verify_partial_merkle(root, leaf, 1, 200, vec![], nodes.clone()));
    assert!(!verify_partial_merkle(root, leaf, 200, 2, vec![], nodes.clone()));
    assert!(!verify_partial_merkle(root, leaf, 1, 2, vec![], Vec::new()));
    let mut bad_root = root;
    bad_root[0] ^= 1;
    assert!(!verify_partial_merkle(bad_root, leaf, 1, 2, vec![], nodes));
}

#[test]
fn bfs_index_follows_formula() {
    assert_eq!(bfs_index(1, 0), 0);
    assert_eq!(bfs_index(2, 0), 2);
    assert_eq!(bfs_index(3, 0), 6);
    assert_eq!(bfs_index(3, 5), 11);
    assert_eq!(checked_bfs_index(0, 5), None);
    assert_eq!(checked_bfs_index(4, 3), Some(17));
    assert_eq!(checked_bfs_index(usize::BITS as usize + 1, 0), None);
    assert_eq!(checked_bfs_index(usize::BITS as usize, 0), Some(usize::MAX - 1));
    assert_eq!(checked_bfs_index(usize::BITS as usize, 2), None);
}

#[test]
fn canopy_leaf_is_checked_against_its_node() {
    let a = [3u8; 32];
    let b = [4u8; 32];
    let parent = merkle_distributor::digest::hash_pair(&a, &b);
    let mut tree = CanopyTree::default();
    tree.nodes = vec![[9u8; 32], parent];
    // leaves 2 and 3 sit below node 1
    assert!(tree.verify_leaf(vec![b], a, 2));
    assert!(tree.verify_leaf(vec![a], b, 3));
    assert!(!tree.verify_leaf(vec![b], a, 0));
    assert!(!tree.verify_leaf(vec![b], a, 4));
    assert!(!tree.verify_leaf(vec![a], a, 2));
    assert_eq!(CanopyTree::space(2), 8 + 33 + 4 + 32 * 4 + 32 + 40);
}
