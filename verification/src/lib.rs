//! Verified core of a Merkle-tree token distributor: leaf hashing, tree
//! construction, proof verification against a root or a stored canopy, and the
//! state transitions of distributions, claims and funding accounts.

pub mod airdrop_merkle_tree;
pub mod amounts;
pub mod digest;
pub mod error;
pub mod instructions;
pub mod math;
pub mod merkle_tree;
pub mod seeds;
pub mod slot_time;
pub mod state;
pub mod stored_tree;
pub mod tree_node;
pub mod verify;
