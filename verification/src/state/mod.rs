//! Records kept on the ledger.

pub mod canopy_tree;
pub mod claim_status;
pub mod distributor_root;
pub mod merkle_distributor;
pub mod parent_account;
pub mod partial_merkle_tree;
