//! The claim of one recipient and its digests.

use vstd::prelude::*;
use vstd::bytes::{spec_u64_to_le_bytes, u64_to_le_bytes};
use crate::digest::{hash_leaf, leaf_wrap, push_digest, sha256, sha256_bytes};

verus! {

/// Represents the claim information for an account.
#[derive(Debug, Clone, PartialEq, Eq, Hash)]
pub struct TreeNode {
    /// Key of the claimant; will be responsible for signing the claim
    pub claimant: [u8; 32],
    /// Amount that claimant can claim
    pub amount: u64,
    /// Locked amount
    pub locked_amount: u64,
    /// Claimant's proof of inclusion in the Merkle Tree
    pub proof: Option<Vec<[u8; 32]>>,
}

/// Canonical encoding of a claim: the recipient, then the unlocked and the
/// locked amount, each as eight little-endian bytes.
pub open spec fn claim_preimage(recipient: Seq<u8>, unlocked: u64, locked: u64) -> Seq<u8> {
    recipient + spec_u64_to_le_bytes(unlocked) + spec_u64_to_le_bytes(locked)
}

/// Digest of a claim.
pub open spec fn claim_digest(recipient: Seq<u8>, unlocked: u64, locked: u64) -> Seq<u8> {
    sha256(claim_preimage(recipient, unlocked, locked))
}

/// Digest of the leaf that commits to a claim.
pub open spec fn leaf_digest_of(recipient: Seq<u8>, unlocked: u64, locked: u64) -> Seq<u8> {
    leaf_wrap(claim_digest(recipient, unlocked, locked))
}

/// Appends all bytes of `src` to `buf`.
fn push_bytes(buf: &mut Vec<u8>, src: &Vec<u8>)
    ensures
        final(buf)@ == old(buf)@ + src@,
{
    let mut i: usize = 0;
    while i < src.len()
        invariant
            i <= src.len(),
            buf@ == old(buf)@ + src@.take(i as int),
        decreases src.len() - i,
    {
        buf.push(src[i]);
        assert(src@.take(i + 1) =~= src@.take(i as int).push(src@[i as int]));
        assert(buf@ =~= old(buf)@ + src@.take(i + 1));
        i += 1;
    }
    assert(src@.take(src.len() as int) =~= src@);
}

/// Hashes a claim: recipient, unlocked amount, locked amount.
pub fn hash_claim(recipient: &[u8; 32], unlocked: u64, locked: u64) -> (out: [u8; 32])
    ensures
        out@ == claim_digest(recipient@, unlocked, locked),
{
    let mut buf: Vec<u8> = Vec::new();
    push_digest(&mut buf, recipient);
    assert(buf@ =~= recipient@);
    let unlocked_bytes = u64_to_le_bytes(unlocked);
    push_bytes(&mut buf, &unlocked_bytes);
    let locked_bytes = u64_to_le_bytes(locked);
    push_bytes(&mut buf, &locked_bytes);
    sha256_bytes(&buf)
}

/// Digest of the leaf that commits to a claim: the hashed claim, hashed
/// again behind the leaf prefix.
pub fn leaf_digest(recipient: &[u8; 32], unlocked: u64, locked: u64) -> (out: [u8; 32])
    ensures
        out@ == leaf_digest_of(recipient@, unlocked, locked),
{
    let inner = hash_claim(recipient, unlocked, locked);
    hash_leaf(&inner)
}

impl TreeNode {
    /// Digest of this claim, before the leaf prefix is applied.
    pub fn hash(&self) -> (out: [u8; 32])
        ensures
            out@ == claim_digest(self.claimant@, self.amount, self.locked_amount),
    {
        hash_claim(&self.claimant, self.amount, self.locked_amount)
    }

    /// Return total amount for this claimant
    pub fn total_amount(&self) -> (r: u64)
        requires
            self.amount + self.locked_amount <= u64::MAX,
        ensures
            r == self.amount + self.locked_amount,
    {
        self.amount + self.locked_amount
    }

    /// Return unlocked amount for this claimant
    pub fn unlocked_amount(&self) -> (r: u64)
        ensures
            r == self.amount,
    {
        self.amount
    }

    /// Return locked amount for this claimant
    pub fn locked_amount(&self) -> (r: u64)
        ensures
            r == self.locked_amount,
    {
        self.locked_amount
    }
}

} // verus!
