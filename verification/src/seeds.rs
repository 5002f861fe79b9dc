//! The seeds from which the addresses of the program's accounts are derived,
//! and the derivation itself.

use vstd::prelude::*;
use vstd::bytes::{spec_u64_to_le_bytes, u64_to_le_bytes};
use crate::digest::push_digest;
use crate::state::distributor_root::DistributorRoot;
use crate::state::merkle_distributor::MerkleDistributor;
use crate::state::parent_account::ParentAccount;

verus! {

/// The bytes of `MerkleDistributor`.
pub open spec fn distributor_tag() -> Seq<u8> {
    seq![77u8, 101, 114, 107, 108, 101, 68, 105, 115, 116, 114, 105, 98, 117, 116, 111, 114]
}

/// The bytes of `ClaimStatus`.
pub open spec fn claim_status_tag() -> Seq<u8> {
    seq![67u8, 108, 97, 105, 109, 83, 116, 97, 116, 117, 115]
}

/// The bytes of `DistributorRoot`.
pub open spec fn distributor_root_tag() -> Seq<u8> {
    seq![68u8, 105, 115, 116, 114, 105, 98, 117, 116, 111, 114, 82, 111, 111, 116]
}

/// The bytes of `ParentAccount`.
pub open spec fn parent_account_tag() -> Seq<u8> {
    seq![80u8, 97, 114, 101, 110, 116, 65, 99, 99, 111, 117, 110, 116]
}

/// The byte strings held by a list of vectors.
pub open spec fn rows(v: Seq<Vec<u8>>) -> Seq<Seq<u8>> {
    Seq::new(v.len(), |i: int| v[i]@)
}

/// The seeds of a distributor's address, without the bump seed.
pub open spec fn distributor_seeds(base: Seq<u8>, mint: Seq<u8>, version: u64) -> Seq<Seq<u8>> {
    seq![distributor_tag(), base, mint, spec_u64_to_le_bytes(version)]
}

/// The seeds of a claim record's address, without the bump seed.
pub open spec fn claim_status_seeds(claimant: Seq<u8>, distributor: Seq<u8>) -> Seq<Seq<u8>> {
    seq![claim_status_tag(), claimant, distributor]
}

/// The program derived address for the given seeds and program, with its
/// bump seed, where one exists.
pub uninterp spec fn program_address(seeds: Seq<Seq<u8>>, program_id: Seq<u8>) -> Option<
    (Seq<u8>, u8),
>;

/// An address and its bump seed, the address as a byte string.
pub open spec fn address_view(found: Option<([u8; 32], u8)>) -> Option<(Seq<u8>, u8)> {
    match found {
        Some(pair) => Some((pair.0@, pair.1)),
        None => None,
    }
}

/// Calls `solana_program::pubkey::Pubkey::try_find_program_address` with the
/// seeds as slices and the program id as a key, and returns the address
/// found as bytes, with its bump seed. The contract claims only that the
/// result is a function of the seeds and the program id, which
/// `program_address` names.
#[verifier::external_body]
pub(crate) fn try_find_program_address(seeds: &Vec<Vec<u8>>, program_id: &[u8; 32]) -> (r: Option<
    ([u8; 32], u8),
>)
    ensures
        address_view(r) == program_address(rows(seeds@), program_id@),
{
    let slices: Vec<&[u8]> = seeds.iter().map(|s| s.as_slice()).collect();
    let id = solana_program::pubkey::Pubkey::new_from_array(*program_id);
    match solana_program::pubkey::Pubkey::try_find_program_address(&slices, &id) {
        Some((key, bump)) => Some((key.to_bytes(), bump)),
        None => None,
    }
}

/// A key as a vector of bytes.
fn key_bytes(key: &[u8; 32]) -> (out: Vec<u8>)
    ensures
        out@ == key@,
{
    let mut out: Vec<u8> = Vec::new();
    push_digest(&mut out, key);
    assert(out@ =~= key@);
    out
}

/// The bytes of `MerkleDistributor`.
fn distributor_tag_bytes() -> (out: Vec<u8>)
    ensures
        out@ == distributor_tag(),
{
    let out: Vec<u8> = vec![
        77u8,
        101,
        114,
        107,
        108,
        101,
        68,
        105,
        115,
        116,
        114,
        105,
        98,
        117,
        116,
        111,
        114,
    ];
    assert(out@ =~= distributor_tag());
    out
}

/// The bytes of `ClaimStatus`.
fn claim_status_tag_bytes() -> (out: Vec<u8>)
    ensures
        out@ == claim_status_tag(),
{
    let out: Vec<u8> = vec![67u8, 108, 97, 105, 109, 83, 116, 97, 116, 117, 115];
    assert(out@ =~= claim_status_tag());
    out
}

/// The bytes of `DistributorRoot`.
fn distributor_root_tag_bytes() -> (out: Vec<u8>)
    ensures
        out@ == distributor_root_tag(),
{
    let out: Vec<u8> = vec![
        68u8,
        105,
        115,
        116,
        114,
        105,
        98,
        117,
        116,
        111,
        114,
        82,
        111,
        111,
        116,
    ];
    assert(out@ =~= distributor_root_tag());
    out
}

/// The bytes of `ParentAccount`.
fn parent_account_tag_bytes() -> (out: Vec<u8>)
    ensures
        out@ == parent_account_tag(),
{
    let out: Vec<u8> = vec![80u8, 97, 114, 101, 110, 116, 65, 99, 99, 111, 117, 110, 116];
    assert(out@ =~= parent_account_tag());
    out
}

/// The address of the distributor with the given base, mint and version
/// under the given program, with its bump seed; `None` where no bump seed
/// gives an address.
pub fn get_merkle_distributor_pda(
    program_id: &[u8; 32],
    base: &[u8; 32],
    mint: &[u8; 32],
    version: u64,
) -> (r: Option<([u8; 32], u8)>)
    ensures
        address_view(r) == program_address(distributor_seeds(base@, mint@, version), program_id@),
{
    let mut seeds: Vec<Vec<u8>> = Vec::new();
    seeds.push(distributor_tag_bytes());
    seeds.push(key_bytes(base));
    seeds.push(key_bytes(mint));
    seeds.push(u64_to_le_bytes(version));
    assert(rows(seeds@) =~= distributor_seeds(base@, mint@, version));
    try_find_program_address(&seeds, program_id)
}

/// The address of the claim record of a claimant on a distributor under the
/// given program, with its bump seed; `None` where no bump seed gives an
/// address.
pub fn get_claim_status_pda(program_id: &[u8; 32], claimant: &[u8; 32], distributor: &[u8; 32]) -> (r:
    Option<([u8; 32], u8)>)
    ensures
        address_view(r) == program_address(
            claim_status_seeds(claimant@, distributor@),
            program_id@,
        ),
{
    let mut seeds: Vec<Vec<u8>> = Vec::new();
    seeds.push(claim_status_tag_bytes());
    seeds.push(key_bytes(claimant));
    seeds.push(key_bytes(distributor));
    assert(rows(seeds@) =~= claim_status_seeds(claimant@, distributor@));
    try_find_program_address(&seeds, program_id)
}

/// The seeds with which a distributor signs for its vault.
pub struct MerkleDistributorSigner {
    pub base: [u8; 32],
    pub mint: [u8; 32],
    pub version: [u8; 8],
    pub bump: [u8; 1],
}

/// Representing the signer seeds for the vault of a distributor root.
pub struct DistributorRootVaultSigner {
    pub base: [u8; 32],
    pub mint: [u8; 32],
    pub bump: [u8; 1],
}

/// Representing the signer seeds for the parent vault.
pub struct ParentVaultSigner {
    pub mint: [u8; 32],
    pub bump: [u8; 1],
}

/// A short array as a vector of bytes.
fn bytes_of_8(a: &[u8; 8]) -> (out: Vec<u8>)
    ensures
        out@ == a@,
{
    let mut out: Vec<u8> = Vec::new();
    let mut i: usize = 0;
    while i < 8
        invariant
            i <= 8,
            out@ == a@.take(i as int),
        decreases 8 - i,
    {
        out.push(a[i]);
        assert(out@ =~= a@.take(i + 1));
        i += 1;
    }
    assert(a@.take(8) =~= a@);
    out
}

/// The eight little-endian bytes of `x` as an array.
fn le_bytes_array(x: u64) -> (out: [u8; 8])
    ensures
        out@ == spec_u64_to_le_bytes(x),
{
    let bytes = u64_to_le_bytes(x);
    proof {
        vstd::bytes::lemma_auto_spec_u64_to_from_le_bytes();
    }
    let out: [u8; 8] = [
        bytes[0],
        bytes[1],
        bytes[2],
        bytes[3],
        bytes[4],
        bytes[5],
        bytes[6],
        bytes[7],
    ];
    assert(out@ =~= bytes@);
    out
}

impl MerkleDistributorSigner {
    /// The seeds: the distributor tag, base, mint, version and bump seed.
    pub fn seeds(&self) -> (out: Vec<Vec<u8>>)
        ensures
            rows(out@) == seq![
                distributor_tag(),
                self.base@,
                self.mint@,
                self.version@,
                self.bump@,
            ],
    {
        let mut out: Vec<Vec<u8>> = Vec::new();
        out.push(distributor_tag_bytes());
        out.push(key_bytes(&self.base));
        out.push(key_bytes(&self.mint));
        out.push(bytes_of_8(&self.version));
        let bump: Vec<u8> = vec![self.bump[0]];
        assert(bump@ =~= self.bump@);
        out.push(bump);
        assert(rows(out@) =~= seq![
            distributor_tag(),
            self.base@,
            self.mint@,
            self.version@,
            self.bump@,
        ]);
        out
    }
}

impl DistributorRootVaultSigner {
    /// Returns the seeds required for signing: the root tag, base, mint and
    /// bump seed.
    pub fn seeds(&self) -> (out: Vec<Vec<u8>>)
        ensures
            rows(out@) == seq![distributor_root_tag(), self.base@, self.mint@, self.bump@],
    {
        let mut out: Vec<Vec<u8>> = Vec::new();
        out.push(distributor_root_tag_bytes());
        out.push(key_bytes(&self.base));
        out.push(key_bytes(&self.mint));
        let bump: Vec<u8> = vec![self.bump[0]];
        assert(bump@ =~= self.bump@);
        out.push(bump);
        assert(rows(out@) =~= seq![distributor_root_tag(), self.base@, self.mint@, self.bump@]);
        out
    }
}

impl ParentVaultSigner {
    /// Returns the seeds required for signing: the parent tag, mint and bump
    /// seed.
    pub fn seeds(&self) -> (out: Vec<Vec<u8>>)
        ensures
            rows(out@) == seq![parent_account_tag(), self.mint@, self.bump@],
    {
        let mut out: Vec<Vec<u8>> = Vec::new();
        out.push(parent_account_tag_bytes());
        out.push(key_bytes(&self.mint));
        let bump: Vec<u8> = vec![self.bump[0]];
        assert(bump@ =~= self.bump@);
        out.push(bump);
        assert(rows(out@) =~= seq![parent_account_tag(), self.mint@, self.bump@]);
        out
    }
}

impl MerkleDistributor {
    /// The seeds with which this distributor signs.
    pub fn signer(&self) -> (signer: MerkleDistributorSigner)
        ensures
            signer.base == self.base,
            signer.mint == self.mint,
            signer.version@ == spec_u64_to_le_bytes(self.version),
            signer.bump@ == seq![self.bump],
    {
        let bump: [u8; 1] = [self.bump];
        assert(bump@ =~= seq![self.bump]);
        MerkleDistributorSigner {
            base: self.base,
            mint: self.mint,
            version: le_bytes_array(self.version),
            bump,
        }
    }
}

impl DistributorRoot {
    /// Returns the signer seeds of the root's vault.
    pub fn signer(&self) -> (signer: DistributorRootVaultSigner)
        ensures
            signer.base == self.base,
            signer.mint == self.mint,
            signer.bump@ == seq![self.bump],
    {
        let bump: [u8; 1] = [self.bump];
        assert(bump@ =~= seq![self.bump]);
        DistributorRootVaultSigner { base: self.base, mint: self.mint, bump }
    }
}

impl ParentAccount {
    /// Returns the signer seeds of the parent vault.
    pub fn signer(&self) -> (signer: ParentVaultSigner)
        ensures
            signer.mint == self.mint,
            signer.bump@ == seq![self.bump],
    {
        let bump: [u8; 1] = [self.bump];
        assert(bump@ =~= seq![self.bump]);
        ParentVaultSigner { mint: self.mint, bump }
    }
}

} // verus!
