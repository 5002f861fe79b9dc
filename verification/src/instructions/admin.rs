//! What the admin of a distributor may do: create it, rotate its keys, set
//! its activation point, claw back what is left, and close it.

use vstd::prelude::*;
use crate::digest::{digest_eq, views};
use crate::error::ErrorCode;
use crate::state::canopy_tree::{canopy_matches, CanopyTree};
use crate::state::distributor_root::DistributorRoot;
use crate::verify::{checked_two_pow, two_pow};
use crate::state::merkle_distributor::{
    ActivationType,
    AirdropBonus,
    ClaimType,
    MerkleDistributor,
};

verus! {

/// Seconds between the end of the vesting and the earliest clawback: one
/// day.
pub const SECONDS_PER_DAY: i64 = 86400;

/// What the creator of a distributor chooses.
#[derive(Copy, Clone, Debug)]
pub struct NewDistributorParams {
    pub version: u64,
    pub total_claim: u64,
    pub max_num_nodes: u64,
    pub start_vesting_ts: i64,
    pub end_vesting_ts: i64,
    pub clawback_start_ts: i64,
    /// can be slot or timestamp
    pub activation_point: u64,
    pub activation_type: u8,
    pub closable: bool,
    pub total_bonus: u64,
    pub bonus_vesting_duration: u64,
    pub claim_type: u8,
    pub operator: [u8; 32],
    pub locker: [u8; 32],
}

/// The keys and values that a new distributor takes from its accounts.
#[derive(Copy, Clone, Debug)]
pub struct NewDistributorAccounts {
    /// Bump seed of the distributor's address
    pub bump: u8,
    /// The 256-bit merkle root
    pub root: [u8; 32],
    /// Base key of the distributor
    pub base: [u8; 32],
    /// The mint to distribute
    pub mint: [u8; 32],
    /// Token vault
    pub token_vault: [u8; 32],
    /// Clawback receiver token account
    pub clawback_receiver: [u8; 32],
    /// The authority to set the clawback receiver and change itself
    pub admin: [u8; 32],
    /// Key of the distributor root
    pub distributor_root: [u8; 32],
    /// Key of the parent account
    pub parent_account: [u8; 32],
}

/// Whether a key is the default key of all zeros.
pub open spec fn is_default_key(key: Seq<u8>) -> bool {
    forall|i: int| 0 <= i < key.len() ==> key[i] == 0
}

/// Whether a key is the default key of all zeros.
pub fn key_is_default(key: &[u8; 32]) -> (r: bool)
    ensures
        r == is_default_key(key@),
{
    let mut i: usize = 0;
    while i < 32
        invariant
            i <= 32,
            forall|j: int| 0 <= j < i ==> key@[j] == 0,
        decreases 32 - i,
    {
        if key[i] != 0 {
            return false;
        }
        i += 1;
    }
    true
}

impl NewDistributorParams {
    /// The first rule that the parameters break at time `curr_ts`, if any.
    pub open spec fn refusal(&self, curr_ts: i64) -> Option<ErrorCode> {
        if ActivationType::of_tag(self.activation_type).is_none() {
            Some(ErrorCode::InvalidActivationType)
        } else if self.start_vesting_ts >= self.end_vesting_ts {
            Some(ErrorCode::StartTimestampAfterEnd)
        } else if self.clawback_start_ts <= self.end_vesting_ts {
            Some(ErrorCode::ClawbackDuringVesting)
        } else if self.start_vesting_ts <= curr_ts {
            Some(ErrorCode::TimestampsNotInFuture)
        } else if self.end_vesting_ts + SECONDS_PER_DAY > i64::MAX {
            Some(ErrorCode::ArithmeticError)
        } else if self.clawback_start_ts < self.end_vesting_ts + SECONDS_PER_DAY {
            Some(ErrorCode::InsufficientClawbackDelay)
        } else {
            match ClaimType::of_tag(self.claim_type) {
                None => Some(ErrorCode::TypeCastedError),
                Some(t) => {
                    let staking = t == ClaimType::PermissionlessWithStaking || t
                        == ClaimType::PermissionedWithStaking;
                    let permissionless = t == ClaimType::Permissionless || t
                        == ClaimType::PermissionlessWithStaking;
                    if staking == is_default_key(self.locker@) {
                        Some(ErrorCode::InvalidLocker)
                    } else if permissionless && !is_default_key(self.operator@) {
                        Some(ErrorCode::InvalidOperator)
                    } else {
                        None
                    }
                },
            }
        }
    }

    /// The most that can ever be claimed: the total claim and the whole
    /// bonus.
    pub fn get_max_total_claim(&self) -> (r: Result<u64, ErrorCode>)
        ensures
            r == if self.total_claim + self.total_bonus <= u64::MAX {
                Ok::<u64, ErrorCode>((self.total_claim + self.total_bonus) as u64)
            } else {
                Err(ErrorCode::ArithmeticError)
            },
    {
        if self.total_bonus > u64::MAX - self.total_claim {
            Err(ErrorCode::ArithmeticError)
        } else {
            Ok(self.total_claim + self.total_bonus)
        }
    }

    /// The bonus pool at creation: nothing claimed yet.
    pub fn get_airdrop_bonus(&self) -> (bonus: AirdropBonus)
        ensures
            bonus == (AirdropBonus {
                total_bonus: self.total_bonus,
                vesting_duration: self.bonus_vesting_duration,
                total_claimed_bonus: 0,
            }),
    {
        AirdropBonus {
            total_bonus: self.total_bonus,
            vesting_duration: self.bonus_vesting_duration,
            total_claimed_bonus: 0,
        }
    }

    /// Checks the parameters at time `curr_ts`:
    ///     1. The activation type is known
    ///     2. The start timestamp is before the end timestamp
    ///     3. The clawback timestamp is after the end timestamp
    ///     4. The start timestamp is in the future
    ///     5. The clawback start is at least one day after end timestamp
    ///     6. The claim type is known, a locker is named exactly for the
    ///        staking types, and no operator for the permissionless ones
    pub fn validate(&self, curr_ts: i64) -> (r: Result<(), ErrorCode>)
        ensures
            r == match self.refusal(curr_ts) {
                Some(e) => Err::<(), ErrorCode>(e),
                None => Ok(()),
            },
    {
        if ActivationType::try_from_u8(self.activation_type).is_none() {
            return Err(ErrorCode::InvalidActivationType);
        }
        if self.start_vesting_ts >= self.end_vesting_ts {
            return Err(ErrorCode::StartTimestampAfterEnd);
        }
        if self.clawback_start_ts <= self.end_vesting_ts {
            return Err(ErrorCode::ClawbackDuringVesting);
        }
        if self.start_vesting_ts <= curr_ts {
            return Err(ErrorCode::TimestampsNotInFuture);
        }
        if self.end_vesting_ts > i64::MAX - SECONDS_PER_DAY {
            return Err(ErrorCode::ArithmeticError);
        }
        if self.clawback_start_ts < self.end_vesting_ts + SECONDS_PER_DAY {
            return Err(ErrorCode::InsufficientClawbackDelay);
        }
        let claim_type = match ClaimType::try_from_u8(self.claim_type) {
            Some(t) => t,
            None => {
                return Err(ErrorCode::TypeCastedError);
            },
        };
        let no_locker = key_is_default(&self.locker);
        let no_operator = key_is_default(&self.operator);
        match claim_type {
            ClaimType::Permissionless => {
                if !no_locker {
                    return Err(ErrorCode::InvalidLocker);
                }
                if !no_operator {
                    return Err(ErrorCode::InvalidOperator);
                }
            },
            ClaimType::Permissioned => {
                if !no_locker {
                    return Err(ErrorCode::InvalidLocker);
                }
            },
            ClaimType::PermissionlessWithStaking => {
                if no_locker {
                    return Err(ErrorCode::InvalidLocker);
                }
                if !no_operator {
                    return Err(ErrorCode::InvalidOperator);
                }
            },
            ClaimType::PermissionedWithStaking => {
                if no_locker {
                    return Err(ErrorCode::InvalidLocker);
                }
            },
        }
        Ok(())
    }
}

/// The distributor that is created from parameters and accounts.
pub open spec fn created_distributor(
    params: NewDistributorParams,
    accounts: NewDistributorAccounts,
) -> MerkleDistributor {
    MerkleDistributor {
        root: accounts.root,
        mint: accounts.mint,
        base: accounts.base,
        token_vault: accounts.token_vault,
        clawback_receiver: accounts.clawback_receiver,
        admin: accounts.admin,
        locker: params.locker,
        operator: params.operator,
        distributor_root: accounts.distributor_root,
        parent_account: accounts.parent_account,
        version: params.version,
        max_total_claim: (params.total_claim + params.total_bonus) as u64,
        max_num_nodes: params.max_num_nodes,
        total_amount_claimed: 0,
        num_nodes_claimed: 0,
        funded_amount: 0,
        start_ts: params.start_vesting_ts,
        end_ts: params.end_vesting_ts,
        clawback_start_ts: params.clawback_start_ts,
        activation_point: params.activation_point,
        activation_type: params.activation_type,
        claim_type: params.claim_type,
        bump: accounts.bump,
        clawed_back: 0,
        closable: if params.closable {
            1u8
        } else {
            0u8
        },
        airdrop_bonus: AirdropBonus {
            total_bonus: params.total_bonus,
            vesting_duration: params.bonus_vesting_duration,
            total_claimed_bonus: 0,
        },
    }
}

/// Outcome of creating a distributor: the first rule that is broken, or the
/// new distributor.
pub open spec fn new_distributor_outcome(
    root: DistributorRoot,
    params: NewDistributorParams,
    accounts: NewDistributorAccounts,
    curr_ts: i64,
) -> Result<MerkleDistributor, ErrorCode> {
    match params.refusal(curr_ts) {
        Some(e) => Err(e),
        None => if params.total_claim + params.total_bonus > u64::MAX {
            Err(ErrorCode::ArithmeticError)
        } else if root.total_distributor_created >= root.max_distributor {
            Err(ErrorCode::MaxDistributorExceeded)
        } else {
            Ok(created_distributor(params, accounts))
        },
    }
}

/// Creates a new distributor under a distributor root, which counts it and
/// refuses it where the root has its maximum number of distributors already.
/// After creating this distributor, the token vault should be seeded with
/// max_total_claim tokens. Where a rule is broken nothing changes.
pub fn handle_new_distributor(
    distributor_root: &mut DistributorRoot,
    params: &NewDistributorParams,
    accounts: &NewDistributorAccounts,
    curr_ts: i64,
) -> (r: Result<MerkleDistributor, ErrorCode>)
    ensures
        r == new_distributor_outcome(*old(distributor_root), *params, *accounts, curr_ts),
        r.is_ok() ==> *final(distributor_root) == (DistributorRoot {
            total_distributor_created: (old(distributor_root).total_distributor_created
                + 1) as u64,
            ..*old(distributor_root)
        }) && final(distributor_root).total_distributor_created <= final(distributor_root).max_distributor,
        r.is_err() ==> *final(distributor_root) == *old(distributor_root),
{
    match params.validate(curr_ts) {
        Ok(_) => {},
        Err(e) => {
            return Err(e);
        },
    }
    let max_total_claim = match params.get_max_total_claim() {
        Ok(v) => v,
        Err(e) => {
            return Err(e);
        },
    };
    let distributor = MerkleDistributor {
        root: accounts.root,
        mint: accounts.mint,
        base: accounts.base,
        token_vault: accounts.token_vault,
        clawback_receiver: accounts.clawback_receiver,
        admin: accounts.admin,
        locker: params.locker,
        operator: params.operator,
        distributor_root: accounts.distributor_root,
        parent_account: accounts.parent_account,
        version: params.version,
        max_total_claim,
        max_num_nodes: params.max_num_nodes,
        total_amount_claimed: 0,
        num_nodes_claimed: 0,
        funded_amount: 0,
        start_ts: params.start_vesting_ts,
        end_ts: params.end_vesting_ts,
        clawback_start_ts: params.clawback_start_ts,
        activation_point: params.activation_point,
        activation_type: params.activation_type,
        claim_type: params.claim_type,
        bump: accounts.bump,
        clawed_back: 0,
        closable: if params.closable {
            1
        } else {
            0
        },
        airdrop_bonus: params.get_airdrop_bonus(),
    };
    match distributor_root.update_new_distributor() {
        Ok(_) => {},
        Err(e) => {
            return Err(e);
        },
    }
    Ok(distributor)
}

/// Outcome of storing a canopy: refused where it holds more nodes than a
/// level at its depth can have, and where its nodes do not fold up to the
/// root.
pub open spec fn create_canopy_refusal(depth: u8, root: Seq<u8>, nodes: Seq<Seq<u8>>) -> Option<
    ErrorCode,
> {
    if nodes.len() > two_pow(depth as nat) {
        Some(ErrorCode::CanopyNodesExceeded)
    } else if !canopy_matches(root, nodes) {
        Some(ErrorCode::CanopyRootMissMatch)
    } else {
        None
    }
}

/// Stores a canopy for a distributor, after checking that it holds no more
/// nodes than the level at its depth can have, which are `2^depth`, and that
/// its nodes fold up to the root.
pub fn handle_create_canopy_tree(
    distributor_key: [u8; 32],
    depth: u8,
    root: [u8; 32],
    canopy_nodes: Vec<[u8; 32]>,
) -> (r: Result<CanopyTree, ErrorCode>)
    ensures
        match r {
            Ok(tree) => {
                &&& create_canopy_refusal(depth, root@, views(canopy_nodes@)).is_none()
                &&& tree.root == root
                &&& tree.depth == depth
                &&& tree.nodes@ == canopy_nodes@
                &&& tree.nodes@.len() <= two_pow(depth as nat)
                &&& canopy_matches(tree.root@, views(tree.nodes@))
                &&& tree.distributor == distributor_key
                &&& forall|i: int| 0 <= i < 5 ==> tree.buffer@[i] == 0
            },
            Err(e) => create_canopy_refusal(depth, root@, views(canopy_nodes@)) == Some(e),
        },
{
    match checked_two_pow(depth as usize) {
        Some(max_nodes) => {
            if canopy_nodes.len() > max_nodes {
                return Err(ErrorCode::CanopyNodesExceeded);
            }
        },
        None => {},
    }
    let mut nodes: Vec<[u8; 32]> = Vec::new();
    let mut i: usize = 0;
    while i < canopy_nodes.len()
        invariant
            i <= canopy_nodes@.len(),
            nodes@ == canopy_nodes@.take(i as int),
        decreases canopy_nodes.len() - i,
    {
        nodes.push(canopy_nodes[i]);
        assert(nodes@ =~= canopy_nodes@.take(i + 1));
        i += 1;
    }
    assert(canopy_nodes@.take(canopy_nodes@.len() as int) =~= canopy_nodes@);
    let mut canopy_tree = CanopyTree::default();
    if !canopy_tree.verify_canopy_root(root, canopy_nodes) {
        return Err(ErrorCode::CanopyRootMissMatch);
    }
    canopy_tree.root = root;
    canopy_tree.depth = depth;
    canopy_tree.nodes = nodes;
    canopy_tree.distributor = distributor_key;
    Ok(canopy_tree)
}

/// Sets the activation point. Only the admin may do so.
pub fn handle_set_activation_point(
    distributor: &mut MerkleDistributor,
    signer: &[u8; 32],
    activation_point: u64,
) -> (r: Result<(), ErrorCode>)
    ensures
        signer@ == old(distributor).admin@ ==> r.is_ok() && *final(distributor) == (
        MerkleDistributor { activation_point, ..*old(distributor) }),
        signer@ != old(distributor).admin@ ==> r == Err::<(), ErrorCode>(ErrorCode::Unauthorized)
            && *final(distributor) == *old(distributor),
{
    if !digest_eq(signer, &distributor.admin) {
        return Err(ErrorCode::Unauthorized);
    }
    distributor.activation_point = activation_point;
    Ok(())
}

/// Outcome of setting the activation point of a distributor that is
/// activated in the given way.
pub open spec fn set_typed_activation_outcome(
    d: MerkleDistributor,
    signer: Seq<u8>,
    kind: ActivationType,
    point: u64,
) -> Result<MerkleDistributor, ErrorCode> {
    if signer != d.admin@ {
        Err(ErrorCode::Unauthorized)
    } else if ActivationType::of_tag(d.activation_type) != Some(kind) {
        Err(ErrorCode::InvalidActivationType)
    } else {
        Ok(MerkleDistributor { activation_point: point, ..d })
    }
}

/// Sets the activation point of a distributor, which must be of the given
/// activation type.
fn set_typed_activation(
    distributor: &mut MerkleDistributor,
    signer: &[u8; 32],
    kind: ActivationType,
    point: u64,
) -> (r: Result<(), ErrorCode>)
    ensures
        match set_typed_activation_outcome(*old(distributor), signer@, kind, point) {
            Ok(d) => r.is_ok() && *final(distributor) == d,
            Err(e) => r == Err::<(), ErrorCode>(e) && *final(distributor) == *old(distributor),
        },
{
    if !digest_eq(signer, &distributor.admin) {
        return Err(ErrorCode::Unauthorized);
    }
    match ActivationType::try_from_u8(distributor.activation_type) {
        Some(t) => {
            if t != kind {
                return Err(ErrorCode::InvalidActivationType);
            }
        },
        None => {
            return Err(ErrorCode::InvalidActivationType);
        },
    }
    distributor.activation_point = point;
    Ok(())
}

/// Sets the activation slot of a distributor that is activated by slot.
pub fn handle_set_activation_slot(
    distributor: &mut MerkleDistributor,
    signer: &[u8; 32],
    activation_slot: u64,
) -> (r: Result<(), ErrorCode>)
    ensures
        match set_typed_activation_outcome(
            *old(distributor),
            signer@,
            ActivationType::Slot,
            activation_slot,
        ) {
            Ok(d) => r.is_ok() && *final(distributor) == d,
            Err(e) => r == Err::<(), ErrorCode>(e) && *final(distributor) == *old(distributor),
        },
{
    set_typed_activation(distributor, signer, ActivationType::Slot, activation_slot)
}

/// Sets the activation timestamp of a distributor that is activated by
/// time.
pub fn handle_set_activation_timestamp(
    distributor: &mut MerkleDistributor,
    signer: &[u8; 32],
    activation_timestamp: u64,
) -> (r: Result<(), ErrorCode>)
    ensures
        match set_typed_activation_outcome(
            *old(distributor),
            signer@,
            ActivationType::Timestamp,
            activation_timestamp,
        ) {
            Ok(d) => r.is_ok() && *final(distributor) == d,
            Err(e) => r == Err::<(), ErrorCode>(e) && *final(distributor) == *old(distributor),
        },
{
    set_typed_activation(distributor, signer, ActivationType::Timestamp, activation_timestamp)
}

/// Sets new admin account
/// CHECK:
///     1. The signer is the admin
///     2. The new admin is not the same as the old one
pub fn handle_set_admin(
    distributor: &mut MerkleDistributor,
    signer: &[u8; 32],
    new_admin: [u8; 32],
) -> (r: Result<(), ErrorCode>)
    ensures
        r == if signer@ != old(distributor).admin@ {
            Err::<(), ErrorCode>(ErrorCode::Unauthorized)
        } else if new_admin@ == old(distributor).admin@ {
            Err(ErrorCode::SameAdmin)
        } else {
            Ok(())
        },
        r.is_ok() ==> *final(distributor) == (MerkleDistributor {
            admin: new_admin,
            ..*old(distributor)
        }),
        r.is_err() ==> *final(distributor) == *old(distributor),
{
    if !digest_eq(signer, &distributor.admin) {
        return Err(ErrorCode::Unauthorized);
    }
    if digest_eq(&new_admin, &distributor.admin) {
        return Err(ErrorCode::SameAdmin);
    }
    distributor.admin = new_admin;
    Ok(())
}

/// Sets new clawback receiver token account
/// CHECK:
///     1. The signer is the admin
///     2. The new clawback receiver is not the same as the old one
pub fn handle_set_clawback_receiver(
    distributor: &mut MerkleDistributor,
    signer: &[u8; 32],
    new_clawback_account: [u8; 32],
) -> (r: Result<(), ErrorCode>)
    ensures
        r == if signer@ != old(distributor).admin@ {
            Err::<(), ErrorCode>(ErrorCode::Unauthorized)
        } else if new_clawback_account@ == old(distributor).clawback_receiver@ {
            Err(ErrorCode::SameClawbackReceiver)
        } else {
            Ok(())
        },
        r.is_ok() ==> *final(distributor) == (MerkleDistributor {
            clawback_receiver: new_clawback_account,
            ..*old(distributor)
        }),
        r.is_err() ==> *final(distributor) == *old(distributor),
{
    if !digest_eq(signer, &distributor.admin) {
        return Err(ErrorCode::Unauthorized);
    }
    if digest_eq(&new_clawback_account, &distributor.clawback_receiver) {
        return Err(ErrorCode::SameClawbackReceiver);
    }
    distributor.clawback_receiver = new_clawback_account;
    Ok(())
}

/// Sets a new operator on a permissioned distributor.
/// CHECK:
///     1. The signer is the admin
///     2. The claim type is one that has an operator
///     3. The new operator is not the same as the old one
pub fn handle_set_operator(
    distributor: &mut MerkleDistributor,
    signer: &[u8; 32],
    new_operator: [u8; 32],
) -> (r: Result<(), ErrorCode>)
    ensures
        r == if signer@ != old(distributor).admin@ {
            Err::<(), ErrorCode>(ErrorCode::Unauthorized)
        } else {
            match ClaimType::of_tag(old(distributor).claim_type) {
                None => Err(ErrorCode::TypeCastedError),
                Some(t) => if t != ClaimType::Permissioned && t
                    != ClaimType::PermissionedWithStaking {
                    Err(ErrorCode::InvalidClaimType)
                } else if new_operator@ == old(distributor).operator@ {
                    Err(ErrorCode::SameOperator)
                } else {
                    Ok(())
                },
            }
        },
        r.is_ok() ==> *final(distributor) == (MerkleDistributor {
            operator: new_operator,
            ..*old(distributor)
        }),
        r.is_err() ==> *final(distributor) == *old(distributor),
{
    if !digest_eq(signer, &distributor.admin) {
        return Err(ErrorCode::Unauthorized);
    }
    let claim_type = match ClaimType::try_from_u8(distributor.claim_type) {
        Some(t) => t,
        None => {
            return Err(ErrorCode::TypeCastedError);
        },
    };
    if claim_type != ClaimType::Permissioned && claim_type != ClaimType::PermissionedWithStaking {
        return Err(ErrorCode::InvalidClaimType);
    }
    if digest_eq(&new_operator, &distributor.operator) {
        return Err(ErrorCode::SameOperator);
    }
    distributor.operator = new_operator;
    Ok(())
}

/// Claws back what is left in the vault. Returns the amount to be swept to
/// the clawback receiver, which is the whole balance of the vault.
/// CHECK:
///     1. The receiver is the one on record
///     2. The distributor has not already been clawed back
///     3. The clawback start has been reached
pub fn handle_clawback(
    distributor: &mut MerkleDistributor,
    clawback_receiver: &[u8; 32],
    curr_ts: i64,
    vault_amount: u64,
) -> (r: Result<u64, ErrorCode>)
    ensures
        r == if clawback_receiver@ != old(distributor).clawback_receiver@ {
            Err::<u64, ErrorCode>(ErrorCode::InvalidAccount)
        } else if old(distributor).is_clawed_back() {
            Err(ErrorCode::ClawbackAlreadyClaimed)
        } else if curr_ts < old(distributor).clawback_start_ts {
            Err(ErrorCode::ClawbackBeforeStart)
        } else {
            Ok(vault_amount)
        },
        r.is_ok() ==> *final(distributor) == (MerkleDistributor {
            clawed_back: 1,
            ..*old(distributor)
        }),
        r.is_err() ==> *final(distributor) == *old(distributor),
{
    if !digest_eq(clawback_receiver, &distributor.clawback_receiver) {
        return Err(ErrorCode::InvalidAccount);
    }
    if distributor.clawed_back() {
        return Err(ErrorCode::ClawbackAlreadyClaimed);
    }
    if curr_ts < distributor.clawback_start_ts {
        return Err(ErrorCode::ClawbackBeforeStart);
    }
    distributor.set_clawed_back();
    Ok(vault_amount)
}

/// Closes a distributor. Returns the amount to be moved out of the vault,
/// which is its whole balance.
/// CHECK:
///     1. The signer is the admin
///     2. The vault is the one on record
///     3. The distributor is closable and has been clawed back
pub fn handle_close_distributor(
    distributor: &MerkleDistributor,
    signer: &[u8; 32],
    token_vault: &[u8; 32],
    vault_amount: u64,
) -> (r: Result<u64, ErrorCode>)
    ensures
        r == if signer@ != distributor.admin@ {
            Err::<u64, ErrorCode>(ErrorCode::Unauthorized)
        } else if token_vault@ != distributor.token_vault@ {
            Err(ErrorCode::InvalidAccount)
        } else if distributor.closable != 1 || !distributor.is_clawed_back() {
            Err(ErrorCode::CannotCloseDistributor)
        } else {
            Ok(vault_amount)
        },
{
    if !digest_eq(signer, &distributor.admin) {
        return Err(ErrorCode::Unauthorized);
    }
    if !digest_eq(token_vault, &distributor.token_vault) {
        return Err(ErrorCode::InvalidAccount);
    }
    if !distributor.closable() || !distributor.clawed_back() {
        return Err(ErrorCode::CannotCloseDistributor);
    }
    Ok(vault_amount)
}

} // verus!
