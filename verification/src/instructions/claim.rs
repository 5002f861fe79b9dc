//! Creating a claim and withdrawing what has vested of its locked amount.

use vstd::prelude::*;
use crate::digest::{digest_eq, views};
use crate::error::ErrorCode;
use crate::state::claim_status::{holds_claim, ClaimLedger, ClaimStatus};
use crate::state::merkle_distributor::{
    ActivationHandler,
    AirdropBonus,
    ClaimType,
    Clock,
    MerkleDistributor,
};
use crate::state::partial_merkle_tree::PartialMerkleTree;
use crate::tree_node::{leaf_digest, leaf_digest_of};
use crate::verify::{full_accepts, partial_accepts, verify, verify_against_stored};

verus! {

/// A claim as it is asked for: who claims what, on which distributor, with
/// which operator signing, at which time.
#[derive(Copy, Clone, Debug)]
pub struct NewClaimRequest {
    /// Key of the distributor
    pub distributor_key: [u8; 32],
    /// Who is claiming the tokens
    pub claimant: [u8; 32],
    /// The operator that signed, if one did
    pub operator: Option<[u8; 32]>,
    /// The clock at the time of the claim
    pub clock: Clock,
    /// Amount that is paid out at once
    pub amount_unlocked: u64,
    /// Amount that vests over the lockup
    pub amount_locked: u64,
}

/// The checks that come before the proof is looked at: the claim must be
/// new, the tree that the proof is checked against must be the
/// distributor's, the distributor not clawed back, the signer authorized,
/// claiming open, and the node count below its ceiling.
pub open spec fn claim_admitted(
    d: MerkleDistributor,
    clock: Clock,
    already_claimed: bool,
    tree_linked: bool,
    auth: Result<(), ErrorCode>,
) -> Result<ActivationHandler, ErrorCode> {
    if already_claimed {
        Err(ErrorCode::ClaimAlreadyExists)
    } else if !tree_linked {
        Err(ErrorCode::InvalidAccount)
    } else if d.is_clawed_back() {
        Err(ErrorCode::ClaimExpired)
    } else {
        match auth {
            Err(e) => Err(e),
            Ok(_) => match d.activation_handler(clock) {
                Err(e) => Err(e),
                Ok(handler) => if !handler.claim_open() {
                    Err(ErrorCode::ClaimingIsNotStarted)
                } else if d.num_nodes_claimed == u64::MAX {
                    Err(ErrorCode::ArithmeticError)
                } else if d.num_nodes_claimed + 1 > d.max_num_nodes {
                    Err(ErrorCode::MaxNodesExceeded)
                } else {
                    Ok(handler)
                },
            },
        }
    }
}

/// The record that a claim creates and the distributor after it, or the
/// error where a total cannot be formed or would pass its ceiling.
pub open spec fn claim_settled(
    d: MerkleDistributor,
    request: NewClaimRequest,
    handler: ActivationHandler,
) -> Result<(MerkleDistributor, ClaimStatus), ErrorCode> {
    match d.bonus(request.amount_unlocked, handler) {
        Err(e) => Err(e),
        Ok(bonus) => if request.amount_unlocked + bonus > u64::MAX {
            Err(ErrorCode::ArithmeticError)
        } else if d.total_amount_claimed + request.amount_unlocked + bonus > u64::MAX {
            Err(ErrorCode::ArithmeticError)
        } else if d.airdrop_bonus.total_claimed_bonus + bonus > u64::MAX {
            Err(ErrorCode::ArithmeticError)
        } else if d.total_amount_claimed + request.amount_unlocked + bonus > d.max_total_claim {
            Err(ErrorCode::ExceededMaxClaim)
        } else {
            Ok(
                (
                    MerkleDistributor {
                        num_nodes_claimed: (d.num_nodes_claimed + 1) as u64,
                        total_amount_claimed: (d.total_amount_claimed + request.amount_unlocked
                            + bonus) as u64,
                        airdrop_bonus: AirdropBonus {
                            total_claimed_bonus: (d.airdrop_bonus.total_claimed_bonus
                                + bonus) as u64,
                            ..d.airdrop_bonus
                        },
                        ..d
                    },
                    ClaimStatus {
                        admin: d.admin,
                        distributor: request.distributor_key,
                        claimant: request.claimant,
                        locked_amount: request.amount_locked,
                        locked_amount_withdrawn: 0,
                        unlocked_amount: request.amount_unlocked,
                        bonus_amount: bonus,
                        closable: d.closable,
                    },
                ),
            )
        },
    }
}

/// Outcome of a new claim: the distributor after it and the record created,
/// or the first check that fails.
pub open spec fn new_claim_outcome(
    d: MerkleDistributor,
    request: NewClaimRequest,
    already_claimed: bool,
    tree_linked: bool,
    auth: Result<(), ErrorCode>,
    proof_accepted: bool,
) -> Result<(MerkleDistributor, ClaimStatus), ErrorCode> {
    match claim_admitted(d, request.clock, already_claimed, tree_linked, auth) {
        Err(e) => Err(e),
        Ok(handler) => if !proof_accepted {
            Err(ErrorCode::InvalidProof)
        } else {
            claim_settled(d, request, handler)
        },
    }
}

/// Authorization of a staked claim: the claim type and operator must fit,
/// and the claimant's escrow must be locked at the maximum.
pub open spec fn stake_authorized(
    d: MerkleDistributor,
    operator: Option<[u8; 32]>,
    escrow_is_max_lock: bool,
) -> Result<(), ErrorCode> {
    match d.authorized(
        operator,
        ClaimType::PermissionlessWithStaking,
        ClaimType::PermissionedWithStaking,
    ) {
        Err(e) => Err(e),
        Ok(_) => if escrow_is_max_lock {
            Ok(())
        } else {
            Err(ErrorCode::EscrowIsNotMaxLock)
        },
    }
}

/// Outcome of a withdrawal of vested locked tokens: the distributor and the
/// claim record after it and the amount withdrawn, or the first check that
/// fails.
pub open spec fn claim_locked_outcome(
    d: MerkleDistributor,
    status: ClaimStatus,
    linked: bool,
    auth: Result<(), ErrorCode>,
    clock: Clock,
) -> Result<(MerkleDistributor, ClaimStatus, u64), ErrorCode> {
    if !linked {
        Err(ErrorCode::Unauthorized)
    } else if d.is_clawed_back() {
        Err(ErrorCode::ClaimExpired)
    } else {
        match auth {
            Err(e) => Err(e),
            Ok(_) => match d.activation_handler(clock) {
                Err(e) => Err(e),
                Ok(handler) => if !handler.claim_open() {
                    Err(ErrorCode::ClaimingIsNotStarted)
                } else {
                    match status.withdrawable(clock.unix_timestamp, d.start_ts, d.end_ts) {
                        Err(e) => Err(e),
                        Ok(amount) => if amount == 0 {
                            Err(ErrorCode::InsufficientUnlockedTokens)
                        } else if status.locked_amount_withdrawn + amount > u64::MAX {
                            Err(ErrorCode::ArithmeticError)
                        } else if status.locked_amount_withdrawn + amount > status.locked_amount {
                            Err(ErrorCode::ExceededMaxClaim)
                        } else if d.total_amount_claimed + amount > u64::MAX {
                            Err(ErrorCode::ArithmeticError)
                        } else if d.total_amount_claimed + amount > d.max_total_claim {
                            Err(ErrorCode::ExceededMaxClaim)
                        } else {
                            Ok(
                                (
                                    MerkleDistributor {
                                        total_amount_claimed: (d.total_amount_claimed
                                            + amount) as u64,
                                        ..d
                                    },
                                    ClaimStatus {
                                        locked_amount_withdrawn: (status.locked_amount_withdrawn
                                            + amount) as u64,
                                        ..status
                                    },
                                    amount,
                                ),
                            )
                        },
                    }
                },
            },
        }
    }
}

/// Whether a claim record belongs to the given claimant and distributor.
pub open spec fn claim_linked(status: ClaimStatus, claimant: Seq<u8>, distributor_key: Seq<u8>) -> bool {
    status.claimant@ == claimant && status.distributor@ == distributor_key
}

/// One attempt to claim, with everything that decides its outcome.
pub enum ClaimEvent {
    /// An attempt to create a claim
    New {
        request: NewClaimRequest,
        already_claimed: bool,
        tree_linked: bool,
        auth: Result<(), ErrorCode>,
        proof_accepted: bool,
    },
    /// An attempt to withdraw vested locked tokens
    Locked { status: ClaimStatus, linked: bool, auth: Result<(), ErrorCode>, clock: Clock },
}

/// The distributor after one attempt: changed as the outcome says, or
/// untouched where the attempt fails.
pub open spec fn after_event(d: MerkleDistributor, event: ClaimEvent) -> MerkleDistributor {
    match event {
        ClaimEvent::New { request, already_claimed, tree_linked, auth, proof_accepted } => {
            match new_claim_outcome(
                d,
                request,
                already_claimed,
                tree_linked,
                auth,
                proof_accepted,
            ) {
                Ok(done) => done.0,
                Err(_) => d,
            }
        },
        ClaimEvent::Locked { status, linked, auth, clock } => {
            match claim_locked_outcome(d, status, linked, auth, clock) {
                Ok(done) => done.0,
                Err(_) => d,
            }
        },
    }
}

/// The distributor after a series of attempts.
pub open spec fn after_events(d: MerkleDistributor, events: Seq<ClaimEvent>) -> MerkleDistributor
    decreases events.len(),
{
    if events.len() == 0 {
        d
    } else {
        after_event(after_events(d, events.drop_last()), events.last())
    }
}

/// Whether the claimed totals of a distributor are within their ceilings.
pub open spec fn within_ceilings(d: MerkleDistributor) -> bool {
    d.total_amount_claimed <= d.max_total_claim && d.num_nodes_claimed <= d.max_num_nodes
}

/// No series of claims and withdrawals, in whatever order and whether they
/// succeed or fail, drives the claimed amount above the maximum total claim
/// or the number of claimed nodes above the maximum number of nodes; the
/// ceilings themselves stay as they are.
pub proof fn law_ceilings_hold(d: MerkleDistributor, events: Seq<ClaimEvent>)
    requires
        within_ceilings(d),
    ensures
        within_ceilings(after_events(d, events)),
        after_events(d, events).max_total_claim == d.max_total_claim,
        after_events(d, events).max_num_nodes == d.max_num_nodes,
        after_events(d, events).total_amount_claimed >= d.total_amount_claimed,
        after_events(d, events).num_nodes_claimed >= d.num_nodes_claimed,
    decreases events.len(),
{
    if events.len() > 0 {
        law_ceilings_hold(d, events.drop_last());
    }
}

/// A claim can be created once: after a claim has been created and recorded,
/// every further attempt of the same claimant on the same distributor is
/// refused as existing already, whatever else it brings. The claim that
/// succeeded raised the claimed total by its unlocked amount and its bonus,
/// and the number of claimed nodes by one.
pub proof fn law_claim_exactly_once(
    d: MerkleDistributor,
    records: Seq<ClaimStatus>,
    first: NewClaimRequest,
    first_linked: bool,
    first_auth: Result<(), ErrorCode>,
    first_proof_accepted: bool,
    second: NewClaimRequest,
    second_linked: bool,
    second_auth: Result<(), ErrorCode>,
    second_proof_accepted: bool,
)
    requires
        second.claimant@ == first.claimant@,
        second.distributor_key@ == first.distributor_key@,
        new_claim_outcome(
            d,
            first,
            holds_claim(records, first.claimant@, first.distributor_key@),
            first_linked,
            first_auth,
            first_proof_accepted,
        ).is_ok(),
    ensures
        ({
            let done = new_claim_outcome(
                d,
                first,
                holds_claim(records, first.claimant@, first.distributor_key@),
                first_linked,
                first_auth,
                first_proof_accepted,
            ).unwrap();
            &&& new_claim_outcome(
                done.0,
                second,
                holds_claim(records.push(done.1), second.claimant@, second.distributor_key@),
                second_linked,
                second_auth,
                second_proof_accepted,
            ) == Err::<(MerkleDistributor, ClaimStatus), ErrorCode>(ErrorCode::ClaimAlreadyExists)
            &&& done.0.total_amount_claimed == d.total_amount_claimed + done.1.unlocked_amount
                + done.1.bonus_amount
            &&& done.1.unlocked_amount == first.amount_unlocked
            &&& done.0.num_nodes_claimed == d.num_nodes_claimed + 1
        }),
{
    let done = new_claim_outcome(
        d,
        first,
        holds_claim(records, first.claimant@, first.distributor_key@),
        first_linked,
        first_auth,
        first_proof_accepted,
    ).unwrap();
    let grown = records.push(done.1);
    assert(grown[records.len() as int].claimant@ == second.claimant@);
    assert(holds_claim(grown, second.claimant@, second.distributor_key@));
}

/// Once a distributor has been clawed back, no claim is created on it and
/// nothing is withdrawn from it: every attempt fails and leaves it as it
/// was. No attempt, before or after, changes whether it is clawed back.
pub proof fn law_clawback_blocks_claims(d: MerkleDistributor, event: ClaimEvent)
    ensures
        after_event(d, event).clawed_back == d.clawed_back,
        d.is_clawed_back() ==> after_event(d, event) == d && match event {
            ClaimEvent::New { request, already_claimed, tree_linked, auth, proof_accepted } => {
                new_claim_outcome(
                    d,
                    request,
                    already_claimed,
                    tree_linked,
                    auth,
                    proof_accepted,
                ).is_err()
            },
            ClaimEvent::Locked { status, linked, auth, clock } => {
                claim_locked_outcome(d, status, linked, auth, clock).is_err()
            },
        },
{
}

/// A withdrawal that succeeds takes a positive amount, raises what the claim
/// has withdrawn by that amount without passing the claim's locked amount,
/// and raises the distributor's claimed total by the same amount.
pub proof fn law_withdrawals_stay_within_locked(
    d: MerkleDistributor,
    status: ClaimStatus,
    linked: bool,
    auth: Result<(), ErrorCode>,
    clock: Clock,
)
    requires
        claim_locked_outcome(d, status, linked, auth, clock).is_ok(),
    ensures
        ({
            let done = claim_locked_outcome(d, status, linked, auth, clock).unwrap();
            &&& done.2 > 0
            &&& done.1.locked_amount_withdrawn == status.locked_amount_withdrawn + done.2
            &&& done.1.locked_amount_withdrawn <= status.locked_amount
            &&& done.1.locked_amount == status.locked_amount
            &&& done.0.total_amount_claimed == d.total_amount_claimed + done.2
            &&& done.0.total_amount_claimed <= d.max_total_claim
        }),
{
}

/// The checks before the proof, as `claim_admitted` states them.
fn admit_claim(
    distributor: &MerkleDistributor,
    clock: &Clock,
    already_claimed: bool,
    tree_linked: bool,
    auth: Result<(), ErrorCode>,
) -> (r: Result<ActivationHandler, ErrorCode>)
    ensures
        r == claim_admitted(*distributor, *clock, already_claimed, tree_linked, auth),
{
    if already_claimed {
        return Err(ErrorCode::ClaimAlreadyExists);
    }
    if !tree_linked {
        return Err(ErrorCode::InvalidAccount);
    }
    if distributor.clawed_back() {
        return Err(ErrorCode::ClaimExpired);
    }
    match auth {
        Err(e) => {
            return Err(e);
        },
        Ok(_) => {},
    }
    let handler = match distributor.get_activation_handler(clock) {
        Ok(h) => h,
        Err(e) => {
            return Err(e);
        },
    };
    match handler.validate_claim() {
        Ok(_) => {},
        Err(e) => {
            return Err(e);
        },
    }
    if distributor.num_nodes_claimed == u64::MAX {
        return Err(ErrorCode::ArithmeticError);
    }
    if distributor.num_nodes_claimed + 1 > distributor.max_num_nodes {
        return Err(ErrorCode::MaxNodesExceeded);
    }
    Ok(handler)
}

/// Forms the claim record and the new totals, as `claim_settled` states
/// them.
fn settle_claim(
    distributor: &MerkleDistributor,
    request: &NewClaimRequest,
    handler: &ActivationHandler,
) -> (r: Result<(MerkleDistributor, ClaimStatus), ErrorCode>)
    requires
        distributor.num_nodes_claimed < u64::MAX,
    ensures
        r == claim_settled(*distributor, *request, *handler),
{
    let bonus = match distributor.get_bonus_for_a_claimaint(request.amount_unlocked, handler) {
        Ok(b) => b,
        Err(e) => {
            return Err(e);
        },
    };
    let status = ClaimStatus {
        admin: distributor.admin,
        distributor: request.distributor_key,
        claimant: request.claimant,
        locked_amount: request.amount_locked,
        locked_amount_withdrawn: 0,
        unlocked_amount: request.amount_unlocked,
        bonus_amount: bonus,
        closable: distributor.closable,
    };
    let amount_with_bonus = match status.get_total_unlocked_amount() {
        Ok(a) => a,
        Err(e) => {
            return Err(e);
        },
    };
    if amount_with_bonus > u64::MAX - distributor.total_amount_claimed {
        return Err(ErrorCode::ArithmeticError);
    }
    let mut updated: MerkleDistributor = *distributor;
    updated.num_nodes_claimed = distributor.num_nodes_claimed + 1;
    updated.total_amount_claimed = distributor.total_amount_claimed + amount_with_bonus;
    match updated.accumulate_bonus(bonus) {
        Ok(_) => {},
        Err(e) => {
            return Err(e);
        },
    }
    if updated.total_amount_claimed > updated.max_total_claim {
        return Err(ErrorCode::ExceededMaxClaim);
    }
    Ok((updated, status))
}

/// Initializes a new claim from the distributor, against its root.
/// 1. Increments num_nodes_claimed by 1
/// 2. Records the claim
/// 3. Returns the unlocked amount with the vested bonus, to be transferred
///    to the claimant
/// 4. Increments total_amount_claimed by that amount
///
/// A claim that fails any check changes nothing.
pub fn handle_new_claim(
    distributor: &mut MerkleDistributor,
    ledger: &mut ClaimLedger,
    request: &NewClaimRequest,
    proof: Vec<[u8; 32]>,
) -> (r: Result<u64, ErrorCode>)
    requires
        old(ledger).wf(),
    ensures
        final(ledger).wf(),
        match new_claim_outcome(
            *old(distributor),
            *request,
            old(ledger).has_claim(request.claimant@, request.distributor_key@),
            true,
            old(distributor).authorized(
                request.operator,
                ClaimType::Permissionless,
                ClaimType::Permissioned,
            ),
            full_accepts(
                views(proof@),
                old(distributor).root@,
                leaf_digest_of(request.claimant@, request.amount_unlocked, request.amount_locked),
            ),
        ) {
            Ok(done) => r == Ok::<u64, ErrorCode>(
                (done.1.unlocked_amount + done.1.bonus_amount) as u64,
            ) && *final(distributor) == done.0 && final(ledger)@ == old(ledger)@.push(done.1),
            Err(e) => r == Err::<u64, ErrorCode>(e) && *final(distributor) == *old(distributor)
                && final(ledger)@ == old(ledger)@,
        },
{
    let already = ledger.find(&request.claimant, &request.distributor_key).is_some();
    let auth = distributor.authorize_claim(&request.operator);
    let handler = match admit_claim(distributor, &request.clock, already, true, auth) {
        Ok(h) => h,
        Err(e) => {
            return Err(e);
        },
    };
    let node = leaf_digest(&request.claimant, request.amount_unlocked, request.amount_locked);
    if !verify(proof, distributor.root, node) {
        return Err(ErrorCode::InvalidProof);
    }
    let (updated, status) = match settle_claim(distributor, request, &handler) {
        Ok(done) => done,
        Err(e) => {
            return Err(e);
        },
    };
    let created = ledger.create(status);
    assert(created.is_ok());
    *distributor = updated;
    Ok(status.unlocked_amount + status.bonus_amount)
}

/// Initializes a new claim that is staked at once, against the stored part
/// of the tree. The checks are those of a plain claim, with a stored tree
/// that must be the distributor's, the staking claim types, an escrow that
/// must be locked at the maximum, and a short proof that is verified against
/// the stored nodes.
///
/// A claim that fails any check changes nothing.
pub fn handle_new_claim_and_stake(
    distributor: &mut MerkleDistributor,
    ledger: &mut ClaimLedger,
    partial_merkle_tree: &PartialMerkleTree,
    request: &NewClaimRequest,
    escrow_is_max_lock: bool,
    proof: Vec<[u8; 32]>,
    initial_index: u8,
) -> (r: Result<u64, ErrorCode>)
    requires
        old(ledger).wf(),
    ensures
        final(ledger).wf(),
        match new_claim_outcome(
            *old(distributor),
            *request,
            old(ledger).has_claim(request.claimant@, request.distributor_key@),
            partial_merkle_tree.distributor@ == request.distributor_key@,
            stake_authorized(*old(distributor), request.operator, escrow_is_max_lock),
            partial_accepts(
                partial_merkle_tree.root@,
                leaf_digest_of(request.claimant@, request.amount_unlocked, request.amount_locked),
                partial_merkle_tree.depth as nat,
                initial_index as nat,
                views(proof@),
                views(partial_merkle_tree.nodes@),
            ),
        ) {
            Ok(done) => r == Ok::<u64, ErrorCode>(
                (done.1.unlocked_amount + done.1.bonus_amount) as u64,
            ) && *final(distributor) == done.0 && final(ledger)@ == old(ledger)@.push(done.1),
            Err(e) => r == Err::<u64, ErrorCode>(e) && *final(distributor) == *old(distributor)
                && final(ledger)@ == old(ledger)@,
        },
{
    let already = ledger.find(&request.claimant, &request.distributor_key).is_some();
    let auth = match distributor.authorize_claim_and_stake(&request.operator) {
        Err(e) => Err(e),
        Ok(_) => if escrow_is_max_lock {
            Ok(())
        } else {
            Err(ErrorCode::EscrowIsNotMaxLock)
        },
    };
    let linked = digest_eq(&partial_merkle_tree.distributor, &request.distributor_key);
    let handler = match admit_claim(distributor, &request.clock, already, linked, auth) {
        Ok(h) => h,
        Err(e) => {
            return Err(e);
        },
    };
    let node = leaf_digest(&request.claimant, request.amount_unlocked, request.amount_locked);
    if !verify_against_stored(
        &partial_merkle_tree.root,
        &node,
        partial_merkle_tree.depth,
        initial_index,
        &proof,
        &partial_merkle_tree.nodes,
    ) {
        return Err(ErrorCode::InvalidProof);
    }
    let (updated, status) = match settle_claim(distributor, request, &handler) {
        Ok(done) => done,
        Err(e) => {
            return Err(e);
        },
    };
    let created = ledger.create(status);
    assert(created.is_ok());
    *distributor = updated;
    Ok(status.unlocked_amount + status.bonus_amount)
}

/// The withdrawal itself, as `claim_locked_outcome` states it.
fn withdraw_locked(
    distributor: &mut MerkleDistributor,
    claim_status: &mut ClaimStatus,
    linked: bool,
    auth: Result<(), ErrorCode>,
    clock: &Clock,
) -> (r: Result<u64, ErrorCode>)
    ensures
        match claim_locked_outcome(*old(distributor), *old(claim_status), linked, auth, *clock) {
            Ok(done) => r == Ok::<u64, ErrorCode>(done.2) && *final(distributor) == done.0
                && *final(claim_status) == done.1,
            Err(e) => r == Err::<u64, ErrorCode>(e) && *final(distributor) == *old(distributor)
                && *final(claim_status) == *old(claim_status),
        },
{
    if !linked {
        return Err(ErrorCode::Unauthorized);
    }
    if distributor.clawed_back() {
        return Err(ErrorCode::ClaimExpired);
    }
    match auth {
        Err(e) => {
            return Err(e);
        },
        Ok(_) => {},
    }
    let handler = match distributor.get_activation_handler(clock) {
        Ok(h) => h,
        Err(e) => {
            return Err(e);
        },
    };
    match handler.validate_claim() {
        Ok(_) => {},
        Err(e) => {
            return Err(e);
        },
    }
    let amount = match claim_status.amount_withdrawable(
        clock.unix_timestamp,
        distributor.start_ts,
        distributor.end_ts,
    ) {
        Ok(a) => a,
        Err(e) => {
            return Err(e);
        },
    };
    if amount == 0 {
        return Err(ErrorCode::InsufficientUnlockedTokens);
    }
    if amount > u64::MAX - claim_status.locked_amount_withdrawn {
        return Err(ErrorCode::ArithmeticError);
    }
    let withdrawn: u64 = claim_status.locked_amount_withdrawn + amount;
    if withdrawn > claim_status.locked_amount {
        return Err(ErrorCode::ExceededMaxClaim);
    }
    if amount > u64::MAX - distributor.total_amount_claimed {
        return Err(ErrorCode::ArithmeticError);
    }
    let total: u64 = distributor.total_amount_claimed + amount;
    if total > distributor.max_total_claim {
        return Err(ErrorCode::ExceededMaxClaim);
    }
    claim_status.locked_amount_withdrawn = withdrawn;
    distributor.total_amount_claimed = total;
    Ok(amount)
}

/// Claim locked tokens as they become unlocked. Returns the amount to be
/// transferred to the claimant.
/// Check:
///     1. The claim record is that of the claimant on this distributor
///     2. The distributor has not been clawed back and claiming is open
///     3. The withdraw-able amount is greater than 0
///     4. The locked amount withdrawn is ≤ than the locked amount
///     5. The distributor amount claimed is ≤ than the max total claim
///
/// A withdrawal that fails any check changes nothing.
pub fn handle_claim_locked(
    distributor: &mut MerkleDistributor,
    claim_status: &mut ClaimStatus,
    distributor_key: &[u8; 32],
    claimant: &[u8; 32],
    operator: &Option<[u8; 32]>,
    clock: &Clock,
) -> (r: Result<u64, ErrorCode>)
    ensures
        match claim_locked_outcome(
            *old(distributor),
            *old(claim_status),
            claim_linked(*old(claim_status), claimant@, distributor_key@),
            old(distributor).authorized(
                *operator,
                ClaimType::Permissionless,
                ClaimType::Permissioned,
            ),
            *clock,
        ) {
            Ok(done) => r == Ok::<u64, ErrorCode>(done.2) && *final(distributor) == done.0
                && *final(claim_status) == done.1,
            Err(e) => r == Err::<u64, ErrorCode>(e) && *final(distributor) == *old(distributor)
                && *final(claim_status) == *old(claim_status),
        },
{
    let linked = digest_eq(&claim_status.claimant, claimant) && digest_eq(
        &claim_status.distributor,
        distributor_key,
    );
    let auth = distributor.authorize_claim(operator);
    withdraw_locked(distributor, claim_status, linked, auth, clock)
}

/// Claim locked tokens as they become unlocked, to be staked at once.
/// The checks are those of a plain withdrawal, with the staking claim types
/// and an escrow that must be locked at the maximum.
///
/// A withdrawal that fails any check changes nothing.
pub fn handle_claim_locked_and_stake(
    distributor: &mut MerkleDistributor,
    claim_status: &mut ClaimStatus,
    distributor_key: &[u8; 32],
    claimant: &[u8; 32],
    operator: &Option<[u8; 32]>,
    escrow_is_max_lock: bool,
    clock: &Clock,
) -> (r: Result<u64, ErrorCode>)
    ensures
        match claim_locked_outcome(
            *old(distributor),
            *old(claim_status),
            claim_linked(*old(claim_status), claimant@, distributor_key@),
            stake_authorized(*old(distributor), *operator, escrow_is_max_lock),
            *clock,
        ) {
            Ok(done) => r == Ok::<u64, ErrorCode>(done.2) && *final(distributor) == done.0
                && *final(claim_status) == done.1,
            Err(e) => r == Err::<u64, ErrorCode>(e) && *final(distributor) == *old(distributor)
                && *final(claim_status) == *old(claim_status),
        },
{
    let linked = digest_eq(&claim_status.claimant, claimant) && digest_eq(
        &claim_status.distributor,
        distributor_key,
    );
    let auth = match distributor.authorize_claim_and_stake(operator) {
        Err(e) => Err(e),
        Ok(_) => if escrow_is_max_lock {
            Ok(())
        } else {
            Err(ErrorCode::EscrowIsNotMaxLock)
        },
    };
    withdraw_locked(distributor, claim_status, linked, auth, clock)
}

} // verus!
