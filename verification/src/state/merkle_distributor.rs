//! The record of one distribution, its activation and its bonus pool.

use vstd::prelude::*;
use crate::digest::digest_eq;
use crate::error::ErrorCode;
use crate::math::{lemma_share_bounded, lemma_share_monotone, mul_div, mul_div_floor};

verus! {

/// Type of the activation
#[derive(Copy, Clone, Debug, PartialEq, Eq, Structural)]
pub enum ActivationType {
    Slot,
    Timestamp,
}

/// Who may create a claim, and whether the claim is staked
#[derive(Copy, Clone, Debug, PartialEq, Eq, Structural)]
pub enum ClaimType {
    /// 0
    Permissionless,
    /// 1, require double signing
    Permissioned,
    /// 2, claim and staking
    PermissionlessWithStaking,
    /// 3, require double signing
    PermissionedWithStaking,
}

impl ActivationType {
    /// The activation type that a stored tag stands for.
    pub open spec fn of_tag(tag: u8) -> Option<ActivationType> {
        if tag == 0 {
            Some(ActivationType::Slot)
        } else if tag == 1 {
            Some(ActivationType::Timestamp)
        } else {
            None
        }
    }

    /// Decodes a stored tag; an unknown tag is no activation type.
    pub fn try_from_u8(tag: u8) -> (r: Option<ActivationType>)
        ensures
            r == Self::of_tag(tag),
    {
        if tag == 0 {
            Some(ActivationType::Slot)
        } else if tag == 1 {
            Some(ActivationType::Timestamp)
        } else {
            None
        }
    }

    /// The tag under which this activation type is stored.
    pub fn to_u8(self) -> (tag: u8)
        ensures
            Self::of_tag(tag) == Some(self),
    {
        match self {
            ActivationType::Slot => 0,
            ActivationType::Timestamp => 1,
        }
    }
}

impl ClaimType {
    /// The claim type that a stored tag stands for.
    pub open spec fn of_tag(tag: u8) -> Option<ClaimType> {
        if tag == 0 {
            Some(ClaimType::Permissionless)
        } else if tag == 1 {
            Some(ClaimType::Permissioned)
        } else if tag == 2 {
            Some(ClaimType::PermissionlessWithStaking)
        } else if tag == 3 {
            Some(ClaimType::PermissionedWithStaking)
        } else {
            None
        }
    }

    /// Decodes a stored tag; an unknown tag is no claim type.
    pub fn try_from_u8(tag: u8) -> (r: Option<ClaimType>)
        ensures
            r == Self::of_tag(tag),
    {
        if tag == 0 {
            Some(ClaimType::Permissionless)
        } else if tag == 1 {
            Some(ClaimType::Permissioned)
        } else if tag == 2 {
            Some(ClaimType::PermissionlessWithStaking)
        } else if tag == 3 {
            Some(ClaimType::PermissionedWithStaking)
        } else {
            None
        }
    }

    /// The tag under which this claim type is stored.
    pub fn to_u8(self) -> (tag: u8)
        ensures
            Self::of_tag(tag) == Some(self),
    {
        match self {
            ClaimType::Permissionless => 0,
            ClaimType::Permissioned => 1,
            ClaimType::PermissionlessWithStaking => 2,
            ClaimType::PermissionedWithStaking => 3,
        }
    }
}

/// The two readings of the clock that a transition may consult.
#[derive(Copy, Clone, Debug)]
pub struct Clock {
    /// Current slot
    pub slot: u64,
    /// Current time (Unix Timestamp)
    pub unix_timestamp: i64,
}

/// Bonus pool of a distribution.
#[derive(Copy, Clone, Debug)]
pub struct AirdropBonus {
    /// total bonus
    pub total_bonus: u64,
    /// vesting duration
    pub vesting_duration: u64,
    /// total bonus claimed so far
    pub total_claimed_bonus: u64,
}

/// State for the account which distributes tokens.
#[derive(Copy, Clone, Debug)]
pub struct MerkleDistributor {
    /// The 256-bit merkle root.
    pub root: [u8; 32],
    /// Mint of the token to be distributed.
    pub mint: [u8; 32],
    /// base key of distributor.
    pub base: [u8; 32],
    /// Token Address of the vault
    pub token_vault: [u8; 32],
    /// Clawback receiver
    pub clawback_receiver: [u8; 32],
    /// Admin wallet
    pub admin: [u8; 32],
    /// locker, for claim type claim and stake
    pub locker: [u8; 32],
    /// operator for signing in permissioned merkle tree
    pub operator: [u8; 32],
    /// Distributor root that funds this distributor
    pub distributor_root: [u8; 32],
    /// Parent account that funds this distributor
    pub parent_account: [u8; 32],
    /// Version of the airdrop
    pub version: u64,
    /// Maximum number of tokens that can ever be claimed from this distributor.
    pub max_total_claim: u64,
    /// Maximum number of nodes in the distributor.
    pub max_num_nodes: u64,
    /// Total amount of tokens that have been claimed.
    pub total_amount_claimed: u64,
    /// Number of nodes that have been claimed.
    pub num_nodes_claimed: u64,
    /// Amount that the distributor root has moved into the vault.
    pub funded_amount: u64,
    /// Lockup time start (Unix Timestamp)
    pub start_ts: i64,
    /// Lockup time end (Unix Timestamp)
    pub end_ts: i64,
    /// Clawback start (Unix Timestamp)
    pub clawback_start_ts: i64,
    /// this merkle tree is activated from this slot or timestamp
    pub activation_point: u64,
    /// activation type, 0 means slot, 1 means timestamp
    pub activation_type: u8,
    /// claim type
    pub claim_type: u8,
    /// Bump seed.
    pub bump: u8,
    /// Whether or not the distributor has been clawed back
    pub clawed_back: u8,
    /// indicate that whether admin can close this pool, for testing purpose
    pub closable: u8,
    /// bonus pool
    pub airdrop_bonus: AirdropBonus,
}

/// What a claim is checked against: the clock, the activation point and the
/// bonus pool.
#[derive(Copy, Clone, Debug)]
pub struct ActivationHandler {
    /// current slot or current timestamp
    pub curr_point: u64,
    /// activation slot or activation timestamp
    pub activation_point: u64,
    /// bonus pool
    pub airdrop_bonus: AirdropBonus,
}

/// A timestamp read as an unsigned clock point: a negative one wraps around.
pub open spec fn timestamp_point(ts: i64) -> u64 {
    if ts >= 0 {
        ts as u64
    } else {
        (ts + 0x1_0000_0000_0000_0000) as u64
    }
}

/// The clock point that counts for an activation type.
pub open spec fn clock_point(kind: ActivationType, clock: Clock) -> u64 {
    match kind {
        ActivationType::Slot => clock.slot,
        ActivationType::Timestamp => timestamp_point(clock.unix_timestamp),
    }
}

/// Part of `max_bonus` that has vested at clock point `curr`, vesting
/// linearly from `start` over `duration`.
pub open spec fn vested(max_bonus: nat, start: nat, duration: nat, curr: nat) -> nat {
    if curr < start {
        0
    } else if curr >= start + duration {
        max_bonus
    } else {
        mul_div_floor((curr - start) as nat, max_bonus, duration)
    }
}

/// The vested part never exceeds the whole.
pub proof fn lemma_vested_bounded(max_bonus: nat, start: nat, duration: nat, curr: nat)
    ensures
        vested(max_bonus, start, duration, curr) <= max_bonus,
{
    if start <= curr < start + duration {
        lemma_share_bounded((curr - start) as nat, max_bonus, duration);
    }
}

/// For fixed bonus, activation point and duration, the vested part does not
/// shrink as the clock advances; it is nothing before activation and
/// everything once the duration has passed.
pub proof fn law_vesting_monotone(
    max_bonus: nat,
    start: nat,
    duration: nat,
    earlier: nat,
    later: nat,
)
    requires
        earlier <= later,
    ensures
        vested(max_bonus, start, duration, earlier) <= vested(max_bonus, start, duration, later),
        earlier < start ==> vested(max_bonus, start, duration, earlier) == 0,
        later >= start + duration ==> vested(max_bonus, start, duration, later) == max_bonus,
{
    lemma_vested_bounded(max_bonus, start, duration, earlier);
    if start <= earlier && later < start + duration {
        lemma_share_monotone((earlier - start) as nat, (later - start) as nat, max_bonus, duration);
    }
}

impl ActivationHandler {
    /// Whether claiming has started.
    pub open spec fn claim_open(&self) -> bool {
        self.activation_point <= self.curr_point
    }

    /// The bonus that has vested out of `max_bonus` at the current point. It
    /// is defined at every point: the end of the vesting is formed without a
    /// bound, so that an end beyond 64 bits is simply never reached.
    pub open spec fn vested_bonus(&self, max_bonus: u64) -> Result<u64, ErrorCode> {
        Ok(
            vested(
                max_bonus as nat,
                self.activation_point as nat,
                self.airdrop_bonus.vesting_duration as nat,
                self.curr_point as nat,
            ) as u64,
        )
    }

    /// Refuses a claim made before the activation point.
    pub fn validate_claim(&self) -> (r: Result<(), ErrorCode>)
        ensures
            r == if self.claim_open() {
                Ok::<(), ErrorCode>(())
            } else {
                Err(ErrorCode::ClaimingIsNotStarted)
            },
    {
        if self.activation_point <= self.curr_point {
            Ok(())
        } else {
            Err(ErrorCode::ClaimingIsNotStarted)
        }
    }

    /// The part of `max_bonus` that has vested at the current point: nothing
    /// before the activation point, all of it once the vesting duration has
    /// passed, and the linear share in between. It never fails.
    pub fn get_bonus_for_a_claimaint(&self, max_bonus: u64) -> (r: Result<u64, ErrorCode>)
        ensures
            r == self.vested_bonus(max_bonus),
            self.curr_point < self.activation_point ==> r == Ok::<u64, ErrorCode>(0),
            self.curr_point >= self.activation_point + self.airdrop_bonus.vesting_duration ==> r
                == Ok::<u64, ErrorCode>(max_bonus),
    {
        let curr_point = self.curr_point;
        let start_point = self.activation_point;
        let duration = self.airdrop_bonus.vesting_duration;
        let end_point: u128 = start_point as u128 + duration as u128;
        proof {
            lemma_vested_bounded(
                max_bonus as nat,
                start_point as nat,
                duration as nat,
                curr_point as nat,
            );
        }
        if curr_point >= start_point {
            if curr_point as u128 >= end_point {
                Ok(max_bonus)
            } else {
                let duration_into_unlock: u64 = curr_point - start_point;
                let amount = mul_div(duration_into_unlock, max_bonus, duration);
                Ok(amount as u64)
            }
        } else {
            Ok(0)
        }
    }
}

impl MerkleDistributor {
    /// Whether the distributor has been clawed back.
    pub open spec fn is_clawed_back(&self) -> bool {
        self.clawed_back == 1
    }

    /// The handler for the given clock, or the error for an unknown
    /// activation type.
    pub open spec fn activation_handler(&self, clock: Clock) -> Result<
        ActivationHandler,
        ErrorCode,
    > {
        match ActivationType::of_tag(self.activation_type) {
            Some(kind) => Ok(
                ActivationHandler {
                    curr_point: clock_point(kind, clock),
                    activation_point: self.activation_point,
                    airdrop_bonus: self.airdrop_bonus,
                },
            ),
            None => Err(ErrorCode::InvalidActivationType),
        }
    }

    /// The claimant's share of the bonus pool, in proportion to the unlocked
    /// amount, or the error where it cannot be formed.
    pub open spec fn max_bonus(&self, unlocked_amount: u64) -> Result<u64, ErrorCode> {
        let total_bonus = self.airdrop_bonus.total_bonus;
        if self.max_total_claim <= total_bonus {
            Err(ErrorCode::ArithmeticError)
        } else {
            let share = mul_div_floor(
                unlocked_amount as nat,
                total_bonus as nat,
                (self.max_total_claim - total_bonus) as nat,
            );
            if share > u64::MAX {
                Err(ErrorCode::ArithmeticError)
            } else {
                Ok(share as u64)
            }
        }
    }

    /// The bonus of a claimant: the share of the pool, as far as it has
    /// vested.
    pub open spec fn bonus(&self, unlocked_amount: u64, handler: ActivationHandler) -> Result<
        u64,
        ErrorCode,
    > {
        match self.max_bonus(unlocked_amount) {
            Ok(max_bonus) => handler.vested_bonus(max_bonus),
            Err(e) => Err(e),
        }
    }

    /// Whether `operator` may sign for a claim under one of the two claim
    /// types `open_type` (no signature needed) and `signed_type`.
    pub open spec fn authorized(
        &self,
        operator: Option<[u8; 32]>,
        open_type: ClaimType,
        signed_type: ClaimType,
    ) -> Result<(), ErrorCode> {
        match ClaimType::of_tag(self.claim_type) {
            None => Err(ErrorCode::TypeCastedError),
            Some(t) => if t != open_type && t != signed_type {
                Err(ErrorCode::InvalidClaimType)
            } else if t == signed_type {
                match operator {
                    Some(key) => if key@ == self.operator@ {
                        Ok(())
                    } else {
                        Err(ErrorCode::InvalidOperator)
                    },
                    None => Err(ErrorCode::InvalidOperator),
                }
            } else {
                Ok(())
            },
        }
    }

    /// Reads the clock as the distributor's activation type asks.
    pub fn get_activation_handler(&self, clock: &Clock) -> (r: Result<
        ActivationHandler,
        ErrorCode,
    >)
        ensures
            r == self.activation_handler(*clock),
    {
        let curr_point: u64 = match ActivationType::try_from_u8(self.activation_type) {
            None => {
                return Err(ErrorCode::InvalidActivationType);
            },
            Some(ActivationType::Slot) => clock.slot,
            Some(ActivationType::Timestamp) => {
                let ts = clock.unix_timestamp;
                if ts >= 0 {
                    ts as u64
                } else {
                    let below: u64 = (-(ts + 1)) as u64;
                    u64::MAX - below
                }
            },
        };
        Ok(
            ActivationHandler {
                curr_point,
                activation_point: self.activation_point,
                airdrop_bonus: self.airdrop_bonus,
            },
        )
    }

    /// Adds `bonus` to the bonus claimed so far.
    pub fn accumulate_bonus(&mut self, bonus: u64) -> (r: Result<(), ErrorCode>)
        ensures
            old(self).airdrop_bonus.total_claimed_bonus + bonus <= u64::MAX ==> r.is_ok()
                && *final(self) == (MerkleDistributor {
                airdrop_bonus: AirdropBonus {
                    total_claimed_bonus: (old(self).airdrop_bonus.total_claimed_bonus
                        + bonus) as u64,
                    ..old(self).airdrop_bonus
                },
                ..*old(self)
            }),
            old(self).airdrop_bonus.total_claimed_bonus + bonus > u64::MAX ==> r == Err::<
                (),
                ErrorCode,
            >(ErrorCode::ArithmeticError) && *final(self) == *old(self),
    {
        if bonus > u64::MAX - self.airdrop_bonus.total_claimed_bonus {
            return Err(ErrorCode::ArithmeticError);
        }
        self.airdrop_bonus.total_claimed_bonus = self.airdrop_bonus.total_claimed_bonus + bonus;
        Ok(())
    }

    /// The claimant's share of the bonus pool before vesting.
    pub fn get_max_bonus_for_a_claimant(&self, unlocked_amount: u64) -> (r: Result<
        u64,
        ErrorCode,
    >)
        ensures
            r == self.max_bonus(unlocked_amount),
    {
        let total_bonus = self.airdrop_bonus.total_bonus;
        if self.max_total_claim <= total_bonus {
            return Err(ErrorCode::ArithmeticError);
        }
        let without_bonus: u64 = self.max_total_claim - total_bonus;
        let amount = mul_div(unlocked_amount, total_bonus, without_bonus);
        if amount > u64::MAX as u128 {
            Err(ErrorCode::ArithmeticError)
        } else {
            Ok(amount as u64)
        }
    }

    /// The bonus of a claimant at the handler's clock point.
    pub fn get_bonus_for_a_claimaint(
        &self,
        unlocked_amount: u64,
        activation_handler: &ActivationHandler,
    ) -> (r: Result<u64, ErrorCode>)
        ensures
            r == self.bonus(unlocked_amount, *activation_handler),
    {
        match self.get_max_bonus_for_a_claimant(unlocked_amount) {
            Ok(max_bonus) => activation_handler.get_bonus_for_a_claimaint(max_bonus),
            Err(e) => Err(e),
        }
    }

    /// Whether the distributor has been clawed back.
    pub fn clawed_back(&self) -> (r: bool)
        ensures
            r == self.is_clawed_back(),
    {
        self.clawed_back == 1
    }

    /// Marks the distributor as clawed back.
    pub fn set_clawed_back(&mut self)
        ensures
            *final(self) == (MerkleDistributor { clawed_back: 1, ..*old(self) }),
    {
        self.clawed_back = 1;
    }

    /// Whether the admin can close this distributor.
    pub fn closable(&self) -> (r: bool)
        ensures
            r == (self.closable == 1),
    {
        self.closable == 1
    }

    /// Decides whether a claim may be made under the two given claim types.
    fn authorize(
        &self,
        operator: &Option<[u8; 32]>,
        open_type: ClaimType,
        signed_type: ClaimType,
    ) -> (r: Result<(), ErrorCode>)
        ensures
            r == self.authorized(*operator, open_type, signed_type),
    {
        let claim_type = match ClaimType::try_from_u8(self.claim_type) {
            Some(t) => t,
            None => {
                return Err(ErrorCode::TypeCastedError);
            },
        };
        if claim_type != open_type && claim_type != signed_type {
            return Err(ErrorCode::InvalidClaimType);
        }
        if claim_type == signed_type {
            match operator {
                Some(key) => {
                    if !digest_eq(key, &self.operator) {
                        return Err(ErrorCode::InvalidOperator);
                    }
                },
                None => {
                    return Err(ErrorCode::InvalidOperator);
                },
            }
        }
        Ok(())
    }

    /// Checks the claim type of a plain claim, and the operator's signature
    /// where the distributor is permissioned.
    pub fn authorize_claim(&self, operator: &Option<[u8; 32]>) -> (r: Result<(), ErrorCode>)
        ensures
            r == self.authorized(*operator, ClaimType::Permissionless, ClaimType::Permissioned),
    {
        self.authorize(operator, ClaimType::Permissionless, ClaimType::Permissioned)
    }

    /// Checks the claim type of a staked claim, and the operator's signature
    /// where the distributor is permissioned.
    pub fn authorize_claim_and_stake(&self, operator: &Option<[u8; 32]>) -> (r: Result<
        (),
        ErrorCode,
    >)
        ensures
            r == self.authorized(
                *operator,
                ClaimType::PermissionlessWithStaking,
                ClaimType::PermissionedWithStaking,
            ),
    {
        self.authorize(
            operator,
            ClaimType::PermissionlessWithStaking,
            ClaimType::PermissionedWithStaking,
        )
    }
}

} // verus!
