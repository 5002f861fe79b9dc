//! Reasons for which a state transition is refused.

use vstd::prelude::*;

verus! {

/// Error codes.
#[derive(Clone, Copy, Debug, PartialEq, Eq, Structural)]
pub enum ErrorCode {
    /// Insufficient unlocked tokens
    InsufficientUnlockedTokens,
    /// Deposit Start too far in future
    StartTooFarInFuture,
    /// Invalid Merkle proof.
    InvalidProof,
    /// Exceeded maximum claim amount
    ExceededMaxClaim,
    /// Exceeded maximum node count
    MaxNodesExceeded,
    /// Account is not authorized to execute this instruction
    Unauthorized,
    /// Token account owner did not match intended owner
    OwnerMismatch,
    /// Clawback cannot be before vesting ends
    ClawbackDuringVesting,
    /// Attempted clawback before start
    ClawbackBeforeStart,
    /// Clawback already claimed
    ClawbackAlreadyClaimed,
    /// Clawback start must be at least one day after vesting end
    InsufficientClawbackDelay,
    /// New and old Clawback receivers are identical
    SameClawbackReceiver,
    /// New and old admin are identical
    SameAdmin,
    /// Claim window expired
    ClaimExpired,
    /// Arithmetic Error (overflow/underflow)
    ArithmeticError,
    /// Start Timestamp cannot be after end Timestamp
    StartTimestampAfterEnd,
    /// Timestamps cannot be in the past
    TimestampsNotInFuture,
    /// Airdrop Version Mismatch
    InvalidVersion,
    /// Claiming is not started
    ClaimingIsNotStarted,
    /// Cannot close distributor
    CannotCloseDistributor,
    /// Cannot close claim status
    CannotCloseClaimStatus,
    /// Invalid activation type
    InvalidActivationType,
    /// Type casted error
    TypeCastedError,
    /// Invalid operator
    InvalidOperator,
    /// Invalid claim type
    InvalidClaimType,
    /// Same operator
    SameOperator,
    /// Invalid locker
    InvalidLocker,
    /// Escrow is not max lock
    EscrowIsNotMaxLock,
    /// Canopy nodes do not fold to the root
    CanopyRootMissMatch,
    /// Remaining accounts do not come in pairs
    InvalidRemainingAccounts,
    /// Account does not match the record that names it
    InvalidAccount,
    /// A claim of this claimant on this distributor exists already
    ClaimAlreadyExists,
    /// Exceeded maximum number of distributors
    MaxDistributorExceeded,
    /// Canopy holds more nodes than its depth allows
    CanopyNodesExceeded,
}

} // verus!
