//! The parent account that tops up the vaults of its distributors.

use vstd::prelude::*;
use crate::error::ErrorCode;

verus! {

/// Parent Account: Authority of parent vault use to distribute fund to all
/// distributors
#[derive(Copy, Clone, Debug)]
pub struct ParentAccount {
    /// Bump seed.
    pub bump: u8,
    /// Admin of merkle tree, store for for testing purpose
    pub admin: [u8; 32],
    /// Mint of the token to be distributed.
    pub mint: [u8; 32],
    /// Token Address of parent vault
    pub parent_vault: [u8; 32],
    /// Total amount moved out of the parent vault so far
    pub total_distributed: u64,
}

impl ParentAccount {
    /// Adds `amount` to the running total of what was distributed.
    pub fn accumulate_distribution(&mut self, amount: u64) -> (r: Result<(), ErrorCode>)
        ensures
            old(self).total_distributed + amount <= u64::MAX ==> r.is_ok() && *final(self) == (
            ParentAccount {
                total_distributed: (old(self).total_distributed + amount) as u64,
                ..*old(self)
            }),
            old(self).total_distributed + amount > u64::MAX ==> r == Err::<(), ErrorCode>(
                ErrorCode::ArithmeticError,
            ) && *final(self) == *old(self),
    {
        if amount > u64::MAX - self.total_distributed {
            return Err(ErrorCode::ArithmeticError);
        }
        self.total_distributed = self.total_distributed + amount;
        Ok(())
    }
}

} // verus!
