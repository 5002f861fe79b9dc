//! The record of one claim, and the ledger that holds at most one record per
//! claimant and distributor.

use vstd::prelude::*;
use crate::digest::digest_eq;
use crate::error::ErrorCode;
use crate::math::{lemma_share_bounded, mul_div, mul_div_floor};

verus! {

/// Holds whether or not a claimant has claimed tokens.
#[derive(Copy, Clone, Debug)]
pub struct ClaimStatus {
    /// admin of merkle tree, store for for testing purpose
    pub admin: [u8; 32],
    /// distributor
    pub distributor: [u8; 32],
    /// Authority that claimed the tokens.
    pub claimant: [u8; 32],
    /// Locked amount
    pub locked_amount: u64,
    /// Locked amount withdrawn
    pub locked_amount_withdrawn: u64,
    /// Unlocked amount
    pub unlocked_amount: u64,
    /// Bonus amount
    pub bonus_amount: u64,
    /// indicate that whether admin can close this account, for testing purpose
    pub closable: u8,
}

/// Part of `locked` that has vested at time `curr`, vesting linearly from
/// `start` to `end`; an error where the length of the window does not fit
/// the timestamp type.
pub open spec fn vested_locked(locked: u64, start: i64, end: i64, curr: i64) -> Result<
    u64,
    ErrorCode,
> {
    if curr < start {
        Ok(0)
    } else if curr >= end {
        Ok(locked)
    } else if end - start > i64::MAX {
        Err(ErrorCode::ArithmeticError)
    } else {
        Ok(mul_div_floor((curr - start) as nat, locked as nat, (end - start) as nat) as u64)
    }
}

/// The vested part of a locked amount never exceeds that amount.
pub proof fn law_vested_locked_bounded(locked: u64, start: i64, end: i64, curr: i64)
    ensures
        match vested_locked(locked, start, end, curr) {
            Ok(v) => v <= locked,
            Err(_) => true,
        },
{
    if start <= curr < end && end - start <= i64::MAX {
        lemma_share_bounded((curr - start) as nat, locked as nat, (end - start) as nat);
    }
}

impl ClaimStatus {
    /// The locked amount that can be withdrawn at `curr_ts`: what has vested
    /// less what was withdrawn before.
    pub open spec fn withdrawable(&self, curr_ts: i64, start_ts: i64, end_ts: i64) -> Result<
        u64,
        ErrorCode,
    > {
        match vested_locked(self.locked_amount, start_ts, end_ts, curr_ts) {
            Ok(v) => if v >= self.locked_amount_withdrawn {
                Ok((v - self.locked_amount_withdrawn) as u64)
            } else {
                Err(ErrorCode::ArithmeticError)
            },
            Err(e) => Err(e),
        }
    }

    /// Unlocked amount and bonus together.
    pub open spec fn total_unlocked(&self) -> Result<u64, ErrorCode> {
        if self.unlocked_amount + self.bonus_amount <= u64::MAX {
            Ok((self.unlocked_amount + self.bonus_amount) as u64)
        } else {
            Err(ErrorCode::ArithmeticError)
        }
    }

    /// The part of the locked amount that has vested at `curr_ts`.
    pub fn unlocked_amount(&self, curr_ts: i64, start_ts: i64, end_ts: i64) -> (r: Result<
        u64,
        ErrorCode,
    >)
        ensures
            r == vested_locked(self.locked_amount, start_ts, end_ts, curr_ts),
    {
        if curr_ts >= start_ts {
            if curr_ts >= end_ts {
                Ok(self.locked_amount)
            } else {
                let time_into_unlock: i128 = (curr_ts as i128) - (start_ts as i128);
                let total_unlock_time: i128 = (end_ts as i128) - (start_ts as i128);
                if total_unlock_time > i64::MAX as i128 {
                    return Err(ErrorCode::ArithmeticError);
                }
                proof {
                    lemma_share_bounded(
                        time_into_unlock as nat,
                        self.locked_amount as nat,
                        total_unlock_time as nat,
                    );
                }
                let amount = mul_div(
                    time_into_unlock as u64,
                    self.locked_amount,
                    total_unlock_time as u64,
                );
                Ok(amount as u64)
            }
        } else {
            Ok(0)
        }
    }

    /// Returns amount withdrawable, factoring in unlocked tokens and
    /// previous withdraws.
    pub fn amount_withdrawable(&self, curr_ts: i64, start_ts: i64, end_ts: i64) -> (r: Result<
        u64,
        ErrorCode,
    >)
        ensures
            r == self.withdrawable(curr_ts, start_ts, end_ts),
    {
        match self.unlocked_amount(curr_ts, start_ts, end_ts) {
            Ok(v) => {
                if v >= self.locked_amount_withdrawn {
                    Ok(v - self.locked_amount_withdrawn)
                } else {
                    Err(ErrorCode::ArithmeticError)
                }
            },
            Err(e) => Err(e),
        }
    }

    /// The amount paid out when the claim is created.
    pub fn get_total_unlocked_amount(&self) -> (r: Result<u64, ErrorCode>)
        ensures
            r == self.total_unlocked(),
    {
        if self.bonus_amount > u64::MAX - self.unlocked_amount {
            Err(ErrorCode::ArithmeticError)
        } else {
            Ok(self.unlocked_amount + self.bonus_amount)
        }
    }
}

/// Whether a sequence of claim records holds one of `claimant` on
/// `distributor`.
pub open spec fn holds_claim(records: Seq<ClaimStatus>, claimant: Seq<u8>, distributor: Seq<u8>) -> bool {
    exists|i: int|
        0 <= i < records.len() && #[trigger] records[i].claimant@ == claimant
            && records[i].distributor@ == distributor
}

/// The claim records created so far. Records enter it through `create` and
/// change through `update`, so that no claimant ever has two claims on one
/// distributor.
pub struct ClaimLedger {
    records: Vec<ClaimStatus>,
}

impl View for ClaimLedger {
    type V = Seq<ClaimStatus>;

    /// The records, in the order of their creation.
    closed spec fn view(&self) -> Seq<ClaimStatus> {
        self.records@
    }
}

impl ClaimLedger {
    /// Whether the ledger holds a claim of `claimant` on `distributor`.
    pub open spec fn has_claim(&self, claimant: Seq<u8>, distributor: Seq<u8>) -> bool {
        holds_claim(self@, claimant, distributor)
    }

    /// No claimant has two claims on one distributor.
    pub open spec fn wf(&self) -> bool {
        forall|i: int, j: int|
            0 <= i < j < self@.len() ==> !(#[trigger] self@[i].claimant@
                == #[trigger] self@[j].claimant@ && self@[i].distributor@
                == self@[j].distributor@)
    }

    /// A ledger without claims.
    pub fn new() -> (ledger: ClaimLedger)
        ensures
            ledger@.len() == 0,
            ledger.wf(),
    {
        ClaimLedger { records: Vec::new() }
    }

    /// The number of claims.
    pub fn len(&self) -> (n: usize)
        ensures
            n == self@.len(),
    {
        self.records.len()
    }

    /// The claim at position `at`, if there is one.
    pub fn get(&self, at: usize) -> (r: Option<ClaimStatus>)
        ensures
            r == if at < self@.len() {
                Some(self@[at as int])
            } else {
                None
            },
    {
        if at < self.records.len() {
            Some(self.records[at])
        } else {
            None
        }
    }

    /// Position of the claim of `claimant` on `distributor`, if there is one.
    pub fn find(&self, claimant: &[u8; 32], distributor: &[u8; 32]) -> (r: Option<usize>)
        ensures
            match r {
                Some(i) => i < self@.len() && self@[i as int].claimant@ == claimant@
                    && self@[i as int].distributor@ == distributor@,
                None => !self.has_claim(claimant@, distributor@),
            },
    {
        let mut i: usize = 0;
        while i < self.records.len()
            invariant
                i <= self.records@.len(),
                forall|j: int|
                    0 <= j < i ==> !(#[trigger] self.records@[j].claimant@ == claimant@
                        && self.records@[j].distributor@ == distributor@),
            decreases self.records.len() - i,
        {
            if digest_eq(&self.records[i].claimant, claimant) && digest_eq(
                &self.records[i].distributor,
                distributor,
            ) {
                return Some(i);
            }
            i += 1;
        }
        None
    }

    /// Records a new claim. A second claim of the same claimant on the same
    /// distributor is refused and leaves the ledger as it was.
    pub fn create(&mut self, status: ClaimStatus) -> (r: Result<(), ErrorCode>)
        requires
            old(self).wf(),
        ensures
            final(self).wf(),
            old(self).has_claim(status.claimant@, status.distributor@) ==> r == Err::<
                (),
                ErrorCode,
            >(ErrorCode::ClaimAlreadyExists) && final(self)@ == old(self)@,
            !old(self).has_claim(status.claimant@, status.distributor@) ==> r.is_ok()
                && final(self)@ == old(self)@.push(status),
    {
        match self.find(&status.claimant, &status.distributor) {
            Some(_) => Err(ErrorCode::ClaimAlreadyExists),
            None => {
                self.records.push(status);
                Ok(())
            },
        }
    }

    /// Writes back the claim at position `at` after a withdrawal. The new
    /// record must be that of the same claimant on the same distributor;
    /// anything else is refused and leaves the ledger as it was.
    pub fn update(&mut self, at: usize, status: ClaimStatus) -> (r: Result<(), ErrorCode>)
        requires
            old(self).wf(),
        ensures
            final(self).wf(),
            r == if at < old(self)@.len() && claim_keys_equal(old(self)@[at as int], status) {
                Ok::<(), ErrorCode>(())
            } else {
                Err(ErrorCode::InvalidAccount)
            },
            r.is_ok() ==> final(self)@ == old(self)@.update(at as int, status),
            r.is_err() ==> final(self)@ == old(self)@,
    {
        if at >= self.records.len() {
            return Err(ErrorCode::InvalidAccount);
        }
        if !digest_eq(&self.records[at].claimant, &status.claimant) || !digest_eq(
            &self.records[at].distributor,
            &status.distributor,
        ) {
            return Err(ErrorCode::InvalidAccount);
        }
        self.records.set(at, status);
        Ok(())
    }
}

/// Whether two claim records are of the same claimant on the same
/// distributor.
pub open spec fn claim_keys_equal(a: ClaimStatus, b: ClaimStatus) -> bool {
    a.claimant@ == b.claimant@ && a.distributor@ == b.distributor@
}

} // verus!
