//! The root account that funds the distributors created under it.

use vstd::prelude::*;
use crate::error::ErrorCode;

verus! {

/// Distributor root: authority of the vault that funds all distributors
/// created under it.
#[derive(Copy, Clone, Debug)]
pub struct DistributorRoot {
    /// Bump seed.
    pub bump: u8,
    /// Mint of the token to be distributed.
    pub mint: [u8; 32],
    /// Base key of distributor root
    pub base: [u8; 32],
    /// Token Address of distributor root vault
    pub distributor_root_vault: [u8; 32],
    /// Max claim amount
    pub max_claim_amount: u64,
    /// Max distributor
    pub max_distributor: u64,
    /// total funded amount
    pub total_funded_amount: u64,
    /// total distributors created
    pub total_distributor_created: u64,
}

/// Amount that one funding call moves: what is still missing up to the
/// ceiling, but no more than the caller offers.
pub open spec fn fund_amount(ceiling: u64, funded: u64, max_amount: u64) -> u64
    recommends
        funded <= ceiling,
{
    if ceiling - funded <= max_amount {
        (ceiling - funded) as u64
    } else {
        max_amount
    }
}

/// Funded total after a series of funding calls, each with its own offer.
pub open spec fn funded_after(ceiling: u64, funded: u64, offers: Seq<u64>) -> u64
    decreases offers.len(),
{
    if offers.len() == 0 {
        funded
    } else {
        let before = funded_after(ceiling, funded, offers.drop_last());
        if before <= ceiling {
            (before + fund_amount(ceiling, before, offers.last())) as u64
        } else {
            before
        }
    }
}

/// However often the root is funded and whatever is offered each time, the
/// funded total stays at or below the ceiling once it is there, and never
/// shrinks.
pub proof fn law_funding_stays_below_ceiling(ceiling: u64, funded: u64, offers: Seq<u64>)
    requires
        funded <= ceiling,
    ensures
        funded <= funded_after(ceiling, funded, offers) <= ceiling,
    decreases offers.len(),
{
    if offers.len() > 0 {
        law_funding_stays_below_ceiling(ceiling, funded, offers.drop_last());
    }
}

/// Once the ceiling is reached, a further funding call moves nothing.
pub proof fn law_funding_idempotent(ceiling: u64, funded: u64, first: u64, second: u64)
    requires
        funded <= ceiling,
        first >= ceiling - funded,
    ensures
        funded_after(ceiling, funded, seq![first, second]) == ceiling,
        funded_after(ceiling, funded, seq![first]) == ceiling,
{
    let one = seq![first];
    let two = seq![first, second];
    assert(one.drop_last() =~= Seq::<u64>::empty());
    assert(two.drop_last() =~= one);
    assert(funded_after(ceiling, funded, one.drop_last()) == funded);
    assert(one.last() == first);
    assert(funded_after(ceiling, funded, one) == ceiling);
    assert(two.last() == second);
    assert(funded_after(ceiling, funded, two.drop_last()) == ceiling);
}

impl DistributorRoot {
    /// Takes from `max_amount` what is still missing up to the ceiling, adds
    /// it to the funded total and returns it. Fails, changing nothing, only
    /// where the funded total is already above the ceiling.
    pub fn get_and_set_fund_amount(&mut self, max_amount: u64) -> (r: Result<u64, ErrorCode>)
        ensures
            old(self).total_funded_amount <= old(self).max_claim_amount ==> r == Ok::<
                u64,
                ErrorCode,
            >(
                fund_amount(old(self).max_claim_amount, old(self).total_funded_amount, max_amount),
            ) && *final(self) == (DistributorRoot {
                total_funded_amount: (old(self).total_funded_amount + fund_amount(
                    old(self).max_claim_amount,
                    old(self).total_funded_amount,
                    max_amount,
                )) as u64,
                ..*old(self)
            }) && final(self).total_funded_amount <= final(self).max_claim_amount,
            old(self).total_funded_amount > old(self).max_claim_amount ==> r == Err::<
                u64,
                ErrorCode,
            >(ErrorCode::ArithmeticError) && *final(self) == *old(self),
    {
        if self.total_funded_amount > self.max_claim_amount {
            return Err(ErrorCode::ArithmeticError);
        }
        let max_amount_should_be_funded: u64 = self.max_claim_amount - self.total_funded_amount;
        let funded_amount: u64 = if max_amount_should_be_funded <= max_amount {
            max_amount_should_be_funded
        } else {
            max_amount
        };
        self.total_funded_amount = self.total_funded_amount + funded_amount;
        Ok(funded_amount)
    }

    /// Counts one more distributor created under this root. The count never
    /// passes the maximum number of distributors: at the maximum the call is
    /// refused and changes nothing.
    pub fn update_new_distributor(&mut self) -> (r: Result<(), ErrorCode>)
        ensures
            r == if old(self).total_distributor_created < old(self).max_distributor {
                Ok::<(), ErrorCode>(())
            } else {
                Err(ErrorCode::MaxDistributorExceeded)
            },
            r.is_ok() ==> *final(self) == (DistributorRoot {
                total_distributor_created: (old(self).total_distributor_created + 1) as u64,
                ..*old(self)
            }) && final(self).total_distributor_created <= final(self).max_distributor,
            r.is_err() ==> *final(self) == *old(self),
    {
        if self.total_distributor_created >= self.max_distributor {
            return Err(ErrorCode::MaxDistributorExceeded);
        }
        self.total_distributor_created = self.total_distributor_created + 1;
        Ok(())
    }
}

/// Count of distributors after a series of attempts to count one more.
pub open spec fn created_after(ceiling: u64, created: u64, attempts: nat) -> u64
    decreases attempts,
{
    if attempts == 0 {
        created
    } else {
        let before = created_after(ceiling, created, (attempts - 1) as nat);
        if before < ceiling {
            (before + 1) as u64
        } else {
            before
        }
    }
}

/// However many distributors are asked for, the count of those created
/// stays at or below the maximum once it is there, and never shrinks.
pub proof fn law_distributor_count_stays_below_ceiling(ceiling: u64, created: u64, attempts: nat)
    requires
        created <= ceiling,
    ensures
        created <= created_after(ceiling, created, attempts) <= ceiling,
    decreases attempts,
{
    if attempts > 0 {
        law_distributor_count_stays_below_ceiling(ceiling, created, (attempts - 1) as nat);
    }
}

} // verus!
