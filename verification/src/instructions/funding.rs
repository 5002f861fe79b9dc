//! Moving funds down the hierarchy: into the vault of a distributor root,
//! from there into the vault of a distributor, and from a parent vault into
//! the vaults of many distributors.

use vstd::prelude::*;
use crate::digest::digest_eq;
use crate::error::ErrorCode;
use crate::state::distributor_root::{fund_amount, DistributorRoot};
use crate::state::merkle_distributor::MerkleDistributor;
use crate::state::parent_account::ParentAccount;

verus! {

/// One of the accounts handed to the sweep of a parent vault. They come in
/// pairs: the vault of a distributor, then the distributor.
#[derive(Copy, Clone, Debug)]
pub enum RemainingAccount {
    /// The token vault of a distributor
    Vault {
        /// Key of the vault
        key: [u8; 32],
        /// Balance of the vault
        amount: u64,
    },
    /// A distributor
    Distributor {
        /// The vault that the distributor names as its own
        token_vault: [u8; 32],
        /// The parent account that the distributor names as its own
        parent_account: [u8; 32],
        /// The most that can ever be claimed from the distributor
        max_total_claim: u64,
    },
}

/// Creates a distributor root with its ceilings; nothing is funded and no
/// distributor created yet.
pub fn handle_new_distributor_root(
    bump: u8,
    mint: [u8; 32],
    base: [u8; 32],
    distributor_root_vault: [u8; 32],
    max_claim_amount: u64,
    max_distributor: u64,
) -> (root: DistributorRoot)
    ensures
        root == (DistributorRoot {
            bump,
            mint,
            base,
            distributor_root_vault,
            max_claim_amount,
            max_distributor,
            total_funded_amount: 0,
            total_distributor_created: 0,
        }),
{
    DistributorRoot {
        bump,
        mint,
        base,
        distributor_root_vault,
        max_claim_amount,
        max_distributor,
        total_funded_amount: 0,
        total_distributor_created: 0,
    }
}

/// Creates a parent account; nothing is distributed yet.
pub fn handle_new_parent_account(
    bump: u8,
    admin: [u8; 32],
    mint: [u8; 32],
    parent_vault: [u8; 32],
) -> (parent: ParentAccount)
    ensures
        parent == (ParentAccount { bump, admin, mint, parent_vault, total_distributed: 0 }),
{
    ParentAccount { bump, admin, mint, parent_vault, total_distributed: 0 }
}

/// Tops up the vault of a distributor root. Returns the amount to be moved
/// from the payer into the vault: what is missing up to the ceiling, at most
/// `max_amount`.
/// CHECK:
///     1. The mint is the one on record
///     2. The funded total is not above the ceiling
pub fn handle_fund_distributor_root(
    distributor_root: &mut DistributorRoot,
    mint: &[u8; 32],
    max_amount: u64,
) -> (r: Result<u64, ErrorCode>)
    ensures
        r == if mint@ != old(distributor_root).mint@ {
            Err::<u64, ErrorCode>(ErrorCode::InvalidAccount)
        } else if old(distributor_root).total_funded_amount > old(distributor_root).max_claim_amount {
            Err(ErrorCode::ArithmeticError)
        } else {
            Ok(
                fund_amount(
                    old(distributor_root).max_claim_amount,
                    old(distributor_root).total_funded_amount,
                    max_amount,
                ),
            )
        },
        r.is_ok() ==> *final(distributor_root) == (DistributorRoot {
            total_funded_amount: (old(distributor_root).total_funded_amount + fund_amount(
                old(distributor_root).max_claim_amount,
                old(distributor_root).total_funded_amount,
                max_amount,
            )) as u64,
            ..*old(distributor_root)
        }) && final(distributor_root).total_funded_amount <= final(distributor_root).max_claim_amount,
        r.is_err() ==> *final(distributor_root) == *old(distributor_root),
{
    if !digest_eq(mint, &distributor_root.mint) {
        return Err(ErrorCode::InvalidAccount);
    }
    distributor_root.get_and_set_fund_amount(max_amount)
}

/// Funds a distributor from its root, once. Returns the amount to be moved
/// from the root's vault into the distributor's vault: the maximum total
/// claim the first time, nothing afterwards.
/// CHECK:
///     1. The root is the one that the distributor names
pub fn handle_fund_merkle_distributor_from_root(
    distributor: &mut MerkleDistributor,
    distributor_root_key: &[u8; 32],
) -> (r: Result<u64, ErrorCode>)
    ensures
        r == if distributor_root_key@ != old(distributor).distributor_root@ {
            Err::<u64, ErrorCode>(ErrorCode::InvalidAccount)
        } else if old(distributor).funded_amount == 0 {
            Ok(old(distributor).max_total_claim)
        } else {
            Ok(0)
        },
        r.is_ok() ==> *final(distributor) == (MerkleDistributor {
            funded_amount: if old(distributor).funded_amount == 0 {
                old(distributor).max_total_claim
            } else {
                old(distributor).funded_amount
            },
            ..*old(distributor)
        }),
        r.is_err() ==> *final(distributor) == *old(distributor),
{
    if !digest_eq(distributor_root_key, &distributor.distributor_root) {
        return Err(ErrorCode::InvalidAccount);
    }
    if distributor.funded_amount == 0 {
        let fund_amount = distributor.max_total_claim;
        distributor.funded_amount = fund_amount;
        Ok(fund_amount)
    } else {
        Ok(0)
    }
}

/// What the parent vault owes to one pair of accounts: the shortfall of the
/// vault against the distributor's maximum total claim, nothing where the
/// vault is funded already. A pair that is not a vault and a distributor,
/// a vault that is not the distributor's, and a distributor of another
/// parent are refused.
pub open spec fn pair_transfer(
    parent_key: Seq<u8>,
    first: RemainingAccount,
    second: RemainingAccount,
) -> Result<u64, ErrorCode> {
    match first {
        RemainingAccount::Vault { key, amount } => match second {
            RemainingAccount::Distributor { token_vault, parent_account, max_total_claim } => {
                if key@ != token_vault@ {
                    Err(ErrorCode::InvalidAccount)
                } else if parent_key != parent_account@ {
                    Err(ErrorCode::InvalidAccount)
                } else if amount >= max_total_claim {
                    Ok(0)
                } else {
                    Ok((max_total_claim - amount) as u64)
                }
            },
            RemainingAccount::Vault { .. } => Err(ErrorCode::InvalidAccount),
        },
        RemainingAccount::Distributor { .. } => Err(ErrorCode::InvalidAccount),
    }
}

/// The transfers owed to the first `pairs` pairs and the parent's running
/// total after them, or the first error met.
pub open spec fn sweep_pairs(
    total: u64,
    parent_key: Seq<u8>,
    accounts: Seq<RemainingAccount>,
    pairs: nat,
) -> Result<(u64, Seq<u64>), ErrorCode>
    decreases pairs,
{
    if pairs == 0 {
        Ok((total, Seq::empty()))
    } else {
        match sweep_pairs(total, parent_key, accounts, (pairs - 1) as nat) {
            Err(e) => Err(e),
            Ok(done) => match pair_transfer(
                parent_key,
                accounts[2 * (pairs - 1)],
                accounts[2 * (pairs - 1) + 1],
            ) {
                Err(e) => Err(e),
                Ok(amount) => if done.0 + amount > u64::MAX {
                    Err(ErrorCode::ArithmeticError)
                } else {
                    Ok(((done.0 + amount) as u64, done.1.push(amount)))
                },
            },
        }
    }
}

/// Outcome of a sweep: the transfers owed, pair by pair, and the parent's
/// running total after them, or the first error met.
pub open spec fn sweep_outcome(
    parent: ParentAccount,
    parent_key: Seq<u8>,
    signer: Seq<u8>,
    accounts: Seq<RemainingAccount>,
) -> Result<(u64, Seq<u64>), ErrorCode> {
    if signer != parent.admin@ {
        Err(ErrorCode::Unauthorized)
    } else if accounts.len() % 2 != 0 {
        Err(ErrorCode::InvalidRemainingAccounts)
    } else {
        sweep_pairs(parent.total_distributed, parent_key, accounts, accounts.len() / 2)
    }
}

/// Sum of a list of transfers.
pub open spec fn transfers_total(transfers: Seq<u64>) -> int
    decreases transfers.len(),
{
    if transfers.len() == 0 {
        0
    } else {
        transfers_total(transfers.drop_last()) + transfers.last()
    }
}

/// A sweep that succeeds names one transfer per pair and raises the parent's
/// running total by exactly what is transferred, so that the total never
/// shrinks.
pub proof fn law_sweep_adds_transfers(
    total: u64,
    parent_key: Seq<u8>,
    accounts: Seq<RemainingAccount>,
    pairs: nat,
)
    requires
        sweep_pairs(total, parent_key, accounts, pairs).is_ok(),
    ensures
        ({
            let done = sweep_pairs(total, parent_key, accounts, pairs).unwrap();
            &&& done.1.len() == pairs
            &&& done.0 == total + transfers_total(done.1)
            &&& done.0 >= total
        }),
    decreases pairs,
{
    if pairs > 0 {
        law_sweep_adds_transfers(total, parent_key, accounts, (pairs - 1) as nat);
        let before = sweep_pairs(total, parent_key, accounts, (pairs - 1) as nat).unwrap();
        let done = sweep_pairs(total, parent_key, accounts, pairs).unwrap();
        assert(done.1.drop_last() =~= before.1);
        lemma_transfers_total_nonnegative(before.1);
    }
}

/// A sum of transfers is not negative.
pub proof fn lemma_transfers_total_nonnegative(transfers: Seq<u64>)
    ensures
        transfers_total(transfers) >= 0,
    decreases transfers.len(),
{
    if transfers.len() > 0 {
        lemma_transfers_total_nonnegative(transfers.drop_last());
    }
}

/// Decides what one pair is owed, as `pair_transfer` states it.
fn transfer_for_pair(parent_key: &[u8; 32], first: &RemainingAccount, second: &RemainingAccount) -> (r:
    Result<u64, ErrorCode>)
    ensures
        r == pair_transfer(parent_key@, *first, *second),
{
    match first {
        RemainingAccount::Vault { key, amount } => match second {
            RemainingAccount::Distributor { token_vault, parent_account, max_total_claim } => {
                if !digest_eq(key, token_vault) {
                    Err(ErrorCode::InvalidAccount)
                } else if !digest_eq(parent_key, parent_account) {
                    Err(ErrorCode::InvalidAccount)
                } else if *amount >= *max_total_claim {
                    Ok(0)
                } else {
                    Ok(*max_total_claim - *amount)
                }
            },
            RemainingAccount::Vault { .. } => Err(ErrorCode::InvalidAccount),
        },
        RemainingAccount::Distributor { .. } => Err(ErrorCode::InvalidAccount),
    }
}

/// Sweeps the parent vault into the vaults of the given distributors.
/// Returns, pair by pair, the amount to be moved from the parent vault into
/// the distributor's vault: the shortfall against the distributor's maximum
/// total claim, and 0 for a vault that is funded already. The parent's
/// running total grows by what is moved. Where any pair is refused nothing
/// changes.
pub fn handle_distribute_vault(
    parent_account: &mut ParentAccount,
    parent_key: &[u8; 32],
    signer: &[u8; 32],
    remaining_accounts: &Vec<RemainingAccount>,
) -> (r: Result<Vec<u64>, ErrorCode>)
    ensures
        match sweep_outcome(*old(parent_account), parent_key@, signer@, remaining_accounts@) {
            Ok(done) => r.is_ok() && r.unwrap()@ == done.1 && *final(parent_account) == (
            ParentAccount { total_distributed: done.0, ..*old(parent_account) }),
            Err(e) => r == Err::<Vec<u64>, ErrorCode>(e) && *final(parent_account) == *old(parent_account),
        },
{
    if !digest_eq(signer, &parent_account.admin) {
        return Err(ErrorCode::Unauthorized);
    }
    if remaining_accounts.len() % 2 != 0 {
        return Err(ErrorCode::InvalidRemainingAccounts);
    }
    let pairs: usize = remaining_accounts.len() / 2;
    let mut running: ParentAccount = *parent_account;
    let mut transfers: Vec<u64> = Vec::new();
    let mut k: usize = 0;
    while k < pairs
        invariant
            k <= pairs,
            pairs * 2 == remaining_accounts@.len(),
            pairs == remaining_accounts@.len() / 2,
            remaining_accounts@.len() <= usize::MAX,
            signer@ == parent_account.admin@,
            running == (ParentAccount {
                total_distributed: running.total_distributed,
                ..*parent_account
            }),
            sweep_pairs(
                parent_account.total_distributed,
                parent_key@,
                remaining_accounts@,
                k as nat,
            ) == Ok::<(u64, Seq<u64>), ErrorCode>((running.total_distributed, transfers@)),
            *parent_account == *old(parent_account),
        decreases pairs - k,
    {
        let amount = match transfer_for_pair(
            parent_key,
            &remaining_accounts[2 * k],
            &remaining_accounts[2 * k + 1],
        ) {
            Ok(a) => a,
            Err(e) => {
                proof {
                    assert(sweep_pairs(
                        parent_account.total_distributed,
                        parent_key@,
                        remaining_accounts@,
                        (k + 1) as nat,
                    ) == Err::<(u64, Seq<u64>), ErrorCode>(e));
                    lemma_sweep_error_stays(
                        parent_account.total_distributed,
                        parent_key@,
                        remaining_accounts@,
                        (k + 1) as nat,
                        pairs as nat,
                    );
                }
                return Err(e);
            },
        };
        match running.accumulate_distribution(amount) {
            Ok(_) => {},
            Err(e) => {
                proof {
                    assert(sweep_pairs(
                        parent_account.total_distributed,
                        parent_key@,
                        remaining_accounts@,
                        (k + 1) as nat,
                    ) == Err::<(u64, Seq<u64>), ErrorCode>(e));
                    lemma_sweep_error_stays(
                        parent_account.total_distributed,
                        parent_key@,
                        remaining_accounts@,
                        (k + 1) as nat,
                        pairs as nat,
                    );
                }
                return Err(e);
            },
        }
        transfers.push(amount);
        k += 1;
    }
    *parent_account = running;
    Ok(transfers)
}

/// An error met within the first pairs is the outcome for every longer
/// list of pairs.
pub proof fn lemma_sweep_error_stays(
    total: u64,
    parent_key: Seq<u8>,
    accounts: Seq<RemainingAccount>,
    failed: nat,
    pairs: nat,
)
    requires
        failed <= pairs,
        sweep_pairs(total, parent_key, accounts, failed).is_err(),
    ensures
        sweep_pairs(total, parent_key, accounts, pairs) == sweep_pairs(
            total,
            parent_key,
            accounts,
            failed,
        ),
    decreases pairs,
{
    if failed < pairs {
        lemma_sweep_error_stays(total, parent_key, accounts, failed, (pairs - 1) as nat);
    }
}

} // verus!
