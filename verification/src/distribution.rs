//! Distributions: a draw picks a winner, the host pays the winner half or
//! all of the pool, and only then does the vault write the payout off.
//!
//! A distribution takes two steps, with the host's transfer between them.
//! [`plan_distribution`] reads the vault and says what is to be paid and to
//! whom, or why nothing is. The host then moves the funds and reports how
//! that went, and [`distribute_50`] or [`distribute_100`] commits the
//! payout, or leaves the vault as it was. Both steps take the same seed and
//! come to the same winner.

use vstd::prelude::*;
use crate::address::Address;
use crate::error::ErrorCode;
use crate::selection::{select_winner, selection};
use crate::vault::{Vault, VaultState};

verus! {

/// How much of the pool a distribution pays out.
#[derive(Clone, Copy, Debug, PartialEq, Eq, Structural)]
pub enum Portion {
    /// Half of the pool, rounded down; the odd unit stays in the pool.
    Half,
    /// All of the pool.
    Full,
}

/// What the host reports of the transfer that it was asked to make.
#[derive(Clone, Copy, Debug, PartialEq, Eq, Structural)]
pub enum TransferOutcome {
    /// The funds have reached the recipient.
    Completed,
    /// Nothing was moved: the recipient would have been left under the
    /// balance floor.
    RecipientBelowFloor,
    /// Nothing was moved, for any other reason.
    Failed,
}

/// A payout as it is handed to the host: the recipient and the amount.
#[derive(Clone, Copy, Debug, PartialEq, Eq)]
pub struct Payout {
    pub winner: Address,
    pub amount: u64,
}

/// A payout as a mathematical value.
pub struct Award {
    pub winner: Address,
    pub amount: nat,
}

impl View for Payout {
    type V = Award;

    open spec fn view(&self) -> Award {
        Award { winner: self.winner, amount: self.amount as nat }
    }
}

/// The result of a distribution step, with its payout as a mathematical
/// value.
pub open spec fn awarded(result: Result<Payout, ErrorCode>) -> Result<Award, ErrorCode> {
    match result {
        Ok(payout) => Ok(payout@),
        Err(e) => Err(e),
    }
}

/// The amount that a distribution of `portion` pays from a pool of
/// `total`.
pub open spec fn target_amount(portion: Portion, total: nat) -> nat {
    match portion {
        Portion::Half => total / 2,
        Portion::Full => total,
    }
}

impl VaultState {
    /// What a distribution is to pay, before any funds move. An empty pool
    /// pays nothing (`VaultEmpty`); a draw without a winner fails as the
    /// draw does; a caller that names a winner other than the drawn one is
    /// turned away (`InvalidWinnerClaim`).
    pub open spec fn planned(self, portion: Portion, seed: u64, claimed: Option<Address>) -> Result<
        Award,
        ErrorCode,
    > {
        if self.total == 0 {
            Err(ErrorCode::VaultEmpty)
        } else {
            match selection(self.ledger, seed) {
                Err(e) => Err(e),
                Ok(winner) => if claimed is Some && claimed->0 != winner {
                    Err(ErrorCode::InvalidWinnerClaim)
                } else {
                    Ok(Award { winner, amount: target_amount(portion, self.total) })
                },
            }
        }
    }

    /// How a distribution ends once the host has reported on the transfer:
    /// as planned if the funds arrived, else with the transfer's failure.
    pub open spec fn distribution_verdict(
        self,
        portion: Portion,
        seed: u64,
        claimed: Option<Address>,
        transfer: TransferOutcome,
    ) -> Result<Award, ErrorCode> {
        match self.planned(portion, seed, claimed) {
            Err(e) => Err(e),
            Ok(award) => match transfer {
                TransferOutcome::Completed => Ok(award),
                TransferOutcome::RecipientBelowFloor => Err(
                    ErrorCode::InsufficientRecipientBalance,
                ),
                TransferOutcome::Failed => Err(ErrorCode::TransferFailed),
            },
        }
    }

    /// The vault after a distribution request: the pool is lowered by the
    /// payout when the request succeeds, and nothing changes when it does
    /// not. The ledger is the same either way.
    pub open spec fn request_distribution(
        self,
        portion: Portion,
        seed: u64,
        claimed: Option<Address>,
        transfer: TransferOutcome,
    ) -> VaultState {
        match self.distribution_verdict(portion, seed, claimed, transfer) {
            Ok(award) => VaultState {
                total: (self.total - award.amount) as nat,
                ledger: self.ledger,
            },
            Err(_) => self,
        }
    }
}

/// First step of a distribution: checks the pool, draws the winner with
/// `seed`, and holds the draw against the winner that the caller names, if
/// it names one. Returns the payout that the host is to transfer. The
/// vault is only read.
pub fn plan_distribution(
    vault: &Vault,
    portion: Portion,
    seed: u64,
    claimed: Option<Address>,
) -> (result: Result<Payout, ErrorCode>)
    ensures
        awarded(result) == vault@.planned(portion, seed, claimed),
{
    if vault.total_sol == 0 {
        return Err(ErrorCode::VaultEmpty);
    }
    let winner = match select_winner(&vault.contributors, seed) {
        Ok(winner) => winner,
        Err(e) => {
            return Err(e);
        },
    };
    match claimed {
        Some(named) => {
            if !(named == winner) {
                return Err(ErrorCode::InvalidWinnerClaim);
            }
        },
        None => {},
    }
    let amount = match portion {
        Portion::Half => vault.total_sol / 2,
        Portion::Full => vault.total_sol,
    };
    Ok(Payout { winner, amount })
}

/// Second step of a distribution of `portion`: given the host's report on
/// the transfer, writes the payout off the pool or leaves the vault alone.
pub fn distribute(
    vault: &mut Vault,
    portion: Portion,
    seed: u64,
    claimed: Option<Address>,
    transfer: TransferOutcome,
) -> (result: Result<Payout, ErrorCode>)
    ensures
        awarded(result) == old(vault)@.distribution_verdict(portion, seed, claimed, transfer),
        final(vault)@ == old(vault)@.request_distribution(portion, seed, claimed, transfer),
        final(vault).contributors == old(vault).contributors,
        result is Err ==> *final(vault) == *old(vault),
        transfer != TransferOutcome::Completed ==> result is Err,
        old(vault)@.well_formed() ==> final(vault)@.well_formed(),
{
    let payout = match plan_distribution(vault, portion, seed, claimed) {
        Ok(payout) => payout,
        Err(e) => {
            return Err(e);
        },
    };
    match transfer {
        TransferOutcome::Completed => {},
        TransferOutcome::RecipientBelowFloor => {
            return Err(ErrorCode::InsufficientRecipientBalance);
        },
        TransferOutcome::Failed => {
            return Err(ErrorCode::TransferFailed);
        },
    }
    vault.total_sol = vault.total_sol - payout.amount;
    Ok(payout)
}

/// Commits a distribution of half the pool.
///
/// With a pool of `total`, the payout is `total / 2`, rounded down, and
/// the pool keeps the rest. An empty pool is refused with `VaultEmpty`, a
/// wrong winner claim with `InvalidWinnerClaim`, and a transfer that the
/// host reports as not made with `InsufficientRecipientBalance` or
/// `TransferFailed`; whatever the refusal, the vault is as it was. The
/// ledger's entries are never reduced.
pub fn distribute_50(
    vault: &mut Vault,
    seed: u64,
    claimed: Option<Address>,
    transfer: TransferOutcome,
) -> (result: Result<Payout, ErrorCode>)
    ensures
        awarded(result) == old(vault)@.distribution_verdict(Portion::Half, seed, claimed, transfer),
        final(vault)@ == old(vault)@.request_distribution(Portion::Half, seed, claimed, transfer),
        final(vault).contributors == old(vault).contributors,
        result is Err ==> *final(vault) == *old(vault),
        transfer != TransferOutcome::Completed ==> result is Err,
        result matches Ok(payout) ==> payout.amount == old(vault).total_sol / 2
            && final(vault).total_sol == old(vault).total_sol - old(vault).total_sol / 2,
        old(vault).total_sol == 0 ==> result == Err::<Payout, ErrorCode>(ErrorCode::VaultEmpty),
        old(vault)@.well_formed() ==> final(vault)@.well_formed(),
{
    distribute(vault, Portion::Half, seed, claimed, transfer)
}

/// Commits a distribution of the whole pool.
///
/// The payout is all that the pool holds, and the pool is left at zero.
/// Refusals are those of [`distribute_50`], and leave the vault as it was.
/// The ledger's entries are never reduced.
pub fn distribute_100(
    vault: &mut Vault,
    seed: u64,
    claimed: Option<Address>,
    transfer: TransferOutcome,
) -> (result: Result<Payout, ErrorCode>)
    ensures
        awarded(result) == old(vault)@.distribution_verdict(Portion::Full, seed, claimed, transfer),
        final(vault)@ == old(vault)@.request_distribution(Portion::Full, seed, claimed, transfer),
        final(vault).contributors == old(vault).contributors,
        result is Err ==> *final(vault) == *old(vault),
        transfer != TransferOutcome::Completed ==> result is Err,
        result matches Ok(payout) ==> payout.amount == old(vault).total_sol
            && final(vault).total_sol == 0,
        old(vault).total_sol == 0 ==> result == Err::<Payout, ErrorCode>(ErrorCode::VaultEmpty),
        old(vault)@.well_formed() ==> final(vault)@.well_formed(),
{
    distribute(vault, Portion::Full, seed, claimed, transfer)
}

} // verus!
