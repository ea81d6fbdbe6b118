//! Reasons for which the vault rejects a request.

use vstd::prelude::*;

verus! {

/// Why an operation was rejected. A rejected operation leaves the vault as
/// it was.
#[derive(Clone, Copy, Debug, PartialEq, Eq, Structural)]
pub enum ErrorCode {
    /// A deposit of zero.
    InvalidAmount,
    /// A deposit from a new identity while the ledger is full.
    CapacityExceeded,
    /// A distribution or a draw from a pool that holds nothing.
    VaultEmpty,
    /// A draw from a ledger without entries.
    NoContributors,
    /// The winner that the caller named is not the one that was drawn.
    InvalidWinnerClaim,
    /// The payout would leave the recipient under the balance floor.
    InsufficientRecipientBalance,
    /// The host could not move the funds.
    TransferFailed,
}

} // verus!
