//! The rule for moving a payout between two balances that the host keeps
//! as plain counters.

use vstd::prelude::*;
use crate::distribution::TransferOutcome;

verus! {

/// The balances that a payout touches: the vault's custody account and
/// the recipient's account.
#[derive(Clone, Copy, Debug, PartialEq, Eq)]
pub struct Balances {
    pub custody: u64,
    pub recipient: u64,
}

/// How a transfer of `amount` ends. It fails when custody does not hold
/// the amount or the recipient's balance cannot take it, and it is turned
/// down when it would leave the recipient under `floor`.
pub open spec fn transfer_verdict(balances: Balances, amount: u64, floor: u64) -> TransferOutcome {
    if amount > balances.custody || balances.recipient + amount > u64::MAX {
        TransferOutcome::Failed
    } else if balances.recipient + amount < floor {
        TransferOutcome::RecipientBelowFloor
    } else {
        TransferOutcome::Completed
    }
}

/// Moves `amount` from custody to the recipient, all or nothing: either
/// both balances change by `amount`, or neither changes.
pub fn move_funds(balances: &mut Balances, amount: u64, floor: u64) -> (outcome: TransferOutcome)
    ensures
        outcome == transfer_verdict(*old(balances), amount, floor),
        outcome == TransferOutcome::Completed ==> final(balances).custody == old(balances).custody
            - amount && final(balances).recipient == old(balances).recipient + amount,
        outcome != TransferOutcome::Completed ==> *final(balances) == *old(balances),
{
    if amount > balances.custody || amount > u64::MAX - balances.recipient {
        return TransferOutcome::Failed;
    }
    if balances.recipient + amount < floor {
        return TransferOutcome::RecipientBelowFloor;
    }
    balances.custody = balances.custody - amount;
    balances.recipient = balances.recipient + amount;
    TransferOutcome::Completed
}

} // verus!
