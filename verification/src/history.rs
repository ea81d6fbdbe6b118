//! What holds of a vault over its whole life, whatever is asked of it and
//! in whatever order.

use vstd::prelude::*;
use crate::address::Address;
use crate::distribution::{Portion, TransferOutcome};
use crate::ledger::{lemma_position, position, Stake};
use crate::vault::{lemma_deposit_keeps_balance, lemma_deposit_keeps_well_formed, VaultState};

verus! {

/// A request to the vault, with the host's report on the transfer that
/// belongs to it.
pub enum Request {
    Deposit { who: Address, amount: nat, transferred: bool },
    Distribute { portion: Portion, seed: u64, claimed: Option<Address>, transfer: TransferOutcome },
}

/// The vault after one request, taken or rejected.
pub open spec fn served(state: VaultState, request: Request) -> VaultState {
    match request {
        Request::Deposit { who, amount, transferred } => state.request_deposit(
            who,
            amount,
            transferred,
        ),
        Request::Distribute { portion, seed, claimed, transfer } => state.request_distribution(
            portion,
            seed,
            claimed,
            transfer,
        ),
    }
}

/// The vault after a series of requests, served in order.
pub open spec fn after(start: VaultState, requests: Seq<Request>) -> VaultState
    decreases requests.len(),
{
    if requests.len() == 0 {
        start
    } else {
        served(after(start, requests.drop_last()), requests.last())
    }
}

/// `later` keeps every entry of `earlier` in its place, under the same
/// party and with no less recorded.
pub open spec fn keeps(later: Seq<Stake>, earlier: Seq<Stake>) -> bool {
    &&& earlier.len() <= later.len()
    &&& forall|i: int|
        0 <= i < earlier.len() ==> (#[trigger] later[i]).address == earlier[i].address
            && later[i].amount >= earlier[i].amount
}

/// Starting from a vault that has seen no deposit, after any series of
/// deposit requests, taken or rejected, the pooled total is the sum of the
/// ledger's amounts.
pub proof fn lemma_deposits_keep_ledger_sum(requests: Seq<Request>)
    requires
        forall|k: int| 0 <= k < requests.len() ==> #[trigger] requests[k] is Deposit,
    ensures
        after(VaultState::empty(), requests).balanced(),
    decreases requests.len(),
{
    if requests.len() > 0 {
        let earlier = requests.drop_last();
        assert forall|k: int| 0 <= k < earlier.len() implies #[trigger] earlier[k] is Deposit by {
            assert(earlier[k] == requests[k]);
        }
        lemma_deposits_keep_ledger_sum(earlier);
        let before = after(VaultState::empty(), earlier);
        match requests.last() {
            Request::Deposit { who, amount, transferred } => {
                if before.deposit_verdict(who, amount, transferred) is Ok {
                    lemma_deposit_keeps_balance(before, who, amount);
                }
            },
            Request::Distribute { .. } => {},
        }
    }
}

/// A well-formed vault stays well-formed through any series of requests:
/// the ledger never outgrows its storage, names each party once, holds no
/// empty entry, and accounts for at least what the pool holds.
pub proof fn lemma_life_keeps_well_formed(start: VaultState, requests: Seq<Request>)
    requires
        start.well_formed(),
    ensures
        after(start, requests).well_formed(),
    decreases requests.len(),
{
    if requests.len() > 0 {
        lemma_life_keeps_well_formed(start, requests.drop_last());
        let before = after(start, requests.drop_last());
        match requests.last() {
            Request::Deposit { who, amount, transferred } => {
                if before.deposit_verdict(who, amount, transferred) is Ok {
                    lemma_deposit_keeps_well_formed(before, who, amount);
                }
            },
            Request::Distribute { .. } => {},
        }
    }
}

/// No request ever removes an entry, moves it, or lowers what it
/// records: payouts leave the ledger alone, and deposits only add to it.
pub proof fn lemma_ledger_is_kept(start: VaultState, requests: Seq<Request>)
    ensures
        keeps(after(start, requests).ledger, start.ledger),
    decreases requests.len(),
{
    if requests.len() > 0 {
        lemma_ledger_is_kept(start, requests.drop_last());
        let before = after(start, requests.drop_last());
        match requests.last() {
            Request::Deposit { who, amount, transferred } => {
                lemma_position(before.ledger, who);
                let i = position(before.ledger, who);
                assert(keeps(served(before, requests.last()).ledger, before.ledger));
            },
            Request::Distribute { .. } => {},
        }
    }
}

} // verus!
