//! The weighted draw: one contributor is picked, each with a chance in
//! proportion to what the ledger records for it.
//!
//! The ledger's amounts are laid end to end, in ledger order, on the range
//! from zero up to their sum. A draw is a point of that range, and the
//! winner is the entry in whose stretch the point falls.

use vstd::prelude::*;
use vstd::set_lib::{lemma_int_range, set_int_range};
use crate::address::Address;
use crate::error::ErrorCode;
use crate::ledger::{
    ledger_of, lemma_weight_before_grows, total_weight, weight_before, Contributor, Stake,
};

verus! {

/// The point that a seed is reduced to, on a range of `total` points.
pub open spec fn draw(seed: u64, total: nat) -> nat {
    (seed as nat) % total
}

/// The draw `r` falls in the stretch of entry `i`: the amounts before it
/// do not exceed `r`, and with its own amount they do.
pub open spec fn wins(ledger: Seq<Stake>, r: nat, i: int) -> bool {
    &&& 0 <= i < ledger.len()
    &&& weight_before(ledger, i) <= r < weight_before(ledger, i + 1)
}

/// The entry in whose stretch the draw `r` falls.
pub open spec fn winning_index(ledger: Seq<Stake>, r: nat) -> int {
    choose|i: int| wins(ledger, r, i)
}

/// What a draw with `seed` gives on `ledger`: no winner without entries
/// or without weight, else the party whose stretch holds the drawn point.
pub open spec fn selection(ledger: Seq<Stake>, seed: u64) -> Result<Address, ErrorCode> {
    if ledger.len() == 0 {
        Err(ErrorCode::NoContributors)
    } else if total_weight(ledger) == 0 {
        Err(ErrorCode::VaultEmpty)
    } else {
        Ok(ledger[winning_index(ledger, draw(seed, total_weight(ledger)))].address)
    }
}

/// A draw falls in at most one stretch.
pub proof fn lemma_winner_unique(ledger: Seq<Stake>, r: nat, i: int, j: int)
    requires
        wins(ledger, r, i),
        wins(ledger, r, j),
    ensures
        i == j,
{
    if i < j {
        lemma_weight_before_grows(ledger, i + 1, j);
    } else if j < i {
        lemma_weight_before_grows(ledger, j + 1, i);
    }
}

/// A draw below the range covered by the first `n` entries falls in the
/// stretch of one of them.
proof fn lemma_winner_among(ledger: Seq<Stake>, r: nat, n: int)
    requires
        0 <= n <= ledger.len(),
        r < weight_before(ledger, n),
    ensures
        exists|i: int| 0 <= i < n && wins(ledger, r, i),
    decreases n,
{
    if weight_before(ledger, n - 1) <= r {
        assert(wins(ledger, r, n - 1));
    } else {
        lemma_winner_among(ledger, r, n - 1);
    }
}

/// Every draw below the ledger's total has a winner, and `winning_index`
/// is that entry.
pub proof fn lemma_winner_exists(ledger: Seq<Stake>, r: nat)
    requires
        r < total_weight(ledger),
    ensures
        wins(ledger, r, winning_index(ledger, r)),
{
    lemma_winner_among(ledger, r, ledger.len() as int);
}

/// The entry in whose stretch a draw was seen to fall is the winner.
pub proof fn lemma_winning_index_is(ledger: Seq<Stake>, r: nat, i: int)
    requires
        wins(ledger, r, i),
    ensures
        winning_index(ledger, r) == i,
{
    lemma_winner_unique(ledger, r, i, winning_index(ledger, r));
}

/// The draws on which entry `i` wins.
pub open spec fn winning_draws(ledger: Seq<Stake>, i: int) -> Set<int> {
    Set::new(|r: int| 0 <= r < total_weight(ledger) && winning_index(ledger, r as nat) == i)
}

/// Of the `total_weight` possible draws, entry `i` wins exactly as many as
/// its amount: its chance is its amount over the total.
pub proof fn lemma_chance_is_share(ledger: Seq<Stake>, i: int)
    requires
        0 <= i < ledger.len(),
    ensures
        winning_draws(ledger, i).finite(),
        winning_draws(ledger, i).len() == ledger[i].amount,
{
    let lo = weight_before(ledger, i) as int;
    let hi = weight_before(ledger, i + 1) as int;
    lemma_weight_before_grows(ledger, i + 1, ledger.len() as int);
    assert forall|r: int| winning_draws(ledger, i).contains(r) <==> set_int_range(lo, hi).contains(
        r,
    ) by {
        if 0 <= r < total_weight(ledger) && winning_index(ledger, r as nat) == i {
            lemma_winner_exists(ledger, r as nat);
        }
        if lo <= r < hi {
            assert(wins(ledger, r as nat, i));
            lemma_winning_index_is(ledger, r as nat, i);
        }
    }
    assert(winning_draws(ledger, i) =~= set_int_range(lo, hi));
    lemma_int_range(lo, hi);
}

/// The running sum of stored amounts stays within 128 bits.
proof fn lemma_weight_fits(contributors: Seq<Contributor>, n: int)
    requires
        0 <= n <= contributors.len(),
    ensures
        weight_before(ledger_of(contributors), n) <= n * u64::MAX,
    decreases n,
{
    if n > 0 {
        lemma_weight_fits(contributors, n - 1);
        assert(ledger_of(contributors)[n - 1].amount == contributors[n - 1].amount);
        assert((n - 1) * u64::MAX + u64::MAX == n * u64::MAX) by (nonlinear_arith);
    }
}

/// Sum of all recorded contributions.
pub fn total_contribution(contributors: &Vec<Contributor>) -> (total: u128)
    ensures
        total == total_weight(ledger_of(contributors@)),
{
    let ghost ledger = ledger_of(contributors@);
    let n = contributors.len();
    let mut total: u128 = 0;
    let mut i: usize = 0;
    while i < n
        invariant
            i <= n,
            n == contributors.len(),
            ledger == ledger_of(contributors@),
            total == weight_before(ledger, i as int),
        decreases n - i,
    {
        proof {
            lemma_weight_fits(contributors@, i as int + 1);
            assert((i + 1) * u64::MAX <= usize::MAX * u64::MAX) by (nonlinear_arith)
                requires
                    i + 1 <= usize::MAX,
            ;
        }
        total = total + contributors[i].amount as u128;
        i += 1;
    }
    total
}

/// Picks the winner of a draw with `seed`: the seed is reduced to a point
/// below the sum of all recorded amounts, and the first entry whose
/// running sum exceeds that point wins.
///
/// The result depends on the ledger and the seed alone. There is no winner
/// on a ledger without entries (`NoContributors`) and none on one whose
/// amounts are all zero (`VaultEmpty`).
pub fn select_winner(contributors: &Vec<Contributor>, seed: u64) -> (result: Result<
    Address,
    ErrorCode,
>)
    ensures
        result == selection(ledger_of(contributors@), seed),
{
    let ghost ledger = ledger_of(contributors@);
    let n = contributors.len();
    if n == 0 {
        return Err(ErrorCode::NoContributors);
    }
    let total = total_contribution(contributors);
    if total == 0 {
        return Err(ErrorCode::VaultEmpty);
    }
    let r: u128 = (seed as u128) % total;
    assert(r == draw(seed, total as nat));
    let mut running: u128 = 0;
    let mut i: usize = 0;
    while i < n
        invariant
            i <= n,
            n == contributors.len(),
            ledger == ledger_of(contributors@),
            total == total_weight(ledger),
            r < total,
            r == draw(seed, total as nat),
            running == weight_before(ledger, i as int),
            running <= r,
        decreases n - i,
    {
        proof {
            lemma_weight_before_grows(ledger, i as int + 1, n as int);
        }
        running = running + contributors[i].amount as u128;
        if running > r {
            proof {
                assert(wins(ledger, r as nat, i as int));
                lemma_winning_index_is(ledger, r as nat, i as int);
            }
            return Ok(contributors[i].address);
        }
        i += 1;
    }
    // The running sum has reached the total, which exceeds the drawn point:
    // the scan cannot come this far.
    assert(false);
    Ok(contributors[n - 1].address)
}

} // verus!
