//! Read-only reports: what the vault holds, and each contributor's chance
//! in the draw.

use vstd::prelude::*;
use vstd::arithmetic::div_mod::{lemma_fundamental_div_mod, lemma_fundamental_div_mod_converse_div};
use crate::address::Address;
use crate::ledger::{
    ledger_of, lemma_weight_before_grows, total_weight, Contributor, Stake,
};
use crate::selection::total_contribution;
use crate::vault::Vault;

verus! {

/// A share of `amount` in `total` as a percentage with two decimals, in
/// hundredths of a percent: the whole number nearest to
/// `amount / total * 10000`, a half rounding up.
pub open spec fn percent_hundredths(amount: nat, total: nat) -> nat {
    (amount * 20000 + total) / (2 * total)
}

/// An entry's amount is part of the ledger's total.
pub proof fn lemma_entry_within_total(ledger: Seq<Stake>, i: int)
    requires
        0 <= i < ledger.len(),
    ensures
        ledger[i].amount <= total_weight(ledger),
{
    lemma_weight_before_grows(ledger, i + 1, ledger.len() as int);
}

/// A part's share of the whole is at most a hundred percent.
pub proof fn lemma_percent_bounded(amount: nat, total: nat)
    requires
        0 < total,
        amount <= total,
    ensures
        percent_hundredths(amount, total) <= 10000,
{
    let x = (amount * 20000 + total) as int;
    let d = (2 * total) as int;
    lemma_fundamental_div_mod(x, d);
    let q = x / d;
    assert(q <= 10000) by (nonlinear_arith)
        requires
            x == d * q + x % d,
            0 <= x % d,
            d == 2 * total,
            x == amount * 20000 + total,
            amount <= total,
            0 < total,
    ;
}

/// Computes a share in hundredths of a percent.
fn share(amount: u64, total: u128) -> (hundredths: u32)
    requires
        0 < total,
        amount <= total,
    ensures
        hundredths == percent_hundredths(amount as nat, total as nat),
        hundredths <= 10000,
{
    let scaled: u128 = amount as u128 * 10000;
    let q: u128 = scaled / total;
    let rem: u128 = scaled % total;
    let up = rem >= total - rem;
    proof {
        let x = (amount * 20000 + total) as int;
        let d = (2 * total) as int;
        lemma_fundamental_div_mod(scaled as int, total as int);
        if up {
            assert(x == (q + 1) * d + (2 * rem - total)) by (nonlinear_arith)
                requires
                    scaled == total * q + rem,
                    scaled == amount * 10000,
                    x == amount * 20000 + total,
                    d == 2 * total,
            ;
            lemma_fundamental_div_mod_converse_div(x, d, q + 1, 2 * rem - total);
        } else {
            assert(x == q * d + (2 * rem + total)) by (nonlinear_arith)
                requires
                    scaled == total * q + rem,
                    scaled == amount * 10000,
                    x == amount * 20000 + total,
                    d == 2 * total,
            ;
            lemma_fundamental_div_mod_converse_div(x, d, q as int, 2 * rem + total);
        }
        lemma_percent_bounded(amount as nat, total as nat);
    }
    if up {
        (q + 1) as u32
    } else {
        q as u32
    }
}

/// Reports the pooled total and, in ledger order, each contributor with
/// its recorded amount. The vault is only read.
pub fn check_vault(vault: &Vault) -> (snapshot: (u64, Vec<(Address, u64)>))
    ensures
        snapshot.0 == vault.total_sol,
        snapshot.1@.len() == vault.contributors@.len(),
        forall|i: int|
            0 <= i < vault.contributors@.len() ==> #[trigger] snapshot.1@[i] == (
                vault.contributors@[i].address,
                vault.contributors@[i].amount,
            ),
{
    let n = vault.contributors.len();
    let mut lines: Vec<(Address, u64)> = Vec::new();
    let mut i: usize = 0;
    while i < n
        invariant
            i <= n,
            n == vault.contributors@.len(),
            lines@.len() == i,
            forall|j: int|
                0 <= j < i ==> #[trigger] lines@[j] == (
                    vault.contributors@[j].address,
                    vault.contributors@[j].amount,
                ),
        decreases n - i,
    {
        let c = vault.contributors[i];
        lines.push((c.address, c.amount));
        i += 1;
    }
    (vault.total_sol, lines)
}

/// Reports each contributor's chance of winning a draw, in ledger order
/// and in hundredths of a percent: its recorded amount as a share of all
/// recorded amounts, rounded to the nearest hundredth. The list is empty
/// when nothing is recorded.
pub fn probabilities(contributors: &Vec<Contributor>) -> (shares: Vec<(Address, u32)>)
    ensures
        total_weight(ledger_of(contributors@)) == 0 ==> shares@.len() == 0,
        total_weight(ledger_of(contributors@)) > 0 ==> shares@.len() == contributors@.len(),
        forall|i: int|
            0 <= i < shares@.len() ==> #[trigger] shares@[i] == (
                contributors@[i].address,
                percent_hundredths(
                    contributors@[i].amount as nat,
                    total_weight(ledger_of(contributors@)),
                ) as u32,
            ),
        forall|i: int| 0 <= i < shares@.len() ==> (#[trigger] shares@[i]).1 <= 10000,
{
    let ghost ledger = ledger_of(contributors@);
    let mut shares: Vec<(Address, u32)> = Vec::new();
    let total = total_contribution(contributors);
    if total == 0 {
        return shares;
    }
    let n = contributors.len();
    let mut i: usize = 0;
    while i < n
        invariant
            i <= n,
            n == contributors@.len(),
            ledger == ledger_of(contributors@),
            total == total_weight(ledger),
            total > 0,
            shares@.len() == i,
            forall|j: int|
                0 <= j < i ==> #[trigger] shares@[j] == (
                    contributors@[j].address,
                    percent_hundredths(contributors@[j].amount as nat, total as nat) as u32,
                ),
            forall|j: int| 0 <= j < i ==> (#[trigger] shares@[j]).1 <= 10000,
        decreases n - i,
    {
        let c = contributors[i];
        proof {
            lemma_entry_within_total(ledger, i as int);
            assert(ledger[i as int].amount == c.amount);
        }
        let hundredths = share(c.amount, total);
        shares.push((c.address, hundredths));
        i += 1;
    }
    shares
}

} // verus!
