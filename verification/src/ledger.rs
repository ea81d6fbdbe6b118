//! The contribution ledger: who has put in how much, in order of first
//! deposit, and the arithmetic over it.

use vstd::prelude::*;
use crate::address::Address;

verus! {

/// One line of the ledger as it is stored: a party and the sum of all it
/// has deposited.
#[derive(Clone, Copy, Debug, PartialEq, Eq)]
pub struct Contributor {
    pub address: Address,
    pub amount: u64,
}

/// One line of the ledger as a mathematical value. Amounts are unbounded
/// here, so that sums never wrap.
pub struct Stake {
    pub address: Address,
    pub amount: nat,
}

impl View for Contributor {
    type V = Stake;

    open spec fn view(&self) -> Stake {
        Stake { address: self.address, amount: self.amount as nat }
    }
}

/// The ledger that a stored list of contributors stands for.
pub open spec fn ledger_of(contributors: Seq<Contributor>) -> Seq<Stake> {
    contributors.map_values(|c: Contributor| c@)
}

/// `i` is where a search for `who` from the front of the ledger ends: at
/// the first entry under `who`, or at the ledger's length when there is
/// none.
pub open spec fn first_at(ledger: Seq<Stake>, who: Address, i: int) -> bool {
    &&& 0 <= i <= ledger.len()
    &&& forall|j: int| 0 <= j < i ==> (#[trigger] ledger[j]).address != who
    &&& i < ledger.len() ==> ledger[i].address == who
}

/// Index of the first entry under `who`; the ledger's length when `who`
/// has none.
pub open spec fn position(ledger: Seq<Stake>, who: Address) -> int {
    choose|i: int| first_at(ledger, who, i)
}

/// Whether `who` has an entry.
pub open spec fn has_entry(ledger: Seq<Stake>, who: Address) -> bool {
    position(ledger, who) < ledger.len()
}

/// What the ledger holds under `who`: zero when `who` has no entry.
pub open spec fn recorded(ledger: Seq<Stake>, who: Address) -> nat {
    if has_entry(ledger, who) {
        ledger[position(ledger, who)].amount
    } else {
        0
    }
}

/// Sum of the amounts of the first `n` entries.
pub open spec fn weight_before(ledger: Seq<Stake>, n: int) -> nat
    decreases n,
{
    if n <= 0 {
        0
    } else {
        weight_before(ledger, n - 1) + ledger[n - 1].amount
    }
}

/// Sum of all amounts in the ledger.
pub open spec fn total_weight(ledger: Seq<Stake>) -> nat {
    weight_before(ledger, ledger.len() as int)
}

/// No party has two entries.
pub open spec fn distinct(ledger: Seq<Stake>) -> bool {
    forall|i: int, j: int|
        0 <= i < j < ledger.len() ==> (#[trigger] ledger[i]).address != (
            #[trigger] ledger[j]
        ).address
}

/// Every entry records a deposit.
pub open spec fn all_positive(ledger: Seq<Stake>) -> bool {
    forall|i: int| 0 <= i < ledger.len() ==> (#[trigger] ledger[i]).amount > 0
}

/// The ledger after `amount` has been credited to `who`: added to the
/// entry of `who` if there is one, else recorded in a new last entry.
pub open spec fn credited(ledger: Seq<Stake>, who: Address, amount: nat) -> Seq<Stake> {
    let i = position(ledger, who);
    if i < ledger.len() {
        ledger.update(i, Stake { address: who, amount: ledger[i].amount + amount })
    } else {
        ledger.push(Stake { address: who, amount })
    }
}

/// A search from the front ends in exactly one place.
pub proof fn lemma_first_at_unique(ledger: Seq<Stake>, who: Address, i: int, j: int)
    requires
        first_at(ledger, who, i),
        first_at(ledger, who, j),
    ensures
        i == j,
{
    if i < j {
        assert(ledger[i].address == who);
    } else if j < i {
        assert(ledger[j].address == who);
    }
}

/// Every search from the front ends somewhere, and `position` is that
/// place.
pub proof fn lemma_position(ledger: Seq<Stake>, who: Address)
    ensures
        first_at(ledger, who, position(ledger, who)),
    decreases ledger.len(),
{
    if ledger.len() == 0 {
        assert(first_at(ledger, who, 0));
    } else {
        let front = ledger.drop_last();
        lemma_position(front, who);
        let i = position(front, who);
        assert forall|j: int| 0 <= j < i implies (#[trigger] ledger[j]).address != who by {
            assert(front[j] == ledger[j]);
        }
        if i < front.len() {
            assert(front[i] == ledger[i]);
            assert(first_at(ledger, who, i));
        } else if ledger.last().address == who {
            assert(first_at(ledger, who, i));
        } else {
            assert(first_at(ledger, who, i + 1));
        }
    }
}

/// Where a search was seen to end is the position.
pub proof fn lemma_position_is(ledger: Seq<Stake>, who: Address, i: int)
    requires
        first_at(ledger, who, i),
    ensures
        position(ledger, who) == i,
{
    lemma_first_at_unique(ledger, who, i, position(ledger, who));
}

/// The running sum only depends on the entries it covers.
pub proof fn lemma_weight_before_agrees(a: Seq<Stake>, b: Seq<Stake>, n: int)
    requires
        n <= a.len(),
        n <= b.len(),
        forall|k: int| 0 <= k < n ==> (#[trigger] a[k]).amount == (#[trigger] b[k]).amount,
    ensures
        weight_before(a, n) == weight_before(b, n),
    decreases n,
{
    if n > 0 {
        lemma_weight_before_agrees(a, b, n - 1);
    }
}

/// The running sum never falls.
pub proof fn lemma_weight_before_grows(ledger: Seq<Stake>, m: int, n: int)
    requires
        m <= n,
    ensures
        weight_before(ledger, m) <= weight_before(ledger, n),
    decreases n - m,
{
    if m < n {
        lemma_weight_before_grows(ledger, m, n - 1);
    }
}

/// Raising one entry raises every running sum that covers it, by as much.
pub proof fn lemma_weight_before_update(ledger: Seq<Stake>, i: int, s: Stake, n: int)
    requires
        0 <= i < ledger.len(),
        n <= ledger.len(),
    ensures
        weight_before(ledger.update(i, s), n) + (if i < n { ledger[i].amount } else { 0 })
            == weight_before(ledger, n) + (if i < n { s.amount } else { 0 }),
    decreases n,
{
    if n > 0 {
        lemma_weight_before_update(ledger, i, s, n - 1);
    }
}

/// Crediting an amount raises the ledger's total by that amount.
pub proof fn lemma_credited_total(ledger: Seq<Stake>, who: Address, amount: nat)
    ensures
        total_weight(credited(ledger, who, amount)) == total_weight(ledger) + amount,
{
    lemma_position(ledger, who);
    let i = position(ledger, who);
    let n = ledger.len() as int;
    if i < n {
        let raised = Stake { address: who, amount: ledger[i].amount + amount };
        lemma_weight_before_update(ledger, i, raised, n);
    } else {
        let after = ledger.push(Stake { address: who, amount });
        lemma_weight_before_agrees(ledger, after, n);
    }
}

} // verus!
